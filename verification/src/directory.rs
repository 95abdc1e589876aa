//! The component directory: names, ids and handler slots.

use crate::event::{EventHeader, Id};
use vstd::prelude::*;

verus! {

/// The flavor of an event handler.
#[derive(Clone, Copy, Debug, PartialEq, Eq, Structural)]
pub enum HandlerKind {
    /// A callback handler, called with exclusive access.
    Callback,
    /// A shared handler, as the asynchronous mode needs it.
    Static,
}

/// What happens to pending events when a handler is removed.
#[derive(Clone, Copy, Debug, PartialEq, Eq, Structural)]
pub enum EventCancellationPolicy {
    /// No event is canceled.
    Nothing,
    /// The events addressed to the component are canceled.
    Incoming,
    /// The events emitted by the component are canceled.
    Outgoing,
    /// Both of them are canceled.
    Both,
}

/// Whether removing the handler of `id` under `policy` cancels event `e`.
pub open spec fn purged(e: EventHeader, id: Id, policy: EventCancellationPolicy) -> bool {
    match policy {
        EventCancellationPolicy::Nothing => false,
        EventCancellationPolicy::Incoming => e.dst == id,
        EventCancellationPolicy::Outgoing => e.src == id,
        EventCancellationPolicy::Both => e.dst == id || e.src == id,
    }
}

impl EventCancellationPolicy {
    /// Whether removing the handler of `id` under this policy cancels event `e`.
    pub fn cancels(&self, id: Id, e: &EventHeader) -> (b: bool)
        ensures
            b == purged(*e, id, *self),
    {
        match self {
            EventCancellationPolicy::Nothing => false,
            EventCancellationPolicy::Incoming => e.dst == id,
            EventCancellationPolicy::Outgoing => e.src == id,
            EventCancellationPolicy::Both => e.dst == id || e.src == id,
        }
    }
}

/// A component as contracts see it.
pub struct Component {
    /// The unique name.
    pub name: Seq<char>,
    /// The handler bound to the component, if any.
    pub handler: Option<HandlerKind>,
}

/// Index of the component called `name`, if there is one.
pub open spec fn id_of(components: Seq<Component>, name: Seq<char>) -> Option<Id> {
    if exists|i: int| 0 <= i < components.len() && #[trigger] components[i].name == name {
        Some((choose|i: int| 0 <= i < components.len() && #[trigger] components[i].name == name) as Id)
    } else {
        None
    }
}

/// No two components share a name, and every index is an `Id`.
pub open spec fn names_unique(components: Seq<Component>) -> bool {
    &&& components.len() <= u32::MAX
    &&& forall|i: int, j: int|
        0 <= i < j < components.len() ==> (#[trigger] components[i]).name != (
        #[trigger] components[j]).name
}

/// The handler bound to component `id`, if the component exists and has one.
pub open spec fn handler_of(components: Seq<Component>, id: Id) -> Option<HandlerKind> {
    if id < components.len() {
        components[id as int].handler
    } else {
        None
    }
}

/// The components with the handler slot of `id` set to `slot`.
pub open spec fn with_handler(
    components: Seq<Component>,
    id: Id,
    slot: Option<HandlerKind>,
) -> Seq<Component> {
    if id < components.len() {
        components.update(id as int, Component { name: components[id as int].name, handler: slot })
    } else {
        components
    }
}

/// The components of a simulation, indexed by id.
pub struct Directory {
    names: Vec<String>,
    handlers: Vec<Option<HandlerKind>>,
}

impl View for Directory {
    type V = Seq<Component>;

    closed spec fn view(&self) -> Seq<Component> {
        Seq::new(
            self.names@.len(),
            |i: int| Component { name: self.names@[i]@, handler: self.handlers@[i] },
        )
    }
}

impl Directory {
    /// The representation invariant.
    pub closed spec fn wf(&self) -> bool {
        &&& self.names@.len() == self.handlers@.len()
        &&& names_unique(self@)
    }

    /// A directory without components.
    pub fn new() -> (d: Self)
        ensures
            d.wf(),
            d@ == Seq::<Component>::empty(),
    {
        let d = Directory { names: Vec::new(), handlers: Vec::new() };
        d
    }

    /// The number of components.
    pub fn len(&self) -> (n: usize)
        ensures
            n == self@.len(),
    {
        self.names.len()
    }

    /// The id of the component called `name`, if there is one.
    pub fn lookup_id(&self, name: &str) -> (r: Option<Id>)
        requires
            self.wf(),
        ensures
            r == id_of(self@, name@),
            r matches Some(id) ==> id < self@.len() && self@[id as int].name == name@,
    {
        let wanted = name.to_owned();
        let mut i: usize = 0;
        while i < self.names.len()
            invariant
                self.wf(),
                wanted@ == name@,
                0 <= i <= self.names@.len(),
                forall|j: int| 0 <= j < i ==> (#[trigger] self@[j]).name != name@,
            decreases self.names@.len() - i,
        {
            if self.names[i] == wanted {
                proof {
                    assert(self@[i as int].name == name@);
                }
                return Some(i as Id);
            }
            i = i + 1;
        }
        None
    }

    /// The name of component `id`, if the component exists.
    pub fn lookup_name(&self, id: Id) -> (r: Option<String>)
        requires
            self.wf(),
        ensures
            match r {
                Some(name) => id < self@.len() && name@ == self@[id as int].name,
                None => id >= self@.len(),
            },
    {
        if (id as usize) < self.names.len() {
            Some(self.names[id as usize].clone())
        } else {
            None
        }
    }

    /// The handler bound to component `id`, if the component exists and has one.
    pub fn handler(&self, id: Id) -> (r: Option<HandlerKind>)
        requires
            self.wf(),
        ensures
            r == handler_of(self@, id),
    {
        if (id as usize) < self.handlers.len() {
            self.handlers[id as usize]
        } else {
            None
        }
    }

    /// Adds a component called `name`, without a handler, and returns its id.
    pub fn create(&mut self, name: &str) -> (id: Id)
        requires
            old(self).wf(),
            id_of(old(self)@, name@) is None,
            old(self)@.len() < u32::MAX,
        ensures
            final(self).wf(),
            id == old(self)@.len(),
            final(self)@ == old(self)@.push((Component { name: name@, handler: None })),
    {
        let id = self.names.len() as Id;
        self.names.push(name.to_owned());
        self.handlers.push(None);
        proof {
            assert(self@ =~= old(self)@.push((Component { name: name@, handler: None })));
        }
        id
    }

    /// Sets the handler slot of component `id`; an unknown id changes nothing.
    pub fn set_handler(&mut self, id: Id, slot: Option<HandlerKind>)
        requires
            old(self).wf(),
        ensures
            final(self).wf(),
            final(self)@ == with_handler(old(self)@, id, slot),
    {
        if (id as usize) < self.handlers.len() {
            self.handlers.set(id as usize, slot);
            proof {
                assert(self@ =~= with_handler(old(self)@, id, slot));
            }
        }
    }
}

} // verus!
