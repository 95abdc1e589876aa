//! The await registry: which tasks wait for which events.

use crate::event::{EventHeader, EventKey, EventKind, Id, TaskId, TypeTag};
use vstd::prelude::*;

verus! {

/// Identifier of a pending await: its registration ordinal.
pub type AwaitId = u64;

/// A registered intent to receive one event.
#[derive(Clone, Copy, Debug)]
pub struct Await {
    /// Registration ordinal; the smaller one wins among awaits that match the same event.
    pub id: AwaitId,
    /// The task to wake.
    pub task: TaskId,
    /// The component the event must be addressed to.
    pub dst: Id,
    /// The emitter the event must come from, if restricted.
    pub src: Option<Id>,
    /// The kind of event waited for.
    pub kind: EventKind,
    /// The key the event must carry, if restricted.
    pub key: Option<EventKey>,
}

/// Whether await `a` accepts event `e`.
pub open spec fn accepts(a: Await, e: EventHeader) -> bool {
    &&& a.dst == e.dst
    &&& a.kind == e.kind
    &&& (a.src matches Some(s) ==> s == e.src)
    &&& (a.key matches Some(k) ==> e.key == Some(k))
}

/// Index of the first await from position `from` on that accepts `e`.
pub open spec fn first_accepting_from(s: Seq<Await>, e: EventHeader, from: int) -> Option<int>
    decreases s.len() - from,
{
    if from < 0 || from >= s.len() {
        None
    } else if accepts(s[from], e) {
        Some(from)
    } else {
        first_accepting_from(s, e, from + 1)
    }
}

/// Index of the first await that accepts `e`.
pub open spec fn first_accepting(s: Seq<Await>, e: EventHeader) -> Option<int> {
    first_accepting_from(s, e, 0)
}

/// Ordinals grow along the sequence and stay below `count`.
pub open spec fn ordinals_ordered(s: Seq<Await>, count: nat) -> bool {
    &&& forall|i: int, j: int| 0 <= i < j < s.len() ==> (#[trigger] s[i]).id < (#[trigger] s[j]).id
    &&& forall|i: int| 0 <= i < s.len() ==> (#[trigger] s[i]).id < count
}

/// Index of the await with ordinal `id` from position `from` on.
pub open spec fn position_from(s: Seq<Await>, id: AwaitId, from: int) -> Option<int>
    decreases s.len() - from,
{
    if from < 0 || from >= s.len() {
        None
    } else if s[from].id == id {
        Some(from)
    } else {
        position_from(s, id, from + 1)
    }
}

/// The awaits without the one with ordinal `id`.
pub open spec fn without(s: Seq<Await>, id: AwaitId) -> Seq<Await> {
    match position_from(s, id, 0) {
        Some(i) => s.remove(i),
        None => s,
    }
}

/// What `first_accepting_from` finds is the least accepting index.
pub proof fn lemma_first_accepting(s: Seq<Await>, e: EventHeader, from: int)
    requires
        0 <= from,
    ensures
        match first_accepting_from(s, e, from) {
            Some(i) => from <= i < s.len() && accepts(s[i], e) && forall|j: int|
                from <= j < i ==> !accepts(#[trigger] s[j], e),
            None => forall|j: int| from <= j < s.len() ==> !accepts(#[trigger] s[j], e),
        },
    decreases s.len() - from,
{
    if from < s.len() && !accepts(s[from], e) {
        lemma_first_accepting(s, e, from + 1);
    }
}

/// What `position_from` finds holds the ordinal, and nothing before it does.
pub proof fn lemma_position(s: Seq<Await>, id: AwaitId, from: int)
    requires
        0 <= from,
    ensures
        match position_from(s, id, from) {
            Some(i) => from <= i < s.len() && s[i].id == id && forall|j: int|
                from <= j < i ==> (#[trigger] s[j]).id != id,
            None => forall|j: int| from <= j < s.len() ==> (#[trigger] s[j]).id != id,
        },
    decreases s.len() - from,
{
    if from < s.len() && s[from].id != id {
        lemma_position(s, id, from + 1);
    }
}

/// Among the awaits that accept an event, the one chosen has the smallest ordinal.
pub proof fn lemma_smallest_ordinal_wins(s: Seq<Await>, count: nat, e: EventHeader, j: int)
    requires
        ordinals_ordered(s, count),
        0 <= j < s.len(),
        accepts(s[j], e),
    ensures
        first_accepting(s, e) matches Some(i) && s[i].id <= s[j].id,
{
    lemma_first_accepting(s, e, 0);
}

/// The pending awaits, in registration order.
pub struct AwaitRegistry {
    pending: Vec<Await>,
    count: u64,
}

impl View for AwaitRegistry {
    type V = Seq<Await>;

    closed spec fn view(&self) -> Seq<Await> {
        self.pending@
    }
}

impl AwaitRegistry {
    /// The number of awaits registered so far: the next ordinal.
    pub closed spec fn count(&self) -> nat {
        self.count as nat
    }

    /// The representation invariant.
    pub closed spec fn wf(&self) -> bool {
        ordinals_ordered(self.pending@, self.count as nat)
    }

    /// What `wf` says of the view.
    pub proof fn lemma_wf(&self)
        requires
            self.wf(),
        ensures
            ordinals_ordered(self@, self.count()),
            self.count() <= u64::MAX,
    {
    }

    /// A registry without awaits.
    pub fn new() -> (r: Self)
        ensures
            r.wf(),
            r@ == Seq::<Await>::empty(),
            r.count() == 0,
    {
        AwaitRegistry { pending: Vec::new(), count: 0 }
    }

    /// The next ordinal.
    pub fn issued(&self) -> (n: u64)
        ensures
            n == self.count(),
    {
        self.count
    }

    /// Registers an await and returns its ordinal.
    pub fn register(
        &mut self,
        task: TaskId,
        dst: Id,
        src: Option<Id>,
        kind: EventKind,
        key: Option<EventKey>,
    ) -> (id: AwaitId)
        requires
            old(self).wf(),
            old(self).count() < u64::MAX,
        ensures
            final(self).wf(),
            id == old(self).count(),
            final(self).count() == old(self).count() + 1,
            final(self)@ == old(self)@.push((Await { id, task, dst, src, kind, key })),
    {
        let id = self.count;
        self.pending.push(Await { id, task, dst, src, kind, key });
        self.count = self.count + 1;
        id
    }

    /// The number of pending awaits.
    pub fn len(&self) -> (n: usize)
        ensures
            n == self@.len(),
    {
        self.pending.len()
    }

    /// Whether the await with ordinal `id` is pending.
    pub fn is_pending(&self, id: AwaitId) -> (b: bool)
        ensures
            b == position_from(self@, id, 0).is_some(),
    {
        let mut i: usize = 0;
        while i < self.pending.len()
            invariant
                0 <= i <= self.pending@.len(),
                position_from(self.pending@, id, 0) == position_from(self.pending@, id, i as int),
            decreases self.pending@.len() - i,
        {
            if self.pending[i].id == id {
                return true;
            }
            i = i + 1;
        }
        false
    }

    /// Removes the await with ordinal `id`, if it is pending.
    pub fn cancel(&mut self, id: AwaitId) -> (found: bool)
        requires
            old(self).wf(),
        ensures
            final(self).wf(),
            final(self).count() == old(self).count(),
            final(self)@ == without(old(self)@, id),
            found == position_from(old(self)@, id, 0).is_some(),
    {
        let mut i: usize = 0;
        while i < self.pending.len()
            invariant
                self.pending@ == old(self).pending@,
                self.count == old(self).count,
                ordinals_ordered(self.pending@, self.count as nat),
                0 <= i <= self.pending@.len(),
                position_from(self.pending@, id, 0) == position_from(self.pending@, id, i as int),
            decreases self.pending@.len() - i,
        {
            if self.pending[i].id == id {
                self.pending.remove(i);
                return true;
            }
            i = i + 1;
        }
        false
    }

    /// Removes and returns the first await that accepts `e`, if any.
    pub fn claim(&mut self, e: &EventHeader) -> (r: Option<Await>)
        requires
            old(self).wf(),
        ensures
            final(self).wf(),
            final(self).count() == old(self).count(),
            match first_accepting(old(self)@, *e) {
                Some(i) => r == Some(old(self)@[i]) && final(self)@ == old(self)@.remove(i),
                None => r is None && final(self)@ == old(self)@,
            },
    {
        let mut i: usize = 0;
        while i < self.pending.len()
            invariant
                self.pending@ == old(self).pending@,
                self.count == old(self).count,
                ordinals_ordered(self.pending@, self.count as nat),
                0 <= i <= self.pending@.len(),
                first_accepting(self.pending@, *e) == first_accepting_from(
                    self.pending@,
                    *e,
                    i as int,
                ),
            decreases self.pending@.len() - i,
        {
            let a = self.pending[i];
            if Self::admits(&a, e) {
                self.pending.remove(i);
                return Some(a);
            }
            i = i + 1;
        }
        None
    }

    /// Whether await `a` accepts event `e`.
    pub fn admits(a: &Await, e: &EventHeader) -> (b: bool)
        ensures
            b == accepts(*a, *e),
    {
        let src_ok = match a.src {
            Some(s) => s == e.src,
            None => true,
        };
        let key_ok = match a.key {
            Some(k) => match e.key {
                Some(ek) => ek == k,
                None => false,
            },
            None => true,
        };
        a.dst == e.dst && a.kind.same(&e.kind) && src_ok && key_ok
    }

    /// Whether some pending await on payload type `tag` is keyed (`keyed`) or unkeyed (`!keyed`).
    pub fn has_await_on(&self, tag: TypeTag, keyed: bool) -> (b: bool)
        ensures
            b == awaits_on(self@, tag, keyed),
    {
        let mut i: usize = 0;
        while i < self.pending.len()
            invariant
                0 <= i <= self.pending@.len(),
                forall|j: int| 0 <= j < i ==> !is_await_on(#[trigger] self.pending@[j], tag, keyed),
            decreases self.pending@.len() - i,
        {
            let a = self.pending[i];
            let on_tag = match a.kind {
                EventKind::Message(t) => t == tag,
                EventKind::Timer => false,
            };
            let is_keyed = match a.key {
                Some(_) => true,
                None => false,
            };
            if on_tag && is_keyed == keyed {
                return true;
            }
            i = i + 1;
        }
        false
    }
}

/// Whether `a` waits for payload type `tag`, with a key (`keyed`) or without one.
pub open spec fn is_await_on(a: Await, tag: TypeTag, keyed: bool) -> bool {
    a.kind == EventKind::Message(tag) && a.key.is_some() == keyed
}

/// Whether some await in `s` waits for payload type `tag`, with a key or without one.
pub open spec fn awaits_on(s: Seq<Await>, tag: TypeTag, keyed: bool) -> bool {
    exists|j: int| 0 <= j < s.len() && is_await_on(#[trigger] s[j], tag, keyed)
}

} // verus!
