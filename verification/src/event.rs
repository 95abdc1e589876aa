//! Events and the order in which they are delivered.

use vstd::prelude::*;

verus! {

/// Identifier of a simulation component.
pub type Id = u32;

/// Identifier of an event: its sequence number within one simulation.
pub type EventId = u64;

/// Key extracted from a payload for selective receive.
pub type EventKey = u64;

/// Stable tag of a registered payload type.
pub type TypeTag = u64;

/// Simulated time, in ticks.
pub type Time = u64;

/// Identifier of an asynchronous task.
pub type TaskId = u64;

/// What an event is about: a timer of the engine, or a payload of a registered type.
#[derive(Clone, Copy, Debug)]
pub enum EventKind {
    /// The completion of a sleep.
    Timer,
    /// A payload whose type has this tag.
    Message(TypeTag),
}

impl EventKind {
    /// Whether two kinds are the same.
    pub fn same(&self, other: &EventKind) -> (b: bool)
        ensures
            b == (*self == *other),
    {
        match (*self, *other) {
            (EventKind::Timer, EventKind::Timer) => true,
            (EventKind::Message(a), EventKind::Message(b)) => a == b,
            _ => false,
        }
    }
}

/// What the engine reads of an event; the payload travels separately.
#[derive(Clone, Copy, Debug)]
pub struct EventHeader {
    /// Sequence number, unique per simulation; breaks ties on `time`.
    pub id: EventId,
    /// Time at which the event occurs.
    pub time: Time,
    /// The emitter.
    pub src: Id,
    /// The destination.
    pub dst: Id,
    /// What the event is about.
    pub kind: EventKind,
    /// Key of the payload, for types that have a key extractor.
    pub key: Option<EventKey>,
}

/// An event as it is handed to its receiver.
#[derive(Debug)]
pub struct Event<P> {
    /// Sequence number, unique per simulation.
    pub id: EventId,
    /// Time at which the event occurs.
    pub time: Time,
    /// The emitter.
    pub src: Id,
    /// The destination.
    pub dst: Id,
    /// What the event is about.
    pub kind: EventKind,
    /// Key of the payload, for types that have a key extractor.
    pub key: Option<EventKey>,
    /// The payload; `None` for the engine's own events.
    pub data: Option<P>,
}

impl<P> Event<P> {
    /// The header of this event.
    pub open spec fn header(self) -> EventHeader {
        EventHeader {
            id: self.id,
            time: self.time,
            src: self.src,
            dst: self.dst,
            kind: self.kind,
            key: self.key,
        }
    }

    /// Joins a header with its payload.
    pub fn assemble(header: EventHeader, data: Option<P>) -> (e: Self)
        ensures
            e.header() == header,
            e.data == data,
    {
        Event {
            id: header.id,
            time: header.time,
            src: header.src,
            dst: header.dst,
            kind: header.kind,
            key: header.key,
            data,
        }
    }
}

/// `a` is delivered strictly before `b`: lexicographic order on `(time, id)`.
pub open spec fn earlier(a: EventHeader, b: EventHeader) -> bool {
    a.time < b.time || (a.time == b.time && a.id < b.id)
}

/// `a` is delivered no later than `b`.
pub open spec fn not_later(a: EventHeader, b: EventHeader) -> bool {
    a.time < b.time || (a.time == b.time && a.id <= b.id)
}

impl EventHeader {
    /// Whether this event is delivered strictly before `other`.
    pub fn precedes(&self, other: &EventHeader) -> (b: bool)
        ensures
            b == earlier(*self, *other),
    {
        self.time < other.time || (self.time == other.time && self.id < other.id)
    }
}

} // verus!
