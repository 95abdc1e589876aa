//! A deterministic discrete-event simulation core.
//!
//! Components emit events with future timestamps; the engine delivers them in
//! `(time, id)` order, routing each either to a task that awaits it or to the
//! destination's callback handler. Simulated time is counted in whole ticks.
//!
//! # Driving a simulation
//!
//! The engine never runs the code of a model. [`Simulation::advance`] decides
//! what happens next and says so in an [`Action`]: poll a task that is ready,
//! hand the next event to the task that awaits it or to the handler of its
//! destination, or stop because nothing is left to do. The driver performs the
//! action (it owns the handlers and the futures of the tasks) and asks again.
//! While it performs an action, the model acts on the simulation through a
//! [`SimulationContext`]: it emits and cancels events, goes to sleep, starts to
//! wait for events and spawns tasks.
//!
//! # What is proved
//!
//! Every operation states the state it leads to as a function of the state it
//! found ([`state::SimState`]), so that equal runs give equal results. Every
//! reachable state satisfies the invariant `SimState::wf` ([`preservation`],
//! [`run`]); the module [`guarantees`] derives from it what a model can rely
//! on: events are delivered in `(time, id)` order and at the time they were
//! emitted for, ids grow, a sleep ends exactly when it should, and the awaiter
//! that registered first wins. The module [`fairness`] shows that the
//! [`UnboundedQueue`] hands every item to exactly one consumer and serves the
//! consumers in the order of their `take` calls.

pub mod awaits;
pub mod context;
pub mod directory;
pub mod event;
pub mod event_queue;
pub mod executor;
pub mod fairness;
pub mod guarantees;
pub mod preservation;
pub mod queue;
pub mod registry;
pub mod run;
pub mod simulation;
pub mod state;
pub mod ticket;

pub use context::SimulationContext;
pub use directory::EventCancellationPolicy;
pub use directory::HandlerKind;
pub use event::Event;
pub use event::EventId;
pub use event::Id;
pub use queue::UnboundedQueue;
pub use simulation::Simulation;
pub use state::Action;
