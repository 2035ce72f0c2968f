use std::marker::PhantomData;
use vstd::prelude::*;

verus! {

/// The root actor: it starts the relay event dispatcher and watches it.
/// `T` is the Nostr client that the dispatcher is started with.
pub struct Supervisor<T> {
    _phantom: PhantomData<T>,
}

impl<T> Default for Supervisor<T> {
    fn default() -> Self {
        Supervisor { _phantom: PhantomData }
    }
}

/// A supervision event about a child actor, as far as the supervisor reads it.
pub enum SupervisionEvent {
    /// A child started.
    ActorStarted,
    /// A child stopped, with the reason it gave, if any.
    ActorTerminated { reason: Option<String> },
    /// A child panicked, with the panic message.
    ActorPanicked { message: String },
    /// A process group changed.
    ProcessGroupChanged,
}

/// What the supervisor does about a supervision event.
#[derive(PartialEq, Eq, Structural, Debug, Clone, Copy)]
pub enum SupervisorReaction {
    /// Report the termination and stop the supervisor, and with it the system.
    StopSystem,
    /// Report the panic, count it in the `actor_panicked` metric, and stop
    /// the supervisor, and with it the system.
    ReportPanicAndStopSystem,
    /// Nothing to do.
    Ignore,
}

impl<T> Supervisor<T> {
    /// Errors are logged and the whole system exits: a terminated child
    /// takes the system down; a panicked child is reported, counted, and
    /// takes the system down too; other events are ignored.
    pub fn handle_supervisor_evt(&self, event: &SupervisionEvent) -> (reaction: SupervisorReaction)
        ensures
            (reaction == SupervisorReaction::StopSystem) <==> (*event is ActorTerminated),
            (reaction == SupervisorReaction::ReportPanicAndStopSystem) <==> (*event is ActorPanicked),
            (reaction == SupervisorReaction::Ignore) <==> (*event is ActorStarted
                || *event is ProcessGroupChanged),
    {
        match event {
            SupervisionEvent::ActorTerminated { .. } => SupervisorReaction::StopSystem,
            SupervisionEvent::ActorPanicked { .. } => SupervisorReaction::ReportPanicAndStopSystem,
            SupervisionEvent::ActorStarted => SupervisorReaction::Ignore,
            SupervisionEvent::ProcessGroupChanged => SupervisorReaction::Ignore,
        }
    }
}

} // verus!
