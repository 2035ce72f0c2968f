use nostr_dispatch::supervisor::{SupervisionEvent, Supervisor, SupervisorReaction};

#[test]
fn terminated_children_stop_the_system() {
    let supervisor: Supervisor<()> = Supervisor::default();
    let e = SupervisionEvent::ActorTerminated { reason: Some(String::from("done")) };
    assert_eq!(supervisor.handle_supervisor_evt(&e), SupervisorReaction::StopSystem);
    let e = SupervisionEvent::ActorTerminated { reason: None };
    assert_eq!(supervisor.handle_supervisor_evt(&e), SupervisorReaction::StopSystem);
}

#[test]
fn panicked_children_are_reported_and_stop_the_system() {
    let supervisor: Supervisor<()> = Supervisor::default();
    let e = SupervisionEvent::ActorPanicked { message: String::from("boom") };
    assert_eq!(supervisor.handle_supervisor_evt(&e), SupervisorReaction::ReportPanicAndStopSystem);
}

#[test]
fn other_supervision_events_are_ignored() {
    let supervisor: Supervisor<()> = Supervisor::default();
    assert_eq!(
        supervisor.handle_supervisor_evt(&SupervisionEvent::ActorStarted),
        SupervisorReaction::Ignore
    );
    assert_eq!(
        supervisor.handle_supervisor_evt(&SupervisionEvent::ProcessGroupChanged),
        SupervisorReaction::Ignore
    );
}
