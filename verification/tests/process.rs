use overbot::process::ProcessAction;
use overbot::process::ProcessSupervisor;
use overbot::process::Subsystem;
use overbot::process::TaskOutcome;
use overbot::trigger::FireOutcome;
use overbot::trigger::ObserverState;
use overbot::trigger::ShutdownTrigger;

#[test]
fn first_task_to_end_fires_the_trigger() {
    let mut trigger = ShutdownTrigger::new();
    let mut supervisor = ProcessSupervisor::new(&mut trigger);
    let web = trigger.receiver().observer;
    let discord = trigger.receiver().observer;
    let action = supervisor.task_joined(TaskOutcome::Completed(Subsystem::ExitWaiter), &mut trigger);
    assert_eq!(action, ProcessAction::Fired(FireOutcome::Notified(3)));
    assert!(trigger.is_fired());
    assert!(trigger.poll(web));
    assert!(trigger.poll(discord));
}

#[test]
fn a_failing_task_fires_the_trigger_too() {
    for outcome in [TaskOutcome::Failed(Subsystem::WebServer), TaskOutcome::Crashed] {
        let mut trigger = ShutdownTrigger::new();
        let mut supervisor = ProcessSupervisor::new(&mut trigger);
        let action = supervisor.task_joined(outcome, &mut trigger);
        assert_eq!(action, ProcessAction::Fired(FireOutcome::Notified(1)));
        assert!(trigger.is_fired());
        assert!(supervisor.failed());
    }
}

#[test]
fn later_tasks_leave_the_trigger_alone() {
    let mut trigger = ShutdownTrigger::new();
    let mut supervisor = ProcessSupervisor::new(&mut trigger);
    let other = trigger.receiver().observer;
    supervisor.task_joined(TaskOutcome::Failed(Subsystem::DiscordServer), &mut trigger);
    assert!(trigger.poll(other));
    for outcome in [
        TaskOutcome::Completed(Subsystem::WebServer),
        TaskOutcome::Completed(Subsystem::ExitWaiter),
        TaskOutcome::Completed(Subsystem::InterruptListener),
    ] {
        assert_eq!(supervisor.task_joined(outcome, &mut trigger), ProcessAction::Nothing);
    }
    assert_eq!(trigger.state_of(other), Some(ObserverState::Notified));
    assert_eq!(
        supervisor.outcomes(),
        &vec![
            TaskOutcome::Failed(Subsystem::DiscordServer),
            TaskOutcome::Completed(Subsystem::WebServer),
            TaskOutcome::Completed(Subsystem::ExitWaiter),
            TaskOutcome::Completed(Subsystem::InterruptListener),
        ]
    );
}

#[test]
fn supervisor_does_not_fire_after_someone_else_did() {
    let mut trigger = ShutdownTrigger::new();
    let mut supervisor = ProcessSupervisor::new(&mut trigger);
    // The interrupt listener raises the signal, then returns.
    assert_eq!(trigger.shutdown(), FireOutcome::Notified(1));
    let action = supervisor.task_joined(TaskOutcome::Completed(Subsystem::InterruptListener), &mut trigger);
    assert_eq!(action, ProcessAction::AlreadyRequested);
    assert!(trigger.is_fired());
    assert!(!supervisor.failed());
}

#[test]
fn exit_status_reflects_any_failure() {
    let mut trigger = ShutdownTrigger::new();
    let mut supervisor = ProcessSupervisor::new(&mut trigger);
    assert!(!supervisor.failed());
    supervisor.task_joined(TaskOutcome::Completed(Subsystem::ExitWaiter), &mut trigger);
    supervisor.task_joined(TaskOutcome::Completed(Subsystem::WebServer), &mut trigger);
    assert!(!supervisor.failed());
    supervisor.task_joined(TaskOutcome::Failed(Subsystem::DiscordServer), &mut trigger);
    assert!(supervisor.failed());
    supervisor.task_joined(TaskOutcome::Completed(Subsystem::InterruptListener), &mut trigger);
    assert!(supervisor.failed());
}

#[test]
fn task_outcomes_that_count_as_errors() {
    assert!(!TaskOutcome::Completed(Subsystem::WebServer).is_error());
    assert!(TaskOutcome::Failed(Subsystem::WebServer).is_error());
    assert!(TaskOutcome::Crashed.is_error());
}
