use overbot::cache::EntityCache;
use overbot::event::InboundEvent;
use overbot::process::ProcessAction;
use overbot::process::ProcessSupervisor;
use overbot::process::Subsystem;
use overbot::process::TaskOutcome;
use overbot::shard::ShardAction;
use overbot::shard::ShardConnection;
use overbot::shard::ShardInput;
use overbot::shard::ShardOutcome;
use overbot::shard::ShardState;
use overbot::shards::FleetAction;
use overbot::shards::FleetEvent;
use overbot::shards::Shards;
use overbot::trigger::FireOutcome;
use overbot::trigger::ShutdownTrigger;
use twilight_model::gateway::event::Event;

/// The whole process on one thread: a shard supervisor with one shard and a
/// sibling service that fails.
#[test]
fn sibling_failure_shuts_the_shard_down_gracefully() {
    let mut trigger = ShutdownTrigger::new();
    let mut process = ProcessSupervisor::new(&mut trigger);
    let mut cache = EntityCache::new();

    // The shard supervisor starts with a recommended count of one.
    let mut fleet_exit = trigger.receiver();
    let mut fleet = Shards::new();
    let mut seats = match fleet.run_server(FleetEvent::Recommended(1)) {
        FleetAction::Spawn(seats) => seats,
        _ => panic!("the fleet is started"),
    };
    assert_eq!(seats.len(), 1);
    let mut seat = seats.remove(0);
    let mut connection = ShardConnection::new(seat.id);
    Shards::handle_shard(&mut connection, ShardInput::Connected, &mut cache);

    // The sibling service subscribes, runs for a while, then fails.
    let sibling_exit = trigger.receiver();
    let working = InboundEvent::from_gateway(seat.id, Event::GatewayHeartbeatAck);
    assert!(matches!(
        Shards::handle_shard(&mut connection, ShardInput::Frame(working), &mut cache),
        ShardAction::Dispatch(_)
    ));
    assert!(fleet_exit.wake.try_recv().is_err());
    assert!(!trigger.poll(fleet_exit.observer));
    assert!(seat.messages.try_recv().is_err());
    let action = process.task_joined(TaskOutcome::Failed(Subsystem::WebServer), &mut trigger);
    assert_eq!(action, ProcessAction::Fired(FireOutcome::Notified(3)));

    // The shard supervisor is woken, observes the trigger and tells its shard to close.
    assert!(fleet_exit.wake.try_recv().is_ok());
    assert!(trigger.poll(fleet_exit.observer));
    assert!(matches!(fleet.run_server(FleetEvent::Shutdown), FleetAction::Wait));

    // The shard loop receives the notification and sends its close frame.
    let message = seat.messages.try_recv().expect("the shard is told to close");
    let mut close_frames = 0;
    match Shards::handle_shard(&mut connection, ShardInput::Message(message), &mut cache) {
        ShardAction::SendClose(frame) => {
            assert_eq!(frame.code, 1000);
            close_frames += 1;
        }
        _ => panic!("a close frame is sent"),
    }
    assert_eq!(connection.state(), ShardState::Closing);
    assert!(seat.messages.try_recv().is_err());

    // A frame that was in flight is still drained; then the remote confirms.
    let in_flight = InboundEvent::from_gateway(seat.id, Event::Resumed);
    assert!(matches!(
        Shards::handle_shard(&mut connection, ShardInput::Frame(in_flight), &mut cache),
        ShardAction::Dispatch(_)
    ));
    let confirmation = InboundEvent::from_gateway(seat.id, Event::GatewayClose(None));
    let outcome = match Shards::handle_shard(&mut connection, ShardInput::Frame(confirmation), &mut cache) {
        ShardAction::Finish(outcome) => outcome,
        _ => panic!("the loop ends"),
    };
    assert_eq!(outcome, ShardOutcome::Closed);
    assert_eq!(close_frames, 1);

    // The shard supervisor joins its shard and returns its report.
    let report = match fleet.run_server(FleetEvent::Joined(0, outcome)) {
        FleetAction::Finish(Ok(report)) => report,
        _ => panic!("the supervisor returns"),
    };
    assert_eq!(report.outcomes, vec![ShardOutcome::Closed]);
    assert!(report.outcomes.iter().all(|outcome| *outcome != ShardOutcome::DecodeFailed));

    // The sibling's own observer sees the signal too; the remaining tasks
    // end, and nobody fires again.
    assert!(trigger.poll(sibling_exit.observer));
    assert!(!trigger.poll(sibling_exit.observer));
    for ended in [
        TaskOutcome::Completed(Subsystem::DiscordServer),
        TaskOutcome::Completed(Subsystem::ExitWaiter),
        TaskOutcome::Completed(Subsystem::InterruptListener),
    ] {
        assert_eq!(process.task_joined(ended, &mut trigger), ProcessAction::Nothing);
    }
    assert!(process.failed());
    assert_eq!(
        process.outcomes(),
        &vec![
            TaskOutcome::Failed(Subsystem::WebServer),
            TaskOutcome::Completed(Subsystem::DiscordServer),
            TaskOutcome::Completed(Subsystem::ExitWaiter),
            TaskOutcome::Completed(Subsystem::InterruptListener),
        ]
    );
}
