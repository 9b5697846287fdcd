use overbot::cache::EntityCache;
use overbot::event::InboundEvent;
use overbot::event::ShardId;
use overbot::shard::CloseFrame;
use overbot::shard::ShardAction;
use overbot::shard::ShardConnection;
use overbot::shard::ShardInput;
use overbot::shard::ShardMessage;
use overbot::shard::ShardOutcome;
use overbot::shard::ShardState;
use overbot::shard::NORMAL_CLOSURE;
use overbot::shards::Shards;
use twilight_model::gateway::event::Event;
use twilight_model::gateway::payload::incoming::MessageDelete;
use twilight_model::id::Id;

fn shard_id() -> ShardId {
    ShardId::new(2, 5).expect("shard 2 of 5")
}

fn frame(payload: Event) -> ShardInput {
    ShardInput::Frame(InboundEvent::from_gateway(shard_id(), payload))
}

fn close_message() -> ShardInput {
    ShardInput::Message(ShardMessage::Close(CloseFrame::normal()))
}

fn open_connection(cache: &mut EntityCache) -> ShardConnection {
    let mut connection = ShardConnection::new(shard_id());
    let action = Shards::handle_shard(&mut connection, ShardInput::Connected, cache);
    assert!(matches!(action, ShardAction::Continue));
    assert_eq!(connection.state(), ShardState::Open);
    connection
}

#[test]
fn shard_id_needs_index_below_total() {
    assert!(ShardId::new(0, 0).is_none());
    assert!(ShardId::new(5, 5).is_none());
    assert!(ShardId::new(6, 5).is_none());
    let id = ShardId::new(4, 5).expect("shard 4 of 5");
    assert_eq!(id.index(), 4);
    assert_eq!(id.total(), 5);
    assert_eq!(ShardId::new(4, 5), Some(id));
    assert_ne!(ShardId::new(3, 5), Some(id));
}

#[test]
fn normal_close_frame_has_code_1000() {
    assert_eq!(NORMAL_CLOSURE, 1000);
    assert_eq!(CloseFrame::normal(), CloseFrame { code: 1000 });
}

#[test]
fn only_closed_and_disconnected_are_normal_ends() {
    assert!(!ShardOutcome::Closed.is_error());
    assert!(!ShardOutcome::Disconnected.is_error());
    assert!(ShardOutcome::ConnectFailed.is_error());
    assert!(ShardOutcome::DecodeFailed.is_error());
    assert!(ShardOutcome::SignalLost.is_error());
    assert!(ShardOutcome::Crashed.is_error());
}

#[test]
fn new_connection_is_connecting() {
    let connection = ShardConnection::new(shard_id());
    assert_eq!(connection.state(), ShardState::Connecting);
    assert_eq!(connection.id(), shard_id());
}

#[test]
fn failed_connect_ends_the_loop_with_an_error() {
    let mut cache = EntityCache::new();
    let mut connection = ShardConnection::new(shard_id());
    let action = Shards::handle_shard(&mut connection, ShardInput::ConnectFailed, &mut cache);
    assert!(matches!(action, ShardAction::Finish(ShardOutcome::ConnectFailed)));
    assert_eq!(connection.state(), ShardState::Closed);
}

#[test]
fn shutdown_while_open_sends_one_close_frame_and_keeps_reading() {
    let mut cache = EntityCache::new();
    let mut connection = open_connection(&mut cache);
    let action = Shards::handle_shard(&mut connection, close_message(), &mut cache);
    assert!(matches!(action, ShardAction::SendClose(CloseFrame { code: 1000 })));
    assert_eq!(connection.state(), ShardState::Closing);
    // A second notification sends nothing more.
    let action = Shards::handle_shard(&mut connection, close_message(), &mut cache);
    assert!(matches!(action, ShardAction::Continue));
    assert_eq!(connection.state(), ShardState::Closing);
}

#[test]
fn closing_connection_drains_frames_into_the_cache() {
    let mut cache = EntityCache::new();
    let mut connection = open_connection(&mut cache);
    Shards::handle_shard(&mut connection, close_message(), &mut cache);
    let delete = MessageDelete { channel_id: Id::new(9), guild_id: None, id: Id::new(1) };
    let action = Shards::handle_shard(&mut connection, frame(Event::MessageDelete(delete)), &mut cache);
    match action {
        ShardAction::Dispatch(event) => {
            assert_eq!(event.shard(), shard_id());
            assert!(matches!(event.into_payload(), Event::MessageDelete(_)));
        }
        _ => panic!("the event is handed on"),
    }
    assert_eq!(connection.state(), ShardState::Closing);
    let action = Shards::handle_shard(&mut connection, frame(Event::GatewayClose(None)), &mut cache);
    assert!(matches!(action, ShardAction::Finish(ShardOutcome::Closed)));
    assert_eq!(connection.state(), ShardState::Closed);
}

#[test]
fn abrupt_disconnect_is_a_normal_end() {
    for closing in [false, true] {
        let mut cache = EntityCache::new();
        let mut connection = open_connection(&mut cache);
        if closing {
            Shards::handle_shard(&mut connection, close_message(), &mut cache);
        }
        let action = Shards::handle_shard(&mut connection, ShardInput::Disconnected, &mut cache);
        match action {
            ShardAction::Finish(outcome) => {
                assert_eq!(outcome, ShardOutcome::Disconnected);
                assert!(!outcome.is_error());
            }
            _ => panic!("the loop ends"),
        }
        assert_eq!(connection.state(), ShardState::Closed);
    }
}

#[test]
fn remote_close_without_shutdown_ends_the_loop() {
    let mut cache = EntityCache::new();
    let mut connection = open_connection(&mut cache);
    let action = Shards::handle_shard(&mut connection, frame(Event::GatewayClose(None)), &mut cache);
    assert!(matches!(action, ShardAction::Finish(ShardOutcome::Closed)));
    assert_eq!(connection.state(), ShardState::Closed);
}

#[test]
fn decode_error_is_fatal() {
    let mut cache = EntityCache::new();
    let mut connection = open_connection(&mut cache);
    let action = Shards::handle_shard(&mut connection, ShardInput::DecodeError, &mut cache);
    assert!(matches!(action, ShardAction::Finish(ShardOutcome::DecodeFailed)));
    assert_eq!(connection.state(), ShardState::Closed);
}

#[test]
fn broken_signal_channel_is_fatal() {
    let mut cache = EntityCache::new();
    let mut connection = open_connection(&mut cache);
    let action = Shards::handle_shard(&mut connection, ShardInput::SignalLost, &mut cache);
    assert!(matches!(action, ShardAction::Finish(ShardOutcome::SignalLost)));
    assert_eq!(connection.state(), ShardState::Closed);
}

#[test]
fn first_frame_opens_a_connecting_shard() {
    let mut cache = EntityCache::new();
    let mut connection = ShardConnection::new(shard_id());
    let action = Shards::handle_shard(&mut connection, frame(Event::GatewayHeartbeatAck), &mut cache);
    assert!(matches!(action, ShardAction::Dispatch(_)));
    assert_eq!(connection.state(), ShardState::Open);
}

#[test]
fn closed_connection_does_nothing_more() {
    let mut cache = EntityCache::new();
    let mut connection = open_connection(&mut cache);
    Shards::handle_shard(&mut connection, ShardInput::Disconnected, &mut cache);
    let delete = MessageDelete { channel_id: Id::new(9), guild_id: None, id: Id::new(1) };
    for input in [
        ShardInput::Connected,
        close_message(),
        frame(Event::MessageDelete(delete)),
        ShardInput::DecodeError,
        ShardInput::Disconnected,
    ] {
        let action = Shards::handle_shard(&mut connection, input, &mut cache);
        assert!(matches!(action, ShardAction::Continue));
        assert_eq!(connection.state(), ShardState::Closed);
    }
}
