//! One shard's connection as a state machine: what the shard loop does with
//! each thing that can happen to it, and the close handshake that ends it.

use crate::event::InboundEvent;
use crate::event::ShardId;
use vstd::prelude::*;

verus! {

/// The close code for a normal, intended closure.
pub const NORMAL_CLOSURE: u16 = 1000;

/// A close frame to send to the remote end.
#[derive(Clone, Copy, Debug, PartialEq, Eq, Structural)]
pub struct CloseFrame {
    pub code: u16,
}

impl CloseFrame {
    /// The frame that announces a normal closure.
    pub fn normal() -> (frame: CloseFrame)
        ensures
            frame.code == NORMAL_CLOSURE,
    {
        CloseFrame { code: NORMAL_CLOSURE }
    }
}

/// What the supervisor tells its shard loops.
#[derive(Clone, Copy, Debug, PartialEq, Eq, Structural)]
pub enum ShardMessage {
    /// Shutdown was requested: start the close handshake with this frame.
    Close(CloseFrame),
}

/// The life of a shard connection.
#[derive(Clone, Copy, Debug, PartialEq, Eq, Structural)]
pub enum ShardState {
    /// The session is being established.
    Connecting,
    /// The session is up and shutdown has not been requested.
    Open,
    /// A close frame was sent; frames still in flight are drained until the
    /// remote end confirms.
    Closing,
    /// The loop has returned.
    Closed,
}

/// How a shard loop ended.
#[derive(Clone, Copy, Debug, PartialEq, Eq, Structural)]
pub enum ShardOutcome {
    /// The remote end confirmed the closure.
    Closed,
    /// The connection ended without a confirmation.
    Disconnected,
    /// The session could not be established.
    ConnectFailed,
    /// A frame could not be decoded.
    DecodeFailed,
    /// The channel that carries the supervisor's messages broke.
    SignalLost,
    /// The task that ran the loop died.
    Crashed,
}

impl ShardOutcome {
    /// Whether the loop ended in failure. A confirmed closure and an abrupt
    /// disconnect both count as normal ends.
    pub open spec fn is_error_spec(self) -> bool {
        !(self is Closed || self is Disconnected)
    }

    #[verifier::when_used_as_spec(is_error_spec)]
    pub fn is_error(self) -> (error: bool)
        ensures
            error == self.is_error_spec(),
    {
        match self {
            ShardOutcome::Closed => false,
            ShardOutcome::Disconnected => false,
            _ => true,
        }
    }
}

/// One thing that can happen to a shard loop while it waits.
pub enum ShardInput {
    /// The session is established.
    Connected,
    /// The session could not be established.
    ConnectFailed,
    /// The supervisor sent a message.
    Message(ShardMessage),
    /// The channel that carries the supervisor's messages broke.
    SignalLost,
    /// A frame arrived and was decoded.
    Frame(InboundEvent),
    /// A frame arrived and could not be decoded.
    DecodeError,
    /// The connection ended without a close confirmation.
    Disconnected,
}

impl ShardInput {
    /// Whether the input is the remote end's confirmation of closure.
    pub open spec fn confirms_close(self) -> bool {
        self matches ShardInput::Frame(event) && event.kind_spec() is GatewayClose
    }

    /// Whether the input is a frame that carries an event to record and to
    /// hand on.
    pub open spec fn carries_event(self) -> bool {
        self matches ShardInput::Frame(event) && !(event.kind_spec() is GatewayClose)
    }

    /// Whether the input ends a loop that is still running, and how.
    pub open spec fn ending(self) -> Option<ShardOutcome> {
        match self {
            ShardInput::ConnectFailed => Some(ShardOutcome::ConnectFailed),
            ShardInput::SignalLost => Some(ShardOutcome::SignalLost),
            ShardInput::DecodeError => Some(ShardOutcome::DecodeFailed),
            ShardInput::Disconnected => Some(ShardOutcome::Disconnected),
            ShardInput::Frame(event) => if event.kind_spec() is GatewayClose {
                Some(ShardOutcome::Closed)
            } else {
                None
            },
            ShardInput::Connected => None,
            ShardInput::Message(_) => None,
        }
    }
}

/// What the shard loop has to do after an input.
pub enum ShardAction {
    /// Nothing; wait for the next input.
    Continue,
    /// Send this close frame to the remote end, then keep reading.
    SendClose(CloseFrame),
    /// The event has been recorded in the cache; hand it to a handler task
    /// and keep reading.
    Dispatch(InboundEvent),
    /// Return from the loop with this outcome.
    Finish(ShardOutcome),
}

impl ShardState {
    /// The state after an input.
    pub open spec fn next(self, input: ShardInput) -> ShardState {
        if self is Closed || input.ending().is_some() {
            ShardState::Closed
        } else {
            match input {
                ShardInput::Message(_) => ShardState::Closing,
                _ => if self is Connecting {
                    ShardState::Open
                } else {
                    self
                },
            }
        }
    }

    /// What the loop has to do after an input.
    pub open spec fn reaction(self, input: ShardInput) -> ShardAction {
        if self is Closed {
            ShardAction::Continue
        } else if input.ending().is_some() {
            ShardAction::Finish(input.ending().unwrap())
        } else {
            match input {
                ShardInput::Message(ShardMessage::Close(frame)) => if self is Closing {
                    ShardAction::Continue
                } else {
                    ShardAction::SendClose(frame)
                },
                ShardInput::Frame(event) => ShardAction::Dispatch(event),
                _ => ShardAction::Continue,
            }
        }
    }

    /// Whether the cache records the input's event.
    pub open spec fn records(self, input: ShardInput) -> bool {
        !(self is Closed) && input.carries_event()
    }

    /// The state after a sequence of inputs.
    pub open spec fn run(self, inputs: Seq<ShardInput>) -> ShardState
        decreases inputs.len(),
    {
        if inputs.len() == 0 {
            self
        } else {
            self.run(inputs.drop_last()).next(inputs.last())
        }
    }

    /// How many close frames the loop sends in the course of a sequence of
    /// inputs.
    pub open spec fn close_frames(self, inputs: Seq<ShardInput>) -> nat
        decreases inputs.len(),
    {
        if inputs.len() == 0 {
            0
        } else {
            let earlier = self.close_frames(inputs.drop_last());
            if self.run(inputs.drop_last()).reaction(inputs.last()) is SendClose {
                earlier + 1
            } else {
                earlier
            }
        }
    }
}

/// One shard's connection: its place in the fleet and its state.
pub struct ShardConnection {
    id: ShardId,
    state: ShardState,
}

impl ShardConnection {
    /// The shard's id.
    pub closed spec fn id_spec(&self) -> ShardId {
        self.id
    }

    /// The connection's state.
    pub closed spec fn state_spec(&self) -> ShardState {
        self.state
    }

    /// A connection that is about to be established.
    pub fn new(id: ShardId) -> (connection: Self)
        ensures
            connection.id() == id,
            connection.state() == ShardState::Connecting,
    {
        ShardConnection { id, state: ShardState::Connecting }
    }

    #[verifier::when_used_as_spec(id_spec)]
    pub fn id(&self) -> (id: ShardId)
        ensures
            id == self.id_spec(),
    {
        self.id
    }

    #[verifier::when_used_as_spec(state_spec)]
    pub fn state(&self) -> (state: ShardState)
        ensures
            state == self.state_spec(),
    {
        self.state
    }

    /// Moves the connection to the state that follows on an input.
    pub(crate) fn advance(&mut self, next: ShardState)
        ensures
            final(self).id() == old(self).id(),
            final(self).state() == next,
    {
        self.state = next;
    }
}

/// Shutdown starts the close handshake and does not end the loop: an open
/// connection that is told to close sends the frame it was given, moves to
/// `Closing`, and stays there until the remote end confirms, the connection
/// breaks, or an error ends the loop. No message from the supervisor ever
/// takes a running loop to `Closed`.
pub proof fn lemma_shutdown_starts_handshake(frame: CloseFrame, later: ShardInput)
    ensures
        ({
            let close = ShardInput::Message(ShardMessage::Close(frame));
            &&& ShardState::Open.next(close) == ShardState::Closing
            &&& ShardState::Open.reaction(close) == ShardAction::SendClose(frame)
            &&& ShardState::Closing.next(later) is Closed <==> later.ending().is_some()
            &&& ShardState::Closing.next(later) is Closed || ShardState::Closing.next(later) is Closing
            &&& ShardState::Closing.reaction(later) is Finish <==> later.ending().is_some()
            &&& later.confirms_close() ==> ShardState::Closing.reaction(later) == ShardAction::Finish(
                ShardOutcome::Closed,
            )
            &&& later is Disconnected ==> ShardState::Closing.reaction(later) == ShardAction::Finish(
                ShardOutcome::Disconnected,
            )
        }),
{
}

/// A loop leaves the running states only on an input that ends it.
pub proof fn lemma_ends_only_on_ending(state: ShardState, input: ShardInput)
    requires
        !(state is Closed),
    ensures
        state.next(input) is Closed <==> input.ending().is_some(),
        state.reaction(input) is Finish <==> input.ending().is_some(),
        input is Message ==> !(state.next(input) is Closed),
{
}

/// A loop that has returned was ended by one of its inputs: the remote end's
/// confirmation, a broken connection, or an error. Nothing else ends it,
/// whatever the supervisor sends.
pub proof fn lemma_closed_only_by_ending(state: ShardState, inputs: Seq<ShardInput>)
    requires
        !(state is Closed),
        state.run(inputs) is Closed,
    ensures
        exists|i: int| 0 <= i < inputs.len() && (#[trigger] inputs[i]).ending().is_some(),
    decreases inputs.len(),
{
    if inputs.len() > 0 {
        let earlier = inputs.drop_last();
        if state.run(earlier) is Closed {
            lemma_closed_only_by_ending(state, earlier);
            let i = choose|i: int| 0 <= i < earlier.len() && (#[trigger] earlier[i]).ending().is_some();
            assert(inputs[i].ending().is_some());
        } else {
            assert(inputs[inputs.len() - 1].ending().is_some());
        }
    }
}

/// An event is handed on exactly when the cache has recorded it.
pub proof fn lemma_dispatch_after_record(state: ShardState, input: ShardInput)
    ensures
        state.reaction(input) is Dispatch <==> state.records(input),
        state.records(input) ==> state.reaction(input) == ShardAction::Dispatch(input->Frame_0),
{
}

/// Whatever happens to a connection, it sends at most one close frame: none
/// while it is still connecting or open, none if it started out closing or
/// closed, and exactly one by the time it has moved from an open connection
/// to a closing one. A connection that is closing never opens again.
pub proof fn lemma_one_close_frame(state: ShardState, inputs: Seq<ShardInput>)
    ensures
        state.close_frames(inputs) <= 1,
        state is Closing || state is Closed ==> state.close_frames(inputs) == 0,
        state is Closing || state is Closed ==> state.run(inputs) is Closing || state.run(
            inputs,
        ) is Closed,
        state.run(inputs) is Connecting || state.run(inputs) is Open ==> state.close_frames(
            inputs,
        ) == 0,
        (state is Connecting || state is Open) && state.run(inputs) is Closing ==> state.close_frames(
            inputs,
        ) == 1,
    decreases inputs.len(),
{
    if inputs.len() > 0 {
        lemma_one_close_frame(state, inputs.drop_last());
    }
}

/// Whether, at some point in a sequence of inputs, the supervisor tells the
/// loop to close while it is still connecting or open.
pub open spec fn told_to_close(state: ShardState, inputs: Seq<ShardInput>) -> bool
    decreases inputs.len(),
{
    if inputs.len() == 0 {
        false
    } else {
        let before = state.run(inputs.drop_last());
        told_to_close(state, inputs.drop_last()) || (inputs.last() is Message && (before is Connecting
            || before is Open))
    }
}

/// A connection sends exactly one close frame if it is told to close while
/// it is connecting or open, and none if it is not.
pub proof fn lemma_close_frame_iff_told(state: ShardState, inputs: Seq<ShardInput>)
    ensures
        state.close_frames(inputs) == if told_to_close(state, inputs) {
            1nat
        } else {
            0nat
        },
    decreases inputs.len(),
{
    if inputs.len() > 0 {
        lemma_close_frame_iff_told(state, inputs.drop_last());
        lemma_one_close_frame(state, inputs.drop_last());
    }
}

} // verus!
