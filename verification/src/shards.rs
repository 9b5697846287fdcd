//! The shard supervisor: it learns how many shards are wanted, has one loop
//! started for each, tells them all to close when shutdown is requested, and
//! waits until every one of them has returned.

use crate::cache::EntityCache;
use crate::channel::Outbox;
use crate::event::ShardId;
use crate::shard::CloseFrame;
use crate::shard::ShardAction;
use crate::shard::ShardConnection;
use crate::shard::ShardInput;
use crate::shard::ShardMessage;
use crate::shard::ShardOutcome;
use crate::shard::ShardState;
use crate::shard::NORMAL_CLOSURE;
use tokio::sync::broadcast::Receiver;
use vstd::prelude::*;

verus! {

/// Where the supervisor stands.
#[derive(Clone, Copy, Debug, PartialEq, Eq, Structural)]
pub enum FleetPhase {
    /// The shard count has not been asked for yet.
    Idle,
    /// The shard loops run; shutdown has not been requested.
    Running,
    /// The close message went out; the loops are being waited for.
    Draining,
    /// The supervisor has returned.
    Done,
}

/// Why the supervisor itself failed.
#[derive(Clone, Copy, Debug, PartialEq, Eq, Structural)]
pub enum FleetError {
    /// The recommended shard count could not be obtained.
    QueryFailed,
    /// The close message could not be handed to the shard loops.
    CloseUndeliverable,
}

/// One thing that can happen to the supervisor while it waits.
#[derive(Clone, Copy, Debug, PartialEq, Eq, Structural)]
pub enum FleetEvent {
    /// The recommended shard count arrived.
    Recommended(u32),
    /// Asking for the recommended shard count failed.
    QueryFailed,
    /// The shutdown trigger was observed.
    Shutdown,
    /// The loop of the shard with this index returned.
    Joined(u32, ShardOutcome),
}

/// How every shard loop of the fleet ended, by shard index.
#[derive(Debug)]
pub struct FleetReport {
    pub outcomes: Vec<ShardOutcome>,
}

/// What one shard loop is started with: its id, and the receiving end of the
/// channel on which the supervisor tells the loops to close.
#[derive(Debug)]
pub struct ShardSeat {
    pub id: ShardId,
    pub messages: Receiver<ShardMessage>,
}

/// What the supervisor has to do after an event.
#[derive(Debug)]
pub enum FleetAction {
    /// Nothing; keep waiting.
    Wait,
    /// Start one shard loop for each of these seats.
    Spawn(Vec<ShardSeat>),
    /// Return: with the report on all shards, or with the supervisor's own
    /// failure.
    Finish(Result<FleetReport, FleetError>),
}

/// `FleetAction` as plain values.
pub enum FleetActionView {
    Wait,
    Spawn(Seq<ShardId>),
    Finish(Result<Seq<ShardOutcome>, FleetError>),
}

/// The ids of the seats, in order.
pub open spec fn seat_ids(seats: Seq<ShardSeat>) -> Seq<ShardId> {
    Seq::new(seats.len(), |i: int| seats[i].id)
}

impl View for FleetAction {
    type V = FleetActionView;

    open spec fn view(&self) -> FleetActionView {
        match *self {
            FleetAction::Wait => FleetActionView::Wait,
            FleetAction::Spawn(seats) => FleetActionView::Spawn(seat_ids(seats@)),
            FleetAction::Finish(Ok(report)) => FleetActionView::Finish(Ok(report.outcomes@)),
            FleetAction::Finish(Err(error)) => FleetActionView::Finish(Err(error)),
        }
    }
}

/// The ids of a fleet of `total` shards: one for each index below `total`, in
/// order.
pub open spec fn fleet_ids(total: u32) -> Seq<ShardId> {
    Seq::new(total as nat, |i: int| ShardId::at(i as u32, total))
}

/// The message that tells the shard loops to close: a normal closure.
pub open spec fn close_message() -> ShardMessage {
    ShardMessage::Close(CloseFrame { code: NORMAL_CLOSURE })
}

/// The supervisor as plain values.
pub struct FleetView {
    pub phase: FleetPhase,
    /// For each shard, by index, how its loop ended, once it has.
    pub outcomes: Seq<Option<ShardOutcome>>,
    /// The messages handed to the channel that the shard loops listen on.
    pub closes: Seq<ShardMessage>,
}

impl FleetView {
    /// A supervisor that has not started anything.
    pub open spec fn idle() -> FleetView {
        FleetView { phase: FleetPhase::Idle, outcomes: Seq::empty(), closes: Seq::empty() }
    }

    /// Whether every shard loop has returned.
    pub open spec fn all_joined(self) -> bool {
        forall|i: int| 0 <= i < self.outcomes.len() ==> (#[trigger] self.outcomes[i]).is_some()
    }

    /// The report: every shard's outcome, by index.
    pub open spec fn report(self) -> Seq<ShardOutcome> {
        Seq::new(self.outcomes.len(), |i: int| self.outcomes[i].unwrap())
    }

    /// Whether the shard loops have been started and the supervisor has not
    /// returned.
    pub open spec fn live(self) -> bool {
        self.phase is Running || self.phase is Draining
    }

    /// Whether the return of the loop of shard `index` is news: the shard
    /// exists, its outcome is not known yet, and the supervisor still runs.
    pub open spec fn awaits(self, index: u32) -> bool {
        &&& self.live()
        &&& index < self.outcomes.len()
        &&& self.outcomes[index as int].is_none()
    }

    /// The outcomes after the loop of shard `index` returned with `outcome`.
    pub open spec fn joined(self, index: u32, outcome: ShardOutcome) -> FleetView {
        if self.awaits(index) {
            FleetView { outcomes: self.outcomes.update(index as int, Some(outcome)), ..self }
        } else {
            self
        }
    }

    /// The supervisor once the close message has been sent, or could not
    /// be: it has failed if the message could not be delivered, has
    /// returned if no shard loop is left to wait for, and drains otherwise.
    /// Nothing changes unless the shard loops run.
    pub open spec fn close_sent(self, delivered: bool) -> FleetView {
        if self.phase is Running {
            FleetView {
                phase: if delivered && !self.all_joined() {
                    FleetPhase::Draining
                } else {
                    FleetPhase::Done
                },
                ..self
            }
        } else {
            self
        }
    }

    /// What the supervisor has to do once the close message has been sent,
    /// or could not be.
    pub open spec fn close_reaction(self, delivered: bool) -> FleetActionView {
        if !(self.phase is Running) {
            FleetActionView::Wait
        } else if !delivered {
            FleetActionView::Finish(Err(FleetError::CloseUndeliverable))
        } else if self.all_joined() {
            FleetActionView::Finish(Ok(self.report()))
        } else {
            FleetActionView::Wait
        }
    }

    /// Whether the supervisor sends the close message on an event: when
    /// shutdown is observed while the shard loops run.
    pub open spec fn sends_close(self, event: FleetEvent) -> bool {
        self.phase is Running && event is Shutdown
    }

    /// The supervisor after an event. Events that do not belong to the
    /// phase change nothing. `delivered` says whether the close message
    /// could be handed to the shard loops; it matters only when the
    /// supervisor sends one.
    pub open spec fn step(self, event: FleetEvent, delivered: bool) -> FleetView {
        match event {
            FleetEvent::Recommended(total) => if self.phase is Idle {
                FleetView {
                    phase: FleetPhase::Running,
                    outcomes: Seq::new(total as nat, |i: int| None),
                    ..self
                }
            } else {
                self
            },
            FleetEvent::QueryFailed => if self.phase is Idle {
                FleetView { phase: FleetPhase::Done, ..self }
            } else {
                self
            },
            FleetEvent::Shutdown => if self.phase is Running {
                FleetView { closes: self.closes.push(close_message()), ..self }.close_sent(delivered)
            } else {
                self
            },
            FleetEvent::Joined(index, outcome) => if self.live() {
                FleetView {
                    phase: if self.joined(index, outcome).all_joined() {
                        FleetPhase::Done
                    } else {
                        self.phase
                    },
                    ..self.joined(index, outcome)
                }
            } else {
                self
            },
        }
    }

    /// What the supervisor has to do after an event.
    pub open spec fn reaction(self, event: FleetEvent, delivered: bool) -> FleetActionView {
        match event {
            FleetEvent::Recommended(total) => if self.phase is Idle {
                FleetActionView::Spawn(fleet_ids(total))
            } else {
                FleetActionView::Wait
            },
            FleetEvent::QueryFailed => if self.phase is Idle {
                FleetActionView::Finish(Err(FleetError::QueryFailed))
            } else {
                FleetActionView::Wait
            },
            FleetEvent::Shutdown => self.close_reaction(delivered),
            FleetEvent::Joined(index, outcome) => if self.live() && self.joined(index, outcome).all_joined() {
                FleetActionView::Finish(Ok(self.joined(index, outcome).report()))
            } else {
                FleetActionView::Wait
            },
        }
    }

    /// The supervisor after a sequence of events, each with the fate of the
    /// close message that it would send.
    pub open spec fn run(self, events: Seq<(FleetEvent, bool)>) -> FleetView
        decreases events.len(),
    {
        if events.len() == 0 {
            self
        } else {
            self.run(events.drop_last()).step(events.last().0, events.last().1)
        }
    }
}

/// The supervisor of the shard fleet. It owns the channel on which the shard
/// loops are told to close.
pub struct Shards {
    phase: FleetPhase,
    outcomes: Vec<Option<ShardOutcome>>,
    /// The channel that the shard loops listen on, with what was handed
    /// to it.
    closes: Outbox<ShardMessage>,
    /// The channel's first receiver, kept until the close message has been
    /// sent so that the channel is never without one.
    first: Option<Receiver<ShardMessage>>,
}

impl View for Shards {
    type V = FleetView;

    closed spec fn view(&self) -> FleetView {
        FleetView { phase: self.phase, outcomes: self.outcomes@, closes: self.closes@ }
    }
}

impl Shards {
    /// A supervisor that has not started anything.
    pub fn new() -> (shards: Self)
        ensures
            shards@ == FleetView::idle(),
    {
        let (closes, first) = Outbox::new();
        Shards { phase: FleetPhase::Idle, outcomes: Vec::new(), closes, first: Some(first) }
    }

    /// Where the supervisor stands.
    pub fn phase(&self) -> (phase: FleetPhase)
        ensures
            phase == self@.phase,
    {
        self.phase
    }

    /// How the loop of shard `index` ended, if the shard exists and its loop
    /// has returned.
    pub fn outcome_of(&self, index: u32) -> (outcome: Option<ShardOutcome>)
        ensures
            outcome == if index < self@.outcomes.len() {
                self@.outcomes[index as int]
            } else {
                None
            },
    {
        if (index as usize) < self.outcomes.len() {
            self.outcomes[index as usize]
        } else {
            None
        }
    }

    /// One seat for each shard of a fleet of `total`, each with a receiver
    /// of its own.
    fn seats(&self, total: u32) -> (seats: Vec<ShardSeat>)
        ensures
            seat_ids(seats@) == fleet_ids(total),
    {
        let mut seats: Vec<ShardSeat> = Vec::new();
        let mut index: u32 = 0;
        while index < total
            invariant
                index <= total,
                seats@.len() == index,
                forall|i: int| 0 <= i < index ==> seats@[i].id == ShardId::at(i as u32, total),
            decreases total - index,
        {
            let id = ShardId::new(index, total);
            seats.push(ShardSeat { id: id.unwrap(), messages: self.closes.subscribe() });
            index += 1;
        }
        assert(seat_ids(seats@) =~= fleet_ids(total));
        seats
    }

    /// Whether every shard loop has returned.
    fn all_joined(&self) -> (all: bool)
        ensures
            all == self@.all_joined(),
    {
        let mut i: usize = 0;
        while i < self.outcomes.len()
            invariant
                i <= self.outcomes@.len(),
                forall|j: int| 0 <= j < i ==> (#[trigger] self.outcomes@[j]).is_some(),
            decreases self.outcomes@.len() - i,
        {
            if self.outcomes[i].is_none() {
                return false;
            }
            i += 1;
        }
        true
    }

    /// The report on all shards, once every loop has returned.
    fn report(&self) -> (report: FleetReport)
        requires
            self@.all_joined(),
        ensures
            report.outcomes@ == self@.report(),
    {
        let mut outcomes: Vec<ShardOutcome> = Vec::new();
        let mut i: usize = 0;
        while i < self.outcomes.len()
            invariant
                i <= self.outcomes@.len(),
                self@.all_joined(),
                outcomes@.len() == i,
                forall|j: int| 0 <= j < i ==> outcomes@[j] == self@.report()[j],
            decreases self.outcomes@.len() - i,
        {
            assert(self@.outcomes[i as int].is_some());
            outcomes.push(self.outcomes[i].unwrap());
            i += 1;
        }
        assert(outcomes@ =~= self@.report());
        FleetReport { outcomes }
    }

    /// Notes that the loop of shard `index` returned.
    fn record(&mut self, index: u32, outcome: ShardOutcome)
        ensures
            final(self)@ == old(self)@.joined(index, outcome),
    {
        let live = match self.phase {
            FleetPhase::Running => true,
            FleetPhase::Draining => true,
            _ => false,
        };
        if live && (index as usize) < self.outcomes.len() {
            if self.outcomes[index as usize].is_none() {
                self.outcomes.set(index as usize, Some(outcome));
            }
        }
        assert(self@.outcomes =~= old(self)@.joined(index, outcome).outcomes);
    }

    /// What the supervisor does once the close message has been sent, or
    /// could not be: it fails if the message could not be delivered, returns
    /// its report if no shard loop is left to wait for, and waits otherwise.
    /// Does nothing unless the shard loops run.
    pub fn shutdown_sent(&mut self, delivered: bool) -> (action: FleetAction)
        ensures
            final(self)@ == old(self)@.close_sent(delivered),
            action@ == old(self)@.close_reaction(delivered),
    {
        match self.phase {
            FleetPhase::Running => {
                if !delivered {
                    self.phase = FleetPhase::Done;
                    FleetAction::Finish(Err(FleetError::CloseUndeliverable))
                } else if self.all_joined() {
                    self.phase = FleetPhase::Done;
                    FleetAction::Finish(Ok(self.report()))
                } else {
                    self.phase = FleetPhase::Draining;
                    FleetAction::Wait
                }
            },
            _ => FleetAction::Wait,
        }
    }

    /// One step of the supervisor: takes what happened and says what to do
    /// next. The caller asks for the shard count, starts the loops, watches
    /// the shutdown trigger and joins the loops; this function decides.
    ///
    /// When shutdown is observed while the loops run, it hands the close
    /// message, a normal closure, to the channel that the loops listen on,
    /// once; what follows depends on whether the message could be
    /// delivered, as `shutdown_sent` says. In every other case the step is
    /// determined by the event. The supervisor returns its report as soon
    /// as the last shard loop has returned, whether shutdown was requested
    /// or not. A shard loop that failed is recorded like any other, and the
    /// supervisor goes on waiting for the rest.
    pub fn run_server(&mut self, event: FleetEvent) -> (action: FleetAction)
        ensures
            (final(self)@ == old(self)@.step(event, true) && action@ == old(self)@.reaction(event, true)) || (
            old(self)@.sends_close(event) && final(self)@ == old(self)@.step(event, false) && action@
                == old(self)@.reaction(event, false)),
    {
        match event {
            FleetEvent::Recommended(total) => {
                match self.phase {
                    FleetPhase::Idle => {
                        let mut outcomes: Vec<Option<ShardOutcome>> = Vec::new();
                        let mut i: u32 = 0;
                        while i < total
                            invariant
                                i <= total,
                                outcomes@.len() == i,
                                forall|j: int| 0 <= j < i ==> outcomes@[j].is_none(),
                            decreases total - i,
                        {
                            outcomes.push(None);
                            i += 1;
                        }
                        self.outcomes = outcomes;
                        self.phase = FleetPhase::Running;
                        assert(self@.outcomes =~= old(self)@.step(event, true).outcomes);
                        FleetAction::Spawn(self.seats(total))
                    },
                    _ => FleetAction::Wait,
                }
            },
            FleetEvent::QueryFailed => {
                match self.phase {
                    FleetPhase::Idle => {
                        self.phase = FleetPhase::Done;
                        FleetAction::Finish(Err(FleetError::QueryFailed))
                    },
                    _ => FleetAction::Wait,
                }
            },
            FleetEvent::Shutdown => {
                match self.phase {
                    FleetPhase::Running => {
                        let message = ShardMessage::Close(CloseFrame::normal());
                        let delivered = self.closes.send(message).is_some();
                        self.first = None;
                        self.shutdown_sent(delivered)
                    },
                    _ => FleetAction::Wait,
                }
            },
            FleetEvent::Joined(index, outcome) => {
                let live = match self.phase {
                    FleetPhase::Running => true,
                    FleetPhase::Draining => true,
                    _ => false,
                };
                if live {
                    self.record(index, outcome);
                    if self.all_joined() {
                        self.phase = FleetPhase::Done;
                        FleetAction::Finish(Ok(self.report()))
                    } else {
                        FleetAction::Wait
                    }
                } else {
                    FleetAction::Wait
                }
            },
        }
    }

    /// One step of a shard loop: takes what happened to the connection and
    /// says what to do next. An event that is to be handed on has been
    /// recorded in the cache by the time this function returns, so the cache
    /// knows of an event before its handler starts and before the next frame
    /// is read.
    pub fn handle_shard(connection: &mut ShardConnection, input: ShardInput, cache: &mut EntityCache) -> (action:
        ShardAction)
        ensures
            final(connection).id() == old(connection).id(),
            final(connection).state() == old(connection).state().next(input),
            action == old(connection).state().reaction(input),
            final(cache).limit_spec() == old(cache).limit_spec(),
            final(cache)@ == if old(connection).state().records(input) {
                old(cache)@.applied(input->Frame_0.kind_spec(), old(cache).limit_spec())
            } else {
                old(cache)@
            },
    {
        let state = connection.state();
        match state {
            ShardState::Closed => {
                return ShardAction::Continue;
            },
            _ => {},
        }
        let opened = match state {
            ShardState::Connecting => ShardState::Open,
            other => other,
        };
        match input {
            ShardInput::ConnectFailed => {
                connection.advance(ShardState::Closed);
                ShardAction::Finish(ShardOutcome::ConnectFailed)
            },
            ShardInput::SignalLost => {
                connection.advance(ShardState::Closed);
                ShardAction::Finish(ShardOutcome::SignalLost)
            },
            ShardInput::DecodeError => {
                connection.advance(ShardState::Closed);
                ShardAction::Finish(ShardOutcome::DecodeFailed)
            },
            ShardInput::Disconnected => {
                connection.advance(ShardState::Closed);
                ShardAction::Finish(ShardOutcome::Disconnected)
            },
            ShardInput::Connected => {
                connection.advance(opened);
                ShardAction::Continue
            },
            ShardInput::Message(ShardMessage::Close(frame)) => {
                connection.advance(ShardState::Closing);
                match state {
                    ShardState::Closing => ShardAction::Continue,
                    _ => ShardAction::SendClose(frame),
                }
            },
            ShardInput::Frame(event) => {
                if event.is_close() {
                    connection.advance(ShardState::Closed);
                    ShardAction::Finish(ShardOutcome::Closed)
                } else {
                    cache.apply(&event);
                    connection.advance(opened);
                    ShardAction::Dispatch(event)
                }
            },
        }
    }
}

/// A fleet of `total` shards has exactly `total` ids; the id at position `i`
/// is that of shard `i` of `total`; and no two ids are the same.
pub proof fn lemma_fleet_ids(total: u32)
    ensures
        fleet_ids(total).len() == total,
        forall|i: int|
            0 <= i < total ==> (#[trigger] fleet_ids(total)[i]).index_spec() == i && fleet_ids(
                total,
            )[i].total_spec() == total,
        forall|i: int, j: int|
            0 <= i < total && 0 <= j < total && i != j ==> #[trigger] fleet_ids(total)[i]
                != #[trigger] fleet_ids(total)[j],
{
    assert forall|i: int| 0 <= i < total implies (#[trigger] fleet_ids(total)[i]).index_spec() == i
        && fleet_ids(total)[i].total_spec() == total by {
        ShardId::lemma_at(i as u32, total);
    }
}

/// No event removes a shard from the fleet or adds one, once the fleet has
/// been started, and an outcome that was recorded stays as it is.
pub proof fn lemma_step_keeps_fleet(view: FleetView, event: FleetEvent, delivered: bool)
    requires
        !(view.phase is Idle),
    ensures
        view.step(event, delivered).outcomes.len() == view.outcomes.len(),
        !(view.step(event, delivered).phase is Idle),
        forall|i: int|
            0 <= i < view.outcomes.len() && (#[trigger] view.outcomes[i]).is_some() ==> view.step(
                event,
                delivered,
            ).outcomes[i] == view.outcomes[i],
{
}

/// The shard count is fixed when the fleet is started: a supervisor that
/// was told to run `total` shards has `total` shards whatever happens
/// afterwards, and an outcome that was recorded stays as it is.
pub proof fn lemma_fleet_is_fixed(view: FleetView, events: Seq<(FleetEvent, bool)>)
    requires
        !(view.phase is Idle),
    ensures
        view.run(events).outcomes.len() == view.outcomes.len(),
        !(view.run(events).phase is Idle),
        forall|i: int|
            0 <= i < view.outcomes.len() && (#[trigger] view.outcomes[i]).is_some() ==> view.run(
                events,
            ).outcomes[i] == view.outcomes[i],
    decreases events.len(),
{
    if events.len() > 0 {
        lemma_fleet_is_fixed(view, events.drop_last());
        lemma_step_keeps_fleet(view.run(events.drop_last()), events.last().0, events.last().1);
    }
}

/// Starting a fleet of `total` shards asks for exactly the ids of that
/// fleet and leaves the supervisor with `total` shards to wait for.
pub proof fn lemma_start_spawns_fleet(total: u32, delivered: bool)
    ensures
        FleetView::idle().reaction(FleetEvent::Recommended(total), delivered) == FleetActionView::Spawn(
            fleet_ids(total),
        ),
        FleetView::idle().step(FleetEvent::Recommended(total), delivered).outcomes.len() == total,
        FleetView::idle().step(FleetEvent::Recommended(total), delivered).phase is Running,
{
}

/// The supervisor returns a report only when every shard loop has returned,
/// and the report then holds every shard's outcome. While loops are out, it
/// returns its report exactly when the last of them has returned, whether
/// shutdown was requested or not.
pub proof fn lemma_waits_for_all(view: FleetView, event: FleetEvent, delivered: bool)
    ensures
        view.reaction(event, delivered) matches FleetActionView::Finish(Ok(report)) ==> {
            &&& view.step(event, delivered).all_joined()
            &&& view.step(event, delivered).phase is Done
            &&& report.len() == view.outcomes.len()
            &&& forall|i: int|
                0 <= i < report.len() ==> view.step(event, delivered).outcomes[i] == Some(
                    #[trigger] report[i],
                )
        },
        view.phase is Draining && view.step(event, delivered).phase is Done ==> view.step(
            event,
            delivered,
        ).all_joined(),
        view.live() && event is Joined ==> (view.reaction(event, delivered) is Finish <==> view.step(
            event,
            delivered,
        ).all_joined()),
        view.live() && event is Joined && view.step(event, delivered).all_joined() ==> {
            &&& view.step(event, delivered).phase is Done
            &&& view.reaction(event, delivered) == FleetActionView::Finish(
                Ok(view.step(event, delivered).report()),
            )
        },
{
}

/// Whether what was handed to the close channel fits the phase: nothing
/// before shutdown was observed, and one message, a normal closure, while
/// the supervisor drains; never more than that one.
pub open spec fn closes_fit(view: FleetView) -> bool {
    &&& view.closes == Seq::<ShardMessage>::empty() || view.closes == seq![close_message()]
    &&& view.phase is Idle || view.phase is Running ==> view.closes.len() == 0
    &&& view.phase is Draining ==> view.closes.len() == 1
}

/// The close message goes out when shutdown is observed while the loops
/// run, and on no other event.
pub proof fn lemma_close_goes_out_on_shutdown(view: FleetView, event: FleetEvent, delivered: bool)
    ensures
        view.step(event, delivered).closes == if view.sends_close(event) {
            view.closes.push(close_message())
        } else {
            view.closes
        },
        closes_fit(view) ==> closes_fit(view.step(event, delivered)),
{
    if view.sends_close(event) && closes_fit(view) {
        assert(view.closes.push(close_message()) =~= seq![close_message()]);
    }
}

/// Whatever happens to a supervisor, the shard loops are told to close at
/// most once, with a normal closure, and not before shutdown was observed.
pub proof fn lemma_one_close_message(events: Seq<(FleetEvent, bool)>)
    ensures
        closes_fit(FleetView::idle().run(events)),
    decreases events.len(),
{
    if events.len() > 0 {
        lemma_one_close_message(events.drop_last());
        lemma_close_goes_out_on_shutdown(
            FleetView::idle().run(events.drop_last()),
            events.last().0,
            events.last().1,
        );
    }
}

/// A shard loop that failed is recorded like one that ended well: whether
/// the supervisor goes on waiting does not depend on how the loop ended, no
/// outcome makes the supervisor itself fail, and what is known of the other
/// shards stays as it is.
pub proof fn lemma_failure_stops_nothing(
    view: FleetView,
    index: u32,
    failed: ShardOutcome,
    fine: ShardOutcome,
    delivered: bool,
)
    ensures
        view.step(FleetEvent::Joined(index, failed), delivered).phase == view.step(
            FleetEvent::Joined(index, fine),
            delivered,
        ).phase,
        view.reaction(FleetEvent::Joined(index, failed), delivered) is Finish <==> view.reaction(
            FleetEvent::Joined(index, fine),
            delivered,
        ) is Finish,
        !(view.reaction(FleetEvent::Joined(index, failed), delivered) matches FleetActionView::Finish(
            Err(_),
        )),
        forall|other: int|
            0 <= other < view.outcomes.len() && other != index ==> #[trigger] view.step(
                FleetEvent::Joined(index, failed),
                delivered,
            ).outcomes[other] == view.outcomes[other],
        view.awaits(index) ==> view.step(FleetEvent::Joined(index, failed), delivered).outcomes[index as int]
            == Some(failed),
{
    let a = view.joined(index, failed);
    let b = view.joined(index, fine);
    assert(a.outcomes.len() == b.outcomes.len());
    if a.all_joined() {
        assert forall|i: int| 0 <= i < b.outcomes.len() implies (#[trigger] b.outcomes[i]).is_some() by {
            assert(a.outcomes[i].is_some());
        }
    }
    if b.all_joined() {
        assert forall|i: int| 0 <= i < a.outcomes.len() implies (#[trigger] a.outcomes[i]).is_some() by {
            assert(b.outcomes[i].is_some());
        }
    }
}

} // verus!
