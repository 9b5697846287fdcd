//! The shutdown trigger: one signal that any subsystem may raise and that
//! every observer sees exactly once, whether it subscribed before the signal
//! was raised or after.

use crate::channel::Outbox;
use tokio::sync::broadcast::Receiver;
use vstd::prelude::*;

verus! {

/// Where one observer stands with respect to the shutdown signal.
#[derive(Clone, Copy, Debug, PartialEq, Eq, Structural)]
pub enum ObserverState {
    /// Shutdown has not been requested yet.
    Waiting,
    /// Shutdown was requested and the observer has not taken notice yet.
    Pending,
    /// The observer has received its notification.
    Notified,
}

/// What one call of `ShutdownTrigger::shutdown` reports.
#[derive(Clone, Copy, Debug, PartialEq, Eq, Structural)]
pub enum FireOutcome {
    /// The trigger has so many observers. Each of them has been notified
    /// or has its notification pending.
    Notified(usize),
    /// Nobody has subscribed. This is not a failure.
    NoObservers,
}

/// Handle of one observer of a trigger.
#[derive(Clone, Copy, Debug, PartialEq, Eq, Structural)]
pub struct Observer {
    id: usize,
}

impl Observer {
    /// The observer's number: observers are numbered in the order in which
    /// they subscribed.
    pub closed spec fn id_spec(self) -> usize {
        self.id
    }

    #[verifier::when_used_as_spec(id_spec)]
    pub fn id(self) -> (id: usize)
        ensures
            id == self.id_spec(),
    {
        self.id
    }
}

/// What a new observer is given: its handle, and the receiving end of the
/// channel on which it is woken when there may be something to see.
pub struct Subscription {
    pub observer: Observer,
    pub wake: Receiver<()>,
}

/// How many of the observers are waiting.
pub open spec fn count_waiting(observers: Seq<ObserverState>) -> nat
    decreases observers.len(),
{
    if observers.len() == 0 {
        0
    } else if observers.last() is Waiting {
        count_waiting(observers.drop_last()) + 1
    } else {
        count_waiting(observers.drop_last())
    }
}

/// The observers after shutdown is requested: those that were waiting have
/// a notification pending, the others stand as they stood.
pub open spec fn woken(observers: Seq<ObserverState>) -> Seq<ObserverState> {
    Seq::new(
        observers.len(),
        |i: int|
            if observers[i] is Waiting {
                ObserverState::Pending
            } else {
                observers[i]
            },
    )
}

/// Before the signal every observer waits; after it, none does.
pub open spec fn consistent(fired: bool, observers: Seq<ObserverState>) -> bool {
    forall|i: int| 0 <= i < observers.len() ==> ((#[trigger] observers[i] is Waiting) <==> !fired)
}

/// One operation on a trigger.
pub enum TriggerOp {
    /// Shutdown is requested.
    Fire,
    /// A new observer subscribes.
    Subscribe,
    /// The observer with this number looks for its notification.
    Poll(usize),
}

/// A trigger as plain values.
pub struct TriggerView {
    /// Whether shutdown has been requested.
    pub fired: bool,
    /// The observers in the order in which they subscribed.
    pub observers: Seq<ObserverState>,
    /// How many messages have been handed to the wake channel.
    pub wakes: nat,
}

impl TriggerView {
    /// A trigger that nobody has raised or subscribed to.
    pub open spec fn fresh() -> TriggerView {
        TriggerView { fired: false, observers: Seq::empty(), wakes: 0 }
    }

    /// Before the signal every observer waits; after it, none does. Every
    /// `ShutdownTrigger` is so.
    pub open spec fn wf(self) -> bool {
        consistent(self.fired, self.observers)
    }

    /// The trigger after shutdown is requested: every waiting observer has a
    /// notification pending, one message goes out on the wake channel if
    /// any observer was waiting, and nothing else changes.
    pub open spec fn fire(self) -> TriggerView {
        TriggerView {
            fired: true,
            observers: woken(self.observers),
            wakes: if count_waiting(self.observers) > 0 {
                self.wakes + 1
            } else {
                self.wakes
            },
        }
    }

    /// What a request for shutdown reports: that nobody has subscribed, or
    /// else how many observers there are.
    pub open spec fn fire_outcome(self) -> FireOutcome {
        if self.observers.len() == 0 {
            FireOutcome::NoObservers
        } else {
            FireOutcome::Notified(self.observers.len() as usize)
        }
    }

    /// The trigger after one more observer subscribes. A late subscriber
    /// finds its notification pending at once.
    pub open spec fn subscribe(self) -> TriggerView {
        TriggerView {
            observers: self.observers.push(
                if self.fired {
                    ObserverState::Pending
                } else {
                    ObserverState::Waiting
                },
            ),
            ..self
        }
    }

    /// Whether observer `id` would receive a notification if it looked now.
    pub open spec fn delivers(self, id: usize) -> bool {
        id < self.observers.len() && self.observers[id as int] is Pending
    }

    /// The trigger after observer `id` has looked for its notification.
    pub open spec fn poll(self, id: usize) -> TriggerView {
        if self.delivers(id) {
            TriggerView { observers: self.observers.update(id as int, ObserverState::Notified), ..self }
        } else {
            self
        }
    }

    /// The trigger after one operation.
    pub open spec fn step(self, op: TriggerOp) -> TriggerView {
        match op {
            TriggerOp::Fire => self.fire(),
            TriggerOp::Subscribe => self.subscribe(),
            TriggerOp::Poll(id) => self.poll(id),
        }
    }

    /// The trigger after a sequence of operations.
    pub open spec fn run(self, ops: Seq<TriggerOp>) -> TriggerView
        decreases ops.len(),
    {
        if ops.len() == 0 {
            self
        } else {
            self.run(ops.drop_last()).step(ops.last())
        }
    }

    /// How many notifications observer `id` receives in the course of a
    /// sequence of operations.
    pub open spec fn deliveries(self, ops: Seq<TriggerOp>, id: usize) -> nat
        decreases ops.len(),
    {
        if ops.len() == 0 {
            0
        } else {
            let earlier = self.deliveries(ops.drop_last(), id);
            if ops.last() == TriggerOp::Poll(id) && self.run(ops.drop_last()).delivers(id) {
                earlier + 1
            } else {
                earlier
            }
        }
    }
}

/// Whether shutdown was requested, and where each observer stands.
struct Registry {
    fired: bool,
    observers: Vec<ObserverState>,
}

impl Registry {
    #[verifier::type_invariant]
    spec fn inv(self) -> bool {
        consistent(self.fired, self.observers@)
    }

    fn new() -> (registry: Self)
        ensures
            !registry.fired,
            registry.observers@ == Seq::<ObserverState>::empty(),
    {
        Registry { fired: false, observers: Vec::new() }
    }

    /// Marks shutdown as requested and every waiting observer as pending.
    /// Returns how many observers there are and how many were waiting.
    fn fire(&mut self) -> (counts: (usize, usize))
        ensures
            final(self).fired,
            final(self).observers@ == woken(old(self).observers@),
            counts.0 == old(self).observers@.len(),
            counts.1 == count_waiting(old(self).observers@),
            consistent(final(self).fired, final(self).observers@),
    {
        let mut observers: Vec<ObserverState> = Vec::new();
        core::mem::swap(&mut self.observers, &mut observers);
        self.fired = true;
        let count = observers.len();
        let mut waiting: usize = 0;
        let mut i: usize = 0;
        while i < count
            invariant
                count == observers@.len(),
                count == old(self).observers@.len(),
                i <= count,
                waiting <= i,
                waiting == count_waiting(old(self).observers@.take(i as int)),
                forall|j: int| 0 <= j < i ==> observers@[j] == woken(old(self).observers@)[j],
                forall|j: int| i <= j < count ==> observers@[j] == old(self).observers@[j],
            decreases count - i,
        {
            proof {
                let seen = old(self).observers@.take(i as int + 1);
                assert(seen.drop_last() =~= old(self).observers@.take(i as int));
                assert(seen.last() == old(self).observers@[i as int]);
            }
            match observers[i] {
                ObserverState::Waiting => {
                    observers.set(i, ObserverState::Pending);
                    waiting += 1;
                },
                _ => {},
            }
            i += 1;
        }
        proof {
            assert(old(self).observers@.take(count as int) =~= old(self).observers@);
            assert(observers@ =~= woken(old(self).observers@));
        }
        self.observers = observers;
        (count, waiting)
    }

    /// Adds an observer and returns its number.
    fn subscribe(&mut self) -> (id: usize)
        ensures
            final(self).fired == old(self).fired,
            final(self).observers@ == old(self).observers@.push(
                if old(self).fired {
                    ObserverState::Pending
                } else {
                    ObserverState::Waiting
                },
            ),
            id == old(self).observers@.len(),
            consistent(final(self).fired, final(self).observers@),
    {
        proof {
            use_type_invariant(&*self);
        }
        let mut observers: Vec<ObserverState> = Vec::new();
        core::mem::swap(&mut self.observers, &mut observers);
        let id = observers.len();
        let state = if self.fired {
            ObserverState::Pending
        } else {
            ObserverState::Waiting
        };
        observers.push(state);
        self.observers = observers;
        id
    }

    /// Takes the notification of observer `id` if it is pending.
    fn poll(&mut self, id: usize) -> (notified: bool)
        ensures
            final(self).fired == old(self).fired,
            notified == (id < old(self).observers@.len() && old(self).observers@[id as int] is Pending),
            final(self).observers@ == if notified {
                old(self).observers@.update(id as int, ObserverState::Notified)
            } else {
                old(self).observers@
            },
            consistent(final(self).fired, final(self).observers@),
    {
        proof {
            use_type_invariant(&*self);
        }
        let mut observers: Vec<ObserverState> = Vec::new();
        core::mem::swap(&mut self.observers, &mut observers);
        let notified = if id < observers.len() {
            match observers[id] {
                ObserverState::Pending => {
                    observers.set(id, ObserverState::Notified);
                    true
                },
                _ => false,
            }
        } else {
            false
        };
        self.observers = observers;
        notified
    }
}

/// The process-wide shutdown signal and the observers registered with it. A
/// task that waits for the signal sleeps on the wake channel and polls the
/// trigger whenever it is woken.
pub struct ShutdownTrigger {
    registry: Registry,
    wake: Outbox<()>,
}

impl View for ShutdownTrigger {
    type V = TriggerView;

    closed spec fn view(&self) -> TriggerView {
        TriggerView {
            fired: self.registry.fired,
            observers: self.registry.observers@,
            wakes: self.wake@.len(),
        }
    }
}

impl ShutdownTrigger {
    /// A trigger that has not been raised and has no observers.
    pub fn new() -> (trigger: Self)
        ensures
            trigger@ == TriggerView::fresh(),
    {
        let (wake, _) = Outbox::new();
        ShutdownTrigger { registry: Registry::new(), wake }
    }

    /// Requests shutdown. Every observer that was waiting has its
    /// notification pending afterwards, and if there was one, a message is
    /// handed to the wake channel; raising the signal again changes
    /// nothing. Never fails, however many observers there are.
    pub fn shutdown(&mut self) -> (outcome: FireOutcome)
        ensures
            final(self)@ == old(self)@.fire(),
            outcome == old(self)@.fire_outcome(),
            final(self)@.wf(),
    {
        let (count, waiting) = self.registry.fire();
        if waiting > 0 {
            let _ = self.wake.send(());
        }
        if count == 0 {
            FireOutcome::NoObservers
        } else {
            FireOutcome::Notified(count)
        }
    }

    /// Registers a new observer. If shutdown was requested already, its
    /// notification is pending at once.
    pub fn receiver(&mut self) -> (subscription: Subscription)
        ensures
            final(self)@ == old(self)@.subscribe(),
            subscription.observer.id() == old(self)@.observers.len(),
            final(self)@.wf(),
    {
        let id = self.registry.subscribe();
        Subscription { observer: Observer { id }, wake: self.wake.subscribe() }
    }

    /// Looks for the observer's notification and takes it if it is pending.
    /// Returns whether there was one: for each observer this happens once.
    pub fn poll(&mut self, observer: Observer) -> (notified: bool)
        ensures
            notified == old(self)@.delivers(observer.id()),
            final(self)@ == old(self)@.poll(observer.id()),
            final(self)@.wf(),
    {
        self.registry.poll(observer.id)
    }

    /// Whether shutdown has been requested.
    pub fn is_fired(&self) -> (fired: bool)
        ensures
            fired == self@.fired,
            self@.wf(),
    {
        proof {
            use_type_invariant(&self.registry);
        }
        self.registry.fired
    }

    /// How many observers have subscribed.
    pub fn observer_count(&self) -> (count: usize)
        ensures
            count == self@.observers.len(),
            self@.wf(),
    {
        proof {
            use_type_invariant(&self.registry);
        }
        self.registry.observers.len()
    }

    /// Where an observer stands, or `None` if the trigger has no such
    /// observer.
    pub fn state_of(&self, observer: Observer) -> (state: Option<ObserverState>)
        ensures
            state.is_some() <==> observer.id() < self@.observers.len(),
            state matches Some(s) ==> s == self@.observers[observer.id() as int],
    {
        if observer.id < self.registry.observers.len() {
            Some(self.registry.observers[observer.id])
        } else {
            None
        }
    }
}

/// Every operation keeps a trigger consistent.
pub proof fn lemma_step_wf(view: TriggerView, op: TriggerOp)
    requires
        view.wf(),
    ensures
        view.step(op).wf(),
{
}

/// Every sequence of operations keeps a trigger consistent.
pub proof fn lemma_run_wf(view: TriggerView, ops: Seq<TriggerOp>)
    requires
        view.wf(),
    ensures
        view.run(ops).wf(),
    decreases ops.len(),
{
    if ops.len() > 0 {
        lemma_run_wf(view, ops.drop_last());
        lemma_step_wf(view.run(ops.drop_last()), ops.last());
    }
}

/// Before shutdown is requested every observer there is waits; afterwards
/// none does.
pub proof fn lemma_waiting_count(fired: bool, observers: Seq<ObserverState>)
    requires
        consistent(fired, observers),
    ensures
        count_waiting(observers) == if fired {
            0
        } else {
            observers.len()
        },
    decreases observers.len(),
{
    if observers.len() > 0 {
        let rest = observers.drop_last();
        assert forall|i: int| 0 <= i < rest.len() implies ((#[trigger] rest[i] is Waiting) <==> !fired) by {
            assert(rest[i] == observers[i]);
        }
        lemma_waiting_count(fired, rest);
    }
}

/// A message goes out on the wake channel with the first request for
/// shutdown, if the trigger has an observer then, and with no later one.
pub proof fn lemma_wakes_with_first_request(view: TriggerView)
    requires
        view.wf(),
    ensures
        view.fire().wakes == if !view.fired && view.observers.len() > 0 {
            view.wakes + 1
        } else {
            view.wakes
        },
{
    lemma_waiting_count(view.fired, view.observers);
}

/// Whatever is done to a fresh trigger, at most one message is ever handed
/// to the wake channel, and none before shutdown is requested.
pub proof fn lemma_one_wake(ops: Seq<TriggerOp>)
    ensures
        TriggerView::fresh().run(ops).wakes <= 1,
        !TriggerView::fresh().run(ops).fired ==> TriggerView::fresh().run(ops).wakes == 0,
    decreases ops.len(),
{
    if ops.len() > 0 {
        let before = TriggerView::fresh().run(ops.drop_last());
        lemma_one_wake(ops.drop_last());
        lemma_run_wf(TriggerView::fresh(), ops.drop_last());
        lemma_wakes_with_first_request(before);
    }
}

/// Requesting shutdown twice is the same as requesting it once, and reports
/// the same.
pub proof fn lemma_fire_idempotent(view: TriggerView)
    ensures
        view.fire().fire() == view.fire(),
        view.fire().fired,
        view.fire().fire_outcome() == view.fire_outcome(),
{
    assert(woken(woken(view.observers)) =~= woken(view.observers));
    lemma_waiting_count(true, woken(view.observers));
}

/// An observer that subscribes after shutdown was requested receives its
/// notification the first time it looks.
pub proof fn lemma_late_subscriber_notified(view: TriggerView)
    requires
        view.fired,
        view.observers.len() <= usize::MAX,
    ensures
        view.subscribe().delivers(view.observers.len() as usize),
{
}

/// Operations never remove an observer, and once shutdown is requested it
/// stays requested.
pub proof fn lemma_run_monotone(view: TriggerView, ops: Seq<TriggerOp>)
    ensures
        view.run(ops).observers.len() >= view.observers.len(),
        view.fired ==> view.run(ops).fired,
        ops.contains(TriggerOp::Fire) ==> view.run(ops).fired,
    decreases ops.len(),
{
    if ops.len() > 0 {
        let earlier = ops.drop_last();
        lemma_run_monotone(view, earlier);
        if ops.contains(TriggerOp::Fire) && ops.last() != TriggerOp::Fire {
            let i = choose|i: int| 0 <= i < ops.len() && ops[i] == TriggerOp::Fire;
            assert(earlier[i] == TriggerOp::Fire);
            assert(earlier.contains(TriggerOp::Fire));
        }
    }
}

/// Whatever is done to a fresh trigger, in whatever order and however often
/// shutdown is requested: no observer receives more than one notification,
/// an observer has received one exactly if it stands as notified, and once
/// shutdown has been requested every observer either has received its
/// notification or receives it the next time it looks.
pub proof fn lemma_notified_exactly_once(ops: Seq<TriggerOp>, id: usize)
    requires
        id < TriggerView::fresh().run(ops).observers.len(),
    ensures
        ({
            let start = TriggerView::fresh();
            let end = start.run(ops);
            &&& start.deliveries(ops, id) <= 1
            &&& start.deliveries(ops, id) == 1 <==> end.observers[id as int] is Notified
            &&& end.fired ==> (start.deliveries(ops, id) == 0 <==> end.delivers(id))
            &&& end.fired ==> start.deliveries(ops, id) + end.deliveries(seq![TriggerOp::Poll(id)], id) == 1
            &&& !end.fired ==> start.deliveries(ops, id) == 0
        }),
{
    let start = TriggerView::fresh();
    lemma_deliveries_track_state(start, ops, id);
    lemma_run_wf(start, ops);
    let end = start.run(ops);
    let once = seq![TriggerOp::Poll(id)];
    assert(once.drop_last() =~= Seq::<TriggerOp>::empty());
    assert(end.run(once.drop_last()) == end);
    assert(end.deliveries(once.drop_last(), id) == 0);
}

/// The number of notifications an observer has received, counted from a
/// state in which it did not exist yet or had received none, is one if it
/// stands as notified and zero if not.
pub proof fn lemma_deliveries_track_state(view: TriggerView, ops: Seq<TriggerOp>, id: usize)
    requires
        view.wf(),
        id < view.observers.len() ==> !(view.observers[id as int] is Notified),
        id < view.run(ops).observers.len(),
    ensures
        view.deliveries(ops, id) == if view.run(ops).observers[id as int] is Notified {
            1nat
        } else {
            0nat
        },
    decreases ops.len(),
{
    if ops.len() > 0 {
        let earlier = ops.drop_last();
        let before = view.run(earlier);
        lemma_run_wf(view, earlier);
        lemma_run_monotone(view, earlier);
        if id < before.observers.len() {
            lemma_deliveries_track_state(view, earlier, id);
        } else {
            lemma_no_delivery_before_subscription(view, earlier, id);
        }
    }
}

/// An observer that has not subscribed yet has received nothing.
pub proof fn lemma_no_delivery_before_subscription(view: TriggerView, ops: Seq<TriggerOp>, id: usize)
    requires
        id >= view.run(ops).observers.len(),
    ensures
        view.deliveries(ops, id) == 0,
    decreases ops.len(),
{
    if ops.len() > 0 {
        let earlier = ops.drop_last();
        lemma_step_keeps_observers(view.run(earlier), ops.last());
        lemma_no_delivery_before_subscription(view, earlier, id);
    }
}

/// No operation removes an observer.
pub proof fn lemma_step_keeps_observers(view: TriggerView, op: TriggerOp)
    ensures
        view.step(op).observers.len() >= view.observers.len(),
{
}

} // verus!
