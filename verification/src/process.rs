//! The process supervisor's rule: the first subsystem that ends, for
//! whatever reason, makes the supervisor request shutdown, once; then every
//! remaining subsystem is waited for and its outcome kept.

use crate::trigger::FireOutcome;
use crate::trigger::Observer;
use crate::trigger::ShutdownTrigger;
use crate::trigger::TriggerOp;
use crate::trigger::TriggerView;
use vstd::prelude::*;

verus! {

/// The subsystems that the process runs side by side.
#[derive(Clone, Copy, Debug, PartialEq, Eq, Structural)]
pub enum Subsystem {
    /// The web service.
    WebServer,
    /// The shard supervisor.
    DiscordServer,
    /// The task that only waits for the shutdown signal.
    ExitWaiter,
    /// The task that listens for an interrupt from outside the process.
    InterruptListener,
}

/// How a subsystem's task ended.
#[derive(Clone, Copy, Debug, PartialEq, Eq, Structural)]
pub enum TaskOutcome {
    /// The subsystem returned normally.
    Completed(Subsystem),
    /// The subsystem returned an error.
    Failed(Subsystem),
    /// The task died; which subsystem it ran is not known.
    Crashed,
}

impl TaskOutcome {
    /// Whether the task ended in failure.
    pub open spec fn is_error_spec(self) -> bool {
        !(self is Completed)
    }

    #[verifier::when_used_as_spec(is_error_spec)]
    pub fn is_error(self) -> (error: bool)
        ensures
            error == self.is_error_spec(),
    {
        match self {
            TaskOutcome::Completed(_) => false,
            _ => true,
        }
    }
}

/// What the supervisor did about shutdown when a task ended.
#[derive(Clone, Copy, Debug, PartialEq, Eq, Structural)]
pub enum ProcessAction {
    /// It requested shutdown, with this result.
    Fired(FireOutcome),
    /// It found that shutdown had been requested by someone else.
    AlreadyRequested,
    /// Nothing: it had dealt with shutdown when an earlier task ended.
    Nothing,
}

/// The process supervisor as plain values.
pub struct ProcessView {
    /// Whether a task has ended before, so that shutdown has been seen to.
    pub sent: bool,
    /// The number of the supervisor's own observer of the trigger.
    pub observer: usize,
    /// The outcomes of the tasks that have ended, in the order in which
    /// they ended.
    pub outcomes: Seq<TaskOutcome>,
}

/// One thing that happens in the process: a task ends, or somebody else
/// uses the trigger.
pub enum ProcessOp {
    /// A subsystem's task ended and the supervisor was told.
    Joined(TaskOutcome),
    /// Another subsystem used the trigger.
    Elsewhere(TriggerOp),
}

impl ProcessView {
    /// Whether the supervisor requests shutdown when the next task ends:
    /// only when the first task ends, and only if its own observer has no
    /// notification pending.
    pub open spec fn fires(self, trigger: TriggerView) -> bool {
        !self.sent && !trigger.delivers(self.observer)
    }

    /// What the supervisor does about shutdown when the next task ends.
    pub open spec fn reaction(self, trigger: TriggerView) -> ProcessAction {
        if self.sent {
            ProcessAction::Nothing
        } else if trigger.delivers(self.observer) {
            ProcessAction::AlreadyRequested
        } else {
            ProcessAction::Fired(trigger.fire_outcome())
        }
    }

    /// The supervisor after a task ended.
    pub open spec fn joined(self, outcome: TaskOutcome) -> ProcessView {
        ProcessView { sent: true, observer: self.observer, outcomes: self.outcomes.push(outcome) }
    }

    /// The trigger after a task ended and the supervisor was told.
    pub open spec fn trigger_after(self, trigger: TriggerView) -> TriggerView {
        if self.sent {
            trigger
        } else if trigger.delivers(self.observer) {
            trigger.poll(self.observer)
        } else {
            trigger.fire()
        }
    }

    /// Whether any task ended in failure.
    pub open spec fn failed(self) -> bool {
        exists|i: int| 0 <= i < self.outcomes.len() && (#[trigger] self.outcomes[i]).is_error_spec()
    }

    /// The supervisor after a sequence of happenings.
    pub open spec fn run(self, trigger: TriggerView, ops: Seq<ProcessOp>) -> ProcessView
        decreases ops.len(),
    {
        if ops.len() == 0 {
            self
        } else {
            let before = self.run(trigger, ops.drop_last());
            match ops.last() {
                ProcessOp::Joined(outcome) => before.joined(outcome),
                ProcessOp::Elsewhere(_) => before,
            }
        }
    }

    /// The trigger after a sequence of happenings.
    pub open spec fn run_trigger(self, trigger: TriggerView, ops: Seq<ProcessOp>) -> TriggerView
        decreases ops.len(),
    {
        if ops.len() == 0 {
            trigger
        } else {
            let before = self.run(trigger, ops.drop_last());
            let trigger_before = self.run_trigger(trigger, ops.drop_last());
            match ops.last() {
                ProcessOp::Joined(_) => before.trigger_after(trigger_before),
                ProcessOp::Elsewhere(op) => trigger_before.step(op),
            }
        }
    }

    /// How often the supervisor requests shutdown in the course of a
    /// sequence of happenings.
    pub open spec fn attempts(self, trigger: TriggerView, ops: Seq<ProcessOp>) -> nat
        decreases ops.len(),
    {
        if ops.len() == 0 {
            0
        } else {
            let earlier = self.attempts(trigger, ops.drop_last());
            let before = self.run(trigger, ops.drop_last());
            let trigger_before = self.run_trigger(trigger, ops.drop_last());
            if ops.last() is Joined && before.fires(trigger_before) {
                earlier + 1
            } else {
                earlier
            }
        }
    }
}

/// The process supervisor: it watches the subsystems' tasks end and sees to
/// it that shutdown is requested when the first one does.
pub struct ProcessSupervisor {
    sent: bool,
    observer: Observer,
    outcomes: Vec<TaskOutcome>,
}

impl View for ProcessSupervisor {
    type V = ProcessView;

    closed spec fn view(&self) -> ProcessView {
        ProcessView { sent: self.sent, observer: self.observer.id(), outcomes: self.outcomes@ }
    }
}

impl ProcessSupervisor {
    /// A supervisor that no task has reported to yet. It subscribes to the
    /// trigger, so that it can tell later whether shutdown was requested by
    /// someone else.
    pub fn new(trigger: &mut ShutdownTrigger) -> (supervisor: Self)
        ensures
            final(trigger)@ == old(trigger)@.subscribe(),
            supervisor@ == (ProcessView {
                sent: false,
                observer: old(trigger)@.observers.len() as usize,
                outcomes: Seq::empty(),
            }),
    {
        let subscription = trigger.receiver();
        ProcessSupervisor { sent: false, observer: subscription.observer, outcomes: Vec::new() }
    }

    /// Takes note that a subsystem's task ended. When the first task ends,
    /// the supervisor requests shutdown, unless its observer shows that
    /// somebody else has; when a later task ends, the trigger is left alone.
    pub fn task_joined(&mut self, outcome: TaskOutcome, trigger: &mut ShutdownTrigger) -> (action:
        ProcessAction)
        ensures
            final(self)@ == old(self)@.joined(outcome),
            final(trigger)@ == old(self)@.trigger_after(old(trigger)@),
            action == old(self)@.reaction(old(trigger)@),
            !old(self)@.sent ==> final(trigger)@.fired,
    {
        let action = if self.sent {
            ProcessAction::Nothing
        } else if trigger.poll(self.observer) {
            assert(trigger@.fired) by {
                assert(trigger@.observers[self.observer.id() as int] is Notified);
            }
            ProcessAction::AlreadyRequested
        } else {
            ProcessAction::Fired(trigger.shutdown())
        };
        self.sent = true;
        self.outcomes.push(outcome);
        action
    }

    /// The outcomes of the tasks that have ended, in the order in which
    /// they ended.
    pub fn outcomes(&self) -> (outcomes: &Vec<TaskOutcome>)
        ensures
            outcomes@ == self@.outcomes,
    {
        &self.outcomes
    }

    /// Whether any task ended in failure; the process's exit status.
    pub fn failed(&self) -> (failed: bool)
        ensures
            failed == self@.failed(),
    {
        let mut i: usize = 0;
        while i < self.outcomes.len()
            invariant
                i <= self.outcomes@.len(),
                forall|j: int| 0 <= j < i ==> !(#[trigger] self.outcomes@[j]).is_error_spec(),
            decreases self.outcomes@.len() - i,
        {
            if self.outcomes[i].is_error() {
                assert(self@.outcomes[i as int].is_error_spec());
                return true;
            }
            i += 1;
        }
        false
    }
}

/// Once a task has ended the supervisor has seen to shutdown, for good.
pub proof fn lemma_run_sent(view: ProcessView, trigger: TriggerView, ops: Seq<ProcessOp>)
    ensures
        view.sent ==> view.run(trigger, ops).sent,
        (exists|i: int| 0 <= i < ops.len() && #[trigger] ops[i] is Joined) ==> view.run(trigger, ops).sent,
        view.run(trigger, ops).observer == view.observer,
    decreases ops.len(),
{
    if ops.len() > 0 {
        let earlier = ops.drop_last();
        lemma_run_sent(view, trigger, earlier);
        if !(ops.last() is Joined) && exists|i: int| 0 <= i < ops.len() && #[trigger] ops[i] is Joined {
            let i = choose|i: int| 0 <= i < ops.len() && #[trigger] ops[i] is Joined;
            assert(earlier[i] is Joined);
        }
    }
}

/// However many tasks end, however close together, and whatever the other
/// subsystems do with the trigger in between: the supervisor requests
/// shutdown at most once, and never after the first task has ended.
pub proof fn lemma_fires_at_most_once(view: ProcessView, trigger: TriggerView, ops: Seq<ProcessOp>)
    ensures
        view.attempts(trigger, ops) <= 1,
        view.sent ==> view.attempts(trigger, ops) == 0,
        !view.run(trigger, ops).sent ==> view.attempts(trigger, ops) == 0,
    decreases ops.len(),
{
    if ops.len() > 0 {
        lemma_fires_at_most_once(view, trigger, ops.drop_last());
        lemma_run_sent(view, trigger, ops.drop_last());
    }
}

/// As soon as one task has ended, for whatever reason, shutdown is
/// requested, by the supervisor or by someone else before it, and no
/// observer of the trigger is left waiting: each has its notification
/// pending or has received it.
pub proof fn lemma_first_end_requests_shutdown(view: ProcessView, trigger: TriggerView, ops: Seq<ProcessOp>)
    requires
        trigger.wf(),
        !view.sent,
        exists|i: int| 0 <= i < ops.len() && #[trigger] ops[i] is Joined,
    ensures
        view.run_trigger(trigger, ops).fired,
        forall|i: int|
            0 <= i < view.run_trigger(trigger, ops).observers.len() ==> !(#[trigger] view.run_trigger(
                trigger,
                ops,
            ).observers[i] is Waiting),
{
    lemma_run_sent(view, trigger, ops);
    lemma_run_keeps_trigger(view, trigger, ops);
}

/// The trigger stays consistent, and stays fired once the supervisor has
/// seen to shutdown.
pub proof fn lemma_run_keeps_trigger(view: ProcessView, trigger: TriggerView, ops: Seq<ProcessOp>)
    requires
        trigger.wf(),
        view.sent ==> trigger.fired,
    ensures
        view.run_trigger(trigger, ops).wf(),
        view.run(trigger, ops).sent ==> view.run_trigger(trigger, ops).fired,
    decreases ops.len(),
{
    if ops.len() > 0 {
        let earlier = ops.drop_last();
        lemma_run_keeps_trigger(view, trigger, earlier);
        let before = view.run(trigger, earlier);
        let trigger_before = view.run_trigger(trigger, earlier);
        match ops.last() {
            ProcessOp::Joined(_) => {},
            ProcessOp::Elsewhere(op) => {
                crate::trigger::lemma_step_wf(trigger_before, op);
            },
        }
    }
}

} // verus!
