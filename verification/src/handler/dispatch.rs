//! The routing loop as a state machine.
//!
//! The surrounding program waits on the events channel and tells the
//! dispatcher what happened; the dispatcher answers with the one thing to do.
//! It never blocks and never fails: an event that calls for nothing is
//! answered with `Ignore`.

use crate::callback::{CallbackInfo, CallbackType};
use crate::register::RegisterType;
use crate::time::Timestamp;
use vstd::prelude::*;

verus! {

/// Capacity of the bounded channel between the signal handlers and the
/// routing loop. A handler that finds it full drops its event.
pub const REGISTER_QUEUE_CAPACITY: usize = 6;

/// Seconds after which a blocking wait on a queue gives up and is started
/// again.
pub const POLL_INTERVAL_SECS: u64 = 1;

impl RegisterType {
    /// The occasion whose callback serves this category.
    pub open spec fn occasion(self) -> CallbackType {
        match self {
            RegisterType::ReloadConfig => CallbackType::ReloadConfig,
            RegisterType::WaitForStop => CallbackType::WaitForStop,
            RegisterType::PrintStats => CallbackType::PrintStats,
        }
    }

    /// The occasion whose callback serves this category.
    pub fn callback_type(&self) -> (tp: CallbackType)
        ensures
            tp == self.occasion(),
    {
        match self {
            RegisterType::ReloadConfig => CallbackType::ReloadConfig,
            RegisterType::WaitForStop => CallbackType::WaitForStop,
            RegisterType::PrintStats => CallbackType::PrintStats,
        }
    }
}

/// What the routing loop is told.
#[derive(Debug, Clone, Copy, PartialEq, Eq, Structural, Hash)]
pub enum Event {
    /// The run begins: registration is done and the workers are started.
    Start,
    /// A signal handler posted this category.
    Signal(RegisterType),
    /// The periodic wake-up of a blocking wait passed without an event.
    Timeout,
    /// Every sender of the events channel is gone.
    Closed,
}

/// What the routing loop is to do next.
#[derive(Debug, Clone, PartialEq, Eq, Structural)]
pub enum Action {
    /// Nothing; wait for the next event.
    Ignore,
    /// Run the callback bound to `Initialized` with this snapshot, to its
    /// end, before waiting for the first event.
    Initialize(CallbackInfo),
    /// Offer this snapshot to the queue of this occasion's worker without
    /// blocking. A full or closed queue drops it silently.
    Enqueue(CallbackType, CallbackInfo),
    /// Leave the loop. With a snapshot, first run the callback bound to
    /// `WaitForStop` with it, to its end. Then close every worker's queue and
    /// join every worker.
    Stop(Option<CallbackInfo>),
}

/// Where a run stands.
#[derive(Debug, Clone, Copy, PartialEq, Eq, Structural, Hash)]
pub enum Phase {
    /// Assembled; nothing has been routed and `Initialized` has not run.
    Created,
    /// Routing events.
    Routing,
    /// The terminal transition was taken. Nothing is routed any more.
    Stopped,
}

/// The routing state of one run: its phase, and which occasions have a
/// callback bound.
#[derive(Debug, Clone, Copy, PartialEq, Eq, Structural, Hash)]
pub struct Dispatcher {
    pub phase: Phase,
    pub initialized: bool,
    pub reload_config: bool,
    pub wait_for_stop: bool,
    pub print_stats: bool,
}

impl Dispatcher {
    /// Whether a callback is bound to `tp`.
    pub open spec fn binds(self, tp: CallbackType) -> bool {
        match tp {
            CallbackType::Initialized => self.initialized,
            CallbackType::ReloadConfig => self.reload_config,
            CallbackType::WaitForStop => self.wait_for_stop,
            CallbackType::PrintStats => self.print_stats,
        }
    }

    /// The phase after `event`: `Start` opens the routing, the terminal
    /// category and the closure of the channel end it, and nothing else
    /// changes it.
    pub open spec fn phase_after(self, event: Event) -> Phase {
        match (self.phase, event) {
            (Phase::Created, Event::Start) => Phase::Routing,
            (Phase::Routing, Event::Signal(RegisterType::WaitForStop)) => Phase::Stopped,
            (Phase::Routing, Event::Closed) => Phase::Stopped,
            _ => self.phase,
        }
    }

    /// The dispatcher after `event`.
    pub open spec fn after(self, event: Event) -> Dispatcher {
        Dispatcher { phase: self.phase_after(event), ..self }
    }

    /// The answer to `event` when the clock reads `now`.
    pub open spec fn answer(self, event: Event, now: Timestamp) -> Action {
        let info = CallbackInfo { time: now };
        match (self.phase, event) {
            (Phase::Created, Event::Start) => if self.initialized {
                Action::Initialize(info)
            } else {
                Action::Ignore
            },
            (Phase::Routing, Event::Signal(RegisterType::WaitForStop)) => Action::Stop(
                if self.wait_for_stop {
                    Some(info)
                } else {
                    None
                },
            ),
            (Phase::Routing, Event::Signal(tp)) => if self.binds(tp.occasion()) {
                Action::Enqueue(tp.occasion(), info)
            } else {
                Action::Ignore
            },
            (Phase::Routing, Event::Closed) => Action::Stop(None),
            _ => Action::Ignore,
        }
    }

    /// A dispatcher in its first phase for the given bindings.
    pub fn new(initialized: bool, reload_config: bool, wait_for_stop: bool, print_stats: bool) -> (d:
        Dispatcher)
        ensures
            d == (Dispatcher {
                phase: Phase::Created,
                initialized,
                reload_config,
                wait_for_stop,
                print_stats,
            }),
    {
        Dispatcher { phase: Phase::Created, initialized, reload_config, wait_for_stop, print_stats }
    }

    /// Whether a callback is bound to `tp`.
    pub fn is_bound(&self, tp: CallbackType) -> (r: bool)
        ensures
            r == self.binds(tp),
    {
        match tp {
            CallbackType::Initialized => self.initialized,
            CallbackType::ReloadConfig => self.reload_config,
            CallbackType::WaitForStop => self.wait_for_stop,
            CallbackType::PrintStats => self.print_stats,
        }
    }

    /// Takes one event at clock reading `now`: moves to the next phase and
    /// answers with what to do.
    pub fn dispatch_at(&mut self, event: Event, now: Timestamp) -> (action: Action)
        ensures
            action == old(self).answer(event, now),
            *final(self) == old(self).after(event),
    {
        match self.phase {
            Phase::Created => match event {
                Event::Start => {
                    self.phase = Phase::Routing;
                    if self.initialized {
                        Action::Initialize(CallbackInfo::at(now))
                    } else {
                        Action::Ignore
                    }
                },
                _ => Action::Ignore,
            },
            Phase::Routing => match event {
                Event::Signal(RegisterType::WaitForStop) => {
                    self.phase = Phase::Stopped;
                    if self.wait_for_stop {
                        Action::Stop(Some(CallbackInfo::at(now)))
                    } else {
                        Action::Stop(None)
                    }
                },
                Event::Signal(tp) => {
                    let occasion = tp.callback_type();
                    if self.is_bound(occasion) {
                        Action::Enqueue(occasion, CallbackInfo::at(now))
                    } else {
                        Action::Ignore
                    }
                },
                Event::Closed => {
                    self.phase = Phase::Stopped;
                    Action::Stop(None)
                },
                _ => Action::Ignore,
            },
            Phase::Stopped => Action::Ignore,
        }
    }

    /// Takes one event now: as `dispatch_at` with the current reading of the
    /// system clock, which the contract leaves open.
    pub fn dispatch(&mut self, event: Event) -> (action: Action)
        ensures
            exists|now: Timestamp| action == #[trigger] old(self).answer(event, now),
            *final(self) == old(self).after(event),
    {
        let now = Timestamp::now();
        self.dispatch_at(event, now)
    }
}

/// One event together with the clock reading at which the loop takes it.
#[derive(Debug, Clone, Copy, PartialEq, Eq, Structural)]
pub struct Stamped {
    pub event: Event,
    pub now: Timestamp,
}

impl Phase {
    /// The position of the phase in the order in which a run passes through
    /// the phases.
    pub open spec fn rank(self) -> int {
        match self {
            Phase::Created => 0,
            Phase::Routing => 1,
            Phase::Stopped => 2,
        }
    }
}

impl Dispatcher {
    /// The dispatcher after it has taken `steps` in order.
    pub open spec fn after_all(self, steps: Seq<Stamped>) -> Dispatcher
        decreases steps.len(),
    {
        if steps.len() == 0 {
            self
        } else {
            self.after_all(steps.drop_last()).after(steps.last().event)
        }
    }

    /// The answer to the `i`-th of `steps`, given after the ones before it.
    pub open spec fn answer_to(self, steps: Seq<Stamped>, i: int) -> Action {
        self.after_all(steps.take(i)).answer(steps[i].event, steps[i].now)
    }

    /// Whether the `i`-th of `steps` is answered by running the `Initialized`
    /// callback.
    pub open spec fn initializes(self, steps: Seq<Stamped>, i: int) -> bool {
        0 <= i < steps.len() && self.answer_to(steps, i) is Initialize
    }

    /// Whether the `i`-th of `steps` is routed: answered by handing a
    /// snapshot to a worker or by the terminal transition.
    pub open spec fn routes(self, steps: Seq<Stamped>, i: int) -> bool {
        0 <= i < steps.len() && (self.answer_to(steps, i) is Enqueue || self.answer_to(
            steps,
            i,
        ) is Stop)
    }

    /// Whether the `i`-th of `steps` tells the run to begin.
    pub open spec fn starts(steps: Seq<Stamped>, i: int) -> bool {
        0 <= i < steps.len() && steps[i].event is Start
    }
}

impl Dispatcher {
    /// Takes a recorded batch of events in order, each at the clock reading
    /// recorded with it, and answers each of them.
    pub fn dispatch_all(&mut self, steps: &[Stamped]) -> (actions: Vec<Action>)
        ensures
            actions@.len() == steps@.len(),
            forall|i: int|
                0 <= i < steps@.len() ==> #[trigger] actions@[i] == old(self).answer_to(steps@, i),
            *final(self) == old(self).after_all(steps@),
    {
        let mut actions: Vec<Action> = Vec::new();
        let mut k: usize = 0;
        proof {
            assert(steps@.take(0) =~= Seq::<Stamped>::empty());
        }
        while k < steps.len()
            invariant
                0 <= k <= steps@.len(),
                actions@.len() == k,
                *self == old(self).after_all(steps@.take(k as int)),
                forall|i: int|
                    0 <= i < k ==> #[trigger] actions@[i] == old(self).answer_to(steps@, i),
            decreases steps@.len() - k,
        {
            proof {
                assert(steps@.take(k + 1).drop_last() =~= steps@.take(k as int));
            }
            let action = self.dispatch_at(steps[k].event, steps[k].now);
            actions.push(action);
            k += 1;
        }
        proof {
            assert(steps@.take(k as int) =~= steps@);
        }
        actions
    }
}

/// A run never goes back to an earlier phase, and its bindings never change.
proof fn lemma_phases_advance(d: Dispatcher, steps: Seq<Stamped>, n: int, m: int)
    requires
        0 <= n <= m <= steps.len(),
    ensures
        d.after_all(steps.take(n)).phase.rank() <= d.after_all(steps.take(m)).phase.rank(),
        d.after_all(steps.take(m)) == (Dispatcher { phase: d.after_all(steps.take(m)).phase, ..d }),
    decreases m,
{
    if m == 0 {
        assert(steps.take(0) =~= Seq::<Stamped>::empty());
    } else {
        assert(steps.take(m).drop_last() =~= steps.take(m - 1));
        if n < m {
            lemma_phases_advance(d, steps, n, m - 1);
        } else {
            lemma_phases_advance(d, steps, m - 1, m - 1);
        }
    }
}

/// The phase after a step follows from the phase before it.
proof fn lemma_step(d: Dispatcher, steps: Seq<Stamped>, i: int)
    requires
        0 <= i < steps.len(),
    ensures
        d.after_all(steps.take(i + 1)) == d.after_all(steps.take(i)).after(steps[i].event),
{
    assert(steps.take(i + 1).drop_last() =~= steps.take(i));
}

/// A run that has left its first phase was told to begin while it was in it.
proof fn lemma_started(d: Dispatcher, steps: Seq<Stamped>, j: int) -> (i: int)
    requires
        0 <= j <= steps.len(),
        d.phase is Created,
        !(d.after_all(steps.take(j)).phase is Created),
    ensures
        0 <= i < j,
        steps[i].event is Start,
        d.after_all(steps.take(i)).phase is Created,
    decreases j,
{
    if j == 0 {
        assert(steps.take(0) =~= Seq::<Stamped>::empty());
        0
    } else {
        lemma_step(d, steps, j - 1);
        if d.after_all(steps.take(j - 1)).phase is Created {
            j - 1
        } else {
            lemma_started(d, steps, j - 1)
        }
    }
}

/// The terminal transition is final: once a step was answered with `Stop`,
/// every later step is answered with `Ignore`, whatever arrives and however
/// often. No event is routed after the terminal category was processed.
pub proof fn law_stop_is_terminal(d: Dispatcher, steps: Seq<Stamped>, i: int, j: int)
    requires
        0 <= i < j < steps.len(),
        d.answer_to(steps, i) is Stop,
    ensures
        d.after_all(steps.take(j)).phase is Stopped,
        d.answer_to(steps, j) is Ignore,
{
    lemma_step(d, steps, i);
    lemma_phases_advance(d, steps, i + 1, j);
}

/// A bound `Initialized` callback runs exactly once, and before anything is
/// routed: in every run of a freshly assembled dispatcher that binds it, no
/// two steps are answered with `Initialize`, one is as soon as the run is
/// told to begin, and every step that is routed comes after it.
pub proof fn law_initialized_once_and_first(d: Dispatcher, steps: Seq<Stamped>)
    requires
        d.phase is Created,
        d.initialized,
    ensures
        forall|i: int, j: int|
            i < j ==> !(#[trigger] d.initializes(steps, i) && #[trigger] d.initializes(steps, j)),
        (exists|i: int| Dispatcher::starts(steps, i)) ==> exists|i: int| d.initializes(steps, i),
        forall|j: int| #[trigger]
            d.routes(steps, j) ==> exists|i: int| i < j && d.initializes(steps, i),
{
    assert forall|i: int, j: int| i < j implies !(#[trigger] d.initializes(steps, i)
        && #[trigger] d.initializes(steps, j)) by {
        if d.initializes(steps, i) && d.initializes(steps, j) {
            lemma_step(d, steps, i);
            lemma_phases_advance(d, steps, i + 1, j);
        }
    }
    if exists|i: int| Dispatcher::starts(steps, i) {
        let k = choose|i: int| Dispatcher::starts(steps, i);
        lemma_step(d, steps, k);
        lemma_phases_advance(d, steps, k, k);
        let i = lemma_started(d, steps, k + 1);
        lemma_phases_advance(d, steps, i, i);
        assert(d.initializes(steps, i));
    }
    assert forall|j: int| #[trigger] d.routes(steps, j) implies exists|i: int|
        i < j && d.initializes(steps, i) by {
        let i = lemma_started(d, steps, j);
        lemma_phases_advance(d, steps, i, i);
        assert(d.initializes(steps, i));
    }
}

/// How the join of a worker ended.
#[derive(Debug, Clone, Copy, PartialEq, Eq, Structural, Hash)]
pub enum JoinOutcome {
    /// The worker drained its queue and returned.
    Completed,
    /// The worker was cancelled by its runtime. Not a failure.
    Cancelled,
    /// The worker's callback panicked.
    Panicked,
}

impl JoinOutcome {
    /// Whether the joining context must raise the worker's panic again: only
    /// a panic is passed on, a cancellation is a normal end.
    pub fn must_reraise(&self) -> (r: bool)
        ensures
            r == (*self is Panicked),
    {
        match self {
            JoinOutcome::Panicked => true,
            _ => false,
        }
    }
}

/// Whether none of `outcomes` is a panic.
pub open spec fn none_panicked(outcomes: Seq<JoinOutcome>) -> bool {
    forall|j: int| 0 <= j < outcomes.len() ==> !(#[trigger] outcomes[j] is Panicked)
}

/// Decides how the shutdown ends once every worker was joined, given the
/// outcomes in join order: the run succeeds if no worker panicked, and
/// otherwise the panic of the first worker that did is the one to raise
/// again.
pub fn first_panicked(outcomes: &[JoinOutcome]) -> (index: Option<usize>)
    ensures
        index is None <==> none_panicked(outcomes@),
        index matches Some(i) ==> i < outcomes@.len() && outcomes@[i as int] is Panicked
            && none_panicked(outcomes@.take(i as int)),
{
    let mut i: usize = 0;
    while i < outcomes.len()
        invariant
            0 <= i <= outcomes@.len(),
            none_panicked(outcomes@.take(i as int)),
        decreases outcomes@.len() - i,
    {
        if outcomes[i].must_reraise() {
            return Some(i);
        }
        proof {
            assert forall|j: int| 0 <= j < i + 1 implies !(#[trigger] outcomes@.take(i + 1)[j]
                is Panicked) by {
                if j < i {
                    assert(outcomes@.take(i as int)[j] == outcomes@[j]);
                }
            }
        }
        i += 1;
    }
    proof {
        assert(outcomes@.take(i as int) =~= outcomes@);
    }
    None
}

} // verus!
