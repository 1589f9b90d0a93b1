//! The serial execution unit of one category.
//!
//! A worker receives the snapshots queued for its category one at a time. A
//! snapshot taken before the previous invocation finished is stale: the
//! invocation that was running then has already served it. Everything else is
//! invoked, and the clock reading at the end of the invocation becomes the new
//! watermark.

use crate::callback::{Callback, CallbackInfo};
use crate::time::Timestamp;
use vstd::prelude::*;

verus! {

/// Where a worker stands between two items of its queue.
#[derive(Debug, Clone, Copy, PartialEq, Eq, Structural, Hash)]
pub enum WorkerPhase {
    /// Waiting for the next snapshot.
    Idle,
    /// Its callback is running.
    Executing,
    /// Its queue was closed and drained; nothing will run again.
    Closed,
}

/// Whether a worker whose last invocation finished at `watermark` invokes its
/// callback for a snapshot taken at `created`: always while no invocation has
/// finished yet, and afterwards unless the watermark is strictly later.
pub open spec fn admits(watermark: Option<Timestamp>, created: Timestamp) -> bool {
    match watermark {
        None => true,
        Some(w) => !(w@ > created@),
    }
}

/// The state of one worker: its phase and the finish time of its last
/// invocation.
#[derive(Debug, Clone, Copy, PartialEq, Eq, Structural)]
pub struct Worker {
    pub phase: WorkerPhase,
    pub latest_finish_time: Option<Timestamp>,
}

impl Worker {
    /// A worker that has not run anything yet.
    pub fn new() -> (w: Worker)
        ensures
            w.phase is Idle,
            w.latest_finish_time is None,
    {
        Worker { phase: WorkerPhase::Idle, latest_finish_time: None }
    }

    /// Whether the last invocation finished strictly after `info` was taken.
    pub fn is_stale(&self, info: &CallbackInfo) -> (r: bool)
        ensures
            r == !admits(self.latest_finish_time, info.time),
    {
        match self.latest_finish_time {
            Some(w) => w.is_after(&info.time),
            None => false,
        }
    }

    /// Decides what to do with the next snapshot of the queue. The callback is
    /// to be invoked exactly when the worker is idle and the snapshot is not
    /// stale; the worker then counts as executing until `complete` is called.
    /// A discarded snapshot leaves the worker as it was.
    pub fn accept(&mut self, info: &CallbackInfo) -> (invoke: bool)
        ensures
            invoke == (old(self).phase is Idle && admits(
                old(self).latest_finish_time,
                info.time,
            )),
            invoke ==> final(self).phase is Executing && final(self).latest_finish_time == old(self).latest_finish_time,
            !invoke ==> *final(self) == *old(self),
    {
        match self.phase {
            WorkerPhase::Idle => {
                if self.is_stale(info) {
                    false
                } else {
                    self.phase = WorkerPhase::Executing;
                    true
                }
            },
            _ => false,
        }
    }

    /// Records that the running invocation finished at `now`: the watermark
    /// moves there and the worker is idle again. Without a running invocation
    /// nothing changes.
    pub fn complete(&mut self, now: Timestamp)
        ensures
            old(self).phase is Executing ==> final(self).phase is Idle && final(self).latest_finish_time == Some(now),
            !(old(self).phase is Executing) ==> *final(self) == *old(self),
    {
        match self.phase {
            WorkerPhase::Executing => {
                self.latest_finish_time = Some(now);
                self.phase = WorkerPhase::Idle;
            },
            _ => {},
        }
    }

    /// Records that the queue was closed and drained. An idle worker becomes
    /// closed for good; a running invocation is never cut short.
    pub fn close(&mut self)
        ensures
            final(self).latest_finish_time == old(self).latest_finish_time,
            final(self).phase == (if old(self).phase is Executing {
                WorkerPhase::Executing
            } else {
                WorkerPhase::Closed
            }),
    {
        match self.phase {
            WorkerPhase::Executing => {},
            _ => {
                self.phase = WorkerPhase::Closed;
            },
        }
    }

    /// One turn of a blocking worker: decides on `info`, and if it is
    /// admitted runs `callback` to its end and moves the watermark to the
    /// clock reading taken after it. The new watermark comes from the clock,
    /// so the contract only says that there is one.
    pub fn process(&mut self, callback: &Callback, info: CallbackInfo) -> (invoked: bool)
        requires
            callback is Sync,
            callback.accepts(info),
        ensures
            invoked == (old(self).phase is Idle && admits(
                old(self).latest_finish_time,
                info.time,
            )),
            invoked ==> callback.ran(info),
            invoked ==> final(self).phase is Idle && final(self).latest_finish_time is Some,
            !invoked ==> *final(self) == *old(self),
    {
        if self.accept(&info) {
            callback.call(info);
            self.complete(Timestamp::now());
            true
        } else {
            false
        }
    }
}

/// One snapshot on its way through a worker's queue.
#[derive(Debug, Clone, Copy, PartialEq, Eq, Structural)]
pub struct Arrival {
    /// When the snapshot was taken.
    pub created: Timestamp,
    /// The clock reading at the end of its invocation, should it be invoked.
    pub finished: Timestamp,
}

/// The watermark after a worker that started at `watermark` has handled one
/// arrival.
pub open spec fn watermark_step(watermark: Option<Timestamp>, arrival: Arrival) -> Option<
    Timestamp,
> {
    if admits(watermark, arrival.created) {
        Some(arrival.finished)
    } else {
        watermark
    }
}

/// The watermark after a worker that started at `watermark` has handled
/// `arrivals` in queue order.
pub open spec fn watermark_after(watermark: Option<Timestamp>, arrivals: Seq<Arrival>) -> Option<
    Timestamp,
>
    decreases arrivals.len(),
{
    if arrivals.len() == 0 {
        watermark
    } else {
        watermark_step(watermark_after(watermark, arrivals.drop_last()), arrivals.last())
    }
}

/// Whether the `i`-th of `arrivals` is invoked by a worker that started at
/// `watermark`.
pub open spec fn invoked(watermark: Option<Timestamp>, arrivals: Seq<Arrival>, i: int) -> bool {
    admits(watermark_after(watermark, arrivals.take(i)), arrivals[i].created)
}

/// How many of `arrivals` are invoked by a worker that started at `watermark`.
pub open spec fn invocations(watermark: Option<Timestamp>, arrivals: Seq<Arrival>) -> nat
    decreases arrivals.len(),
{
    if arrivals.len() == 0 {
        0
    } else {
        invocations(watermark, arrivals.drop_last()) + (if invoked(
            watermark,
            arrivals,
            arrivals.len() - 1,
        ) {
            1nat
        } else {
            0nat
        })
    }
}

/// Whether the `i`-th of `arrivals` was taken while the worker had nothing
/// left to finish: no earlier finish time, and not the starting watermark, is
/// later than the moment it was taken.
pub open spec fn arrives_idle(watermark: Option<Timestamp>, arrivals: Seq<Arrival>, i: int) -> bool {
    &&& 0 <= i < arrivals.len()
    &&& watermark matches Some(w) ==> w@ <= arrivals[i].created@
    &&& forall|j: int| 0 <= j < i ==> (#[trigger] arrivals[j]).finished@ <= arrivals[i].created@
}

/// The watermark of a worker is where it started or the finish time of one of
/// the arrivals it has handled.
proof fn lemma_watermark_origin(watermark: Option<Timestamp>, arrivals: Seq<Arrival>)
    ensures
        watermark_after(watermark, arrivals) == watermark || exists|j: int|
            0 <= j < arrivals.len() && watermark_after(watermark, arrivals) == Some(
                (#[trigger] arrivals[j]).finished,
            ),
    decreases arrivals.len(),
{
    if arrivals.len() > 0 {
        let front = arrivals.drop_last();
        lemma_watermark_origin(watermark, front);
        if admits(watermark_after(watermark, front), arrivals.last().created) {
            assert(watermark_after(watermark, arrivals) == Some(
                arrivals[arrivals.len() - 1].finished,
            ));
        } else if watermark_after(watermark, front) != watermark {
            let j = choose|j: int|
                0 <= j < front.len() && watermark_after(watermark, front) == Some(
                    (#[trigger] front[j]).finished,
                );
            assert(watermark_after(watermark, arrivals) == Some(arrivals[j].finished));
        }
    }
}

/// A snapshot taken while the worker had nothing left to finish is invoked.
proof fn lemma_idle_is_invoked(watermark: Option<Timestamp>, arrivals: Seq<Arrival>, i: int)
    requires
        arrives_idle(watermark, arrivals, i),
    ensures
        invoked(watermark, arrivals, i),
{
    let before = arrivals.take(i);
    lemma_watermark_origin(watermark, before);
    if watermark_after(watermark, before) != watermark {
        let j = choose|j: int|
            0 <= j < before.len() && watermark_after(watermark, before) == Some(
                (#[trigger] before[j]).finished,
            );
        assert(before[j] == arrivals[j]);
    }
}

/// Whether an arrival is invoked does not depend on what arrives after it.
proof fn lemma_invoked_prefix(
    watermark: Option<Timestamp>,
    arrivals: Seq<Arrival>,
    n: int,
    i: int,
)
    requires
        0 <= i < n <= arrivals.len(),
    ensures
        invoked(watermark, arrivals.take(n), i) == invoked(watermark, arrivals, i),
{
    assert(arrivals.take(n).take(i) =~= arrivals.take(i));
}

/// One invoked arrival makes the count positive.
proof fn lemma_invoked_counts(watermark: Option<Timestamp>, arrivals: Seq<Arrival>, i: int)
    requires
        0 <= i < arrivals.len(),
        invoked(watermark, arrivals, i),
    ensures
        invocations(watermark, arrivals) >= 1,
    decreases arrivals.len(),
{
    if i < arrivals.len() - 1 {
        let front = arrivals.drop_last();
        assert(front =~= arrivals.take(arrivals.len() - 1));
        lemma_invoked_prefix(watermark, arrivals, arrivals.len() - 1, i);
        lemma_invoked_counts(watermark, front, i);
    }
}

/// For every sequence of arrivals of one category, the callback is invoked at
/// most once per arrival, and at least once if some snapshot was taken while
/// the worker had nothing left to finish. The first arrival at a fresh worker
/// is always such a snapshot.
pub proof fn law_invocations_bounded(watermark: Option<Timestamp>, arrivals: Seq<Arrival>)
    ensures
        invocations(watermark, arrivals) <= arrivals.len(),
        (exists|i: int| arrives_idle(watermark, arrivals, i)) ==> invocations(watermark, arrivals)
            >= 1,
        watermark is None && arrivals.len() > 0 ==> invocations(watermark, arrivals) >= 1,
    decreases arrivals.len(),
{
    if arrivals.len() > 0 {
        law_invocations_bounded(watermark, arrivals.drop_last());
        if watermark is None {
            assert(arrives_idle(watermark, arrivals, 0));
        }
    }
    if exists|i: int| arrives_idle(watermark, arrivals, i) {
        let i = choose|i: int| arrives_idle(watermark, arrivals, i);
        lemma_idle_is_invoked(watermark, arrivals, i);
        lemma_invoked_counts(watermark, arrivals, i);
    }
}

/// Debounce: of three snapshots taken at `t1 < t2 < t3` and handled by a fresh
/// worker, where the invocation for the first finishes at `f1`, after the
/// second was taken and before the third was, the first is invoked, the second
/// is skipped and the third is invoked, whatever the later finish times are.
pub proof fn law_debounce(
    t1: Timestamp,
    t2: Timestamp,
    t3: Timestamp,
    f1: Timestamp,
    f2: Timestamp,
    f3: Timestamp,
)
    requires
        t1@ < t2@ < t3@,
        t2@ < f1@ < t3@,
    ensures
        ({
            let arrivals = seq![
                Arrival { created: t1, finished: f1 },
                Arrival { created: t2, finished: f2 },
                Arrival { created: t3, finished: f3 },
            ];
            &&& invoked(None, arrivals, 0)
            &&& !invoked(None, arrivals, 1)
            &&& invoked(None, arrivals, 2)
            &&& invocations(None, arrivals) == 2
        }),
{
    let a1 = Arrival { created: t1, finished: f1 };
    let a2 = Arrival { created: t2, finished: f2 };
    let a3 = Arrival { created: t3, finished: f3 };
    let arrivals = seq![a1, a2, a3];
    let none: Option<Timestamp> = None;
    let s0 = arrivals.take(0);
    let s1 = arrivals.take(1);
    let s2 = arrivals.take(2);
    assert(s1.drop_last() =~= s0);
    assert(s2.drop_last() =~= s1);
    assert(arrivals.drop_last() =~= s2);
    assert(watermark_after(none, s0) == none);
    assert(watermark_after(none, s1) == Some(f1));
    assert(watermark_after(none, s2) == Some(f1));
    assert(s1.take(0) =~= s0);
    assert(s2.take(0) =~= s0);
    assert(s2.take(1) =~= s1);
    assert(invocations(none, s0) == 0);
    assert(invocations(none, s1) == 1);
    assert(invocations(none, s2) == 1);
}

impl Worker {
    /// Runs a recorded schedule through the worker: each arrival is decided
    /// on in turn, and the invocation of an admitted one ends at the finish
    /// time recorded with it. Tells for each arrival whether it was invoked.
    /// A worker that is not idle invokes nothing and stays as it is.
    pub fn replay(&mut self, arrivals: &Vec<Arrival>) -> (outcome: Vec<bool>)
        ensures
            outcome@.len() == arrivals@.len(),
            old(self).phase is Idle ==> {
                &&& final(self).phase is Idle
                &&& final(self).latest_finish_time == watermark_after(
                    old(self).latest_finish_time,
                    arrivals@,
                )
                &&& forall|i: int|
                    0 <= i < arrivals@.len() ==> #[trigger] outcome@[i] == invoked(
                        old(self).latest_finish_time,
                        arrivals@,
                        i,
                    )
            },
            !(old(self).phase is Idle) ==> {
                &&& *final(self) == *old(self)
                &&& forall|i: int| 0 <= i < arrivals@.len() ==> !(#[trigger] outcome@[i])
            },
    {
        let mut outcome: Vec<bool> = Vec::new();
        let mut k: usize = 0;
        while k < arrivals.len()
            invariant
                0 <= k <= arrivals@.len(),
                outcome@.len() == k,
                self.phase == old(self).phase,
                old(self).phase is Idle ==> {
                    &&& self.latest_finish_time == watermark_after(
                        old(self).latest_finish_time,
                        arrivals@.take(k as int),
                    )
                    &&& forall|i: int|
                        0 <= i < k ==> #[trigger] outcome@[i] == invoked(
                            old(self).latest_finish_time,
                            arrivals@,
                            i,
                        )
                },
                !(old(self).phase is Idle) ==> {
                    &&& *self == *old(self)
                    &&& forall|i: int| 0 <= i < k ==> !(#[trigger] outcome@[i])
                },
            decreases arrivals@.len() - k,
        {
            let info = CallbackInfo::at(arrivals[k].created);
            let invoke = self.accept(&info);
            if invoke {
                self.complete(arrivals[k].finished);
            }
            proof {
                assert(arrivals@.take(k + 1).drop_last() =~= arrivals@.take(k as int));
                assert(arrivals@.take(k + 1).last() == arrivals@[k as int]);
            }
            outcome.push(invoke);
            k += 1;
        }
        proof {
            assert(arrivals@.take(k as int) =~= arrivals@);
        }
        outcome
    }
}

} // verus!
