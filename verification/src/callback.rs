//! Callbacks, the snapshot they receive, and the table that binds them.

use crate::time::Timestamp;
use std::future::Future;
use std::pin::Pin;
use std::sync::Arc;
use std::task::{Context, Poll};
use vstd::prelude::*;

verus! {

/// What a callback is told about the event that triggered it: the moment the
/// event was turned into a unit of work.
#[derive(Clone, Debug, PartialEq, Eq, Structural)]
#[non_exhaustive]
pub struct CallbackInfo {
    pub time: Timestamp,
}

impl CallbackInfo {
    /// A snapshot stamped with the current reading of the system clock: `at`
    /// of what `Timestamp::now` gives. The reading depends on the moment of
    /// the call, so the contract leaves it open.
    pub fn new() -> CallbackInfo {
        CallbackInfo::at(Timestamp::now())
    }

    /// A snapshot stamped with the given time.
    pub fn at(time: Timestamp) -> (info: CallbackInfo)
        ensures
            info.time == time,
    {
        CallbackInfo { time }
    }

    /// The moment this snapshot was taken.
    pub fn time(&self) -> (t: &Timestamp)
        ensures
            *t == self.time,
    {
        &self.time
    }
}

impl Default for CallbackInfo {
    fn default() -> CallbackInfo {
        CallbackInfo::new()
    }
}

/// An action that runs to completion on the execution unit that calls it.
///
/// Every closure `Fn(CallbackInfo)` that may be shared between threads is one;
/// it accepts exactly the snapshots that its own precondition admits, and has
/// run once its own postcondition holds.
pub trait SyncCallback: Send + Sync {
    /// Whether the action may be run with `info`.
    spec fn accepts(&self, info: CallbackInfo) -> bool;

    /// What holds once the action has run with `info`.
    spec fn completes(&self, info: CallbackInfo) -> bool;

    /// Runs the action.
    fn run(&self, info: CallbackInfo)
        requires
            self.accepts(info),
        ensures
            self.completes(info),
    ;
}

impl<F> SyncCallback for F where F: Fn(CallbackInfo) + Send + Sync + 'static {
    open spec fn accepts(&self, info: CallbackInfo) -> bool {
        call_requires(*self, (info,))
    }

    open spec fn completes(&self, info: CallbackInfo) -> bool {
        call_ensures(*self, (info,), ())
    }

    fn run(&self, info: CallbackInfo) {
        self(info)
    }
}

/// Pinned pointers of the standard library, which hold a value in place while
/// it is polled. Opaque here.
#[verifier::external_type_specification]
#[verifier::external_body]
#[verifier::reject_recursive_types(Ptr)]
pub struct ExPin<Ptr>(Pin<Ptr>);

/// The standard library's answer to a poll: ready with a value, or pending.
/// Opaque here.
#[verifier::external_type_specification]
#[verifier::external_body]
#[verifier::reject_recursive_types(T)]
pub struct ExPoll<T>(Poll<T>);

/// The standard library's task context, through which a pending computation
/// asks to be polled again. Opaque here.
#[verifier::external_type_specification]
#[verifier::external_body]
pub struct ExContext<'a>(Context<'a>);

/// `Future::poll`: advances the computation as far as it can go without
/// waiting. Nothing is claimed of the answer.
#[verifier::external_body]
fn poll_future<T: Future<Output = ()>>(fut: Pin<&mut T>, cx: &mut Context<'_>) -> Poll<()> {
    fut.poll(cx)
}

/// A suspending action that has been started and must be driven to its end.
///
/// Every future without a result that may move between threads is one.
pub trait PendingCall: Send {
    /// Advances the action; ready once it has finished.
    fn poll_call(self: Pin<&mut Self>, cx: &mut Context<'_>) -> Poll<()>;
}

impl<T> PendingCall for T where T: Future<Output = ()> + Send {
    fn poll_call(self: Pin<&mut Self>, cx: &mut Context<'_>) -> Poll<()> {
        poll_future(self, cx)
    }
}

/// A started suspending action, owned by whoever will drive it.
pub struct Pending {
    pub call: Box<dyn PendingCall>,
}

/// An action that may yield control while it runs. Starting it only creates
/// the computation; the cooperative runtime drives it.
///
/// Every shareable closure from `CallbackInfo` to a started action is one; it
/// accepts exactly the snapshots that its own precondition admits, and starts
/// what its own postcondition allows.
pub trait AsyncCallback: Send + Sync {
    /// Whether the action may be started with `info`.
    spec fn accepts(&self, info: CallbackInfo) -> bool;

    /// Whether `pending` is what starting the action with `info` can give.
    spec fn starts(&self, info: CallbackInfo, pending: Pending) -> bool;

    /// Starts the action.
    fn start(&self, info: CallbackInfo) -> (pending: Pending)
        requires
            self.accepts(info),
        ensures
            self.starts(info, pending),
    ;
}

impl<G> AsyncCallback for G where G: Fn(CallbackInfo) -> Pending + Send + Sync + 'static {
    open spec fn accepts(&self, info: CallbackInfo) -> bool {
        call_requires(*self, (info,))
    }

    open spec fn starts(&self, info: CallbackInfo, pending: Pending) -> bool {
        call_ensures(*self, (info,), pending)
    }

    fn start(&self, info: CallbackInfo) -> (pending: Pending) {
        self(info)
    }
}

/// A closure that starts an action accepts what its precondition admits, and
/// starts what its postcondition allows.
proof fn lemma_starter<G>(g: G) where G: Fn(CallbackInfo) -> Pending + Send + Sync + 'static
    ensures
        forall|info: CallbackInfo| #[trigger]
            AsyncCallback::accepts(&g, info) == call_requires(g, (info,)),
        forall|info: CallbackInfo, pending: Pending| #[trigger]
            AsyncCallback::starts(&g, info, pending) == call_ensures(g, (info,), pending),
{
}

/// Whether the closure `cb` can have returned some future for `info`: whether
/// it was called with it.
pub open spec fn was_called<F, Fut>(cb: F, info: CallbackInfo) -> bool where
    F: Fn(CallbackInfo) -> Fut + Send + Sync + 'static,
    Fut: Future<Output = ()> + Send + 'static,
 {
    exists|fut: Fut| call_ensures(cb, (info,), fut)
}

/// A configured action of one of the two kinds.
#[derive(Clone)]
pub enum Callback {
    /// Runs to completion on the calling execution unit.
    Sync(Arc<Box<dyn SyncCallback>>),
    /// May suspend; legal only under the cooperative execution model.
    Async(Arc<Box<dyn AsyncCallback>>),
}

impl Callback {
    /// Whether the action may be invoked with `info`.
    pub open spec fn accepts(&self, info: CallbackInfo) -> bool {
        match self {
            Callback::Sync(f) => f.accepts(info),
            Callback::Async(f) => f.accepts(info),
        }
    }

    /// What holds once a blocking action has run with `info`. A suspending
    /// action never has run in this sense: it is only started.
    pub open spec fn ran(&self, info: CallbackInfo) -> bool {
        match self {
            Callback::Sync(f) => f.completes(info),
            Callback::Async(_) => false,
        }
    }

    /// Whether `pending` is what starting a suspending action with `info` can
    /// give.
    pub open spec fn started(&self, info: CallbackInfo, pending: Pending) -> bool {
        match self {
            Callback::Sync(_) => false,
            Callback::Async(f) => f.starts(info, pending),
        }
    }

    /// Wraps a blocking action. The callback accepts exactly the snapshots
    /// that the closure does, and has run exactly when the closure has.
    pub fn with_sync<F>(cb: F) -> (r: Callback) where F: Fn(CallbackInfo) + Send + Sync + 'static
        ensures
            r is Sync,
            forall|info: CallbackInfo| r.accepts(info) == call_requires(cb, (info,)),
            forall|info: CallbackInfo| r.ran(info) == call_ensures(cb, (info,), ()),
    {
        let boxed: Box<dyn SyncCallback> = Box::new(cb);
        Callback::Sync(Arc::new(boxed))
    }

    /// Wraps a suspending action: a closure that returns the future to drive.
    /// The callback accepts every snapshot that the closure does, and starting
    /// it calls the closure.
    pub fn with_async<F, Fut>(cb: F) -> (r: Callback) where
        F: Fn(CallbackInfo) -> Fut + Send + Sync + 'static,
        Fut: Future<Output = ()> + Send + 'static,

        ensures
            r is Async,
            forall|info: CallbackInfo| call_requires(cb, (info,)) ==> r.accepts(info),
            forall|info: CallbackInfo, pending: Pending| #[trigger]
                r.started(info, pending) ==> was_called(cb, info),
    {
        let action: Ghost<F> = Ghost(cb);
        let starter = move |info: CallbackInfo| -> (pending: Pending)
            requires
                call_requires(action@, (info,)),
            ensures
                was_called(action@, info),
            {
                let fut = cb(info);
                let call: Box<dyn PendingCall> = Box::new(fut);
                Pending { call }
            };
        proof {
            lemma_starter(starter);
        }
        let boxed: Box<dyn AsyncCallback> = Box::new(starter);
        Callback::Async(Arc::new(boxed))
    }

    /// Whether the action is of the suspending kind.
    pub fn is_async(&self) -> (r: bool)
        ensures
            r == (self is Async),
    {
        match self {
            Callback::Sync(_) => false,
            Callback::Async(_) => true,
        }
    }

    /// The name of the variant, as diagnostics print it.
    pub fn label(&self) -> (s: &'static str)
        ensures
            self is Sync ==> s@ == "Callback::Sync"@,
            self is Async ==> s@ == "Callback::Async"@,
    {
        match self {
            Callback::Sync(_) => "Callback::Sync",
            Callback::Async(_) => "Callback::Async",
        }
    }

    /// Invokes a blocking action and returns when it has finished.
    pub fn call(&self, info: CallbackInfo)
        requires
            self is Sync,
            self.accepts(info),
        ensures
            self.ran(info),
    {
        match self {
            Callback::Sync(f) => f.run(info),
            Callback::Async(_) => {},
        }
    }

    /// Invokes the action under the cooperative model. A blocking action has
    /// finished on return and nothing is handed back; a suspending one has
    /// only been started and is handed back to be awaited.
    pub fn start(&self, info: CallbackInfo) -> (pending: Option<Pending>)
        requires
            self.accepts(info),
        ensures
            self is Sync ==> pending is None && self.ran(info),
            self is Async ==> pending is Some && self.started(info, pending->0),
    {
        match self {
            Callback::Sync(f) => {
                f.run(info);
                None
            },
            Callback::Async(f) => Some(f.start(info)),
        }
    }
}

/// The occasions a callback can be bound to.
#[derive(Debug, Clone, Copy, PartialEq, Eq, Structural, Hash)]
pub enum CallbackType {
    /// Once, before any signal is routed.
    Initialized,
    /// The operator asked for the configuration to be read again.
    ReloadConfig,
    /// The operator asked the process to stop.
    WaitForStop,
    /// The operator asked for statistics.
    PrintStats,
}

/// The binding of occasions to callbacks: at most one callback per occasion.
#[derive(Clone)]
pub struct Callbacks {
    initialized: Option<Callback>,
    reload_config: Option<Callback>,
    wait_for_stop: Option<Callback>,
    print_stats: Option<Callback>,
}

impl View for Callbacks {
    type V = Map<CallbackType, Callback>;

    closed spec fn view(&self) -> Map<CallbackType, Callback> {
        Map::new(|tp: CallbackType| self.slot(tp) is Some, |tp: CallbackType| self.slot(tp)->0)
    }
}

/// The callback that `m` binds to `tp`, if it binds one.
pub open spec fn bound_to(m: Map<CallbackType, Callback>, tp: CallbackType) -> Option<Callback> {
    if m.dom().contains(tp) {
        Some(m[tp])
    } else {
        None
    }
}

/// Whether `after` is `before` with a callback bound to `tp` anew.
pub open spec fn binds(
    before: Map<CallbackType, Callback>,
    after: Map<CallbackType, Callback>,
    tp: CallbackType,
) -> bool {
    after == before.insert(tp, after[tp])
}

/// The entry of `tp` in `m` as a sequence: one pair if bound, none if not.
pub open spec fn entry_of(m: Map<CallbackType, Callback>, tp: CallbackType) -> Seq<
    (CallbackType, Callback),
> {
    if m.dom().contains(tp) {
        seq![(tp, m[tp])]
    } else {
        seq![]
    }
}

/// The entries of `m`, ordered as the occasions are declared.
pub open spec fn entries_of(m: Map<CallbackType, Callback>) -> Seq<(CallbackType, Callback)> {
    entry_of(m, CallbackType::Initialized) + entry_of(m, CallbackType::ReloadConfig) + entry_of(
        m,
        CallbackType::WaitForStop,
    ) + entry_of(m, CallbackType::PrintStats)
}

/// Whether some occasion in `m` is bound to a suspending callback.
pub open spec fn binds_async(m: Map<CallbackType, Callback>) -> bool {
    exists|tp: CallbackType| m.dom().contains(tp) && #[trigger] m[tp] is Async
}

impl Callbacks {
    spec fn slot(&self, tp: CallbackType) -> Option<Callback> {
        match tp {
            CallbackType::Initialized => self.initialized,
            CallbackType::ReloadConfig => self.reload_config,
            CallbackType::WaitForStop => self.wait_for_stop,
            CallbackType::PrintStats => self.print_stats,
        }
    }

    /// The empty binding.
    pub fn new() -> (r: Callbacks)
        ensures
            r@ == Map::<CallbackType, Callback>::empty(),
    {
        let r = Callbacks {
            initialized: None,
            reload_config: None,
            wait_for_stop: None,
            print_stats: None,
        };
        assert(r@ =~= Map::<CallbackType, Callback>::empty());
        r
    }

    /// Binds `cb` to `tp` and returns the callback that was bound before.
    pub fn insert(&mut self, tp: CallbackType, cb: Callback) -> (previous: Option<Callback>)
        ensures
            final(self)@ == old(self)@.insert(tp, cb),
            previous == bound_to(old(self)@, tp),
    {
        let mut slot = Some(cb);
        match tp {
            CallbackType::Initialized => std::mem::swap(&mut self.initialized, &mut slot),
            CallbackType::ReloadConfig => std::mem::swap(&mut self.reload_config, &mut slot),
            CallbackType::WaitForStop => std::mem::swap(&mut self.wait_for_stop, &mut slot),
            CallbackType::PrintStats => std::mem::swap(&mut self.print_stats, &mut slot),
        }
        assert(self@ =~= old(self)@.insert(tp, cb));
        slot
    }

    /// Unbinds `tp` and returns the callback that was bound to it.
    pub fn remove(&mut self, tp: CallbackType) -> (previous: Option<Callback>)
        ensures
            final(self)@ == old(self)@.remove(tp),
            previous == bound_to(old(self)@, tp),
    {
        let mut slot = None;
        match tp {
            CallbackType::Initialized => std::mem::swap(&mut self.initialized, &mut slot),
            CallbackType::ReloadConfig => std::mem::swap(&mut self.reload_config, &mut slot),
            CallbackType::WaitForStop => std::mem::swap(&mut self.wait_for_stop, &mut slot),
            CallbackType::PrintStats => std::mem::swap(&mut self.print_stats, &mut slot),
        }
        assert(self@ =~= old(self)@.remove(tp));
        slot
    }

    /// The callback bound to `tp`, if any.
    pub fn get(&self, tp: CallbackType) -> (r: Option<&Callback>)
        ensures
            r is Some <==> self@.dom().contains(tp),
            r is Some ==> *r->0 == self@[tp],
    {
        match tp {
            CallbackType::Initialized => self.initialized.as_ref(),
            CallbackType::ReloadConfig => self.reload_config.as_ref(),
            CallbackType::WaitForStop => self.wait_for_stop.as_ref(),
            CallbackType::PrintStats => self.print_stats.as_ref(),
        }
    }

    /// Whether a callback is bound to `tp`.
    pub fn contains_key(&self, tp: CallbackType) -> (r: bool)
        ensures
            r == self@.dom().contains(tp),
    {
        self.get(tp).is_some()
    }

    /// The bound entries, ordered as the occasions are declared.
    pub fn into_inner(self) -> (entries: Vec<(CallbackType, Callback)>)
        ensures
            entries@ == entries_of(self@),
    {
        let mut entries: Vec<(CallbackType, Callback)> = Vec::new();
        if let Some(cb) = self.initialized {
            entries.push((CallbackType::Initialized, cb));
        }
        assert(entries@ =~= entry_of(self@, CallbackType::Initialized));
        if let Some(cb) = self.reload_config {
            entries.push((CallbackType::ReloadConfig, cb));
        }
        assert(entries@ =~= entry_of(self@, CallbackType::Initialized) + entry_of(
            self@,
            CallbackType::ReloadConfig,
        ));
        if let Some(cb) = self.wait_for_stop {
            entries.push((CallbackType::WaitForStop, cb));
        }
        assert(entries@ =~= entry_of(self@, CallbackType::Initialized) + entry_of(
            self@,
            CallbackType::ReloadConfig,
        ) + entry_of(self@, CallbackType::WaitForStop));
        if let Some(cb) = self.print_stats {
            entries.push((CallbackType::PrintStats, cb));
        }
        assert(entries@ =~= entries_of(self@));
        entries
    }

    /// Whether a suspending callback is bound to any occasion.
    pub fn has_async(&self) -> (r: bool)
        ensures
            r == binds_async(self@),
    {
        let r = Self::slot_is_async(&self.initialized) || Self::slot_is_async(&self.reload_config)
            || Self::slot_is_async(&self.wait_for_stop) || Self::slot_is_async(
            &self.print_stats,
        );
        proof {
            if r {
                let tp = if self.initialized is Some && self.initialized->0 is Async {
                    CallbackType::Initialized
                } else if self.reload_config is Some && self.reload_config->0 is Async {
                    CallbackType::ReloadConfig
                } else if self.wait_for_stop is Some && self.wait_for_stop->0 is Async {
                    CallbackType::WaitForStop
                } else {
                    CallbackType::PrintStats
                };
                assert(self@.dom().contains(tp) && self@[tp] is Async);
            } else {
                assert forall|tp: CallbackType| self@.dom().contains(tp) implies !(
                #[trigger] self@[tp] is Async) by {
                    assert(self.slot(tp) is Some);
                }
            }
        }
        r
    }

    fn slot_is_async(slot: &Option<Callback>) -> (r: bool)
        ensures
            r == (*slot is Some && slot->0 is Async),
    {
        match slot {
            Some(cb) => cb.is_async(),
            None => false,
        }
    }
}

impl Default for Callbacks {
    fn default() -> (r: Callbacks)
        ensures
            r@ == Map::<CallbackType, Callback>::empty(),
    {
        Callbacks::new()
    }
}

} // verus!
