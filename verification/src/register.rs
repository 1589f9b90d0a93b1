//! The signal registry: which signals trigger which category, the plan of
//! what to install for a set of categories, and the set of handles that
//! installing it yields.
//!
//! Installing a handler is the surrounding program's step: it must hand the
//! operating system a closure that runs in signal context. The registry says
//! what to install next, keeps the handles, and on a failure releases every
//! handle it was given, so that no part of a failed set stays active.

use crate::handler::HandleError;
use signal_hook::SigId;
use vstd::prelude::*;

verus! {

/// The number by which the operating system knows a signal.
pub type SignalNumber = i32;

/// Why the operating system refused to install a handler.
pub type RegisterError = std::io::Error;

/// The standard library's I/O error. Carried from the failed installation to
/// the caller; nothing is known of its contents.
#[verifier::external_type_specification]
#[verifier::external_body]
pub struct ExIoError(std::io::Error);

/// The identifier that `signal_hook` gives an installed action, and by which
/// the action is removed again. Opaque here.
#[verifier::external_type_specification]
#[verifier::external_body]
pub struct ExSigId(SigId);

/// `signal_hook::low_level::unregister` removes an installed action and tells
/// whether it was still installed. Nothing is claimed of the answer.
pub assume_specification[ signal_hook::low_level::unregister ](id: SigId) -> bool;

/// `signal_hook::consts::SIGHUP`, the hang-up signal: 1 on every platform
/// that `libc` defines it for.
#[verifier::external_body]
fn sighup() -> (n: SignalNumber)
    ensures
        n == 1,
{
    signal_hook::consts::SIGHUP
}

/// `signal_hook::consts::SIGINT`, the keyboard interrupt: 2 on every platform.
#[verifier::external_body]
fn sigint() -> (n: SignalNumber)
    ensures
        n == 2,
{
    signal_hook::consts::SIGINT
}

/// `signal_hook::consts::SIGQUIT`, the keyboard quit: 3 on every platform
/// that `libc` defines it for.
#[verifier::external_body]
fn sigquit() -> (n: SignalNumber)
    ensures
        n == 3,
{
    signal_hook::consts::SIGQUIT
}

/// `signal_hook::consts::SIGTERM`, the termination request: 15 on every
/// platform.
#[verifier::external_body]
fn sigterm() -> (n: SignalNumber)
    ensures
        n == 15,
{
    signal_hook::consts::SIGTERM
}

/// `signal_hook::consts::SIGUSR1`, the first user-defined signal. Its number
/// differs between platforms; `libc` gives it one of the five listed in
/// `is_user_signal`.
#[verifier::external_body]
fn sigusr1() -> (n: SignalNumber)
    ensures
        is_user_signal(n),
{
    signal_hook::consts::SIGUSR1
}

/// The numbers that the first user-defined signal has on some platform.
pub open spec fn is_user_signal(n: SignalNumber) -> bool {
    n == 10 || n == 16 || n == 18 || n == 25 || n == 30
}

/// The categories of operator intent that signals are mapped to.
#[derive(Debug, Clone, Copy, PartialEq, Eq, Structural, Hash)]
pub enum RegisterType {
    /// Read the configuration again: the hang-up signal.
    ReloadConfig,
    /// Stop gracefully: interrupt, termination request and quit. The one
    /// terminal category.
    WaitForStop,
    /// Print statistics: the first user-defined signal.
    PrintStats,
}

impl RegisterType {
    /// Whether `numbers` is the list of signals that trigger this category.
    pub open spec fn triggered_by(self, numbers: Seq<SignalNumber>) -> bool {
        match self {
            RegisterType::ReloadConfig => numbers == seq![1i32],
            RegisterType::WaitForStop => numbers == seq![2i32, 15i32, 3i32],
            RegisterType::PrintStats => numbers.len() == 1 && is_user_signal(numbers[0]),
        }
    }

    /// The signals that trigger this category on this platform.
    pub fn signal_numbers(&self) -> (numbers: Vec<SignalNumber>)
        ensures
            self.triggered_by(numbers@),
    {
        let mut list: Vec<SignalNumber> = Vec::new();
        match self {
            RegisterType::ReloadConfig => {
                list.push(sighup());
                assert(list@ =~= seq![1i32]);
            },
            RegisterType::WaitForStop => {
                list.push(sigint());
                list.push(sigterm());
                list.push(sigquit());
                assert(list@ =~= seq![2i32, 15i32, 3i32]);
            },
            RegisterType::PrintStats => {
                list.push(sigusr1());
            },
        }
        list
    }
}

/// No signal triggers two categories: the lists of two different categories
/// have no number in common.
pub proof fn law_categories_disjoint(
    a: RegisterType,
    b: RegisterType,
    of_a: Seq<SignalNumber>,
    of_b: Seq<SignalNumber>,
)
    requires
        a != b,
        a.triggered_by(of_a),
        b.triggered_by(of_b),
    ensures
        forall|i: int, j: int| 0 <= i < of_a.len() && 0 <= j < of_b.len() ==> of_a[i] != of_b[j],
{
}

/// The categories requested for a run, each with the signals to install for
/// it: at most one list per category.
#[derive(Debug, Clone)]
pub struct Registers {
    reload_config: Option<Vec<SignalNumber>>,
    wait_for_stop: Option<Vec<SignalNumber>>,
    print_stats: Option<Vec<SignalNumber>>,
}

impl View for Registers {
    type V = Map<RegisterType, Seq<SignalNumber>>;

    closed spec fn view(&self) -> Map<RegisterType, Seq<SignalNumber>> {
        Map::new(|tp: RegisterType| self.slot(tp) is Some, |tp: RegisterType| self.slot(tp)->0)
    }
}

/// Whether `after` is `before` with category `tp` requested anew, under the
/// signals that trigger it.
pub open spec fn requests(
    before: Map<RegisterType, Seq<SignalNumber>>,
    after: Map<RegisterType, Seq<SignalNumber>>,
    tp: RegisterType,
) -> bool {
    &&& after == before.insert(tp, after[tp])
    &&& tp.triggered_by(after[tp])
}

/// What `m` held for `tp`, as `insert` hands it back.
pub open spec fn replaced(
    m: Map<RegisterType, Seq<SignalNumber>>,
    tp: RegisterType,
    previous: Option<Vec<SignalNumber>>,
) -> bool {
    &&& previous is Some <==> m.dom().contains(tp)
    &&& previous is Some ==> previous->0@ == m[tp]
}

impl Registers {
    spec fn list_view(list: Option<Vec<SignalNumber>>) -> Option<Seq<SignalNumber>> {
        match list {
            Some(v) => Some(v@),
            None => None,
        }
    }

    spec fn slot(&self, tp: RegisterType) -> Option<Seq<SignalNumber>> {
        match tp {
            RegisterType::ReloadConfig => Self::list_view(self.reload_config),
            RegisterType::WaitForStop => Self::list_view(self.wait_for_stop),
            RegisterType::PrintStats => Self::list_view(self.print_stats),
        }
    }

    /// The empty request: no category.
    pub fn new() -> (r: Registers)
        ensures
            r@ == Map::<RegisterType, Seq<SignalNumber>>::empty(),
    {
        let r = Registers { reload_config: None, wait_for_stop: None, print_stats: None };
        assert(r@ =~= Map::<RegisterType, Seq<SignalNumber>>::empty());
        r
    }

    /// Requests `tp` with the signals `numbers`, and returns the list that was
    /// requested for it before.
    pub fn insert(&mut self, tp: RegisterType, numbers: Vec<SignalNumber>) -> (previous: Option<
        Vec<SignalNumber>,
    >)
        ensures
            final(self)@ == old(self)@.insert(tp, numbers@),
            replaced(old(self)@, tp, previous),
    {
        let mut slot = Some(numbers);
        match tp {
            RegisterType::ReloadConfig => std::mem::swap(&mut self.reload_config, &mut slot),
            RegisterType::WaitForStop => std::mem::swap(&mut self.wait_for_stop, &mut slot),
            RegisterType::PrintStats => std::mem::swap(&mut self.print_stats, &mut slot),
        }
        assert(self@ =~= old(self)@.insert(tp, numbers@));
        slot
    }

    /// The signals requested for `tp`, if it is requested.
    pub fn get(&self, tp: RegisterType) -> (r: Option<&Vec<SignalNumber>>)
        ensures
            r is Some <==> self@.dom().contains(tp),
            r is Some ==> r->0@ == self@[tp],
    {
        match tp {
            RegisterType::ReloadConfig => self.reload_config.as_ref(),
            RegisterType::WaitForStop => self.wait_for_stop.as_ref(),
            RegisterType::PrintStats => self.print_stats.as_ref(),
        }
    }

    /// Whether `tp` is requested.
    pub fn contains_key(&self, tp: RegisterType) -> (r: bool)
        ensures
            r == self@.dom().contains(tp),
    {
        self.get(tp).is_some()
    }

    /// Requests the reload category under the hang-up signal.
    pub fn insert_reload_config(&mut self) -> (previous: Option<Vec<SignalNumber>>)
        ensures
            requests(old(self)@, final(self)@, RegisterType::ReloadConfig),
            replaced(old(self)@, RegisterType::ReloadConfig, previous),
    {
        self.insert(RegisterType::ReloadConfig, RegisterType::ReloadConfig.signal_numbers())
    }

    /// Requests the terminal category under interrupt, termination request
    /// and quit.
    pub fn insert_wait_for_stop(&mut self) -> (previous: Option<Vec<SignalNumber>>)
        ensures
            requests(old(self)@, final(self)@, RegisterType::WaitForStop),
            replaced(old(self)@, RegisterType::WaitForStop, previous),
    {
        self.insert(RegisterType::WaitForStop, RegisterType::WaitForStop.signal_numbers())
    }

    /// Requests the statistics category under the first user-defined signal.
    pub fn insert_print_stats(&mut self) -> (previous: Option<Vec<SignalNumber>>)
        ensures
            requests(old(self)@, final(self)@, RegisterType::PrintStats),
            replaced(old(self)@, RegisterType::PrintStats, previous),
    {
        self.insert(RegisterType::PrintStats, RegisterType::PrintStats.signal_numbers())
    }
}

impl Default for Registers {
    fn default() -> (r: Registers)
        ensures
            r@ == Map::<RegisterType, Seq<SignalNumber>>::empty(),
    {
        Registers::new()
    }
}

/// One handler to install: the signal, and the category that its handler posts.
#[derive(Debug, Clone, Copy, PartialEq, Eq, Structural, Hash)]
pub struct Registration {
    pub register_type: RegisterType,
    pub signal_number: SignalNumber,
}

/// Whether `plan` already installs a handler for signal `n`.
pub open spec fn lists_signal(plan: Seq<Registration>, n: SignalNumber) -> bool {
    exists|k: int| 0 <= k < plan.len() && (#[trigger] plan[k]).signal_number == n
}

/// `plan` with signal `n` installed for `tp`, unless `n` is installed already.
pub open spec fn with_signal(plan: Seq<Registration>, tp: RegisterType, n: SignalNumber) -> Seq<
    Registration,
> {
    if lists_signal(plan, n) {
        plan
    } else {
        plan.push(Registration { register_type: tp, signal_number: n })
    }
}

/// `plan` with each of `numbers` installed for `tp`, in list order.
pub open spec fn with_signals(
    plan: Seq<Registration>,
    tp: RegisterType,
    numbers: Seq<SignalNumber>,
) -> Seq<Registration>
    decreases numbers.len(),
{
    if numbers.len() == 0 {
        plan
    } else {
        with_signal(with_signals(plan, tp, numbers.drop_last()), tp, numbers.last())
    }
}

/// `plan` with the signals that `m` requests for `tp`, if it requests `tp`.
pub open spec fn with_category(
    plan: Seq<Registration>,
    m: Map<RegisterType, Seq<SignalNumber>>,
    tp: RegisterType,
) -> Seq<Registration> {
    if m.dom().contains(tp) {
        with_signals(plan, tp, m[tp])
    } else {
        plan
    }
}

/// What to install for the request `m`: the signals of each requested
/// category, categories in declaration order, each signal once and under the
/// first category that lists it.
pub open spec fn plan_of(m: Map<RegisterType, Seq<SignalNumber>>) -> Seq<Registration> {
    with_category(
        with_category(
            with_category(Seq::empty(), m, RegisterType::ReloadConfig),
            m,
            RegisterType::WaitForStop,
        ),
        m,
        RegisterType::PrintStats,
    )
}

/// Whether no signal occurs twice in `plan`.
pub open spec fn one_handler_per_signal(plan: Seq<Registration>) -> bool {
    forall|i: int, j: int|
        0 <= i < j < plan.len() ==> (#[trigger] plan[i]).signal_number != (
        #[trigger] plan[j]).signal_number
}

/// Whether every entry of `plan` is a signal that `m` requests for the entry's
/// category.
pub open spec fn only_requested(
    plan: Seq<Registration>,
    m: Map<RegisterType, Seq<SignalNumber>>,
) -> bool {
    forall|k: int|
        0 <= k < plan.len() ==> m.dom().contains((#[trigger] plan[k]).register_type)
            && m[plan[k].register_type].contains(plan[k].signal_number)
}

/// Whether `plan` installs every signal that `m` requests for `tp`.
pub open spec fn covers(
    plan: Seq<Registration>,
    m: Map<RegisterType, Seq<SignalNumber>>,
    tp: RegisterType,
) -> bool {
    m.dom().contains(tp) ==> forall|i: int|
        0 <= i < m[tp].len() ==> lists_signal(plan, #[trigger] m[tp][i])
}

/// Adding the signals of one category keeps what the plan had, keeps signals
/// unique, adds only signals of the list under that category, and leaves no
/// signal of the list out.
proof fn lemma_with_signals(plan: Seq<Registration>, tp: RegisterType, numbers: Seq<SignalNumber>)
    requires
        one_handler_per_signal(plan),
    ensures
        one_handler_per_signal(with_signals(plan, tp, numbers)),
        plan.len() <= with_signals(plan, tp, numbers).len(),
        forall|k: int| 0 <= k < plan.len() ==> with_signals(plan, tp, numbers)[k] == plan[k],
        forall|k: int|
            plan.len() <= k < with_signals(plan, tp, numbers).len() ==> (#[trigger] with_signals(
                plan,
                tp,
                numbers,
            )[k]).register_type == tp && numbers.contains(
                with_signals(plan, tp, numbers)[k].signal_number,
            ),
        forall|i: int|
            0 <= i < numbers.len() ==> lists_signal(
                with_signals(plan, tp, numbers),
                #[trigger] numbers[i],
            ),
    decreases numbers.len(),
{
    if numbers.len() > 0 {
        let front = numbers.drop_last();
        let mid = with_signals(plan, tp, front);
        let out = with_signals(plan, tp, numbers);
        lemma_with_signals(plan, tp, front);
        assert forall|k: int| plan.len() <= k < out.len() implies (#[trigger] out[k]).register_type
            == tp && numbers.contains(out[k].signal_number) by {
            if k < mid.len() {
                assert(out[k] == mid[k]);
                let i = choose|i: int| 0 <= i < front.len() && front[i] == mid[k].signal_number;
                assert(numbers[i] == front[i]);
            } else {
                assert(numbers[numbers.len() - 1] == numbers.last());
            }
        }
        assert forall|i: int| 0 <= i < numbers.len() implies lists_signal(
            out,
            #[trigger] numbers[i],
        ) by {
            if i < front.len() {
                assert(front[i] == numbers[i]);
                let k = choose|k: int|
                    0 <= k < mid.len() && (#[trigger] mid[k]).signal_number == front[i];
                assert(out[k] == mid[k]);
            } else if lists_signal(mid, numbers.last()) {
            } else {
                assert(out[out.len() - 1].signal_number == numbers[i]);
            }
        }
    }
}

/// The plan for a request installs at most one handler per signal, installs
/// only what is requested, and installs every requested signal.
pub proof fn law_one_handler_per_signal(m: Map<RegisterType, Seq<SignalNumber>>)
    ensures
        one_handler_per_signal(plan_of(m)),
        only_requested(plan_of(m), m),
        covers(plan_of(m), m, RegisterType::ReloadConfig),
        covers(plan_of(m), m, RegisterType::WaitForStop),
        covers(plan_of(m), m, RegisterType::PrintStats),
{
    let none = Seq::<Registration>::empty();
    let reload = with_category(none, m, RegisterType::ReloadConfig);
    let stop = with_category(reload, m, RegisterType::WaitForStop);
    let stats = with_category(stop, m, RegisterType::PrintStats);
    if m.dom().contains(RegisterType::ReloadConfig) {
        lemma_with_signals(none, RegisterType::ReloadConfig, m[RegisterType::ReloadConfig]);
    }
    if m.dom().contains(RegisterType::WaitForStop) {
        lemma_with_signals(reload, RegisterType::WaitForStop, m[RegisterType::WaitForStop]);
    }
    if m.dom().contains(RegisterType::PrintStats) {
        lemma_with_signals(stop, RegisterType::PrintStats, m[RegisterType::PrintStats]);
    }
    assert(only_requested(reload, m));
    assert(only_requested(stop, m)) by {
        assert forall|k: int| 0 <= k < stop.len() implies m.dom().contains(
            (#[trigger] stop[k]).register_type,
        ) && m[stop[k].register_type].contains(stop[k].signal_number) by {
            if k < reload.len() {
                assert(stop[k] == reload[k]);
            }
        }
    }
    assert(only_requested(stats, m)) by {
        assert forall|k: int| 0 <= k < stats.len() implies m.dom().contains(
            (#[trigger] stats[k]).register_type,
        ) && m[stats[k].register_type].contains(stats[k].signal_number) by {
            if k < stop.len() {
                assert(stats[k] == stop[k]);
            }
        }
    }
    lemma_covers_kept(reload, stop, m, RegisterType::ReloadConfig);
    lemma_covers_kept(stop, stats, m, RegisterType::ReloadConfig);
    lemma_covers_kept(stop, stats, m, RegisterType::WaitForStop);
}

/// A plan that grows at its end keeps covering what it covered.
proof fn lemma_covers_kept(
    plan: Seq<Registration>,
    longer: Seq<Registration>,
    m: Map<RegisterType, Seq<SignalNumber>>,
    tp: RegisterType,
)
    requires
        covers(plan, m, tp),
        plan.len() <= longer.len(),
        forall|k: int| 0 <= k < plan.len() ==> longer[k] == plan[k],
    ensures
        covers(longer, m, tp),
{
    if m.dom().contains(tp) {
        assert forall|i: int| 0 <= i < m[tp].len() implies lists_signal(
            longer,
            #[trigger] m[tp][i],
        ) by {
            let k = choose|k: int|
                0 <= k < plan.len() && (#[trigger] plan[k]).signal_number == m[tp][i];
            assert(longer[k] == plan[k]);
        }
    }
}

impl Registers {
    fn plan_lists(plan: &Vec<Registration>, n: SignalNumber) -> (r: bool)
        ensures
            r == lists_signal(plan@, n),
    {
        let mut k: usize = 0;
        while k < plan.len()
            invariant
                0 <= k <= plan@.len(),
                forall|j: int| 0 <= j < k ==> (#[trigger] plan@[j]).signal_number != n,
            decreases plan@.len() - k,
        {
            if plan[k].signal_number == n {
                return true;
            }
            k += 1;
        }
        false
    }

    fn plan_extend(plan: &mut Vec<Registration>, tp: RegisterType, list: &Option<
        Vec<SignalNumber>,
    >)
        ensures
            *list is Some ==> final(plan)@ == with_signals(old(plan)@, tp, list->0@),
            *list is None ==> final(plan)@ == old(plan)@,
    {
        if let Some(numbers) = list {
            let mut i: usize = 0;
            while i < numbers.len()
                invariant
                    0 <= i <= numbers@.len(),
                    plan@ == with_signals(old(plan)@, tp, numbers@.take(i as int)),
                decreases numbers@.len() - i,
            {
                let n = numbers[i];
                proof {
                    assert(numbers@.take(i + 1).drop_last() =~= numbers@.take(i as int));
                    assert(numbers@.take(i + 1).last() == n);
                }
                if !Self::plan_lists(plan, n) {
                    plan.push(Registration { register_type: tp, signal_number: n });
                }
                i += 1;
            }
            proof {
                assert(numbers@.take(i as int) =~= numbers@);
            }
        }
    }

    /// What to install for this request: see `plan_of`. No signal is planned
    /// twice, nothing is planned that was not requested, and every requested
    /// signal is planned.
    pub fn registrations(&self) -> (plan: Vec<Registration>)
        ensures
            plan@ == plan_of(self@),
            one_handler_per_signal(plan@),
            only_requested(plan@, self@),
            covers(plan@, self@, RegisterType::ReloadConfig),
            covers(plan@, self@, RegisterType::WaitForStop),
            covers(plan@, self@, RegisterType::PrintStats),
    {
        let mut plan: Vec<Registration> = Vec::new();
        assert(plan@ =~= Seq::<Registration>::empty());
        Self::plan_extend(&mut plan, RegisterType::ReloadConfig, &self.reload_config);
        Self::plan_extend(&mut plan, RegisterType::WaitForStop, &self.wait_for_stop);
        Self::plan_extend(&mut plan, RegisterType::PrintStats, &self.print_stats);
        proof {
            law_one_handler_per_signal(self@);
        }
        plan
    }

    /// Removes each of the installed actions `sig_ids` from the operating
    /// system's signal handling. Its whole effect lies there.
    pub fn unregister(sig_ids: &[SigId]) {
        let mut i: usize = 0;
        while i < sig_ids.len()
            invariant
                0 <= i <= sig_ids@.len(),
            decreases sig_ids@.len() - i,
        {
            let _removed: bool = signal_hook::low_level::unregister(sig_ids[i]);
            i += 1;
        }
    }
}

/// The handle set of one run: the plan, and the handles of the part of it that
/// has been installed so far, in plan order.
///
/// The surrounding program asks for the pending entry, installs it, and
/// records the handle it got, until nothing is pending. If an installation
/// fails it calls `fail`, which releases every recorded handle: a request is
/// installed whole or not at all.
pub struct Registry {
    plan: Vec<Registration>,
    handles: Vec<(SignalNumber, SigId)>,
    aborted: bool,
}

impl Registry {
    /// What this registry is to install, in order.
    pub closed spec fn plan(&self) -> Seq<Registration> {
        self.plan@
    }

    /// The handles recorded so far, each with the signal it was installed
    /// for: the `i`-th belongs to the `i`-th entry of the plan.
    pub closed spec fn installed(&self) -> Seq<(SignalNumber, SigId)> {
        self.handles@
    }

    /// Whether an installation failed and the set was given up.
    pub closed spec fn aborted(&self) -> bool {
        self.aborted
    }

    /// The entry to install next: the first of the plan without a handle,
    /// unless the set was given up.
    pub open spec fn next_pending(&self) -> Option<Registration> {
        if !self.aborted() && self.installed().len() < self.plan().len() {
            Some(self.plan()[self.installed().len() as int])
        } else {
            None
        }
    }

    /// The entry to install next, if any is left.
    pub fn pending(&self) -> (next: Option<Registration>)
        ensures
            next == self.next_pending(),
    {
        if !self.aborted && self.handles.len() < self.plan.len() {
            Some(self.plan[self.handles.len()])
        } else {
            None
        }
    }

    /// Records `id` as the handle of the pending entry. With nothing pending
    /// the handle is not kept and the registry stays as it is.
    pub fn record(&mut self, id: SigId) -> (recorded: bool)
        ensures
            recorded == (old(self).next_pending() is Some),
            final(self).plan() == old(self).plan(),
            final(self).aborted() == old(self).aborted(),
            final(self).installed() == (if recorded {
                old(self).installed().push((old(self).next_pending()->0.signal_number, id))
            } else {
                old(self).installed()
            }),
    {
        if !self.aborted && self.handles.len() < self.plan.len() {
            let signal_number = self.plan[self.handles.len()].signal_number;
            self.handles.push((signal_number, id));
            true
        } else {
            false
        }
    }

    /// Whether every entry of the plan has its handle.
    pub fn is_complete(&self) -> (r: bool)
        ensures
            r == (!self.aborted() && self.installed().len() == self.plan().len()),
    {
        !self.aborted && self.handles.len() == self.plan.len()
    }

    /// Gives the set up after the installation of the pending entry failed
    /// with `cause`: every recorded handle is released, nothing is pending any
    /// more, and the error to return is the registration failure that wraps
    /// `cause`.
    pub fn fail(&mut self, cause: RegisterError) -> (error: HandleError)
        ensures
            error == HandleError::RegisterFailed(cause),
            final(self).plan() == old(self).plan(),
            final(self).installed().len() == 0,
            final(self).aborted(),
            final(self).next_pending() is None,
    {
        let mut i: usize = 0;
        while i < self.handles.len()
            invariant
                0 <= i <= self.handles@.len(),
                self.plan@ == old(self).plan@,
            decreases self.handles@.len() - i,
        {
            let _removed: bool = signal_hook::low_level::unregister(self.handles[i].1);
            i += 1;
        }
        self.handles.clear();
        self.aborted = true;
        HandleError::RegisterFailed(cause)
    }

    /// The installed handles, each with the signal it was installed for, in
    /// plan order.
    pub fn into_handles(self) -> (handles: Vec<(SignalNumber, SigId)>)
        ensures
            handles@ == self.installed(),
    {
        self.handles
    }
}

impl Registers {
    /// Opens the installation of this request: a registry with the plan of
    /// the request and nothing installed yet.
    pub fn register(self) -> (registry: Registry)
        ensures
            registry.plan() == plan_of(self@),
            registry.installed().len() == 0,
            !registry.aborted(),
    {
        let plan = self.registrations();
        Registry { plan, handles: Vec::new(), aborted: false }
    }
}

} // verus!
