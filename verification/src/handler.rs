//! The dispatcher: what a run is assembled from and how it can fail.
//!
//! `Handler::handle` and `Handler::handle_async` do what precedes the first
//! wait: they check the callbacks against the execution model and assemble the
//! run. The surrounding program then installs the run's registry, starts one
//! worker per entry of `workers`, and feeds the run's dispatcher until it
//! answers with `Stop`.

pub mod builder;
pub mod dispatch;

use crate::callback::{binds_async, bound_to, entry_of, Callback, CallbackType};
use crate::handler::builder::Builder;
use crate::handler::dispatch::{Dispatcher, Phase};
use crate::register::{RegisterError, RegisterType, Registers, SignalNumber};
use vstd::prelude::*;

verus! {

/// Why a run of the dispatcher ended without success.
#[derive(Debug)]
pub enum HandleError {
    /// A suspending callback is bound, but the blocking entry point was used.
    AsyncRequired,
    /// The operating system refused to install a handler for some signal.
    RegisterFailed(RegisterError),
    /// Reserved for the caller's own escalation.
    Other(String),
}

/// A configured dispatcher that has not run yet. Dropping it does nothing.
pub struct Handler {
    builder: Builder,
}

/// Everything a run consists of, ready to be driven.
pub struct Run {
    /// The categories to install handlers for.
    pub registers: Registers,
    /// The callback to run once before the first event, if one is bound.
    pub initialized: Option<Callback>,
    /// The callback to run on the terminal transition, if one is bound.
    pub wait_for_stop: Option<Callback>,
    /// The callbacks that get a worker and a queue of their own, each with
    /// the occasion it is bound to.
    pub workers: Vec<(CallbackType, Callback)>,
    /// The routing state, in its first phase.
    pub dispatcher: Dispatcher,
}

/// Whether a run must install handlers for category `tp`: always for the
/// terminal category, and for every category whose occasion has a callback.
pub open spec fn required(callbacks: Map<CallbackType, Callback>, tp: RegisterType) -> bool {
    tp is WaitForStop || callbacks.dom().contains(tp.occasion())
}

/// Whether `installed` agrees on category `tp` with the completion of the
/// request `requested` for `callbacks`: a requested category stays as it was,
/// and one that is required but was not requested is added under the signals
/// that trigger it.
pub open spec fn completes_for(
    requested: Map<RegisterType, Seq<SignalNumber>>,
    callbacks: Map<CallbackType, Callback>,
    installed: Map<RegisterType, Seq<SignalNumber>>,
    tp: RegisterType,
) -> bool {
    &&& installed.dom().contains(tp) <==> requested.dom().contains(tp) || required(callbacks, tp)
    &&& requested.dom().contains(tp) ==> installed[tp] == requested[tp]
    &&& installed.dom().contains(tp) && !requested.dom().contains(tp) ==> tp.triggered_by(
        installed[tp],
    )
}

/// Whether `installed` is the request `requested` completed for `callbacks`.
pub open spec fn completes(
    requested: Map<RegisterType, Seq<SignalNumber>>,
    callbacks: Map<CallbackType, Callback>,
    installed: Map<RegisterType, Seq<SignalNumber>>,
) -> bool {
    &&& completes_for(requested, callbacks, installed, RegisterType::ReloadConfig)
    &&& completes_for(requested, callbacks, installed, RegisterType::WaitForStop)
    &&& completes_for(requested, callbacks, installed, RegisterType::PrintStats)
}

/// The callbacks of `callbacks` that get a worker: all but the one that runs
/// before the first event and the one that runs on the terminal transition.
pub open spec fn worker_entries(callbacks: Map<CallbackType, Callback>) -> Seq<
    (CallbackType, Callback),
> {
    entry_of(callbacks, CallbackType::ReloadConfig) + entry_of(callbacks, CallbackType::PrintStats)
}

/// Whether `run` is the run assembled from the request `requested` and the
/// bindings `callbacks`.
pub open spec fn assembled(
    requested: Map<RegisterType, Seq<SignalNumber>>,
    callbacks: Map<CallbackType, Callback>,
    run: Run,
) -> bool {
    &&& completes(requested, callbacks, run.registers@)
    &&& run.initialized == bound_to(callbacks, CallbackType::Initialized)
    &&& run.wait_for_stop == bound_to(callbacks, CallbackType::WaitForStop)
    &&& run.workers@ == worker_entries(callbacks)
    &&& run.dispatcher == (Dispatcher {
        phase: Phase::Created,
        initialized: callbacks.dom().contains(CallbackType::Initialized),
        reload_config: callbacks.dom().contains(CallbackType::ReloadConfig),
        wait_for_stop: callbacks.dom().contains(CallbackType::WaitForStop),
        print_stats: callbacks.dom().contains(CallbackType::PrintStats),
    })
}

impl Handler {
    /// The bindings this dispatcher was configured with.
    pub closed spec fn callbacks(&self) -> Map<CallbackType, Callback> {
        self.builder.callbacks@
    }

    /// The categories this dispatcher was configured to install.
    pub closed spec fn registers(&self) -> Map<RegisterType, Seq<SignalNumber>> {
        self.builder.registers@
    }

    /// An empty configuration to start from.
    pub fn builder() -> (b: Builder)
        ensures
            b.callbacks@ == Map::<CallbackType, Callback>::empty(),
            b.registers@ == Map::<RegisterType, Seq<SignalNumber>>::empty(),
    {
        Builder::new()
    }

    pub(crate) fn from_builder(builder: Builder) -> (h: Handler)
        ensures
            h.callbacks() == builder.callbacks@,
            h.registers() == builder.registers@,
    {
        Handler { builder }
    }

    fn require(registers: &mut Registers, tp: RegisterType)
        ensures
            final(registers)@.dom() == old(registers)@.dom().insert(tp),
            forall|other: RegisterType|
                old(registers)@.dom().contains(other) ==> #[trigger] final(registers)@[other]
                    == old(registers)@[other],
            !old(registers)@.dom().contains(tp) ==> tp.triggered_by(final(registers)@[tp]),
    {
        if !registers.contains_key(tp) {
            let _previous = registers.insert(tp, tp.signal_numbers());
        }
        assert(final(registers)@.dom() =~= old(registers)@.dom().insert(tp));
    }

    fn assemble(self) -> (run: Run)
        ensures
            assembled(self.registers(), self.callbacks(), run),
    {
        let Builder { callbacks, registers } = self.builder;
        let mut callbacks = callbacks;
        let mut registers = registers;
        Self::require(&mut registers, RegisterType::WaitForStop);
        if callbacks.contains_key(CallbackType::ReloadConfig) {
            Self::require(&mut registers, RegisterType::ReloadConfig);
        }
        if callbacks.contains_key(CallbackType::PrintStats) {
            Self::require(&mut registers, RegisterType::PrintStats);
        }
        let initialized = callbacks.remove(CallbackType::Initialized);
        let wait_for_stop = callbacks.remove(CallbackType::WaitForStop);
        let reload_config = callbacks.remove(CallbackType::ReloadConfig);
        let print_stats = callbacks.remove(CallbackType::PrintStats);
        let dispatcher = Dispatcher::new(
            initialized.is_some(),
            reload_config.is_some(),
            wait_for_stop.is_some(),
            print_stats.is_some(),
        );
        let mut workers: Vec<(CallbackType, Callback)> = Vec::new();
        if let Some(cb) = reload_config {
            workers.push((CallbackType::ReloadConfig, cb));
        }
        assert(workers@ =~= entry_of(self.callbacks(), CallbackType::ReloadConfig));
        if let Some(cb) = print_stats {
            workers.push((CallbackType::PrintStats, cb));
        }
        assert(workers@ =~= worker_entries(self.callbacks()));
        Run { registers, initialized, wait_for_stop, workers, dispatcher }
    }

    /// Opens a run under the blocking model. A suspending callback cannot run
    /// there: if one is bound to any occasion the run is refused with
    /// `AsyncRequired`, before anything is installed. Otherwise the run is
    /// assembled.
    pub fn handle(self) -> (result: Result<Run, HandleError>)
        ensures
            result is Err <==> binds_async(self.callbacks()),
            result is Err ==> result->Err_0 is AsyncRequired,
            result is Ok ==> assembled(self.registers(), self.callbacks(), result->Ok_0),
    {
        if self.builder.callbacks.has_async() {
            return Err(HandleError::AsyncRequired);
        }
        Ok(self.assemble())
    }

    /// Opens a run under the cooperative model, which takes callbacks of
    /// both kinds: the run is always assembled.
    pub fn handle_async(self) -> (result: Result<Run, HandleError>)
        ensures
            result is Ok,
            assembled(self.registers(), self.callbacks(), result->Ok_0),
    {
        Ok(self.assemble())
    }
}

impl HandleError {
    /// The error as diagnostics print it.
    pub fn label(&self) -> (s: &'static str)
        ensures
            *self is AsyncRequired ==> s@ == "AsyncRequired"@,
            *self is RegisterFailed ==> s@ == "RegisterFailed"@,
            *self is Other ==> s@ == "Other"@,
    {
        match self {
            HandleError::AsyncRequired => "AsyncRequired",
            HandleError::RegisterFailed(_) => "RegisterFailed",
            HandleError::Other(_) => "Other",
        }
    }
}

} // verus!
