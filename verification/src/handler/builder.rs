//! Assembling the configuration of a dispatcher.

use crate::callback::{
    binds, was_called, Callback, CallbackInfo, CallbackType, Callbacks, Pending,
};
use crate::handler::Handler;
use crate::register::{requests, RegisterType, Registers, SignalNumber};
use std::future::Future;
use vstd::prelude::*;

verus! {

/// The configuration of a dispatcher while it is put together: the callbacks
/// bound so far and the categories to install for them.
#[non_exhaustive]
pub struct Builder {
    pub callbacks: Callbacks,
    pub registers: Registers,
}

/// Whether `after` is `before` with the blocking action `cb` bound to `tp`.
pub open spec fn binds_sync<F: Fn(CallbackInfo) + Send + Sync + 'static>(
    before: Map<CallbackType, Callback>,
    after: Map<CallbackType, Callback>,
    tp: CallbackType,
    cb: F,
) -> bool {
    &&& binds(before, after, tp)
    &&& after[tp] is Sync
    &&& forall|info: CallbackInfo| after[tp].accepts(info) == call_requires(cb, (info,))
    &&& forall|info: CallbackInfo| after[tp].ran(info) == call_ensures(cb, (info,), ())
}

/// Whether `after` is `before` with the suspending action `cb` bound to `tp`.
pub open spec fn binds_suspending<F, Fut>(
    before: Map<CallbackType, Callback>,
    after: Map<CallbackType, Callback>,
    tp: CallbackType,
    cb: F,
) -> bool where
    F: Fn(CallbackInfo) -> Fut + Send + Sync + 'static,
    Fut: Future<Output = ()> + Send + 'static,
 {
    &&& binds(before, after, tp)
    &&& after[tp] is Async
    &&& forall|info: CallbackInfo| call_requires(cb, (info,)) ==> after[tp].accepts(info)
    &&& forall|info: CallbackInfo, pending: Pending| #[trigger]
        after[tp].started(info, pending) ==> was_called(cb, info)
}

impl Builder {
    /// The empty configuration.
    pub fn new() -> (b: Builder)
        ensures
            b.callbacks@ == Map::<CallbackType, Callback>::empty(),
            b.registers@ == Map::<RegisterType, Seq<SignalNumber>>::empty(),
    {
        Builder { callbacks: Callbacks::new(), registers: Registers::new() }
    }

    /// Closes the configuration.
    pub fn build(self) -> (h: Handler)
        ensures
            h.callbacks() == self.callbacks@,
            h.registers() == self.registers@,
    {
        Handler::from_builder(self)
    }

    /// Binds a blocking action to run once before the first event.
    pub fn initialized<F>(self, cb: F) -> (b: Builder) where
        F: Fn(CallbackInfo) + Send + Sync + 'static,

        ensures
            binds_sync(self.callbacks@, b.callbacks@, CallbackType::Initialized, cb),
            b.registers@ == self.registers@,
    {
        let mut b = self;
        let _previous = b.callbacks.insert(CallbackType::Initialized, Callback::with_sync(cb));
        b
    }

    /// Binds a suspending action to run once before the first event.
    pub fn initialized_async<F, Fut>(self, cb: F) -> (b: Builder) where
        F: Fn(CallbackInfo) -> Fut + Send + Sync + 'static,
        Fut: Future<Output = ()> + Send + 'static,

        ensures
            binds_suspending(self.callbacks@, b.callbacks@, CallbackType::Initialized, cb),
            b.registers@ == self.registers@,
    {
        let mut b = self;
        let _previous = b.callbacks.insert(CallbackType::Initialized, Callback::with_async(cb));
        b
    }

    /// Binds a blocking action to the reload category and requests the
    /// category.
    pub fn reload_config<F>(self, cb: F) -> (b: Builder) where
        F: Fn(CallbackInfo) + Send + Sync + 'static,

        ensures
            binds_sync(self.callbacks@, b.callbacks@, CallbackType::ReloadConfig, cb),
            requests(self.registers@, b.registers@, RegisterType::ReloadConfig),
    {
        let mut b = self;
        let _previous = b.callbacks.insert(CallbackType::ReloadConfig, Callback::with_sync(cb));
        let _requested = b.registers.insert_reload_config();
        b
    }

    /// Binds a suspending action to the reload category and requests the
    /// category.
    pub fn reload_config_async<F, Fut>(self, cb: F) -> (b: Builder) where
        F: Fn(CallbackInfo) -> Fut + Send + Sync + 'static,
        Fut: Future<Output = ()> + Send + 'static,

        ensures
            binds_suspending(self.callbacks@, b.callbacks@, CallbackType::ReloadConfig, cb),
            requests(self.registers@, b.registers@, RegisterType::ReloadConfig),
    {
        let mut b = self;
        let _previous = b.callbacks.insert(CallbackType::ReloadConfig, Callback::with_async(cb));
        let _requested = b.registers.insert_reload_config();
        b
    }

    /// Binds a blocking action to the terminal category and requests the
    /// category.
    pub fn wait_for_stop<F>(self, cb: F) -> (b: Builder) where
        F: Fn(CallbackInfo) + Send + Sync + 'static,

        ensures
            binds_sync(self.callbacks@, b.callbacks@, CallbackType::WaitForStop, cb),
            requests(self.registers@, b.registers@, RegisterType::WaitForStop),
    {
        let mut b = self;
        let _previous = b.callbacks.insert(CallbackType::WaitForStop, Callback::with_sync(cb));
        let _requested = b.registers.insert_wait_for_stop();
        b
    }

    /// Binds a suspending action to the terminal category and requests the
    /// category.
    pub fn wait_for_stop_async<F, Fut>(self, cb: F) -> (b: Builder) where
        F: Fn(CallbackInfo) -> Fut + Send + Sync + 'static,
        Fut: Future<Output = ()> + Send + 'static,

        ensures
            binds_suspending(self.callbacks@, b.callbacks@, CallbackType::WaitForStop, cb),
            requests(self.registers@, b.registers@, RegisterType::WaitForStop),
    {
        let mut b = self;
        let _previous = b.callbacks.insert(CallbackType::WaitForStop, Callback::with_async(cb));
        let _requested = b.registers.insert_wait_for_stop();
        b
    }

    /// Binds a blocking action to the statistics category and requests the
    /// category.
    pub fn print_stats<F>(self, cb: F) -> (b: Builder) where
        F: Fn(CallbackInfo) + Send + Sync + 'static,

        ensures
            binds_sync(self.callbacks@, b.callbacks@, CallbackType::PrintStats, cb),
            requests(self.registers@, b.registers@, RegisterType::PrintStats),
    {
        let mut b = self;
        let _previous = b.callbacks.insert(CallbackType::PrintStats, Callback::with_sync(cb));
        let _requested = b.registers.insert_print_stats();
        b
    }

    /// Binds a suspending action to the statistics category and requests the
    /// category.
    pub fn print_stats_async<F, Fut>(self, cb: F) -> (b: Builder) where
        F: Fn(CallbackInfo) -> Fut + Send + Sync + 'static,
        Fut: Future<Output = ()> + Send + 'static,

        ensures
            binds_suspending(self.callbacks@, b.callbacks@, CallbackType::PrintStats, cb),
            requests(self.registers@, b.registers@, RegisterType::PrintStats),
    {
        let mut b = self;
        let _previous = b.callbacks.insert(CallbackType::PrintStats, Callback::with_async(cb));
        let _requested = b.registers.insert_print_stats();
        b
    }
}

impl Default for Builder {
    fn default() -> (b: Builder)
        ensures
            b.callbacks@ == Map::<CallbackType, Callback>::empty(),
            b.registers@ == Map::<RegisterType, Seq<SignalNumber>>::empty(),
    {
        Builder::new()
    }
}

} // verus!
