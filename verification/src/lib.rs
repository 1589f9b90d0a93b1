//! Dispatch of operating-system signals to application callbacks.
//!
//! A signal handler runs in a context where almost nothing is allowed, so the
//! handler installed for each signal only posts the signal's category to a
//! bounded channel. A routing loop reads that channel and either hands a
//! timestamped snapshot to the category's worker or, for the terminal
//! category, runs the bound callback inline and stops. Each worker executes
//! its callback serially and drops snapshots that a finished run has already
//! superseded.
//!
//! This crate holds the rules of that engine as verified state machines. The
//! surrounding program owns threads, tasks and channels: it feeds events in
//! and carries the returned actions out.

pub mod callback;
pub mod handler;
pub mod register;
pub mod time;
pub mod worker;

pub use callback::{Callback, CallbackInfo, CallbackType, Callbacks};
pub use handler::builder::Builder;
pub use handler::{HandleError, Handler};
pub use time::Timestamp;
