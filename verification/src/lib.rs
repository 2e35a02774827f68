//! A fixed-size worker pool as a deterministic engine.
//!
//! Tasks are submitted as tickets (`u64`), queued on bounded per-worker
//! channels, handed to workers in first-in first-out order and drained on
//! shutdown. Every rule of the pool (dispatch, wake-up, the worker's state
//! machine, shutdown) is a function with a contract; threads, locks and the
//! callables behind the tickets belong to the caller.

pub mod channel;
pub mod dispatch;
pub mod event;
pub mod pool;
pub mod signal;
pub mod worker;

pub use crate::channel::Channel;
pub use crate::channel::PoolError;
pub use crate::event::Event;
pub use crate::pool::Builder;
pub use crate::pool::ThreadPool;
pub use crate::signal::WakeSignal;
pub use crate::worker::Action;
pub use crate::worker::Status;
pub use crate::worker::Worker;
