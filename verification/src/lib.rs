//! A busy-wait lock around one value, with the protocol it follows.
//!
//! [`SpinLock`] owns a value and a flag. [`SpinLock::lock`] spins until it has
//! flipped the flag from free to held and returns a [`Guard`]; the guard is
//! the only way to the value, and dropping it frees the flag. The lock is
//! not fair, cannot be taken twice by one thread, and does not notice a
//! guard that is never dropped.
//!
//! - [`lock`]: the lock and its guard.
//! - [`protocol`]: the protocol as a machine that takes one step of one
//!   thread at a time.
//! - [`laws`]: what holds of the protocol in every interleaving.
//! - [`cache`]: a cache to share behind a lock.
//! - [`workload`]: work for threads to share.

pub mod cache;
pub mod laws;
pub mod lock;
pub mod protocol;
pub mod workload;

pub use crate::cache::Cache;
pub use crate::lock::Guard;
pub use crate::lock::SpinLock;
