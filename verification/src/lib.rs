//! A blocking mutual-exclusion lock built on a kernel wait/wake word.
//!
//! The lock word takes three values: unlocked, locked, and locked with
//! waiters. What a thread does with it is laid down once, in `protocol`, as a
//! small machine of phases, and everything else is held to that:
//!
//! - `futer` is the lock itself. It drives the machine against a real atomic
//!   word and hands out the guard that stands for ownership. Its contracts
//!   say which operations were made on the word, in which order.
//! - `model` puts any number of such threads side by side and proves what no
//!   run on real threads can: that under every interleaving at most one thread
//!   owns the lock, that no update of what it protects is lost, and that no
//!   sleeper is left without a wake.
//! - `futex` is the kernel's wait and wake, behind a trait, so that a stand-in
//!   can count the calls.
//! - `word` holds the operations on the atomic word, and the tap that
//!   records which of them a thread has made.
//! - `channel` is a queue between threads, on `std`'s lock and condition.
//!
//! The lock is taken by `lock`, which sleeps in the kernel while another
//! thread owns it, or by `try_lock`, which never sleeps. An uncontended `lock`
//! and its release are one atomic operation each, and enter the kernel not at
//! all.

pub mod protocol;
pub mod word;
pub mod futex;
mod sync;
pub mod futer;
pub mod model;
pub mod channel;
