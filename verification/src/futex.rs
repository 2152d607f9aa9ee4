//! The wait/wake primitive behind the lock, and the seam that lets another
//! implementation stand in for it.

use vstd::prelude::*;
use std::sync::atomic::AtomicU32;

verus! {

/// How long a wait may last: whole seconds, then nanoseconds.
pub struct FutexTimeout(pub u32, pub u32);

/// A timeout as the kernel takes it.
#[allow(non_camel_case_types)]
pub struct c_timespec {
    pub tv_sec: i64,
    pub tv_nsec: i64,
}

/// The kernel's form of `timeout`: the same seconds and nanoseconds.
pub open spec fn kernel_form(timeout: FutexTimeout) -> c_timespec {
    c_timespec { tv_sec: timeout.0 as i64, tv_nsec: timeout.1 as i64 }
}

impl c_timespec {
    /// The kernel's form of `timeout`.
    pub fn of(timeout: FutexTimeout) -> (spec: Self)
        ensures
            spec == kernel_form(timeout),
        opens_invariants none
        no_unwind
    {
        let tv_sec = timeout.0 as i64;
        let tv_nsec = timeout.1 as i64;
        Self { tv_sec, tv_nsec }
    }
}

impl From<FutexTimeout> for c_timespec {
    fn from(timeout: FutexTimeout) -> (spec: Self)
    {
        Self::of(timeout)
    }
}

impl vstd::std_specs::convert::FromSpecImpl<FutexTimeout> for c_timespec {
    open spec fn obeys_from_spec() -> bool {
        true
    }

    open spec fn from_spec(timeout: FutexTimeout) -> Self {
        kernel_form(timeout)
    }
}

/// The futex operation that puts the caller to sleep.
pub const FUTEX_WAIT: u32 = 0;

/// The futex operation that wakes sleepers.
pub const FUTEX_WAKE: u32 = 1;

/// What a failed futex operation returns.
pub const FAILED: i64 = -1;

/// `rustix::thread::futex::wait` on a word shared between processes: sleeps
/// while the word holds `expected`, for at most `timeout` if one is given.
/// Tells whether the kernel reported success; a word that holds another
/// value, a timeout that ran out and an interrupt all count as failure.
#[verifier::external_body]
fn kernel_wait(word: &AtomicU32, expected: u32, timeout: Option<c_timespec>) -> (slept: bool)
    opens_invariants none
    no_unwind
{
    let limit = timeout.map(
        |t| rustix::thread::futex::Timespec { tv_sec: t.tv_sec, tv_nsec: t.tv_nsec },
    );
    let flags = rustix::thread::futex::Flags::empty();
    rustix::thread::futex::wait(word, flags, expected, limit.as_ref()).is_ok()
}

/// `rustix::thread::futex::wake` on a word shared between processes: wakes
/// at most `count` sleepers and gives their number, or nothing if the kernel
/// reported failure.
#[verifier::external_body]
fn kernel_wake(word: &AtomicU32, count: u32) -> (woken: Option<usize>)
    opens_invariants none
    no_unwind
{
    let flags = rustix::thread::futex::Flags::empty();
    rustix::thread::futex::wake(word, flags, count).ok()
}

/// The status of a wait.
pub open spec fn wait_status(slept: bool) -> i64 {
    if slept {
        0
    } else {
        FAILED
    }
}

/// The status of a wake: the number of threads woken, capped at what the
/// status can hold.
pub open spec fn wake_status(woken: Option<usize>) -> i64 {
    match woken {
        Some(n) => if n <= i64::MAX {
            n as i64
        } else {
            i64::MAX
        },
        None => FAILED,
    }
}

/// The status that a wait reports to its caller.
pub fn status_of_wait(slept: bool) -> (status: i64)
    ensures
        status == wait_status(slept),
    opens_invariants none
    no_unwind
{
    if slept {
        0
    } else {
        FAILED
    }
}

/// The status that a wake reports to its caller.
pub fn status_of_wake(woken: Option<usize>) -> (status: i64)
    ensures
        status == wake_status(woken),
    opens_invariants none
    no_unwind
{
    match woken {
        Some(n) => if n as u64 <= i64::MAX as u64 {
            n as i64
        } else {
            i64::MAX
        },
        None => FAILED,
    }
}

/// Performs the futex operation `op` on `futex_ref`. A wait sleeps while the
/// word holds `val`; a wake wakes at most `val` sleepers. Any other
/// operation fails without reaching the kernel.
pub fn futex(futex_ref: &AtomicU32, op: u32, val: u32, timeout: Option<FutexTimeout>) -> (status: i64)
    ensures
        op == FUTEX_WAIT ==> status == 0 || status == FAILED,
        op == FUTEX_WAKE ==> status >= 0 || status == FAILED,
        op != FUTEX_WAIT && op != FUTEX_WAKE ==> status == FAILED,
    opens_invariants none
    no_unwind
{
    if op == FUTEX_WAIT {
        let limit = match timeout {
            None => None,
            Some(duration) => Some(c_timespec::of(duration)),
        };
        let slept = kernel_wait(futex_ref, val, limit);
        status_of_wait(slept)
    } else if op == FUTEX_WAKE {
        let woken = kernel_wake(futex_ref, val);
        status_of_wake(woken)
    } else {
        FAILED
    }
}

/// Sleeps while the word holds `val`, for at most `timeout` if one is given.
/// Returns at once if the word holds another value, and may return early for
/// no reason at all: the caller looks at the word again.
pub fn futex_wait(futex_addr: &AtomicU32, val: u32, timeout: Option<FutexTimeout>) -> (status: i64)
    ensures
        status == 0 || status == FAILED,
    opens_invariants none
    no_unwind
{
    futex(futex_addr, FUTEX_WAIT, val, timeout)
}

/// Wakes at most `val` threads that sleep on the word and returns at once.
/// The timeout is taken for symmetry with `futex_wait` and has no effect.
pub fn futex_wake(futex_addr: &AtomicU32, val: u32, timeout: Option<FutexTimeout>) -> (status: i64)
    ensures
        status >= 0 || status == FAILED,
    opens_invariants none
    no_unwind
{
    futex(futex_addr, FUTEX_WAKE, val, timeout)
}

/// The capability to sleep on a word and to wake its sleepers.
///
/// The lock is written against this trait, so that a stand-in which counts
/// the calls can take the place of the kernel. Left as they are, the methods
/// are the kernel's futex. Nothing is asked of what they return: the lock
/// looks at the word again after every wait.
pub trait Futex {
    /// Wakes at most `val` threads that sleep on `lock`. Never blocks, and
    /// must not panic: it runs while a guard is dropped.
    fn futex_wake(lock: &AtomicU32, val: u32, timeout: Option<FutexTimeout>) -> (status: i64)
        opens_invariants none
        no_unwind
    {
        futex_wake(lock, val, timeout)
    }

    /// Sleeps while `lock` holds `val`. May return at any time.
    fn futex_wait(lock: &AtomicU32, val: u32, timeout: Option<FutexTimeout>) -> (status: i64)
    {
        futex_wait(lock, val, timeout)
    }
}

/// The kernel's futex.
#[derive(Debug)]
pub struct RealFutexCalls;

impl Futex for RealFutexCalls {
}

} // verus!
