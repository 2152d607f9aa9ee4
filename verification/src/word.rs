//! The shared lock word, and the record of what a thread does to it.
//!
//! The word is a `std` atomic. Other threads change it at any moment, so
//! nothing is known of its value beyond what one operation reports. What can
//! be known is what this thread has done: every operation on the word goes
//! through a `Tap`, which keeps them in order. The record is private to this
//! module, so that only its functions, each of which makes the operation it
//! records, can add to it. Contracts elsewhere speak of that record.

use vstd::prelude::*;
use std::sync::atomic::{AtomicU32, Ordering};
use crate::futex::{Futex, FutexTimeout};
use crate::protocol::exchange_reports;

verus! {

/// One operation on the lock word, with what it reported.
pub enum Op {
    /// A compare-and-exchange of `current` for `new`.
    Exchange { current: u32, new: u32, report: Result<u32, u32> },
    /// A compare-and-exchange that may fail for no reason.
    WeakExchange { current: u32, new: u32, report: Result<u32, u32> },
    /// A decrement by one, which replaced `prev`.
    Decrement { prev: u32 },
    /// A store of `value`.
    Store { value: u32 },
    /// A sleep on the word while it holds `expected`.
    Wait { expected: u32, timeout: Option<FutexTimeout> },
    /// A wake of at most `count` sleepers on the word.
    Wake { count: u32, timeout: Option<FutexTimeout> },
}

/// One thread's access to a lock word, with the record of what it has done
/// there.
pub struct Tap<'a> {
    word: &'a AtomicU32,
    record: Ghost<Seq<Op>>,
}

/// The value that a word held when it was made.
pub uninterp spec fn made_with(word: AtomicU32) -> u32;

/// The word that a tap is on.
pub closed spec fn tapped(tap: Tap) -> AtomicU32 {
    *tap.word
}

/// The operations made through a tap since it was opened, in order.
pub closed spec fn performed(tap: Tap) -> Seq<Op> {
    tap.record@
}

/// `AtomicU32::new`: a fresh word that holds `value`.
#[verifier::external_body]
pub(crate) fn fresh(value: u32) -> (word: AtomicU32)
    ensures
        made_with(word) == value,
{
    AtomicU32::new(value)
}

/// `AtomicU32::compare_exchange` with acquire ordering: stores `new` if the
/// word holds `current`. On success the report carries `current`; on failure
/// it carries the value that was seen, which differs from `current`.
#[verifier::external_body]
fn compare_exchange(word: &AtomicU32, current: u32, new: u32) -> (report: Result<u32, u32>)
    ensures
        exchange_reports(current, report),
{
    word.compare_exchange(current, new, Ordering::Acquire, Ordering::Acquire)
}

/// `AtomicU32::compare_exchange_weak` with acquire ordering: as
/// `compare_exchange`, but it may fail although the word holds `current`.
/// Only success says something: the report then carries `current`.
#[verifier::external_body]
fn compare_exchange_weak(word: &AtomicU32, current: u32, new: u32) -> (report: Result<u32, u32>)
    ensures
        report matches Ok(prev) ==> prev == current,
{
    word.compare_exchange_weak(current, new, Ordering::Acquire, Ordering::Acquire)
}

/// `AtomicU32::fetch_sub` of one with release ordering: the value before the
/// decrement, which wraps below zero.
#[verifier::external_body]
fn fetch_sub(word: &AtomicU32) -> (prev: u32)
    opens_invariants none
    no_unwind
{
    word.fetch_sub(1, Ordering::Release)
}

/// `AtomicU32::store` with release ordering.
#[verifier::external_body]
fn store(word: &AtomicU32, value: u32)
    opens_invariants none
    no_unwind
{
    word.store(value, Ordering::Release)
}

impl<'a> Tap<'a> {
    /// A tap on `word` that has recorded nothing.
    pub fn on(word: &'a AtomicU32) -> (tap: Self)
        ensures
            tapped(tap) == *word,
            performed(tap) == Seq::<Op>::empty(),
    {
        Tap { word, record: Ghost(Seq::empty()) }
    }
}

/// Exchanges `current` for `new` if the word holds `current`, and records
/// it. The report carries the value that the word held: `current` if the
/// exchange took place, another value if not.
pub(crate) fn exchange(tap: &mut Tap, current: u32, new: u32) -> (report: Result<u32, u32>)
    ensures
        exchange_reports(current, report),
        tapped(*final(tap)) == tapped(*old(tap)),
        performed(*final(tap)) == performed(*old(tap)).push(Op::Exchange { current, new, report }),
{
    let report = compare_exchange(tap.word, current, new);
    tap.record = Ghost(tap.record@.push(Op::Exchange { current, new, report }));
    report
}

/// As `exchange`, but the exchange may fail although the word holds
/// `current`.
pub(crate) fn exchange_weak(tap: &mut Tap, current: u32, new: u32) -> (report: Result<u32, u32>)
    ensures
        report matches Ok(prev) ==> prev == current,
        tapped(*final(tap)) == tapped(*old(tap)),
        performed(*final(tap)) == performed(*old(tap)).push(
            Op::WeakExchange { current, new, report },
        ),
{
    let report = compare_exchange_weak(tap.word, current, new);
    tap.record = Ghost(tap.record@.push(Op::WeakExchange { current, new, report }));
    report
}

/// Decrements the word by one and records it. Gives the value that the
/// decrement replaced.
pub(crate) fn decrement(tap: &mut Tap) -> (prev: u32)
    ensures
        tapped(*final(tap)) == tapped(*old(tap)),
        performed(*final(tap)) == performed(*old(tap)).push(Op::Decrement { prev }),
    opens_invariants none
    no_unwind
{
    let prev = fetch_sub(tap.word);
    tap.record = Ghost(tap.record@.push(Op::Decrement { prev }));
    prev
}

/// Stores `value` in the word and records it.
pub(crate) fn put(tap: &mut Tap, value: u32)
    ensures
        tapped(*final(tap)) == tapped(*old(tap)),
        performed(*final(tap)) == performed(*old(tap)).push(Op::Store { value }),
    opens_invariants none
    no_unwind
{
    store(tap.word, value);
    tap.record = Ghost(tap.record@.push(Op::Store { value }));
}

/// Sleeps on the word by the capability `F` and records it. Nothing is known
/// of what the wait returns or of how long it takes.
pub(crate) fn wait<F: Futex>(tap: &mut Tap, expected: u32, timeout: Option<FutexTimeout>) -> (status:
    i64)
    ensures
        tapped(*final(tap)) == tapped(*old(tap)),
        performed(*final(tap)) == performed(*old(tap)).push(Op::Wait { expected, timeout }),
{
    let ghost given = timeout;
    let status = F::futex_wait(tap.word, expected, timeout);
    tap.record = Ghost(tap.record@.push(Op::Wait { expected, timeout: given }));
    status
}

/// Wakes sleepers on the word by the capability `F` and records it. Nothing
/// is known of what the wake returns.
pub(crate) fn wake<F: Futex>(tap: &mut Tap, count: u32, timeout: Option<FutexTimeout>) -> (status:
    i64)
    ensures
        tapped(*final(tap)) == tapped(*old(tap)),
        performed(*final(tap)) == performed(*old(tap)).push(Op::Wake { count, timeout }),
    opens_invariants none
    no_unwind
{
    let ghost given = timeout;
    let status = F::futex_wake(tap.word, count, timeout);
    tap.record = Ghost(tap.record@.push(Op::Wake { count, timeout: given }));
    status
}

} // verus!
