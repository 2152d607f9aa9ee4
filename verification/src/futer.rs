//! The lock: a payload, a lock word, and the guard that stands for ownership.
//!
//! The lock word alone decides who owns the lock. The payload sits in a `std`
//! mutex, which serves as the cell that hands out `&mut T` behind `&self`:
//! the owner enters it after the word is taken and leaves it before the word
//! is given back, so it is never contended, and the release never touches
//! the payload. Both live on the heap, where moving the lock does not move
//! them.
//!
//! Other threads change the word at any moment, so a contract here cannot say
//! what the word holds. It says what the calling thread has done to the word
//! and what it has seen: every operation goes through a `Tap`, which records
//! it, and `lock` promises that the operations recorded for a guard are those
//! of a run of the machine in `protocol`, neither more nor fewer.

use vstd::prelude::*;
use std::marker::PhantomData;
use std::sync::atomic::AtomicU32;
use std::sync::{Mutex, MutexGuard};
use crate::sync::{enter, mutex, peek, reach, recover};
use crate::futex::{Futex, RealFutexCalls};
use crate::protocol::{
    attempt_op, course, event_of, is_acquisition, is_run, law_one_exchange_acquires,
    lemma_course_push, lemma_run_push, must_wake, observe, phase_after, release_ops, settle_ops,
    wake_needed, Action, Event, Phase, ALL, LOCKED, UNLOCKED,
};
use crate::word::{
    decrement, exchange, exchange_weak, fresh, made_with, performed, put, tapped, wait, wake, Op,
    Tap,
};

verus! {

/// Why `try_lock` gave no guard.
#[derive(Debug, PartialEq, Eq, Structural)]
pub enum TryLockError {
    /// The lock is held, or the one attempt failed for no reason.
    WouldBlock,
}

/// The most operations one `lock` performs on the word before it gives up.
pub const PATIENCE: u64 = 0xffff_ffff_ffff_ffff;

/// Completes a release whose decrement replaced `prev`: if that was not the
/// uncontended value, unlocks the word and then wakes every waiter. Tells
/// whether it did. Nothing else is done to the word.
pub fn settle<F: Futex>(tap: &mut Tap, prev: u32) -> (woke: bool)
    ensures
        woke == wake_needed(prev),
        tapped(*final(tap)) == tapped(*old(tap)),
        performed(*final(tap)) == performed(*old(tap)) + settle_ops(prev),
    opens_invariants none
    no_unwind
{
    if must_wake(prev) {
        put(tap, UNLOCKED);
        wake::<F>(tap, ALL, None);
        assert(performed(*tap) =~= performed(*old(tap)) + settle_ops(prev));
        true
    } else {
        assert(performed(*tap) =~= performed(*old(tap)) + settle_ops(prev));
        false
    }
}

/// Gives the lock word back: decrements it, and settles what the decrement
/// replaced. Gives whether waiters had to be woken, and the value that the
/// decrement replaced. Nothing else is done to the word.
pub fn release<F: Futex>(tap: &mut Tap) -> (left: (bool, Ghost<u32>))
    ensures
        left.0 == wake_needed(left.1@),
        tapped(*final(tap)) == tapped(*old(tap)),
        performed(*final(tap)) == performed(*old(tap)) + release_ops(left.1@),
    opens_invariants none
    no_unwind
{
    let prev = decrement(tap);
    let woke = settle::<F>(tap, prev);
    assert(performed(*tap) =~= performed(*old(tap)) + release_ops(prev));
    (woke, Ghost(prev))
}

/// Makes the one attempt of a thread that does not wait: a weak exchange of
/// unlocked for locked. Gives whether the word was taken, which is exactly
/// when the exchange took place, and what the exchange reported. Nothing
/// else is done to the word.
pub fn attempt(tap: &mut Tap) -> (taken: (bool, Ghost<Result<u32, u32>>))
    ensures
        taken.0 == (taken.1@ is Ok),
        taken.0 ==> taken.1@ == Ok::<u32, u32>(UNLOCKED),
        tapped(*final(tap)) == tapped(*old(tap)),
        performed(*final(tap)) == performed(*old(tap)).push(attempt_op(taken.1@)),
{
    match Phase::Enter.action() {
        Action::Cas { current, new } => {
            let report = exchange_weak(tap, current, new);
            (report.is_ok(), Ghost(report))
        },
        // The first phase asks for an exchange.
        _ => vstd::pervasive::unreached(),
    }
}

/// Takes the lock word, performing at most `patience` operations on it: the
/// exchanges that the phases ask for, and waits on the contested word without
/// a timeout. Gives whether the word was taken, and what the operations
/// reported. The operations made are those of the run, in its order, and no
/// others.
pub fn acquire<F: Futex>(tap: &mut Tap, patience: u64) -> (taken: (bool, Ghost<Seq<Event>>))
    ensures
        is_run(Phase::Enter, taken.1@),
        taken.0 == (phase_after(Phase::Enter, taken.1@) == Phase::Held),
        taken.1@.len() <= patience,
        !taken.0 ==> taken.1@.len() == patience,
        tapped(*final(tap)) == tapped(*old(tap)),
        performed(*final(tap)) == performed(*old(tap)) + course(Phase::Enter, taken.1@),
{
    let mut phase = Phase::Enter;
    let mut left: u64 = patience;
    let ghost mut seen: Seq<Event> = Seq::empty();
    let ghost before = performed(*tap);
    let ghost word = tapped(*tap);
    assert(performed(*tap) =~= before + course(Phase::Enter, seen));
    while !phase.is_held() && left > 0
        invariant
            is_run(Phase::Enter, seen),
            phase == phase_after(Phase::Enter, seen),
            seen.len() + left == patience,
            tapped(*tap) == word,
            performed(*tap) == before + course(Phase::Enter, seen),
        decreases left,
    {
        let event = match phase.action() {
            Action::Cas { current, new } => observe(exchange(tap, current, new)),
            Action::Wait { expected } => {
                // Woken, timed out or disturbed: the word is looked at again
                // in any case.
                wait::<F>(tap, expected, None);
                Event::Woken
            },
            // Only the held phase rests, and the loop has left by then.
            Action::Rest => Event::Woken,
        };
        proof {
            lemma_run_push(Phase::Enter, seen, event);
            lemma_course_push(Phase::Enter, seen, event);
            assert(performed(*tap) =~= before + course(Phase::Enter, seen.push(event)));
            seen = seen.push(event);
        }
        phase = phase.step(event);
        left = left - 1;
    }
    (phase.is_held(), Ghost(seen))
}

/// Ownership of a lock word. Dropping it releases the word.
struct Hold<'a, F: Futex> {
    tap: Tap<'a>,
    seen: Ghost<Seq<Event>>,
    _futex: PhantomData<F>,
}

impl<'a, F: Futex> Hold<'a, F> {
    /// The operations made on the word through this hold.
    pub closed spec fn operations(&self) -> Seq<Op> {
        performed(self.tap)
    }
}

impl<'a, F: Futex> Drop for Hold<'a, F> {
    /// Releases the word: what is done to it are the operations of a
    /// release, and no others.
    fn drop(&mut self)
        ensures
            exists|prev: u32|
                final(self).operations() == old(self).operations() + #[trigger] release_ops(prev),
        opens_invariants none
        no_unwind
    {
        let left = release::<F>(&mut self.tap);
        assert(self.operations() == old(self).operations() + release_ops(left.1@));
    }
}

/// Exclusive access to the payload of a lock, for as long as it lives.
///
/// The payload's handle comes first, so that it is gone when the word is
/// released.
#[verifier::reject_recursive_types(T)]
pub struct FuterGuardInternal<'a, T, F: Futex> {
    payload: MutexGuard<'a, T>,
    hold: Hold<'a, F>,
}

impl<'a, T, F: Futex> FuterGuardInternal<'a, T, F> {
    /// A guard exists only for a thread that has taken the word.
    #[verifier::type_invariant]
    closed spec fn taken(self) -> bool {
        is_acquisition(self.hold.seen@)
    }

    /// The lock word that this guard gives back.
    pub closed spec fn word(&self) -> AtomicU32 {
        tapped(self.hold.tap)
    }

    /// What the operations reported that took the word for this guard.
    pub closed spec fn history(&self) -> Seq<Event> {
        self.hold.seen@
    }

    /// The operations that the thread has made on the word for this guard.
    pub closed spec fn operations(&self) -> Seq<Op> {
        performed(self.hold.tap)
    }

    fn new(payload: MutexGuard<'a, T>, tap: Tap<'a>, seen: Ghost<Seq<Event>>) -> (guard: Self)
        requires
            is_acquisition(seen@),
        ensures
            guard.word() == tapped(tap),
            guard.history() == seen@,
            guard.operations() == performed(tap),
    {
        Self { payload, hold: Hold { tap, seen, _futex: PhantomData } }
    }
}

impl<'a, T, F: Futex> std::ops::Deref for FuterGuardInternal<'a, T, F> {
    type Target = T;

    /// The payload, to read. Whoever gets here has taken the word.
    fn deref(&self) -> (value: &T)
        ensures
            is_acquisition(self.history()),
    {
        proof {
            use_type_invariant(self);
        }
        peek(&self.payload)
    }
}

impl<'a, T, F: Futex> std::ops::DerefMut for FuterGuardInternal<'a, T, F> {
    /// The payload, to change. Whoever gets here has taken the word, and the
    /// guard stays the guard it was: nothing is done to the word.
    fn deref_mut(&mut self) -> (value: &mut T)
        ensures
            is_acquisition(old(self).history()),
            final(self).word() == old(self).word(),
            final(self).history() == old(self).history(),
            final(self).operations() == old(self).operations(),
    {
        proof {
            use_type_invariant(&*self);
        }
        reach(&mut self.payload)
    }
}

/// A payload behind a lock word, over the wait/wake capability `F`.
#[verifier::reject_recursive_types(T)]
pub struct FuterInternal<T, F: Futex> {
    val: Box<Mutex<T>>,
    lock: Box<AtomicU32>,
    _futex: PhantomData<F>,
}

impl<T, F: Futex> FuterInternal<T, F> {
    /// The lock word.
    pub closed spec fn word(&self) -> AtomicU32 {
        *self.lock
    }

    /// A lock that nobody holds, around `unboxed_val`.
    pub fn new(unboxed_val: T) -> (futer: Self)
        ensures
            made_with(futer.word()) == UNLOCKED,
    {
        let val = Box::new(mutex(unboxed_val));
        let lock = Box::new(fresh(UNLOCKED));
        Self { val, lock, _futex: PhantomData }
    }

    /// The guard of a thread that has taken the word through `tap` and seen
    /// `seen` on the way.
    fn guard<'a>(&'a self, tap: Tap<'a>, seen: Ghost<Seq<Event>>) -> (guard: FuterGuardInternal<
        'a,
        T,
        F,
    >)
        requires
            is_acquisition(seen@),
        ensures
            guard.word() == tapped(tap),
            guard.history() == seen@,
            guard.operations() == performed(tap),
    {
        // A thread that panicked inside the lock has left the payload as it
        // was at that moment; the lock knows no poisoned state.
        let payload = match enter(&*self.val) {
            Ok(payload) => payload,
            Err(poisoned) => recover(poisoned),
        };
        FuterGuardInternal::new(payload, tap, seen)
    }

    /// Concludes an acquisition that ended with the word taken or not.
    fn conclude<'a>(&'a self, tap: Tap<'a>, held: bool, seen: Ghost<Seq<Event>>) -> (r: Result<
        FuterGuardInternal<'a, T, F>,
        (),
    >)
        requires
            held ==> is_acquisition(seen@),
        ensures
            r is Ok <==> held,
            r matches Ok(guard) ==> {
                &&& guard.word() == tapped(tap)
                &&& guard.history() == seen@
                &&& guard.operations() == performed(tap)
            },
    {
        if held {
            Ok(self.guard(tap, seen))
        } else {
            Err(())
        }
    }

    /// Concludes the single attempt of `try_lock`, given whether it took the
    /// word.
    fn grant<'a>(&'a self, tap: Tap<'a>, taken: bool) -> (r: Result<
        FuterGuardInternal<'a, T, F>,
        TryLockError,
    >)
        ensures
            r is Ok <==> taken,
            r matches Ok(guard) ==> {
                &&& guard.word() == tapped(tap)
                &&& guard.history() == seq![Event::Swapped(UNLOCKED)]
                &&& guard.operations() == performed(tap)
            },
            r matches Err(e) ==> e == TryLockError::WouldBlock,
    {
        if taken {
            let seen = Ghost(Seq::empty().push(Event::Swapped(UNLOCKED)));
            proof {
                law_one_exchange_acquires();
                assert(seen@ =~= seq![Event::Swapped(UNLOCKED)]);
            }
            Ok(self.guard(tap, seen))
        } else {
            Err(TryLockError::WouldBlock)
        }
    }

    /// Blocks until the lock is taken. The guard tells how: what the thread
    /// has seen is a run of the acquiring thread's phases that ends with the
    /// word taken, and what it has done to the word are the operations of
    /// that run and no others. An error comes only out of a thread that has
    /// performed `PATIENCE` operations on the word without taking it.
    pub fn lock(&self) -> (r: Result<FuterGuardInternal<'_, T, F>, ()>)
        ensures
            r matches Ok(guard) ==> {
                &&& guard.word() == self.word()
                &&& is_acquisition(guard.history())
                &&& guard.operations() == course(Phase::Enter, guard.history())
            },
    {
        let mut tap = Tap::on(&*self.lock);
        let (held, seen) = acquire::<F>(&mut tap, PATIENCE);
        proof {
            assert(performed(tap) =~= course(Phase::Enter, seen@));
        }
        self.conclude(tap, held, seen)
    }

    /// Takes the lock if one exchange on the word succeeds, and never waits:
    /// the one exchange is all that a guard's thread has done to the word.
    pub fn try_lock(&self) -> (r: Result<FuterGuardInternal<'_, T, F>, TryLockError>)
        ensures
            r matches Ok(guard) ==> {
                &&& guard.word() == self.word()
                &&& guard.history() == seq![Event::Swapped(UNLOCKED)]
                &&& guard.operations() == seq![attempt_op(Ok(UNLOCKED))]
            },
            r matches Err(e) ==> e == TryLockError::WouldBlock,
    {
        let mut tap = Tap::on(&*self.lock);
        let (taken, report) = attempt(&mut tap);
        proof {
            assert(taken ==> performed(tap) =~= seq![attempt_op(Ok(UNLOCKED))]);
        }
        self.grant(tap, taken)
    }

    /// Releases the lock that `guard` stands for.
    pub fn unlock(guard: FuterGuardInternal<'_, T, F>)
    {
        let _ = guard;
    }
}

/// The lock on the kernel's futex.
#[verifier::reject_recursive_types(T)]
pub struct Futer<T>(FuterInternal<T, RealFutexCalls>);

/// Exclusive access to the payload of a `Futer`.
#[verifier::reject_recursive_types(T)]
pub struct FuterGuard<'a, T>(FuterGuardInternal<'a, T, RealFutexCalls>);

impl<T> Futer<T> {
    /// The lock word.
    pub closed spec fn word(&self) -> AtomicU32 {
        self.0.word()
    }

    /// A lock that nobody holds, around `val`.
    #[inline]
    pub fn new(val: T) -> (futer: Self)
        ensures
            made_with(futer.word()) == UNLOCKED,
    {
        Futer(FuterInternal::new(val))
    }

    /// Blocks until the lock is taken. An error comes only out of a thread
    /// that has performed `PATIENCE` operations on the word without taking
    /// it.
    #[inline]
    pub fn lock(&self) -> (r: Result<FuterGuard<'_, T>, ()>)
        ensures
            r matches Ok(guard) ==> {
                &&& guard.word() == self.word()
                &&& is_acquisition(guard.history())
                &&& guard.operations() == course(Phase::Enter, guard.history())
            },
    {
        match self.0.lock() {
            Ok(guard) => Ok(FuterGuard(guard)),
            Err(e) => Err(e),
        }
    }

    /// Takes the lock if one exchange on the word succeeds, and never waits.
    #[inline]
    pub fn try_lock(&self) -> (r: Result<FuterGuard<'_, T>, TryLockError>)
        ensures
            r matches Ok(guard) ==> {
                &&& guard.word() == self.word()
                &&& guard.history() == seq![Event::Swapped(UNLOCKED)]
                &&& guard.operations() == seq![attempt_op(Ok(UNLOCKED))]
            },
            r matches Err(e) ==> e == TryLockError::WouldBlock,
    {
        match self.0.try_lock() {
            Ok(guard) => Ok(FuterGuard(guard)),
            Err(e) => Err(e),
        }
    }

    /// Releases the lock that `guard` stands for.
    #[inline]
    pub fn unlock(guard: FuterGuard<'_, T>)
    {
        FuterInternal::unlock(guard.0)
    }
}

impl<'a, T> FuterGuard<'a, T> {
    /// The lock word that this guard gives back.
    pub closed spec fn word(&self) -> AtomicU32 {
        self.0.word()
    }

    /// What the operations reported that took the word for this guard.
    pub closed spec fn history(&self) -> Seq<Event> {
        self.0.history()
    }

    /// The operations that the thread has made on the word for this guard.
    pub closed spec fn operations(&self) -> Seq<Op> {
        self.0.operations()
    }
}

impl<'a, T> std::ops::Deref for FuterGuard<'a, T> {
    type Target = T;

    /// The payload, to read. Whoever gets here has taken the word.
    #[inline]
    fn deref(&self) -> (value: &T)
        ensures
            is_acquisition(self.history()),
    {
        self.0.deref()
    }
}

impl<'a, T> std::ops::DerefMut for FuterGuard<'a, T> {
    /// The payload, to change. Whoever gets here has taken the word, and the
    /// guard stays the guard it was: nothing is done to the word.
    #[inline]
    fn deref_mut(&mut self) -> (value: &mut T)
        ensures
            is_acquisition(old(self).history()),
            final(self).word() == old(self).word(),
            final(self).history() == old(self).history(),
            final(self).operations() == old(self).operations(),
    {
        self.0.deref_mut()
    }
}

} // verus!
