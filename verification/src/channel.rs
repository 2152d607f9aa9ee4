//! A queue from any number of senders to one receiver.
//!
//! The two ends share the queue through a counted pointer. The receiver
//! sleeps while the queue is empty, and learns from the count that no sender
//! is left.

use vstd::prelude::*;
use std::collections::VecDeque;
use std::sync::{Arc, Condvar, Mutex, MutexGuard, PoisonError};
use crate::sync::{condvar, enter, holders, mutex, notify, reach, share, sleep};

verus! {

/// What `recv` says when a thread panicked while it had the queue.
pub const LOCK_ERROR: &'static str = "lock error";

/// What `recv` says when the queue is empty and no sender is left.
pub const NO_MORE_VALUES: &'static str = "no more values";

/// What `recv` says when its sleep failed or its patience ran out.
pub const WAIT_ERROR: &'static str = "wait error";

/// The most times one `recv` sleeps before it gives up.
pub const PATIENCE: u64 = 0xffff_ffff_ffff_ffff;

/// Why a receiver that finds the queue empty stops, if it does: alone among
/// `holders` pointers to the queue it has no sender left, and with no
/// patience `left` it sleeps no more. Otherwise it sleeps.
pub open spec fn stop_on_empty(holders: usize, left: u64) -> Option<&'static str> {
    if holders == 1 {
        Some(NO_MORE_VALUES)
    } else if left == 0 {
        Some(WAIT_ERROR)
    } else {
        None
    }
}

/// Why a receiver that finds the queue empty stops, if it does.
pub fn on_empty(holders: usize, left: u64) -> (stop: Option<&'static str>)
    ensures
        stop == stop_on_empty(holders, left),
{
    // One holder is the receiver itself: no sender is left, and no more
    // values will come.
    if holders == 1 {
        Some(NO_MORE_VALUES)
    } else if left == 0 {
        Some(WAIT_ERROR)
    } else {
        None
    }
}

/// What the two ends share.
#[verifier::reject_recursive_types(T)]
pub struct Inner<T> {
    shared: Mutex<VecDeque<T>>,
    cvar: Condvar,
}

impl<T> Inner<T> {
    /// An empty queue.
    pub fn new() -> (inner: Self)
    {
        let shared = mutex(VecDeque::new());
        let cvar = condvar();
        Self { shared, cvar }
    }
}

/// Takes the first element out of the queue, if it has one, and leaves the
/// others in their order.
pub fn take_first<T>(que: &mut VecDeque<T>) -> (elem: Option<T>)
    ensures
        old(que)@.len() > 0 ==> elem == Some(old(que)@[0]) && final(que)@ == old(que)@.skip(1),
        old(que)@.len() == 0 ==> elem is None && final(que)@ == old(que)@,
{
    let elem = que.pop_front();
    proof {
        if old(que)@.len() > 0 {
            assert(final(que)@ =~= old(que)@.skip(1));
        }
    }
    elem
}

/// Puts `t` at the back of the queue, behind all that is in it.
pub fn append<T>(que: &mut VecDeque<T>, t: T)
    ensures
        final(que)@ == old(que)@.push(t),
{
    que.push_back(t);
}

/// Whether a sender that leaves must wake the receiver: when it counts two
/// pointers to the queue, its own and one other. If the other is a sender
/// too, nobody sleeps and the notification is lost on purpose; if it is the
/// receiver, no sender is left after this one, and the receiver must wake to
/// see that.
pub open spec fn last_may_leave(holders: usize) -> bool {
    holders == 2
}

/// Whether a sender that leaves must wake the receiver.
pub fn must_notify(holders: usize) -> (b: bool)
    ensures
        b == last_may_leave(holders),
    opens_invariants none
    no_unwind
{
    holders == 2
}

/// The sending end.
#[verifier::reject_recursive_types(T)]
pub struct Sender<T> {
    inner: Arc<Inner<T>>,
}

impl<T> Sender<T> {
    /// What this end shares with the other.
    pub closed spec fn peer(&self) -> Inner<T> {
        *self.inner
    }

    fn new(inner: Arc<Inner<T>>) -> (sender: Self)
        ensures
            sender.peer() == *inner,
    {
        Self { inner }
    }

    /// Concludes a `send`, given what asking for the queue gave: appends `t`
    /// if the queue was had, and fails if a thread panicked while it had it.
    fn deliver<'a>(
        entered: Result<MutexGuard<'a, VecDeque<T>>, PoisonError<MutexGuard<'a, VecDeque<T>>>>,
        t: T,
    ) -> (r: Result<(), ()>)
        ensures
            r is Ok <==> entered is Ok,
    {
        match entered {
            Ok(mut guard) => {
                append(reach(&mut guard), t);
                Ok(())
            },
            Err(_) => Err(()),
        }
    }

    /// Appends `t` to the queue and wakes the receiver. Fails only if a
    /// thread panicked while it had the queue.
    pub fn send(&self, t: T) -> (r: Result<(), ()>)
    {
        match Self::deliver(enter(&self.inner.shared), t) {
            Ok(()) => {
                notify(&self.inner.cvar);
                Ok(())
            },
            Err(()) => Err(()),
        }
    }
}

impl<T> Clone for Sender<T> {
    fn clone(&self) -> (sender: Self)
        ensures
            sender.peer() == self.peer(),
    {
        let inner = share(&self.inner);
        Sender::new(inner)
    }
}

impl<T> Drop for Sender<T> {
    fn drop(&mut self)
        opens_invariants none
        no_unwind
    {
        if must_notify(holders(&self.inner)) {
            notify(&self.inner.cvar);
        }
    }
}

/// The receiving end.
#[verifier::reject_recursive_types(T)]
pub struct Receiver<T> {
    inner: Arc<Inner<T>>,
}

impl<T> Receiver<T> {
    /// What this end shares with the other.
    pub closed spec fn peer(&self) -> Inner<T> {
        *self.inner
    }

    fn new(inner: Arc<Inner<T>>) -> (receiver: Self)
        ensures
            receiver.peer() == *inner,
    {
        Self { inner }
    }

    /// Takes the first element of the queue, sleeping while the queue is
    /// empty and a sender is left.
    pub fn recv(&self) -> (r: Result<T, &'static str>)
        ensures
            r matches Err(why) ==> why == LOCK_ERROR || why == NO_MORE_VALUES || why == WAIT_ERROR,
    {
        let mut guard = match enter(&self.inner.shared) {
            Ok(guard) => guard,
            Err(_) => {
                return Err(LOCK_ERROR);
            },
        };
        let mut left: u64 = PATIENCE;
        loop
            decreases left,
        {
            match take_first(reach(&mut guard)) {
                Some(elem) => {
                    return Ok(elem);
                },
                None => {},
            }
            match on_empty(holders(&self.inner), left) {
                Some(why) => {
                    return Err(why);
                },
                None => {},
            }
            left = left - 1;
            guard = match sleep(&self.inner.cvar, guard) {
                Ok(guard) => guard,
                Err(_) => {
                    return Err(WAIT_ERROR);
                },
            };
        }
    }
}

/// A queue with its two ends.
pub fn channel<T>() -> (ends: (Sender<T>, Receiver<T>))
    ensures
        ends.0.peer() == ends.1.peer(),
{
    let inner = Arc::new(Inner::new());
    (Sender::new(share(&inner)), Receiver::new(share(&inner)))
}

} // verus!
