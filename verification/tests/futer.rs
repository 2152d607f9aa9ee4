use futer::futer::{
    acquire, attempt, release, settle, Futer, FuterInternal, TryLockError, PATIENCE,
};
use futer::futex::{futex_wait, futex_wake, Futex, FutexTimeout};
use futer::word::Tap;
use std::sync::atomic::{AtomicU32, Ordering};

static FUTEX_WAKE_CALL_COUNTER: AtomicU32 = AtomicU32::new(0);
static FUTEX_WAIT_CALL_COUNTER: AtomicU32 = AtomicU32::new(0);

struct MockFutexCalls;

impl Futex for MockFutexCalls {
    fn futex_wake(lock: &AtomicU32, val: u32, timeout: Option<FutexTimeout>) -> i64 {
        FUTEX_WAKE_CALL_COUNTER.fetch_add(1, Ordering::SeqCst);
        futex_wake(lock, val, timeout)
    }
    fn futex_wait(lock: &AtomicU32, val: u32, timeout: Option<FutexTimeout>) -> i64 {
        FUTEX_WAIT_CALL_COUNTER.fetch_add(1, Ordering::SeqCst);
        futex_wait(lock, val, timeout)
    }
}

#[test]
fn futer_can_be_correctly_constructed() {
    let _futer = Futer::new(32);
}

#[test]
fn futer_is_generic() {
    let _futer_int: Futer<u32> = Futer::new(32);
    let _futer_string: Futer<String> = Futer::new(String::from("hello"));
}

#[test]
fn futer_lock_api() {
    let futer = Futer::new(32);
    assert_eq!(*futer.lock().unwrap(), 32);

    *futer.lock().unwrap() = 42;
    assert_eq!(*futer.lock().unwrap(), 42);

    let futer = Futer::new(String::from("asdf"));
    assert_eq!(futer.lock().unwrap().as_str(), "asdf");
}

#[test]
fn futer_unlock_api() {
    let futer = Futer::new(32);
    let lock = futer.lock().unwrap();

    Futer::unlock(lock);
}

#[test]
fn basic_allocate_on_heap() {
    fn dummy_stack() -> (Futer<u32>, String) {
        let f = Futer::new(32);
        let f_ptr = {
            let x = format!("{:p}", &*f.lock().unwrap());
            x
        };
        (f, f_ptr)
    }

    let (futer, ptr) = dummy_stack();

    assert_eq!(format!("{:p}", &*futer.lock().unwrap()), ptr);
}

#[test]
fn try_lock_api() {
    let futer = Futer::new(32);
    let mut lock = futer.try_lock().unwrap();

    assert_eq!(*lock, 32);

    *lock = 42;
    assert_eq!(*lock, 42);

    Futer::unlock(lock);
}

#[test]
fn try_lock_would_block() {
    let futer = Futer::new(32);
    let futer2 = &futer;
    let _lock = futer.lock();

    {
        let lock2 = futer2.try_lock();
        if let Err(err) = lock2 {
            assert_eq!(TryLockError::WouldBlock, err);
        } else {
            panic!("try_lock did not return error");
        }
    }
}

#[test]
fn only_syscalls_when_contested() {
    let futer_internal = FuterInternal::<u32, MockFutexCalls>::new(0);

    let lock = futer_internal.lock().unwrap();
    FuterInternal::unlock(lock);

    assert_eq!(FUTEX_WAIT_CALL_COUNTER.load(Ordering::SeqCst), 0);
    assert_eq!(FUTEX_WAKE_CALL_COUNTER.load(Ordering::SeqCst), 0);
}

#[test]
fn patience_is_the_largest_count() {
    assert_eq!(PATIENCE, u64::MAX);
}

#[test]
fn value_round_trip() {
    let futer = Futer::new(String::from("first"));
    assert_eq!(*futer.lock().unwrap(), "first");

    let mut guard = futer.lock().unwrap();
    *guard = String::from("second");
    Futer::unlock(guard);

    assert_eq!(*futer.lock().unwrap(), "second");
    assert_eq!(*futer.try_lock().unwrap(), "second");
}

#[test]
fn dropping_the_guard_releases() {
    let futer = Futer::new(1u8);
    {
        let _guard = futer.lock().unwrap();
        assert_eq!(futer.try_lock().err(), Some(TryLockError::WouldBlock));
    }
    assert!(futer.try_lock().is_ok());
    assert!(futer.lock().is_ok());
}

#[test]
fn try_lock_fails_while_held_and_succeeds_after() {
    let futer = Futer::new(7u64);
    let guard = futer.try_lock().unwrap();
    for _ in 0..100 {
        assert_eq!(futer.try_lock().err(), Some(TryLockError::WouldBlock));
    }
    Futer::unlock(guard);
    let mut guard = futer.try_lock().unwrap();
    *guard += 1;
    drop(guard);
    assert_eq!(*futer.lock().unwrap(), 8);
}

// Five workers take turns, each adding one a thousand times under the lock.
#[test]
fn five_workers_add_up() {
    const NUM_WORKERS: usize = 5;
    const NUM_ITER: usize = 1000;

    let futer = Futer::new(0usize);
    let mut rounds = [0usize; NUM_WORKERS];
    for _ in 0..NUM_ITER {
        for worker in 0..NUM_WORKERS {
            let mut lock = futer.lock().unwrap();
            *lock = *lock + 1;
            Futer::unlock(lock);
            rounds[worker] += 1;
        }
    }
    assert_eq!(rounds, [NUM_ITER; NUM_WORKERS]);
    assert_eq!(*futer.lock().unwrap(), NUM_WORKERS * NUM_ITER);
    assert_eq!(*futer.lock().unwrap(), 5000);
}

static QUIET_WAITS: AtomicU32 = AtomicU32::new(0);
static QUIET_WAKES: AtomicU32 = AtomicU32::new(0);

// Counts the calls and leaves the word alone.
struct QuietFutex;

impl Futex for QuietFutex {
    fn futex_wake(_lock: &AtomicU32, _val: u32, _timeout: Option<FutexTimeout>) -> i64 {
        QUIET_WAKES.fetch_add(1, Ordering::SeqCst);
        0
    }
    fn futex_wait(_lock: &AtomicU32, _val: u32, _timeout: Option<FutexTimeout>) -> i64 {
        QUIET_WAITS.fetch_add(1, Ordering::SeqCst);
        0
    }
}

#[test]
fn uncontended_acquire_is_one_exchange() {
    let word = AtomicU32::new(0);
    let (held, _) = acquire::<QuietFutex>(&mut Tap::on(&word), 1);
    assert!(held);
    assert_eq!(word.load(Ordering::SeqCst), 1);
    assert!(!release::<QuietFutex>(&mut Tap::on(&word)).0);
    assert_eq!(word.load(Ordering::SeqCst), 0);
    assert_eq!(QUIET_WAITS.load(Ordering::SeqCst), 0);
    assert_eq!(QUIET_WAKES.load(Ordering::SeqCst), 0);
}

#[test]
fn acquire_without_patience_does_nothing() {
    let word = AtomicU32::new(0);
    let (held, _) = acquire::<QuietFutex>(&mut Tap::on(&word), 0);
    assert!(!held);
    assert_eq!(word.load(Ordering::SeqCst), 0);
}

static STUCK_WAITS: AtomicU32 = AtomicU32::new(0);

// The owner never leaves: every wait returns for no reason.
struct StuckFutex;

impl Futex for StuckFutex {
    fn futex_wake(_lock: &AtomicU32, _val: u32, _timeout: Option<FutexTimeout>) -> i64 {
        0
    }
    fn futex_wait(lock: &AtomicU32, val: u32, timeout: Option<FutexTimeout>) -> i64 {
        assert_eq!(lock.load(Ordering::SeqCst), 2);
        assert_eq!(val, 2);
        assert!(timeout.is_none());
        STUCK_WAITS.fetch_add(1, Ordering::SeqCst);
        0
    }
}

#[test]
fn acquire_gives_up_when_patience_runs_out() {
    // Held by somebody else for good. The operations are: the exchange that
    // fails, the mark, the claim that fails, and then wait and claim in turn.
    let word = AtomicU32::new(1);
    let (held, _) = acquire::<StuckFutex>(&mut Tap::on(&word), 9);
    assert!(!held);
    assert_eq!(word.load(Ordering::SeqCst), 2);
    assert_eq!(STUCK_WAITS.load(Ordering::SeqCst), 3);
}

static LEAVING_WAITS: AtomicU32 = AtomicU32::new(0);
static LEAVING_WAKES: AtomicU32 = AtomicU32::new(0);

// The owner leaves while the acquiring thread sleeps.
struct LeavingFutex;

impl Futex for LeavingFutex {
    fn futex_wake(lock: &AtomicU32, val: u32, timeout: Option<FutexTimeout>) -> i64 {
        assert_eq!(lock.load(Ordering::SeqCst), 0);
        assert_eq!(val, u32::MAX);
        assert!(timeout.is_none());
        LEAVING_WAKES.fetch_add(1, Ordering::SeqCst);
        0
    }
    fn futex_wait(lock: &AtomicU32, val: u32, timeout: Option<FutexTimeout>) -> i64 {
        assert_eq!(lock.load(Ordering::SeqCst), 2);
        assert_eq!(val, 2);
        assert!(timeout.is_none());
        LEAVING_WAITS.fetch_add(1, Ordering::SeqCst);
        lock.store(0, Ordering::SeqCst);
        0
    }
}

#[test]
fn contended_acquire_keeps_the_word_contested_and_its_release_wakes() {
    let word = AtomicU32::new(1);
    let (held, _) = acquire::<LeavingFutex>(&mut Tap::on(&word), PATIENCE);
    assert!(held);
    assert_eq!(word.load(Ordering::SeqCst), 2);
    assert_eq!(LEAVING_WAITS.load(Ordering::SeqCst), 1);
    assert_eq!(LEAVING_WAKES.load(Ordering::SeqCst), 0);

    assert!(release::<LeavingFutex>(&mut Tap::on(&word)).0);
    assert_eq!(word.load(Ordering::SeqCst), 0);
    assert_eq!(LEAVING_WAKES.load(Ordering::SeqCst), 1);
}

static MARKED_WAITS: AtomicU32 = AtomicU32::new(0);

// Another waiter has marked the word already; the owner leaves during the
// wait.
struct MarkedFutex;

impl Futex for MarkedFutex {
    fn futex_wake(_lock: &AtomicU32, _val: u32, _timeout: Option<FutexTimeout>) -> i64 {
        0
    }
    fn futex_wait(lock: &AtomicU32, _val: u32, _timeout: Option<FutexTimeout>) -> i64 {
        MARKED_WAITS.fetch_add(1, Ordering::SeqCst);
        lock.store(0, Ordering::SeqCst);
        0
    }
}

#[test]
fn acquire_on_a_contested_word_waits_first() {
    // The exchange that fails, the wait, the claim.
    let word = AtomicU32::new(2);
    let (held, _) = acquire::<MarkedFutex>(&mut Tap::on(&word), 3);
    assert!(held);
    assert_eq!(word.load(Ordering::SeqCst), 2);
    assert_eq!(MARKED_WAITS.load(Ordering::SeqCst), 1);
}

static SETTLE_WAKES: AtomicU32 = AtomicU32::new(0);

struct SettleFutex;

impl Futex for SettleFutex {
    fn futex_wake(_lock: &AtomicU32, _val: u32, _timeout: Option<FutexTimeout>) -> i64 {
        SETTLE_WAKES.fetch_add(1, Ordering::SeqCst);
        0
    }
    fn futex_wait(_lock: &AtomicU32, _val: u32, _timeout: Option<FutexTimeout>) -> i64 {
        0
    }
}

#[test]
fn settle_wakes_only_after_contention() {
    let word = AtomicU32::new(0);
    assert!(!settle::<SettleFutex>(&mut Tap::on(&word), 1));
    assert_eq!(word.load(Ordering::SeqCst), 0);
    assert_eq!(SETTLE_WAKES.load(Ordering::SeqCst), 0);

    let word = AtomicU32::new(1);
    assert!(settle::<SettleFutex>(&mut Tap::on(&word), 2));
    assert_eq!(word.load(Ordering::SeqCst), 0);
    assert_eq!(SETTLE_WAKES.load(Ordering::SeqCst), 1);
}

static GUARD_WAITS: AtomicU32 = AtomicU32::new(0);
static GUARD_WAKES: AtomicU32 = AtomicU32::new(0);

struct GuardFutex;

impl Futex for GuardFutex {
    fn futex_wake(_lock: &AtomicU32, _val: u32, _timeout: Option<FutexTimeout>) -> i64 {
        GUARD_WAKES.fetch_add(1, Ordering::SeqCst);
        0
    }
    fn futex_wait(_lock: &AtomicU32, _val: u32, _timeout: Option<FutexTimeout>) -> i64 {
        GUARD_WAITS.fetch_add(1, Ordering::SeqCst);
        0
    }
}

#[test]
fn no_calls_on_the_uncontended_path() {
    let futer = FuterInternal::<Vec<u8>, GuardFutex>::new(vec![1, 2]);
    for round in 0..10u8 {
        let mut guard = futer.lock().unwrap();
        guard.push(round);
        FuterInternal::unlock(guard);

        let guard = futer.try_lock().unwrap();
        assert_eq!(guard.len(), 3 + round as usize);
        drop(guard);
    }
    assert_eq!(GUARD_WAITS.load(Ordering::SeqCst), 0);
    assert_eq!(GUARD_WAKES.load(Ordering::SeqCst), 0);
}

fn crosses_threads<T: Send + Sync>(_value: &T) {}

#[test]
fn a_lock_can_be_shared_between_threads() {
    let futer = std::sync::Arc::new(Futer::new(32));
    crosses_threads(&futer);
    crosses_threads(&*futer);
    let v = futer.lock().unwrap();
    assert_eq!(*v, 32);
}

#[test]
fn moving_the_lock_keeps_it_locked() {
    let futer = Futer::new(5u32);
    let boxed = Box::new(futer);
    let guard = boxed.lock().unwrap();
    assert_eq!(boxed.try_lock().err(), Some(TryLockError::WouldBlock));
    drop(guard);
    let moved = *boxed;
    assert_eq!(*moved.try_lock().unwrap(), 5);
}

#[test]
fn an_attempt_takes_a_free_word() {
    let word = AtomicU32::new(0);
    // The exchange may fail for no reason, but not for ever.
    let mut taken = false;
    for _ in 0..1000 {
        if attempt(&mut Tap::on(&word)).0 {
            taken = true;
            break;
        }
    }
    assert!(taken);
    assert_eq!(word.load(Ordering::SeqCst), 1);
}

#[test]
fn an_attempt_leaves_a_taken_word_alone() {
    let word = AtomicU32::new(1);
    assert!(!attempt(&mut Tap::on(&word)).0);
    assert_eq!(word.load(Ordering::SeqCst), 1);

    let word = AtomicU32::new(2);
    assert!(!attempt(&mut Tap::on(&word)).0);
    assert_eq!(word.load(Ordering::SeqCst), 2);
}

#[test]
fn one_tap_serves_a_whole_turn() {
    let word = AtomicU32::new(0);
    let mut tap = Tap::on(&word);
    let (held, _) = acquire::<QuietFutex>(&mut tap, PATIENCE);
    assert!(held);
    assert_eq!(word.load(Ordering::SeqCst), 1);
    assert!(!attempt(&mut Tap::on(&word)).0);
    assert!(!release::<QuietFutex>(&mut tap).0);
    assert_eq!(word.load(Ordering::SeqCst), 0);
}
