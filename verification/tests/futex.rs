use futer::futex::{
    c_timespec, futex, futex_wait, futex_wake, status_of_wait, status_of_wake, Futex,
    FutexTimeout, RealFutexCalls, FAILED, FUTEX_WAIT, FUTEX_WAKE,
};
use std::sync::atomic::{AtomicU32, Ordering};
use std::time::{Duration, Instant};

#[test]
fn futext_basic_functionality() {
    let shared_int = AtomicU32::new(0);
    let res = futex(&shared_int, FUTEX_WAIT, 1, None);
    assert_eq!(res, -1);

    let res = futex(&shared_int, FUTEX_WAKE, 1, None);
    assert_eq!(res, 0);
}

#[test]
fn futex_operations() {
    assert_eq!(FUTEX_WAIT, 0);
    assert_eq!(FUTEX_WAKE, 1);
    assert_eq!(FAILED, -1);
}

#[test]
fn unknown_operation_fails() {
    let shared_int = AtomicU32::new(0);
    assert_eq!(futex(&shared_int, 2, 0, None), -1);
    assert_eq!(futex(&shared_int, 77, 0, Some(FutexTimeout(0, 1))), -1);
    assert_eq!(shared_int.load(Ordering::SeqCst), 0);
}

#[test]
fn wait_on_another_value_returns_at_once() {
    let shared_int = AtomicU32::new(5);
    let start = Instant::now();
    assert_eq!(futex_wait(&shared_int, 4, None), -1);
    assert!(start.elapsed() < Duration::from_secs(5));
    assert_eq!(shared_int.load(Ordering::SeqCst), 5);
}

#[test]
fn wait_ends_with_its_timeout() {
    let shared_int = AtomicU32::new(1);
    let start = Instant::now();
    let res = futex_wait(&shared_int, 1, Some(FutexTimeout(0, 50_000_000)));
    let took = start.elapsed();
    assert_eq!(res, -1);
    assert!(took >= Duration::from_millis(40));
    assert!(took < Duration::from_secs(10));
}

#[test]
fn wait_counts_the_seconds_of_its_timeout() {
    let shared_int = AtomicU32::new(1);
    let start = Instant::now();
    let res = futex_wait(&shared_int, 1, Some(FutexTimeout(1, 0)));
    let took = start.elapsed();
    assert_eq!(res, -1);
    assert!(took >= Duration::from_millis(900));
    assert!(took < Duration::from_secs(15));
}

#[test]
fn wake_without_sleepers_wakes_none() {
    let shared_int = AtomicU32::new(2);
    assert_eq!(futex_wake(&shared_int, u32::MAX, None), 0);
    assert_eq!(futex_wake(&shared_int, 1, Some(FutexTimeout(3, 4))), 0);
    assert_eq!(shared_int.load(Ordering::SeqCst), 2);
}

#[test]
fn real_calls_are_the_kernel() {
    let shared_int = AtomicU32::new(0);
    assert_eq!(RealFutexCalls::futex_wait(&shared_int, 1, None), -1);
    assert_eq!(RealFutexCalls::futex_wake(&shared_int, 1, None), 0);
}

#[test]
fn timeout_keeps_seconds_and_nanoseconds() {
    let spec = c_timespec::from(FutexTimeout(3, 500_000_000));
    assert_eq!(spec.tv_sec, 3);
    assert_eq!(spec.tv_nsec, 500_000_000);

    let spec = c_timespec::of(FutexTimeout(u32::MAX, u32::MAX));
    assert_eq!(spec.tv_sec, 4_294_967_295);
    assert_eq!(spec.tv_nsec, 4_294_967_295);

    let spec = c_timespec::of(FutexTimeout(0, 0));
    assert_eq!(spec.tv_sec, 0);
    assert_eq!(spec.tv_nsec, 0);
}

#[test]
fn statuses() {
    assert_eq!(status_of_wait(true), 0);
    assert_eq!(status_of_wait(false), -1);
    assert_eq!(status_of_wake(Some(0)), 0);
    assert_eq!(status_of_wake(Some(3)), 3);
    assert_eq!(status_of_wake(Some(usize::MAX)), i64::MAX);
    assert_eq!(status_of_wake(None), -1);
}
