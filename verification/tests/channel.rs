use futer::channel::{
    append, channel, must_notify, on_empty, take_first, Receiver, Sender, LOCK_ERROR,
    NO_MORE_VALUES, WAIT_ERROR,
};
use std::collections::VecDeque;

struct DummyPayload {}

impl DummyPayload {
    fn new() -> Self {
        Self {}
    }
}

#[derive(Clone, Copy, Debug, PartialEq, Eq)]
struct DummyPayloadWithValue {
    internal: u32,
}

impl DummyPayloadWithValue {
    fn new(internal: u32) -> Self {
        Self { internal }
    }
}

#[test]
fn test_sender_basic_api() {
    let payload1 = DummyPayload::new();
    let payload2 = DummyPayload::new();
    let (sender, _) = channel();
    sender.send(payload1).unwrap();
    sender.send(payload2).unwrap();
}

#[test]
fn test_receiver_basic_api() {
    let (sender, receiver): (_, Receiver<DummyPayload>) = channel();
    sender.send(DummyPayload::new()).unwrap();
    let _: DummyPayload = receiver.recv().unwrap();
}

#[test]
fn test_recv_returns_sent_value() {
    let payload = DummyPayloadWithValue::new(4123);
    let (sender, receiver) = channel();

    sender.send(payload).unwrap();
    let received = receiver.recv().unwrap();

    assert_eq!(received, payload);
}

#[test]
fn test_cloning_works() {
    let target_payload = DummyPayloadWithValue::new(32);
    let (sender, receiver) = channel();
    let sender2 = sender.clone();

    sender2.send(DummyPayloadWithValue::new(32)).unwrap();
    assert_eq!(receiver.recv().unwrap(), target_payload);
}

#[test]
fn test_no_hang_on_dropped_sender() {
    let (sender, receiver): (Sender<DummyPayload>, Receiver<DummyPayload>) = channel();
    let s2 = sender.clone();
    drop(sender);

    s2.send(DummyPayload::new()).unwrap();
    assert!(receiver.recv().is_ok());

    drop(s2);
    assert!(receiver.recv().is_err());
}

#[test]
fn values_arrive_in_the_order_sent() {
    let (sender, receiver) = channel();
    let sender2 = sender.clone();
    sender.send(1u32).unwrap();
    sender2.send(2u32).unwrap();
    sender.send(3u32).unwrap();

    assert_eq!(receiver.recv(), Ok(1));
    assert_eq!(receiver.recv(), Ok(2));
    assert_eq!(receiver.recv(), Ok(3));
}

#[test]
fn no_sender_left_is_an_error() {
    let (sender, receiver): (Sender<u32>, Receiver<u32>) = channel();
    drop(sender);
    assert_eq!(receiver.recv(), Err("no more values"));
    assert_eq!(receiver.recv(), Err("no more values"));
}

#[test]
fn what_was_sent_outlives_its_sender() {
    let (sender, receiver) = channel();
    sender.send(String::from("kept")).unwrap();
    drop(sender);
    assert_eq!(receiver.recv(), Ok(String::from("kept")));
    assert_eq!(receiver.recv(), Err("no more values"));
}

#[test]
fn send_without_receiver_succeeds() {
    let (sender, receiver) = channel();
    drop(receiver);
    assert_eq!(sender.send(5u8), Ok(()));
}

#[test]
fn take_first_takes_the_front() {
    let mut que: VecDeque<u32> = VecDeque::new();
    que.push_back(1);
    que.push_back(2);
    que.push_back(3);
    assert_eq!(take_first(&mut que), Some(1));
    assert_eq!(que, VecDeque::from(vec![2, 3]));
    assert_eq!(take_first(&mut que), Some(2));
    assert_eq!(take_first(&mut que), Some(3));
    assert!(que.is_empty());
    assert_eq!(take_first(&mut que), None);
    assert!(que.is_empty());
}

#[test]
fn append_puts_at_the_back() {
    let mut que: VecDeque<&str> = VecDeque::new();
    append(&mut que, "a");
    assert_eq!(que, VecDeque::from(vec!["a"]));
    append(&mut que, "b");
    append(&mut que, "a");
    assert_eq!(que, VecDeque::from(vec!["a", "b", "a"]));
}

#[test]
fn a_leaving_sender_notifies_beside_one_other_holder() {
    assert!(must_notify(2));
    assert!(!must_notify(0));
    assert!(!must_notify(1));
    assert!(!must_notify(3));
    assert!(!must_notify(usize::MAX));
}

#[test]
fn what_recv_says() {
    assert_eq!(LOCK_ERROR, "lock error");
    assert_eq!(NO_MORE_VALUES, "no more values");
    assert_eq!(WAIT_ERROR, "wait error");
}

#[test]
fn an_empty_queue_ends_the_wait_only_without_senders_or_patience() {
    assert_eq!(on_empty(1, 10), Some("no more values"));
    assert_eq!(on_empty(1, 0), Some("no more values"));
    assert_eq!(on_empty(2, 0), Some("wait error"));
    assert_eq!(on_empty(3, 0), Some("wait error"));
    assert_eq!(on_empty(2, 1), None);
    assert_eq!(on_empty(7, u64::MAX), None);
    assert_eq!(on_empty(0, 5), None);
}

#[test]
fn send_succeeds_as_often_as_it_is_called() {
    let (sender, receiver) = channel();
    for i in 0..100u32 {
        assert_eq!(sender.send(i), Ok(()));
    }
    for i in 0..100u32 {
        assert_eq!(receiver.recv(), Ok(i));
    }
}
