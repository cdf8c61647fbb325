use urcu::queue::raw::{RawNode, RawQueue};
use urcu::queue::RcuQueue;

fn pop_value(queue: &mut RcuQueue<u32>) -> Option<u32> {
    queue.pop().map(|r| *r.get())
}

#[test]
fn simple() {
    let mut queue = RcuQueue::<u32>::new();

    assert_eq!(pop_value(&mut queue), None);
    assert_eq!(pop_value(&mut queue), None);

    queue.push(10);

    assert_eq!(pop_value(&mut queue), Some(10));
    assert_eq!(pop_value(&mut queue), None);
    assert_eq!(pop_value(&mut queue), None);

    queue.push(20);
    queue.push(30);

    assert_eq!(pop_value(&mut queue), Some(20));

    queue.push(40);
    queue.push(50);

    assert_eq!(pop_value(&mut queue), Some(30));
    assert_eq!(pop_value(&mut queue), Some(40));
    assert_eq!(pop_value(&mut queue), Some(50));
    assert_eq!(pop_value(&mut queue), None);
    assert_eq!(pop_value(&mut queue), None);
}

#[test]
fn test_simple() {
    let mut queue = RcuQueue::<u32>::new();

    assert_eq!(queue.pop().map(|r| r.take_ownership().into_inner()), None);
    assert_eq!(queue.pop().map(|r| r.take_ownership().into_inner()), None);

    queue.push(10);

    assert_eq!(queue.pop().map(|r| r.take_ownership().into_inner()), Some(10));
    assert_eq!(queue.pop().map(|r| r.take_ownership().into_inner()), None);
    assert_eq!(queue.pop().map(|r| r.take_ownership().into_inner()), None);

    queue.push(20);
    queue.push(30);

    assert_eq!(queue.pop().map(|r| r.take_ownership().into_inner()), Some(20));

    queue.push(40);
    queue.push(50);

    assert_eq!(queue.pop().map(|r| r.take_ownership().into_inner()), Some(30));
    assert_eq!(queue.pop().map(|r| r.take_ownership().into_inner()), Some(40));
    assert_eq!(queue.pop().map(|r| r.take_ownership().into_inner()), Some(50));
    assert_eq!(queue.pop().map(|r| r.take_ownership().into_inner()), None);
    assert_eq!(queue.pop().map(|r| r.take_ownership().into_inner()), None);
}

#[test]
fn queue_raw_dequeue_all_keeps_order() {
    let mut raw = RawQueue::<u32>::new();
    raw.enqueue(RawNode::new(5));
    raw.enqueue(RawNode::new(6));
    raw.enqueue(RawNode::new(7));
    let all: Vec<u32> = raw.dequeue_all().into_iter().map(|n| n.into_data()).collect();
    assert_eq!(all, vec![5, 6, 7]);
    assert!(raw.dequeue().is_none());
}
