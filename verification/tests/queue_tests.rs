use pubsub_broker::int_queue_lib;
use pubsub_broker::queue_lib::consumer::Consumer;
use pubsub_broker::queue_lib::producer::Producer;
use pubsub_broker::queue_lib::queue::Queue;

#[test]
fn messages_come_out_in_the_order_they_went_in() {
    let mut q: Queue<i32> = Queue::new();
    let p = Producer::new();
    let c = Consumer::new();
    assert!(q.is_empty());
    assert_eq!(c.pop(&mut q), None);
    p.push(&mut q, 1);
    p.push(&mut q, 2);
    p.push(&mut q, 3);
    assert_eq!(q.len(), 3);
    assert_eq!(c.pop(&mut q), Some(1));
    p.push(&mut q, 4);
    assert_eq!(c.pop(&mut q), Some(2));
    assert_eq!(c.pop(&mut q), Some(3));
    assert_eq!(c.pop(&mut q), Some(4));
    assert_eq!(c.pop(&mut q), None);
}

#[test]
fn the_queue_holds_any_message_type() {
    let mut q: Queue<String> = Queue::new();
    q.push_back("a".to_string());
    assert_eq!(q.pop_front(), Some("a".to_string()));
    assert_eq!(q.pop_front(), None);
}

#[test]
fn integer_queue_numbers_every_operation() {
    let mut q = int_queue_lib::queue::Queue::new();
    assert_eq!(q.inc_max_worker_id(), 1);
    q.push(5);
    assert_eq!(q.pop(), Some(5));
    assert_eq!(q.pop(), None);
    assert_eq!(q.inc_max_worker_id(), 5);
    let p = int_queue_lib::producer::Producer::new();
    let c = int_queue_lib::consumer::Consumer::new();
    p.push(&mut q, 8);
    p.push(&mut q, 9);
    assert_eq!(c.pop(&mut q), Some(8));
    assert_eq!(q.take_front(), Some(9));
    assert_eq!(q.take_front(), None);
    assert_eq!(q.inc_max_worker_id(), 9);
}

#[test]
fn integer_queue_operations_get_numbers_one_to_n() {
    let mut q = int_queue_lib::queue::Queue::new();
    let ops = [true, false, true, true, false, false, false, true];
    for is_push in ops {
        if is_push {
            q.push(1);
        } else {
            q.pop();
        }
    }
    assert_eq!(q.inc_max_worker_id(), ops.len() + 1);
}
