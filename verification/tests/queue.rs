use oswatch::queue::EventQueue;
use oswatch::queue::QueueItem;
use oswatch::queue::QUEUE_CAPACITY;
use oswatch::watcher::Document;

fn item(rule_index: usize, n: i64) -> QueueItem {
    QueueItem {
        rule_index,
        doc: Document {
            timestamp: n,
            payload: format!("{{\"n\":{}}}", n),
        },
    }
}

#[test]
fn fifo_order() {
    let mut q = EventQueue::new(QUEUE_CAPACITY);
    assert_eq!(QUEUE_CAPACITY, 1024);
    q.try_enqueue(item(0, 3)).unwrap();
    q.try_enqueue(item(0, 2)).unwrap();
    q.try_enqueue(item(1, 1)).unwrap();
    assert_eq!(q.len(), 3);
    assert_eq!(q.dequeue().unwrap().doc.timestamp, 3);
    assert_eq!(q.dequeue().unwrap().doc.timestamp, 2);
    let last = q.dequeue().unwrap();
    assert_eq!(last.rule_index, 1);
    assert_eq!(last.doc.timestamp, 1);
    assert!(q.dequeue().is_none());
}

#[test]
fn backpressure_full_queue_refuses_until_drained() {
    // A queue at capacity refuses the producer's next item; after the
    // consumer drains one entry, the same item is accepted.
    let mut q = EventQueue::new(2);
    q.try_enqueue(item(0, 1)).unwrap();
    q.try_enqueue(item(0, 2)).unwrap();
    assert_eq!(q.len(), q.capacity());
    let refused = q.try_enqueue(item(0, 3));
    let held = match refused {
        Err(it) => it,
        Ok(()) => panic!("a full queue must refuse"),
    };
    assert_eq!(held.doc.timestamp, 3);
    assert_eq!(q.len(), 2);
    // The consumer drains one entry; the producer's retry now succeeds.
    assert_eq!(q.dequeue().unwrap().doc.timestamp, 1);
    q.try_enqueue(held).unwrap();
    assert_eq!(q.len(), 2);
    assert_eq!(q.dequeue().unwrap().doc.timestamp, 2);
    assert_eq!(q.dequeue().unwrap().doc.timestamp, 3);
}

#[test]
fn dequeue_empty_is_none() {
    let mut q = EventQueue::new(4);
    assert!(q.dequeue().is_none());
    assert_eq!(q.len(), 0);
}
