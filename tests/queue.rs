use ajuna_games::queues::Queue;

#[test]
fn queue_is_bounded_fifo() {
    let mut q: Queue<u64> = Queue::new(2);
    assert!(q.is_empty());
    assert_eq!(q.length(), 0);
    assert_eq!(q.peek(), None);
    assert!(q.enqueue(1));
    assert!(q.enqueue(2));
    assert!(!q.enqueue(3));
    assert_eq!(q.length(), 2);
    assert_eq!(q.peek(), Some(&1));
    assert!(q.contains(2));
    assert!(!q.contains(3));
    assert_eq!(q.dequeue(), 1);
    assert_eq!(q.dequeue(), 2);
    assert!(q.is_empty());
}

#[test]
fn queue_remove_keeps_order() {
    let mut q: Queue<u64> = Queue::new(5);
    for x in [4u64, 7, 4, 9, 4] {
        assert!(q.enqueue(x));
    }
    q.remove(4);
    assert_eq!(q.length(), 2);
    assert_eq!(q.dequeue(), 7);
    assert_eq!(q.dequeue(), 9);
    let mut empty: Queue<u64> = Queue::new(0);
    assert!(!empty.enqueue(1));
}

#[test]
fn block_counter_advances() {
    let mut block: u64 = 5;
    ajuna_games::blocks::run_to_block(&mut block, 9);
    assert_eq!(block, 9);
    ajuna_games::blocks::run_to_block(&mut block, 3);
    assert_eq!(block, 9);
    ajuna_games::blocks::run_next_block(&mut block);
    assert_eq!(block, 10);
}
