use thread_pool::workers::WorkerSet;

#[test]
fn construction_completes_after_capacity_registrations() {
    let mut w: WorkerSet<u32> = WorkerSet::new(3);
    assert_eq!(w.capacity(), 3);
    assert!(!w.is_complete());
    w.register(10);
    w.register(11);
    assert!(!w.is_complete());
    w.register(12);
    assert!(w.is_complete());
    assert_eq!(w.remaining(), 3);
}

#[test]
fn each_handle_given_out_once_then_none() {
    let mut w: WorkerSet<u32> = WorkerSet::new(3);
    w.register(10);
    w.register(11);
    w.register(12);
    let mut joined = Vec::new();
    while let Some(h) = w.next_to_join() {
        joined.push(h);
    }
    assert_eq!(joined, vec![10, 11, 12]);
    assert_eq!(w.remaining(), 0);
    assert_eq!(w.next_to_join(), None);
}

#[test]
fn partial_construction_is_torn_down() {
    let mut w: WorkerSet<u32> = WorkerSet::new(4);
    w.register(1);
    w.register(2);
    assert!(!w.is_complete());
    assert_eq!(w.next_to_join(), Some(1));
    assert_eq!(w.next_to_join(), Some(2));
    assert_eq!(w.next_to_join(), None);
}
