use batch_core::channel::{Boardcast, Dispatcher};

#[test]
fn boardcast_delivers_everything_in_order() {
    let mut b: Boardcast<u64> = Boardcast::new();
    let r1 = b.new_subscriber();
    let r2 = b.new_subscriber();
    b.boardcast(1);
    b.boardcast(2);
    b.boardcast(3);
    for r in [&r1, &r2] {
        assert_eq!(r.try_recv(), Ok(1));
        assert_eq!(r.try_recv(), Ok(2));
        assert_eq!(r.try_recv(), Ok(3));
        assert!(r.try_recv().is_err());
    }
    assert_eq!(b.len(), 2);
}

#[test]
fn dropped_subscriber_is_pruned_on_the_next_boardcast() {
    let mut b: Boardcast<u64> = Boardcast::new();
    let r1 = b.new_subscriber();
    let r2 = b.new_subscriber();
    drop(r1);
    assert_eq!(b.len(), 2);
    b.boardcast(9);
    assert_eq!(b.len(), 1);
    assert_eq!(r2.try_recv(), Ok(9));
}

#[test]
fn latest_value_is_kept_and_overwritten() {
    let mut b: Boardcast<u64> = Boardcast::new();
    assert_eq!(b.get_latest(), None);
    b.boardcast(5);
    assert_eq!(b.get_latest(), Some(5));
    b.boardcast(6);
    assert_eq!(b.get_latest(), Some(6));
}

#[test]
fn new_with_stores_the_value_without_subscribers() {
    let b = Boardcast::new_with(11u64);
    assert_eq!(b.get_latest(), Some(11));
    assert_eq!(b.len(), 0);
}

#[test]
fn subscriber_sees_only_future_broadcasts() {
    let mut b: Boardcast<u64> = Boardcast::new();
    b.boardcast(1);
    let r = b.new_subscriber();
    assert!(r.try_recv().is_err());
    b.boardcast(2);
    assert_eq!(r.try_recv(), Ok(2));
}

#[test]
fn clean_drops_subscribers_but_keeps_latest() {
    let mut b: Boardcast<u64> = Boardcast::new();
    let r = b.new_subscriber();
    b.boardcast(4);
    b.clean();
    assert_eq!(b.len(), 0);
    assert_eq!(b.get_latest(), Some(4));
    // The dropped registration closes the subscriber's channel.
    assert_eq!(r.try_recv(), Ok(4));
    assert!(matches!(r.try_recv(), Err(std::sync::mpsc::TryRecvError::Disconnected)));
}

#[test]
fn dispatch_backpressure_with_one_slot() {
    let mut d: Dispatcher<u64> = Dispatcher::new();
    let r = d.subscribe();
    assert_eq!(d.dispatch(1), None);
    // The slot is full: the second task comes back unchanged.
    assert_eq!(d.dispatch(2), Some(2));
    assert_eq!(r.try_recv(), Ok(1));
    // Drained: the task is accepted now.
    assert_eq!(d.dispatch(2), None);
    assert_eq!(r.try_recv(), Ok(2));
}

#[test]
fn dispatch_without_subscribers_returns_the_task() {
    let mut d: Dispatcher<u64> = Dispatcher::new();
    assert_eq!(d.dispatch(7), Some(7));
}

#[test]
fn dispatch_prunes_disconnected_subscribers() {
    let mut d: Dispatcher<u64> = Dispatcher::new();
    let r = d.subscribe();
    drop(r);
    assert_eq!(d.dispatch(7), Some(7));
    // The dead subscriber is gone; a fresh one receives.
    let r2 = d.subscribe();
    assert_eq!(d.dispatch(8), None);
    assert_eq!(r2.try_recv(), Ok(8));
}

#[test]
fn dispatch_skips_a_full_slot_for_the_next_subscriber() {
    let mut d: Dispatcher<u64> = Dispatcher::new();
    let r1 = d.subscribe();
    let r2 = d.subscribe();
    assert_eq!(d.dispatch(1), None);
    assert_eq!(d.dispatch(2), None);
    assert_eq!(d.dispatch(3), Some(3));
    assert_eq!(r1.try_recv(), Ok(1));
    assert_eq!(r2.try_recv(), Ok(2));
}
