use batch_core::channel::Boardcast;
use batch_core::sys::RecvOutcome;
use batch_core::trace::{
    recv_wait_ms, sleep_step, Alive, AvgCounter, Counter, ItemIndexer, SleepStep, Slowlog,
};

#[test]
fn new_token_is_alive() {
    let a = Alive::new();
    assert!(a.is_alive());
    assert_eq!(a.deadline(), None);
    assert_eq!(a.remain_time(), None);
}

#[test]
fn shutdown_is_permanent() {
    let a = Alive::new();
    a.shutdown();
    assert!(!a.is_alive());
    a.shutdown();
    assert!(!a.is_alive());
    // No later operation revives the token or its descendants.
    let child = a.fork();
    assert!(!child.is_alive());
    assert!(!a.sleep_ms(1));
    assert!(!a.is_alive());
}

#[test]
fn clone_shares_the_stop_flag() {
    let a = Alive::new();
    let b = a.clone();
    b.shutdown();
    assert!(!a.is_alive());
    assert!(!b.is_alive());
}

#[test]
fn shutdown_of_fork_spares_parent_and_sibling() {
    let root = Alive::new();
    let a = root.fork();
    let b = root.fork();
    a.shutdown();
    assert!(!a.is_alive());
    assert!(b.is_alive());
    assert!(root.is_alive());
}

#[test]
fn parent_shutdown_reaches_every_descendant() {
    let root = Alive::new();
    let child = root.fork();
    let grandchild = child.fork();
    root.shutdown();
    assert!(!child.is_alive());
    assert!(!grandchild.is_alive());
}

#[test]
fn deadline_at_now_counts_dead() {
    let a = Alive::new();
    let c = a.fork_with_deadline(a.now_ms());
    assert!(!c.is_alive());
    assert!(a.is_alive());
}

#[test]
fn fork_deadline_only_tightens() {
    let a = Alive::new();
    let c = a.fork_with_deadline(1000);
    // A looser deadline on a grandchild is clamped to the parent's.
    let d = c.fork_with_deadline(5000);
    assert_eq!(d.deadline(), Some(1000));
    // A tighter one stands.
    let e = c.fork_with_deadline(200);
    assert_eq!(e.deadline(), Some(200));
    // A plain fork carries the deadline over unchanged.
    let f = c.fork();
    assert_eq!(f.deadline(), Some(1000));
}

#[test]
fn with_deadline_sets_the_own_deadline() {
    let mut a = Alive::new();
    a.with_deadline(77);
    assert_eq!(a.deadline(), Some(77));
}

#[test]
fn remain_time_at_exact_values() {
    let mut a = Alive::new();
    a.with_deadline(100);
    assert_eq!(a.remain_time_at(40), Some(60));
    assert_eq!(a.remain_time_at(100), Some(0));
    assert_eq!(a.remain_time_at(150), Some(-50));
    let b = Alive::new();
    assert_eq!(b.remain_time_at(40), None);
}

#[test]
fn effective_deadline_is_bound_by_ancestors() {
    let a = Alive::new();
    assert_eq!(a.effective_deadline(), None);
    let parent = a.fork_with_deadline(100);
    let mut child = parent.fork();
    // Loosening the child's own deadline cannot loosen the chain's.
    child.with_deadline(900);
    assert_eq!(child.deadline(), Some(900));
    assert_eq!(child.effective_deadline(), Some(100));
}

#[test]
fn sleep_step_exact_values() {
    assert_eq!(sleep_step(false, 0, 500, None), SleepStep::Stop);
    assert_eq!(sleep_step(true, 10, 10, None), SleepStep::Stop);
    assert_eq!(sleep_step(true, 0, 500, None), SleepStep::Pause(500));
    assert_eq!(sleep_step(true, 0, 5000, None), SleepStep::Pause(1000));
    assert_eq!(sleep_step(true, 0, 5000, Some(300)), SleepStep::Pause(300));
    assert_eq!(sleep_step(true, 400, 5000, Some(300)), SleepStep::Stop);
}

#[test]
fn recv_wait_exact_values() {
    assert_eq!(recv_wait_ms(None, 5), 1000);
    assert_eq!(recv_wait_ms(Some(400), 100), 300);
    assert_eq!(recv_wait_ms(Some(2000), 100), 1000);
    assert_eq!(recv_wait_ms(Some(50), 100), 1000);
}

#[test]
fn sleep_to_returns_at_the_token_deadline() {
    let a = Alive::new().fork_with_timeout(50);
    let start = std::time::Instant::now();
    a.sleep_to(a.now_ms() + 200);
    let elapsed = start.elapsed().as_millis();
    assert!(elapsed >= 30, "woke after {elapsed} ms");
    assert!(elapsed < 160, "overslept: {elapsed} ms");
    assert!(!a.is_alive());
}

#[test]
fn sleep_on_a_dead_token_returns_at_once() {
    let a = Alive::new();
    a.shutdown();
    let start = std::time::Instant::now();
    assert!(!a.sleep_ms(5000));
    assert!(start.elapsed().as_millis() < 500);
}

#[test]
fn sleep_on_a_live_token_reports_alive() {
    let a = Alive::new();
    assert!(a.sleep_ms(10));
}

#[test]
fn alive_iter_stops_on_shutdown() {
    let a = Alive::new();
    let mut it = a.iter(vec![1u64, 2, 3]);
    assert_eq!(it.next(), Some(1));
    a.shutdown();
    assert_eq!(it.next(), None);
    assert_eq!(it.next(), None);
}

#[test]
fn alive_iter_yields_everything_while_alive() {
    let a = Alive::new();
    let mut it = a.iter(vec![10u64, 20]);
    assert_eq!(it.next(), Some(10));
    assert_eq!(it.next(), Some(20));
    assert_eq!(it.next(), None);
}

#[test]
fn recv_yields_a_value() {
    let a = Alive::new();
    let mut b: Boardcast<u64> = Boardcast::new();
    let r = b.new_subscriber();
    b.boardcast(42);
    match a.recv(&r) {
        RecvOutcome::Value(v) => assert_eq!(v, 42),
        _ => panic!("expected a value"),
    }
}

#[test]
fn recv_reports_a_closed_channel() {
    let a = Alive::new();
    let mut b: Boardcast<u64> = Boardcast::new();
    let r = b.new_subscriber();
    b.clean();
    assert!(matches!(a.recv(&r), RecvOutcome::Closed));
}

#[test]
fn recv_times_out_with_the_token_deadline() {
    let a = Alive::new().fork_with_timeout(50);
    let mut b: Boardcast<u64> = Boardcast::new();
    let r = b.new_subscriber();
    let start = std::time::Instant::now();
    assert!(matches!(a.recv(&r), RecvOutcome::TimedOut));
    let elapsed = start.elapsed().as_millis();
    assert!(elapsed < 500, "took {elapsed} ms");
}

#[test]
fn recv_iter_drains_then_ends() {
    let a = Alive::new();
    let mut b: Boardcast<u64> = Boardcast::new();
    let r = b.new_subscriber();
    b.boardcast(1);
    b.boardcast(2);
    let mut it = a.recv_iter(&r, 10);
    assert_eq!(it.next(), Some(1));
    assert_eq!(it.next(), Some(2));
    b.clean();
    assert_eq!(it.next(), None);
}

#[test]
fn recv_iter_stops_at_death_with_values_still_queued() {
    let a = Alive::new();
    let mut b: Boardcast<u64> = Boardcast::new();
    let r = b.new_subscriber();
    b.boardcast(1);
    b.boardcast(2);
    b.boardcast(3);
    let mut it = a.recv_iter(&r, 10);
    assert_eq!(it.next(), Some(1));
    a.shutdown();
    // Liveness is checked before each element: the queued values are never
    // yielded once the token is dead, however full the channel is.
    assert_eq!(it.next(), None);
    assert_eq!(it.next(), None);
}

#[test]
fn counter_counts_and_drains() {
    let c = Counter::new();
    c.add();
    c.add();
    let twin = c.clone();
    twin.add();
    assert_eq!(c.take(), 3);
    assert_eq!(c.take(), 0);
}

#[test]
fn avg_counter_records_spans() {
    let c = AvgCounter::new();
    let g = c.place();
    g.finish();
    let res = c.take();
    assert_eq!(res.cnt, 1);
    assert!(res.total_ms < 1000);
    let drained = c.take();
    assert_eq!(drained.cnt, 0);
    assert_eq!(drained.total_ms, 0);
}

#[test]
fn default_token_is_a_fresh_root() {
    let a = Alive::default();
    assert!(a.is_alive());
    assert_eq!(a.deadline(), None);
}

#[test]
fn slowlog_threshold_is_strict() {
    let s = Slowlog::new("op", 100);
    assert_eq!(s.tag, "op");
    assert!(!s.slow_at(0));
    assert!(!s.slow_at(100));
    assert!(s.slow_at(101));
    assert!(!s.finish());
}

#[test]
fn slowlog_reports_an_outlived_span() {
    let s = Slowlog::new_ms("op", 10);
    let a = Alive::new();
    a.sleep_ms(40);
    assert!(s.finish());
}

#[test]
fn item_indexer_assigns_first_seen_order() {
    let mut idx: ItemIndexer<u64> = ItemIndexer::new();
    assert_eq!(idx.index(&5), 0);
    assert_eq!(idx.index(&7), 1);
    assert_eq!(idx.index(&5), 0);
    assert_eq!(idx.index(&9), 2);
}
