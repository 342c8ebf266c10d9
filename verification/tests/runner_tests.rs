use std::cell::Cell;

use batch_core::runner::{
    feed_step, parallel, parallel_scoped, task_outcome, worker_step, FeedAction, TimeoutError,
    WorkerAction,
};
use batch_core::sys::RecvOutcome;
use batch_core::trace::Alive;

#[test]
fn parallel_processes_every_task_on_success() {
    let alive = Alive::new();
    let seen: Cell<u64> = Cell::new(0);
    let tasks: Vec<u64> = (0..10).collect();
    let handler = |_t: u64| {
        seen.set(seen.get() + 1);
        true
    };
    let processed = parallel(&alive, tasks, 3, handler);
    assert_eq!(processed, 10);
    assert_eq!(seen.get(), 10);
    assert!(alive.is_alive());
}

#[test]
fn parallel_fails_fast_and_spares_the_caller_token() {
    let root = Alive::new();
    let run = root.fork();
    let calls: Cell<u64> = Cell::new(0);
    let tasks: Vec<u64> = (0..10).collect();
    let handler = |_t: u64| {
        calls.set(calls.get() + 1);
        calls.get() != 5
    };
    let (processed, abandoned) = parallel_scoped(&run, tasks, handler);
    assert_eq!(processed, 5);
    assert!(processed < 10);
    assert!(abandoned);
    assert!(!run.is_alive());
    assert!(root.is_alive());
}

#[test]
fn scoped_run_without_abandonment_processes_everything() {
    let run = Alive::new();
    let (processed, abandoned) = parallel_scoped(&run, vec![1u64, 2, 3], |_t| true);
    assert_eq!(processed, 3);
    assert!(!abandoned);
    assert!(run.is_alive());
}

#[test]
fn parallel_with_no_tasks_processes_nothing() {
    let alive = Alive::new();
    let processed = parallel(&alive, Vec::<u64>::new(), 3, |_t| true);
    assert_eq!(processed, 0);
}

#[test]
fn parallel_on_a_dead_token_abandons_everything() {
    let root = Alive::new();
    root.shutdown();
    let processed = parallel(&root, vec![1u64, 2, 3], 2, |_t| true);
    assert_eq!(processed, 0);
}

#[test]
fn worker_step_decisions() {
    assert!(matches!(worker_step::<u64>(false, RecvOutcome::Value(1)), WorkerAction::Stop));
    assert!(matches!(worker_step::<u64>(true, RecvOutcome::Value(1)), WorkerAction::Run(1)));
    assert!(matches!(worker_step::<u64>(true, RecvOutcome::TimedOut), WorkerAction::Idle));
    assert!(matches!(worker_step::<u64>(true, RecvOutcome::Closed), WorkerAction::Stop));
}

#[test]
fn feed_step_decisions() {
    assert!(matches!(feed_step::<u64>(true, None), FeedAction::Next));
    assert!(matches!(feed_step::<u64>(false, None), FeedAction::Next));
    assert!(matches!(feed_step(true, Some(3u64)), FeedAction::Backoff(3)));
    assert!(matches!(feed_step(false, Some(3u64)), FeedAction::Abandon(3)));
}

#[test]
fn task_outcome_shuts_down_only_on_failure() {
    let run = Alive::new();
    task_outcome(&run, true);
    assert!(run.is_alive());
    task_outcome(&run, false);
    assert!(!run.is_alive());
}

#[test]
fn timeout_error_is_a_plain_signal() {
    assert_eq!(TimeoutError, TimeoutError);
    let copy = TimeoutError;
    assert_eq!(copy.clone(), TimeoutError);
}
