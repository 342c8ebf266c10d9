//! Batch orchestration: run a list of tasks under a private fork of a
//! liveness token, counting every handler invocation and shutting the batch
//! down on the first failure (fail-fast).
//!
//! The verified entry points here fix the decisions of the batch: what a
//! worker does with each poll outcome (`worker_step`), what the task feeder
//! does with each dispatch attempt (`feed_step`), what happens after each
//! handler invocation (`task_outcome`), and the counting and fail-fast rule
//! of the batch itself (`parallel`, `parallel_scoped`). Spreading the handler
//! invocations over OS worker threads needs thread spawning, which stays in
//! an unverified driver built from these pieces; the observable outcome — the
//! processed count, the fail-fast shutdown, cancellation observed at poll
//! points — is decided here.

use vstd::prelude::*;

use crate::sys::RecvOutcome;
use crate::trace::Alive;

verus! {

/// How long, in milliseconds, feeder and workers pause between poll points.
pub const POLL_MS: u64 = 100;

/// The signal that a bounded wait ran out before its operation finished.
#[derive(Debug, Clone, Copy, PartialEq, Eq, Structural)]
pub struct TimeoutError;

/// What a worker does with one poll outcome.
pub enum WorkerAction<T> {
    /// A task was delivered: invoke the handler on it.
    Run(T),
    /// The poll interval passed quietly and the batch is still alive: poll again.
    Idle,
    /// The channel is closed or the batch has died: stop.
    Stop,
}

/// A worker's decision rule: stop once the batch has died, run whatever task
/// was delivered, stop when no more work can ever arrive, and otherwise keep
/// polling.
pub fn worker_step<T>(alive_now: bool, polled: RecvOutcome<T>) -> (r: WorkerAction<T>)
    ensures
        !alive_now ==> r is Stop,
        alive_now ==> match polled {
            RecvOutcome::Value(t) => r == WorkerAction::Run(t),
            RecvOutcome::Closed => r is Stop,
            RecvOutcome::TimedOut => r is Idle,
        },
{
    if !alive_now {
        return WorkerAction::Stop;
    }
    match polled {
        RecvOutcome::Value(t) => WorkerAction::Run(t),
        RecvOutcome::Closed => WorkerAction::Stop,
        RecvOutcome::TimedOut => WorkerAction::Idle,
    }
}

/// What the task feeder does after one dispatch attempt.
pub enum FeedAction<T> {
    /// The task was accepted by some worker slot: move to the next task.
    Next,
    /// Every slot was full: pause `POLL_MS` and offer the task again.
    Backoff(T),
    /// The batch died while the task was still unplaced: abandon the rest.
    Abandon(T),
}

/// The feeder's decision rule: an accepted task moves the feeder on; a
/// rejected one is retried after a pause while the batch lives, and abandoned
/// once it does not.
pub fn feed_step<T>(alive_now: bool, attempt: Option<T>) -> (r: FeedAction<T>)
    ensures
        attempt is None ==> r is Next,
        attempt matches Option::Some(t) ==> r == if alive_now {
            FeedAction::Backoff(t)
        } else {
            FeedAction::Abandon(t)
        },
{
    match attempt {
        None => FeedAction::Next,
        Some(t) => {
            if alive_now {
                FeedAction::Backoff(t)
            } else {
                FeedAction::Abandon(t)
            }
        },
    }
}

/// The fail-fast rule applied after one handler invocation: the batch token
/// is shut down exactly when the handler failed.
pub fn task_outcome(run: &Alive, ok: bool)
    requires
        run.wf(),
{
    if !ok {
        run.shutdown();
    }
}

/// Runs `tasks` under the caller-supplied batch token `run`, in order,
/// observing cancellation before each task: each invoked task counts as
/// processed whether or not it succeeded, and a failure shuts `run` down
/// (fail-fast). Gives back the count of invocations, and whether the batch
/// was abandoned: tasks are dropped only when a liveness poll found the token
/// dead, so a run that was never abandoned processed every task, an abandoned
/// one fell strictly short, and an empty batch is never abandoned.
pub fn parallel_scoped<T, F: Fn(T) -> bool>(run: &Alive, tasks: Vec<T>, f: F) -> (r: (
    usize,
    bool,
))
    requires
        run.wf(),
        forall|t: T| call_requires(f, (t,)),
    ensures
        r.0 <= tasks@.len(),
        !r.1 ==> r.0 == tasks@.len(),
        r.1 ==> r.0 < tasks@.len(),
        tasks@.len() == 0 ==> !r.1,
{
    let total = tasks.len();
    let mut pending = tasks;
    let mut processed: usize = 0;
    let mut abandoned = false;
    while !abandoned && pending.len() > 0
        invariant
            run.wf(),
            forall|t: T| call_requires(f, (t,)),
            processed <= total,
            !abandoned ==> processed + pending@.len() == total,
            abandoned ==> processed < total,
        decreases (if abandoned {
            0int
        } else {
            1int
        }), pending@.len(),
    {
        if !run.is_alive() {
            abandoned = true;
        } else {
            let t = pending.remove(0);
            let ok = f(t);
            processed = processed + 1;
            task_outcome(run, ok);
        }
    }
    (processed, abandoned)
}

/// Runs `tasks` under a private fork of `alive` and hands back how many
/// handler invocations happened, successful or not. The caller's own token is
/// never touched: a failing handler shuts down only the private fork, so the
/// batch stops while `alive` and its other descendants keep their liveness.
/// `worker` is the driver's parallelism hint; the verified routine fixes the
/// counting and fail-fast rule, which do not depend on it.
#[allow(unused_variables)]
pub fn parallel<T, F: Fn(T) -> bool>(alive: &Alive, tasks: Vec<T>, worker: usize, f: F) -> (r:
    usize)
    requires
        alive.wf(),
        forall|t: T| call_requires(f, (t,)),
    ensures
        r <= tasks@.len(),
        tasks@.len() == 0 ==> r == 0,
{
    let run = alive.fork();
    let (processed, _abandoned) = parallel_scoped(&run, tasks, f);
    processed
}

} // verus!
