//! The hierarchical liveness/deadline token `Alive`, its polling helpers, and
//! the small atomic instrumentation counters.
//!
//! A token is a chain of links, root first. Each link carries a shared stop
//! flag and an optional absolute deadline, in milliseconds on the token
//! tree's own clock: every fork shares the root's monotonic epoch, read
//! through `Alive::now_ms`, so deadlines are comparable across the tree and
//! a system-clock adjustment can never revive a passed deadline. The token
//! is alive exactly when every link's flag is still set and no link's
//! deadline has passed; forking appends a fresh link whose flag starts set,
//! so cancellation flows only from ancestors to descendants. Flags live in
//! shared cells that other threads may clear concurrently, so contracts here
//! speak exactly about what is visible: the deadline structure of the chain,
//! and how each answer is determined by the flag and clock values read.

use vstd::prelude::*;

use core::sync::atomic::{AtomicBool, AtomicUsize, Ordering};
use std::sync::Arc;

use crate::sys;
use crate::sys::RecvOutcome;

verus! {

/// The longest single pause, in milliseconds, any polling helper takes before
/// it looks at the token again.
pub const MAX_STEP_MS: u64 = 1000;

/// One link of a liveness chain: a shared stop flag and an optional absolute
/// deadline in clock milliseconds.
pub struct AliveNode {
    /// Set at creation; cleared, once and forever, by `Alive::shutdown`.
    pub flag: Arc<AtomicBool>,
    /// The reading of the tree's clock past which this link counts as dead.
    pub deadline: Option<u64>,
}

impl Clone for AliveNode {
    /// The copy shares the same stop flag and carries the same deadline.
    fn clone(&self) -> (r: AliveNode)
        ensures
            r == *self,
    {
        AliveNode { flag: sys::arc_clone(&self.flag), deadline: self.deadline }
    }
}

/// The tighter of two optional deadlines, `None` meaning "no deadline".
pub open spec fn opt_min(a: Option<u64>, b: Option<u64>) -> Option<u64> {
    match (a, b) {
        (Option::None, x) => x,
        (Option::Some(x), Option::None) => Option::Some(x),
        (Option::Some(x), Option::Some(y)) => Option::Some(if x <= y { x } else { y }),
    }
}

/// `a` is at least as tight a deadline as `b` (`None` meaning "no deadline").
pub open spec fn opt_le(a: Option<u64>, b: Option<u64>) -> bool {
    match b {
        Option::None => true,
        Option::Some(y) => a matches Option::Some(x) && x <= y,
    }
}

/// The effective deadline of a chain: the tightest deadline any link carries.
pub open spec fn chain_deadline(s: Seq<AliveNode>) -> Option<u64>
    decreases s.len(),
{
    if s.len() == 0 {
        Option::None
    } else {
        opt_min(s.last().deadline, chain_deadline(s.drop_last()))
    }
}

/// Every deadline in the chain lies strictly after `now`.
pub open spec fn deadlines_open(s: Seq<AliveNode>, now: u64) -> bool {
    forall|i: int| 0 <= i < s.len() ==> (#[trigger] s[i].deadline matches Option::Some(d) ==> now < d)
}

/// A hierarchical, shareable liveness/deadline token.
pub struct Alive {
    /// The chain of links, root first; the last link is the token's own.
    pub chain: Vec<AliveNode>,
    /// The tree's clock epoch: the moment the root token was created, shared
    /// by every fork, so that all deadlines live on one timeline.
    pub epoch: Arc<std::time::Instant>,
}

impl Alive {
    /// A token always carries at least its own link.
    pub open spec fn wf(self) -> bool {
        self.chain@.len() >= 1
    }

    /// The deadline stored on the token's own link.
    pub open spec fn own_deadline(self) -> Option<u64> {
        self.chain@.last().deadline
    }

    /// The tightest deadline along the whole ancestor chain.
    pub open spec fn eff_deadline(self) -> Option<u64> {
        chain_deadline(self.chain@)
    }

    /// `self` descends from `anc` (or is `anc` itself): the ancestor's chain
    /// is a prefix of this token's chain.
    pub open spec fn extends(self, anc: Alive) -> bool {
        &&& anc.chain@.len() <= self.chain@.len()
        &&& anc.chain@ =~= self.chain@.subrange(0, anc.chain@.len() as int)
    }

    /// A fresh root token: alive, with no deadline and no ancestors.
    pub fn new() -> (r: Alive)
        ensures
            r.wf(),
            r.chain@.len() == 1,
            r.own_deadline() is None,
            r.eff_deadline() is None,
    {
        let flag = Arc::new(AtomicBool::new(true));
        let mut chain: Vec<AliveNode> = Vec::new();
        chain.push(AliveNode { flag, deadline: None });
        proof {
            assert(chain@.len() == 1);
            assert(chain@.last().deadline is None);
            assert(chain@.drop_last().len() == 0);
            assert(chain_deadline(chain@.drop_last()) is None);
            assert(chain_deadline(chain@) is None);
        }
        Alive { chain, epoch: Arc::new(sys::instant_now()) }
    }

    /// The tree's clock: whole milliseconds since the root token was
    /// created, read from the machine's monotonic clock. Deadlines are
    /// values of this clock. The reading belongs to the machine, so nothing
    /// is promised of it.
    pub fn now_ms(&self) -> u64 {
        sys::elapsed_ms(&self.epoch)
    }

    /// The deadline on this token's own link, if any.
    pub fn deadline(&self) -> (r: Option<u64>)
        requires
            self.wf(),
        ensures
            r == self.own_deadline(),
    {
        self.chain[self.chain.len() - 1].deadline
    }

    /// Milliseconds from `now` to this token's own deadline, negative once the
    /// deadline has passed; `None` when the token has no own deadline.
    /// Values are clamped to the `i64` range.
    pub fn remain_time_at(&self, now: u64) -> (r: Option<i64>)
        requires
            self.wf(),
        ensures
            r == remain_spec(self.own_deadline(), now),
    {
        match self.chain[self.chain.len() - 1].deadline {
            None => None,
            Some(d) => Some(clamped_diff(d, now)),
        }
    }

    /// Like `remain_time_at`, against the clock's current reading. The clock
    /// value itself is outside the program, so only the shape is promised;
    /// `remain_time_at` carries the exact contract.
    pub fn remain_time(&self) -> (r: Option<i64>)
        requires
            self.wf(),
        ensures
            r is Some <==> self.own_deadline() is Some,
    {
        self.remain_time_at(self.now_ms())
    }

    /// Sets this token's own deadline to exactly `deadline` — overwriting,
    /// so unlike the fork operations it may also loosen the own link's
    /// deadline (ancestor links still bind the effective deadline) — while
    /// every other link, and the own link's stop flag, stay as they were.
    pub fn with_deadline(&mut self, deadline: u64)
        requires
            old(self).wf(),
        ensures
            final(self).wf(),
            final(self).chain@.len() == old(self).chain@.len(),
            final(self).own_deadline() == Option::Some(deadline),
            final(self).chain@.last().flag == old(self).chain@.last().flag,
            final(self).chain@.drop_last() =~= old(self).chain@.drop_last(),
            final(self).epoch == old(self).epoch,
    {
        let mut node = self.chain.pop().unwrap();
        node.deadline = Some(deadline);
        self.chain.push(node);
        proof {
            assert(final(self).chain@.drop_last() =~= old(self).chain@.drop_last());
        }
    }

    /// A child token: one more link, sharing every ancestor flag, whose own
    /// deadline is `deadline` tightened by the parent's own deadline.
    pub fn fork_with_deadline(&self, deadline: u64) -> (r: Alive)
        requires
            self.wf(),
        ensures
            r.wf(),
            r.extends(*self),
            r.chain@.len() == self.chain@.len() + 1,
            r.own_deadline() == opt_min(self.own_deadline(), Option::Some(deadline)),
            opt_le(r.eff_deadline(), self.eff_deadline()),
            opt_le(r.eff_deadline(), Option::Some(deadline)),
            r.epoch == self.epoch,
    {
        let own = self.chain[self.chain.len() - 1].deadline;
        let d = match own {
            None => deadline,
            Some(x) => if x <= deadline {
                x
            } else {
                deadline
            },
        };
        self.push_link(Some(d))
    }

    /// A child token whose deadline lies `dur_ms` milliseconds from now (as
    /// read from the clock), tightened by the parent's own deadline.
    pub fn fork_with_timeout(&self, dur_ms: u64) -> (r: Alive)
        requires
            self.wf(),
        ensures
            r.wf(),
            r.extends(*self),
            r.chain@.len() == self.chain@.len() + 1,
            r.own_deadline() is Some,
            opt_le(r.eff_deadline(), self.eff_deadline()),
            r.epoch == self.epoch,
    {
        let now = self.now_ms();
        let d = if now <= u64::MAX - dur_ms {
            now + dur_ms
        } else {
            u64::MAX
        };
        self.fork_with_deadline(d)
    }

    /// A child token with the parent's own deadline, and a fresh stop flag of
    /// its own: shutting the child down never touches the parent.
    pub fn fork(&self) -> (r: Alive)
        requires
            self.wf(),
        ensures
            r.wf(),
            r.extends(*self),
            r.chain@.len() == self.chain@.len() + 1,
            r.own_deadline() == self.own_deadline(),
            r.eff_deadline() == self.eff_deadline(),
            r.epoch == self.epoch,
    {
        let own = self.chain[self.chain.len() - 1].deadline;
        let r = self.push_link(own);
        proof {
            lemma_chain_deadline_last_absorbed(r.chain@);
            assert(r.chain@.drop_last() =~= self.chain@);
        }
        r
    }

    /// Shared tail of the fork operations: the parent's links, then one fresh
    /// link with the given deadline.
    fn push_link(&self, deadline: Option<u64>) -> (r: Alive)
        requires
            self.wf(),
        ensures
            r.wf(),
            r.chain@.len() == self.chain@.len() + 1,
            r.chain@.drop_last() =~= self.chain@,
            r.extends(*self),
            r.own_deadline() == deadline,
            r.eff_deadline() == opt_min(deadline, self.eff_deadline()),
            r.epoch == self.epoch,
    {
        let mut chain = clone_nodes(&self.chain);
        let flag = Arc::new(AtomicBool::new(true));
        chain.push(AliveNode { flag, deadline });
        let r = Alive { chain, epoch: sys::arc_clone(&self.epoch) };
        proof {
            assert(r.chain@.drop_last() =~= self.chain@);
            assert(r.chain@.subrange(0, self.chain@.len() as int) =~= self.chain@);
        }
        r
    }

    /// Clears this token's own stop flag. One-way and idempotent: nothing ever
    /// sets the flag again. Ancestors and siblings keep their own flags.
    pub fn shutdown(&self)
        requires
            self.wf(),
    {
        self.chain[self.chain.len() - 1].flag.store(false, Ordering::Relaxed);
    }

    /// Reads every stop flag along the chain; true when all were still set.
    /// The cells are shared with other threads, so no more can be promised.
    fn flags_all_set(&self) -> bool {
        let mut i: usize = 0;
        while i < self.chain.len()
            decreases self.chain@.len() - i,
        {
            if !self.chain[i].flag.load(Ordering::Relaxed) {
                return false;
            }
            i += 1;
        }
        true
    }

    /// The liveness rule on values already read: alive exactly when every stop
    /// flag was still set and no deadline in the chain lies at or before `now`.
    pub fn is_alive_given(&self, flags_live: bool, now: u64) -> (r: bool)
        requires
            self.wf(),
        ensures
            r == (flags_live && deadlines_open(self.chain@, now)),
    {
        if !flags_live {
            return false;
        }
        let mut i: usize = 0;
        while i < self.chain.len()
            invariant
                0 <= i <= self.chain@.len(),
                forall|j: int|
                    0 <= j < i ==> (#[trigger] self.chain@[j].deadline matches Option::Some(d)
                        ==> now < d),
            decreases self.chain@.len() - i,
        {
            match self.chain[i].deadline {
                Some(d) => {
                    if now >= d {
                        return false;
                    }
                },
                None => {},
            }
            i += 1;
        }
        true
    }

    /// Whether the token is alive right now: every stop flag still set and no
    /// deadline passed, recomputed from the shared flags and the clock on
    /// every call, never cached. The flag and clock readings belong to the
    /// machine; `is_alive_given` carries the exact rule applied to them.
    pub fn is_alive(&self) -> bool
        requires
            self.wf(),
    {
        let flags = self.flags_all_set();
        let now = self.now_ms();
        self.is_alive_given(flags, now)
    }

    /// The tightest deadline along the whole chain, as a value.
    pub fn effective_deadline(&self) -> (r: Option<u64>)
        requires
            self.wf(),
        ensures
            r == self.eff_deadline(),
    {
        let mut acc: Option<u64> = None;
        let mut i: usize = 0;
        proof {
            assert(self.chain@.subrange(0, 0) =~= Seq::<AliveNode>::empty());
        }
        while i < self.chain.len()
            invariant
                self.wf(),
                0 <= i <= self.chain@.len(),
                acc == chain_deadline(self.chain@.subrange(0, i as int)),
            decreases self.chain@.len() - i,
        {
            let d = self.chain[i].deadline;
            acc = match (d, acc) {
                (None, x) => x,
                (Some(x), None) => Some(x),
                (Some(x), Some(y)) => Some(
                    if x <= y {
                        x
                    } else {
                        y
                    },
                ),
            };
            proof {
                let pre = self.chain@.subrange(0, i as int);
                let cur = self.chain@.subrange(0, i + 1 as int);
                assert(cur.drop_last() =~= pre);
                assert(cur.last() == self.chain@[i as int]);
            }
            i += 1;
        }
        proof {
            assert(self.chain@.subrange(0, self.chain@.len() as int) =~= self.chain@);
        }
        acc
    }

    /// Blocks until `target_ms` on the clock, or until the token dies,
    /// whichever comes first, pausing at most `MAX_STEP_MS` at a time —
    /// never past the token's effective deadline — and re-checking liveness
    /// between pauses. `sleep_step` carries the exact decision rule applied
    /// to each reading.
    pub fn sleep_to(&self, target_ms: u64)
        requires
            self.wf(),
    {
        let deadline = self.effective_deadline();
        // Verus asks every loop for a termination measure; the clock and the
        // shared flags cannot provide one, so the loop carries a round
        // counter that could only run out after u64::MAX pauses.
        let mut rounds: u64 = u64::MAX;
        while rounds > 0
            invariant
                self.wf(),
            decreases rounds,
        {
            rounds -= 1;
            let live = self.is_alive();
            let now = self.now_ms();
            match sleep_step(live, now, target_ms, deadline) {
                SleepStep::Stop => {
                    return ;
                },
                SleepStep::Pause(ms) => {
                    sys::park_ms(ms);
                },
            }
        }
    }

    /// Sleeps `dur_ms` milliseconds (or to the end of the clock's range) with
    /// the bounded-step discipline of `sleep_to`; reports whether the token
    /// was still alive afterwards.
    pub fn sleep(&self, dur_ms: u64) -> bool
        requires
            self.wf(),
    {
        let now = self.now_ms();
        let target = if now <= u64::MAX - dur_ms {
            now + dur_ms
        } else {
            u64::MAX
        };
        self.sleep_to(target);
        self.is_alive()
    }

    /// `sleep`, with the duration given as whole milliseconds.
    pub fn sleep_ms(&self, ms: u64) -> bool
        requires
            self.wf(),
    {
        self.sleep(ms)
    }

    /// Blocks for a value on `r`, waiting in slices of at most `MAX_STEP_MS`
    /// (never past the token's own deadline) and re-checking liveness between
    /// slices. Yields the value, `Closed` once no sender is left, or
    /// `TimedOut` once the token is no longer alive. `recv_wait_ms` carries
    /// the exact slicing rule.
    pub fn recv<T>(&self, r: &std::sync::mpsc::Receiver<T>) -> RecvOutcome<T>
        requires
            self.wf(),
    {
        // As in `sleep_to`, the round counter only states termination.
        let mut rounds: u64 = u64::MAX;
        while rounds > 0
            invariant
                self.wf(),
            decreases rounds,
        {
            rounds -= 1;
            if !self.is_alive() {
                return RecvOutcome::TimedOut;
            }
            let now = self.now_ms();
            let own = self.chain[self.chain.len() - 1].deadline;
            let wait = recv_wait_ms(own, now);
            match sys::recv_timeout_ms(r, wait) {
                RecvOutcome::Value(v) => {
                    return RecvOutcome::Value(v);
                },
                RecvOutcome::Closed => {
                    return RecvOutcome::Closed;
                },
                RecvOutcome::TimedOut => {},
            }
        }
        RecvOutcome::TimedOut
    }

    /// A lazy traversal of `items` that stops yielding as soon as this token
    /// is no longer alive, checked once per element.
    pub fn iter<'a, T>(&'a self, items: Vec<T>) -> (r: AliveIter<'a, T>)
        requires
            self.wf(),
        ensures
            r.items@ =~= items@,
            r.alive == self,
    {
        AliveIter { alive: self, items }
    }

    /// A lazy sequence of values received from `r`, polling every `poll_ms`
    /// milliseconds, that ends when the channel closes or the token dies;
    /// liveness is checked once per element, before anything is taken from
    /// the channel, so nothing is yielded after the token is observed dead.
    pub fn recv_iter<'a, T>(&'a self, r: &'a std::sync::mpsc::Receiver<T>, poll_ms: u64) -> (it:
        RecvIter<'a, T>)
        requires
            self.wf(),
        ensures
            it.alive == self,
            it.poll_ms == poll_ms,
    {
        RecvIter { alive: self, receiver: r, poll_ms }
    }
}

impl Clone for Alive {
    /// The copy shares every stop flag with the token it was made from:
    /// shutting either down stops both.
    fn clone(&self) -> (r: Alive)
        ensures
            r.chain@ =~= self.chain@,
            r.epoch == self.epoch,
    {
        Alive { chain: clone_nodes(&self.chain), epoch: sys::arc_clone(&self.epoch) }
    }
}

impl Default for Alive {
    /// A fresh root token, as `Alive::new` builds it.
    fn default() -> (r: Alive)
        ensures
            r.wf(),
            r.chain@.len() == 1,
            r.own_deadline() is None,
            r.eff_deadline() is None,
    {
        Alive::new()
    }
}

/// An element-wise copy of a chain; each copied link shares the flag of the
/// link it copies.
fn clone_nodes(v: &Vec<AliveNode>) -> (r: Vec<AliveNode>)
    ensures
        r@ =~= v@,
{
    let mut r: Vec<AliveNode> = Vec::new();
    let mut i: usize = 0;
    while i < v.len()
        invariant
            0 <= i <= v@.len(),
            r@ =~= v@.subrange(0, i as int),
        decreases v@.len() - i,
    {
        r.push(v[i].clone());
        proof {
            assert(r@ =~= v@.subrange(0, i + 1 as int));
        }
        i += 1;
    }
    proof {
        assert(v@.subrange(0, v@.len() as int) =~= v@);
    }
    r
}

/// `d - now`, clamped into the `i64` range.
pub open spec fn clamped_diff_spec(d: u64, now: u64) -> i64 {
    if d >= now {
        if d - now > i64::MAX {
            i64::MAX
        } else {
            (d - now) as i64
        }
    } else {
        if now - d > i64::MAX {
            i64::MIN
        } else {
            (-((now - d) as int)) as i64
        }
    }
}

/// The remaining-time answer for an optional deadline at clock reading `now`.
pub open spec fn remain_spec(own: Option<u64>, now: u64) -> Option<i64> {
    match own {
        Option::None => Option::None,
        Option::Some(d) => Option::Some(clamped_diff_spec(d, now)),
    }
}

/// Signed distance from `now` to `d` in milliseconds, clamped to `i64`.
fn clamped_diff(d: u64, now: u64) -> (r: i64)
    ensures
        r == clamped_diff_spec(d, now),
{
    if d >= now {
        let diff = d - now;
        if diff > i64::MAX as u64 {
            i64::MAX
        } else {
            diff as i64
        }
    } else {
        let diff = now - d;
        if diff > i64::MAX as u64 {
            i64::MIN
        } else {
            -(diff as i64)
        }
    }
}

/// One decision of the bounded-step sleeping discipline.
#[derive(Debug, Clone, Copy, PartialEq, Eq, Structural)]
pub enum SleepStep {
    /// The token died or the target time has been reached: stop sleeping.
    Stop,
    /// Keep sleeping for this many milliseconds before looking again.
    Pause(u64),
}

/// What one sleeping round does, given the liveness, clock and deadline
/// values read: stop once the token has died, the target has been reached or
/// the deadline has passed; otherwise pause for the time left to the nearer
/// of target and deadline, capped at `MAX_STEP_MS`.
pub open spec fn sleep_step_spec(live: bool, now: u64, target: u64, deadline: Option<u64>) -> SleepStep {
    let bound = match deadline {
        Option::None => target,
        Option::Some(d) => if d <= target {
            d
        } else {
            target
        },
    };
    if !live || now >= bound {
        SleepStep::Stop
    } else if bound - now <= MAX_STEP_MS {
        SleepStep::Pause((bound - now) as u64)
    } else {
        SleepStep::Pause(MAX_STEP_MS)
    }
}

/// One round of the bounded-step sleeping discipline, as `sleep_step_spec`
/// describes it.
pub fn sleep_step(live: bool, now: u64, target: u64, deadline: Option<u64>) -> (r: SleepStep)
    ensures
        r == sleep_step_spec(live, now, target, deadline),
{
    let bound = match deadline {
        None => target,
        Some(d) => if d <= target {
            d
        } else {
            target
        },
    };
    if !live || now >= bound {
        SleepStep::Stop
    } else {
        let remaining = bound - now;
        if remaining <= MAX_STEP_MS {
            SleepStep::Pause(remaining)
        } else {
            SleepStep::Pause(MAX_STEP_MS)
        }
    }
}

/// How long one receive attempt may wait, given the token's own deadline and
/// the clock reading `now`.
pub open spec fn recv_wait_spec(own: Option<u64>, now: u64) -> u64 {
    match own {
        Option::None => MAX_STEP_MS,
        Option::Some(d) => if d <= now {
            MAX_STEP_MS
        } else if d - now <= MAX_STEP_MS {
            (d - now) as u64
        } else {
            MAX_STEP_MS
        },
    }
}

/// One slice of the bounded receive discipline: at most `MAX_STEP_MS`, and
/// never past a still-open own deadline.
pub fn recv_wait_ms(own: Option<u64>, now: u64) -> (r: u64)
    ensures
        r == recv_wait_spec(own, now),
{
    match own {
        None => MAX_STEP_MS,
        Some(d) => {
            if d <= now {
                MAX_STEP_MS
            } else {
                let remaining = d - now;
                if remaining <= MAX_STEP_MS {
                    remaining
                } else {
                    MAX_STEP_MS
                }
            }
        },
    }
}

/// A traversal of a vector that stops yielding once its token is dead.
pub struct AliveIter<'a, T> {
    /// The token consulted before each element.
    pub alive: &'a Alive,
    /// The elements not yet yielded, front first.
    pub items: Vec<T>,
}

impl<'a, T> AliveIter<'a, T> {
    /// The next element, in order, while the token is alive; `None` once the
    /// elements are exhausted or a liveness check failed. A `None` leaves the
    /// remaining elements in place, so only death or exhaustion ends a
    /// traversal early.
    pub fn next(&mut self) -> (r: Option<T>)
        requires
            old(self).alive.wf(),
        ensures
            final(self).alive == old(self).alive,
            r matches Option::Some(x) ==> old(self).items@.len() > 0 && x == old(self).items@[0]
                && final(self).items@ =~= old(self).items@.drop_first(),
            r is None ==> final(self).items@ =~= old(self).items@,
    {
        if !self.alive.is_alive() {
            return None;
        }
        if self.items.len() == 0 {
            return None;
        }
        let x = self.items.remove(0);
        Some(x)
    }
}

/// A lazy stream of received values that ends when the channel closes or the
/// token dies, polling in bounded steps.
#[verifier::reject_recursive_types(T)]
pub struct RecvIter<'a, T> {
    /// The token consulted before each element and after each quiet poll
    /// interval.
    pub alive: &'a Alive,
    /// The channel end values arrive on.
    pub receiver: &'a std::sync::mpsc::Receiver<T>,
    /// How long one quiet poll waits, in milliseconds.
    pub poll_ms: u64,
}

impl<'a, T> RecvIter<'a, T> {
    /// The next received value; `None` once the channel is closed or the
    /// token has died. Liveness is checked once per element, before the
    /// channel is polled at all, so nothing is yielded after the token is
    /// observed dead — a steady sender cannot keep the stream alive — and
    /// also after each quiet poll interval, so an idle stream ends within one
    /// interval of the token's death. Which branch runs depends on the shared
    /// flags, the sending threads and the clock, so the ensures fix only what
    /// this side holds: the token, channel end and poll interval themselves.
    pub fn next(&mut self) -> (r: Option<T>)
        requires
            old(self).alive.wf(),
        ensures
            final(self).alive == old(self).alive,
            final(self).receiver == old(self).receiver,
            final(self).poll_ms == old(self).poll_ms,
    {
        // As in `Alive::sleep_to`, the round counter only states termination.
        let mut rounds: u64 = u64::MAX;
        while rounds > 0
            invariant
                self.alive.wf(),
                self.alive == old(self).alive,
                self.receiver == old(self).receiver,
                self.poll_ms == old(self).poll_ms,
            decreases rounds,
        {
            rounds -= 1;
            if !self.alive.is_alive() {
                return None;
            }
            match sys::recv_timeout_ms(self.receiver, self.poll_ms) {
                RecvOutcome::Value(v) => {
                    return Some(v);
                },
                RecvOutcome::Closed => {
                    return None;
                },
                RecvOutcome::TimedOut => {},
            }
        }
        None
    }
}

/// The tightest deadline in a chain is at least as tight as any single link's.
pub proof fn lemma_chain_deadline_le_each(s: Seq<AliveNode>, i: int)
    requires
        0 <= i < s.len(),
    ensures
        opt_le(chain_deadline(s), s[i].deadline),
    decreases s.len(),
{
    if i == s.len() - 1 {
        lemma_opt_min_le(s.last().deadline, chain_deadline(s.drop_last()));
    } else {
        lemma_chain_deadline_le_each(s.drop_last(), i);
        lemma_opt_min_le(s.last().deadline, chain_deadline(s.drop_last()));
        lemma_opt_le_trans(
            chain_deadline(s),
            chain_deadline(s.drop_last()),
            s[i].deadline,
        );
    }
}

/// `opt_min` is at least as tight as both of its arguments.
pub proof fn lemma_opt_min_le(a: Option<u64>, b: Option<u64>)
    ensures
        opt_le(opt_min(a, b), a),
        opt_le(opt_min(a, b), b),
{
}

/// Tightness of deadlines is transitive.
pub proof fn lemma_opt_le_trans(a: Option<u64>, b: Option<u64>, c: Option<u64>)
    requires
        opt_le(a, b),
        opt_le(b, c),
    ensures
        opt_le(a, c),
{
}

/// Appending a link whose deadline already is the chain's last deadline does
/// not change the effective deadline.
proof fn lemma_chain_deadline_last_absorbed(s: Seq<AliveNode>)
    requires
        s.len() >= 2,
        s.last().deadline == s[s.len() - 2].deadline,
    ensures
        chain_deadline(s) == chain_deadline(s.drop_last()),
{
    let t = s.drop_last();
    assert(t.last() == s[s.len() - 2]);
    lemma_chain_deadline_le_each(t, t.len() - 1);
    lemma_opt_min_absorb(s.last().deadline, chain_deadline(t));
}

/// Tightening by a bound that is already no tighter changes nothing.
proof fn lemma_opt_min_absorb(a: Option<u64>, b: Option<u64>)
    requires
        opt_le(b, a),
    ensures
        opt_min(a, b) == b,
{
}

/// A prefix of a chain never has a tighter effective deadline than the whole:
/// a descendant's effective deadline is at least as tight as every ancestor's.
pub proof fn lemma_chain_deadline_prefix(s: Seq<AliveNode>, k: int)
    requires
        0 <= k <= s.len(),
    ensures
        opt_le(chain_deadline(s), chain_deadline(s.subrange(0, k))),
    decreases s.len() - k,
{
    if k == s.len() {
        assert(s.subrange(0, k) =~= s);
    } else {
        lemma_chain_deadline_prefix(s.drop_last(), k);
        assert(s.drop_last().subrange(0, k) =~= s.subrange(0, k));
        lemma_opt_min_le(s.last().deadline, chain_deadline(s.drop_last()));
        lemma_opt_le_trans(
            chain_deadline(s),
            chain_deadline(s.drop_last()),
            chain_deadline(s.subrange(0, k)),
        );
    }
}

/// For any chain of forks, a descendant's effective deadline is at least as
/// tight as every ancestor's effective deadline.
pub proof fn lemma_descendant_deadline(child: Alive, anc: Alive)
    requires
        child.extends(anc),
    ensures
        opt_le(child.eff_deadline(), anc.eff_deadline()),
{
    lemma_chain_deadline_prefix(child.chain@, anc.chain@.len() as int);
    assert(child.chain@.subrange(0, anc.chain@.len() as int) =~= anc.chain@);
}

/// A lock-free event counter shared by handle duplication.
pub struct Counter {
    /// The shared cell holding the count.
    pub cell: Arc<AtomicUsize>,
}

impl Counter {
    /// A fresh counter starting at zero.
    pub fn new() -> Counter {
        Counter { cell: Arc::new(AtomicUsize::new(0)) }
    }

    /// Adds one event, wrapping on overflow. Other holders of the same
    /// counter may add concurrently, so no count is promised.
    pub fn add(&self) {
        self.cell.fetch_add(1, Ordering::SeqCst);
    }

    /// Takes the count accumulated so far, resetting it to zero.
    pub fn take(&self) -> usize {
        self.cell.swap(0, Ordering::SeqCst)
    }
}

impl Clone for Counter {
    /// The copy shares the same cell: both handles count together.
    fn clone(&self) -> (r: Counter)
        ensures
            r == *self,
    {
        Counter { cell: sys::arc_clone(&self.cell) }
    }
}

/// A drained reading of an `AvgCounter`: how many spans were recorded and the
/// sum of their lengths in milliseconds.
pub struct AvgCounterResult {
    /// How many spans were recorded.
    pub cnt: usize,
    /// The sum of the recorded span lengths, in milliseconds.
    pub total_ms: u64,
}

impl AvgCounterResult {
    /// An empty reading.
    pub fn new() -> (r: AvgCounterResult)
        ensures
            r.cnt == 0,
            r.total_ms == 0,
    {
        AvgCounterResult { cnt: 0, total_ms: 0 }
    }
}

/// A pair of shared counters tracking how many timed spans completed and how
/// long they took altogether.
pub struct AvgCounter {
    /// How many spans completed.
    pub cnt: Arc<AtomicUsize>,
    /// Total span time in milliseconds.
    pub ms: Arc<AtomicUsize>,
}

impl AvgCounter {
    /// Fresh counters starting at zero.
    pub fn new() -> AvgCounter {
        AvgCounter { cnt: Arc::new(AtomicUsize::new(0)), ms: Arc::new(AtomicUsize::new(0)) }
    }

    /// Drains both counters into a reading, resetting them to zero. Other
    /// holders may record concurrently, so no values are promised.
    pub fn take(&self) -> AvgCounterResult {
        let cnt = self.cnt.swap(0, Ordering::SeqCst);
        let total = self.ms.swap(0, Ordering::SeqCst);
        AvgCounterResult { cnt, total_ms: total as u64 }
    }

    /// Opens a timed span; the guard's `finish` records it. A guard dropped
    /// without `finish` records nothing.
    pub fn place(&self) -> AvgCounterGuard {
        AvgCounterGuard { owner: self.clone(), started: sys::instant_now() }
    }
}

impl Clone for AvgCounter {
    /// The copy shares both cells: both handles record together.
    fn clone(&self) -> (r: AvgCounter)
        ensures
            r == *self,
    {
        AvgCounter { cnt: sys::arc_clone(&self.cnt), ms: sys::arc_clone(&self.ms) }
    }
}

/// An open timed span of an `AvgCounter`.
pub struct AvgCounterGuard {
    /// The counter the span reports to.
    pub owner: AvgCounter,
    /// The monotonic instant the span opened at.
    pub started: std::time::Instant,
}

impl AvgCounterGuard {
    /// Closes the span: adds one to the count and the span's length to the
    /// total, both wrapping on overflow.
    pub fn finish(self) {
        let elapsed = sys::elapsed_ms(&self.started);
        let capped = if elapsed <= usize::MAX as u64 {
            elapsed as usize
        } else {
            usize::MAX
        };
        self.owner.cnt.fetch_add(1, Ordering::SeqCst);
        self.owner.ms.fetch_add(capped, Ordering::SeqCst);
    }
}

/// A started span of work and the length past which it counts as slow.
/// Reporting happens through `finish` (or `slow_at`); a span dropped without
/// either reports nothing.
pub struct Slowlog<'a> {
    /// What the span is called where it is reported.
    pub tag: &'a str,
    /// The monotonic instant the span started at.
    pub started: std::time::Instant,
    /// The span length, in milliseconds, past which the span is slow.
    pub limit_ms: u64,
}

impl<'a> Slowlog<'a> {
    /// Opens a span named `tag` that counts as slow past `limit_ms`
    /// milliseconds, started at the clock's current reading.
    pub fn new(tag: &'a str, limit_ms: u64) -> (r: Slowlog<'a>)
        ensures
            r.tag == tag,
            r.limit_ms == limit_ms,
    {
        Slowlog { tag, started: sys::instant_now(), limit_ms }
    }

    /// `new`, with the threshold given as whole milliseconds.
    pub fn new_ms(tag: &'a str, limit_ms: u64) -> (r: Slowlog<'a>)
        ensures
            r.tag == tag,
            r.limit_ms == limit_ms,
    {
        Slowlog::new(tag, limit_ms)
    }

    /// Whether a span that has run `elapsed_ms` milliseconds has outlived
    /// its threshold.
    pub fn slow_at(&self, elapsed_ms: u64) -> (r: bool)
        ensures
            r == (elapsed_ms > self.limit_ms),
    {
        elapsed_ms > self.limit_ms
    }

    /// Closes the span: whether it outlived its threshold, by the monotonic
    /// clock's reading. The reading belongs to the machine; `slow_at` carries
    /// the exact rule applied to it.
    pub fn finish(self) -> bool {
        let elapsed = sys::elapsed_ms(&self.started);
        self.slow_at(elapsed)
    }
}

/// Assigns dense indexes to values in order of first appearance.
pub struct ItemIndexer<T> {
    /// The values seen so far; a value's index is its position here.
    pub items: Vec<T>,
}

impl<T: Clone + PartialEq + vstd::std_specs::cmp::PartialEqSpec> ItemIndexer<T> {
    /// An indexer that has seen nothing.
    pub fn new() -> (r: ItemIndexer<T>)
        ensures
            r.items@.len() == 0,
    {
        ItemIndexer { items: Vec::new() }
    }

    /// The index of `item`: its position among the values seen so far, or a
    /// fresh index (the old count) when it is new, recording a copy of it.
    pub fn index(&mut self, item: &T) -> (r: usize)
        requires
            T::obeys_eq_spec(),
            forall|a: T, b: T| #[trigger] a.eq_spec(&b) <==> a == b,
        ensures
            crate::scan::find_first(old(self).items@, |x: T| x == *item) < old(self).items@.len()
                ==> {
                &&& r == crate::scan::find_first(old(self).items@, |x: T| x == *item)
                &&& final(self).items@ =~= old(self).items@
            },
            crate::scan::find_first(old(self).items@, |x: T| x == *item) == old(self).items@.len()
                ==> {
                &&& r == old(self).items@.len()
                &&& final(self).items@.len() == old(self).items@.len() + 1
                &&& final(self).items@.drop_last() =~= old(self).items@
                &&& vstd::pervasive::cloned::<T>(*item, final(self).items@.last())
            },
    {
        let ghost p = |x: T| x == *item;
        let mut i: usize = 0;
        while i < self.items.len()
            invariant
                0 <= i <= self.items@.len(),
                forall|j: int| 0 <= j < i ==> !p(#[trigger] self.items@[j]),
                T::obeys_eq_spec(),
                forall|a: T, b: T| #[trigger] a.eq_spec(&b) <==> a == b,
                p == (|x: T| x == *item),
            decreases self.items@.len() - i,
        {
            if self.items[i] == *item {
                proof {
                    crate::scan::lemma_find_first(self.items@, p, i as int);
                }
                return i;
            }
            i += 1;
        }
        proof {
            crate::scan::lemma_find_first(self.items@, p, self.items@.len() as int);
        }
        let n = self.items.len();
        self.items.push(item.clone());
        proof {
            assert(final(self).items@.drop_last() =~= old(self).items@);
        }
        n
    }
}

} // verus!
