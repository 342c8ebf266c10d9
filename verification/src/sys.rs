//! The trusted boundary around the platform: the clock, a bounded blocking
//! pause, shared-handle duplication, and the standard multi-producer channels.
//! Everything else in the crate is verified against the contracts given here.

use vstd::prelude::*;

verus! {

/// What one send into an unbounded channel came to.
pub enum SendOutcome<T> {
    /// The value was queued for the receiver.
    Sent,
    /// The receiver is gone; the undelivered value comes back.
    Closed(T),
}

/// What one non-blocking send into a bounded channel came to.
pub enum TrySendOutcome<T> {
    /// The value was placed into a free slot.
    Accepted,
    /// Every slot was occupied; the value comes back.
    Full(T),
    /// The receiver is gone; the value comes back.
    Closed(T),
}

/// What one bounded-time receive came to.
pub enum RecvOutcome<T> {
    /// A value arrived within the allotted time.
    Value(T),
    /// The time ran out with no value available.
    TimedOut,
    /// No sender is left, and the queue is drained: nothing will ever arrive.
    Closed,
}

#[verifier::external_type_specification]
#[verifier::external_body]
#[verifier::reject_recursive_types(T)]
pub struct ExSender<T>(std::sync::mpsc::Sender<T>);

#[verifier::external_type_specification]
#[verifier::external_body]
#[verifier::reject_recursive_types(T)]
pub struct ExSyncSender<T>(std::sync::mpsc::SyncSender<T>);

#[verifier::external_type_specification]
#[verifier::external_body]
#[verifier::reject_recursive_types(T)]
pub struct ExReceiver<T>(std::sync::mpsc::Receiver<T>);

#[verifier::external_type_specification]
#[verifier::external_body]
pub struct ExInstant(std::time::Instant);

/// Relies on `Arc::clone`: the new handle refers to the very same shared
/// value as the old one.
#[verifier::external_body]
pub fn arc_clone<T>(h: &std::sync::Arc<T>) -> (r: std::sync::Arc<T>)
    ensures
        r == *h,
{
    h.clone()
}

/// Relies on `std::time::Instant::now`: a reading of the operating system's
/// monotonic clock, never set back by clock adjustment. Nothing is promised
/// of the value itself.
#[verifier::external_body]
pub fn instant_now() -> std::time::Instant {
    std::time::Instant::now()
}

/// Relies on `Instant::elapsed`, read as whole milliseconds, clamped into
/// `u64`: how long ago `epoch` was on the monotonic clock. std documents
/// `Instant` as nondecreasing and `elapsed` as total (an earlier `now` reads
/// as zero), so readings against one epoch never run backwards — but no such
/// relation between two calls is expressible here, so nothing is promised of
/// the value.
#[verifier::external_body]
pub fn elapsed_ms(epoch: &std::time::Instant) -> u64 {
    let ms = epoch.elapsed().as_millis();
    if ms > u64::MAX as u128 {
        u64::MAX
    } else {
        ms as u64
    }
}

/// Blocks the calling thread for roughly `ms` milliseconds. Relies on
/// `Receiver::recv_timeout`: a channel whose sender never sends yields
/// `Err(Timeout)` only once the timeout has elapsed.
#[verifier::external_body]
pub fn park_ms(ms: u64) {
    let (keep, gate) = std::sync::mpsc::channel::<()>();
    let _ = gate.recv_timeout(core::time::Duration::from_millis(ms));
    drop(keep);
}

/// Relies on `std::sync::mpsc::channel`: the two ends of a fresh unbounded
/// queue, linked to each other and to nothing else.
#[verifier::external_body]
pub fn unbounded_pair<T>() -> (std::sync::mpsc::Sender<T>, std::sync::mpsc::Receiver<T>) {
    std::sync::mpsc::channel()
}

/// Relies on `std::sync::mpsc::sync_channel`: the two ends of a fresh bounded
/// queue holding at most `cap` values at a time.
#[verifier::external_body]
pub fn bounded_pair<T>(cap: usize) -> (std::sync::mpsc::SyncSender<T>, std::sync::mpsc::Receiver<T>) {
    std::sync::mpsc::sync_channel(cap)
}

/// Relies on `Sender::send`: it fails exactly when the receiver is gone, and
/// the error then carries the undelivered value back unchanged.
#[verifier::external_body]
pub fn send_to<T>(s: &std::sync::mpsc::Sender<T>, t: T) -> (r: SendOutcome<T>)
    ensures
        r matches SendOutcome::Closed(x) ==> x == t,
{
    match s.send(t) {
        Ok(()) => SendOutcome::Sent,
        Err(std::sync::mpsc::SendError(x)) => SendOutcome::Closed(x),
    }
}

/// Relies on `SyncSender::try_send`: it never blocks, and both error variants
/// carry the value back unchanged.
#[verifier::external_body]
pub fn try_send_to<T>(s: &std::sync::mpsc::SyncSender<T>, t: T) -> (r: TrySendOutcome<T>)
    ensures
        r matches TrySendOutcome::Full(x) ==> x == t,
        r matches TrySendOutcome::Closed(x) ==> x == t,
{
    match s.try_send(t) {
        Ok(()) => TrySendOutcome::Accepted,
        Err(std::sync::mpsc::TrySendError::Full(x)) => TrySendOutcome::Full(x),
        Err(std::sync::mpsc::TrySendError::Disconnected(x)) => TrySendOutcome::Closed(x),
    }
}

/// Relies on `Receiver::recv_timeout`. Which outcome comes back depends on
/// other threads, so nothing is promised beyond the shape of the answer.
#[verifier::external_body]
pub fn recv_timeout_ms<T>(r: &std::sync::mpsc::Receiver<T>, ms: u64) -> RecvOutcome<T> {
    match r.recv_timeout(core::time::Duration::from_millis(ms)) {
        Ok(v) => RecvOutcome::Value(v),
        Err(std::sync::mpsc::RecvTimeoutError::Timeout) => RecvOutcome::TimedOut,
        Err(std::sync::mpsc::RecvTimeoutError::Disconnected) => RecvOutcome::Closed,
    }
}

} // verus!
