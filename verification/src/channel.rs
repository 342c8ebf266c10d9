//! The fan-out channel `Boardcast` and the bounded work distributor
//! `Dispatcher`.
//!
//! Both keep an ordered list of subscriber send-ends and prune entries whose
//! receiver is gone. What travels through a channel is visible only to the
//! receiving end, so the contracts here pin down everything that is visible
//! on this side: how the subscriber list evolves (always an order-preserving
//! subsequence of what it was), what the latest-value cell holds, and when a
//! dispatched item comes back to the caller.

use vstd::prelude::*;

use crate::scan::{
    is_subseq_of, lemma_subseq_full, lemma_subseq_map_remove, lemma_subseq_witness, subseq_map_ok,
};
use crate::sys;
use crate::sys::{SendOutcome, TrySendOutcome};

verus! {

/// A multi-subscriber fan-out channel retaining the last broadcast value.
#[verifier::reject_recursive_types(T)]
pub struct Boardcast<T> {
    /// The send-ends of the subscribers, in subscription order.
    pub senders: Vec<std::sync::mpsc::Sender<T>>,
    /// The value most recently broadcast, if any.
    pub latest: Option<T>,
}

impl<T: Clone> Boardcast<T> {
    /// A fan-out channel with no subscribers and nothing broadcast yet.
    pub fn new() -> (r: Boardcast<T>)
        ensures
            r.senders@.len() == 0,
            r.latest is None,
    {
        Boardcast { senders: Vec::new(), latest: None }
    }

    /// A fan-out channel that has already broadcast `t`: no subscribers, and
    /// `t` stored as the latest value.
    pub fn new_with(t: T) -> (r: Boardcast<T>)
        ensures
            r.senders@.len() == 0,
            r.latest matches Option::Some(x) && vstd::pervasive::cloned::<T>(t, x),
    {
        let mut b = Boardcast::new();
        b.boardcast(t);
        b
    }

    /// Registers a new subscriber and hands back its receive-end. The new
    /// channel sees only future broadcasts, never history.
    pub fn new_subscriber(&mut self) -> (r: std::sync::mpsc::Receiver<T>)
        ensures
            final(self).senders@.len() == old(self).senders@.len() + 1,
            final(self).senders@.drop_last() =~= old(self).senders@,
            final(self).latest == old(self).latest,
    {
        let (s, r) = sys::unbounded_pair();
        self.senders.push(s);
        proof {
            assert(final(self).senders@.drop_last() =~= old(self).senders@);
        }
        r
    }

    /// A copy of the last broadcast value, or `None` if nothing was ever
    /// broadcast.
    pub fn get_latest(&self) -> (r: Option<T>)
        ensures
            r is Some <==> self.latest is Some,
            r matches Option::Some(x) ==> (self.latest matches Option::Some(v)
                && vstd::pervasive::cloned::<T>(v, x)),
    {
        match &self.latest {
            None => None,
            Some(v) => Some(v.clone()),
        }
    }

    /// How many subscribers are currently registered.
    pub fn len(&self) -> (r: usize)
        ensures
            r == self.senders@.len(),
    {
        self.senders.len()
    }

    /// Delivers a copy of `item` to every subscriber still connected, in list
    /// order, pruning the ones whose receiver is gone, then stores a copy of
    /// `item` as the latest value unconditionally.
    pub fn boardcast(&mut self, item: T)
        ensures
            is_subseq_of(final(self).senders@, old(self).senders@),
            final(self).senders@.len() <= old(self).senders@.len(),
            final(self).senders@.len() == old(self).senders@.len() ==> final(self).senders@
                =~= old(self).senders@,
            final(self).latest matches Option::Some(x) && vstd::pervasive::cloned::<T>(item, x),
    {
        let ghost orig = self.senders@;
        let ghost mut m: Seq<int> = Seq::new(orig.len(), |i: int| i);
        let mut idx: usize = 0;
        while idx < self.senders.len()
            invariant
                orig =~= old(self).senders@,
                0 <= idx <= self.senders@.len(),
                self.senders@.len() <= orig.len(),
                subseq_map_ok(m, self.senders@, orig),
            decreases self.senders@.len() - idx,
        {
            let copy = item.clone();
            match sys::send_to(&self.senders[idx], copy) {
                SendOutcome::Sent => {
                    idx += 1;
                },
                SendOutcome::Closed(_) => {
                    proof {
                        lemma_subseq_map_remove(m, self.senders@, orig, idx as int);
                        m = m.remove(idx as int);
                    }
                    self.senders.remove(idx);
                },
            }
        }
        let last = item.clone();
        self.latest = Some(last);
        proof {
            lemma_subseq_witness(m, self.senders@, orig);
            if self.senders@.len() == orig.len() {
                lemma_subseq_full(m, self.senders@, orig);
            }
        }
    }

    /// Drops every subscriber registration (each receiver then observes
    /// disconnection) without touching the latest-value cell.
    pub fn clean(&mut self)
        ensures
            final(self).senders@.len() == 0,
            final(self).latest == old(self).latest,
    {
        self.senders.clear();
    }
}

/// A bounded, multi-consumer work distributor: each subscriber holds a slot
/// of capacity one, and dispatch never blocks.
#[verifier::reject_recursive_types(T)]
pub struct Dispatcher<T> {
    /// The send-ends of the subscribers, in subscription order.
    pub senders: Vec<std::sync::mpsc::SyncSender<T>>,
}

impl<T> Dispatcher<T> {
    /// A distributor with no subscribers.
    pub fn new() -> (r: Dispatcher<T>)
        ensures
            r.senders@.len() == 0,
    {
        Dispatcher { senders: Vec::new() }
    }

    /// Registers a consumer and hands back its receive-end; the consumer's
    /// slot holds at most one undrained item at a time.
    pub fn subscribe(&mut self) -> (r: std::sync::mpsc::Receiver<T>)
        ensures
            final(self).senders@.len() == old(self).senders@.len() + 1,
            final(self).senders@.drop_last() =~= old(self).senders@,
    {
        let (s, r) = sys::bounded_pair(1);
        self.senders.push(s);
        proof {
            assert(final(self).senders@.drop_last() =~= old(self).senders@);
        }
        r
    }

    /// Offers `t` to the first subscriber, in list order, that is connected
    /// and has a free slot; never blocks. Returns `None` on acceptance, and
    /// gives `t` back unchanged when every subscriber is full or gone — in
    /// particular always when there are no subscribers. Subscribers found
    /// disconnected are pruned as the scan goes.
    pub fn dispatch(&mut self, t: T) -> (r: Option<T>)
        ensures
            r matches Option::Some(x) ==> x == t,
            old(self).senders@.len() == 0 ==> r == Option::Some(t),
            r is None ==> old(self).senders@.len() > 0,
            is_subseq_of(final(self).senders@, old(self).senders@),
            final(self).senders@.len() <= old(self).senders@.len(),
            final(self).senders@.len() == old(self).senders@.len() ==> final(self).senders@
                =~= old(self).senders@,
    {
        let ghost orig = self.senders@;
        let ghost mut m: Seq<int> = Seq::new(orig.len(), |i: int| i);
        let mut cur = t;
        let mut idx: usize = 0;
        while idx < self.senders.len()
            invariant
                orig =~= old(self).senders@,
                0 <= idx <= self.senders@.len(),
                self.senders@.len() <= orig.len(),
                subseq_map_ok(m, self.senders@, orig),
                cur == t,
            decreases self.senders@.len() - idx, self.senders@.len(),
        {
            match sys::try_send_to(&self.senders[idx], cur) {
                TrySendOutcome::Accepted => {
                    proof {
                        lemma_subseq_witness(m, self.senders@, orig);
                        if self.senders@.len() == orig.len() {
                            lemma_subseq_full(m, self.senders@, orig);
                        }
                    }
                    return None;
                },
                TrySendOutcome::Full(x) => {
                    cur = x;
                    idx += 1;
                },
                TrySendOutcome::Closed(x) => {
                    cur = x;
                    proof {
                        lemma_subseq_map_remove(m, self.senders@, orig, idx as int);
                        m = m.remove(idx as int);
                    }
                    self.senders.remove(idx);
                },
            }
        }
        proof {
            lemma_subseq_witness(m, self.senders@, orig);
            if self.senders@.len() == orig.len() {
                lemma_subseq_full(m, self.senders@, orig);
            }
        }
        Some(cur)
    }
}

} // verus!
