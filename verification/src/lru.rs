//! A bounded map with least-recently-used eviction. Entries live in a vector
//! ordered by recency (least recent first); a lookup that counts as a use
//! moves its entry to the back, and an insert past the capacity evicts from
//! the front.

use vstd::prelude::*;

verus! {

/// The first position of `s` whose key is `k`, or `s.len()` if none is.
pub open spec fn find_key<K, V>(s: Seq<(K, V)>, k: K) -> int
    decreases s.len(),
{
    if s.len() == 0 {
        0
    } else if s[0].0 == k {
        0
    } else {
        1 + find_key(s.drop_first(), k)
    }
}

/// Some entry of `s` has key `k`.
pub open spec fn contains_spec<K, V>(s: Seq<(K, V)>, k: K) -> bool {
    exists|i: int| 0 <= i < s.len() && s[i].0 == k
}

/// The value stored under `k`, if any.
pub open spec fn get_spec<K, V>(s: Seq<(K, V)>, k: K) -> Option<V> {
    if contains_spec(s, k) {
        Option::Some(s[find_key(s, k)].1)
    } else {
        Option::None
    }
}

/// No two entries share a key.
pub open spec fn distinct_keys<K, V>(s: Seq<(K, V)>) -> bool {
    forall|i: int, j: int| 0 <= i < j < s.len() ==> s[i].0 != s[j].0
}

/// What one insert does to the entry list, and what it gives back. A present
/// key only refreshes its entry's recency — the stored value stays and
/// nothing is evicted. A new entry goes to the back, and if the capacity is
/// now exceeded the front entry is evicted and its value returned (with
/// capacity zero that is the new entry itself).
pub open spec fn insert_result<K, V>(s: Seq<(K, V)>, limit: int, k: K, v: V) -> (Seq<(K, V)>,
    Option<V>) {
    if contains_spec(s, k) {
        let i = find_key(s, k);
        (s.remove(i).push(s[i]), Option::None)
    } else if s.len() + 1 <= limit {
        (s.push((k, v)), Option::None)
    } else {
        let t = s.push((k, v));
        (t.drop_first(), Option::Some(t[0].1))
    }
}

/// Inserting each of `items` in order: the final entry list and the evicted
/// values, oldest first.
pub open spec fn fold_insert<K, V>(s: Seq<(K, V)>, limit: int, items: Seq<(K, V)>) -> (Seq<(K, V)>,
    Seq<V>)
    decreases items.len(),
{
    if items.len() == 0 {
        (s, Seq::<V>::empty())
    } else {
        let step = insert_result(s, limit, items[0].0, items[0].1);
        let rest = fold_insert(step.0, limit, items.drop_first());
        (
            rest.0,
            match step.1 {
                Option::Some(v) => seq![v] + rest.1,
                Option::None => rest.1,
            },
        )
    }
}

/// Exec equality on keys agrees with logical equality.
pub open spec fn keys_structural<K: PartialEq + vstd::std_specs::cmp::PartialEqSpec>() -> bool {
    &&& K::obeys_eq_spec()
    &&& forall|a: K, b: K| #[trigger] a.eq_spec(&b) <==> a == b
}

/// A left-to-right scan that stopped at `i` found the first entry keyed `k`.
proof fn lemma_find_key<K, V>(s: Seq<(K, V)>, k: K, i: int)
    requires
        0 <= i <= s.len(),
        forall|j: int| 0 <= j < i ==> s[j].0 != k,
        i < s.len() ==> s[i].0 == k,
    ensures
        find_key(s, k) == i,
    decreases i, s.len(),
{
    if s.len() == 0 {
    } else if i == 0 {
    } else {
        let t = s.drop_first();
        assert(forall|j: int| 0 <= j < i - 1 ==> t[j] == s[j + 1] && s[j + 1].0 != k);
        if i - 1 < t.len() {
            assert(t[i - 1] == s[i]);
        }
        lemma_find_key(t, k, i - 1);
    }
}

/// Moving an entry to the back keeps the keys distinct.
proof fn lemma_distinct_refresh<K, V>(s: Seq<(K, V)>, i: int)
    requires
        distinct_keys(s),
        0 <= i < s.len(),
    ensures
        distinct_keys(s.remove(i).push(s[i])),
{
    let t = s.remove(i).push(s[i]);
    s.remove_ensures(i);
    assert forall|p: int, q: int| 0 <= p < q < t.len() implies t[p].0 != t[q].0 by {
        if q == t.len() - 1 {
            assert(t[q] == s[i]);
            if p < i {
                assert(t[p] == s[p]);
            } else {
                assert(t[p] == s[p + 1]);
            }
        } else {
            if p < i {
                assert(t[p] == s[p]);
            } else {
                assert(t[p] == s[p + 1]);
            }
            if q < i {
                assert(t[q] == s[q]);
            } else {
                assert(t[q] == s[q + 1]);
            }
        }
    }
}

/// A bounded map with least-recently-used eviction.
pub struct LruMap<K, V> {
    /// The entries, least recently used first.
    pub entries: Vec<(K, V)>,
    /// How many entries the map may hold.
    pub limit: usize,
}

impl<K: PartialEq + vstd::std_specs::cmp::PartialEqSpec, V> LruMap<K, V> {
    /// Keys are distinct and the capacity is respected.
    pub open spec fn wf(self) -> bool {
        &&& distinct_keys(self.entries@)
        &&& self.entries@.len() <= self.limit
    }

    /// An empty map holding at most `limit` entries.
    pub fn new(limit: usize) -> (r: LruMap<K, V>)
        ensures
            r.wf(),
            r.entries@.len() == 0,
            r.limit == limit,
    {
        LruMap { entries: Vec::new(), limit }
    }

    /// Drops every entry; the capacity stays.
    pub fn clear(&mut self)
        ensures
            final(self).wf(),
            final(self).entries@.len() == 0,
            final(self).limit == old(self).limit,
    {
        self.entries.clear();
    }

    /// How many entries the map holds.
    pub fn len(&self) -> (r: usize)
        ensures
            r == self.entries@.len(),
    {
        self.entries.len()
    }

    /// The position of `k`'s entry, or the entry count if `k` is absent.
    fn scan(&self, k: &K) -> (r: usize)
        requires
            keys_structural::<K>(),
        ensures
            r == find_key(self.entries@, *k),
            r <= self.entries@.len(),
            (r < self.entries@.len()) == contains_spec(self.entries@, *k),
            r < self.entries@.len() ==> self.entries@[r as int].0 == *k,
    {
        let mut i: usize = 0;
        while i < self.entries.len()
            invariant
                keys_structural::<K>(),
                0 <= i <= self.entries@.len(),
                forall|j: int| 0 <= j < i ==> self.entries@[j].0 != *k,
            decreases self.entries@.len() - i,
        {
            if self.entries[i].0 == *k {
                proof {
                    lemma_find_key(self.entries@, *k, i as int);
                }
                return i;
            }
            i += 1;
        }
        proof {
            lemma_find_key(self.entries@, *k, self.entries@.len() as int);
        }
        i
    }

    /// Whether an entry with key `k` is present; recency is not touched.
    pub fn contains_key(&self, k: &K) -> (r: bool)
        requires
            keys_structural::<K>(),
        ensures
            r == contains_spec(self.entries@, *k),
    {
        let i = self.scan(k);
        i < self.entries.len()
    }

    /// The value under `k` without counting as a use: recency is not touched.
    pub fn peek(&self, k: &K) -> (r: Option<&V>)
        requires
            keys_structural::<K>(),
        ensures
            r is Some <==> contains_spec(self.entries@, *k),
            r matches Option::Some(v) ==> get_spec(self.entries@, *k) == Option::Some(*v),
    {
        let i = self.scan(k);
        if i < self.entries.len() {
            Some(&self.entries[i].1)
        } else {
            None
        }
    }

    /// Replaces the value under `k` without touching its recency; reports
    /// whether the key was present (an absent key stores nothing). The caller
    /// hands in the new value outright — the map never hands out a mutable
    /// reference into its own storage.
    pub fn modify(&mut self, k: &K, v: V) -> (r: bool)
        requires
            keys_structural::<K>(),
            old(self).wf(),
        ensures
            final(self).wf(),
            final(self).limit == old(self).limit,
            r == contains_spec(old(self).entries@, *k),
            !r ==> final(self).entries@ =~= old(self).entries@,
            r ==> final(self).entries@ =~= old(self).entries@.update(
                find_key(old(self).entries@, *k),
                (old(self).entries@[find_key(old(self).entries@, *k)].0, v),
            ),
    {
        let i = self.scan(k);
        if i < self.entries.len() {
            let e = self.entries.remove(i);
            self.entries.insert(i, (e.0, v));
            proof {
                let s = old(self).entries@;
                let t = s.update(i as int, (s[i as int].0, v));
                assert(final(self).entries@ =~= t);
                assert forall|p: int, q: int| 0 <= p < q < t.len() implies t[p].0 != t[q].0 by {
                    assert(s[p].0 != s[q].0);
                }
            }
            true
        } else {
            false
        }
    }

    /// The value under `k`, counting as a use: the entry moves to the back
    /// (most recent), and a reference to its value is returned.
    pub fn get(&mut self, k: &K) -> (r: Option<&V>)
        requires
            keys_structural::<K>(),
            old(self).wf(),
        ensures
            final(self).wf(),
            final(self).limit == old(self).limit,
            r is Some <==> contains_spec(old(self).entries@, *k),
            r is None ==> final(self).entries@ =~= old(self).entries@,
            r matches Option::Some(v) ==> {
                let s = old(self).entries@;
                let i = find_key(s, *k);
                &&& get_spec(s, *k) == Option::Some(*v)
                &&& final(self).entries@ =~= s.remove(i).push(s[i])
            },
    {
        let i = self.scan(k);
        if i < self.entries.len() {
            let e = self.entries.remove(i);
            self.entries.push(e);
            proof {
                lemma_distinct_refresh(old(self).entries@, i as int);
                let s = old(self).entries@;
                assert(final(self).entries@ =~= s.remove(i as int).push(s[i as int]));
            }
            let last = self.entries.len() - 1;
            Some(&self.entries[last].1)
        } else {
            None
        }
    }

    /// Inserts `v` under `k`, as `insert_result` describes: a present key is
    /// only refreshed (its stored value stays), a new entry may evict the
    /// least recently used one, whose value is returned.
    pub fn insert(&mut self, k: K, v: V) -> (r: Option<V>)
        requires
            keys_structural::<K>(),
            old(self).wf(),
        ensures
            final(self).wf(),
            final(self).limit == old(self).limit,
            final(self).entries@ =~= insert_result(old(self).entries@, old(self).limit as int, k, v).0,
            r == insert_result(old(self).entries@, old(self).limit as int, k, v).1,
    {
        let ghost s = old(self).entries@;
        let i = self.scan(&k);
        if i < self.entries.len() {
            let e = self.entries.remove(i);
            self.entries.push(e);
            proof {
                lemma_distinct_refresh(s, i as int);
                assert(final(self).entries@ =~= s.remove(i as int).push(s[i as int]));
            }
            None
        } else {
            self.entries.push((k, v));
            proof {
                let t = s.push((k, v));
                assert forall|p: int, q: int| 0 <= p < q < t.len() implies t[p].0 != t[q].0 by {
                    if q == t.len() - 1 {
                        assert(t[p] == s[p] && t[q].0 == k);
                    } else {
                        assert(t[p] == s[p] && t[q] == s[q]);
                    }
                }
            }
            if self.entries.len() > self.limit {
                let e = self.entries.remove(0);
                proof {
                    let t = s.push((k, v));
                    t.remove_ensures(0);
                    assert(final(self).entries@ =~= t.drop_first());
                    assert(distinct_keys(t.drop_first()));
                }
                Some(e.1)
            } else {
                None
            }
        }
    }

    /// Removes `k`'s entry and gives its value back.
    pub fn remove(&mut self, k: &K) -> (r: Option<V>)
        requires
            keys_structural::<K>(),
            old(self).wf(),
        ensures
            final(self).wf(),
            final(self).limit == old(self).limit,
            r is None <==> !contains_spec(old(self).entries@, *k),
            r is None ==> final(self).entries@ =~= old(self).entries@,
            r matches Option::Some(v) ==> {
                let s = old(self).entries@;
                let i = find_key(s, *k);
                &&& Option::Some(v) == get_spec(s, *k)
                &&& final(self).entries@ =~= s.remove(i)
            },
    {
        let i = self.scan(k);
        if i < self.entries.len() {
            let e = self.entries.remove(i);
            proof {
                let s = old(self).entries@;
                s.remove_ensures(i as int);
                assert(distinct_keys(s.remove(i as int)));
            }
            Some(e.1)
        } else {
            None
        }
    }

    /// Inserts each of `items` in order and collects the evicted values,
    /// oldest first, as `fold_insert` describes.
    pub fn append(&mut self, items: Vec<(K, V)>) -> (r: Vec<V>)
        requires
            keys_structural::<K>(),
            old(self).wf(),
        ensures
            final(self).wf(),
            final(self).limit == old(self).limit,
            final(self).entries@ =~= fold_insert(
                old(self).entries@,
                old(self).limit as int,
                items@,
            ).0,
            r@ =~= fold_insert(old(self).entries@, old(self).limit as int, items@).1,
    {
        let ghost all = items@;
        let ghost lim = old(self).limit as int;
        let ghost full = fold_insert(old(self).entries@, lim, all);
        let mut items = items;
        let mut outs: Vec<V> = Vec::new();
        let ghost mut i: int = 0;
        while items.len() > 0
            invariant
                keys_structural::<K>(),
                self.wf(),
                self.limit == old(self).limit,
                lim == self.limit as int,
                0 <= i <= all.len(),
                items@ =~= all.skip(i),
                full == fold_insert(old(self).entries@, lim, all),
                fold_insert(self.entries@, lim, all.skip(i)).0 =~= full.0,
                outs@ + fold_insert(self.entries@, lim, all.skip(i)).1 =~= full.1,
            decreases items@.len(),
        {
            let ghost before = self.entries@;
            let ghost rem = all.skip(i);
            let (k, v) = items.remove(0);
            let out = self.insert(k, v);
            proof {
                assert(rem[0] == (k, v));
                assert(rem.drop_first() =~= all.skip(i + 1));
                assert(items@ =~= all.skip(i + 1));
                let step = insert_result(before, lim, k, v);
                assert(self.entries@ =~= step.0);
                assert(fold_insert(before, lim, rem).0 =~= fold_insert(
                    step.0,
                    lim,
                    rem.drop_first(),
                ).0);
                assert(fold_insert(self.entries@, lim, all.skip(i + 1)).0 =~= full.0);
            }
            match out {
                Some(x) => {
                    outs.push(x);
                    proof {
                        let step = insert_result(before, lim, k, v);
                        let rest = fold_insert(step.0, lim, rem.drop_first());
                        assert(fold_insert(before, lim, rem).1 =~= seq![x] + rest.1);
                        assert(outs@ + rest.1 =~= full.1);
                    }
                },
                None => {
                    proof {
                        let step = insert_result(before, lim, k, v);
                        let rest = fold_insert(step.0, lim, rem.drop_first());
                        assert(fold_insert(before, lim, rem).1 =~= rest.1);
                    }
                },
            }
            proof {
                i = i + 1;
            }
        }
        proof {
            assert(i == all.len());
            assert(all.skip(i).len() == 0);
        }
        outs
    }
}

} // verus!
