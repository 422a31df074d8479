//! A finite key/value table: the model of a contract's storage mapping.
//!
//! Entries are kept in a vector with distinct keys; the table's model is the
//! `Map` of the keys that were ever written to their latest values.
use vstd::prelude::*;

use crate::address::Address;
use crate::word::U256;

verus! {

/// Keys whose equality can be decided at run time.
pub trait TableKey: Copy + Sized {
    /// Whether two keys are equal.
    fn same_key(&self, other: &Self) -> (r: bool)
        ensures
            r == (*self == *other),
    ;
}

impl TableKey for Address {
    fn same_key(&self, other: &Self) -> (r: bool) {
        self.same(other)
    }
}

impl TableKey for U256 {
    fn same_key(&self, other: &Self) -> (r: bool) {
        self.same(other)
    }
}

/// The value stored under `k` in a list of entries, the last entry winning.
pub open spec fn seq_lookup<K, V>(s: Seq<(K, V)>, k: K) -> Option<V>
    decreases s.len(),
{
    if s.len() == 0 {
        None
    } else if s.last().0 == k {
        Some(s.last().1)
    } else {
        seq_lookup(s.drop_last(), k)
    }
}

/// No key occurs twice in the list.
pub open spec fn keys_distinct<K, V>(s: Seq<(K, V)>) -> bool {
    forall|i: int, j: int| 0 <= i < j < s.len() ==> #[trigger] s[i].0 != #[trigger] s[j].0
}

proof fn lemma_lookup_push<K, V>(s: Seq<(K, V)>, k: K, v: V, k2: K)
    ensures
        seq_lookup(s.push((k, v)), k2) == (if k == k2 { Some(v) } else { seq_lookup(s, k2) }),
{
    assert(s.push((k, v)).drop_last() =~= s);
}

proof fn lemma_lookup_absent<K, V>(s: Seq<(K, V)>, k: K)
    requires
        forall|i: int| 0 <= i < s.len() ==> #[trigger] s[i].0 != k,
    ensures
        seq_lookup(s, k) is None,
    decreases s.len(),
{
    if s.len() > 0 {
        assert(s.last().0 != k) by {
            assert(s[s.len() - 1].0 != k);
        }
        lemma_lookup_absent(s.drop_last(), k);
    }
}

proof fn lemma_lookup_present<K, V>(s: Seq<(K, V)>, i: int, k: K)
    requires
        keys_distinct(s),
        0 <= i < s.len(),
        s[i].0 == k,
    ensures
        seq_lookup(s, k) == Some(s[i].1),
    decreases s.len(),
{
    if i < s.len() - 1 {
        assert(s[i].0 != s[s.len() - 1].0);
        lemma_lookup_present(s.drop_last(), i, k);
    }
}

proof fn lemma_lookup_update_other<K, V>(s: Seq<(K, V)>, i: int, k: K, v: V, k2: K)
    requires
        0 <= i < s.len(),
        s[i].0 == k,
        k2 != k,
    ensures
        seq_lookup(s.update(i, (k, v)), k2) == seq_lookup(s, k2),
    decreases s.len(),
{
    let u = s.update(i, (k, v));
    if i == s.len() - 1 {
        assert(u.drop_last() =~= s.drop_last());
    } else {
        assert(u.drop_last() =~= s.drop_last().update(i, (k, v)));
        lemma_lookup_update_other(s.drop_last(), i, k, v, k2);
    }
}

/// A finite table from keys to values.
#[verifier::reject_recursive_types(K)]
#[verifier::reject_recursive_types(V)]
pub struct Table<K, V> {
    entries: Vec<(K, V)>,
}

impl<K: TableKey, V: Copy> Table<K, V> {
    /// Well-formedness: no key is stored twice.
    pub closed spec fn wf(self) -> bool {
        keys_distinct(self.entries@)
    }

    /// The stored value of a key, if it was ever written.
    pub closed spec fn lookup(self, k: K) -> Option<V> {
        seq_lookup(self.entries@, k)
    }

    /// The table as a map from the keys written to their values.
    pub open spec fn view(self) -> Map<K, V> {
        Map::new(|k: K| self.lookup(k) is Some, |k: K| self.lookup(k)->0)
    }

    /// The value of `k`, or `default` where `k` was never written.
    pub open spec fn get_or(self, k: K, default: V) -> V {
        if self.view().contains_key(k) {
            self.view()[k]
        } else {
            default
        }
    }

    /// A table holds finitely many keys, at most as many as fit in a `usize`.
    pub proof fn lemma_dom_bounded(self)
        requires
            self.wf(),
        ensures
            self.view().dom().finite(),
            self.view().dom().len() <= usize::MAX,
    {
        let keys = self.entries@.map_values(|e: (K, V)| e.0);
        assert forall|k: K| #[trigger] self.view().dom().contains(k) implies keys.to_set().contains(k) by {
            if forall|i: int| 0 <= i < self.entries@.len() ==> #[trigger] self.entries@[i].0 != k {
                lemma_lookup_absent(self.entries@, k);
            } else {
                let i = choose|i: int| 0 <= i < self.entries@.len() && #[trigger] self.entries@[i].0 == k;
                assert(keys[i] == k);
                assert(keys.contains(k));
            }
        }
        keys.lemma_cardinality_of_set();
        vstd::set_lib::lemma_len_subset(self.view().dom(), keys.to_set());
        assert(self.entries.len() == self.entries@.len());
    }

    /// An empty table.
    pub fn new() -> (r: Table<K, V>)
        ensures
            r.wf(),
            r.view() == Map::<K, V>::empty(),
    {
        let r = Table { entries: Vec::new() };
        assert(r.view() =~= Map::<K, V>::empty());
        r
    }

    /// The value of `k`, if it was written.
    pub fn get(&self, k: &K) -> (r: Option<V>)
        requires
            self.wf(),
        ensures
            self.view().contains_key(*k) ==> r == Some(self.view()[*k]),
            !self.view().contains_key(*k) ==> r is None,
    {
        let n = self.entries.len();
        let mut i: usize = 0;
        while i < n
            invariant
                n == self.entries@.len(),
                0 <= i <= n,
                self.wf(),
                forall|j: int| 0 <= j < i ==> #[trigger] self.entries@[j].0 != *k,
            decreases n - i,
        {
            let e = self.entries[i];
            if e.0.same_key(k) {
                proof {
                    lemma_lookup_present(self.entries@, i as int, *k);
                }
                return Some(e.1);
            }
            i = i + 1;
        }
        proof {
            lemma_lookup_absent(self.entries@, *k);
        }
        None
    }

    /// Writes `v` under `k`.
    pub fn set(&mut self, k: K, v: V)
        requires
            old(self).wf(),
        ensures
            final(self).wf(),
            final(self).view() == old(self).view().insert(k, v),
    {
        let n = self.entries.len();
        let mut i: usize = 0;
        while i < n
            invariant
                n == self.entries@.len(),
                0 <= i <= n,
                self.wf(),
                self.entries@ == old(self).entries@,
                forall|j: int| 0 <= j < i ==> #[trigger] self.entries@[j].0 != k,
            decreases n - i,
        {
            let e = self.entries[i];
            if e.0.same_key(&k) {
                let ghost s = self.entries@;
                self.entries.set(i, (k, v));
                proof {
                    let u = self.entries@;
                    assert(u == s.update(i as int, (k, v)));
                    assert(keys_distinct(u)) by {
                        assert forall|a: int, b: int| 0 <= a < b < u.len() implies
                            #[trigger] u[a].0 != #[trigger] u[b].0 by {
                            assert(s[a].0 != s[b].0);
                        }
                    }
                    assert forall|k2: K| #[trigger] seq_lookup(u, k2) == (if k2 == k {
                        Some(v)
                    } else {
                        seq_lookup(s, k2)
                    }) by {
                        if k2 == k {
                            lemma_lookup_present(u, i as int, k);
                        } else {
                            lemma_lookup_update_other(s, i as int, k, v, k2);
                        }
                    }
                    assert(self.view() =~= old(self).view().insert(k, v));
                }
                return;
            }
            i = i + 1;
        }
        let ghost s = self.entries@;
        self.entries.push((k, v));
        proof {
            let u = self.entries@;
            assert(u == s.push((k, v)));
            assert(keys_distinct(u)) by {
                assert forall|a: int, b: int| 0 <= a < b < u.len() implies
                    #[trigger] u[a].0 != #[trigger] u[b].0 by {
                    if b == s.len() {
                        assert(s[a].0 != k);
                    } else {
                        assert(s[a].0 != s[b].0);
                    }
                }
            }
            assert forall|k2: K| #[trigger] seq_lookup(u, k2) == (if k2 == k {
                Some(v)
            } else {
                seq_lookup(s, k2)
            }) by {
                lemma_lookup_push(s, k, v, k2);
            }
            assert(self.view() =~= old(self).view().insert(k, v));
        }
    }
}

} // verus!
