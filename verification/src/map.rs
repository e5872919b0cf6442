//! A map kept as a list of entries with distinct keys.

use vstd::prelude::*;

verus! {

/// A value that can be a key: equality can be tested.
pub trait Key: Sized {
    fn same(&self, other: &Self) -> (same: bool)
        ensures
            same == (*self == *other),
    ;
}

/// A map from `K` to `V`.
pub struct UniqueMap<K: Key, V> {
    entries: Vec<(K, V)>,
}

/// No key occurs twice.
spec fn distinct<K, V>(entries: Seq<(K, V)>) -> bool {
    forall|i: int, j: int|
        0 <= i < j < entries.len() ==> (#[trigger] entries[i]).0 != (#[trigger] entries[j]).0
}

/// The map with these entries.
spec fn entries_map<K, V>(entries: Seq<(K, V)>) -> Map<K, V>
    decreases entries.len(),
{
    if entries.len() == 0 {
        Map::empty()
    } else {
        entries_map(entries.drop_last()).insert(entries.last().0, entries.last().1)
    }
}

proof fn lemma_entries_map<K, V>(entries: Seq<(K, V)>)
    requires
        distinct(entries),
    ensures
        forall|i: int|
            0 <= i < entries.len() ==> entries_map(entries).contains_key((#[trigger] entries[i]).0)
                && entries_map(entries)[entries[i].0] == entries[i].1,
        forall|k: K| #[trigger]
            entries_map(entries).contains_key(k) ==> exists|i: int|
                0 <= i < entries.len() && (#[trigger] entries[i]).0 == k,
    decreases entries.len(),
{
    if entries.len() > 0 {
        let rest = entries.drop_last();
        assert(distinct(rest)) by {
            assert forall|i: int, j: int| 0 <= i < j < rest.len() implies (#[trigger] rest[i]).0 != (
            #[trigger] rest[j]).0 by {
                assert(entries[i].0 != entries[j].0);
            }
        }
        lemma_entries_map(rest);
        let n = entries.len() - 1;
        assert forall|i: int| 0 <= i < entries.len() implies entries_map(entries).contains_key(
            (#[trigger] entries[i]).0,
        ) && entries_map(entries)[entries[i].0] == entries[i].1 by {
            if i < n {
                assert(rest[i] == entries[i]);
                assert(entries[i].0 != entries[n].0);
            }
        }
        assert forall|k: K| #[trigger] entries_map(entries).contains_key(k) implies exists|i: int|
            0 <= i < entries.len() && (#[trigger] entries[i]).0 == k by {
            if k == entries[n].0 {
            } else {
                assert(entries_map(rest).contains_key(k));
                let i = choose|i: int| 0 <= i < rest.len() && (#[trigger] rest[i]).0 == k;
                assert(entries[i].0 == k);
            }
        }
    }
}

/// `kept` holds exactly the entries of `before` from index `n` on whose value
/// satisfies `keep`, and no key twice.
spec fn kept_from<K, V>(
    before: Seq<(K, V)>,
    n: int,
    kept: Seq<(K, V)>,
    keep: spec_fn(V) -> bool,
) -> bool {
    &&& distinct(kept)
    &&& forall|i: int|
        0 <= i < kept.len() ==> keep((#[trigger] kept[i]).1) && occurs_from(before, n, kept[i])
    &&& forall|j: int|
        n <= j < before.len() && keep((#[trigger] before[j]).1) ==> occurs_from(kept, 0, before[j])
}

spec fn occurs_from<T>(s: Seq<T>, n: int, x: T) -> bool {
    exists|j: int| n <= j < s.len() && #[trigger] s[j] == x
}

proof fn lemma_kept_step<K, V>(
    before: Seq<(K, V)>,
    n: int,
    prior: Seq<(K, V)>,
    kept: Seq<(K, V)>,
    keep: spec_fn(V) -> bool,
)
    requires
        distinct(before),
        0 <= n < before.len(),
        kept_from(before, n + 1, prior, keep),
        kept == (if keep(before[n].1) {
            prior.push(before[n])
        } else {
            prior
        }),
    ensures
        kept_from(before, n, kept, keep),
{
    assert forall|i: int| 0 <= i < kept.len() implies keep((#[trigger] kept[i]).1) && occurs_from(
        before,
        n,
        kept[i],
    ) by {
        if i < prior.len() {
            assert(kept[i] == prior[i]);
            assert(occurs_from(before, n + 1, prior[i]));
            let j = choose|j: int| n + 1 <= j < before.len() && #[trigger] before[j] == prior[i];
            assert(before[j] == kept[i]);
        } else {
            assert(before[n] == kept[i]);
        }
    }
    assert forall|j: int| n <= j < before.len() && keep((#[trigger] before[j]).1) implies occurs_from(
        kept,
        0,
        before[j],
    ) by {
        if j == n {
            assert(kept[prior.len() as int] == before[j]);
        } else {
            assert(occurs_from(prior, 0, before[j]));
            let i = choose|i: int| 0 <= i < prior.len() && #[trigger] prior[i] == before[j];
            assert(kept[i] == before[j]);
        }
    }
    assert forall|a: int, b: int| 0 <= a < b < kept.len() implies (#[trigger] kept[a]).0 != (
    #[trigger] kept[b]).0 by {
        assert(kept[a] == prior[a]);
        if b == prior.len() {
            assert(occurs_from(before, n + 1, prior[a]));
            let j = choose|j: int| n + 1 <= j < before.len() && #[trigger] before[j] == prior[a];
            assert(before[n].0 != before[j].0);
        } else {
            assert(kept[b] == prior[b]);
        }
    }
}

proof fn lemma_kept_all<K, V>(before: Seq<(K, V)>, kept: Seq<(K, V)>, keep: spec_fn(V) -> bool)
    requires
        distinct(before),
        kept_from(before, 0, kept, keep),
    ensures
        entries_map(kept) == entries_map(before).restrict(
            Set::new(
                |k: K| entries_map(before).contains_key(k) && keep(entries_map(before)[k]),
            ),
        ),
{
    lemma_entries_map(before);
    lemma_entries_map(kept);
    let m = entries_map(before);
    let target = m.restrict(Set::new(|k: K| m.contains_key(k) && keep(m[k])));
    assert forall|k: K| entries_map(kept).contains_key(k) implies target.contains_key(k)
        && entries_map(kept)[k] == target[k] by {
        let i = choose|i: int| 0 <= i < kept.len() && (#[trigger] kept[i]).0 == k;
        assert(occurs_from(before, 0, kept[i]));
        let j = choose|j: int| 0 <= j < before.len() && #[trigger] before[j] == kept[i];
        assert(before[j].0 == k);
    }
    assert forall|k: K| target.contains_key(k) implies entries_map(kept).contains_key(k) by {
        let j = choose|j: int| 0 <= j < before.len() && (#[trigger] before[j]).0 == k;
        assert(occurs_from(kept, 0, before[j]));
        let i = choose|i: int| 0 <= i < kept.len() && #[trigger] kept[i] == before[j];
        assert(kept[i].0 == k);
    }
    assert(entries_map(kept) =~= target);
}

impl<K: Key, V> View for UniqueMap<K, V> {
    type V = Map<K, V>;

    closed spec fn view(&self) -> Map<K, V> {
        entries_map(self.entries@)
    }
}

impl<K: Key, V> UniqueMap<K, V> {
    #[verifier::type_invariant]
    spec fn wf(self) -> bool {
        distinct(self.entries@)
    }

    /// The empty map.
    pub fn new() -> (map: Self)
        ensures
            map@ == Map::<K, V>::empty(),
    {
        UniqueMap { entries: Vec::new() }
    }

    /// The index of the entry with this key.
    fn find(entries: &Vec<(K, V)>, key: &K) -> (found: Option<usize>)
        ensures
            match found {
                Some(i) => i < entries@.len() && entries@[i as int].0 == *key,
                None => forall|i: int| 0 <= i < entries@.len() ==> (#[trigger] entries@[i]).0
                    != *key,
            },
    {
        let mut i: usize = 0;
        while i < entries.len()
            invariant
                i <= entries@.len(),
                forall|k: int| 0 <= k < i ==> (#[trigger] entries@[k]).0 != *key,
            decreases entries@.len() - i,
        {
            if entries[i].0.same(key) {
                return Some(i);
            }
            i = i + 1;
        }
        None
    }

    /// Tests whether the map has this key.
    pub fn contains_key(&self, key: &K) -> (found: bool)
        ensures
            found == self@.contains_key(*key),
    {
        proof {
            use_type_invariant(self);
            lemma_entries_map(self.entries@);
        }
        Self::find(&self.entries, key).is_some()
    }

    /// The value of this key.
    pub fn get(&self, key: &K) -> (value: Option<&V>)
        ensures
            value == (if self@.contains_key(*key) {
                Some(&self@[*key])
            } else {
                None
            }),
    {
        proof {
            use_type_invariant(self);
            lemma_entries_map(self.entries@);
        }
        match Self::find(&self.entries, key) {
            Some(i) => Some(&self.entries[i].1),
            None => None,
        }
    }

    /// Gives this key a value, in place of one that it has.
    pub fn insert(&mut self, key: K, value: V)
        ensures
            final(self)@ == old(self)@.insert(key, value),
    {
        proof {
            use_type_invariant(&*self);
        }
        let mut entries: Vec<(K, V)> = Vec::new();
        core::mem::swap(&mut entries, &mut self.entries);
        let ghost before = entries@;
        let ghost pair = (key, value);
        match Self::find(&entries, &key) {
            Some(i) => {
                entries.set(i, (key, value));
                proof {
                    let after = entries@;
                    assert(distinct(after)) by {
                        assert forall|a: int, b: int| 0 <= a < b < after.len() implies (
                        #[trigger] after[a]).0 != (#[trigger] after[b]).0 by {
                            assert(before[a].0 != before[b].0);
                        }
                    }
                    lemma_entries_map(before);
                    lemma_entries_map(after);
                    assert forall|k: K| entries_map(after).contains_key(k) <==> entries_map(
                        before,
                    ).insert(pair.0, pair.1).contains_key(k) by {
                        if entries_map(after).contains_key(k) {
                            let j = choose|j: int| 0 <= j < after.len() && (#[trigger] after[j]).0
                                == k;
                            assert(before[j].0 == k);
                        }
                        if entries_map(before).contains_key(k) {
                            let j = choose|j: int|
                                0 <= j < before.len() && (#[trigger] before[j]).0 == k;
                            assert(after[j].0 == k);
                        }
                        assert(after[i as int].0 == pair.0);
                    }
                    assert forall|k: K| entries_map(after).contains_key(k) implies entries_map(
                        after,
                    )[k] == entries_map(before).insert(pair.0, pair.1)[k] by {
                        let j = choose|j: int| 0 <= j < after.len() && (#[trigger] after[j]).0
                            == k;
                        if j != i {
                            assert(before[j] == after[j]);
                            assert(before[j].0 != before[i as int].0);
                        }
                    }
                    assert(entries_map(after) =~= entries_map(before).insert(pair.0, pair.1));
                }
            },
            None => {
                entries.push((key, value));
                proof {
                    assert(entries@.drop_last() =~= before);
                }
            },
        }
        self.entries = entries;
    }

    /// Takes the entry of this key out of the map.
    pub fn remove(&mut self, key: &K) -> (removed: Option<V>)
        ensures
            final(self)@ == old(self)@.remove(*key),
            removed == (if old(self)@.contains_key(*key) {
                Some(old(self)@[*key])
            } else {
                None
            }),
    {
        proof {
            use_type_invariant(&*self);
        }
        let mut entries: Vec<(K, V)> = Vec::new();
        core::mem::swap(&mut entries, &mut self.entries);
        let ghost before = entries@;
        proof {
            lemma_entries_map(before);
        }
        let removed = match Self::find(&entries, key) {
            Some(i) => {
                let entry = entries.remove(i);
                proof {
                    let after = entries@;
                    assert(after =~= before.remove(i as int));
                    assert(distinct(after)) by {
                        assert forall|a: int, b: int| 0 <= a < b < after.len() implies (
                        #[trigger] after[a]).0 != (#[trigger] after[b]).0 by {
                            let c = if a < i { a } else { a + 1 };
                            let d = if b < i { b } else { b + 1 };
                            assert(before[c].0 != before[d].0);
                        }
                    }
                    lemma_entries_map(after);
                    assert forall|k: K| entries_map(after).contains_key(k) <==> entries_map(
                        before,
                    ).remove(*key).contains_key(k) by {
                        if entries_map(after).contains_key(k) {
                            let j = choose|j: int| 0 <= j < after.len() && (#[trigger] after[j]).0
                                == k;
                            let c = if j < i { j } else { j + 1 };
                            assert(before[c].0 == k);
                            assert(before[c].0 != before[i as int].0);
                        }
                        if entries_map(before).contains_key(k) && k != *key {
                            let j = choose|j: int|
                                0 <= j < before.len() && (#[trigger] before[j]).0 == k;
                            let c = if j < i { j } else { j - 1 };
                            assert(after[c].0 == k);
                        }
                    }
                    assert forall|k: K| entries_map(after).contains_key(k) implies entries_map(
                        after,
                    )[k] == entries_map(before)[k] by {
                        let j = choose|j: int| 0 <= j < after.len() && (#[trigger] after[j]).0
                            == k;
                        let c = if j < i { j } else { j + 1 };
                        assert(before[c] == after[j]);
                    }
                    assert(entries_map(after) =~= entries_map(before).remove(*key));
                }
                Some(entry.1)
            },
            None => {
                proof {
                    assert(entries_map(before) =~= entries_map(before).remove(*key));
                }
                None
            },
        };
        self.entries = entries;
        removed
    }

    /// Keeps the entries whose value satisfies `keep`.
    pub(crate) fn retain<F: Fn(&V) -> bool>(&mut self, f: F, keep: Ghost<spec_fn(V) -> bool>)
        requires
            forall|v: &V| #[trigger] call_requires(f, (v,)),
            forall|v: &V, b: bool| #[trigger] call_ensures(f, (v,), b) ==> b == keep@(*v),
        ensures
            final(self)@ == old(self)@.restrict(
                Set::new(|k: K| old(self)@.contains_key(k) && keep@(old(self)@[k])),
            ),
    {
        proof {
            use_type_invariant(&*self);
            lemma_entries_map(self.entries@);
        }
        let mut rest: Vec<(K, V)> = Vec::new();
        core::mem::swap(&mut rest, &mut self.entries);
        let mut kept: Vec<(K, V)> = Vec::new();
        let ghost before = rest@;
        assert(before.take(before.len() as int) =~= before);
        while rest.len() > 0
            invariant
                rest@ == before.take(rest@.len() as int),
                rest@.len() <= before.len(),
                distinct(before),
                forall|v: &V| #[trigger] call_requires(f, (v,)),
                forall|v: &V, b: bool| #[trigger] call_ensures(f, (v,), b) ==> b == keep@(*v),
                kept_from(before, rest@.len() as int, kept@, keep@),
            decreases rest@.len(),
        {
            let ghost prior = kept@;
            let ghost n = rest@.len() - 1;
            let entry = rest.pop().unwrap();
            assert(before[n] == entry);
            assert(rest@ =~= before.take(n));
            if f(&entry.1) {
                kept.push(entry);
            }
            proof {
                lemma_kept_step(before, n, prior, kept@, keep@);
            }
        }
        proof {
            lemma_kept_all(before, kept@, keep@);
        }
        self.entries = kept;
    }
}

} // verus!
