//! A small association map with `u64` keys, viewed as a mathematical
//! `Map<u64, V>`.
//!
//! The shared consensus state and the per-view task tables all key their
//! entries by view, epoch or commitment. This map stores its entries in a
//! vector with pairwise-distinct keys and proves each operation against
//! the map abstraction.

use vstd::prelude::*;

verus! {

/// The mathematical map described by a sequence of key-value pairs; later
/// entries win, though the container below never stores a key twice.
pub open spec fn seq_to_map<V>(s: Seq<(u64, V)>) -> Map<u64, V>
    decreases s.len(),
{
    if s.len() == 0 {
        Map::empty()
    } else {
        seq_to_map(s.drop_last()).insert(s.last().0, s.last().1)
    }
}

/// Pairwise-distinct keys.
pub open spec fn distinct_keys<V>(s: Seq<(u64, V)>) -> bool {
    forall|i: int, j: int| 0 <= i < j < s.len() ==> s[i].0 != s[j].0
}

/// A key is in the map iff some entry carries it; with distinct keys the
/// entry's value is the map's.
proof fn lemma_seq_to_map_membership<V>(s: Seq<(u64, V)>)
    ensures
        forall|k: u64|
            #[trigger] seq_to_map(s).contains_key(k) <==> exists|i: int|
                0 <= i < s.len() && s[i].0 == k,
        distinct_keys(s) ==> forall|i: int|
            0 <= i < s.len() ==> seq_to_map(s).contains_key(#[trigger] s[i].0) && seq_to_map(
                s,
            )[s[i].0] == s[i].1,
    decreases s.len(),
{
    if s.len() > 0 {
        lemma_seq_to_map_membership(s.drop_last());
        assert forall|k: u64| #[trigger] seq_to_map(s).contains_key(k) implies exists|i: int|
            0 <= i < s.len() && s[i].0 == k by {
            if k == s.last().0 {
                assert(s[s.len() - 1].0 == k);
            } else {
                assert(seq_to_map(s.drop_last()).contains_key(k));
                let i = choose|i: int| 0 <= i < s.drop_last().len() && s.drop_last()[i].0 == k;
                assert(s.drop_last()[i] == s[i]);
                assert(s[i].0 == k);
            }
        }
        assert forall|k: u64|
            exists|i: int| 0 <= i < s.len() && s[i].0 == k implies #[trigger] seq_to_map(
            s,
        ).contains_key(k) by {
            let i = choose|i: int| 0 <= i < s.len() && s[i].0 == k;
            if i < s.len() - 1 {
                assert(s.drop_last()[i] == s[i]);
                assert(s.drop_last()[i].0 == k);
                assert(seq_to_map(s.drop_last()).contains_key(k));
            }
        }
        if distinct_keys(s) {
            assert(distinct_keys(s.drop_last()));
            assert forall|i: int| 0 <= i < s.len() implies seq_to_map(s).contains_key(
                #[trigger] s[i].0,
            ) && seq_to_map(s)[s[i].0] == s[i].1 by {
                if i < s.len() - 1 {
                    assert(s.drop_last()[i] == s[i]);
                    assert(s[i].0 != s.last().0);
                }
            }
        }
    }
}

/// Filtering keeps keys pairwise distinct.
proof fn lemma_filter_distinct_keys<V>(s: Seq<(u64, V)>, pred: spec_fn((u64, V)) -> bool)
    requires
        distinct_keys(s),
    ensures
        distinct_keys(s.filter(pred)),
    decreases s.len(),
{
    reveal(Seq::filter);
    if s.len() > 0 {
        let rest = s.drop_last();
        lemma_filter_distinct_keys(rest, pred);
        if pred(s.last()) {
            assert forall|a: int, b: int|
                0 <= a < b < s.filter(pred).len() implies s.filter(pred)[a].0 != s.filter(
                pred,
            )[b].0 by {
                if b == s.filter(pred).len() - 1 {
                    assert(s.filter(pred)[a] == rest.filter(pred)[a]);
                    assert(rest.filter(pred).contains(rest.filter(pred)[a]));
                    rest.lemma_filter_contains_rev(pred, rest.filter(pred)[a]);
                    let l = choose|l: int| 0 <= l < rest.len() && rest[l] == rest.filter(pred)[a];
                    assert(s[l] == rest[l]);
                    assert(s[l].0 != s.last().0);
                } else {
                    assert(s.filter(pred)[a] == rest.filter(pred)[a]);
                    assert(s.filter(pred)[b] == rest.filter(pred)[b]);
                }
            }
        }
    }
}

/// Removing the entry at `i` removes exactly its key from the map.
proof fn lemma_seq_to_map_remove<V>(s: Seq<(u64, V)>, i: int)
    requires
        distinct_keys(s),
        0 <= i < s.len(),
    ensures
        seq_to_map(s.remove(i)) == seq_to_map(s).remove(s[i].0),
    decreases s.len(),
{
    lemma_seq_to_map_membership(s);
    lemma_seq_to_map_membership(s.drop_last());
    if i == s.len() - 1 {
        assert(s.remove(i) =~= s.drop_last());
        assert(!seq_to_map(s.drop_last()).contains_key(s[i].0));
        assert(seq_to_map(s.drop_last()) =~= seq_to_map(s).remove(s[i].0));
    } else {
        assert(s.remove(i).drop_last() =~= s.drop_last().remove(i));
        assert(s.remove(i).last() == s.last());
        lemma_seq_to_map_remove(s.drop_last(), i);
        assert(seq_to_map(s.remove(i)) =~= seq_to_map(s).remove(s[i].0));
    }
}

/// With distinct keys, the map has exactly one key per entry.
proof fn lemma_seq_to_map_card<V>(s: Seq<(u64, V)>)
    requires
        distinct_keys(s),
    ensures
        seq_to_map(s).dom().len() == s.len(),
        seq_to_map(s).dom().finite(),
    decreases s.len(),
{
    if s.len() > 0 {
        assert(distinct_keys(s.drop_last()));
        lemma_seq_to_map_card(s.drop_last());
        lemma_seq_to_map_membership(s.drop_last());
        assert(!seq_to_map(s.drop_last()).contains_key(s.last().0));
        assert(seq_to_map(s).dom() =~= seq_to_map(s.drop_last()).dom().insert(s.last().0));
        vstd::set::axiom_set_insert_len(seq_to_map(s.drop_last()).dom(), s.last().0);
    }
}

/// An association map from `u64` keys to copyable values.
#[derive(Debug)]
pub struct VMap<V> {
    entries: Vec<(u64, V)>,
}

impl<V> VMap<V> {
    /// The mathematical map this container holds.
    pub closed spec fn view(&self) -> Map<u64, V> {
        seq_to_map(self.entries@)
    }

    /// The container never stores one key twice.
    #[verifier::type_invariant]
    spec fn wf(&self) -> bool {
        distinct_keys(self.entries@)
    }
}

impl<V: Copy> VMap<V> {
    /// The empty map.
    pub fn new() -> (m: Self)
        ensures
            m@ == Map::<u64, V>::empty(),
    {
        VMap { entries: Vec::new() }
    }

    /// Index of the entry carrying `k`, if any.
    fn index_of(&self, k: u64) -> (r: Option<usize>)
        ensures
            match r {
                Some(i) => i < self.entries@.len() && self.entries@[i as int].0 == k,
                None => forall|i: int| 0 <= i < self.entries@.len() ==> self.entries@[i].0 != k,
            },
    {
        let n = self.entries.len();
        let mut i: usize = 0;
        while i < n
            invariant
                i <= n,
                n == self.entries@.len(),
                forall|j: int| 0 <= j < i ==> self.entries@[j].0 != k,
            decreases n - i,
        {
            if self.entries[i].0 == k {
                return Some(i);
            }
            i = i + 1;
        }
        None
    }

    /// The number of entries.
    pub fn len(&self) -> (r: usize)
        ensures
            r == self@.dom().len(),
    {
        proof {
            use_type_invariant(self);
            lemma_seq_to_map_card(self.entries@);
        }
        self.entries.len()
    }

    /// Whether the map has an entry for `k`.
    pub fn contains_key(&self, k: u64) -> (r: bool)
        ensures
            r == self@.contains_key(k),
    {
        proof {
            lemma_seq_to_map_membership(self.entries@);
        }
        self.index_of(k).is_some()
    }

    /// The value stored under `k`, if any.
    pub fn get(&self, k: u64) -> (r: Option<V>)
        ensures
            r == (if self@.contains_key(k) {
                Some(self@[k])
            } else {
                None::<V>
            }),
    {
        proof {
            use_type_invariant(self);
            lemma_seq_to_map_membership(self.entries@);
        }
        match self.index_of(k) {
            Some(i) => Some(self.entries[i].1),
            None => None,
        }
    }

    /// Store `v` under `k`, replacing any previous value.
    pub fn insert(&mut self, k: u64, v: V)
        ensures
            final(self)@ == old(self)@.insert(k, v),
    {
        proof {
            use_type_invariant(&*self);
        }
        let ghost s0 = self.entries@;
        match self.index_of(k) {
            Some(i) => {
                proof {
                    lemma_seq_to_map_remove(s0, i as int);
                }
                let mut es: Vec<(u64, V)> = Vec::new();
                core::mem::swap(&mut es, &mut self.entries);
                es.remove(i);
                es.push((k, v));
                self.entries = es;
                proof {
                    assert(self.entries@.drop_last() =~= s0.remove(i as int));
                    assert(seq_to_map(self.entries@) =~= seq_to_map(s0).insert(k, v));
                    lemma_seq_to_map_membership(s0.remove(i as int));
                    assert(distinct_keys(self.entries@));
                }
            },
            None => {
                let mut es: Vec<(u64, V)> = Vec::new();
                core::mem::swap(&mut es, &mut self.entries);
                es.push((k, v));
                self.entries = es;
                proof {
                    assert(self.entries@.drop_last() =~= s0);
                    assert(distinct_keys(self.entries@));
                }
            },
        }
    }

    /// Remove the entry under `k`, if any.
    pub fn remove(&mut self, k: u64)
        ensures
            final(self)@ == old(self)@.remove(k),
    {
        proof {
            use_type_invariant(&*self);
        }
        let ghost s0 = self.entries@;
        match self.index_of(k) {
            Some(i) => {
                proof {
                    lemma_seq_to_map_remove(s0, i as int);
                }
                let mut es: Vec<(u64, V)> = Vec::new();
                core::mem::swap(&mut es, &mut self.entries);
                es.remove(i);
                self.entries = es;
                proof {
                    assert(distinct_keys(self.entries@)) by {
                        assert(forall|j: int|
                            0 <= j < s0.remove(i as int).len() ==> #[trigger] s0.remove(i as int)[j]
                                == (if j < i {
                                s0[j]
                            } else {
                                s0[j + 1]
                            }));
                    };
                }
            },
            None => {
                proof {
                    lemma_seq_to_map_membership(s0);
                    assert(self@ =~= old(self)@.remove(k));
                }
            },
        }
    }

    /// Drop every entry whose key is below `k`, as a view-change fence
    /// does with per-view tables.
    pub fn retain_at_least(&mut self, k: u64)
        ensures
            forall|x: u64|
                #[trigger] final(self)@.contains_key(x) <==> old(self)@.contains_key(x) && x >= k,
            forall|x: u64|
                final(self)@.contains_key(x) ==> #[trigger] final(self)@[x] == old(self)@[x],
    {
        proof {
            use_type_invariant(&*self);
            lemma_seq_to_map_membership(self.entries@);
        }
        let ghost s0 = self.entries@;
        let mut kept: Vec<(u64, V)> = Vec::new();
        let n = self.entries.len();
        let mut i: usize = 0;
        while i < n
            invariant
                i <= n,
                n == s0.len(),
                self.entries@ == s0,
                distinct_keys(s0),
                kept@ == s0.take(i as int).filter(|e: (u64, V)| e.0 >= k),
            decreases n - i,
        {
            let e = self.entries[i];
            proof {
                assert(s0.take(i + 1).drop_last() =~= s0.take(i as int));
                reveal_with_fuel(Seq::filter, 2);
            }
            if e.0 >= k {
                kept.push(e);
            }
            i = i + 1;
        }
        proof {
            assert(s0.take(n as int) =~= s0);
            lemma_filter_distinct_keys(s0, |e: (u64, V)| e.0 >= k);
        }
        self.entries = kept;
        proof {
            let pred = |e: (u64, V)| e.0 >= k;
            let sf = s0.filter(pred);
            lemma_filter_distinct_keys(s0, pred);
            lemma_seq_to_map_membership(sf);
            assert forall|x: u64| #[trigger] self@.contains_key(x) implies old(
                self,
            )@.contains_key(x) && x >= k && self@[x] == old(self)@[x] by {
                let i0 = choose|i0: int| 0 <= i0 < sf.len() && sf[i0].0 == x;
                assert(sf.contains(sf[i0]));
                s0.lemma_filter_contains_rev(pred, sf[i0]);
                let j0 = choose|j0: int| 0 <= j0 < s0.len() && s0[j0] == sf[i0];
                s0.lemma_filter_pred(pred, i0);
                assert(self@[x] == sf[i0].1);
                assert(old(self)@[x] == s0[j0].1);
            }
            assert forall|x: u64| old(self)@.contains_key(x) && x >= k implies #[trigger] self
                @.contains_key(x) by {
                let i0 = choose|i0: int| 0 <= i0 < s0.len() && s0[i0].0 == x;
                s0.lemma_filter_contains(pred, i0);
                let j0 = choose|j0: int| 0 <= j0 < sf.len() && sf[j0] == s0[i0];
            }
        }
    }
}

} // verus!
