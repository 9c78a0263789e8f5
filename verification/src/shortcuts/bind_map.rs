//! The combinations an application matches key presses against, with what each one
//! dispatches.

use crate::widget::menu::key_bind::{KeyBind, KeyBindView};
use vstd::prelude::*;

verus! {

/// Pairs of a combination and its value, each combination at most once.
pub open spec fn distinct_combinations<T>(s: Seq<(KeyBindView, T)>) -> bool {
    forall|i: int, j: int| 0 <= i < j < s.len() ==> #[trigger] s[i].0 != #[trigger] s[j].0
}

/// The map that a list of pairs with distinct combinations stands for.
pub open spec fn pairs_map<T>(s: Seq<(KeyBindView, T)>) -> Map<KeyBindView, T> {
    Map::new(
        |k: KeyBindView| exists|i: int| 0 <= i < s.len() && #[trigger] s[i].0 == k,
        |k: KeyBindView| s[choose|i: int| 0 <= i < s.len() && #[trigger] s[i].0 == k].1,
    )
}

/// The pairs as values.
pub open spec fn pairs_view<T>(s: Seq<(KeyBind, T)>) -> Seq<(KeyBindView, T)> {
    s.map_values(|e: (KeyBind, T)| (e.0@, e.1))
}

/// With distinct combinations, the pair at `i` is the one the map holds.
proof fn lemma_pair_at<T>(s: Seq<(KeyBindView, T)>, i: int)
    requires
        distinct_combinations(s),
        0 <= i < s.len(),
    ensures
        pairs_map(s).dom().contains(s[i].0),
        pairs_map(s)[s[i].0] == s[i].1,
{
    let k = s[i].0;
    assert(0 <= i < s.len() && s[i].0 == k);
    let j = choose|j: int| 0 <= j < s.len() && #[trigger] s[j].0 == k;
    if j != i {
        if j < i {
            assert(s[j].0 != s[i].0);
        } else {
            assert(s[i].0 != s[j].0);
        }
    }
}

/// With distinct combinations, the map holds as many combinations as there are pairs.
proof fn lemma_pairs_map_len<T>(s: Seq<(KeyBindView, T)>)
    requires
        distinct_combinations(s),
    ensures
        pairs_map(s).dom().finite(),
        pairs_map(s).dom().len() == s.len(),
    decreases s.len(),
{
    if s.len() == 0 {
        assert(pairs_map(s).dom() =~= Set::<KeyBindView>::empty());
    } else {
        let d = s.drop_last();
        let k = s.last().0;
        assert forall|i: int, j: int| 0 <= i < j < d.len() implies #[trigger] d[i].0 != #[trigger] d[j].0 by {
            assert(d[i] == s[i] && d[j] == s[j]);
        }
        lemma_pairs_map_len(d);
        assert forall|x: KeyBindView| #[trigger] pairs_map(s).dom().contains(x)
            == pairs_map(d).dom().insert(k).contains(x) by {
            if pairs_map(d).dom().contains(x) {
                let i = choose|i: int| 0 <= i < d.len() && #[trigger] d[i].0 == x;
                assert(s[i] == d[i]);
            }
            if x == k {
                assert(s[s.len() - 1].0 == k);
            }
            if pairs_map(s).dom().contains(x) && x != k {
                let i = choose|i: int| 0 <= i < s.len() && #[trigger] s[i].0 == x;
                assert(i < d.len());
                assert(d[i] == s[i]);
            }
        }
        assert(pairs_map(s).dom() =~= pairs_map(d).dom().insert(k));
        if pairs_map(d).dom().contains(k) {
            let i = choose|i: int| 0 <= i < d.len() && #[trigger] d[i].0 == k;
            assert(s[i].0 != s[s.len() - 1].0);
            assert(s[i] == d[i]);
        }
    }
}

/// Combinations mapped to what they dispatch.
///
/// The pairs are a vector with each combination once rather than a `HashMap`: its
/// contracts hold only for keys whose hashing and equality the verifier has a model of,
/// and a [`KeyBind`] - a vector of modifiers and a key - is not one of them.
pub struct KeyBinds<T> {
    entries: Vec<(KeyBind, T)>,
}

impl<T> View for KeyBinds<T> {
    type V = Map<KeyBindView, T>;

    closed spec fn view(&self) -> Map<KeyBindView, T> {
        pairs_map(pairs_view(self.entries@))
    }
}

impl<T> KeyBinds<T> {
    /// Each combination is held once.
    pub closed spec fn wf(&self) -> bool {
        distinct_combinations(pairs_view(self.entries@))
    }

    /// Every map holds each combination once.
    #[verifier::type_invariant]
    spec fn combinations_distinct(&self) -> bool {
        self.wf()
    }

    /// No combinations.
    pub fn new() -> (r: Self)
        ensures
            r.wf(),
            r@ == Map::<KeyBindView, T>::empty(),
    {
        let r = KeyBinds { entries: Vec::new() };
        proof {
            assert(r@ =~= Map::<KeyBindView, T>::empty());
        }
        r
    }

    /// The number of combinations held.
    pub fn len(&self) -> (r: usize)
        ensures
            r == self@.dom().len(),
    {
        proof {
            use_type_invariant(self);
            lemma_pairs_map_len(pairs_view(self.entries@));
        }
        self.entries.len()
    }

    /// Whether no combination is held.
    pub fn is_empty(&self) -> (r: bool)
        ensures
            r == (self@.dom().len() == 0),
    {
        self.len() == 0
    }

    /// The position of `key_bind`, if it is held.
    fn position(&self, key_bind: &KeyBind) -> (r: Option<usize>)
        ensures
            match r {
                Some(i) => i < self.entries@.len() && self.entries@[i as int].0@ == key_bind@,
                None => forall|j: int|
                    0 <= j < self.entries@.len() ==> #[trigger] self.entries@[j].0@ != key_bind@,
            },
    {
        let mut i: usize = 0;
        while i < self.entries.len()
            invariant
                i <= self.entries.len(),
                forall|j: int| 0 <= j < i ==> #[trigger] self.entries@[j].0@ != key_bind@,
            decreases self.entries.len() - i,
        {
            if self.entries[i].0.same_as(key_bind) {
                return Some(i);
            }
            i = i + 1;
        }
        None
    }

    /// Whether `key_bind` is held.
    pub fn contains_key(&self, key_bind: &KeyBind) -> (r: bool)
        ensures
            r == self@.dom().contains(key_bind@),
    {
        proof {
            use_type_invariant(self);
        }
        match self.position(key_bind) {
            Some(i) => {
                proof {
                    assert(pairs_view(self.entries@)[i as int].0 == key_bind@);
                }
                true
            },
            None => {
                proof {
                    assert forall|j: int| 0 <= j < pairs_view(self.entries@).len() implies #[trigger] pairs_view(self.entries@)[j].0 != key_bind@ by {
                        assert(self.entries@[j].0@ != key_bind@);
                    }
                }
                false
            },
        }
    }

    /// What `key_bind` dispatches, if it is held.
    pub fn get(&self, key_bind: &KeyBind) -> (r: Option<&T>)
        ensures
            match r {
                Some(t) => self@.dom().contains(key_bind@) && self@[key_bind@] == *t,
                None => !self@.dom().contains(key_bind@),
            },
    {
        proof {
            use_type_invariant(self);
        }
        match self.position(key_bind) {
            Some(i) => {
                proof {
                    lemma_pair_at(pairs_view(self.entries@), i as int);
                }
                Some(&self.entries[i].1)
            },
            None => {
                proof {
                    assert forall|j: int| 0 <= j < pairs_view(self.entries@).len() implies #[trigger] pairs_view(self.entries@)[j].0 != key_bind@ by {
                        assert(self.entries@[j].0@ != key_bind@);
                    }
                }
                None
            },
        }
    }

    /// Sets what `key_bind` dispatches.
    pub fn insert(&mut self, key_bind: KeyBind, value: T)
        ensures
            final(self).wf(),
            final(self)@ == old(self)@.insert(key_bind@, value),
    {
        proof {
            use_type_invariant(&*self);
        }
        let ghost old_pairs = pairs_view(self.entries@);
        let ghost k = key_bind@;
        let position = self.position(&key_bind);
        let mut entries: Vec<(KeyBind, T)> = Vec::new();
        std::mem::swap(&mut entries, &mut self.entries);
        match position {
            Some(i) => {
                entries.set(i, (key_bind, value));
                proof {
                    let nv = pairs_view(entries@);
                    assert(nv =~= old_pairs.update(i as int, (k, value)));
                    assert forall|a: int, b: int| 0 <= a < b < nv.len() implies #[trigger] nv[a].0
                        != #[trigger] nv[b].0 by {
                        assert(old_pairs[a].0 != old_pairs[b].0);
                    }
                    let ins_at = i as int;
                    let target = pairs_map(old_pairs).insert(k, value);
                    assert forall|x: KeyBindView| #[trigger] pairs_map(nv).dom().contains(x)
                        == target.dom().contains(x) && (pairs_map(nv).dom().contains(x)
                        ==> pairs_map(nv)[x] == target[x]) by {
                        if x == k {
                            lemma_pair_at(nv, ins_at);
                        }
                        if x != k && pairs_map(old_pairs).dom().contains(x) {
                            let j = choose|j: int| 0 <= j < old_pairs.len() && #[trigger] old_pairs[j].0 == x;
                            lemma_pair_at(old_pairs, j);
                            assert(nv[j] == old_pairs[j]);
                            lemma_pair_at(nv, j);
                        }
                        if x != k && pairs_map(nv).dom().contains(x) {
                            let j = choose|j: int| 0 <= j < nv.len() && #[trigger] nv[j].0 == x;
                            assert(old_pairs[j] == nv[j]);
                        }
                    }
                    assert(pairs_map(nv) =~= target);
                }
            },
            None => {
                entries.push((key_bind, value));
                proof {
                    let nv = pairs_view(entries@);
                    assert(nv =~= old_pairs.push((k, value)));
                    assert forall|j: int| 0 <= j < old_pairs.len() implies #[trigger] old_pairs[j].0 != k by {
                        assert(entries@[j].0@ == old_pairs[j].0);
                    }
                    assert forall|a: int, b: int| 0 <= a < b < nv.len() implies #[trigger] nv[a].0
                        != #[trigger] nv[b].0 by {
                        if b < old_pairs.len() {
                            assert(old_pairs[a].0 != old_pairs[b].0);
                        } else {
                            assert(old_pairs[a].0 != k);
                        }
                    }
                    let ins_at = old_pairs.len() as int;
                    let target = pairs_map(old_pairs).insert(k, value);
                    assert forall|x: KeyBindView| #[trigger] pairs_map(nv).dom().contains(x)
                        == target.dom().contains(x) && (pairs_map(nv).dom().contains(x)
                        ==> pairs_map(nv)[x] == target[x]) by {
                        if x == k {
                            lemma_pair_at(nv, ins_at);
                        }
                        if x != k && pairs_map(old_pairs).dom().contains(x) {
                            let j = choose|j: int| 0 <= j < old_pairs.len() && #[trigger] old_pairs[j].0 == x;
                            lemma_pair_at(old_pairs, j);
                            assert(nv[j] == old_pairs[j]);
                            lemma_pair_at(nv, j);
                        }
                        if x != k && pairs_map(nv).dom().contains(x) {
                            let j = choose|j: int| 0 <= j < nv.len() && #[trigger] nv[j].0 == x;
                            assert(j < old_pairs.len());
                            assert(old_pairs[j] == nv[j]);
                        }
                    }
                    assert(pairs_map(nv) =~= target);
                }
            },
        }
        self.entries = entries;
    }

    /// Forgets `key_bind`.
    pub fn remove(&mut self, key_bind: &KeyBind)
        ensures
            final(self).wf(),
            final(self)@ == old(self)@.remove(key_bind@),
    {
        proof {
            use_type_invariant(&*self);
        }
        let ghost old_pairs = pairs_view(self.entries@);
        let ghost k = key_bind@;
        let position = self.position(key_bind);
        let mut entries: Vec<(KeyBind, T)> = Vec::new();
        std::mem::swap(&mut entries, &mut self.entries);
        match position {
            Some(i) => {
                let _ = entries.remove(i);
                proof {
                    let nv = pairs_view(entries@);
                    assert(nv =~= old_pairs.remove(i as int));
                    assert forall|a: int, b: int| 0 <= a < b < nv.len() implies #[trigger] nv[a].0
                        != #[trigger] nv[b].0 by {
                        let oa = if a < i { a } else { a + 1 };
                        let ob = if b < i { b } else { b + 1 };
                        assert(nv[a] == old_pairs[oa] && nv[b] == old_pairs[ob]);
                        assert(old_pairs[oa].0 != old_pairs[ob].0);
                    }
                    let target = pairs_map(old_pairs).remove(k);
                    assert forall|x: KeyBindView| #[trigger] pairs_map(nv).dom().contains(x)
                        == target.dom().contains(x) && (pairs_map(nv).dom().contains(x)
                        ==> pairs_map(nv)[x] == target[x]) by {
                        if pairs_map(nv).dom().contains(x) {
                            let j = choose|j: int| 0 <= j < nv.len() && #[trigger] nv[j].0 == x;
                            let oj = if j < i { j } else { j + 1 };
                            assert(nv[j] == old_pairs[oj]);
                            assert(old_pairs[oj].0 != old_pairs[i as int].0 || oj == i);
                            lemma_pair_at(nv, j);
                            lemma_pair_at(old_pairs, oj);
                        }
                        if x != k && pairs_map(old_pairs).dom().contains(x) {
                            let j = choose|j: int| 0 <= j < old_pairs.len() && #[trigger] old_pairs[j].0 == x;
                            assert(j != i);
                            let nj = if j < i { j } else { j - 1 };
                            assert(nv[nj] == old_pairs[j]);
                        }
                    }
                    assert(pairs_map(nv) =~= target);
                }
            },
            None => {
                proof {
                    assert forall|j: int| 0 <= j < old_pairs.len() implies #[trigger] old_pairs[j].0 != k by {
                        assert(entries@[j].0@ == old_pairs[j].0);
                    }
                    assert(pairs_map(old_pairs) =~= pairs_map(old_pairs).remove(k));
                }
            },
        }
        self.entries = entries;
    }

    /// The combinations with what each dispatches, each combination once.
    pub fn into_entries(self) -> (r: Vec<(KeyBind, T)>)
        ensures
            distinct_combinations(pairs_view(r@)),
            pairs_map(pairs_view(r@)) == self@,
    {
        proof {
            use_type_invariant(&self);
        }
        self.entries
    }
}

} // verus!
