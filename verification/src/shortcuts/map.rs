//! A map of key combinations to actions, kept in binding order.

use super::order::{binding_lt, compare_bindings, lemma_binding_irreflexive, lemma_binding_transitive};
use super::{Binding, BindingView};
use vstd::prelude::*;

verus! {

/// The entries of a map as pairs of a binding and its action.
pub open spec fn entries_view<A>(s: Seq<(Binding, A)>) -> Seq<(BindingView, A)> {
    s.map_values(|e: (Binding, A)| (e.0@, e.1))
}

/// Entries in strictly increasing binding order, so each binding occurs once.
pub open spec fn sorted_entries<A>(s: Seq<(BindingView, A)>) -> bool {
    forall|i: int, j: int| 0 <= i < j < s.len() ==> binding_lt(#[trigger] s[i].0, #[trigger] s[j].0)
}

/// The action of `b` in a map whose bindings occur at most once.
pub open spec fn find<A>(s: Seq<(BindingView, A)>, b: BindingView) -> Option<A> {
    if exists|i: int| 0 <= i < s.len() && #[trigger] s[i].0 == b {
        Some(s[choose|i: int| 0 <= i < s.len() && #[trigger] s[i].0 == b].1)
    } else {
        None
    }
}

/// The action that collecting `s` into a map leaves for `b`: the last entry for `b`
/// wins.
pub open spec fn collected<A>(s: Seq<(BindingView, A)>, b: BindingView) -> Option<A>
    decreases s.len(),
{
    if s.len() == 0 {
        None
    } else if s.last().0 == b {
        Some(s.last().1)
    } else {
        collected(s.drop_last(), b)
    }
}

/// The entries of `s` whose flag in `keep` is set, in order.
pub open spec fn kept<A>(s: Seq<A>, keep: Seq<bool>) -> Seq<A>
    decreases s.len(),
{
    if s.len() == 0 || keep.len() == 0 {
        Seq::empty()
    } else if keep.last() {
        kept(s.drop_last(), keep.drop_last()).push(s.last())
    } else {
        kept(s.drop_last(), keep.drop_last())
    }
}

/// Collecting entries into a map: nothing is bound before any entry; an entry binds its
/// combination to its action whatever came before; an entry for another binding leaves
/// a combination as it was.
pub proof fn lemma_later_entries_win<A>(s: Seq<(BindingView, A)>, b: BindingView, other: BindingView, a: A)
    ensures
        collected(Seq::<(BindingView, A)>::empty(), b) is None,
        collected(s.push((b, a)), b) == Some(a),
        other != b ==> collected(s.push((other, a)), b) == collected(s, b),
{
    assert(s.push((b, a)).drop_last() =~= s);
    assert(s.push((other, a)).drop_last() =~= s);
}

/// In a sorted map the entry at `i` is the one found for its binding.
pub proof fn lemma_find_at<A>(s: Seq<(BindingView, A)>, i: int)
    requires
        sorted_entries(s),
        0 <= i < s.len(),
    ensures
        find(s, s[i].0) == Some(s[i].1),
{
    let b = s[i].0;
    assert(0 <= i < s.len() && s[i].0 == b);
    let j = choose|j: int| 0 <= j < s.len() && #[trigger] s[j].0 == b;
    if j < i {
        assert(binding_lt(s[j].0, s[i].0));
        lemma_binding_irreflexive(b);
    } else if i < j {
        assert(binding_lt(s[i].0, s[j].0));
        lemma_binding_irreflexive(b);
    }
}

/// In a sorted map the only place a binding occurs at is the one it is chosen at.
pub proof fn lemma_only_index<A>(s: Seq<(BindingView, A)>, i: int)
    requires
        sorted_entries(s),
        0 <= i < s.len(),
    ensures
        (choose|j: int| 0 <= j < s.len() && #[trigger] s[j].0 == s[i].0) == i,
{
    let b = s[i].0;
    assert(0 <= i < s.len() && s[i].0 == b);
    let j = choose|j: int| 0 <= j < s.len() && #[trigger] s[j].0 == b;
    if j < i {
        assert(binding_lt(s[j].0, s[i].0));
        lemma_binding_irreflexive(b);
    } else if i < j {
        assert(binding_lt(s[i].0, s[j].0));
        lemma_binding_irreflexive(b);
    }
}

/// Keeping only some entries of a sequence adds none.
pub proof fn lemma_kept_entries<A>(s: Seq<A>, keep: Seq<bool>)
    ensures
        forall|k: int| 0 <= k < kept(s, keep).len() ==> s.contains(#[trigger] kept(s, keep)[k]),
    decreases s.len(),
{
    if s.len() == 0 || keep.len() == 0 {
        assert(kept(s, keep).len() == 0);
    } else {
        let rest = kept(s.drop_last(), keep.drop_last());
        lemma_kept_entries(s.drop_last(), keep.drop_last());
        let r = kept(s, keep);
        assert(r == if keep.last() { rest.push(s.last()) } else { rest });
        assert forall|k: int| 0 <= k < r.len() implies s.contains(#[trigger] r[k]) by {
            if keep.last() && k == r.len() - 1 {
                assert(r[k] == s[s.len() - 1]);
            } else {
                assert(r[k] == rest[k]);
                assert(s.drop_last().contains(rest[k]));
                let i = choose|i: int| 0 <= i < s.drop_last().len() && s.drop_last()[i] == rest[k];
                assert(r[k] == s[i]);
            }
        }
    }
}

/// Keeping only some entries of a sorted map leaves it sorted.
pub proof fn lemma_kept_sorted<A>(s: Seq<(BindingView, A)>, keep: Seq<bool>)
    requires
        sorted_entries(s),
    ensures
        sorted_entries(kept(s, keep)),
    decreases s.len(),
{
    if s.len() > 0 && keep.len() > 0 {
        let rest = kept(s.drop_last(), keep.drop_last());
        assert(sorted_entries(s.drop_last()));
        lemma_kept_sorted(s.drop_last(), keep.drop_last());
        lemma_kept_entries(s.drop_last(), keep.drop_last());
        if keep.last() {
            let r = rest.push(s.last());
            assert forall|a: int, c: int| 0 <= a < c < r.len() implies binding_lt(
                #[trigger] r[a].0,
                #[trigger] r[c].0,
            ) by {
                if c == r.len() - 1 {
                    assert(r[a] == rest[a]);
                    assert(s.drop_last().contains(rest[a]));
                    let i = choose|i: int| 0 <= i < s.drop_last().len() && s.drop_last()[i] == rest[a];
                    assert(r[a] == s[i]);
                    assert(binding_lt(s[i].0, s[s.len() - 1].0));
                } else {
                    assert(r[a] == rest[a] && r[c] == rest[c]);
                }
            }
        }
    }
}

/// A map of key combinations to actions.
///
/// The entries are a vector kept in binding order rather than a `BTreeMap`: the order
/// and the lookups are then stated and proved here over the binding order of
/// `order.rs`, where a map ordered by the derived `Ord` of [`Binding`] would rest every
/// contract on an impl the verifier does not read.
#[derive(Debug, PartialEq, Eq)]
pub struct Shortcuts<A> {
    entries: Vec<(Binding, A)>,
}

impl<A> View for Shortcuts<A> {
    type V = Seq<(BindingView, A)>;

    closed spec fn view(&self) -> Seq<(BindingView, A)> {
        entries_view(self.entries@)
    }
}

impl<A: Clone> Clone for Shortcuts<A> {
    /// A copy of the map: the same bindings in the same order, each with a clone of its
    /// action.
    fn clone(&self) -> (r: Self)
        ensures
            r@.len() == self@.len(),
            forall|i: int|
                0 <= i < r@.len() ==> (#[trigger] r@[i]).0 == self@[i].0 && cloned(self@[i].1, r@[i].1),
    {
        proof {
            use_type_invariant(self);
        }
        let mut entries: Vec<(Binding, A)> = Vec::new();
        let mut i: usize = 0;
        while i < self.entries.len()
            invariant
                sorted_entries(self@),
                i <= self.entries.len(),
                entries@.len() == i,
                forall|j: int|
                    0 <= j < i ==> (#[trigger] entries_view(entries@)[j]).0 == self@[j].0 && cloned(
                        self@[j].1,
                        entries_view(entries@)[j].1,
                    ),
            decreases self.entries.len() - i,
        {
            let ghost before = entries@;
            let (binding, action) = &self.entries[i];
            let copy = binding.duplicate();
            let action_copy = action.clone();
            entries.push((copy, action_copy));
            proof {
                assert(self@[i as int] == (self.entries@[i as int].0@, self.entries@[i as int].1));
                assert forall|j: int| 0 <= j < i + 1 implies (#[trigger] entries_view(entries@)[j]).0
                    == self@[j].0 && cloned(self@[j].1, entries_view(entries@)[j].1) by {
                    if j < i {
                        assert(entries@[j] == before[j]);
                        assert(entries_view(before)[j] == entries_view(entries@)[j]);
                    } else {
                        assert(entries@[j] == (copy, action_copy));
                    }
                }
            }
            i = i + 1;
        }
        proof {
            assert forall|a: int, b: int| 0 <= a < b < entries_view(entries@).len() implies binding_lt(
                #[trigger] entries_view(entries@)[a].0,
                #[trigger] entries_view(entries@)[b].0,
            ) by {
                assert(binding_lt(self@[a].0, self@[b].0));
            }
        }
        Shortcuts { entries }
    }
}

impl<A> Default for Shortcuts<A> {
    /// An empty map.
    fn default() -> (r: Self)
        ensures
            r.wf(),
            r@ == Seq::<(BindingView, A)>::empty(),
    {
        Self::new()
    }
}

impl<A> Shortcuts<A> {
    /// Every map keeps its entries in binding order, each binding once.
    #[verifier::type_invariant]
    pub(crate) open spec fn entries_sorted(&self) -> bool {
        sorted_entries(self@)
    }

    /// The map keeps its bindings in binding order, each once. Every map does; this
    /// states it for contracts.
    pub open spec fn wf(&self) -> bool {
        sorted_entries(self@)
    }

    /// An empty map.
    pub fn new() -> (r: Self)
        ensures
            r.wf(),
            r@ == Seq::<(BindingView, A)>::empty(),
    {
        let r = Shortcuts { entries: Vec::new() };
        proof {
            assert(r@ =~= Seq::<(BindingView, A)>::empty());
        }
        r
    }

    /// Collects entries into a map; of two entries for the same binding, the later
    /// one wins.
    pub fn from_iter(entries: Vec<(Binding, A)>) -> (r: Self)
        ensures
            r.wf(),
            forall|b: BindingView| #[trigger] find(r@, b) == collected(entries_view(entries@), b),
    {
        let ghost input = entries_view(entries@);
        let n = entries.len();
        proof {
            assert(input.len() == n);
        }
        let mut rest = entries;
        let mut r = Self::new();
        let mut i: usize = 0;
        while rest.len() > 0
            invariant
                r.wf(),
                i <= input.len(),
                input.len() <= usize::MAX,
                entries_view(rest@) == input.skip(i as int),
                forall|b: BindingView| #[trigger] find(r@, b) == collected(input.take(i as int), b),
            decreases rest.len(),
        {
            let ghost before = rest@;
            proof {
                assert(entries_view(before).len() == before.len());
                assert(input.skip(i as int).len() == input.len() - i);
            }
            let (binding, action) = rest.remove(0);
            proof {
                assert(entries_view(before)[0] == input[i as int]);
                assert forall|k: int| 0 <= k < rest@.len() implies #[trigger] entries_view(rest@)[k]
                    == input.skip(i + 1)[k] by {
                    assert(rest@[k] == before[k + 1]);
                    assert(entries_view(before)[k + 1] == input.skip(i as int)[k + 1]);
                }
                assert(entries_view(rest@) =~= input.skip(i + 1));
                assert(input[i as int] == (binding@, action));
                assert(input.take(i + 1).drop_last() =~= input.take(i as int));
                assert(input.take(i + 1).last() == input[i as int]);
            }
            let ghost prev = r@;
            r.insert(binding, action);
            i = i + 1;
        }
        proof {
            assert(input.take(i as int) =~= input);
        }
        r
    }

    /// Sets the action of `binding`, keeping the map in binding order.
    pub fn insert(&mut self, binding: Binding, action: A)
        ensures
            final(self).wf(),
            forall|b: BindingView|
                #[trigger] find(final(self)@, b) == if b == binding@ {
                    Some(action)
                } else {
                    find(old(self)@, b)
                },
    {
        proof {
            use_type_invariant(&*self);
        }
        let mut entries: Vec<(Binding, A)> = Vec::new();
        std::mem::swap(&mut entries, &mut self.entries);
        let ghost old_view = entries_view(entries@);
        let mut p: usize = 0;
        while p < entries.len() && compare_bindings(&entries[p].0, &binding) == -1
            invariant
                entries_view(entries@) == old_view,
                sorted_entries(old_view),
                p <= entries.len(),
                forall|j: int| 0 <= j < p ==> binding_lt(#[trigger] old_view[j].0, binding@),
            decreases entries.len() - p,
        {
            proof {
                assert(old_view[p as int].0 == entries@[p as int].0@);
            }
            p = p + 1;
        }
        let ghost bv = binding@;
        if p < entries.len() && entries[p].0.same_as(&binding) {
            proof {
                assert(old_view[p as int].0 == bv);
            }
            entries.set(p, (binding, action));
            proof {
                assert(entries_view(entries@) =~= old_view.update(p as int, (bv, action)));
                assert forall|i: int, j: int| 0 <= i < j < entries_view(entries@).len() implies binding_lt(
                    #[trigger] entries_view(entries@)[i].0,
                    #[trigger] entries_view(entries@)[j].0,
                ) by {
                    assert(binding_lt(old_view[i].0, old_view[j].0));
                }
                assert forall|b: BindingView| #[trigger] find(entries_view(entries@), b) == if b == bv {
                    Some(action)
                } else {
                    find(old_view, b)
                } by {
                    if b == bv {
                        lemma_find_at(entries_view(entries@), p as int);
                    } else if exists|i: int| 0 <= i < old_view.len() && #[trigger] old_view[i].0 == b {
                        let i = choose|i: int| 0 <= i < old_view.len() && #[trigger] old_view[i].0 == b;
                        lemma_find_at(old_view, i);
                        lemma_find_at(entries_view(entries@), i);
                    } else {
                        assert forall|i: int| 0 <= i < entries_view(entries@).len() implies #[trigger] entries_view(entries@)[i].0 != b by {
                            if i != p {
                                assert(entries_view(entries@)[i] == old_view[i]);
                            }
                        }
                    }
                }
            }
        } else {
            proof {
                if p < old_view.len() {
                    assert(old_view[p as int].0 == entries@[p as int].0@);
                    assert(binding_lt(bv, old_view[p as int].0));
                }
            }
            entries.insert(p, (binding, action));
            proof {
                let nv = entries_view(entries@);
                assert(nv =~= old_view.insert(p as int, (bv, action)));
                assert forall|i: int, j: int| 0 <= i < j < nv.len() implies binding_lt(
                    #[trigger] nv[i].0,
                    #[trigger] nv[j].0,
                ) by {
                    if j < p {
                        assert(binding_lt(old_view[i].0, old_view[j].0));
                    } else if j == p {
                    } else if i < p {
                        assert(binding_lt(old_view[i].0, old_view[j - 1].0));
                    } else if i == p {
                        if j - 1 > p {
                            assert(binding_lt(old_view[p as int].0, old_view[j - 1].0));
                            lemma_binding_transitive(bv, old_view[p as int].0, old_view[j - 1].0);
                        }
                    } else {
                        assert(binding_lt(old_view[i - 1].0, old_view[j - 1].0));
                    }
                }
                assert forall|i: int| 0 <= i < old_view.len() implies #[trigger] old_view[i].0 != bv by {
                    if i < p {
                        lemma_binding_irreflexive(bv);
                    } else if i > p {
                        assert(binding_lt(old_view[p as int].0, old_view[i].0));
                        lemma_binding_transitive(bv, old_view[p as int].0, old_view[i].0);
                        lemma_binding_irreflexive(bv);
                    } else {
                        lemma_binding_irreflexive(bv);
                    }
                }
                assert forall|b: BindingView| #[trigger] find(nv, b) == if b == bv {
                    Some(action)
                } else {
                    find(old_view, b)
                } by {
                    if b == bv {
                        assert(nv[p as int] == (bv, action));
                        lemma_find_at(nv, p as int);
                    } else if exists|i: int| 0 <= i < old_view.len() && #[trigger] old_view[i].0 == b {
                        let i = choose|i: int| 0 <= i < old_view.len() && #[trigger] old_view[i].0 == b;
                        lemma_find_at(old_view, i);
                        if i < p {
                            assert(nv[i] == old_view[i]);
                            lemma_find_at(nv, i);
                        } else {
                            assert(nv[i + 1] == old_view[i]);
                            lemma_find_at(nv, i + 1);
                        }
                    } else {
                        assert forall|i: int| 0 <= i < nv.len() implies #[trigger] nv[i].0 != b by {
                            if i < p {
                                assert(nv[i] == old_view[i]);
                            } else if i > p {
                                assert(nv[i] == old_view[i - 1]);
                            }
                        }
                    }
                }
            }
        }
        self.entries = entries;
    }

    /// Takes `binding` out of the map, handing back its action if it had one.
    pub fn remove(&mut self, binding: &Binding) -> (r: Option<A>)
        ensures
            final(self).wf(),
            r == find(old(self)@, binding@),
            forall|b: BindingView|
                #[trigger] find(final(self)@, b) == if b == binding@ {
                    None
                } else {
                    find(old(self)@, b)
                },
    {
        proof {
            use_type_invariant(&*self);
        }
        let ghost old_view = self@;
        match self.index_of(binding) {
            Some(i) => {
                proof {
                    lemma_find_at(old_view, i as int);
                }
                let mut entries: Vec<(Binding, A)> = Vec::new();
                std::mem::swap(&mut entries, &mut self.entries);
                let (_, action) = entries.remove(i);
                proof {
                    let nv = entries_view(entries@);
                    assert(nv =~= old_view.remove(i as int));
                    assert forall|a: int, c: int| 0 <= a < c < nv.len() implies binding_lt(
                        #[trigger] nv[a].0,
                        #[trigger] nv[c].0,
                    ) by {
                        let oa = if a < i { a } else { a + 1 };
                        let oc = if c < i { c } else { c + 1 };
                        assert(nv[a] == old_view[oa] && nv[c] == old_view[oc]);
                    }
                    assert forall|b: BindingView| #[trigger] find(nv, b) == if b == binding@ {
                        None
                    } else {
                        find(old_view, b)
                    } by {
                        if exists|j: int| 0 <= j < nv.len() && #[trigger] nv[j].0 == b {
                            let j = choose|j: int| 0 <= j < nv.len() && #[trigger] nv[j].0 == b;
                            let oj = if j < i { j } else { j + 1 };
                            assert(nv[j] == old_view[oj]);
                            lemma_find_at(nv, j);
                            lemma_find_at(old_view, oj);
                            if b == binding@ {
                                assert(old_view[i as int].0 == b);
                                if oj < i {
                                    assert(binding_lt(old_view[oj].0, old_view[i as int].0));
                                } else {
                                    assert(binding_lt(old_view[i as int].0, old_view[oj].0));
                                }
                                lemma_binding_irreflexive(b);
                            }
                        } else if b != binding@ {
                            assert forall|j: int| 0 <= j < old_view.len() implies #[trigger] old_view[j].0 != b by {
                                if j < i {
                                    assert(nv[j] == old_view[j]);
                                } else if j > i {
                                    assert(nv[j - 1] == old_view[j]);
                                }
                            }
                        }
                    }
                }
                self.entries = entries;
                Some(action)
            },
            None => {
                proof {
                    assert(!(exists|j: int| 0 <= j < old_view.len() && #[trigger] old_view[j].0 == binding@));
                }
                None
            },
        }
    }

    /// The entries in binding order.
    pub fn iter(&self) -> (r: Vec<(&Binding, &A)>)
        ensures
            r@.len() == self@.len(),
            forall|i: int|
                0 <= i < r@.len() ==> (#[trigger] r@[i]).0@ == self@[i].0 && *r@[i].1
                    == self@[i].1,
    {
        let mut r: Vec<(&Binding, &A)> = Vec::new();
        let mut i: usize = 0;
        while i < self.entries.len()
            invariant
                i <= self.entries.len(),
                r@.len() == i,
                forall|j: int|
                    0 <= j < i ==> (#[trigger] r@[j]).0@ == self@[j].0 && *r@[j].1 == self@[j].1,
            decreases self.entries.len() - i,
        {
            let e = &self.entries[i];
            r.push((&e.0, &e.1));
            i = i + 1;
        }
        r
    }

    /// The number of entries.
    pub fn len(&self) -> (r: usize)
        ensures
            r == self@.len(),
    {
        self.entries.len()
    }

    /// Whether the map has no entries.
    pub fn is_empty(&self) -> (r: bool)
        ensures
            r == (self@.len() == 0),
    {
        self.entries.len() == 0
    }

    /// The entry at position `i` in binding order.
    pub fn entry(&self, i: usize) -> (r: (&Binding, &A))
        requires
            i < self@.len(),
        ensures
            r.0@ == self@[i as int].0,
            *r.1 == self@[i as int].1,
    {
        let e = &self.entries[i];
        (&e.0, &e.1)
    }

    /// The action bound to `binding`.
    pub fn get(&self, binding: &Binding) -> (r: Option<&A>)
        ensures
            match r {
                Some(a) => find(self@, binding@) == Some(*a),
                None => find(self@, binding@) is None,
            },
    {
        proof {
            use_type_invariant(self);
        }
        let mut i: usize = 0;
        while i < self.entries.len()
            invariant
                self.wf(),
                i <= self.entries.len(),
                forall|j: int| 0 <= j < i ==> #[trigger] self@[j].0 != binding@,
            decreases self.entries.len() - i,
        {
            if self.entries[i].0.same_as(binding) {
                proof {
                    lemma_find_at(self@, i as int);
                }
                return Some(&self.entries[i].1);
            }
            i = i + 1;
        }
        None
    }

    /// The position of `binding` in binding order, if the map holds it.
    pub fn index_of(&self, binding: &Binding) -> (r: Option<usize>)
        ensures
            match r {
                Some(i) => i < self@.len() && self@[i as int].0 == binding@,
                None => forall|j: int| 0 <= j < self@.len() ==> #[trigger] self@[j].0 != binding@,
            },
    {
        let mut i: usize = 0;
        while i < self.entries.len()
            invariant
                i <= self.entries.len(),
                forall|j: int| 0 <= j < i ==> #[trigger] self@[j].0 != binding@,
            decreases self.entries.len() - i,
        {
            if self.entries[i].0.same_as(binding) {
                return Some(i);
            }
            i = i + 1;
        }
        None
    }

    /// Keeps the entries whose flag in `keep` is set, in order.
    pub(crate) fn retain_flagged(&mut self, keep: &Vec<bool>)
        requires
            keep@.len() == old(self)@.len(),
        ensures
            final(self).wf(),
            final(self)@ == kept(old(self)@, keep@),
    {
        proof {
            use_type_invariant(&*self);
        }
        let mut rest: Vec<(Binding, A)> = Vec::new();
        std::mem::swap(&mut rest, &mut self.entries);
        let ghost old_view = entries_view(rest@);
        let n = rest.len();
        proof {
            assert(old_view.len() == n);
        }
        let mut kept_entries: Vec<(Binding, A)> = Vec::new();
        let mut i: usize = 0;
        while rest.len() > 0
            invariant
                i <= old_view.len(),
                old_view.len() <= usize::MAX,
                keep@.len() == old_view.len(),
                entries_view(rest@) == old_view.skip(i as int),
                entries_view(kept_entries@) == kept(old_view.take(i as int), keep@.take(i as int)),
            decreases rest.len(),
        {
            let ghost before = rest@;
            proof {
                assert(entries_view(before).len() == before.len());
                assert(old_view.skip(i as int).len() == old_view.len() - i);
            }
            let e = rest.remove(0);
            proof {
                assert(entries_view(before)[0] == old_view[i as int]);
                assert forall|k: int| 0 <= k < rest@.len() implies #[trigger] entries_view(
                    rest@,
                )[k] == old_view.skip(i + 1)[k] by {
                    assert(rest@[k] == before[k + 1]);
                    assert(entries_view(before)[k + 1] == old_view.skip(i as int)[k + 1]);
                }
                assert(entries_view(rest@) =~= old_view.skip(i + 1));
                assert(old_view.take(i + 1).drop_last() =~= old_view.take(i as int));
                assert(keep@.take(i + 1).drop_last() =~= keep@.take(i as int));
                assert(old_view.take(i + 1).last() == old_view[i as int]);
            }
            if keep[i] {
                kept_entries.push(e);
                proof {
                    assert(entries_view(kept_entries@) =~= kept(old_view.take(i as int), keep@.take(i as int)).push(old_view[i as int]));
                }
            }
            i = i + 1;
        }
        proof {
            assert(old_view.take(i as int) =~= old_view);
            assert(keep@.take(i as int) =~= keep@);
            lemma_kept_sorted(old_view, keep@);
        }
        self.entries = kept_entries;
    }
}

} // verus!
