//! What the key binding logic promises as a whole, proved over its contracts.

use super::config::{
    bind_entries, bind_entry, bindings_of, concerns, default_overridden, entry_bindings,
    no_flags, override_of, resolved_customs, resolved_defaults, resolved_for_action,
    resolved_key_binds, triggered_action,
    BindingSource,
};
use super::keys::{binding_text, canonical_modifiers, key_bind_of};
use super::map::{find, lemma_find_at, lemma_only_index, sorted_entries};
use super::order::{binding_lt, lemma_binding_irreflexive};
use super::{BindingView, ModifierName};
use crate::widget::menu::key_bind::KeyBindView;
use vstd::prelude::*;
use vstd::std_specs::cmp::PartialEqSpec;

verus! {

/// Two bindings with the same key that hold the same modifiers, in whatever order and
/// however often each is listed, stand for the same combination and display the same
/// way.
pub proof fn lemma_display_ignores_modifier_order(x: BindingView, y: BindingView)
    requires
        x.key == y.key,
        forall|m: ModifierName| x.modifiers.contains(m) <==> y.modifiers.contains(m),
    ensures
        key_bind_of(x) == key_bind_of(y),
        binding_text(x) == binding_text(y),
{
    assert(canonical_modifiers(x.modifiers) =~= canonical_modifiers(y.modifiers));
}

/// The default bindings of `a`, in binding order, each from the defaults.
pub open spec fn shipped_bindings<A: PartialEq>(defaults: Seq<(BindingView, A)>, a: A) -> Seq<
    (BindingView, BindingSource),
>
    decreases defaults.len(),
{
    if defaults.len() == 0 {
        Seq::empty()
    } else {
        let prev = shipped_bindings(defaults.drop_last(), a);
        if defaults.last().1.eq_spec(&a) {
            prev.push((defaults.last().0, BindingSource::Default))
        } else {
            prev
        }
    }
}

/// Without a custom entry at any default binding of `a`, those bindings resolve from
/// the defaults.
proof fn lemma_untouched_defaults<A: PartialEq>(
    defaults: Seq<(BindingView, A)>,
    custom: Seq<(BindingView, A)>,
    flags: Seq<bool>,
    a: A,
)
    requires
        forall|k: int|
            0 <= k < defaults.len() && (#[trigger] defaults[k]).1.eq_spec(&a) ==> override_of(
                custom,
                flags,
                defaults[k].0,
            ) is None,
    ensures
        resolved_defaults(defaults, custom, flags, a) == shipped_bindings(defaults, a),
        !default_overridden(defaults, custom, flags, a),
    decreases defaults.len(),
{
    if defaults.len() > 0 {
        let d = defaults.drop_last();
        assert forall|k: int| 0 <= k < d.len() && (#[trigger] d[k]).1.eq_spec(&a) implies override_of(
            custom,
            flags,
            d[k].0,
        ) is None by {
            assert(d[k] == defaults[k]);
        }
        lemma_untouched_defaults(d, custom, flags, a);
        let last = defaults.len() - 1;
        assert(defaults.last() == defaults[last]);
    }
}

/// With no custom entry binding `a`, no custom binding is added for it.
proof fn lemma_no_custom_bindings<A: PartialEq>(
    custom: Seq<(BindingView, A)>,
    a: A,
    taken: Seq<BindingView>,
)
    requires
        forall|j: int| 0 <= j < custom.len() ==> !(#[trigger] custom[j]).1.eq_spec(&a),
    ensures
        resolved_customs(custom, a, taken) == Seq::<(BindingView, BindingSource)>::empty(),
    decreases custom.len(),
{
    if custom.len() > 0 {
        let c = custom.drop_last();
        assert forall|j: int| 0 <= j < c.len() implies !(#[trigger] c[j]).1.eq_spec(&a) by {
            assert(c[j] == custom[j]);
        }
        lemma_no_custom_bindings(c, a, taken);
        assert(custom.last() == custom[custom.len() - 1]);
    }
}

/// After the user's entries that concern `a` are dropped, `a` is triggered by exactly
/// its shipped bindings, each from the defaults, and nothing counts as changed -
/// whatever the remaining custom actions report.
pub proof fn lemma_reset_restores_defaults<A: PartialEq>(
    defaults: Seq<(BindingView, A)>,
    custom: Seq<(BindingView, A)>,
    flags: Seq<bool>,
    a: A,
)
    requires
        sorted_entries(defaults),
    ensures
        resolved_for_action(
            defaults,
            custom.filter(|e: (BindingView, A)| !concerns(defaults, a, e)),
            flags,
            a,
        ) == (shipped_bindings(defaults, a), false),
{
    let p = |e: (BindingView, A)| !concerns(defaults, a, e);
    let rest = custom.filter(p);
    custom.filter_lemma(p);
    assert forall|k: int| 0 <= k < defaults.len() && (#[trigger] defaults[k]).1.eq_spec(&a) implies override_of(
        rest,
        flags,
        defaults[k].0,
    ) is None by {
        if exists|j: int| 0 <= j < rest.len() && #[trigger] rest[j].0 == defaults[k].0 {
            let j = choose|j: int| 0 <= j < rest.len() && #[trigger] rest[j].0 == defaults[k].0;
            assert(p(rest[j]));
            lemma_find_at(defaults, k);
        }
    }
    lemma_untouched_defaults(defaults, rest, flags, a);
    assert forall|j: int| 0 <= j < rest.len() implies !(#[trigger] rest[j]).1.eq_spec(&a) by {
        assert(p(rest[j]));
    }
    let first = resolved_defaults(defaults, rest, flags, a);
    lemma_no_custom_bindings(rest, a, bindings_of(first));
    assert(first + Seq::<(BindingView, BindingSource)>::empty() =~= first);
}

/// A default binding of `a` the user disabled still counts as a change, so a
/// settings page offers to reset it.
pub proof fn lemma_disabled_default_counts_as_changed<A: PartialEq>(
    defaults: Seq<(BindingView, A)>,
    custom: Seq<(BindingView, A)>,
    flags: Seq<bool>,
    a: A,
    k: int,
    j: int,
)
    requires
        sorted_entries(custom),
        0 <= k < defaults.len(),
        0 <= j < custom.len(),
        flags.len() == custom.len(),
        defaults[k].1.eq_spec(&a),
        custom[j].0 == defaults[k].0,
        flags[j],
    ensures
        resolved_for_action(defaults, custom, flags, a).1,
{
    lemma_only_index(custom, j);
    assert(override_of(custom, flags, defaults[k].0) == Some((custom[j].1, flags[j])));
    assert(default_overridden(defaults, custom, flags, a));
}

/// Every binding resolved from the defaults is a default binding of `a` that the
/// user left alone or bound to `a` again.
proof fn lemma_resolved_default_origin<A: PartialEq>(
    defaults: Seq<(BindingView, A)>,
    custom: Seq<(BindingView, A)>,
    flags: Seq<bool>,
    a: A,
    b: BindingView,
)
    requires
        bindings_of(resolved_defaults(defaults, custom, flags, a)).contains(b),
    ensures
        exists|k: int|
            0 <= k < defaults.len() && (#[trigger] defaults[k]).0 == b && defaults[k].1.eq_spec(&a)
                && match override_of(custom, flags, b) {
                None => true,
                Some((c, disabled)) => !disabled && c.eq_spec(&a),
            },
    decreases defaults.len(),
{
    let r = resolved_defaults(defaults, custom, flags, a);
    if defaults.len() > 0 {
        let d = defaults.drop_last();
        let prev = resolved_defaults(d, custom, flags, a);
        let i = choose|i: int| 0 <= i < bindings_of(r).len() && bindings_of(r)[i] == b;
        let last = defaults.len() - 1;
        assert(defaults.last() == defaults[last]);
        if i < prev.len() {
            assert(r[i] == prev[i]);
            assert(bindings_of(prev)[i] == b);
            lemma_resolved_default_origin(d, custom, flags, a, b);
            let k = choose|k: int|
                0 <= k < d.len() && (#[trigger] d[k]).0 == b && d[k].1.eq_spec(&a) && match override_of(
                    custom,
                    flags,
                    b,
                ) {
                    None => true,
                    Some((c, disabled)) => !disabled && c.eq_spec(&a),
                };
            assert(defaults[k] == d[k]);
        } else {
            assert(r[i].0 == defaults[last].0);
        }
    }
}

/// A custom binding of `a` outside `taken` is added.
proof fn lemma_custom_binding_added<A: PartialEq>(
    custom: Seq<(BindingView, A)>,
    a: A,
    taken: Seq<BindingView>,
    j: int,
)
    requires
        0 <= j < custom.len(),
        custom[j].1.eq_spec(&a),
        !taken.contains(custom[j].0),
    ensures
        resolved_customs(custom, a, taken).len() > 0,
    decreases custom.len(),
{
    if j < custom.len() - 1 {
        let c = custom.drop_last();
        assert(c[j] == custom[j]);
        lemma_custom_binding_added(c, a, taken, j);
    }
}

/// A custom binding the user added for `a` counts as a change.
pub proof fn lemma_added_binding_counts_as_changed<A: PartialEq>(
    defaults: Seq<(BindingView, A)>,
    custom: Seq<(BindingView, A)>,
    flags: Seq<bool>,
    a: A,
    j: int,
)
    requires
        sorted_entries(custom),
        0 <= j < custom.len(),
        flags.len() == custom.len(),
        custom[j].1.eq_spec(&a),
    ensures
        resolved_for_action(defaults, custom, flags, a).1,
{
    let first = resolved_defaults(defaults, custom, flags, a);
    let b = custom[j].0;
    if bindings_of(first).contains(b) {
        lemma_resolved_default_origin(defaults, custom, flags, a, b);
        let k = choose|k: int|
            0 <= k < defaults.len() && (#[trigger] defaults[k]).0 == b && defaults[k].1.eq_spec(&a)
                && match override_of(custom, flags, b) {
                None => true,
                Some((c, disabled)) => !disabled && c.eq_spec(&a),
            };
        lemma_only_index(custom, j);
        assert(override_of(custom, flags, b) == Some((custom[j].1, flags[j])));
        assert(default_overridden(defaults, custom, flags, a));
    } else {
        lemma_custom_binding_added(custom, a, bindings_of(first), j);
    }
}

/// A binding added for `a` is a custom entry of `a`.
proof fn lemma_added_binding_origin<A: PartialEq>(
    custom: Seq<(BindingView, A)>,
    a: A,
    taken: Seq<BindingView>,
)
    requires
        resolved_customs(custom, a, taken).len() > 0,
    ensures
        exists|j: int| 0 <= j < custom.len() && (#[trigger] custom[j]).1.eq_spec(&a),
    decreases custom.len(),
{
    let last = custom.len() - 1;
    assert(custom.last() == custom[last]);
    if !(custom[last].1.eq_spec(&a) && !taken.contains(custom[last].0)) {
        let c = custom.drop_last();
        lemma_added_binding_origin(c, a, taken);
        let j = choose|j: int| 0 <= j < c.len() && (#[trigger] c[j]).1.eq_spec(&a);
        assert(custom[j] == c[j]);
    }
}

/// When the bindings of `a` count as changed, a reset of `a` has a custom entry to
/// drop.
proof fn lemma_changed_means_reset_drops_something<A: PartialEq>(
    defaults: Seq<(BindingView, A)>,
    custom: Seq<(BindingView, A)>,
    flags: Seq<bool>,
    a: A,
)
    requires
        sorted_entries(defaults),
        resolved_for_action(defaults, custom, flags, a).1,
    ensures
        exists|j: int| 0 <= j < custom.len() && concerns(defaults, a, #[trigger] custom[j]),
{
    let first = resolved_defaults(defaults, custom, flags, a);
    if default_overridden(defaults, custom, flags, a) {
        let k = choose|k: int|
            0 <= k < defaults.len() && (#[trigger] defaults[k]).1.eq_spec(&a) && override_of(
                custom,
                flags,
                defaults[k].0,
            ) is Some;
        let j = choose|j: int| 0 <= j < custom.len() && #[trigger] custom[j].0 == defaults[k].0;
        lemma_find_at(defaults, k);
        assert(concerns(defaults, a, custom[j]));
    } else {
        lemma_added_binding_origin(custom, a, bindings_of(first));
        let j = choose|j: int| 0 <= j < custom.len() && (#[trigger] custom[j]).1.eq_spec(&a);
        assert(concerns(defaults, a, custom[j]));
    }
}

/// Filtering by a predicate every element satisfies keeps the sequence as it is.
proof fn lemma_filter_keeps_all<A>(s: Seq<A>, p: spec_fn(A) -> bool)
    requires
        forall|i: int| 0 <= i < s.len() ==> p(#[trigger] s[i]),
    ensures
        s.filter(p) == s,
    decreases s.len(),
{
    reveal(Seq::filter);
    if s.len() > 0 {
        lemma_filter_keeps_all(s.drop_last(), p);
        assert(p(s[s.len() - 1]));
        assert(s.drop_last().push(s.last()) =~= s);
    }
}

/// The bindings of `a` count as changed exactly when resetting `a` would change the
/// user's map: when a custom entry binds `a`, or overrides a combination `a` ships
/// with - by disabling it, binding it to another action or binding it to `a` again.
pub proof fn lemma_changed_exactly_when_reset_changes_map<A: PartialEq>(
    defaults: Seq<(BindingView, A)>,
    custom: Seq<(BindingView, A)>,
    flags: Seq<bool>,
    a: A,
)
    requires
        sorted_entries(defaults),
        sorted_entries(custom),
        flags.len() == custom.len(),
    ensures
        resolved_for_action(defaults, custom, flags, a).1 <==> custom.filter(
            |e: (BindingView, A)| !concerns(defaults, a, e),
        ) != custom,
{
    let p = |e: (BindingView, A)| !concerns(defaults, a, e);
    custom.filter_lemma(p);
    if resolved_for_action(defaults, custom, flags, a).1 {
        lemma_changed_means_reset_drops_something(defaults, custom, flags, a);
        let j = choose|j: int| 0 <= j < custom.len() && concerns(defaults, a, #[trigger] custom[j]);
        if custom.filter(p) == custom {
            assert(p(custom.filter(p)[j]));
        }
    } else {
        if exists|j: int| 0 <= j < custom.len() && !p(#[trigger] custom[j]) {
            let j = choose|j: int| 0 <= j < custom.len() && !p(#[trigger] custom[j]);
            if custom[j].1.eq_spec(&a) {
                lemma_added_binding_counts_as_changed(defaults, custom, flags, a, j);
            } else {
                let b = custom[j].0;
                assert(find(defaults, b) is Some);
                let k = choose|k: int| 0 <= k < defaults.len() && #[trigger] defaults[k].0 == b;
                assert(0 <= j < custom.len() && custom[j].0 == defaults[k].0);
                assert(override_of(custom, flags, defaults[k].0) is Some);
                assert(default_overridden(defaults, custom, flags, a));
            }
        }
        lemma_filter_keeps_all(custom, p);
    }
}

/// No binding occurs twice.
pub open spec fn distinct_bindings(s: Seq<BindingView>) -> bool {
    forall|i: int, j: int| 0 <= i < j < s.len() ==> #[trigger] s[i] != #[trigger] s[j]
}

/// The bindings resolved from a sorted map of defaults occur once each.
proof fn lemma_resolved_defaults_distinct<A: PartialEq>(
    defaults: Seq<(BindingView, A)>,
    custom: Seq<(BindingView, A)>,
    flags: Seq<bool>,
    a: A,
)
    requires
        sorted_entries(defaults),
    ensures
        distinct_bindings(bindings_of(resolved_defaults(defaults, custom, flags, a))),
    decreases defaults.len(),
{
    if defaults.len() > 0 {
        let d = defaults.drop_last();
        let prev = resolved_defaults(d, custom, flags, a);
        let r = resolved_defaults(defaults, custom, flags, a);
        let last = defaults.len() - 1;
        assert(defaults.last() == defaults[last]);
        lemma_resolved_defaults_distinct(d, custom, flags, a);
        if r != prev {
            let x = defaults[last].0;
            assert(r == prev.push((x, r.last().1)));
            if bindings_of(prev).contains(x) {
                lemma_resolved_default_origin(d, custom, flags, a, x);
                let k = choose|k: int|
                    0 <= k < d.len() && (#[trigger] d[k]).0 == x && d[k].1.eq_spec(&a) && match override_of(
                        custom,
                        flags,
                        x,
                    ) {
                        None => true,
                        Some((c, disabled)) => !disabled && c.eq_spec(&a),
                    };
                assert(d[k] == defaults[k]);
                assert(binding_lt(defaults[k].0, defaults[last].0));
                lemma_binding_irreflexive(x);
            }
            assert(bindings_of(r) =~= bindings_of(prev).push(x));
        }
    }
}

/// A default binding of `a` the user left alone or bound to `a` again is resolved.
proof fn lemma_resolved_default_kept<A: PartialEq>(
    defaults: Seq<(BindingView, A)>,
    custom: Seq<(BindingView, A)>,
    flags: Seq<bool>,
    a: A,
    k: int,
)
    requires
        0 <= k < defaults.len(),
        defaults[k].1.eq_spec(&a),
        match override_of(custom, flags, defaults[k].0) {
            None => true,
            Some((c, disabled)) => !disabled && c.eq_spec(&a),
        },
    ensures
        bindings_of(resolved_defaults(defaults, custom, flags, a)).contains(defaults[k].0),
    decreases defaults.len(),
{
    let d = defaults.drop_last();
    let prev = resolved_defaults(d, custom, flags, a);
    let r = resolved_defaults(defaults, custom, flags, a);
    let last = defaults.len() - 1;
    assert(defaults.last() == defaults[last]);
    if k == last {
        assert(r.last().0 == defaults[k].0);
        assert(bindings_of(r)[r.len() - 1] == defaults[k].0);
    } else {
        assert(d[k] == defaults[k]);
        lemma_resolved_default_kept(d, custom, flags, a, k);
        let i = choose|i: int| 0 <= i < bindings_of(prev).len() && bindings_of(prev)[i] == defaults[k].0;
        if r != prev {
            assert(r =~= prev.push(r.last()));
            assert(r[i] == prev[i]);
        }
        assert(bindings_of(r)[i] == defaults[k].0);
    }
}

/// A binding added for `a` is a custom entry of `a` outside `taken`.
proof fn lemma_added_binding_at<A: PartialEq>(
    custom: Seq<(BindingView, A)>,
    a: A,
    taken: Seq<BindingView>,
    b: BindingView,
)
    requires
        bindings_of(resolved_customs(custom, a, taken)).contains(b),
    ensures
        exists|j: int|
            0 <= j < custom.len() && (#[trigger] custom[j]).0 == b && custom[j].1.eq_spec(&a)
                && !taken.contains(b),
    decreases custom.len(),
{
    let c = custom.drop_last();
    let prev = resolved_customs(c, a, taken);
    let r = resolved_customs(custom, a, taken);
    let last = custom.len() - 1;
    assert(custom.last() == custom[last]);
    let i = choose|i: int| 0 <= i < bindings_of(r).len() && bindings_of(r)[i] == b;
    if r != prev && i == r.len() - 1 {
        assert(r[i].0 == custom[last].0);
    } else {
        if r != prev {
            assert(r =~= prev.push(r.last()));
        }
        assert(r[i] == prev[i]);
        assert(bindings_of(prev)[i] == b);
        lemma_added_binding_at(c, a, taken, b);
        let j = choose|j: int|
            0 <= j < c.len() && (#[trigger] c[j]).0 == b && c[j].1.eq_spec(&a) && !taken.contains(b);
        assert(custom[j] == c[j]);
    }
}

/// A custom entry of `a` outside `taken` is added.
proof fn lemma_added_binding_kept<A: PartialEq>(
    custom: Seq<(BindingView, A)>,
    a: A,
    taken: Seq<BindingView>,
    j: int,
)
    requires
        0 <= j < custom.len(),
        custom[j].1.eq_spec(&a),
        !taken.contains(custom[j].0),
    ensures
        bindings_of(resolved_customs(custom, a, taken)).contains(custom[j].0),
    decreases custom.len(),
{
    let c = custom.drop_last();
    let prev = resolved_customs(c, a, taken);
    let r = resolved_customs(custom, a, taken);
    let last = custom.len() - 1;
    assert(custom.last() == custom[last]);
    if j == last {
        assert(bindings_of(r)[r.len() - 1] == custom[j].0);
    } else {
        assert(c[j] == custom[j]);
        lemma_added_binding_kept(c, a, taken, j);
        let i = choose|i: int| 0 <= i < bindings_of(prev).len() && bindings_of(prev)[i] == custom[j].0;
        if r != prev {
            assert(r =~= prev.push(r.last()));
            assert(r[i] == prev[i]);
        }
        assert(bindings_of(r)[i] == custom[j].0);
    }
}

/// The bindings added from a sorted custom map occur once each.
proof fn lemma_added_bindings_distinct<A: PartialEq>(
    custom: Seq<(BindingView, A)>,
    a: A,
    taken: Seq<BindingView>,
)
    requires
        sorted_entries(custom),
    ensures
        distinct_bindings(bindings_of(resolved_customs(custom, a, taken))),
    decreases custom.len(),
{
    if custom.len() > 0 {
        let c = custom.drop_last();
        let prev = resolved_customs(c, a, taken);
        let r = resolved_customs(custom, a, taken);
        let last = custom.len() - 1;
        assert(custom.last() == custom[last]);
        lemma_added_bindings_distinct(c, a, taken);
        if r != prev {
            let x = custom[last].0;
            assert(r == prev.push((x, BindingSource::Custom)));
            if bindings_of(prev).contains(x) {
                lemma_added_binding_at(c, a, taken, x);
                let j = choose|j: int|
                    0 <= j < c.len() && (#[trigger] c[j]).0 == x && c[j].1.eq_spec(&a) && !taken.contains(x);
                assert(c[j] == custom[j]);
                assert(binding_lt(custom[j].0, custom[last].0));
                lemma_binding_irreflexive(x);
            }
            assert(bindings_of(r) =~= bindings_of(prev).push(x));
        }
    }
}

/// The bindings listed for `a` are exactly the combinations that trigger `a`, each
/// once - for an action that does not itself disable: whatever the custom entries of
/// `a` reported, it was not a disable.
pub proof fn lemma_resolution_lists_exactly_the_triggering_bindings<A: PartialEq>(
    defaults: Seq<(BindingView, A)>,
    custom: Seq<(BindingView, A)>,
    flags: Seq<bool>,
    a: A,
)
    requires
        sorted_entries(defaults),
        sorted_entries(custom),
        flags.len() == custom.len(),
        forall|j: int| 0 <= j < custom.len() && (#[trigger] custom[j]).1.eq_spec(&a) ==> !flags[j],
    ensures
        distinct_bindings(bindings_of(resolved_for_action(defaults, custom, flags, a).0)),
        forall|b: BindingView|
            #[trigger] bindings_of(resolved_for_action(defaults, custom, flags, a).0).contains(b)
                <==> (triggered_action(defaults, custom, flags, b) matches Some(c) && c.eq_spec(&a)),
{
    let first = resolved_defaults(defaults, custom, flags, a);
    let taken = bindings_of(first);
    let second = resolved_customs(custom, a, taken);
    let all = bindings_of(first + second);
    assert(all =~= taken + bindings_of(second));
    lemma_resolved_defaults_distinct(defaults, custom, flags, a);
    lemma_added_bindings_distinct(custom, a, taken);
    assert forall|i: int, j: int| 0 <= i < j < all.len() implies #[trigger] all[i] != #[trigger] all[j] by {
        if i < taken.len() && j >= taken.len() {
            let y = bindings_of(second)[j - taken.len()];
            assert(all[j] == y);
            assert(bindings_of(second).contains(y));
            lemma_added_binding_at(custom, a, taken, y);
            assert(all[i] == taken[i]);
        } else if j < taken.len() {
            assert(all[i] == taken[i] && all[j] == taken[j]);
        } else {
            assert(all[i] == bindings_of(second)[i - taken.len()]);
            assert(all[j] == bindings_of(second)[j - taken.len()]);
        }
    }
    assert forall|b: BindingView| #[trigger] all.contains(b)
        <==> (triggered_action(defaults, custom, flags, b) matches Some(c) && c.eq_spec(&a)) by {
        if all.contains(b) {
            let i = choose|i: int| 0 <= i < all.len() && all[i] == b;
            if i < taken.len() {
                assert(taken[i] == b);
                assert(taken.contains(b));
                lemma_resolved_default_origin(defaults, custom, flags, a, b);
                let k = choose|k: int|
                    0 <= k < defaults.len() && (#[trigger] defaults[k]).0 == b && defaults[k].1.eq_spec(&a)
                        && match override_of(custom, flags, b) {
                        None => true,
                        Some((c, disabled)) => !disabled && c.eq_spec(&a),
                    };
                lemma_find_at(defaults, k);
            } else {
                assert(bindings_of(second)[i - taken.len()] == b);
                assert(bindings_of(second).contains(b));
                lemma_added_binding_at(custom, a, taken, b);
                let j = choose|j: int|
                    0 <= j < custom.len() && (#[trigger] custom[j]).0 == b && custom[j].1.eq_spec(&a)
                        && !taken.contains(b);
                lemma_only_index(custom, j);
                assert(override_of(custom, flags, b) == Some((custom[j].1, flags[j])));
            }
        }
        if triggered_action(defaults, custom, flags, b) matches Some(c) && c.eq_spec(&a) {
            let in_defaults = exists|k: int| 0 <= k < defaults.len() && #[trigger] defaults[k].0 == b && defaults[k].1.eq_spec(&a);
            match override_of(custom, flags, b) {
                Some((c, disabled)) => {
                    let j = choose|j: int| 0 <= j < custom.len() && #[trigger] custom[j].0 == b;
                    assert(c == custom[j].1);
                    if in_defaults {
                        let k = choose|k: int| 0 <= k < defaults.len() && #[trigger] defaults[k].0 == b && defaults[k].1.eq_spec(&a);
                        lemma_resolved_default_kept(defaults, custom, flags, a, k);
                        let i = choose|i: int| 0 <= i < taken.len() && taken[i] == b;
                        assert(all[i] == b);
                    } else {
                        if taken.contains(b) {
                            lemma_resolved_default_origin(defaults, custom, flags, a, b);
                        }
                        lemma_added_binding_kept(custom, a, taken, j);
                        let i = choose|i: int| 0 <= i < bindings_of(second).len() && bindings_of(second)[i] == b;
                        assert(all[taken.len() + i] == b);
                    }
                },
                None => {
                    let k = choose|k: int| 0 <= k < defaults.len() && #[trigger] defaults[k].0 == b;
                    lemma_resolved_default_kept(defaults, custom, flags, a, k);
                    let i = choose|i: int| 0 <= i < taken.len() && taken[i] == b;
                    assert(all[i] == b);
                },
            }
        }
    }
}

/// Entries that do not resolve to `kb` leave what `kb` holds as it was.
proof fn lemma_other_entries_keep<T>(
    m: Map<KeyBindView, T>,
    bindings: Seq<BindingView>,
    disables: Seq<bool>,
    outs: Seq<Option<T>>,
    kb: KeyBindView,
)
    requires
        disables.len() == bindings.len(),
        outs.len() == bindings.len(),
        forall|i: int| 0 <= i < bindings.len() ==> key_bind_of(#[trigger] bindings[i]) != Some(kb),
    ensures
        bind_entries(m, bindings, disables, outs).dom().contains(kb) == m.dom().contains(kb),
        m.dom().contains(kb) ==> bind_entries(m, bindings, disables, outs)[kb] == m[kb],
    decreases bindings.len(),
{
    if bindings.len() > 0 {
        let bs = bindings.drop_last();
        assert forall|i: int| 0 <= i < bs.len() implies key_bind_of(#[trigger] bs[i]) != Some(kb) by {
            assert(bs[i] == bindings[i]);
        }
        lemma_other_entries_keep(m, bs, disables.drop_last(), outs.drop_last(), kb);
        assert(bindings.last() == bindings[bindings.len() - 1]);
    }
}

/// Of the entries resolving to `kb`, the last one decides: a disabling one takes `kb`
/// away, any other binds `kb` to what its action was turned into, if anything.
pub proof fn lemma_last_entry_decides<T>(
    m: Map<KeyBindView, T>,
    bindings: Seq<BindingView>,
    disables: Seq<bool>,
    outs: Seq<Option<T>>,
    j: int,
)
    requires
        disables.len() == bindings.len(),
        outs.len() == bindings.len(),
        0 <= j < bindings.len(),
        key_bind_of(bindings[j]) is Some,
        forall|i: int|
            j < i < bindings.len() ==> key_bind_of(#[trigger] bindings[i]) != key_bind_of(
                bindings[j],
            ),
    ensures
        ({
            let kb = key_bind_of(bindings[j])->0;
            let r = bind_entries(m, bindings, disables, outs);
            &&& disables[j] ==> !r.dom().contains(kb)
            &&& !disables[j] && outs[j] is Some ==> r.dom().contains(kb) && r[kb] == outs[j]->0
        }),
    decreases bindings.len(),
{
    let kb = key_bind_of(bindings[j])->0;
    let n = bindings.len();
    if j == n - 1 {
        assert(bindings.last() == bindings[j]);
        assert(disables.last() == disables[j]);
        assert(outs.last() == outs[j]);
    } else {
        let bs = bindings.drop_last();
        assert(bs[j] == bindings[j]);
        assert forall|i: int| j < i < bs.len() implies key_bind_of(#[trigger] bs[i]) != key_bind_of(
            bs[j],
        ) by {
            assert(bs[i] == bindings[i]);
        }
        lemma_last_entry_decides(m, bs, disables.drop_last(), outs.drop_last(), j);
        assert(disables.drop_last()[j] == disables[j]);
        assert(outs.drop_last()[j] == outs[j]);
        assert(bindings.last() == bindings[n - 1]);
        assert(key_bind_of(bindings[n - 1]) != Some(kb));
    }
}

/// A custom entry whose action reports a disable takes the inherited combination away,
/// unless a later custom entry binds the same combination again.
pub proof fn lemma_custom_disable_removes<A, T>(
    defaults: Seq<(BindingView, A)>,
    custom: Seq<(BindingView, A)>,
    flags: Seq<bool>,
    default_outs: Seq<Option<T>>,
    custom_outs: Seq<Option<T>>,
    j: int,
)
    requires
        flags.len() == custom.len(),
        default_outs.len() == defaults.len(),
        custom_outs.len() == custom.len(),
        0 <= j < custom.len(),
        key_bind_of(custom[j].0) is Some,
        flags[j],
        forall|i: int|
            j < i < custom.len() ==> key_bind_of((#[trigger] custom[i]).0) != key_bind_of(
                custom[j].0,
            ),
    ensures
        !resolved_key_binds(defaults, custom, flags, default_outs, custom_outs).dom().contains(
            key_bind_of(custom[j].0)->0,
        ),
{
    let bs = entry_bindings(custom);
    assert forall|i: int| j < i < bs.len() implies key_bind_of(#[trigger] bs[i]) != key_bind_of(
        bs[j],
    ) by {
        assert(bs[i] == custom[i].0);
    }
    lemma_last_entry_decides(
        bind_entries(
            Map::empty(),
            entry_bindings(defaults),
            no_flags(defaults.len()),
            default_outs,
        ),
        bs,
        flags,
        custom_outs,
        j,
    );
}

/// A custom entry that does not disable wins over the default for its combination,
/// unless a later custom entry binds the same combination again.
pub proof fn lemma_custom_binding_wins<A, T>(
    defaults: Seq<(BindingView, A)>,
    custom: Seq<(BindingView, A)>,
    flags: Seq<bool>,
    default_outs: Seq<Option<T>>,
    custom_outs: Seq<Option<T>>,
    j: int,
)
    requires
        flags.len() == custom.len(),
        default_outs.len() == defaults.len(),
        custom_outs.len() == custom.len(),
        0 <= j < custom.len(),
        key_bind_of(custom[j].0) is Some,
        !flags[j],
        custom_outs[j] is Some,
        forall|i: int|
            j < i < custom.len() ==> key_bind_of((#[trigger] custom[i]).0) != key_bind_of(
                custom[j].0,
            ),
    ensures
        resolved_key_binds(defaults, custom, flags, default_outs, custom_outs).dom().contains(
            key_bind_of(custom[j].0)->0,
        ),
        resolved_key_binds(defaults, custom, flags, default_outs, custom_outs)[key_bind_of(
            custom[j].0,
        )->0] == custom_outs[j]->0,
{
    let bs = entry_bindings(custom);
    assert forall|i: int| j < i < bs.len() implies key_bind_of(#[trigger] bs[i]) != key_bind_of(
        bs[j],
    ) by {
        assert(bs[i] == custom[i].0);
    }
    lemma_last_entry_decides(
        bind_entries(
            Map::empty(),
            entry_bindings(defaults),
            no_flags(defaults.len()),
            default_outs,
        ),
        bs,
        flags,
        custom_outs,
        j,
    );
}

/// Where no custom entry resolves to a combination, the defaults decide it alone.
pub proof fn lemma_defaults_stand_where_custom_is_silent<A, T>(
    defaults: Seq<(BindingView, A)>,
    custom: Seq<(BindingView, A)>,
    flags: Seq<bool>,
    default_outs: Seq<Option<T>>,
    custom_outs: Seq<Option<T>>,
    kb: KeyBindView,
)
    requires
        flags.len() == custom.len(),
        custom_outs.len() == custom.len(),
        forall|i: int| 0 <= i < custom.len() ==> key_bind_of((#[trigger] custom[i]).0) != Some(kb),
    ensures
        ({
            let shipped = bind_entries(
                Map::empty(),
                entry_bindings(defaults),
                no_flags(defaults.len()),
                default_outs,
            );
            let r = resolved_key_binds(defaults, custom, flags, default_outs, custom_outs);
            &&& r.dom().contains(kb) == shipped.dom().contains(kb)
            &&& shipped.dom().contains(kb) ==> r[kb] == shipped[kb]
        }),
{
    let bs = entry_bindings(custom);
    assert forall|i: int| 0 <= i < bs.len() implies key_bind_of(#[trigger] bs[i]) != Some(kb) by {
        assert(bs[i] == custom[i].0);
    }
    lemma_other_entries_keep(
        bind_entries(
            Map::empty(),
            entry_bindings(defaults),
            no_flags(defaults.len()),
            default_outs,
        ),
        bs,
        flags,
        custom_outs,
        kb,
    );
}

/// A combination the entries hold was held before or is one an entry resolves to.
proof fn lemma_bound_keys_come_from_entries<T>(
    m: Map<KeyBindView, T>,
    bindings: Seq<BindingView>,
    disables: Seq<bool>,
    outs: Seq<Option<T>>,
    kb: KeyBindView,
)
    requires
        disables.len() == bindings.len(),
        outs.len() == bindings.len(),
        bind_entries(m, bindings, disables, outs).dom().contains(kb),
    ensures
        m.dom().contains(kb) || exists|i: int|
            0 <= i < bindings.len() && key_bind_of(#[trigger] bindings[i]) == Some(kb),
    decreases bindings.len(),
{
    if bindings.len() > 0 {
        let bs = bindings.drop_last();
        let last = bindings.len() - 1;
        assert(bindings.last() == bindings[last]);
        if key_bind_of(bindings[last]) != Some(kb) {
            lemma_bound_keys_come_from_entries(m, bs, disables.drop_last(), outs.drop_last(), kb);
            if !m.dom().contains(kb) {
                let i = choose|i: int| 0 <= i < bs.len() && key_bind_of(#[trigger] bs[i]) == Some(kb);
                assert(bs[i] == bindings[i]);
            }
        }
    }
}

/// A binding that occurs in the shipped or the user's map.
pub open spec fn occurs_in<A>(
    defaults: Seq<(BindingView, A)>,
    custom: Seq<(BindingView, A)>,
    b: BindingView,
) -> bool {
    entry_bindings(defaults).contains(b) || entry_bindings(custom).contains(b)
}

/// Where every action dispatches as itself and no two different bindings of the maps
/// stand for the same combination, the resolved combinations are exactly those of the
/// bindings that trigger something, each holding the action its binding triggers.
pub proof fn lemma_key_binds_follow_the_lookup<A>(
    defaults: Seq<(BindingView, A)>,
    custom: Seq<(BindingView, A)>,
    flags: Seq<bool>,
    default_outs: Seq<Option<A>>,
    custom_outs: Seq<Option<A>>,
)
    requires
        sorted_entries(defaults),
        sorted_entries(custom),
        flags.len() == custom.len(),
        default_outs.len() == defaults.len(),
        custom_outs.len() == custom.len(),
        forall|i: int|
            0 <= i < defaults.len() && key_bind_of(defaults[i].0) is Some ==> #[trigger] default_outs[i]
                == Some(defaults[i].1),
        forall|j: int|
            0 <= j < custom.len() && key_bind_of(custom[j].0) is Some && !flags[j] ==> #[trigger] custom_outs[j]
                == Some(custom[j].1),
        forall|x: BindingView, y: BindingView|
            occurs_in(defaults, custom, x) && occurs_in(defaults, custom, y) && key_bind_of(x) is Some
                && #[trigger] key_bind_of(x) == #[trigger] key_bind_of(y) ==> x == y,
    ensures
        forall|b: BindingView|
            occurs_in(defaults, custom, b) && (#[trigger] key_bind_of(b)) is Some ==> {
                let kb = key_bind_of(b)->0;
                let r = resolved_key_binds(defaults, custom, flags, default_outs, custom_outs);
                &&& r.dom().contains(kb) <==> triggered_action(defaults, custom, flags, b) is Some
                &&& r.dom().contains(kb) ==> Some(r[kb]) == triggered_action(defaults, custom, flags, b)
            },
        forall|kb: KeyBindView|
            #[trigger] resolved_key_binds(defaults, custom, flags, default_outs, custom_outs).dom().contains(kb)
                ==> exists|b: BindingView| occurs_in(defaults, custom, b) && key_bind_of(b) == Some(kb),
{
    let dbs = entry_bindings(defaults);
    let cbs = entry_bindings(custom);
    let shipped = bind_entries(Map::empty(), dbs, no_flags(defaults.len()), default_outs);
    let r = resolved_key_binds(defaults, custom, flags, default_outs, custom_outs);
    assert forall|b: BindingView|
        occurs_in(defaults, custom, b) && (#[trigger] key_bind_of(b)) is Some implies {
            let kb = key_bind_of(b)->0;
            &&& r.dom().contains(kb) <==> triggered_action(defaults, custom, flags, b) is Some
            &&& r.dom().contains(kb) ==> Some(r[kb]) == triggered_action(defaults, custom, flags, b)
        } by {
        let kb = key_bind_of(b)->0;
        if exists|j: int| 0 <= j < custom.len() && #[trigger] custom[j].0 == b {
            let j = choose|j: int| 0 <= j < custom.len() && #[trigger] custom[j].0 == b;
            assert forall|i: int| j < i < custom.len() implies key_bind_of((#[trigger] custom[i]).0)
                != key_bind_of(custom[j].0) by {
                assert(binding_lt(custom[j].0, custom[i].0));
                lemma_binding_irreflexive(b);
                assert(cbs[i] == custom[i].0);
                assert(cbs[j] == custom[j].0);
                assert(occurs_in(defaults, custom, custom[i].0));
                assert(occurs_in(defaults, custom, custom[j].0));
            }
            assert(cbs[j] == b);
            if flags[j] {
                lemma_custom_disable_removes(defaults, custom, flags, default_outs, custom_outs, j);
            } else {
                lemma_custom_binding_wins(defaults, custom, flags, default_outs, custom_outs, j);
            }
        } else {
            assert forall|i: int| 0 <= i < custom.len() implies key_bind_of((#[trigger] custom[i]).0)
                != Some(kb) by {
                assert(cbs[i] == custom[i].0);
                assert(occurs_in(defaults, custom, custom[i].0));
            }
            lemma_defaults_stand_where_custom_is_silent(defaults, custom, flags, default_outs, custom_outs, kb);
            if exists|k: int| 0 <= k < defaults.len() && #[trigger] defaults[k].0 == b {
                let k = choose|k: int| 0 <= k < defaults.len() && #[trigger] defaults[k].0 == b;
                lemma_find_at(defaults, k);
                assert forall|i: int| k < i < dbs.len() implies key_bind_of(#[trigger] dbs[i])
                    != key_bind_of(dbs[k]) by {
                    assert(dbs[i] == defaults[i].0);
                    assert(binding_lt(defaults[k].0, defaults[i].0));
                    lemma_binding_irreflexive(b);
                    assert(occurs_in(defaults, custom, defaults[i].0));
                }
                assert(dbs[k] == b);
                lemma_last_entry_decides(Map::empty(), dbs, no_flags(defaults.len()), default_outs, k);
            } else {
                assert forall|i: int| 0 <= i < dbs.len() implies key_bind_of(#[trigger] dbs[i]) != Some(kb) by {
                    assert(dbs[i] == defaults[i].0);
                    assert(occurs_in(defaults, custom, defaults[i].0));
                }
                lemma_other_entries_keep(Map::empty(), dbs, no_flags(defaults.len()), default_outs, kb);
            }
        }
    }
    assert forall|kb: KeyBindView| #[trigger] r.dom().contains(kb) implies exists|b: BindingView|
        occurs_in(defaults, custom, b) && key_bind_of(b) == Some(kb) by {
        lemma_bound_keys_come_from_entries(shipped, cbs, flags, custom_outs, kb);
        if shipped.dom().contains(kb) {
            lemma_bound_keys_come_from_entries(Map::empty(), dbs, no_flags(defaults.len()), default_outs, kb);
            let i = choose|i: int| 0 <= i < dbs.len() && key_bind_of(#[trigger] dbs[i]) == Some(kb);
            assert(dbs.contains(dbs[i]));
            assert(occurs_in(defaults, custom, dbs[i]));
        } else {
            let i = choose|i: int| 0 <= i < cbs.len() && key_bind_of(#[trigger] cbs[i]) == Some(kb);
            assert(cbs.contains(cbs[i]));
            assert(occurs_in(defaults, custom, cbs[i]));
        }
    }
}

} // verus!
