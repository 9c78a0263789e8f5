//! The user's bindings layered over the ones an application ships.

use super::bind_map::KeyBinds;
use super::keys::key_bind_of;
use super::map::{find, kept, lemma_find_at, lemma_only_index, sorted_entries, Shortcuts};
use crate::widget::menu::key_bind::KeyBindView;
use super::{Binding, BindingView, ShortcutAction};
use vstd::prelude::*;
use vstd::std_specs::cmp::PartialEqSpec;

verus! {

/// Where a resolved binding came from.
#[derive(Clone, Copy, Debug, PartialEq, Eq, Structural)]
pub enum BindingSource {
    Default,
    Custom,
}

/// A binding together with the map it was found in.
#[derive(Clone, Debug, PartialEq, Eq)]
pub struct ResolvedBinding {
    pub binding: Binding,
    pub source: BindingSource,
}

impl View for ResolvedBinding {
    type V = (BindingView, BindingSource);

    open spec fn view(&self) -> (BindingView, BindingSource) {
        (self.binding@, self.source)
    }
}

/// The custom entry for `b`, with the disable flag reported for it, if the custom map
/// holds `b`. `flags[j]` is what the action of `custom[j]` reported.
pub open spec fn override_of<A>(
    custom: Seq<(BindingView, A)>,
    flags: Seq<bool>,
    b: BindingView,
) -> Option<(A, bool)> {
    if exists|j: int| 0 <= j < custom.len() && #[trigger] custom[j].0 == b {
        let j = choose|j: int| 0 <= j < custom.len() && #[trigger] custom[j].0 == b;
        Some((custom[j].1, flags[j]))
    } else {
        None
    }
}

/// The default bindings of `a` that still trigger it, in binding order: those the
/// user left alone (from the defaults) and those the user bound to `a` again (custom).
/// A default the user disabled or bound to another action is left out.
pub open spec fn resolved_defaults<A: PartialEq>(
    defaults: Seq<(BindingView, A)>,
    custom: Seq<(BindingView, A)>,
    flags: Seq<bool>,
    a: A,
) -> Seq<(BindingView, BindingSource)>
    decreases defaults.len(),
{
    if defaults.len() == 0 {
        Seq::empty()
    } else {
        let prev = resolved_defaults(defaults.drop_last(), custom, flags, a);
        let (b, d) = defaults.last();
        if !d.eq_spec(&a) {
            prev
        } else {
            match override_of(custom, flags, b) {
                None => prev.push((b, BindingSource::Default)),
                Some((c, disabled)) => if !disabled && c.eq_spec(&a) {
                    prev.push((b, BindingSource::Custom))
                } else {
                    prev
                },
            }
        }
    }
}

/// The custom bindings of `a` that are not among `taken`, in binding order.
pub open spec fn resolved_customs<A: PartialEq>(
    custom: Seq<(BindingView, A)>,
    a: A,
    taken: Seq<BindingView>,
) -> Seq<(BindingView, BindingSource)>
    decreases custom.len(),
{
    if custom.len() == 0 {
        Seq::empty()
    } else {
        let prev = resolved_customs(custom.drop_last(), a, taken);
        let (b, c) = custom.last();
        if c.eq_spec(&a) && !taken.contains(b) {
            prev.push((b, BindingSource::Custom))
        } else {
            prev
        }
    }
}

/// The bindings of a resolved list.
pub open spec fn bindings_of(rs: Seq<(BindingView, BindingSource)>) -> Seq<BindingView> {
    rs.map_values(|r: (BindingView, BindingSource)| r.0)
}

/// A default binding of `a` that the user overrode: disabled it, bound it to another
/// action, or bound it to `a` again.
pub open spec fn default_overridden<A: PartialEq>(
    defaults: Seq<(BindingView, A)>,
    custom: Seq<(BindingView, A)>,
    flags: Seq<bool>,
    a: A,
) -> bool {
    exists|k: int|
        0 <= k < defaults.len() && (#[trigger] defaults[k]).1.eq_spec(&a) && override_of(
            custom,
            flags,
            defaults[k].0,
        ) is Some
}

/// Every binding that triggers `a`, defaults first, and whether the user changed
/// them: a default was overridden (taken away or bound again), or a custom binding
/// was added.
pub open spec fn resolved_for_action<A: PartialEq>(
    defaults: Seq<(BindingView, A)>,
    custom: Seq<(BindingView, A)>,
    flags: Seq<bool>,
    a: A,
) -> (Seq<(BindingView, BindingSource)>, bool) {
    let first = resolved_defaults(defaults, custom, flags, a);
    let second = resolved_customs(custom, a, bindings_of(first));
    (first + second, default_overridden(defaults, custom, flags, a) || second.len() > 0)
}

/// The action a combination triggers, given the disable flags the custom actions
/// reported: the custom entry decides alone (nothing, if it disables), and without one
/// the shipped action stands.
pub open spec fn triggered_action<A>(
    defaults: Seq<(BindingView, A)>,
    custom: Seq<(BindingView, A)>,
    flags: Seq<bool>,
    b: BindingView,
) -> Option<A> {
    match override_of(custom, flags, b) {
        Some((c, disabled)) => if disabled {
            None
        } else {
            Some(c)
        },
        None => find(defaults, b),
    }
}

/// Whether a custom entry concerns `a`: it binds `a`, or it overrides one of the
/// combinations `a` ships with.
pub open spec fn concerns<A: PartialEq>(
    defaults: Seq<(BindingView, A)>,
    a: A,
    e: (BindingView, A),
) -> bool {
    e.1.eq_spec(&a) || match find(defaults, e.0) {
        Some(d) => d.eq_spec(&a),
        None => false,
    }
}

/// `flags[j]` is what the action of `s[j]` reported when asked whether it disables.
pub open spec fn reported_disables<A: ShortcutAction>(s: Seq<(BindingView, A)>, flags: Seq<bool>) -> bool {
    &&& flags.len() == s.len()
    &&& forall|j: int| 0 <= j < s.len() ==> call_ensures(A::is_disable, (&s[j].1,), #[trigger] flags[j])
}

/// The values of a list of resolved bindings.
pub open spec fn resolved_view(v: Seq<ResolvedBinding>) -> Seq<(BindingView, BindingSource)> {
    v.map_values(|r: ResolvedBinding| r@)
}

/// Keeping the entries flagged by `keep` is filtering by the predicate they were
/// flagged with.
pub proof fn lemma_kept_is_filter<A>(s: Seq<A>, keep: Seq<bool>, p: spec_fn(A) -> bool)
    requires
        keep.len() == s.len(),
        forall|i: int| 0 <= i < s.len() ==> keep[i] == p(#[trigger] s[i]),
    ensures
        kept(s, keep) == s.filter(p),
    decreases s.len(),
{
    reveal(Seq::filter);
    if s.len() > 0 {
        lemma_kept_is_filter(s.drop_last(), keep.drop_last(), p);
        assert(keep.last() == p(s.last()));
    }
}

/// The bindings of a map's entries, in order.
pub open spec fn entry_bindings<A>(s: Seq<(BindingView, A)>) -> Seq<BindingView> {
    s.map_values(|e: (BindingView, A)| e.0)
}

/// What one map entry does to the combinations being resolved: nothing for a binding
/// whose key name does not resolve; a disabling entry takes its combination away; any
/// other entry binds its combination to what its action was turned into, if anything.
pub open spec fn bind_entry<T>(
    m: Map<KeyBindView, T>,
    b: BindingView,
    disables: bool,
    out: Option<T>,
) -> Map<KeyBindView, T> {
    match key_bind_of(b) {
        None => m,
        Some(kb) => if disables {
            m.remove(kb)
        } else {
            match out {
                Some(t) => m.insert(kb, t),
                None => m,
            }
        },
    }
}

/// The entries applied one after the other, in order.
pub open spec fn bind_entries<T>(
    m: Map<KeyBindView, T>,
    bindings: Seq<BindingView>,
    disables: Seq<bool>,
    outs: Seq<Option<T>>,
) -> Map<KeyBindView, T>
    decreases bindings.len(),
{
    if bindings.len() == 0 {
        m
    } else {
        bind_entry(
            bind_entries(m, bindings.drop_last(), disables.drop_last(), outs.drop_last()),
            bindings.last(),
            disables.last(),
            outs.last(),
        )
    }
}

/// A flag for each of `n` entries, none of them set.
pub open spec fn no_flags(n: nat) -> Seq<bool> {
    Seq::new(n, |i: int| false)
}

/// The combinations both maps resolve to: the shipped entries first, where nothing
/// disables, then the user's, where an entry whose action reported a disable takes
/// its combination away. `default_outs[i]` and `custom_outs[j]` are what the actions
/// were turned into.
pub open spec fn resolved_key_binds<A, T>(
    defaults: Seq<(BindingView, A)>,
    custom: Seq<(BindingView, A)>,
    flags: Seq<bool>,
    default_outs: Seq<Option<T>>,
    custom_outs: Seq<Option<T>>,
) -> Map<KeyBindView, T> {
    bind_entries(
        bind_entries(
            Map::empty(),
            entry_bindings(defaults),
            no_flags(defaults.len()),
            default_outs,
        ),
        entry_bindings(custom),
        flags,
        custom_outs,
    )
}

/// `outs[i]` is what `f` turned the action of `s[i]` into, for every entry that
/// binds a resolving combination and is not skipped.
pub open spec fn converted<A, T, F: Fn(&A) -> Option<T>>(
    s: Seq<(BindingView, A)>,
    skip: Seq<bool>,
    outs: Seq<Option<T>>,
    f: F,
) -> bool {
    &&& outs.len() == s.len()
    &&& forall|i: int|
        0 <= i < s.len() && key_bind_of(s[i].0) is Some && !skip[i] ==> call_ensures(
            f,
            (&s[i].1,),
            #[trigger] outs[i],
        )
}

/// The user's bindings layered over the ones the application ships.
#[derive(Clone, Debug, PartialEq, Eq)]
pub struct ShortcutsConfig<A> {
    defaults: Shortcuts<A>,
    pub custom: Shortcuts<A>,
}

impl<A> ShortcutsConfig<A> {
    /// The entries of the shipped map.
    pub closed spec fn default_entries(&self) -> Seq<(BindingView, A)> {
        self.defaults@
    }

    /// The entries of the user's map. Code that replaces the map says so to the
    /// contracts through [`Self::set_custom`]; an assignment to the public field `custom`
    /// does the same, but verified code cannot see through it.
    pub closed spec fn custom_entries(&self) -> Seq<(BindingView, A)> {
        self.custom@
    }

    /// Both maps keep their bindings in binding order, each once.
    pub open spec fn wf(&self) -> bool {
        sorted_entries(self.default_entries()) && sorted_entries(self.custom_entries())
    }
}

impl<A: ShortcutAction> ShortcutsConfig<A> {
    /// Layers `custom` over `defaults`.
    pub fn new(defaults: Shortcuts<A>, custom: Shortcuts<A>) -> (r: Self)
        ensures
            r.wf(),
            r.default_entries() == defaults@,
            r.custom_entries() == custom@,
    {
        proof {
            use_type_invariant(&defaults);
            use_type_invariant(&custom);
        }
        Self { defaults, custom }
    }

    /// Replaces the user's map, keeping the shipped one.
    pub fn set_custom(&mut self, custom: Shortcuts<A>)
        ensures
            final(self).wf(),
            final(self).default_entries() == old(self).default_entries(),
            final(self).custom_entries() == custom@,
    {
        proof {
            use_type_invariant(&self.defaults);
            use_type_invariant(&custom);
        }
        self.custom = custom;
    }

    /// The bindings the application ships, before the user's map is applied.
    pub fn defaults(&self) -> (r: &Shortcuts<A>)
        ensures
            r@ == self.default_entries(),
    {
        &self.defaults
    }

    /// The action a combination triggers, or `None` if it triggers nothing.
    ///
    /// A custom entry decides alone: its action, unless it reports a disable. Without
    /// one, the shipped action stands.
    pub fn action_for_binding(&self, binding: &Binding) -> (r: Option<&A>)
        ensures
            match find(self.custom_entries(), binding@) {
                Some(c) => (r is None && call_ensures(A::is_disable, (&c,), true)) || (r
                    == Some(&c) && call_ensures(A::is_disable, (&c,), false)),
                None => match r {
                    Some(d) => find(self.default_entries(), binding@) == Some(*d),
                    None => find(self.default_entries(), binding@) is None,
                },
            },
    {
        proof {
            use_type_invariant(&self.defaults);
            use_type_invariant(&self.custom);
        }
        if let Some(action) = self.custom.get(binding) {
            return if action.is_disable() {
                None
            } else {
                Some(action)
            };
        }
        self.defaults.get(binding)
    }

    /// Asks every custom action whether it disables, in binding order.
    fn custom_disable_flags(&self) -> (r: Vec<bool>)
        ensures
            reported_disables(self.custom_entries(), r@),
    {
        let mut flags: Vec<bool> = Vec::new();
        let mut j: usize = 0;
        while j < self.custom.len()
            invariant
                j <= self.custom_entries().len(),
                flags@.len() == j,
                forall|k: int|
                    0 <= k < j ==> call_ensures(
                        A::is_disable,
                        (&self.custom_entries()[k].1,),
                        #[trigger] flags@[k],
                    ),
            decreases self.custom_entries().len() - j,
        {
            let (_, action) = self.custom.entry(j);
            flags.push(action.is_disable());
            j = j + 1;
        }
        flags
    }

    /// Whether `binding` is among the first `n` resolved bindings.
    fn among_first(bindings: &Vec<ResolvedBinding>, n: usize, binding: &Binding) -> (r: bool)
        requires
            n <= bindings@.len(),
        ensures
            r == bindings_of(resolved_view(bindings@).take(n as int)).contains(binding@),
    {
        let ghost firsts = bindings_of(resolved_view(bindings@).take(n as int));
        let mut i: usize = 0;
        while i < n
            invariant
                n <= bindings@.len(),
                firsts == bindings_of(resolved_view(bindings@).take(n as int)),
                i <= n,
                forall|k: int| 0 <= k < i ==> #[trigger] firsts[k] != binding@,
            decreases n - i,
        {
            if bindings[i].binding.same_as(binding) {
                proof {
                    assert(firsts[i as int] == binding@);
                }
                return true;
            }
            i = i + 1;
        }
        false
    }

    /// Every binding that currently triggers `action`, and whether the user changed it,
    /// given what each custom action reported when asked whether it disables:
    /// `custom_disabled[j]` for the `j`-th custom entry in binding order.
    pub fn bindings_for_action_reported(&self, action: &A, custom_disabled: &Vec<bool>) -> (r: (
        Vec<ResolvedBinding>,
        bool,
    ))
        requires
            A::obeys_eq_spec(),
            custom_disabled@.len() == self.custom_entries().len(),
        ensures
            (resolved_view(r.0@), r.1) == resolved_for_action(
                self.default_entries(),
                self.custom_entries(),
                custom_disabled@,
                *action,
            ),
    {
        proof {
            use_type_invariant(&self.defaults);
            use_type_invariant(&self.custom);
        }
        let ghost defaults = self.default_entries();
        let ghost custom = self.custom_entries();
        let ghost flags = custom_disabled@;
        let ghost a = *action;
        let mut bindings: Vec<ResolvedBinding> = Vec::new();
        let mut changed = false;
        let mut i: usize = 0;
        while i < self.defaults.len()
            invariant
                self.wf(),
                A::obeys_eq_spec(),
                defaults == self.default_entries(),
                custom == self.custom_entries(),
                flags == custom_disabled@,
                flags.len() == custom.len(),
                a == *action,
                i <= defaults.len(),
                resolved_view(bindings@) == resolved_defaults(defaults.take(i as int), custom, flags, a),
                changed == default_overridden(defaults.take(i as int), custom, flags, a),
            decreases defaults.len() - i,
        {
            let (binding, default_action) = self.defaults.entry(i);
            let ghost before = bindings@;
            proof {
                assert(defaults.take(i + 1).drop_last() =~= defaults.take(i as int));
                assert(defaults.take(i + 1).last() == defaults[i as int]);
                assert forall|k: int| 0 <= k < i implies #[trigger] defaults.take(i + 1)[k]
                    == defaults.take(i as int)[k] by {}
            }
            let ghost step_changes = defaults[i as int].1.eq_spec(&a) && override_of(
                custom,
                flags,
                defaults[i as int].0,
            ) is Some;
            if *default_action == *action {
                match self.custom.index_of(binding) {
                    Some(j) => {
                        proof {
                            lemma_only_index(custom, j as int);
                            assert(custom[j as int].0 == binding@);
                        }
                        // A custom entry on a shipped combination of the action takes
                        // the default away, whatever it does instead; only one that binds
                        // the action again keeps the combination triggering it.
                        if !custom_disabled[j] {
                            let (_, custom_action) = self.custom.entry(j);
                            if *custom_action == *action {
                                bindings.push(
                                    ResolvedBinding {
                                        binding: binding.duplicate(),
                                        source: BindingSource::Custom,
                                    },
                                );
                            }
                        }
                        changed = true;
                    },
                    None => {
                        bindings.push(
                            ResolvedBinding {
                                binding: binding.duplicate(),
                                source: BindingSource::Default,
                            },
                        );
                    },
                }
            }
            proof {
                if step_changes {
                    assert(defaults.take(i + 1)[i as int] == defaults[i as int]);
                }
                if default_overridden(defaults.take(i + 1), custom, flags, a) && !step_changes {
                    let k = choose|k: int|
                        0 <= k < defaults.take(i + 1).len() && (#[trigger] defaults.take(
                            i + 1,
                        )[k]).1.eq_spec(&a) && override_of(
                            custom,
                            flags,
                            defaults.take(i + 1)[k].0,
                        ) is Some;
                    assert(k < i);
                    assert(defaults.take(i as int)[k] == defaults.take(i + 1)[k]);
                }
                assert(resolved_view(bindings@) =~= resolved_defaults(
                    defaults.take(i + 1),
                    custom,
                    flags,
                    a,
                ));
            }
            i = i + 1;
        }
        proof {
            assert(defaults.take(i as int) =~= defaults);
        }
        let ghost first = resolved_view(bindings@);
        let n = bindings.len();
        let mut j: usize = 0;
        while j < self.custom.len()
            invariant
                self.wf(),
                A::obeys_eq_spec(),
                defaults == self.default_entries(),
                custom == self.custom_entries(),
                a == *action,
                j <= custom.len(),
                n <= bindings@.len(),
                first.len() == n,
                first == resolved_defaults(defaults, custom, flags, a),
                resolved_view(bindings@) == first + resolved_customs(
                    custom.take(j as int),
                    a,
                    bindings_of(first),
                ),
                changed == (default_overridden(defaults, custom, flags, a) || resolved_customs(
                    custom.take(j as int),
                    a,
                    bindings_of(first),
                ).len() > 0),
            decreases custom.len() - j,
        {
            let (binding, custom_action) = self.custom.entry(j);
            proof {
                assert(custom.take(j + 1).drop_last() =~= custom.take(j as int));
                assert(custom.take(j + 1).last() == custom[j as int]);
                assert(resolved_view(bindings@).take(n as int) =~= first);
            }
            let ghost prev_view = resolved_view(bindings@);
            let ghost cond = custom[j as int].1.eq_spec(&a) && !bindings_of(first).contains(
                custom[j as int].0,
            );
            if *custom_action == *action && !Self::among_first(&bindings, n, binding) {
                bindings.push(
                    ResolvedBinding { binding: binding.duplicate(), source: BindingSource::Custom },
                );
                changed = true;
                proof {
                    assert(cond);
                    assert(resolved_view(bindings@) =~= prev_view.push((binding@, BindingSource::Custom)));
                }
            } else {
                proof {
                    assert(!cond);
                    assert(resolved_view(bindings@) =~= prev_view);
                }
            }
            proof {
                assert(resolved_view(bindings@) =~= first + resolved_customs(
                    custom.take(j + 1),
                    a,
                    bindings_of(first),
                ));
            }
            j = j + 1;
        }
        proof {
            assert(custom.take(j as int) =~= custom);
        }
        (bindings, changed)
    }

    /// Every binding that currently triggers `action`, and whether the user changed it.
    ///
    /// The flag is what a settings page needs to decide whether to offer a reset: it
    /// is set both when a custom binding was added and when a default was taken away
    /// (disabled, or bound to anything else) - exactly when resetting the action would
    /// change the user's map.
    pub fn bindings_for_action(&self, action: &A) -> (r: (Vec<ResolvedBinding>, bool))
        requires
            A::obeys_eq_spec(),
        ensures
            exists|flags: Seq<bool>|
                reported_disables(self.custom_entries(), flags) && (resolved_view(r.0@), r.1)
                    == resolved_for_action(
                    self.default_entries(),
                    self.custom_entries(),
                    flags,
                    *action,
                ),
    {
        let flags = self.custom_disable_flags();
        let r = self.bindings_for_action_reported(action, &flags);
        proof {
            assert(reported_disables(self.custom_entries(), flags@));
        }
        r
    }

    /// Applies the entries of `shortcuts` to `binds` in binding order. `actions[i]` is
    /// what the action of the `i`-th entry dispatches as; with `allow_disable`, an entry
    /// whose flag in `disabled` is set takes its combination away instead.
    fn insert<T>(
        shortcuts: &Shortcuts<A>,
        binds: &mut KeyBinds<T>,
        allow_disable: bool,
        disabled: &Vec<bool>,
        actions: Vec<Option<T>>,
    )
        requires
            old(binds).wf(),
            actions@.len() == shortcuts@.len(),
            allow_disable ==> disabled@.len() == shortcuts@.len(),
        ensures
            final(binds).wf(),
            final(binds)@ == bind_entries(
                old(binds)@,
                entry_bindings(shortcuts@),
                if allow_disable {
                    disabled@
                } else {
                    no_flags(shortcuts@.len())
                },
                actions@,
            ),
    {
        let ghost start = binds@;
        let ghost bs = entry_bindings(shortcuts@);
        let ghost dis = if allow_disable {
            disabled@
        } else {
            no_flags(shortcuts@.len())
        };
        let ghost outs = actions@;
        let n = actions.len();
        let mut rest = actions;
        let mut i: usize = 0;
        while i < n
            invariant
                binds.wf(),
                n == shortcuts@.len(),
                n == outs.len(),
                bs == entry_bindings(shortcuts@),
                dis == if allow_disable {
                    disabled@
                } else {
                    no_flags(shortcuts@.len())
                },
                allow_disable ==> disabled@.len() == shortcuts@.len(),
                i <= n,
                rest@ == outs.skip(i as int),
                binds@ == bind_entries(
                    start,
                    bs.take(i as int),
                    dis.take(i as int),
                    outs.take(i as int),
                ),
            decreases n - i,
        {
            let (binding, _) = shortcuts.entry(i);
            proof {
                assert(outs.skip(i as int)[0] == outs[i as int]);
            }
            let out = rest.remove(0);
            proof {
                assert(rest@ =~= outs.skip(i + 1));
                assert(bs.take(i + 1).drop_last() =~= bs.take(i as int));
                assert(dis.take(i + 1).drop_last() =~= dis.take(i as int));
                assert(outs.take(i + 1).drop_last() =~= outs.take(i as int));
                assert(bs.take(i + 1).last() == binding@);
                assert(dis.take(i + 1).last() == dis[i as int]);
                assert(outs.take(i + 1).last() == out);
            }
            match binding.to_key_bind() {
                Some(key_bind) => {
                    if allow_disable && disabled[i] {
                        binds.remove(&key_bind);
                    } else {
                        match out {
                            Some(action) => binds.insert(key_bind, action),
                            None => {},
                        }
                    }
                },
                None => {},
            }
            i = i + 1;
        }
        proof {
            assert(bs.take(n as int) =~= bs);
            assert(dis.take(n as int) =~= dis);
            assert(outs.take(n as int) =~= outs);
        }
    }

    /// Resolves both maps into the combinations an application matches against,
    /// given what each custom action reported when asked whether it disables and what
    /// each action dispatches as: `default_actions[i]` for the `i`-th shipped entry,
    /// `custom_actions[j]` for the `j`-th custom entry, `None` where an action has no
    /// counterpart in the running build.
    pub fn key_binds_reported<T>(
        &self,
        custom_disabled: &Vec<bool>,
        default_actions: Vec<Option<T>>,
        custom_actions: Vec<Option<T>>,
    ) -> (r: KeyBinds<T>)
        requires
            custom_disabled@.len() == self.custom_entries().len(),
            default_actions@.len() == self.default_entries().len(),
            custom_actions@.len() == self.custom_entries().len(),
        ensures
            r.wf(),
            r@ == resolved_key_binds(
                self.default_entries(),
                self.custom_entries(),
                custom_disabled@,
                default_actions@,
                custom_actions@,
            ),
    {
        proof {
            use_type_invariant(&self.defaults);
            use_type_invariant(&self.custom);
        }
        let mut binds = KeyBinds::new();
        let unused_flags: Vec<bool> = Vec::new();
        Self::insert(&self.defaults, &mut binds, false, &unused_flags, default_actions);
        Self::insert(&self.custom, &mut binds, true, custom_disabled, custom_actions);
        binds
    }

    /// Resolves both maps into the bindings an application matches against.
    ///
    /// `to_action` turns a stored action into whatever the caller dispatches on, and
    /// returns `None` for an action the running build cannot perform - an action
    /// behind a disabled feature, for instance.
    pub fn key_binds<T, F: Fn(&A) -> Option<T>>(&self, to_action: F) -> (r: KeyBinds<T>)
        requires
            forall|a: &A| call_requires(to_action, (a,)),
        ensures
            r.wf(),
            exists|flags: Seq<bool>, default_outs: Seq<Option<T>>, custom_outs: Seq<Option<T>>|
                {
                    &&& reported_disables(self.custom_entries(), flags)
                    &&& converted(
                        self.default_entries(),
                        no_flags(self.default_entries().len()),
                        default_outs,
                        to_action,
                    )
                    &&& converted(self.custom_entries(), flags, custom_outs, to_action)
                    &&& r@ == resolved_key_binds(
                        self.default_entries(),
                        self.custom_entries(),
                        flags,
                        default_outs,
                        custom_outs,
                    )
                },
    {
        let flags = self.custom_disable_flags();
        let ghost defaults = self.default_entries();
        let ghost custom = self.custom_entries();
        let ghost no_skip = no_flags(defaults.len());
        let mut default_actions: Vec<Option<T>> = Vec::new();
        let mut i: usize = 0;
        while i < self.defaults.len()
            invariant
                defaults == self.default_entries(),
                no_skip == no_flags(defaults.len()),
                forall|a: &A| call_requires(to_action, (a,)),
                i <= defaults.len(),
                default_actions@.len() == i,
                forall|k: int|
                    0 <= k < i && key_bind_of(defaults[k].0) is Some ==> call_ensures(
                        to_action,
                        (&defaults[k].1,),
                        #[trigger] default_actions@[k],
                    ),
            decreases defaults.len() - i,
        {
            let (binding, action) = self.defaults.entry(i);
            if binding.to_key_bind().is_some() {
                default_actions.push(to_action(action));
            } else {
                default_actions.push(None);
            }
            i = i + 1;
        }
        let mut custom_actions: Vec<Option<T>> = Vec::new();
        let mut j: usize = 0;
        while j < self.custom.len()
            invariant
                custom == self.custom_entries(),
                reported_disables(custom, flags@),
                forall|a: &A| call_requires(to_action, (a,)),
                j <= custom.len(),
                custom_actions@.len() == j,
                forall|k: int|
                    0 <= k < j && key_bind_of(custom[k].0) is Some && !flags@[k] ==> call_ensures(
                        to_action,
                        (&custom[k].1,),
                        #[trigger] custom_actions@[k],
                    ),
            decreases custom.len() - j,
        {
            let (binding, action) = self.custom.entry(j);
            if binding.to_key_bind().is_some() && !flags[j] {
                custom_actions.push(to_action(action));
            } else {
                custom_actions.push(None);
            }
            j = j + 1;
        }
        let ghost douts = default_actions@;
        let ghost couts = custom_actions@;
        let r = self.key_binds_reported(&flags, default_actions, custom_actions);
        proof {
            assert(converted(defaults, no_skip, douts, to_action));
            assert(converted(custom, flags@, couts, to_action));
        }
        r
    }

    /// Drops every custom entry that concerns `reset_action`, restoring its defaults.
    ///
    /// Both directions have to go: the entries that bind the action elsewhere, and the
    /// entries that overrode - or disabled - the combinations it shipped with.
    pub fn reset_action(&mut self, reset_action: &A)
        requires
            A::obeys_eq_spec(),
        ensures
            final(self).wf(),
            final(self).default_entries() == old(self).default_entries(),
            final(self).custom_entries() == old(self).custom_entries().filter(
                |e: (BindingView, A)| !concerns(old(self).default_entries(), *reset_action, e),
            ),
    {
        proof {
            use_type_invariant(&self.defaults);
            use_type_invariant(&self.custom);
        }
        let ghost defaults = self.default_entries();
        let ghost custom = self.custom_entries();
        let ghost p = |e: (BindingView, A)| !concerns(defaults, *reset_action, e);
        let mut keep: Vec<bool> = Vec::new();
        let mut i: usize = 0;
        while i < self.custom.len()
            invariant
                self.wf(),
                A::obeys_eq_spec(),
                defaults == self.default_entries(),
                custom == self.custom_entries(),
                p == (|e: (BindingView, A)| !concerns(defaults, *reset_action, e)),
                i <= custom.len(),
                keep@.len() == i,
                forall|k: int| 0 <= k < i ==> #[trigger] keep@[k] == p(custom[k]),
            decreases custom.len() - i,
        {
            let (binding, action) = self.custom.entry(i);
            let keep_it = if *action == *reset_action {
                false
            } else {
                match self.defaults.get(binding) {
                    Some(default_action) => !(*default_action == *reset_action),
                    None => true,
                }
            };
            keep.push(keep_it);
            i = i + 1;
        }
        self.custom.retain_flagged(&keep);
        proof {
            lemma_kept_is_filter(custom, keep@, p);
        }
    }
}

} // verus!
