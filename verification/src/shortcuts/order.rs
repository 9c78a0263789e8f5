//! The order in which a shortcut map keeps its bindings.
//!
//! Bindings are ordered by their modifier list first and their key name second, each
//! compared lexicographically: modifiers by their declaration order (Ctrl, Shift, Alt,
//! Super), key names character by character by code point. Code point order on the
//! characters of two strings is the order of their UTF-8 bytes, so this is the order
//! `Ord` gives `Vec<ModifierName>` and `String`.

use super::{Binding, BindingView, ModifierName};
use crate::strings::chars_of;
use vstd::prelude::*;

verus! {

/// `a` and `b` agree on their first `n` elements.
pub open spec fn agree_on_prefix(a: Seq<int>, b: Seq<int>, n: int) -> bool {
    forall|j: int| 0 <= j < n ==> a[j] == b[j]
}

/// Lexicographic order: `a` is smaller at the first place the two differ, or `a` is a
/// proper prefix of `b`.
pub open spec fn lex_lt(a: Seq<int>, b: Seq<int>) -> bool {
    ||| exists|k: int|
        #![trigger a[k], b[k]]
        0 <= k < a.len() && k < b.len() && a[k] < b[k] && agree_on_prefix(a, b, k)
    ||| a.len() < b.len() && agree_on_prefix(a, b, a.len() as int)
}

/// Position of a modifier in the declaration order of [`ModifierName`].
pub open spec fn modifier_rank(m: ModifierName) -> int {
    match m {
        ModifierName::Ctrl => 0,
        ModifierName::Shift => 1,
        ModifierName::Alt => 2,
        ModifierName::Super => 3,
    }
}

/// A modifier list as the numbers it is compared by.
pub open spec fn modifier_ranks(ms: Seq<ModifierName>) -> Seq<int> {
    ms.map_values(|m: ModifierName| modifier_rank(m))
}

/// A key name as the code points it is compared by.
pub open spec fn code_points(s: Seq<char>) -> Seq<int> {
    s.map_values(|c: char| (c as u32) as int)
}

/// The strict order of bindings in a shortcut map.
pub open spec fn binding_lt(x: BindingView, y: BindingView) -> bool {
    ||| lex_lt(modifier_ranks(x.modifiers), modifier_ranks(y.modifiers))
    ||| modifier_ranks(x.modifiers) == modifier_ranks(y.modifiers) && lex_lt(
        code_points(x.key),
        code_points(y.key),
    )
}

/// No sequence is smaller than itself.
pub proof fn lemma_lex_irreflexive(a: Seq<int>)
    ensures
        !lex_lt(a, a),
{
}

/// Either two sequences differ somewhere within their common length, at a first
/// place, or one is a prefix of the other.
proof fn lemma_first_difference(a: Seq<int>, b: Seq<int>, i: int)
    requires
        0 <= i <= a.len(),
        i <= b.len(),
        agree_on_prefix(a, b, i),
    ensures
        (exists|k: int|
            #![trigger a[k], b[k]]
            0 <= k < a.len() && k < b.len() && a[k] != b[k] && agree_on_prefix(a, b, k))
            || agree_on_prefix(
            a,
            b,
            if a.len() < b.len() {
                a.len() as int
            } else {
                b.len() as int
            },
        ),
    decreases a.len() - i,
{
    if i < a.len() && i < b.len() {
        if a[i] != b[i] {
            assert(0 <= i < a.len() && i < b.len() && a[i] != b[i] && agree_on_prefix(a, b, i));
        } else {
            assert(agree_on_prefix(a, b, i + 1));
            lemma_first_difference(a, b, i + 1);
        }
    }
}

/// Two different sequences are ordered one way or the other.
pub proof fn lemma_lex_total(a: Seq<int>, b: Seq<int>)
    requires
        a != b,
    ensures
        lex_lt(a, b) || lex_lt(b, a),
{
    lemma_first_difference(a, b, 0);
    if exists|k: int|
        #![trigger a[k], b[k]]
        0 <= k < a.len() && k < b.len() && a[k] != b[k] && agree_on_prefix(a, b, k) {
        let k = choose|k: int|
            #![trigger a[k], b[k]]
            0 <= k < a.len() && k < b.len() && a[k] != b[k] && agree_on_prefix(a, b, k);
        if a[k] < b[k] {
            assert(lex_lt(a, b));
        } else {
            assert(agree_on_prefix(b, a, k));
            assert(lex_lt(b, a));
        }
    } else {
        if a.len() == b.len() {
            assert(a =~= b);
        } else if a.len() < b.len() {
            assert(lex_lt(a, b));
        } else {
            assert(agree_on_prefix(b, a, b.len() as int));
            assert(lex_lt(b, a));
        }
    }
}

/// The lexicographic order is transitive.
pub proof fn lemma_lex_transitive(a: Seq<int>, b: Seq<int>, c: Seq<int>)
    requires
        lex_lt(a, b),
        lex_lt(b, c),
    ensures
        lex_lt(a, c),
{
    let ab_at = exists|k: int|
        #![trigger a[k], b[k]]
        0 <= k < a.len() && k < b.len() && a[k] < b[k] && agree_on_prefix(a, b, k);
    let bc_at = exists|k: int|
        #![trigger b[k], c[k]]
        0 <= k < b.len() && k < c.len() && b[k] < c[k] && agree_on_prefix(b, c, k);
    if ab_at {
        let k1 = choose|k: int|
            #![trigger a[k], b[k]]
            0 <= k < a.len() && k < b.len() && a[k] < b[k] && agree_on_prefix(a, b, k);
        if bc_at {
            let k2 = choose|k: int|
                #![trigger b[k], c[k]]
                0 <= k < b.len() && k < c.len() && b[k] < c[k] && agree_on_prefix(b, c, k);
            if k1 <= k2 {
                assert(0 <= k1 < a.len() && k1 < c.len() && a[k1] < c[k1] && agree_on_prefix(a, c, k1));
            } else {
                assert(0 <= k2 < a.len() && k2 < c.len() && a[k2] < c[k2] && agree_on_prefix(a, c, k2));
            }
        } else {
            assert(0 <= k1 < a.len() && k1 < c.len() && a[k1] < c[k1] && agree_on_prefix(a, c, k1));
        }
    } else {
        if bc_at {
            let k2 = choose|k: int|
                #![trigger b[k], c[k]]
                0 <= k < b.len() && k < c.len() && b[k] < c[k] && agree_on_prefix(b, c, k);
            if k2 < a.len() {
                assert(0 <= k2 < a.len() && k2 < c.len() && a[k2] < c[k2] && agree_on_prefix(a, c, k2));
            } else {
                assert(a.len() < c.len() && agree_on_prefix(a, c, a.len() as int));
            }
        } else {
            assert(a.len() < c.len() && agree_on_prefix(a, c, a.len() as int));
        }
    }
}

/// Two bindings with the same modifier ranks have the same modifiers.
pub proof fn lemma_modifier_ranks_injective(x: Seq<ModifierName>, y: Seq<ModifierName>)
    requires
        modifier_ranks(x) == modifier_ranks(y),
    ensures
        x == y,
{
    assert(x.len() == modifier_ranks(x).len());
    assert forall|i: int| 0 <= i < x.len() implies x[i] == y[i] by {
        assert(modifier_ranks(x)[i] == modifier_rank(x[i]));
        assert(modifier_ranks(y)[i] == modifier_rank(y[i]));
    }
    assert(x =~= y);
}

/// Two key names with the same code points are the same name.
pub proof fn lemma_code_points_injective(x: Seq<char>, y: Seq<char>)
    requires
        code_points(x) == code_points(y),
    ensures
        x == y,
{
    assert(x.len() == code_points(x).len());
    assert forall|i: int| 0 <= i < x.len() implies x[i] == y[i] by {
        assert(code_points(x)[i] == (x[i] as u32) as int);
        assert(code_points(y)[i] == (y[i] as u32) as int);
        vstd::utf8::char_u32_cast(x[i], x[i] as u32);
        vstd::utf8::char_u32_cast(y[i], y[i] as u32);
    }
    assert(x =~= y);
}

/// No binding comes before itself.
pub proof fn lemma_binding_irreflexive(x: BindingView)
    ensures
        !binding_lt(x, x),
{
}

/// Two different bindings are ordered one way or the other.
pub proof fn lemma_binding_total(x: BindingView, y: BindingView)
    requires
        x != y,
    ensures
        binding_lt(x, y) || binding_lt(y, x),
{
    if modifier_ranks(x.modifiers) != modifier_ranks(y.modifiers) {
        lemma_lex_total(modifier_ranks(x.modifiers), modifier_ranks(y.modifiers));
    } else {
        lemma_modifier_ranks_injective(x.modifiers, y.modifiers);
        if code_points(x.key) == code_points(y.key) {
            lemma_code_points_injective(x.key, y.key);
        }
        lemma_lex_total(code_points(x.key), code_points(y.key));
    }
}

/// The binding order is transitive.
pub proof fn lemma_binding_transitive(x: BindingView, y: BindingView, z: BindingView)
    requires
        binding_lt(x, y),
        binding_lt(y, z),
    ensures
        binding_lt(x, z),
{
    let (mx, my, mz) = (
        modifier_ranks(x.modifiers),
        modifier_ranks(y.modifiers),
        modifier_ranks(z.modifiers),
    );
    if lex_lt(mx, my) && lex_lt(my, mz) {
        lemma_lex_transitive(mx, my, mz);
    } else if lex_lt(mx, my) {
        assert(my == mz);
    } else if lex_lt(my, mz) {
        assert(mx == my);
    } else {
        lemma_lex_transitive(code_points(x.key), code_points(y.key), code_points(z.key));
    }
}

/// Compares two sequences of numbers: `-1` when `a` comes first, `0` when they are
/// equal, `1` when `b` comes first.
fn lex_compare(a: &Vec<u32>, b: &Vec<u32>) -> (r: i8)
    ensures
        r == -1 || r == 0 || r == 1,
        (r == -1) == lex_lt(a@.map_values(|x: u32| x as int), b@.map_values(|x: u32| x as int)),
        (r == 0) == (a@.map_values(|x: u32| x as int) == b@.map_values(|x: u32| x as int)),
        (r == 1) == lex_lt(b@.map_values(|x: u32| x as int), a@.map_values(|x: u32| x as int)),
{
    let ghost sa = a@.map_values(|x: u32| x as int);
    let ghost sb = b@.map_values(|x: u32| x as int);
    let mut i: usize = 0;
    while i < a.len() && i < b.len()
        invariant
            sa == a@.map_values(|x: u32| x as int),
            sb == b@.map_values(|x: u32| x as int),
            i <= a.len(),
            i <= b.len(),
            agree_on_prefix(sa, sb, i as int),
        decreases a.len() - i,
    {
        if a[i] < b[i] {
            proof {
                assert(sa[i as int] < sb[i as int]);
                lemma_lex_total(sa, sb);
                if lex_lt(sb, sa) {
                    lemma_lex_transitive(sa, sb, sa);
                }
            }
            return -1;
        }
        if a[i] > b[i] {
            proof {
                assert(agree_on_prefix(sb, sa, i as int));
                assert(sb[i as int] < sa[i as int]);
                lemma_lex_total(sa, sb);
                if lex_lt(sa, sb) {
                    lemma_lex_transitive(sa, sb, sa);
                }
            }
            return 1;
        }
        i = i + 1;
    }
    if a.len() < b.len() {
        proof {
            assert(lex_lt(sa, sb));
            assert(sa.len() != sb.len());
            if lex_lt(sb, sa) {
                lemma_lex_transitive(sa, sb, sa);
            }
        }
        -1
    } else if a.len() > b.len() {
        proof {
            assert(agree_on_prefix(sb, sa, sb.len() as int));
            assert(lex_lt(sb, sa));
            assert(sa.len() != sb.len());
            if lex_lt(sa, sb) {
                lemma_lex_transitive(sa, sb, sa);
            }
        }
        1
    } else {
        proof {
            assert(sa =~= sb);
        }
        0
    }
}

/// The numbers a modifier list is compared by.
fn modifier_rank_values(ms: &Vec<ModifierName>) -> (r: Vec<u32>)
    ensures
        r@.map_values(|x: u32| x as int) == modifier_ranks(ms@),
{
    let mut r: Vec<u32> = Vec::new();
    let mut i: usize = 0;
    while i < ms.len()
        invariant
            i <= ms.len(),
            r@.len() == i,
            forall|j: int| 0 <= j < i ==> r@[j] as int == modifier_rank(#[trigger] ms@[j]),
        decreases ms.len() - i,
    {
        let rank: u32 = match ms[i] {
            ModifierName::Ctrl => 0,
            ModifierName::Shift => 1,
            ModifierName::Alt => 2,
            ModifierName::Super => 3,
        };
        r.push(rank);
        i = i + 1;
    }
    proof {
        assert(r@.map_values(|x: u32| x as int) =~= modifier_ranks(ms@));
    }
    r
}

/// The code points a key name is compared by.
fn code_point_values(s: &str) -> (r: Vec<u32>)
    ensures
        r@.map_values(|x: u32| x as int) == code_points(s@),
{
    let cs = chars_of(s);
    let mut r: Vec<u32> = Vec::new();
    let mut i: usize = 0;
    while i < cs.len()
        invariant
            cs@ == s@,
            i <= cs.len(),
            r@.len() == i,
            forall|j: int| 0 <= j < i ==> r@[j] == (#[trigger] cs@[j]) as u32,
        decreases cs.len() - i,
    {
        let c: char = cs[i];
        r.push(c as u32);
        i = i + 1;
    }
    proof {
        assert(r@.map_values(|x: u32| x as int) =~= code_points(s@));
    }
    r
}

/// Compares two bindings in map order: `-1` when `x` comes first, `0` when they are
/// the same binding, `1` when `y` comes first.
pub fn compare_bindings(x: &Binding, y: &Binding) -> (r: i8)
    ensures
        r == -1 || r == 0 || r == 1,
        (r == -1) == binding_lt(x@, y@),
        (r == 0) == (x@ == y@),
        (r == 1) == binding_lt(y@, x@),
{
    let mx = modifier_rank_values(&x.modifiers);
    let my = modifier_rank_values(&y.modifiers);
    let by_modifiers = lex_compare(&mx, &my);
    if by_modifiers != 0 {
        proof {
            if x@ == y@ {
                assert(false);
            }
        }
        return by_modifiers;
    }
    proof {
        lemma_modifier_ranks_injective(x.modifiers@, y.modifiers@);
    }
    let kx = code_point_values(x.key.as_str());
    let ky = code_point_values(y.key.as_str());
    let by_key = lex_compare(&kx, &ky);
    proof {
        lemma_lex_irreflexive(modifier_ranks(x.modifiers@));
        if by_key == 0 {
            lemma_code_points_injective(x.key@, y.key@);
        }
    }
    by_key
}

/// Where a modifier stands in the order bindings are kept in: Ctrl, Shift, Alt, Super.
pub open spec fn listed_before(a: ModifierName, b: ModifierName) -> bool {
    match (a, b) {
        (ModifierName::Ctrl, ModifierName::Shift) => true,
        (ModifierName::Ctrl, ModifierName::Alt) => true,
        (ModifierName::Ctrl, ModifierName::Super) => true,
        (ModifierName::Shift, ModifierName::Alt) => true,
        (ModifierName::Shift, ModifierName::Super) => true,
        (ModifierName::Alt, ModifierName::Super) => true,
        _ => false,
    }
}

/// The order a shortcut map keeps its bindings in, as the derived order of bindings
/// has it: a binding without modifiers comes before any with some; of two bindings
/// whose modifier lists start differently, the one whose first modifier comes first in
/// Ctrl, Shift, Alt, Super comes first; of two with the same modifiers, the key names
/// decide - the one smaller at its first differing character, or a proper prefix of
/// the other, comes first.
pub proof fn lemma_binding_order(x: BindingView, y: BindingView)
    ensures
        x.modifiers.len() == 0 && y.modifiers.len() > 0 ==> binding_lt(x, y),
        x.modifiers.len() > 0 && y.modifiers.len() > 0 && listed_before(x.modifiers[0], y.modifiers[0])
            ==> binding_lt(x, y),
        x.modifiers == y.modifiers && x.key.len() < y.key.len() && x.key == y.key.take(
            x.key.len() as int,
        ) ==> binding_lt(x, y),
        x.modifiers == y.modifiers && x.key.len() > 0 && y.key.len() > 0 && (x.key[0] as u32) < (
        y.key[0] as u32) ==> binding_lt(x, y),
{
    let a = modifier_ranks(x.modifiers);
    let b = modifier_ranks(y.modifiers);
    if x.modifiers.len() == 0 && y.modifiers.len() > 0 {
        assert(agree_on_prefix(a, b, 0));
    }
    if x.modifiers.len() > 0 && y.modifiers.len() > 0 && listed_before(x.modifiers[0], y.modifiers[0]) {
        assert(a[0] < b[0]);
        assert(agree_on_prefix(a, b, 0));
    }
    let ka = code_points(x.key);
    let kb = code_points(y.key);
    if x.modifiers == y.modifiers && x.key.len() < y.key.len() && x.key == y.key.take(x.key.len() as int) {
        assert forall|j: int| 0 <= j < ka.len() implies ka[j] == kb[j] by {
            assert(x.key[j] == y.key[j]);
        }
        assert(agree_on_prefix(ka, kb, ka.len() as int));
    }
    if x.modifiers == y.modifiers && x.key.len() > 0 && y.key.len() > 0 && (x.key[0] as u32) < (y.key[0] as u32) {
        assert(ka[0] < kb[0]);
        assert(agree_on_prefix(ka, kb, 0));
    }
}

} // verus!
