//! What reading and writing key names, and capturing key presses, promise: laws over
//! every name and every key press, each stated with the names themselves.

use super::keys::{
    binding_of_key_press, is_modifier_only, key_bind_of, key_named, modifier_key_names,
    stored_key_name, stored_named_keys,
};
use super::{BindingView, ModifierName};
use crate::widget::menu::key_bind::Modifier;
use crate::keyboard::{KeyView, Modifiers};
use vstd::prelude::*;

verus! {

/// A name the configuration stores a named key under is one of these.
proof fn lemma_stored_name_is_one_of(x: Seq<char>)
    requires
        stored_named_keys().contains(x),
    ensures
        x == "Backspace"@ ||
        x == "Enter"@ ||
        x == "Escape"@ ||
        x == "Insert"@ ||
        x == "Delete"@ ||
        x == "Tab"@ ||
        x == "F1"@ ||
        x == "F2"@ ||
        x == "F3"@ ||
        x == "F4"@ ||
        x == "F5"@ ||
        x == "F6"@ ||
        x == "F7"@ ||
        x == "F8"@ ||
        x == "F9"@ ||
        x == "F10"@ ||
        x == "F11"@ ||
        x == "F12"@ ||
        x == "Home"@ ||
        x == "End"@ ||
        x == "PageUp"@ ||
        x == "PageDown"@,
{
    let i = choose|i: int| 0 <= i < stored_named_keys().len() && stored_named_keys()[i] == x;
    if i == 0 {
        assert(stored_named_keys()[0] == "Backspace"@);
    } else if i == 1 {
        assert(stored_named_keys()[1] == "Enter"@);
    } else if i == 2 {
        assert(stored_named_keys()[2] == "Escape"@);
    } else if i == 3 {
        assert(stored_named_keys()[3] == "Insert"@);
    } else if i == 4 {
        assert(stored_named_keys()[4] == "Delete"@);
    } else if i == 5 {
        assert(stored_named_keys()[5] == "Tab"@);
    } else if i == 6 {
        assert(stored_named_keys()[6] == "F1"@);
    } else if i == 7 {
        assert(stored_named_keys()[7] == "F2"@);
    } else if i == 8 {
        assert(stored_named_keys()[8] == "F3"@);
    } else if i == 9 {
        assert(stored_named_keys()[9] == "F4"@);
    } else if i == 10 {
        assert(stored_named_keys()[10] == "F5"@);
    } else if i == 11 {
        assert(stored_named_keys()[11] == "F6"@);
    } else if i == 12 {
        assert(stored_named_keys()[12] == "F7"@);
    } else if i == 13 {
        assert(stored_named_keys()[13] == "F8"@);
    } else if i == 14 {
        assert(stored_named_keys()[14] == "F9"@);
    } else if i == 15 {
        assert(stored_named_keys()[15] == "F10"@);
    } else if i == 16 {
        assert(stored_named_keys()[16] == "F11"@);
    } else if i == 17 {
        assert(stored_named_keys()[17] == "F12"@);
    } else if i == 18 {
        assert(stored_named_keys()[18] == "Home"@);
    } else if i == 19 {
        assert(stored_named_keys()[19] == "End"@);
    } else if i == 20 {
        assert(stored_named_keys()[20] == "PageUp"@);
    } else if i == 21 {
        assert(stored_named_keys()[21] == "PageDown"@);
    }
}

/// A modifier-only key is named one of these.
proof fn lemma_modifier_name_is_one_of(x: Seq<char>)
    requires
        modifier_key_names().contains(x),
    ensures
        x == "Alt"@ ||
        x == "AltGraph"@ ||
        x == "CapsLock"@ ||
        x == "Control"@ ||
        x == "Fn"@ ||
        x == "FnLock"@ ||
        x == "NumLock"@ ||
        x == "ScrollLock"@ ||
        x == "Shift"@ ||
        x == "Symbol"@ ||
        x == "SymbolLock"@ ||
        x == "Meta"@ ||
        x == "Hyper"@ ||
        x == "Super"@,
{
    let i = choose|i: int| 0 <= i < modifier_key_names().len() && modifier_key_names()[i] == x;
    if i == 0 {
        assert(modifier_key_names()[0] == "Alt"@);
    } else if i == 1 {
        assert(modifier_key_names()[1] == "AltGraph"@);
    } else if i == 2 {
        assert(modifier_key_names()[2] == "CapsLock"@);
    } else if i == 3 {
        assert(modifier_key_names()[3] == "Control"@);
    } else if i == 4 {
        assert(modifier_key_names()[4] == "Fn"@);
    } else if i == 5 {
        assert(modifier_key_names()[5] == "FnLock"@);
    } else if i == 6 {
        assert(modifier_key_names()[6] == "NumLock"@);
    } else if i == 7 {
        assert(modifier_key_names()[7] == "ScrollLock"@);
    } else if i == 8 {
        assert(modifier_key_names()[8] == "Shift"@);
    } else if i == 9 {
        assert(modifier_key_names()[9] == "Symbol"@);
    } else if i == 10 {
        assert(modifier_key_names()[10] == "SymbolLock"@);
    } else if i == 11 {
        assert(modifier_key_names()[11] == "Meta"@);
    } else if i == 12 {
        assert(modifier_key_names()[12] == "Hyper"@);
    } else if i == 13 {
        assert(modifier_key_names()[13] == "Super"@);
    }
}

/// Whether a name has the length and first letter of one of the stored key names.
pub open spec fn looks_stored(s: Seq<char>) -> bool {
    s.len() > 0 && ((s.len() == 2 && s[0] == 'F') || (s.len() == 3 && s[0] == 'E') || (s.len() == 3 && s[0] == 'F') || (s.len() == 3 && s[0] == 'T') || (s.len() == 4 && s[0] == 'H') || (s.len() == 5 && s[0] == 'E') || (s.len() == 6 && s[0] == 'D') || (s.len() == 6 && s[0] == 'E') || (s.len() == 6 && s[0] == 'I') || (s.len() == 6 && s[0] == 'P') || (s.len() == 8 && s[0] == 'P') || (s.len() == 9 && s[0] == 'B'))
}

/// The length and first letter of every stored key name.
proof fn lemma_stored_literals()
    ensures
        "Backspace"@.len() == 9 && "Backspace"@[0] == 'B',
        "Enter"@.len() == 5 && "Enter"@[0] == 'E',
        "Escape"@.len() == 6 && "Escape"@[0] == 'E',
        "Insert"@.len() == 6 && "Insert"@[0] == 'I',
        "Delete"@.len() == 6 && "Delete"@[0] == 'D',
        "Tab"@.len() == 3 && "Tab"@[0] == 'T',
        "F1"@.len() == 2 && "F1"@[0] == 'F',
        "F2"@.len() == 2 && "F2"@[0] == 'F',
        "F3"@.len() == 2 && "F3"@[0] == 'F',
        "F4"@.len() == 2 && "F4"@[0] == 'F',
        "F5"@.len() == 2 && "F5"@[0] == 'F',
        "F6"@.len() == 2 && "F6"@[0] == 'F',
        "F7"@.len() == 2 && "F7"@[0] == 'F',
        "F8"@.len() == 2 && "F8"@[0] == 'F',
        "F9"@.len() == 2 && "F9"@[0] == 'F',
        "F10"@.len() == 3 && "F10"@[0] == 'F',
        "F11"@.len() == 3 && "F11"@[0] == 'F',
        "F12"@.len() == 3 && "F12"@[0] == 'F',
        "Home"@.len() == 4 && "Home"@[0] == 'H',
        "End"@.len() == 3 && "End"@[0] == 'E',
        "PageUp"@.len() == 6 && "PageUp"@[0] == 'P',
        "PageDown"@.len() == 8 && "PageDown"@[0] == 'P',
{
    reveal_strlit("Backspace");
    reveal_strlit("Enter");
    reveal_strlit("Escape");
    reveal_strlit("Insert");
    reveal_strlit("Delete");
    reveal_strlit("Tab");
    reveal_strlit("F1");
    reveal_strlit("F2");
    reveal_strlit("F3");
    reveal_strlit("F4");
    reveal_strlit("F5");
    reveal_strlit("F6");
    reveal_strlit("F7");
    reveal_strlit("F8");
    reveal_strlit("F9");
    reveal_strlit("F10");
    reveal_strlit("F11");
    reveal_strlit("F12");
    reveal_strlit("Home");
    reveal_strlit("End");
    reveal_strlit("PageUp");
    reveal_strlit("PageDown");
}

/// A name without the length and first letter of a stored key name is not one.
proof fn lemma_not_a_stored_name(x: Seq<char>)
    requires
        !looks_stored(x),
    ensures
        !stored_named_keys().contains(x),
{
    if stored_named_keys().contains(x) {
        lemma_stored_name_is_one_of(x);
        lemma_stored_literals();
    }
}

/// Every key the configuration stores under its own name - Backspace, Enter, Escape,
/// Insert, Delete, Tab, F1 to F12, Home, End, PageUp and PageDown - resolves to that
/// named key, and captured, is written back under the same name.
pub proof fn lemma_named_keys_resolve_to_themselves(n: Seq<char>)
    requires
        n == "Backspace"@ ||
        n == "Enter"@ ||
        n == "Escape"@ ||
        n == "Insert"@ ||
        n == "Delete"@ ||
        n == "Tab"@ ||
        n == "F1"@ ||
        n == "F2"@ ||
        n == "F3"@ ||
        n == "F4"@ ||
        n == "F5"@ ||
        n == "F6"@ ||
        n == "F7"@ ||
        n == "F8"@ ||
        n == "F9"@ ||
        n == "F10"@ ||
        n == "F11"@ ||
        n == "F12"@ ||
        n == "Home"@ ||
        n == "End"@ ||
        n == "PageUp"@ ||
        n == "PageDown"@,
    ensures
        key_named(n) == Some(KeyView::Named(n)),
        stored_key_name(KeyView::Named(n)) == Some(n),
{
    if n == "Backspace"@ {
        assert(stored_named_keys()[0] == n);
    } else if n == "Enter"@ {
        assert(stored_named_keys()[1] == n);
    } else if n == "Escape"@ {
        assert(stored_named_keys()[2] == n);
    } else if n == "Insert"@ {
        assert(stored_named_keys()[3] == n);
    } else if n == "Delete"@ {
        assert(stored_named_keys()[4] == n);
    } else if n == "Tab"@ {
        assert(stored_named_keys()[5] == n);
    } else if n == "F1"@ {
        assert(stored_named_keys()[6] == n);
    } else if n == "F2"@ {
        assert(stored_named_keys()[7] == n);
    } else if n == "F3"@ {
        assert(stored_named_keys()[8] == n);
    } else if n == "F4"@ {
        assert(stored_named_keys()[9] == n);
    } else if n == "F5"@ {
        assert(stored_named_keys()[10] == n);
    } else if n == "F6"@ {
        assert(stored_named_keys()[11] == n);
    } else if n == "F7"@ {
        assert(stored_named_keys()[12] == n);
    } else if n == "F8"@ {
        assert(stored_named_keys()[13] == n);
    } else if n == "F9"@ {
        assert(stored_named_keys()[14] == n);
    } else if n == "F10"@ {
        assert(stored_named_keys()[15] == n);
    } else if n == "F11"@ {
        assert(stored_named_keys()[16] == n);
    } else if n == "F12"@ {
        assert(stored_named_keys()[17] == n);
    } else if n == "Home"@ {
        assert(stored_named_keys()[18] == n);
    } else if n == "End"@ {
        assert(stored_named_keys()[19] == n);
    } else if n == "PageUp"@ {
        assert(stored_named_keys()[20] == n);
    } else if n == "PageDown"@ {
        assert(stored_named_keys()[21] == n);
    }
}

/// The arrow keys resolve from their full and their short names to the named arrow
/// key, and are written back under the full name.
pub proof fn lemma_arrow_names_resolve_to_the_arrow_keys(n: Seq<char>)
    ensures
        n == "ArrowLeft"@ || n == "Left"@ ==> key_named(n) == Some(KeyView::Named("ArrowLeft"@)),
        n == "ArrowRight"@ || n == "Right"@ ==> key_named(n) == Some(KeyView::Named("ArrowRight"@)),
        n == "ArrowUp"@ || n == "Up"@ ==> key_named(n) == Some(KeyView::Named("ArrowUp"@)),
        n == "ArrowDown"@ || n == "Down"@ ==> key_named(n) == Some(KeyView::Named("ArrowDown"@)),
{
    reveal_strlit("ArrowLeft");
    reveal_strlit("ArrowRight");
    reveal_strlit("ArrowUp");
    reveal_strlit("ArrowDown");
    reveal_strlit("Left");
    reveal_strlit("Right");
    reveal_strlit("Up");
    reveal_strlit("Down");
    assert("ArrowLeft"@.len() == 9 && "ArrowLeft"@[0] == 'A');
    assert("ArrowRight"@.len() == 10 && "ArrowRight"@[0] == 'A');
    assert("ArrowUp"@.len() == 7 && "ArrowUp"@[0] == 'A');
    assert("ArrowDown"@.len() == 9 && "ArrowDown"@[0] == 'A');
    assert("Left"@.len() == 4 && "Left"@[0] == 'L');
    assert("Right"@.len() == 5 && "Right"@[0] == 'R');
    assert("Up"@.len() == 2 && "Up"@[0] == 'U');
    assert("Down"@.len() == 4 && "Down"@[0] == 'D');
    if n == "ArrowLeft"@ || n == "Left"@ || n == "ArrowRight"@ || n == "Right"@ || n == "ArrowUp"@
        || n == "Up"@ || n == "ArrowDown"@ || n == "Down"@ {
        lemma_not_a_stored_name(n);
    }
}

/// The space bar is stored as `Space` (or `space`) and resolves to the typed space.
pub proof fn lemma_space_names_resolve_to_the_space_bar(n: Seq<char>)
    requires
        n == "Space"@ || n == "space"@,
    ensures
        key_named(n) == Some(KeyView::Character(" "@)),
{
    reveal_strlit("Space");
    reveal_strlit("space");
    reveal_strlit("ArrowLeft");
    reveal_strlit("ArrowRight");
    reveal_strlit("ArrowUp");
    reveal_strlit("ArrowDown");
    reveal_strlit("Left");
    reveal_strlit("Right");
    reveal_strlit("Up");
    reveal_strlit("Down");
    assert("Space"@.len() == 5 && "Space"@[0] == 'S');
    assert("space"@.len() == 5 && "space"@[0] == 's');
    assert("ArrowLeft"@.len() == 9 && "ArrowRight"@.len() == 10 && "ArrowUp"@.len() == 7
        && "ArrowDown"@.len() == 9 && "Left"@.len() == 4 && "Up"@.len() == 2 && "Down"@.len() == 4);
    assert("Right"@.len() == 5 && "Right"@[0] == 'R');
    lemma_not_a_stored_name(n);
}

/// Any other non-empty name is the text a key types, and the empty name resolves to
/// nothing.
pub proof fn lemma_other_names_are_typed_text(n: Seq<char>)
    requires
        !(n == "Backspace"@ ||
            n == "Enter"@ ||
            n == "Escape"@ ||
            n == "Insert"@ ||
            n == "Delete"@ ||
            n == "Tab"@ ||
            n == "F1"@ ||
            n == "F2"@ ||
            n == "F3"@ ||
            n == "F4"@ ||
            n == "F5"@ ||
            n == "F6"@ ||
            n == "F7"@ ||
            n == "F8"@ ||
            n == "F9"@ ||
            n == "F10"@ ||
            n == "F11"@ ||
            n == "F12"@ ||
            n == "Home"@ ||
            n == "End"@ ||
            n == "PageUp"@ ||
            n == "PageDown"@ ||
            n == "ArrowLeft"@ ||
            n == "Left"@ ||
            n == "ArrowRight"@ ||
            n == "Right"@ ||
            n == "ArrowUp"@ ||
            n == "Up"@ ||
            n == "ArrowDown"@ ||
            n == "Down"@ ||
            n == "Space"@ ||
            n == "space"@),
    ensures
        n.len() > 0 ==> key_named(n) == Some(KeyView::Character(n)),
        n.len() == 0 ==> key_named(n) is None,
{
    if stored_named_keys().contains(n) {
        lemma_stored_name_is_one_of(n);
    }
}

/// The rank of a modifier in a captured binding, which lists Ctrl, Shift, Alt and Super
/// in that order.
pub open spec fn capture_rank(m: ModifierName) -> int {
    match m {
        ModifierName::Ctrl => 0,
        ModifierName::Shift => 1,
        ModifierName::Alt => 2,
        ModifierName::Super => 3,
    }
}

/// A captured binding lists exactly the modifiers that were held, each once, in the
/// order Ctrl, Shift, Alt, Super - whatever the key.
#[verifier::spinoff_prover]
#[verifier::rlimit(80)]
pub proof fn lemma_capture_holds_exactly_the_held_modifiers(m: Modifiers, k: KeyView)
    requires
        binding_of_key_press(m, k) is Some,
    ensures
        ({
            let ms = (binding_of_key_press(m, k)->0).modifiers;
            &&& ms.contains(ModifierName::Ctrl) == m.control
            &&& ms.contains(ModifierName::Shift) == m.shift
            &&& ms.contains(ModifierName::Alt) == m.alt
            &&& ms.contains(ModifierName::Super) == m.logo
            &&& forall|i: int, j: int|
                0 <= i < j < ms.len() ==> capture_rank(#[trigger] ms[i]) < capture_rank(#[trigger] ms[j])
        }),
{
    let ms = (binding_of_key_press(m, k)->0).modifiers;
    if m.control && m.shift && m.alt && m.logo {
        assert(ms =~= seq![ModifierName::Ctrl, ModifierName::Shift, ModifierName::Alt, ModifierName::Super]);
        assert(ms[0] == ModifierName::Ctrl);
        assert(ms[1] == ModifierName::Shift);
        assert(ms[2] == ModifierName::Alt);
        assert(ms[3] == ModifierName::Super);
        assert forall|i: int, j: int| 0 <= i < j < ms.len() implies capture_rank(#[trigger] ms[i]) < capture_rank(#[trigger] ms[j]) by { if i == 0 && j == 1 {} else if i == 0 && j == 2 {} else if i == 0 && j == 3 {} else if i == 1 && j == 2 {} else if i == 1 && j == 3 {} else if i == 2 && j == 3 {} }
    } else if m.control && m.shift && m.alt && !m.logo {
        assert(ms =~= seq![ModifierName::Ctrl, ModifierName::Shift, ModifierName::Alt]);
        assert(ms[0] == ModifierName::Ctrl);
        assert(ms[1] == ModifierName::Shift);
        assert(ms[2] == ModifierName::Alt);
        assert forall|i: int| 0 <= i < ms.len() implies ms[i] != ModifierName::Super by { if i == 0 {} else if i == 1 {} else if i == 2 {} }
        assert forall|i: int, j: int| 0 <= i < j < ms.len() implies capture_rank(#[trigger] ms[i]) < capture_rank(#[trigger] ms[j]) by { if i == 0 && j == 1 {} else if i == 0 && j == 2 {} else if i == 1 && j == 2 {} }
    } else if m.control && m.shift && !m.alt && m.logo {
        assert(ms =~= seq![ModifierName::Ctrl, ModifierName::Shift, ModifierName::Super]);
        assert(ms[0] == ModifierName::Ctrl);
        assert(ms[1] == ModifierName::Shift);
        assert(ms[2] == ModifierName::Super);
        assert forall|i: int| 0 <= i < ms.len() implies ms[i] != ModifierName::Alt by { if i == 0 {} else if i == 1 {} else if i == 2 {} }
        assert forall|i: int, j: int| 0 <= i < j < ms.len() implies capture_rank(#[trigger] ms[i]) < capture_rank(#[trigger] ms[j]) by { if i == 0 && j == 1 {} else if i == 0 && j == 2 {} else if i == 1 && j == 2 {} }
    } else if m.control && m.shift && !m.alt && !m.logo {
        assert(ms =~= seq![ModifierName::Ctrl, ModifierName::Shift]);
        assert(ms[0] == ModifierName::Ctrl);
        assert(ms[1] == ModifierName::Shift);
        assert forall|i: int| 0 <= i < ms.len() implies ms[i] != ModifierName::Alt by { if i == 0 {} else if i == 1 {} }
        assert forall|i: int| 0 <= i < ms.len() implies ms[i] != ModifierName::Super by { if i == 0 {} else if i == 1 {} }
        assert forall|i: int, j: int| 0 <= i < j < ms.len() implies capture_rank(#[trigger] ms[i]) < capture_rank(#[trigger] ms[j]) by { if i == 0 && j == 1 {} }
    } else if m.control && !m.shift && m.alt && m.logo {
        assert(ms =~= seq![ModifierName::Ctrl, ModifierName::Alt, ModifierName::Super]);
        assert(ms[0] == ModifierName::Ctrl);
        assert(ms[1] == ModifierName::Alt);
        assert(ms[2] == ModifierName::Super);
        assert forall|i: int| 0 <= i < ms.len() implies ms[i] != ModifierName::Shift by { if i == 0 {} else if i == 1 {} else if i == 2 {} }
        assert forall|i: int, j: int| 0 <= i < j < ms.len() implies capture_rank(#[trigger] ms[i]) < capture_rank(#[trigger] ms[j]) by { if i == 0 && j == 1 {} else if i == 0 && j == 2 {} else if i == 1 && j == 2 {} }
    } else if m.control && !m.shift && m.alt && !m.logo {
        assert(ms =~= seq![ModifierName::Ctrl, ModifierName::Alt]);
        assert(ms[0] == ModifierName::Ctrl);
        assert(ms[1] == ModifierName::Alt);
        assert forall|i: int| 0 <= i < ms.len() implies ms[i] != ModifierName::Shift by { if i == 0 {} else if i == 1 {} }
        assert forall|i: int| 0 <= i < ms.len() implies ms[i] != ModifierName::Super by { if i == 0 {} else if i == 1 {} }
        assert forall|i: int, j: int| 0 <= i < j < ms.len() implies capture_rank(#[trigger] ms[i]) < capture_rank(#[trigger] ms[j]) by { if i == 0 && j == 1 {} }
    } else if m.control && !m.shift && !m.alt && m.logo {
        assert(ms =~= seq![ModifierName::Ctrl, ModifierName::Super]);
        assert(ms[0] == ModifierName::Ctrl);
        assert(ms[1] == ModifierName::Super);
        assert forall|i: int| 0 <= i < ms.len() implies ms[i] != ModifierName::Shift by { if i == 0 {} else if i == 1 {} }
        assert forall|i: int| 0 <= i < ms.len() implies ms[i] != ModifierName::Alt by { if i == 0 {} else if i == 1 {} }
        assert forall|i: int, j: int| 0 <= i < j < ms.len() implies capture_rank(#[trigger] ms[i]) < capture_rank(#[trigger] ms[j]) by { if i == 0 && j == 1 {} }
    } else if m.control && !m.shift && !m.alt && !m.logo {
        assert(ms =~= seq![ModifierName::Ctrl]);
        assert(ms[0] == ModifierName::Ctrl);
        assert forall|i: int| 0 <= i < ms.len() implies ms[i] != ModifierName::Shift by { if i == 0 {} }
        assert forall|i: int| 0 <= i < ms.len() implies ms[i] != ModifierName::Alt by { if i == 0 {} }
        assert forall|i: int| 0 <= i < ms.len() implies ms[i] != ModifierName::Super by { if i == 0 {} }
    } else if !m.control && m.shift && m.alt && m.logo {
        assert(ms =~= seq![ModifierName::Shift, ModifierName::Alt, ModifierName::Super]);
        assert(ms[0] == ModifierName::Shift);
        assert(ms[1] == ModifierName::Alt);
        assert(ms[2] == ModifierName::Super);
        assert forall|i: int| 0 <= i < ms.len() implies ms[i] != ModifierName::Ctrl by { if i == 0 {} else if i == 1 {} else if i == 2 {} }
        assert forall|i: int, j: int| 0 <= i < j < ms.len() implies capture_rank(#[trigger] ms[i]) < capture_rank(#[trigger] ms[j]) by { if i == 0 && j == 1 {} else if i == 0 && j == 2 {} else if i == 1 && j == 2 {} }
    } else if !m.control && m.shift && m.alt && !m.logo {
        assert(ms =~= seq![ModifierName::Shift, ModifierName::Alt]);
        assert(ms[0] == ModifierName::Shift);
        assert(ms[1] == ModifierName::Alt);
        assert forall|i: int| 0 <= i < ms.len() implies ms[i] != ModifierName::Ctrl by { if i == 0 {} else if i == 1 {} }
        assert forall|i: int| 0 <= i < ms.len() implies ms[i] != ModifierName::Super by { if i == 0 {} else if i == 1 {} }
        assert forall|i: int, j: int| 0 <= i < j < ms.len() implies capture_rank(#[trigger] ms[i]) < capture_rank(#[trigger] ms[j]) by { if i == 0 && j == 1 {} }
    } else if !m.control && m.shift && !m.alt && m.logo {
        assert(ms =~= seq![ModifierName::Shift, ModifierName::Super]);
        assert(ms[0] == ModifierName::Shift);
        assert(ms[1] == ModifierName::Super);
        assert forall|i: int| 0 <= i < ms.len() implies ms[i] != ModifierName::Ctrl by { if i == 0 {} else if i == 1 {} }
        assert forall|i: int| 0 <= i < ms.len() implies ms[i] != ModifierName::Alt by { if i == 0 {} else if i == 1 {} }
        assert forall|i: int, j: int| 0 <= i < j < ms.len() implies capture_rank(#[trigger] ms[i]) < capture_rank(#[trigger] ms[j]) by { if i == 0 && j == 1 {} }
    } else if !m.control && m.shift && !m.alt && !m.logo {
        assert(ms =~= seq![ModifierName::Shift]);
        assert(ms[0] == ModifierName::Shift);
        assert forall|i: int| 0 <= i < ms.len() implies ms[i] != ModifierName::Ctrl by { if i == 0 {} }
        assert forall|i: int| 0 <= i < ms.len() implies ms[i] != ModifierName::Alt by { if i == 0 {} }
        assert forall|i: int| 0 <= i < ms.len() implies ms[i] != ModifierName::Super by { if i == 0 {} }
    } else if !m.control && !m.shift && m.alt && m.logo {
        assert(ms =~= seq![ModifierName::Alt, ModifierName::Super]);
        assert(ms[0] == ModifierName::Alt);
        assert(ms[1] == ModifierName::Super);
        assert forall|i: int| 0 <= i < ms.len() implies ms[i] != ModifierName::Ctrl by { if i == 0 {} else if i == 1 {} }
        assert forall|i: int| 0 <= i < ms.len() implies ms[i] != ModifierName::Shift by { if i == 0 {} else if i == 1 {} }
        assert forall|i: int, j: int| 0 <= i < j < ms.len() implies capture_rank(#[trigger] ms[i]) < capture_rank(#[trigger] ms[j]) by { if i == 0 && j == 1 {} }
    } else if !m.control && !m.shift && m.alt && !m.logo {
        assert(ms =~= seq![ModifierName::Alt]);
        assert(ms[0] == ModifierName::Alt);
        assert forall|i: int| 0 <= i < ms.len() implies ms[i] != ModifierName::Ctrl by { if i == 0 {} }
        assert forall|i: int| 0 <= i < ms.len() implies ms[i] != ModifierName::Shift by { if i == 0 {} }
        assert forall|i: int| 0 <= i < ms.len() implies ms[i] != ModifierName::Super by { if i == 0 {} }
    } else if !m.control && !m.shift && !m.alt && m.logo {
        assert(ms =~= seq![ModifierName::Super]);
        assert(ms[0] == ModifierName::Super);
        assert forall|i: int| 0 <= i < ms.len() implies ms[i] != ModifierName::Ctrl by { if i == 0 {} }
        assert forall|i: int| 0 <= i < ms.len() implies ms[i] != ModifierName::Shift by { if i == 0 {} }
        assert forall|i: int| 0 <= i < ms.len() implies ms[i] != ModifierName::Alt by { if i == 0 {} }
    } else if !m.control && !m.shift && !m.alt && !m.logo {
        assert(ms =~= seq![]);
        assert(ms.len() == 0);
        assert(ms.len() == 0);
        assert(ms.len() == 0);
        assert(ms.len() == 0);
    }
}

/// A key press makes no binding exactly when the key is one only ever pressed with
/// another (Alt, AltGraph, CapsLock, Control, Fn, FnLock, NumLock, ScrollLock, Shift,
/// Symbol, SymbolLock, Meta, Hyper, Super) or a key the platform could not identify.
pub proof fn lemma_capture_declines_exactly_modifier_keys(m: Modifiers, k: KeyView)
    ensures
        binding_of_key_press(m, k) is None <==> (k is Unidentified || (k matches KeyView::Named(n) && (
            n == "Alt"@ ||
            n == "AltGraph"@ ||
            n == "CapsLock"@ ||
            n == "Control"@ ||
            n == "Fn"@ ||
            n == "FnLock"@ ||
            n == "NumLock"@ ||
            n == "ScrollLock"@ ||
            n == "Shift"@ ||
            n == "Symbol"@ ||
            n == "SymbolLock"@ ||
            n == "Meta"@ ||
            n == "Hyper"@ ||
            n == "Super"@))),
{
    if let KeyView::Named(n) = k {
        if is_modifier_only(k) {
            lemma_modifier_name_is_one_of(n);
        }
    if n == "Alt"@ {
        assert(modifier_key_names()[0] == n);
    } else if n == "AltGraph"@ {
        assert(modifier_key_names()[1] == n);
    } else if n == "CapsLock"@ {
        assert(modifier_key_names()[2] == n);
    } else if n == "Control"@ {
        assert(modifier_key_names()[3] == n);
    } else if n == "Fn"@ {
        assert(modifier_key_names()[4] == n);
    } else if n == "FnLock"@ {
        assert(modifier_key_names()[5] == n);
    } else if n == "NumLock"@ {
        assert(modifier_key_names()[6] == n);
    } else if n == "ScrollLock"@ {
        assert(modifier_key_names()[7] == n);
    } else if n == "Shift"@ {
        assert(modifier_key_names()[8] == n);
    } else if n == "Symbol"@ {
        assert(modifier_key_names()[9] == n);
    } else if n == "SymbolLock"@ {
        assert(modifier_key_names()[10] == n);
    } else if n == "Meta"@ {
        assert(modifier_key_names()[11] == n);
    } else if n == "Hyper"@ {
        assert(modifier_key_names()[12] == n);
    } else if n == "Super"@ {
        assert(modifier_key_names()[13] == n);
    }
    }
}

/// A captured binding is stored under the key's name: the space bar as `Space`, a
/// lowercase ASCII letter in uppercase, any other typed text as it is, a named key by
/// its name.
pub proof fn lemma_capture_stores_the_key_name(m: Modifiers, k: KeyView)
    requires
        binding_of_key_press(m, k) is Some,
    ensures
        (binding_of_key_press(m, k)->0).key == match k {
            KeyView::Character(c) => if c == " "@ {
                "Space"@
            } else if c.len() == 1 && 97 <= c[0] as int <= 122 {
                seq![((c[0] as int) - 32) as char]
            } else {
                c
            },
            KeyView::Named(n) => n,
            KeyView::Unidentified => Seq::empty(),
        },
{
    if let KeyView::Character(c) = k {
        if c.len() == 1 && 65 <= c[0] as int <= 90 {
            assert(seq![c[0]] =~= c);
        }
    }
}

/// The name a key is written back under: the space bar as `Space`, a lowercase ASCII
/// letter in uppercase, any other typed text as it is, a named key by its name, and an
/// unidentified key under none.
pub proof fn lemma_key_names_written(k: KeyView)
    ensures
        stored_key_name(k) == match k {
            KeyView::Character(c) => Some(
                if c == " "@ {
                    "Space"@
                } else if c.len() == 1 && 97 <= c[0] as int <= 122 {
                    seq![((c[0] as int) - 32) as char]
                } else {
                    c
                },
            ),
            KeyView::Named(n) => Some(n),
            KeyView::Unidentified => None,
        },
{
    if let KeyView::Character(c) = k {
        if c.len() == 1 && 65 <= c[0] as int <= 90 {
            assert(seq![c[0]] =~= c);
        }
    }
}

/// The rank of a modifier in a combination, which lists Ctrl, Shift, Alt and Super in
/// that order.
pub open spec fn menu_rank(m: Modifier) -> int {
    match m {
        Modifier::Ctrl => 0,
        Modifier::Shift => 1,
        Modifier::Alt => 2,
        Modifier::Super => 3,
    }
}

/// The modifiers of a combination, given which of them the configuration holds.
spec fn modifiers_held(c: bool, s: bool, a: bool, u: bool) -> Seq<Modifier> {
    (if c { seq![Modifier::Ctrl] } else { Seq::empty() }) + (if s {
        seq![Modifier::Shift]
    } else {
        Seq::empty()
    }) + (if a { seq![Modifier::Alt] } else { Seq::empty() }) + (if u {
        seq![Modifier::Super]
    } else {
        Seq::empty()
    })
}

/// The modifiers of a combination are exactly those held, each once, in rank order.
#[verifier::spinoff_prover]
#[verifier::rlimit(80)]
proof fn lemma_modifiers_held(c: bool, s: bool, a: bool, u: bool)
    ensures
        ({
            let out = modifiers_held(c, s, a, u);
            &&& out.contains(Modifier::Ctrl) == c
            &&& out.contains(Modifier::Shift) == s
            &&& out.contains(Modifier::Alt) == a
            &&& out.contains(Modifier::Super) == u
            &&& forall|i: int, j: int|
                0 <= i < j < out.len() ==> menu_rank(#[trigger] out[i]) < menu_rank(#[trigger] out[j])
        }),
{
    let out = modifiers_held(c, s, a, u);
    if c && s && a && u {
        assert(out =~= seq![Modifier::Ctrl, Modifier::Shift, Modifier::Alt, Modifier::Super]);
        assert(out[0] == Modifier::Ctrl);
        assert(out[1] == Modifier::Shift);
        assert(out[2] == Modifier::Alt);
        assert(out[3] == Modifier::Super);
        assert forall|i: int, j: int| 0 <= i < j < out.len() implies menu_rank(#[trigger] out[i]) < menu_rank(#[trigger] out[j]) by { if i == 0 && j == 1 {} else if i == 0 && j == 2 {} else if i == 0 && j == 3 {} else if i == 1 && j == 2 {} else if i == 1 && j == 3 {} else if i == 2 && j == 3 {} }
    } else if c && s && a && !u {
        assert(out =~= seq![Modifier::Ctrl, Modifier::Shift, Modifier::Alt]);
        assert(out[0] == Modifier::Ctrl);
        assert(out[1] == Modifier::Shift);
        assert(out[2] == Modifier::Alt);
        assert forall|i: int| 0 <= i < out.len() implies out[i] != Modifier::Super by { if i == 0 {} else if i == 1 {} else if i == 2 {} }
        assert forall|i: int, j: int| 0 <= i < j < out.len() implies menu_rank(#[trigger] out[i]) < menu_rank(#[trigger] out[j]) by { if i == 0 && j == 1 {} else if i == 0 && j == 2 {} else if i == 1 && j == 2 {} }
    } else if c && s && !a && u {
        assert(out =~= seq![Modifier::Ctrl, Modifier::Shift, Modifier::Super]);
        assert(out[0] == Modifier::Ctrl);
        assert(out[1] == Modifier::Shift);
        assert(out[2] == Modifier::Super);
        assert forall|i: int| 0 <= i < out.len() implies out[i] != Modifier::Alt by { if i == 0 {} else if i == 1 {} else if i == 2 {} }
        assert forall|i: int, j: int| 0 <= i < j < out.len() implies menu_rank(#[trigger] out[i]) < menu_rank(#[trigger] out[j]) by { if i == 0 && j == 1 {} else if i == 0 && j == 2 {} else if i == 1 && j == 2 {} }
    } else if c && s && !a && !u {
        assert(out =~= seq![Modifier::Ctrl, Modifier::Shift]);
        assert(out[0] == Modifier::Ctrl);
        assert(out[1] == Modifier::Shift);
        assert forall|i: int| 0 <= i < out.len() implies out[i] != Modifier::Alt by { if i == 0 {} else if i == 1 {} }
        assert forall|i: int| 0 <= i < out.len() implies out[i] != Modifier::Super by { if i == 0 {} else if i == 1 {} }
        assert forall|i: int, j: int| 0 <= i < j < out.len() implies menu_rank(#[trigger] out[i]) < menu_rank(#[trigger] out[j]) by { if i == 0 && j == 1 {} }
    } else if c && !s && a && u {
        assert(out =~= seq![Modifier::Ctrl, Modifier::Alt, Modifier::Super]);
        assert(out[0] == Modifier::Ctrl);
        assert(out[1] == Modifier::Alt);
        assert(out[2] == Modifier::Super);
        assert forall|i: int| 0 <= i < out.len() implies out[i] != Modifier::Shift by { if i == 0 {} else if i == 1 {} else if i == 2 {} }
        assert forall|i: int, j: int| 0 <= i < j < out.len() implies menu_rank(#[trigger] out[i]) < menu_rank(#[trigger] out[j]) by { if i == 0 && j == 1 {} else if i == 0 && j == 2 {} else if i == 1 && j == 2 {} }
    } else if c && !s && a && !u {
        assert(out =~= seq![Modifier::Ctrl, Modifier::Alt]);
        assert(out[0] == Modifier::Ctrl);
        assert(out[1] == Modifier::Alt);
        assert forall|i: int| 0 <= i < out.len() implies out[i] != Modifier::Shift by { if i == 0 {} else if i == 1 {} }
        assert forall|i: int| 0 <= i < out.len() implies out[i] != Modifier::Super by { if i == 0 {} else if i == 1 {} }
        assert forall|i: int, j: int| 0 <= i < j < out.len() implies menu_rank(#[trigger] out[i]) < menu_rank(#[trigger] out[j]) by { if i == 0 && j == 1 {} }
    } else if c && !s && !a && u {
        assert(out =~= seq![Modifier::Ctrl, Modifier::Super]);
        assert(out[0] == Modifier::Ctrl);
        assert(out[1] == Modifier::Super);
        assert forall|i: int| 0 <= i < out.len() implies out[i] != Modifier::Shift by { if i == 0 {} else if i == 1 {} }
        assert forall|i: int| 0 <= i < out.len() implies out[i] != Modifier::Alt by { if i == 0 {} else if i == 1 {} }
        assert forall|i: int, j: int| 0 <= i < j < out.len() implies menu_rank(#[trigger] out[i]) < menu_rank(#[trigger] out[j]) by { if i == 0 && j == 1 {} }
    } else if c && !s && !a && !u {
        assert(out =~= seq![Modifier::Ctrl]);
        assert(out[0] == Modifier::Ctrl);
        assert forall|i: int| 0 <= i < out.len() implies out[i] != Modifier::Shift by { if i == 0 {} }
        assert forall|i: int| 0 <= i < out.len() implies out[i] != Modifier::Alt by { if i == 0 {} }
        assert forall|i: int| 0 <= i < out.len() implies out[i] != Modifier::Super by { if i == 0 {} }
    } else if !c && s && a && u {
        assert(out =~= seq![Modifier::Shift, Modifier::Alt, Modifier::Super]);
        assert(out[0] == Modifier::Shift);
        assert(out[1] == Modifier::Alt);
        assert(out[2] == Modifier::Super);
        assert forall|i: int| 0 <= i < out.len() implies out[i] != Modifier::Ctrl by { if i == 0 {} else if i == 1 {} else if i == 2 {} }
        assert forall|i: int, j: int| 0 <= i < j < out.len() implies menu_rank(#[trigger] out[i]) < menu_rank(#[trigger] out[j]) by { if i == 0 && j == 1 {} else if i == 0 && j == 2 {} else if i == 1 && j == 2 {} }
    } else if !c && s && a && !u {
        assert(out =~= seq![Modifier::Shift, Modifier::Alt]);
        assert(out[0] == Modifier::Shift);
        assert(out[1] == Modifier::Alt);
        assert forall|i: int| 0 <= i < out.len() implies out[i] != Modifier::Ctrl by { if i == 0 {} else if i == 1 {} }
        assert forall|i: int| 0 <= i < out.len() implies out[i] != Modifier::Super by { if i == 0 {} else if i == 1 {} }
        assert forall|i: int, j: int| 0 <= i < j < out.len() implies menu_rank(#[trigger] out[i]) < menu_rank(#[trigger] out[j]) by { if i == 0 && j == 1 {} }
    } else if !c && s && !a && u {
        assert(out =~= seq![Modifier::Shift, Modifier::Super]);
        assert(out[0] == Modifier::Shift);
        assert(out[1] == Modifier::Super);
        assert forall|i: int| 0 <= i < out.len() implies out[i] != Modifier::Ctrl by { if i == 0 {} else if i == 1 {} }
        assert forall|i: int| 0 <= i < out.len() implies out[i] != Modifier::Alt by { if i == 0 {} else if i == 1 {} }
        assert forall|i: int, j: int| 0 <= i < j < out.len() implies menu_rank(#[trigger] out[i]) < menu_rank(#[trigger] out[j]) by { if i == 0 && j == 1 {} }
    } else if !c && s && !a && !u {
        assert(out =~= seq![Modifier::Shift]);
        assert(out[0] == Modifier::Shift);
        assert forall|i: int| 0 <= i < out.len() implies out[i] != Modifier::Ctrl by { if i == 0 {} }
        assert forall|i: int| 0 <= i < out.len() implies out[i] != Modifier::Alt by { if i == 0 {} }
        assert forall|i: int| 0 <= i < out.len() implies out[i] != Modifier::Super by { if i == 0 {} }
    } else if !c && !s && a && u {
        assert(out =~= seq![Modifier::Alt, Modifier::Super]);
        assert(out[0] == Modifier::Alt);
        assert(out[1] == Modifier::Super);
        assert forall|i: int| 0 <= i < out.len() implies out[i] != Modifier::Ctrl by { if i == 0 {} else if i == 1 {} }
        assert forall|i: int| 0 <= i < out.len() implies out[i] != Modifier::Shift by { if i == 0 {} else if i == 1 {} }
        assert forall|i: int, j: int| 0 <= i < j < out.len() implies menu_rank(#[trigger] out[i]) < menu_rank(#[trigger] out[j]) by { if i == 0 && j == 1 {} }
    } else if !c && !s && a && !u {
        assert(out =~= seq![Modifier::Alt]);
        assert(out[0] == Modifier::Alt);
        assert forall|i: int| 0 <= i < out.len() implies out[i] != Modifier::Ctrl by { if i == 0 {} }
        assert forall|i: int| 0 <= i < out.len() implies out[i] != Modifier::Shift by { if i == 0 {} }
        assert forall|i: int| 0 <= i < out.len() implies out[i] != Modifier::Super by { if i == 0 {} }
    } else if !c && !s && !a && u {
        assert(out =~= seq![Modifier::Super]);
        assert(out[0] == Modifier::Super);
        assert forall|i: int| 0 <= i < out.len() implies out[i] != Modifier::Ctrl by { if i == 0 {} }
        assert forall|i: int| 0 <= i < out.len() implies out[i] != Modifier::Shift by { if i == 0 {} }
        assert forall|i: int| 0 <= i < out.len() implies out[i] != Modifier::Alt by { if i == 0 {} }
    } else if !c && !s && !a && !u {
        assert(out =~= seq![]);
        assert(out.len() == 0);
        assert(out.len() == 0);
        assert(out.len() == 0);
        assert(out.len() == 0);
    }
}

/// A configured binding stands for a combination exactly when its key name resolves;
/// the combination holds that key and exactly the configured modifiers, each once, in
/// the order Ctrl, Shift, Alt, Super - however the configuration listed them.
pub proof fn lemma_binding_stands_for_its_combination(b: BindingView)
    ensures
        key_bind_of(b) is Some <==> key_named(b.key) is Some,
        key_bind_of(b) matches Some(kb) ==> {
            &&& Some(kb.key) == key_named(b.key)
            &&& kb.modifiers.contains(Modifier::Ctrl) == b.modifiers.contains(ModifierName::Ctrl)
            &&& kb.modifiers.contains(Modifier::Shift) == b.modifiers.contains(ModifierName::Shift)
            &&& kb.modifiers.contains(Modifier::Alt) == b.modifiers.contains(ModifierName::Alt)
            &&& kb.modifiers.contains(Modifier::Super) == b.modifiers.contains(ModifierName::Super)
            &&& forall|i: int, j: int|
                0 <= i < j < kb.modifiers.len() ==> menu_rank(#[trigger] kb.modifiers[i]) < menu_rank(
                    #[trigger] kb.modifiers[j],
                )
        },
{
    let ms = b.modifiers;
    let c = ms.contains(ModifierName::Ctrl);
    let s = ms.contains(ModifierName::Shift);
    let a = ms.contains(ModifierName::Alt);
    let u = ms.contains(ModifierName::Super);
    lemma_modifiers_held(c, s, a, u);
    if key_bind_of(b) is Some {
        assert((key_bind_of(b)->0).modifiers == modifiers_held(c, s, a, u));
    }
}

} // verus!
