//! Key names as the configuration stores them, and the keys they stand for.

use super::{Binding, BindingView, ModifierName, modifier_of};
use crate::keyboard::{Key, KeyView, Modifiers};
use crate::strings::{ascii_letter_uppercase, chars_of, is_ascii_letter, str_eq, to_uppercase};
use crate::widget::menu::key_bind::{key_bind_text, KeyBind, KeyBindView, Modifier};
use vstd::prelude::*;

verus! {

/// Named keys that are stored under their own name.
pub open spec fn stored_named_keys() -> Seq<Seq<char>> {
    seq![
        "Backspace"@, "Enter"@, "Escape"@, "Insert"@, "Delete"@, "Tab"@,
        "F1"@, "F2"@, "F3"@, "F4"@, "F5"@, "F6"@, "F7"@, "F8"@, "F9"@, "F10"@, "F11"@, "F12"@,
        "Home"@, "End"@, "PageUp"@, "PageDown"@,
    ]
}

/// The arrow key a stored name stands for: both the full name and the short one
/// (`"Left"`, `"Right"`, `"Up"`, `"Down"`) are read.
pub open spec fn arrow_key_named(s: Seq<char>) -> Option<Seq<char>> {
    if s == "ArrowLeft"@ || s == "Left"@ {
        Some("ArrowLeft"@)
    } else if s == "ArrowRight"@ || s == "Right"@ {
        Some("ArrowRight"@)
    } else if s == "ArrowUp"@ || s == "Up"@ {
        Some("ArrowUp"@)
    } else if s == "ArrowDown"@ || s == "Down"@ {
        Some("ArrowDown"@)
    } else {
        None
    }
}

/// The key a stored key name stands for. Any other non-empty name is the character
/// string it spells; the empty name stands for nothing.
pub open spec fn key_named(s: Seq<char>) -> Option<KeyView> {
    if stored_named_keys().contains(s) {
        Some(KeyView::Named(s))
    } else if arrow_key_named(s) is Some {
        Some(KeyView::Named(arrow_key_named(s)->0))
    } else if s == "Space"@ || s == "space"@ {
        Some(KeyView::Character(" "@))
    } else if s.len() > 0 {
        Some(KeyView::Character(s))
    } else {
        None
    }
}

/// Named keys that are only ever pressed together with another key.
pub open spec fn modifier_key_names() -> Seq<Seq<char>> {
    seq![
        "Alt"@, "AltGraph"@, "CapsLock"@, "Control"@, "Fn"@, "FnLock"@, "NumLock"@,
        "ScrollLock"@, "Shift"@, "Symbol"@, "SymbolLock"@, "Meta"@, "Hyper"@, "Super"@,
    ]
}

/// Whether a key only ever appears alongside another one.
pub open spec fn is_modifier_only(k: KeyView) -> bool {
    k matches KeyView::Named(n) && modifier_key_names().contains(n)
}

/// The name a key is stored under: the space bar as `Space`, a single ASCII letter in
/// uppercase, any other character string as it is, a named key by its name.
pub open spec fn stored_key_name(k: KeyView) -> Option<Seq<char>> {
    match k {
        KeyView::Character(c) => if c == " "@ {
            Some("Space"@)
        } else if c.len() == 1 && is_ascii_letter(c[0]) {
            Some(seq![ascii_letter_uppercase(c[0])])
        } else {
            Some(c)
        },
        KeyView::Named(n) => Some(n),
        KeyView::Unidentified => None,
    }
}

/// The modifiers a captured key press was made with, in the fixed order Ctrl, Shift,
/// Alt, Super.
pub open spec fn held_modifiers(m: Modifiers) -> Seq<ModifierName> {
    (if m.control { seq![ModifierName::Ctrl] } else { Seq::empty() }) + (if m.shift {
        seq![ModifierName::Shift]
    } else {
        Seq::empty()
    }) + (if m.alt { seq![ModifierName::Alt] } else { Seq::empty() }) + (if m.logo {
        seq![ModifierName::Super]
    } else {
        Seq::empty()
    })
}

/// The binding a key press makes: none while only modifiers are held, or for a key
/// that has no stored name.
pub open spec fn binding_of_key_press(m: Modifiers, k: KeyView) -> Option<BindingView> {
    if is_modifier_only(k) {
        None
    } else {
        match stored_key_name(k) {
            Some(key) => Some(BindingView { modifiers: held_modifiers(m), key }),
            None => None,
        }
    }
}

/// The menu modifiers of a configured modifier list: each modifier the list holds,
/// once, in the fixed order Ctrl, Shift, Alt, Super.
pub open spec fn canonical_modifiers(ms: Seq<ModifierName>) -> Seq<Modifier> {
    (if ms.contains(ModifierName::Ctrl) { seq![Modifier::Ctrl] } else { Seq::empty() }) + (
    if ms.contains(ModifierName::Shift) {
        seq![Modifier::Shift]
    } else {
        Seq::empty()
    }) + (if ms.contains(ModifierName::Alt) { seq![Modifier::Alt] } else { Seq::empty() }) + (
    if ms.contains(ModifierName::Super) {
        seq![Modifier::Super]
    } else {
        Seq::empty()
    })
}

/// The combination a configured binding stands for, if its key name resolves.
pub open spec fn key_bind_of(b: BindingView) -> Option<KeyBindView> {
    match key_named(b.key) {
        Some(key) => Some(KeyBindView { modifiers: canonical_modifiers(b.modifiers), key }),
        None => None,
    }
}

/// How a binding is spelled in the interface: the combination it stands for, or its
/// key name as written when that does not resolve.
pub open spec fn binding_text(b: BindingView) -> Seq<char> {
    match key_bind_of(b) {
        Some(kb) => key_bind_text(kb),
        None => b.key,
    }
}

/// How every stored key name looks: at least two characters, starting with one of the
/// letters the stored names start with.
pub open spec fn stored_name_shape(s: Seq<char>) -> bool {
    s.len() >= 2 && (s[0] == 'B' || s[0] == 'D' || s[0] == 'E' || s[0] == 'F' || s[0] == 'H' || s[0] == 'I' || s[0] == 'P' || s[0] == 'T')
}

/// Every stored key name has the shape of one.
proof fn lemma_stored_names_have_their_shape()
    ensures
        forall|i: int| 0 <= i < stored_named_keys().len() ==> stored_name_shape(#[trigger] stored_named_keys()[i]),
{
    reveal_strlit("Backspace");
    reveal_strlit("Enter");
    reveal_strlit("Escape");
    reveal_strlit("Insert");
    reveal_strlit("Delete");
    reveal_strlit("Tab");
    reveal_strlit("F1");
    reveal_strlit("F2");
    reveal_strlit("F3");
    reveal_strlit("F4");
    reveal_strlit("F5");
    reveal_strlit("F6");
    reveal_strlit("F7");
    reveal_strlit("F8");
    reveal_strlit("F9");
    reveal_strlit("F10");
    reveal_strlit("F11");
    reveal_strlit("F12");
    reveal_strlit("Home");
    reveal_strlit("End");
    reveal_strlit("PageUp");
    reveal_strlit("PageDown");
    assert forall|i: int| 0 <= i < stored_named_keys().len() implies stored_name_shape(#[trigger] stored_named_keys()[i]) by {
        if i == 0 {
            assert(stored_named_keys()[0] == "Backspace"@);
        } else if i == 1 {
            assert(stored_named_keys()[1] == "Enter"@);
        } else if i == 2 {
            assert(stored_named_keys()[2] == "Escape"@);
        } else if i == 3 {
            assert(stored_named_keys()[3] == "Insert"@);
        } else if i == 4 {
            assert(stored_named_keys()[4] == "Delete"@);
        } else if i == 5 {
            assert(stored_named_keys()[5] == "Tab"@);
        } else if i == 6 {
            assert(stored_named_keys()[6] == "F1"@);
        } else if i == 7 {
            assert(stored_named_keys()[7] == "F2"@);
        } else if i == 8 {
            assert(stored_named_keys()[8] == "F3"@);
        } else if i == 9 {
            assert(stored_named_keys()[9] == "F4"@);
        } else if i == 10 {
            assert(stored_named_keys()[10] == "F5"@);
        } else if i == 11 {
            assert(stored_named_keys()[11] == "F6"@);
        } else if i == 12 {
            assert(stored_named_keys()[12] == "F7"@);
        } else if i == 13 {
            assert(stored_named_keys()[13] == "F8"@);
        } else if i == 14 {
            assert(stored_named_keys()[14] == "F9"@);
        } else if i == 15 {
            assert(stored_named_keys()[15] == "F10"@);
        } else if i == 16 {
            assert(stored_named_keys()[16] == "F11"@);
        } else if i == 17 {
            assert(stored_named_keys()[17] == "F12"@);
        } else if i == 18 {
            assert(stored_named_keys()[18] == "Home"@);
        } else if i == 19 {
            assert(stored_named_keys()[19] == "End"@);
        } else if i == 20 {
            assert(stored_named_keys()[20] == "PageUp"@);
        } else if i == 21 {
            assert(stored_named_keys()[21] == "PageDown"@);
        }
    }
}

/// A name without the shape of a stored key name is not one.
proof fn lemma_not_stored(s: Seq<char>)
    requires
        !stored_name_shape(s),
    ensures
        !stored_named_keys().contains(s),
{
    lemma_stored_names_have_their_shape();
}

/// A key as capturing it and reading its stored name back gives it: a lowercase ASCII
/// letter comes back in uppercase, any other key as it was.
pub open spec fn read_back_key(k: KeyView) -> KeyView {
    match k {
        KeyView::Character(c) => if c.len() == 1 && 97 <= c[0] as int <= 122 {
            KeyView::Character(seq![ascii_letter_uppercase(c[0])])
        } else {
            k
        },
        _ => k,
    }
}

/// Whether a captured key is one whose stored name reads back: a named key stored
/// under its own name (an arrow key by its full name), or a single typed character.
pub open spec fn round_trips(k: KeyView) -> bool {
    match k {
        KeyView::Named(n) => stored_named_keys().contains(n) || n == "ArrowLeft"@ || n
            == "ArrowRight"@ || n == "ArrowUp"@ || n == "ArrowDown"@,
        KeyView::Character(c) => c.len() == 1,
        KeyView::Unidentified => false,
    }
}

/// A captured key survives writing its name out and reading it back, up to the case of
/// a letter.
pub proof fn lemma_captured_key_reads_back(k: KeyView)
    requires
        round_trips(k),
    ensures
        stored_key_name(k) matches Some(s) && key_named(s) == Some(read_back_key(k)),
{
    reveal_strlit("ArrowLeft");
    reveal_strlit("ArrowRight");
    reveal_strlit("ArrowUp");
    reveal_strlit("ArrowDown");
    reveal_strlit("Left");
    reveal_strlit("Right");
    reveal_strlit("Up");
    reveal_strlit("Down");
    reveal_strlit("Space");
    reveal_strlit("space");
    reveal_strlit(" ");
    match k {
        KeyView::Named(n) => {
            if !stored_named_keys().contains(n) {
                assert(n[0] == 'A');
                lemma_not_stored(n);
            }
        },
        KeyView::Character(c) => {
            let s = stored_key_name(k)->0;
            assert(s.len() == 1 || s == "Space"@);
            assert("Space"@[0] == 'S' && "Right"@[0] == 'R');
            lemma_not_stored(s);
            if c.len() == 1 && is_ascii_letter(c[0]) && !(97 <= c[0] as int <= 122) {
                assert(seq![ascii_letter_uppercase(c[0])] =~= c);
            }
        },
        KeyView::Unidentified => {},
    }
}

/// Whether a stored key name is one of the aliases reading normalises: the short arrow
/// names and the lowercase `space`.
pub open spec fn is_alias(s: Seq<char>) -> bool {
    s == "Left"@ || s == "Right"@ || s == "Up"@ || s == "Down"@ || s == "space"@
}

/// A stored key name survives resolving it and writing it back - unless it is an alias,
/// a bare space or a single lowercase letter, which come back normalised.
pub proof fn lemma_stored_name_writes_back(s: Seq<char>)
    requires
        s.len() > 0,
        !is_alias(s),
        s != " "@,
        !(s.len() == 1 && 97 <= s[0] as int <= 122),
    ensures
        key_named(s) matches Some(k) && stored_key_name(k) == Some(s),
{
    if s.len() == 1 && is_ascii_letter(s[0]) {
        assert(seq![ascii_letter_uppercase(s[0])] =~= s);
    }
}

/// Resolves a stored key name.
pub fn key_from_string(value: &str) -> (r: Option<Key>)
    ensures
        r matches Some(k) ==> key_named(value@) == Some(k@),
        r is None ==> key_named(value@) is None,
{
    let stored: [&str; 22] = [
        "Backspace", "Enter", "Escape", "Insert", "Delete", "Tab",
        "F1", "F2", "F3", "F4", "F5", "F6", "F7", "F8", "F9", "F10", "F11", "F12",
        "Home", "End", "PageUp", "PageDown",
    ];
    proof {
        assert(stored@.map_values(|s: &str| s@) =~= stored_named_keys());
    }
    let mut i: usize = 0;
    while i < 22
        invariant
            stored@.map_values(|s: &str| s@) == stored_named_keys(),
            i <= 22,
            forall|j: int| 0 <= j < i ==> stored_named_keys()[j] != value@,
        decreases 22 - i,
    {
        if str_eq(value, stored[i]) {
            proof {
                assert(stored_named_keys()[i as int] == value@);
                assert(stored_named_keys().contains(value@));
            }
            return Some(Key::Named(value.to_owned()));
        }
        i = i + 1;
    }
    proof {
        assert(!stored_named_keys().contains(value@));
    }
    if str_eq(value, "ArrowLeft") || str_eq(value, "Left") {
        Some(Key::Named("ArrowLeft".to_owned()))
    } else if str_eq(value, "ArrowRight") || str_eq(value, "Right") {
        Some(Key::Named("ArrowRight".to_owned()))
    } else if str_eq(value, "ArrowUp") || str_eq(value, "Up") {
        Some(Key::Named("ArrowUp".to_owned()))
    } else if str_eq(value, "ArrowDown") || str_eq(value, "Down") {
        Some(Key::Named("ArrowDown".to_owned()))
    } else if str_eq(value, "Space") || str_eq(value, "space") {
        Some(Key::Character(" ".to_owned()))
    } else if !value.is_empty() {
        Some(Key::Character(value.to_owned()))
    } else {
        None
    }
}

/// Writes a captured key back as a stored key name.
pub fn key_to_string(key: &Key) -> (r: Option<String>)
    ensures
        r matches Some(s) ==> stored_key_name(key@) == Some(s@),
        r is None ==> stored_key_name(key@) is None,
{
    match key {
        Key::Character(c) => {
            if str_eq(c.as_str(), " ") {
                Some("Space".to_owned())
            } else {
                let cs = chars_of(c.as_str());
                if cs.len() == 1 && is_ascii_letter_char(cs[0]) {
                    Some(to_uppercase(c.as_str()))
                } else {
                    Some(c.clone())
                }
            }
        },
        Key::Named(named) => Some(named.clone()),
        Key::Unidentified => None,
    }
}

/// Whether a character is an ASCII letter.
fn is_ascii_letter_char(c: char) -> (r: bool)
    ensures
        r == is_ascii_letter(c),
{
    let v = c as u32;
    (65 <= v && v <= 90) || (97 <= v && v <= 122)
}

/// Whether a key only ever appears alongside another one.
pub fn is_modifier_only_key(key: &Key) -> (r: bool)
    ensures
        r == is_modifier_only(key@),
{
    match key {
        Key::Named(named) => {
            let names: [&str; 14] = [
                "Alt", "AltGraph", "CapsLock", "Control", "Fn", "FnLock", "NumLock",
                "ScrollLock", "Shift", "Symbol", "SymbolLock", "Meta", "Hyper", "Super",
            ];
            proof {
                assert(names@.map_values(|s: &str| s@) =~= modifier_key_names());
            }
            let mut i: usize = 0;
            while i < 14
                invariant
                    key@ == KeyView::Named(named@),
                    names@.map_values(|s: &str| s@) == modifier_key_names(),
                    i <= 14,
                    forall|j: int| 0 <= j < i ==> modifier_key_names()[j] != named@,
                decreases 14 - i,
            {
                if str_eq(named.as_str(), names[i]) {
                    proof {
                        assert(modifier_key_names()[i as int] == named@);
                        assert(modifier_key_names().contains(named@));
                        assert(key@ == KeyView::Named(named@));
                        assert(is_modifier_only(key@));
                    }
                    return true;
                }
                i = i + 1;
            }
            false
        },
        _ => false,
    }
}

/// Builds a binding from a key press, for a settings page that captures one.
///
/// Returns `None` while only modifiers are held, so that capture keeps waiting for the
/// key that completes the combination.
pub fn binding_from_key(modifiers: Modifiers, key: &Key) -> (r: Option<Binding>)
    ensures
        r matches Some(b) ==> binding_of_key_press(modifiers, key@) == Some(b@),
        r is None ==> binding_of_key_press(modifiers, key@) is None,
{
    if is_modifier_only_key(key) {
        return None;
    }
    let key = match key_to_string(key) {
        Some(k) => k,
        None => return None,
    };
    let mut binding_modifiers: Vec<ModifierName> = Vec::new();
    if modifiers.control() {
        binding_modifiers.push(ModifierName::Ctrl);
    }
    if modifiers.shift() {
        binding_modifiers.push(ModifierName::Shift);
    }
    if modifiers.alt() {
        binding_modifiers.push(ModifierName::Alt);
    }
    if modifiers.logo() {
        binding_modifiers.push(ModifierName::Super);
    }
    proof {
        assert(binding_modifiers@ =~= held_modifiers(modifiers));
    }
    Some(Binding { modifiers: binding_modifiers, key })
}

/// Whether a configured modifier list holds `m`.
fn holds_modifier(ms: &Vec<ModifierName>, m: ModifierName) -> (r: bool)
    ensures
        r == ms@.contains(m),
{
    let mut i: usize = 0;
    while i < ms.len()
        invariant
            i <= ms.len(),
            forall|j: int| 0 <= j < i ==> ms@[j] != m,
        decreases ms.len() - i,
    {
        if ms[i] == m {
            proof {
                assert(ms@[i as int] == m);
            }
            return true;
        }
        i = i + 1;
    }
    false
}

impl Binding {
    /// Converts to the combination used for matching and display.
    ///
    /// Returns `None` for a key name that does not resolve, which is what an unreadable
    /// configuration entry looks like.
    pub fn to_key_bind(&self) -> (r: Option<KeyBind>)
        ensures
            r matches Some(kb) ==> key_bind_of(self@) == Some(kb@),
            r is None ==> key_bind_of(self@) is None,
    {
        let key = match key_from_string(self.key.as_str()) {
            Some(k) => k,
            None => return None,
        };
        // Emitted in a fixed order so that the same combination always displays the
        // same way, whatever order the configuration listed the modifiers in.
        let mut modifiers: Vec<Modifier> = Vec::new();
        if holds_modifier(&self.modifiers, ModifierName::Ctrl) {
            modifiers.push(ModifierName::Ctrl.to_modifier());
        }
        if holds_modifier(&self.modifiers, ModifierName::Shift) {
            modifiers.push(ModifierName::Shift.to_modifier());
        }
        if holds_modifier(&self.modifiers, ModifierName::Alt) {
            modifiers.push(ModifierName::Alt.to_modifier());
        }
        if holds_modifier(&self.modifiers, ModifierName::Super) {
            modifiers.push(ModifierName::Super.to_modifier());
        }
        proof {
            assert(modifiers@ =~= canonical_modifiers(self.modifiers@));
        }
        Some(KeyBind { modifiers, key })
    }
}

/// How a binding is spelled in the interface.
pub fn binding_display(binding: &Binding) -> (r: String)
    ensures
        r@ == binding_text(binding@),
{
    match binding.to_key_bind() {
        Some(key_bind) => key_bind.to_string(),
        None => binding.key.clone(),
    }
}

} // verus!
