//! Key combinations as menus and applications match and display them.

use crate::keyboard::{Key, KeyView};
use crate::strings::{to_uppercase, unicode_uppercase};
use vstd::prelude::*;

verus! {

/// A modifier key of a key combination.
#[derive(Clone, Copy, Debug, PartialEq, Eq, Hash, Structural)]
pub enum Modifier {
    Super,
    Ctrl,
    Alt,
    Shift,
}

/// A key together with the modifiers that have to be held with it.
#[derive(Clone, Debug, PartialEq, Eq, Hash)]
pub struct KeyBind {
    pub modifiers: Vec<Modifier>,
    pub key: Key,
}

/// The mathematical value of a [`KeyBind`].
pub struct KeyBindView {
    pub modifiers: Seq<Modifier>,
    pub key: KeyView,
}

impl View for KeyBind {
    type V = KeyBindView;

    open spec fn view(&self) -> KeyBindView {
        KeyBindView { modifiers: self.modifiers@, key: self.key@ }
    }
}

/// How a modifier is spelled when a combination is displayed.
pub open spec fn modifier_text(m: Modifier) -> Seq<char> {
    match m {
        Modifier::Super => "Super"@,
        Modifier::Ctrl => "Ctrl"@,
        Modifier::Alt => "Alt"@,
        Modifier::Shift => "Shift"@,
    }
}

/// Each modifier's name followed by `" + "`, in the order given.
pub open spec fn modifiers_text(ms: Seq<Modifier>) -> Seq<char>
    decreases ms.len(),
{
    if ms.len() == 0 {
        Seq::empty()
    } else {
        modifiers_text(ms.drop_last()) + modifier_text(ms.last()) + " + "@
    }
}

/// How a key is spelled when a combination is displayed: a typed character in
/// uppercase, a named key by its name.
pub open spec fn key_text(k: KeyView) -> Seq<char> {
    match k {
        KeyView::Character(c) => unicode_uppercase(c),
        KeyView::Named(n) => n,
        KeyView::Unidentified => "Unidentified"@,
    }
}

/// The displayed form of a combination, such as `Ctrl + Shift + T`.
pub open spec fn key_bind_text(kb: KeyBindView) -> Seq<char> {
    modifiers_text(kb.modifiers) + key_text(kb.key)
}

/// The displayed name of a modifier.
pub fn modifier_str(m: Modifier) -> (r: &'static str)
    ensures
        r@ == modifier_text(m),
{
    match m {
        Modifier::Super => "Super",
        Modifier::Ctrl => "Ctrl",
        Modifier::Alt => "Alt",
        Modifier::Shift => "Shift",
    }
}

impl KeyBind {
    /// The combination as it is displayed, such as `Ctrl + Shift + T`.
    pub fn to_string(&self) -> (r: String)
        ensures
            r@ == key_bind_text(self@),
    {
        let mut s = String::new();
        let mut i: usize = 0;
        while i < self.modifiers.len()
            invariant
                i <= self.modifiers.len(),
                s@ == modifiers_text(self.modifiers@.take(i as int)),
            decreases self.modifiers.len() - i,
        {
            s.append(modifier_str(self.modifiers[i]));
            s.append(" + ");
            proof {
                assert(self.modifiers@.take(i + 1).drop_last() =~= self.modifiers@.take(i as int));
            }
            i = i + 1;
        }
        proof {
            assert(self.modifiers@.take(i as int) =~= self.modifiers@);
        }
        match &self.key {
            Key::Character(c) => {
                let upper = to_uppercase(c.as_str());
                s.append(upper.as_str());
            },
            Key::Named(n) => s.append(n.as_str()),
            Key::Unidentified => s.append("Unidentified"),
        }
        s
    }

    /// A copy of this combination.
    pub fn duplicate(&self) -> (r: KeyBind)
        ensures
            r@ == self@,
    {
        let mut modifiers: Vec<Modifier> = Vec::new();
        let mut i: usize = 0;
        while i < self.modifiers.len()
            invariant
                i <= self.modifiers.len(),
                modifiers@ == self.modifiers@.take(i as int),
            decreases self.modifiers.len() - i,
        {
            modifiers.push(self.modifiers[i]);
            proof {
                assert(self.modifiers@.take(i + 1) =~= self.modifiers@.take(i as int).push(self.modifiers@[i as int]));
            }
            i = i + 1;
        }
        proof {
            assert(self.modifiers@.take(i as int) =~= self.modifiers@);
        }
        KeyBind { modifiers, key: self.key.duplicate() }
    }

    /// Whether two combinations are the same combination.
    pub fn same_as(&self, other: &KeyBind) -> (r: bool)
        ensures
            r == (self@ == other@),
    {
        if self.modifiers.len() != other.modifiers.len() {
            return false;
        }
        let mut i: usize = 0;
        while i < self.modifiers.len()
            invariant
                self.modifiers.len() == other.modifiers.len(),
                i <= self.modifiers.len(),
                forall|j: int| 0 <= j < i ==> self.modifiers@[j] == other.modifiers@[j],
            decreases self.modifiers.len() - i,
        {
            if self.modifiers[i] != other.modifiers[i] {
                return false;
            }
            i = i + 1;
        }
        proof {
            assert(self.modifiers@ =~= other.modifiers@);
        }
        self.key.same_as(&other.key)
    }
}

/// A combination is displayed as its modifiers, each by its name followed by `" + "`,
/// in the order listed, and then its key: a named key by its name, an unidentified key
/// as `Unidentified`.
pub proof fn lemma_key_bind_display(ms: Seq<Modifier>, m: Modifier, key: KeyView)
    ensures
        modifiers_text(Seq::empty()) == Seq::<char>::empty(),
        modifiers_text(ms.push(m)) == modifiers_text(ms) + match m {
            Modifier::Super => "Super"@,
            Modifier::Ctrl => "Ctrl"@,
            Modifier::Alt => "Alt"@,
            Modifier::Shift => "Shift"@,
        } + " + "@,
        key_bind_text(KeyBindView { modifiers: ms, key }) == modifiers_text(ms) + key_text(key),
        key matches KeyView::Named(n) ==> key_text(key) == n,
        key is Unidentified ==> key_text(key) == "Unidentified"@,
{
    assert(ms.push(m).drop_last() =~= ms);
}

} // verus!
