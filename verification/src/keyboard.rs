//! Keyboard input as the key binding logic reads it.
//!
//! A key press arrives from the windowing toolkit; these types hold what the binding
//! logic reads of it as plain values. A named key is held by the name the toolkit
//! gives its variant (`"Enter"`, `"ArrowLeft"`, `"Control"`, ...).

use vstd::prelude::*;

verus! {

/// A logical key.
#[derive(Clone, Debug, PartialEq, Eq, Hash)]
pub enum Key {
    /// A key with an established name, held by that name.
    Named(String),
    /// The text a key types, in the user's current layout.
    Character(String),
    /// A key the platform could not identify.
    Unidentified,
}

/// The mathematical value of a [`Key`].
pub enum KeyView {
    Named(Seq<char>),
    Character(Seq<char>),
    Unidentified,
}

impl View for Key {
    type V = KeyView;

    open spec fn view(&self) -> KeyView {
        match self {
            Key::Named(n) => KeyView::Named(n@),
            Key::Character(c) => KeyView::Character(c@),
            Key::Unidentified => KeyView::Unidentified,
        }
    }
}

impl Key {
    /// A copy of this key.
    pub fn duplicate(&self) -> (r: Key)
        ensures
            r@ == self@,
    {
        match self {
            Key::Named(n) => Key::Named(n.clone()),
            Key::Character(c) => Key::Character(c.clone()),
            Key::Unidentified => Key::Unidentified,
        }
    }

    /// Whether two keys are the same key.
    pub fn same_as(&self, other: &Key) -> (r: bool)
        ensures
            r == (self@ == other@),
    {
        match (self, other) {
            (Key::Named(a), Key::Named(b)) => *a == *b,
            (Key::Character(a), Key::Character(b)) => *a == *b,
            (Key::Unidentified, Key::Unidentified) => true,
            _ => false,
        }
    }
}

/// The modifier keys held while a key is pressed.
#[derive(Clone, Copy, Debug, Default, PartialEq, Eq, Hash)]
pub struct Modifiers {
    /// A Control key is held.
    pub control: bool,
    /// A Shift key is held.
    pub shift: bool,
    /// An Alt key is held.
    pub alt: bool,
    /// The logo (Super) key is held.
    pub logo: bool,
}

impl Modifiers {
    /// Whether a Control key is held.
    pub fn control(self) -> (r: bool)
        ensures
            r == self.control,
    {
        self.control
    }

    /// Whether a Shift key is held.
    pub fn shift(self) -> (r: bool)
        ensures
            r == self.shift,
    {
        self.shift
    }

    /// Whether an Alt key is held.
    pub fn alt(self) -> (r: bool)
        ensures
            r == self.alt,
    {
        self.alt
    }

    /// Whether the logo key is held.
    pub fn logo(self) -> (r: bool)
        ensures
            r == self.logo,
    {
        self.logo
    }
}

} // verus!
