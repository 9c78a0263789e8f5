//! Key bindings an application stores in its own configuration.
//!
//! These are the bindings the focused window handles itself, as opposed to the
//! desktop-wide ones the compositor executes. Both an application and the settings
//! application read and write the same stored shape through this module.
//!
//! An application supplies its own action type. [`Shortcuts`] maps a [`Binding`] to one
//! of those actions; [`ShortcutsConfig`] layers the user's map over the shipped
//! defaults, where an action that reports [`ShortcutAction::is_disable`] removes the
//! inherited binding instead of running anything.

pub mod bind_map;
pub mod config;
pub mod key_laws;
pub mod keys;
pub mod laws;
pub mod map;
pub mod order;

pub use bind_map::KeyBinds;
pub use config::{BindingSource, ResolvedBinding, ShortcutsConfig};
pub use map::Shortcuts;
pub use keys::{binding_display, binding_from_key, is_modifier_only_key, key_from_string, key_to_string};

use crate::widget::menu::key_bind::Modifier;
use vstd::prelude::*;

verus! {

/// An action an application can bind a key combination to.
///
/// The contracts that compare actions (`bindings_for_action`, `reset_action`) speak of
/// `==` on actions, and ask of the action type that its `==` is the one its
/// `PartialEqSpec` states (`A::obeys_eq_spec()`). A derived `PartialEq` does not promise
/// that to the verifier: an action type meets it with `PartialEq` implemented by hand
/// together with `vstd::std_specs::cmp::PartialEqSpecImpl`, whose `obeys_eq_spec` is
/// `true` and whose `eq_spec` is what `eq` computes.
pub trait ShortcutAction: Clone + Eq {
    /// Whether this action removes an inherited binding rather than running anything.
    ///
    /// A custom map entry carrying such an action takes the default binding away; it
    /// is how a user drops a shipped shortcut without replacing it.
    fn is_disable(&self) -> bool;
}

/// A modifier as it is written in the configuration.
///
/// Stored by name rather than as a bitmask so that a configuration file stays
/// readable and diffable.
#[derive(Clone, Copy, Debug, PartialEq, Eq, PartialOrd, Ord, Hash, Structural)]
pub enum ModifierName {
    Ctrl,
    Shift,
    Alt,
    Super,
}

/// The menu modifier a configured modifier stands for.
pub open spec fn modifier_of(m: ModifierName) -> Modifier {
    match m {
        ModifierName::Ctrl => Modifier::Ctrl,
        ModifierName::Shift => Modifier::Shift,
        ModifierName::Alt => Modifier::Alt,
        ModifierName::Super => Modifier::Super,
    }
}

impl ModifierName {
    /// The menu modifier this configured modifier stands for.
    pub fn to_modifier(self) -> (r: Modifier)
        ensures
            r == modifier_of(self),
    {
        match self {
            Self::Ctrl => Modifier::Ctrl,
            Self::Shift => Modifier::Shift,
            Self::Alt => Modifier::Alt,
            Self::Super => Modifier::Super,
        }
    }
}

/// A key combination as it is written in the configuration.
#[derive(Clone, Debug, Default, PartialEq, Eq, PartialOrd, Ord, Hash)]
pub struct Binding {
    pub modifiers: Vec<ModifierName>,
    pub key: String,
}

/// The mathematical value of a [`Binding`].
pub struct BindingView {
    pub modifiers: Seq<ModifierName>,
    pub key: Seq<char>,
}

impl View for Binding {
    type V = BindingView;

    open spec fn view(&self) -> BindingView {
        BindingView { modifiers: self.modifiers@, key: self.key@ }
    }
}

impl Binding {
    /// Builds a binding from a modifier list and a key name.
    pub fn new(modifiers: Vec<ModifierName>, key: &str) -> (r: Binding)
        ensures
            r@ == (BindingView { modifiers: modifiers@, key: key@ }),
    {
        Binding { modifiers, key: key.to_owned() }
    }

    /// A copy of this binding.
    pub fn duplicate(&self) -> (r: Binding)
        ensures
            r@ == self@,
    {
        let mut modifiers: Vec<ModifierName> = Vec::new();
        let mut i: usize = 0;
        while i < self.modifiers.len()
            invariant
                i <= self.modifiers.len(),
                modifiers@ == self.modifiers@.take(i as int),
            decreases self.modifiers.len() - i,
        {
            modifiers.push(self.modifiers[i]);
            proof {
                assert(self.modifiers@.take(i + 1) =~= self.modifiers@.take(i as int).push(
                    self.modifiers@[i as int],
                ));
            }
            i = i + 1;
        }
        proof {
            assert(self.modifiers@.take(i as int) =~= self.modifiers@);
        }
        Binding { modifiers, key: self.key.clone() }
    }

    /// Whether two bindings are written the same way.
    pub fn same_as(&self, other: &Binding) -> (r: bool)
        ensures
            r == (self@ == other@),
    {
        order::compare_bindings(self, other) == 0
    }
}

} // verus!
