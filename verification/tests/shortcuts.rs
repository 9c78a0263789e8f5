use cosmic::keyboard::{Key, Modifiers};
use cosmic::shortcuts::{
    binding_display, binding_from_key, Binding, BindingSource, ModifierName, ShortcutAction,
    Shortcuts, ShortcutsConfig,
};

#[derive(Clone, Copy, Debug, PartialEq, Eq)]
enum Action {
    Disable,
    New,
    Close,
}

impl ShortcutAction for Action {
    fn is_disable(&self) -> bool {
        matches!(self, Self::Disable)
    }
}

fn config(custom: &[(Binding, Action)]) -> ShortcutsConfig<Action> {
    let defaults = Shortcuts::from_iter(vec![
        (Binding::new(vec![ModifierName::Ctrl], "T"), Action::New),
        (Binding::new(vec![ModifierName::Ctrl], "W"), Action::Close),
    ]);
    ShortcutsConfig::new(defaults, Shortcuts::from_iter(custom.to_vec()))
}

fn ctrl() -> Modifiers {
    Modifiers {
        control: true,
        shift: false,
        alt: false,
        logo: false,
    }
}

#[test]
fn custom_binding_wins_over_the_default() {
    let binding = Binding::new(vec![ModifierName::Ctrl], "T");
    let config = config(&[(binding.clone(), Action::Close)]);

    assert_eq!(config.action_for_binding(&binding), Some(&Action::Close));
}

#[test]
fn disable_takes_the_binding_away() {
    let binding = Binding::new(vec![ModifierName::Ctrl], "T");
    let config = config(&[(binding.clone(), Action::Disable)]);

    assert_eq!(config.action_for_binding(&binding), None);
    assert!(
        !config.key_binds(|a| Some(*a)).contains_key(
            &binding
                .to_key_bind()
                .expect("Ctrl+T has to resolve to a key bind")
        )
    );
}

#[test]
fn a_disabled_default_still_counts_as_changed() {
    let config = config(&[(Binding::new(vec![ModifierName::Ctrl], "T"), Action::Disable)]);

    let (bindings, changed) = config.bindings_for_action(&Action::New);
    assert!(bindings.is_empty());
    assert!(
        changed,
        "the reset button has to appear for a disabled default"
    );
}

#[test]
fn reset_drops_both_the_override_and_the_new_binding() {
    let mut config = config(&[
        // Overrides the default combination of New.
        (Binding::new(vec![ModifierName::Ctrl], "T"), Action::Disable),
        // Binds New somewhere else.
        (Binding::new(vec![ModifierName::Alt], "N"), Action::New),
        // Nothing to do with New.
        (Binding::new(vec![ModifierName::Alt], "W"), Action::Close),
    ]);

    config.reset_action(&Action::New);

    assert_eq!(config.custom.len(), 1);
    let (bindings, changed) = config.bindings_for_action(&Action::New);
    assert_eq!(bindings.len(), 1);
    assert_eq!(bindings[0].source, BindingSource::Default);
    assert!(!changed);
}

#[test]
fn modifier_order_does_not_change_the_display() {
    let one = Binding::new(vec![ModifierName::Shift, ModifierName::Ctrl], "T");
    let other = Binding::new(vec![ModifierName::Ctrl, ModifierName::Shift], "T");

    assert_eq!(binding_display(&one), binding_display(&other));
}

#[test]
fn a_key_alone_is_not_a_binding_until_it_is_not_a_modifier() {
    assert_eq!(
        binding_from_key(ctrl(), &Key::Named("Control".to_string())),
        None
    );
    assert_eq!(
        binding_from_key(ctrl(), &Key::Character("t".to_string())),
        Some(Binding::new(vec![ModifierName::Ctrl], "T"))
    );
}

#[test]
fn a_default_rebound_to_another_action_counts_as_changed() {
    let config = config(&[(Binding::new(vec![ModifierName::Ctrl], "T"), Action::Close)]);

    let (bindings, changed) = config.bindings_for_action(&Action::New);
    assert!(bindings.is_empty());
    assert!(changed, "the default of New was taken away");
}
