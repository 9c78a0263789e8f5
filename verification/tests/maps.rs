use cosmic::keyboard::Key;
use cosmic::shortcuts::{
    Binding, BindingSource, KeyBinds, ModifierName, ResolvedBinding, ShortcutAction, Shortcuts,
    ShortcutsConfig,
};
use cosmic::widget::menu::key_bind::{KeyBind, Modifier};

#[derive(Clone, Copy, Debug, PartialEq, Eq)]
enum Action {
    Disable,
    New,
    Close,
    Open,
}

impl ShortcutAction for Action {
    fn is_disable(&self) -> bool {
        matches!(self, Self::Disable)
    }
}

fn ctrl(key: &str) -> Binding {
    Binding::new(vec![ModifierName::Ctrl], key)
}

fn defaults() -> Shortcuts<Action> {
    Shortcuts::from_iter(vec![
        (ctrl("T"), Action::New),
        (ctrl("W"), Action::Close),
        (ctrl("O"), Action::Open),
    ])
}

fn config(custom: Vec<(Binding, Action)>) -> ShortcutsConfig<Action> {
    ShortcutsConfig::new(defaults(), Shortcuts::from_iter(custom))
}

fn key_bind(modifiers: Vec<Modifier>, key: &str) -> KeyBind {
    KeyBind {
        modifiers,
        key: Key::Character(key.to_string()),
    }
}

#[test]
fn a_new_map_is_empty() {
    let map: Shortcuts<Action> = Shortcuts::new();
    assert!(map.is_empty());
    assert_eq!(map.len(), 0);
    assert!(map.iter().is_empty());
}

#[test]
fn the_later_of_two_entries_for_a_binding_wins() {
    let map = Shortcuts::from_iter(vec![
        (ctrl("T"), Action::New),
        (ctrl("T"), Action::Close),
    ]);
    assert_eq!(map.len(), 1);
    assert_eq!(map.get(&ctrl("T")), Some(&Action::Close));
}

#[test]
fn entries_come_in_binding_order() {
    let map = Shortcuts::from_iter(vec![
        (Binding::new(vec![ModifierName::Shift], "A"), Action::Open),
        (ctrl("B"), Action::Close),
        (Binding::new(vec![], "Z"), Action::New),
        (ctrl("A"), Action::New),
        (Binding::new(vec![ModifierName::Ctrl, ModifierName::Alt], "A"), Action::Open),
    ]);
    let keys: Vec<(Vec<ModifierName>, String)> = map
        .iter()
        .into_iter()
        .map(|(binding, _)| (binding.modifiers.clone(), binding.key.clone()))
        .collect();
    assert_eq!(
        keys,
        vec![
            (vec![], "Z".to_string()),
            (vec![ModifierName::Ctrl], "A".to_string()),
            (vec![ModifierName::Ctrl], "B".to_string()),
            (vec![ModifierName::Ctrl, ModifierName::Alt], "A".to_string()),
            (vec![ModifierName::Shift], "A".to_string()),
        ]
    );
}

#[test]
fn a_default_stands_without_a_custom_entry() {
    let config = config(vec![]);
    assert_eq!(config.action_for_binding(&ctrl("W")), Some(&Action::Close));
    assert_eq!(config.action_for_binding(&ctrl("Q")), None);
    assert_eq!(config.defaults().len(), 3);
}

#[test]
fn a_custom_entry_without_a_default_triggers_its_action() {
    let config = config(vec![(ctrl("N"), Action::New)]);
    assert_eq!(config.action_for_binding(&ctrl("N")), Some(&Action::New));
    let (bindings, changed) = config.bindings_for_action(&Action::New);
    assert_eq!(
        bindings,
        vec![
            ResolvedBinding {
                binding: ctrl("T"),
                source: BindingSource::Default
            },
            ResolvedBinding {
                binding: ctrl("N"),
                source: BindingSource::Custom
            },
        ]
    );
    assert!(changed);
}

#[test]
fn a_default_bound_again_to_its_action_resolves_as_custom() {
    let config = config(vec![(ctrl("T"), Action::New)]);
    let (bindings, changed) = config.bindings_for_action(&Action::New);
    assert_eq!(
        bindings,
        vec![ResolvedBinding {
            binding: ctrl("T"),
            source: BindingSource::Custom
        }]
    );
    assert!(changed);
}

#[test]
fn a_default_bound_to_another_action_is_taken_away_and_counts_as_changed() {
    let config = config(vec![(ctrl("T"), Action::Close)]);
    let (new_bindings, new_changed) = config.bindings_for_action(&Action::New);
    assert!(new_bindings.is_empty());
    assert!(new_changed, "a reset of New would drop the override");
    let (close_bindings, close_changed) = config.bindings_for_action(&Action::Close);
    assert_eq!(
        close_bindings,
        vec![
            ResolvedBinding {
                binding: ctrl("W"),
                source: BindingSource::Default
            },
            ResolvedBinding {
                binding: ctrl("T"),
                source: BindingSource::Custom
            },
        ]
    );
    assert!(close_changed);
}

#[test]
fn reset_leaves_entries_of_other_actions_alone() {
    let mut config = config(vec![
        (ctrl("T"), Action::Close),
        (ctrl("K"), Action::Open),
        (ctrl("W"), Action::Disable),
    ]);
    config.reset_action(&Action::New);
    assert_eq!(config.custom.len(), 2);
    assert_eq!(config.action_for_binding(&ctrl("T")), Some(&Action::New));
    assert_eq!(config.action_for_binding(&ctrl("K")), Some(&Action::Open));
    assert_eq!(config.action_for_binding(&ctrl("W")), None);
}

#[test]
fn key_binds_layer_custom_over_defaults() {
    let config = config(vec![
        (ctrl("T"), Action::Close),
        (ctrl("W"), Action::Disable),
        (ctrl("N"), Action::New),
    ]);
    let binds = config.key_binds(|a| Some(*a));
    assert_eq!(binds.get(&key_bind(vec![Modifier::Ctrl], "T")), Some(&Action::Close));
    assert!(!binds.contains_key(&key_bind(vec![Modifier::Ctrl], "W")));
    assert_eq!(binds.get(&key_bind(vec![Modifier::Ctrl], "N")), Some(&Action::New));
    assert_eq!(binds.get(&key_bind(vec![Modifier::Ctrl], "O")), Some(&Action::Open));
    assert_eq!(binds.into_entries().len(), 3);
}

#[test]
fn an_action_the_build_cannot_perform_leaves_the_default() {
    let config = config(vec![(ctrl("T"), Action::Open)]);
    let binds = config.key_binds(|a| if *a == Action::Open { None } else { Some(*a) });
    assert_eq!(binds.get(&key_bind(vec![Modifier::Ctrl], "T")), Some(&Action::New));
    assert!(!binds.contains_key(&key_bind(vec![Modifier::Ctrl], "O")));
}

#[test]
fn the_later_spelling_of_one_combination_wins() {
    let config = ShortcutsConfig::new(
        Shortcuts::from_iter(vec![
            (Binding::new(vec![ModifierName::Ctrl, ModifierName::Shift], "T"), Action::New),
            (Binding::new(vec![ModifierName::Shift, ModifierName::Ctrl], "T"), Action::Close),
        ]),
        Shortcuts::new(),
    );
    let binds = config.key_binds(|a| Some(*a));
    assert_eq!(
        binds.get(&key_bind(vec![Modifier::Ctrl, Modifier::Shift], "T")),
        Some(&Action::Close)
    );
}

#[test]
fn unresolvable_bindings_bind_nothing() {
    let config = ShortcutsConfig::new(
        Shortcuts::from_iter(vec![(ctrl(""), Action::New)]),
        Shortcuts::new(),
    );
    let binds = config.key_binds(|a| Some(*a));
    assert!(binds.into_entries().is_empty());
}

#[test]
fn a_disable_in_the_defaults_is_dispatched_like_any_action() {
    let config = ShortcutsConfig::new(
        Shortcuts::from_iter(vec![(ctrl("D"), Action::Disable)]),
        Shortcuts::new(),
    );
    let binds = config.key_binds(|a| Some(*a));
    assert_eq!(binds.get(&key_bind(vec![Modifier::Ctrl], "D")), Some(&Action::Disable));
}

#[test]
fn key_binds_can_be_given_what_the_actions_reported() {
    let config = config(vec![(ctrl("T"), Action::Close)]);
    let binds = config.key_binds_reported(
        &vec![true],
        vec![Some(1u8), Some(2u8), Some(3u8)],
        vec![Some(4u8)],
    );
    // Shipped entries in binding order: Ctrl+O, Ctrl+T, Ctrl+W.
    assert!(!binds.contains_key(&key_bind(vec![Modifier::Ctrl], "T")));
    assert_eq!(binds.get(&key_bind(vec![Modifier::Ctrl], "O")), Some(&1u8));
    assert_eq!(binds.get(&key_bind(vec![Modifier::Ctrl], "W")), Some(&3u8));
    let (bindings, changed) = config.bindings_for_action_reported(&Action::New, &vec![true]);
    assert!(bindings.is_empty());
    assert!(changed);
}

#[test]
fn a_bind_map_inserts_replaces_and_removes() {
    let mut binds: KeyBinds<u8> = KeyBinds::new();
    let a = key_bind(vec![Modifier::Ctrl], "A");
    let b = key_bind(vec![Modifier::Alt], "A");
    binds.insert(a.clone(), 1);
    binds.insert(b.clone(), 2);
    binds.insert(a.clone(), 3);
    assert_eq!(binds.get(&a), Some(&3));
    assert_eq!(binds.get(&b), Some(&2));
    binds.remove(&a);
    assert!(!binds.contains_key(&a));
    assert!(binds.contains_key(&b));
    assert_eq!(binds.into_entries().len(), 1);
}

#[test]
fn a_default_map_is_empty() {
    let map: Shortcuts<Action> = Shortcuts::default();
    assert!(map.is_empty());
}

#[test]
fn the_changed_flag_is_set_exactly_when_a_reset_changes_the_custom_map() {
    for custom in [
        vec![],
        vec![(ctrl("T"), Action::Close)],
        vec![(ctrl("T"), Action::Disable)],
        vec![(ctrl("T"), Action::New)],
        vec![(ctrl("N"), Action::New)],
        vec![(ctrl("W"), Action::New)],
        vec![(ctrl("X"), Action::Close)],
    ] {
        let mut config = config(custom);
        let (_, changed) = config.bindings_for_action(&Action::New);
        let before = config.custom.len();
        config.reset_action(&Action::New);
        assert_eq!(changed, config.custom.len() != before);
    }
}

#[test]
fn every_listed_binding_triggers_the_action_and_no_other_does() {
    let config = config(vec![
        (ctrl("T"), Action::Close),
        (ctrl("N"), Action::New),
        (ctrl("O"), Action::Disable),
        (ctrl("W"), Action::New),
    ]);
    let candidates = [ctrl("T"), ctrl("W"), ctrl("O"), ctrl("N"), ctrl("X")];
    for action in [Action::New, Action::Close, Action::Open] {
        let (bindings, _) = config.bindings_for_action(&action);
        for b in &candidates {
            let listed = bindings.iter().filter(|r| r.binding == *b).count();
            let triggers = config.action_for_binding(b) == Some(&action);
            assert_eq!(listed, if triggers { 1 } else { 0 });
        }
    }
}

#[test]
fn the_key_bind_map_sends_each_binding_to_what_it_triggers() {
    let config = config(vec![
        (ctrl("T"), Action::Close),
        (ctrl("N"), Action::New),
        (ctrl("O"), Action::Disable),
    ]);
    let binds = config.key_binds(|a| Some(*a));
    let candidates = [ctrl("T"), ctrl("W"), ctrl("O"), ctrl("N")];
    for b in &candidates {
        let key_bind = b.to_key_bind().expect("Ctrl with a letter resolves");
        assert_eq!(binds.get(&key_bind), config.action_for_binding(b));
    }
    assert_eq!(binds.into_entries().len(), 3);
}

#[test]
fn a_map_can_take_and_drop_bindings_in_place() {
    let mut map = defaults();
    map.insert(ctrl("N"), Action::New);
    assert_eq!(map.len(), 4);
    assert_eq!(map.get(&ctrl("N")), Some(&Action::New));
    map.insert(ctrl("T"), Action::Close);
    assert_eq!(map.len(), 4);
    assert_eq!(map.get(&ctrl("T")), Some(&Action::Close));
    assert_eq!(map.remove(&ctrl("W")), Some(Action::Close));
    assert_eq!(map.remove(&ctrl("W")), None);
    assert_eq!(map.len(), 3);
    let keys: Vec<String> = map.iter().iter().map(|(b, _)| b.key.clone()).collect();
    assert_eq!(keys, vec!["N", "O", "T"]);
}

#[test]
fn a_key_bind_map_counts_its_combinations() {
    let config = config(vec![(ctrl("O"), Action::Disable)]);
    let binds = config.key_binds(|a| Some(*a));
    assert_eq!(binds.len(), 2);
    assert!(!binds.is_empty());
    assert!(KeyBinds::<Action>::new().is_empty());
}

#[test]
fn replacing_the_user_map_keeps_the_shipped_one() {
    let mut config = config(vec![(ctrl("T"), Action::Close)]);
    config.set_custom(Shortcuts::from_iter(vec![(ctrl("W"), Action::Disable)]));
    assert_eq!(config.custom.len(), 1);
    assert_eq!(config.action_for_binding(&ctrl("T")), Some(&Action::New));
    assert_eq!(config.action_for_binding(&ctrl("W")), None);
    assert_eq!(config.defaults().len(), 3);
}

#[test]
fn bindings_order_by_modifiers_then_key() {
    assert!(ctrl("A") < ctrl("B"));
    assert!(ModifierName::Ctrl < ModifierName::Super);
}
