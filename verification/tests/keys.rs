use cosmic::keyboard::{Key, Modifiers};
use cosmic::shortcuts::{
    binding_display, binding_from_key, is_modifier_only_key, key_from_string, key_to_string,
    Binding, ModifierName,
};
use cosmic::widget::menu::key_bind::{KeyBind, Modifier};

fn named(name: &str) -> Key {
    Key::Named(name.to_string())
}

fn character(text: &str) -> Key {
    Key::Character(text.to_string())
}

fn held(control: bool, shift: bool, alt: bool, logo: bool) -> Modifiers {
    Modifiers {
        control,
        shift,
        alt,
        logo,
    }
}

#[test]
fn stored_names_resolve_to_named_keys() {
    assert_eq!(key_from_string("Backspace"), Some(named("Backspace")));
    assert_eq!(key_from_string("F12"), Some(named("F12")));
    assert_eq!(key_from_string("PageDown"), Some(named("PageDown")));
}

#[test]
fn short_arrow_names_resolve_to_arrow_keys() {
    assert_eq!(key_from_string("Left"), Some(named("ArrowLeft")));
    assert_eq!(key_from_string("ArrowLeft"), Some(named("ArrowLeft")));
    assert_eq!(key_from_string("Down"), Some(named("ArrowDown")));
}

#[test]
fn both_spellings_of_space_resolve_to_the_space_character() {
    assert_eq!(key_from_string("Space"), Some(character(" ")));
    assert_eq!(key_from_string("space"), Some(character(" ")));
}

#[test]
fn other_names_are_the_characters_they_spell() {
    assert_eq!(key_from_string("x"), Some(character("x")));
    assert_eq!(key_from_string("PrintScreen"), Some(character("PrintScreen")));
    assert_eq!(key_from_string("é"), Some(character("é")));
}

#[test]
fn the_empty_name_resolves_to_nothing() {
    assert_eq!(key_from_string(""), None);
}

#[test]
fn keys_are_stored_by_name() {
    assert_eq!(key_to_string(&character(" ")), Some("Space".to_string()));
    assert_eq!(key_to_string(&character("a")), Some("A".to_string()));
    assert_eq!(key_to_string(&character("Z")), Some("Z".to_string()));
    assert_eq!(key_to_string(&character("ab")), Some("ab".to_string()));
    assert_eq!(key_to_string(&character("é")), Some("é".to_string()));
    assert_eq!(key_to_string(&character("1")), Some("1".to_string()));
    assert_eq!(key_to_string(&named("Enter")), Some("Enter".to_string()));
    assert_eq!(key_to_string(&Key::Unidentified), None);
}

#[test]
fn only_modifier_keys_are_modifier_only() {
    for name in [
        "Alt", "AltGraph", "CapsLock", "Control", "Fn", "FnLock", "NumLock", "ScrollLock",
        "Shift", "Symbol", "SymbolLock", "Meta", "Hyper", "Super",
    ] {
        assert!(is_modifier_only_key(&named(name)), "{name}");
    }
    assert!(!is_modifier_only_key(&named("Enter")));
    assert!(!is_modifier_only_key(&character("Shift")));
    assert!(!is_modifier_only_key(&Key::Unidentified));
}

#[test]
fn a_captured_binding_lists_modifiers_in_fixed_order() {
    assert_eq!(
        binding_from_key(held(true, true, true, true), &named("Tab")),
        Some(Binding::new(
            vec![
                ModifierName::Ctrl,
                ModifierName::Shift,
                ModifierName::Alt,
                ModifierName::Super
            ],
            "Tab"
        ))
    );
    assert_eq!(
        binding_from_key(held(false, false, true, false), &character(" ")),
        Some(Binding::new(vec![ModifierName::Alt], "Space"))
    );
}

#[test]
fn an_unidentified_key_makes_no_binding() {
    assert_eq!(binding_from_key(held(true, false, false, false), &Key::Unidentified), None);
    assert_eq!(binding_from_key(held(false, true, false, false), &named("Shift")), None);
}

#[test]
fn a_binding_resolves_to_a_combination_in_fixed_order() {
    let binding = Binding::new(
        vec![ModifierName::Super, ModifierName::Ctrl, ModifierName::Ctrl],
        "t",
    );
    assert_eq!(
        binding.to_key_bind(),
        Some(KeyBind {
            modifiers: vec![Modifier::Ctrl, Modifier::Super],
            key: character("t"),
        })
    );
    assert_eq!(Binding::new(vec![ModifierName::Ctrl], "").to_key_bind(), None);
}

#[test]
fn modifier_names_map_to_menu_modifiers() {
    assert_eq!(ModifierName::Ctrl.to_modifier(), Modifier::Ctrl);
    assert_eq!(ModifierName::Shift.to_modifier(), Modifier::Shift);
    assert_eq!(ModifierName::Alt.to_modifier(), Modifier::Alt);
    assert_eq!(ModifierName::Super.to_modifier(), Modifier::Super);
}

#[test]
fn a_combination_displays_with_plus_signs_and_an_uppercase_character() {
    let key_bind = KeyBind {
        modifiers: vec![Modifier::Ctrl, Modifier::Shift],
        key: character("t"),
    };
    assert_eq!(key_bind.to_string(), "Ctrl + Shift + T");
    let named_bind = KeyBind {
        modifiers: vec![Modifier::Super],
        key: named("ArrowLeft"),
    };
    assert_eq!(named_bind.to_string(), "Super + ArrowLeft");
    let bare = KeyBind {
        modifiers: vec![],
        key: Key::Unidentified,
    };
    assert_eq!(bare.to_string(), "Unidentified");
}

#[test]
fn bindings_display_in_fixed_modifier_order() {
    let binding = Binding::new(vec![ModifierName::Alt, ModifierName::Ctrl], "Left");
    assert_eq!(binding_display(&binding), "Ctrl + Alt + ArrowLeft");
    let space = Binding::new(vec![ModifierName::Shift], "space");
    assert_eq!(binding_display(&space), "Shift +  ");
}

#[test]
fn an_unresolvable_binding_displays_its_key_as_written() {
    assert_eq!(binding_display(&Binding::new(vec![ModifierName::Ctrl], "")), "");
}

#[test]
fn modifiers_report_what_is_held() {
    let m = held(true, false, true, false);
    assert!(m.control());
    assert!(!m.shift());
    assert!(m.alt());
    assert!(!m.logo());
}

#[test]
fn a_captured_key_reads_back_up_to_letter_case() {
    let keys = [
        Key::Named("Enter".to_string()),
        Key::Named("ArrowLeft".to_string()),
        Key::Named("F12".to_string()),
        Key::Character("t".to_string()),
        Key::Character("T".to_string()),
        Key::Character(" ".to_string()),
        Key::Character("1".to_string()),
    ];
    for key in keys {
        let name = key_to_string(&key).expect("every one of these keys has a stored name");
        let expected = match &key {
            Key::Character(c) if c == "t" => Key::Character("T".to_string()),
            _ => key.clone(),
        };
        assert_eq!(key_from_string(&name), Some(expected));
    }
}

#[test]
fn a_stored_name_writes_back_unless_it_is_an_alias() {
    for name in ["Enter", "ArrowUp", "Space", "T", "F5", "PageDown", "1", "ä"] {
        let key = key_from_string(name).expect("a non-empty name resolves");
        assert_eq!(key_to_string(&key), Some(name.to_string()));
    }
    for (alias, normal) in [("Left", "ArrowLeft"), ("space", "Space"), ("t", "T")] {
        let key = key_from_string(alias).unwrap();
        assert_eq!(key_to_string(&key), Some(normal.to_string()));
    }
}
