use hotkeyd::keys::{str_eq, Key, KeyboardKey, ModifierKey};

#[test]
fn modifier_names_resolve() {
    assert_eq!(
        ModifierKey::from_config_kebab("left-shift"),
        Some(ModifierKey::LeftShift)
    );
    assert_eq!(
        ModifierKey::from_config_kebab("right-shift"),
        Some(ModifierKey::RightShift)
    );
    assert_eq!(
        ModifierKey::from_config_kebab("left-control"),
        Some(ModifierKey::LeftControl)
    );
    assert_eq!(
        ModifierKey::from_config_kebab("right-control"),
        Some(ModifierKey::RightControl)
    );
    assert_eq!(
        ModifierKey::from_config_kebab("left-option"),
        Some(ModifierKey::LeftOption)
    );
    assert_eq!(
        ModifierKey::from_config_kebab("right-option"),
        Some(ModifierKey::RightOption)
    );
    assert_eq!(
        ModifierKey::from_config_kebab("left-command"),
        Some(ModifierKey::LeftCommand)
    );
    assert_eq!(
        ModifierKey::from_config_kebab("right-command"),
        Some(ModifierKey::RightCommand)
    );
}

#[test]
fn modifier_names_reject_others() {
    assert_eq!(ModifierKey::from_config_kebab("shift"), None);
    assert_eq!(ModifierKey::from_config_kebab("q"), None);
    assert_eq!(ModifierKey::from_config_kebab(""), None);
    assert_eq!(ModifierKey::from_config_kebab("Left-Shift"), None);
}

#[test]
fn keyboard_names_resolve() {
    assert_eq!(KeyboardKey::from_config_kebab("a"), Some(KeyboardKey::A));
    assert_eq!(KeyboardKey::from_config_kebab("q"), Some(KeyboardKey::Q));
    assert_eq!(KeyboardKey::from_config_kebab("z"), Some(KeyboardKey::Z));
    assert_eq!(KeyboardKey::from_config_kebab("space"), Some(KeyboardKey::Space));
    assert_eq!(KeyboardKey::from_config_kebab("tab"), Some(KeyboardKey::Tab));
    assert_eq!(KeyboardKey::from_config_kebab("return"), Some(KeyboardKey::Return));
    assert_eq!(KeyboardKey::from_config_kebab("escape"), Some(KeyboardKey::Escape));
}

#[test]
fn keyboard_names_reject_others() {
    assert_eq!(KeyboardKey::from_config_kebab("left-shift"), None);
    assert_eq!(KeyboardKey::from_config_kebab("Q"), None);
    assert_eq!(KeyboardKey::from_config_kebab(""), None);
}

#[test]
fn string_equality_is_by_characters() {
    assert!(str_eq("left-shift", "left-shift"));
    assert!(!str_eq("left-shift", "left-shift "));
    assert!(!str_eq("", "a"));
    assert!(str_eq("", ""));
}

#[test]
fn keys_compare_by_variant() {
    assert_eq!(
        Key::Modifier(ModifierKey::LeftShift),
        Key::Modifier(ModifierKey::LeftShift)
    );
    assert_ne!(
        Key::Modifier(ModifierKey::LeftShift),
        Key::Keyboard(KeyboardKey::Q)
    );
}
