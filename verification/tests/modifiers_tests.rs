use hotkeyd::keys::ModifierKey;
use hotkeyd::modifiers::{HeldModifiers, ModifierSet};

#[test]
fn empty_set_contains_nothing() {
    let s = ModifierSet::empty();
    assert!(!s.contains(ModifierKey::LeftShift));
    assert!(!s.contains(ModifierKey::RightCommand));
    assert!(s.is_empty());
}

#[test]
fn insert_then_contains() {
    let mut s = ModifierSet::empty();
    s.insert(ModifierKey::LeftShift);
    assert!(s.contains(ModifierKey::LeftShift));
    assert!(!s.contains(ModifierKey::RightShift));
    assert!(!s.is_empty());
}

#[test]
fn insert_is_idempotent() {
    let mut once = ModifierSet::empty();
    once.insert(ModifierKey::LeftControl);
    let mut twice = ModifierSet::empty();
    twice.insert(ModifierKey::LeftControl);
    twice.insert(ModifierKey::LeftControl);
    assert_eq!(once, twice);
}

#[test]
fn insertion_order_does_not_matter() {
    let mut ab = ModifierSet::empty();
    ab.insert(ModifierKey::LeftShift);
    ab.insert(ModifierKey::LeftControl);
    let mut ba = ModifierSet::empty();
    ba.insert(ModifierKey::LeftControl);
    ba.insert(ModifierKey::LeftShift);
    assert_eq!(ab, ba);
}

#[test]
fn remove_undoes_insert() {
    let mut s = ModifierSet::empty();
    s.insert(ModifierKey::LeftOption);
    s.remove(ModifierKey::LeftOption);
    assert!(s.is_empty());
    assert_eq!(s, ModifierSet::empty());
}

#[test]
fn remove_absent_is_noop() {
    let mut s = ModifierSet::empty();
    s.insert(ModifierKey::LeftShift);
    let before = s;
    s.remove(ModifierKey::RightCommand);
    assert_eq!(s, before);
}

#[test]
fn tracker_press_release_snapshot() {
    let mut held = HeldModifiers::new();
    assert!(held.snapshot().is_empty());
    held.on_press(ModifierKey::LeftShift);
    assert!(held.snapshot().contains(ModifierKey::LeftShift));
    held.on_press(ModifierKey::LeftShift);
    let mut expected = ModifierSet::empty();
    expected.insert(ModifierKey::LeftShift);
    assert_eq!(held.snapshot(), expected);
    held.on_release(ModifierKey::LeftShift);
    assert!(held.snapshot().is_empty());
}

#[test]
fn tracker_release_absent_is_noop() {
    let mut held = HeldModifiers::new();
    held.on_press(ModifierKey::LeftCommand);
    held.on_release(ModifierKey::RightCommand);
    assert!(held.snapshot().contains(ModifierKey::LeftCommand));
}
