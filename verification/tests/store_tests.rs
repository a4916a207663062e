use hotkeyd::action::Action;
use hotkeyd::config::Config;
use hotkeyd::interceptor::{InputEvent, Verdict};
use hotkeyd::keys::{Key, KeyboardKey, ModifierKey};
use hotkeyd::modifiers::{HeldModifiers, ModifierSet};
use hotkeyd::store::ConfigManager;

fn shift_q_text() -> &'static str {
    "[binds]\n\"left-shift + q\" = { type = \"cmd\", command = \"echo hi\" }\n"
}

fn held_shift() -> ModifierSet {
    let mut s = ModifierSet::empty();
    s.insert(ModifierKey::LeftShift);
    s
}

#[test]
fn exec_finds_the_bound_action() {
    let manager = ConfigManager::new(Config::new_from_str(shift_q_text()).unwrap());
    let r = manager.exec(&held_shift(), &KeyboardKey::Q);
    assert_eq!(r, Some(Action::Cmd { command: "echo hi".to_string() }));
}

#[test]
fn exec_misses_when_nothing_matches() {
    let manager = ConfigManager::new(Config::new_from_str(shift_q_text()).unwrap());
    assert_eq!(manager.exec(&ModifierSet::empty(), &KeyboardKey::Q), None);
    assert_eq!(manager.exec(&held_shift(), &KeyboardKey::A), None);
}

#[test]
fn replace_installs_the_new_generation() {
    let manager = ConfigManager::new(Config::new());
    assert_eq!(manager.exec(&held_shift(), &KeyboardKey::Q), None);
    manager.replace(Config::new_from_str(shift_q_text()).unwrap());
    assert_eq!(
        manager.exec(&held_shift(), &KeyboardKey::Q),
        Some(Action::Cmd { command: "echo hi".to_string() })
    );
    manager.replace(Config::new());
    assert_eq!(manager.exec(&held_shift(), &KeyboardKey::Q), None);
}

#[test]
fn rejected_reload_keeps_the_previous_generation() {
    let manager = ConfigManager::new(Config::new_from_str(shift_q_text()).unwrap());
    // A duplicate bind rejects the whole generation ...
    let duplicated = "[binds]\n\"left-shift + q\" = { type = \"cmd\", command = \"echo one\" }\n\"q + left-shift\" = { type = \"cmd\", command = \"echo two\" }\n";
    assert!(manager.reload_from_str(duplicated).is_err());
    // ... and the previously installed table still answers.
    assert_eq!(
        manager.exec(&held_shift(), &KeyboardKey::Q),
        Some(Action::Cmd { command: "echo hi".to_string() })
    );
    assert!(manager.reload_from_str("= = =").is_err());
    assert_eq!(
        manager.exec(&held_shift(), &KeyboardKey::Q),
        Some(Action::Cmd { command: "echo hi".to_string() })
    );
}

#[test]
fn accepted_reload_replaces_the_table() {
    let manager = ConfigManager::new(Config::new());
    assert!(manager.reload_from_str(shift_q_text()).is_ok());
    assert_eq!(
        manager.exec(&held_shift(), &KeyboardKey::Q),
        Some(Action::Cmd { command: "echo hi".to_string() })
    );
}

#[test]
fn every_lookup_answers_from_one_generation() {
    // Alternate replacements with lookups: each lookup's answer must be
    // explainable by exactly one installed generation, never a mixture.
    let one = "[binds]\n\"left-shift + q\" = { type = \"cmd\", command = \"echo one\" }\n\"left-control + q\" = { type = \"cmd\", command = \"echo one\" }\n";
    let two = "[binds]\n\"left-shift + q\" = { type = \"cmd\", command = \"echo two\" }\n\"left-control + q\" = { type = \"cmd\", command = \"echo two\" }\n";
    let manager = ConfigManager::new(Config::new_from_str(one).unwrap());
    let mut held_control = ModifierSet::empty();
    held_control.insert(ModifierKey::LeftControl);
    for round in 0..100 {
        let a = manager.exec(&held_shift(), &KeyboardKey::Q);
        let b = manager.exec(&held_control, &KeyboardKey::Q);
        assert_eq!(a, b);
        let next = if round % 2 == 0 { two } else { one };
        assert!(manager.reload_from_str(next).is_ok());
    }
}

#[test]
fn handle_event_runs_the_scenario() {
    let manager = ConfigManager::new(Config::new_from_str(shift_q_text()).unwrap());
    let mut held = HeldModifiers::new();
    let r = manager.handle_event(
        &mut held,
        InputEvent::KeyPress(Key::Modifier(ModifierKey::LeftShift)),
    );
    assert_eq!(r.verdict, Verdict::Pass);
    assert!(r.dispatch.is_none());
    let r = manager.handle_event(&mut held, InputEvent::KeyPress(Key::Keyboard(KeyboardKey::Q)));
    assert_eq!(r.verdict, Verdict::Block);
    assert_eq!(r.dispatch, Some(Action::Cmd { command: "echo hi".to_string() }));
    let r = manager.handle_event(&mut held, InputEvent::KeyRelease(Key::Keyboard(KeyboardKey::Q)));
    assert_eq!(r.verdict, Verdict::Pass);
    let r = manager.handle_event(
        &mut held,
        InputEvent::KeyRelease(Key::Modifier(ModifierKey::LeftShift)),
    );
    assert_eq!(r.verdict, Verdict::Pass);
    assert!(held.snapshot().is_empty());
}
