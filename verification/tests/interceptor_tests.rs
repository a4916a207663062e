use hotkeyd::action::Action;
use hotkeyd::config::Config;
use hotkeyd::interceptor::{intercept, InputEvent, Verdict};
use hotkeyd::keys::{Key, KeyboardKey, ModifierKey};
use hotkeyd::modifiers::HeldModifiers;

fn shift_q_config() -> Config {
    let text = "[binds]\n\"left-shift + q\" = { type = \"cmd\", command = \"echo hi\" }\n";
    Config::new_from_str(text).unwrap()
}

#[test]
fn scenario_shift_q_fires_once() {
    let config = shift_q_config();
    let mut held = HeldModifiers::new();

    let press_shift = intercept(
        &mut held,
        &config,
        InputEvent::KeyPress(Key::Modifier(ModifierKey::LeftShift)),
    );
    assert_eq!(press_shift.verdict, Verdict::Pass);
    assert!(press_shift.dispatch.is_none());
    assert!(held.snapshot().contains(ModifierKey::LeftShift));

    let press_q = intercept(
        &mut held,
        &config,
        InputEvent::KeyPress(Key::Keyboard(KeyboardKey::Q)),
    );
    assert_eq!(press_q.verdict, Verdict::Block);
    assert_eq!(
        press_q.dispatch,
        Some(Action::Cmd { command: "echo hi".to_string() })
    );

    let release_q = intercept(
        &mut held,
        &config,
        InputEvent::KeyRelease(Key::Keyboard(KeyboardKey::Q)),
    );
    assert_eq!(release_q.verdict, Verdict::Pass);
    assert!(release_q.dispatch.is_none());

    let release_shift = intercept(
        &mut held,
        &config,
        InputEvent::KeyRelease(Key::Modifier(ModifierKey::LeftShift)),
    );
    assert_eq!(release_shift.verdict, Verdict::Pass);
    assert!(release_shift.dispatch.is_none());
    assert!(held.snapshot().is_empty());
}

#[test]
fn unmatched_press_passes_and_dispatches_nothing() {
    let config = shift_q_config();
    let mut held = HeldModifiers::new();
    // No modifier held: "q" alone matches no bind.
    let r = intercept(
        &mut held,
        &config,
        InputEvent::KeyPress(Key::Keyboard(KeyboardKey::Q)),
    );
    assert_eq!(r.verdict, Verdict::Pass);
    assert!(r.dispatch.is_none());
    // The wrong modifier held does not match either.
    intercept(
        &mut held,
        &config,
        InputEvent::KeyPress(Key::Modifier(ModifierKey::LeftControl)),
    );
    let r = intercept(
        &mut held,
        &config,
        InputEvent::KeyPress(Key::Keyboard(KeyboardKey::Q)),
    );
    assert_eq!(r.verdict, Verdict::Pass);
    assert!(r.dispatch.is_none());
}

#[test]
fn extra_modifier_prevents_the_match() {
    let config = shift_q_config();
    let mut held = HeldModifiers::new();
    intercept(
        &mut held,
        &config,
        InputEvent::KeyPress(Key::Modifier(ModifierKey::LeftShift)),
    );
    intercept(
        &mut held,
        &config,
        InputEvent::KeyPress(Key::Modifier(ModifierKey::LeftControl)),
    );
    let r = intercept(
        &mut held,
        &config,
        InputEvent::KeyPress(Key::Keyboard(KeyboardKey::Q)),
    );
    assert_eq!(r.verdict, Verdict::Pass);
    assert!(r.dispatch.is_none());
}

#[test]
fn empty_config_passes_every_keyboard_press() {
    let config = Config::new();
    let mut held = HeldModifiers::new();
    intercept(
        &mut held,
        &config,
        InputEvent::KeyPress(Key::Modifier(ModifierKey::LeftShift)),
    );
    let r = intercept(
        &mut held,
        &config,
        InputEvent::KeyPress(Key::Keyboard(KeyboardKey::Q)),
    );
    assert_eq!(r.verdict, Verdict::Pass);
    assert!(r.dispatch.is_none());
}

#[test]
fn pointer_events_pass_untouched() {
    let config = shift_q_config();
    let mut held = HeldModifiers::new();
    let r = intercept(&mut held, &config, InputEvent::Other);
    assert_eq!(r.verdict, Verdict::Pass);
    assert!(r.dispatch.is_none());
    assert!(held.snapshot().is_empty());
}

#[test]
fn repeated_modifier_press_tracks_once() {
    let config = shift_q_config();
    let mut held = HeldModifiers::new();
    intercept(
        &mut held,
        &config,
        InputEvent::KeyPress(Key::Modifier(ModifierKey::LeftShift)),
    );
    let snapshot_once = held.snapshot();
    intercept(
        &mut held,
        &config,
        InputEvent::KeyPress(Key::Modifier(ModifierKey::LeftShift)),
    );
    assert_eq!(held.snapshot(), snapshot_once);
    // The bind still matches after the repeated press.
    let r = intercept(
        &mut held,
        &config,
        InputEvent::KeyPress(Key::Keyboard(KeyboardKey::Q)),
    );
    assert_eq!(r.verdict, Verdict::Block);
}
