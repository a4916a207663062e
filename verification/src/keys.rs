//! The keys that input events carry: modifier keys, which contribute to a
//! bind's match set but never trigger an action, and keyboard keys, which are
//! the triggers.  Each kind can be named in a configuration file by a
//! kebab-case name; classification of such a name is specified here.

use vstd::prelude::*;

verus! {

/// A key that never triggers an action by itself; holding it only contributes
/// to the modifier set of a bind.
#[derive(Clone, Copy, Debug, PartialEq, Eq, Structural)]
pub enum ModifierKey {
    LeftShift,
    RightShift,
    LeftControl,
    RightControl,
    LeftOption,
    RightOption,
    LeftCommand,
    RightCommand,
}

/// A non-modifier key: the trigger key of a bind.
#[derive(Clone, Copy, Debug, PartialEq, Eq, Structural)]
pub enum KeyboardKey {
    A,
    B,
    C,
    D,
    E,
    F,
    G,
    H,
    I,
    J,
    K,
    L,
    M,
    N,
    O,
    P,
    Q,
    R,
    S,
    T,
    U,
    V,
    W,
    X,
    Y,
    Z,
    Space,
    Tab,
    Return,
    Escape,
}

/// Either kind of key, as an input event carries it.
#[derive(Clone, Copy, Debug, PartialEq, Eq, Structural)]
pub enum Key {
    Modifier(ModifierKey),
    Keyboard(KeyboardKey),
}

/// The kebab-case name under which a modifier key appears in a configuration
/// file's combination strings.
pub open spec fn modifier_config_name(m: ModifierKey) -> Seq<char> {
    match m {
        ModifierKey::LeftShift => "left-shift"@,
        ModifierKey::RightShift => "right-shift"@,
        ModifierKey::LeftControl => "left-control"@,
        ModifierKey::RightControl => "right-control"@,
        ModifierKey::LeftOption => "left-option"@,
        ModifierKey::RightOption => "right-option"@,
        ModifierKey::LeftCommand => "left-command"@,
        ModifierKey::RightCommand => "right-command"@,
    }
}

/// The kebab-case name under which a keyboard key appears in a configuration
/// file's combination strings.
pub open spec fn keyboard_config_name(k: KeyboardKey) -> Seq<char> {
    match k {
        KeyboardKey::A => "a"@,
        KeyboardKey::B => "b"@,
        KeyboardKey::C => "c"@,
        KeyboardKey::D => "d"@,
        KeyboardKey::E => "e"@,
        KeyboardKey::F => "f"@,
        KeyboardKey::G => "g"@,
        KeyboardKey::H => "h"@,
        KeyboardKey::I => "i"@,
        KeyboardKey::J => "j"@,
        KeyboardKey::K => "k"@,
        KeyboardKey::L => "l"@,
        KeyboardKey::M => "m"@,
        KeyboardKey::N => "n"@,
        KeyboardKey::O => "o"@,
        KeyboardKey::P => "p"@,
        KeyboardKey::Q => "q"@,
        KeyboardKey::R => "r"@,
        KeyboardKey::S => "s"@,
        KeyboardKey::T => "t"@,
        KeyboardKey::U => "u"@,
        KeyboardKey::V => "v"@,
        KeyboardKey::W => "w"@,
        KeyboardKey::X => "x"@,
        KeyboardKey::Y => "y"@,
        KeyboardKey::Z => "z"@,
        KeyboardKey::Space => "space"@,
        KeyboardKey::Tab => "tab"@,
        KeyboardKey::Return => "return"@,
        KeyboardKey::Escape => "escape"@,
    }
}

/// Which modifier key, if any, a configuration name denotes.
pub open spec fn spec_modifier_from_config(t: Seq<char>) -> Option<ModifierKey> {
    if t == modifier_config_name(ModifierKey::LeftShift) {
        Some(ModifierKey::LeftShift)
    } else if t == modifier_config_name(ModifierKey::RightShift) {
        Some(ModifierKey::RightShift)
    } else if t == modifier_config_name(ModifierKey::LeftControl) {
        Some(ModifierKey::LeftControl)
    } else if t == modifier_config_name(ModifierKey::RightControl) {
        Some(ModifierKey::RightControl)
    } else if t == modifier_config_name(ModifierKey::LeftOption) {
        Some(ModifierKey::LeftOption)
    } else if t == modifier_config_name(ModifierKey::RightOption) {
        Some(ModifierKey::RightOption)
    } else if t == modifier_config_name(ModifierKey::LeftCommand) {
        Some(ModifierKey::LeftCommand)
    } else if t == modifier_config_name(ModifierKey::RightCommand) {
        Some(ModifierKey::RightCommand)
    } else {
        None
    }
}

/// Which keyboard key, if any, a configuration name denotes.
pub open spec fn spec_keyboard_from_config(t: Seq<char>) -> Option<KeyboardKey> {
    if t == keyboard_config_name(KeyboardKey::A) {
        Some(KeyboardKey::A)
    } else if t == keyboard_config_name(KeyboardKey::B) {
        Some(KeyboardKey::B)
    } else if t == keyboard_config_name(KeyboardKey::C) {
        Some(KeyboardKey::C)
    } else if t == keyboard_config_name(KeyboardKey::D) {
        Some(KeyboardKey::D)
    } else if t == keyboard_config_name(KeyboardKey::E) {
        Some(KeyboardKey::E)
    } else if t == keyboard_config_name(KeyboardKey::F) {
        Some(KeyboardKey::F)
    } else if t == keyboard_config_name(KeyboardKey::G) {
        Some(KeyboardKey::G)
    } else if t == keyboard_config_name(KeyboardKey::H) {
        Some(KeyboardKey::H)
    } else if t == keyboard_config_name(KeyboardKey::I) {
        Some(KeyboardKey::I)
    } else if t == keyboard_config_name(KeyboardKey::J) {
        Some(KeyboardKey::J)
    } else if t == keyboard_config_name(KeyboardKey::K) {
        Some(KeyboardKey::K)
    } else if t == keyboard_config_name(KeyboardKey::L) {
        Some(KeyboardKey::L)
    } else if t == keyboard_config_name(KeyboardKey::M) {
        Some(KeyboardKey::M)
    } else if t == keyboard_config_name(KeyboardKey::N) {
        Some(KeyboardKey::N)
    } else if t == keyboard_config_name(KeyboardKey::O) {
        Some(KeyboardKey::O)
    } else if t == keyboard_config_name(KeyboardKey::P) {
        Some(KeyboardKey::P)
    } else if t == keyboard_config_name(KeyboardKey::Q) {
        Some(KeyboardKey::Q)
    } else if t == keyboard_config_name(KeyboardKey::R) {
        Some(KeyboardKey::R)
    } else if t == keyboard_config_name(KeyboardKey::S) {
        Some(KeyboardKey::S)
    } else if t == keyboard_config_name(KeyboardKey::T) {
        Some(KeyboardKey::T)
    } else if t == keyboard_config_name(KeyboardKey::U) {
        Some(KeyboardKey::U)
    } else if t == keyboard_config_name(KeyboardKey::V) {
        Some(KeyboardKey::V)
    } else if t == keyboard_config_name(KeyboardKey::W) {
        Some(KeyboardKey::W)
    } else if t == keyboard_config_name(KeyboardKey::X) {
        Some(KeyboardKey::X)
    } else if t == keyboard_config_name(KeyboardKey::Y) {
        Some(KeyboardKey::Y)
    } else if t == keyboard_config_name(KeyboardKey::Z) {
        Some(KeyboardKey::Z)
    } else if t == keyboard_config_name(KeyboardKey::Space) {
        Some(KeyboardKey::Space)
    } else if t == keyboard_config_name(KeyboardKey::Tab) {
        Some(KeyboardKey::Tab)
    } else if t == keyboard_config_name(KeyboardKey::Return) {
        Some(KeyboardKey::Return)
    } else if t == keyboard_config_name(KeyboardKey::Escape) {
        Some(KeyboardKey::Escape)
    } else {
        None
    }
}

/// Whether two string slices hold the same characters.
pub fn str_eq(a: &str, b: &str) -> (r: bool)
    ensures
        r == (a@ == b@),
{
    let owned_a = a.to_owned();
    let owned_b = b.to_owned();
    owned_a == owned_b
}

impl ModifierKey {
    /// The modifier key denoted by a kebab-case configuration name, if any.
    pub fn from_config_kebab(config_name: &str) -> (r: Option<ModifierKey>)
        ensures
            r == spec_modifier_from_config(config_name@),
    {
        if str_eq(config_name, "left-shift") {
            Some(ModifierKey::LeftShift)
        } else if str_eq(config_name, "right-shift") {
            Some(ModifierKey::RightShift)
        } else if str_eq(config_name, "left-control") {
            Some(ModifierKey::LeftControl)
        } else if str_eq(config_name, "right-control") {
            Some(ModifierKey::RightControl)
        } else if str_eq(config_name, "left-option") {
            Some(ModifierKey::LeftOption)
        } else if str_eq(config_name, "right-option") {
            Some(ModifierKey::RightOption)
        } else if str_eq(config_name, "left-command") {
            Some(ModifierKey::LeftCommand)
        } else if str_eq(config_name, "right-command") {
            Some(ModifierKey::RightCommand)
        } else {
            None
        }
    }
}

impl KeyboardKey {
    /// The keyboard key denoted by a kebab-case configuration name, if any.
    pub fn from_config_kebab(config_name: &str) -> (r: Option<KeyboardKey>)
        ensures
            r == spec_keyboard_from_config(config_name@),
    {
        if str_eq(config_name, "a") {
            Some(KeyboardKey::A)
        } else if str_eq(config_name, "b") {
            Some(KeyboardKey::B)
        } else if str_eq(config_name, "c") {
            Some(KeyboardKey::C)
        } else if str_eq(config_name, "d") {
            Some(KeyboardKey::D)
        } else if str_eq(config_name, "e") {
            Some(KeyboardKey::E)
        } else if str_eq(config_name, "f") {
            Some(KeyboardKey::F)
        } else if str_eq(config_name, "g") {
            Some(KeyboardKey::G)
        } else if str_eq(config_name, "h") {
            Some(KeyboardKey::H)
        } else if str_eq(config_name, "i") {
            Some(KeyboardKey::I)
        } else if str_eq(config_name, "j") {
            Some(KeyboardKey::J)
        } else if str_eq(config_name, "k") {
            Some(KeyboardKey::K)
        } else if str_eq(config_name, "l") {
            Some(KeyboardKey::L)
        } else if str_eq(config_name, "m") {
            Some(KeyboardKey::M)
        } else if str_eq(config_name, "n") {
            Some(KeyboardKey::N)
        } else if str_eq(config_name, "o") {
            Some(KeyboardKey::O)
        } else if str_eq(config_name, "p") {
            Some(KeyboardKey::P)
        } else if str_eq(config_name, "q") {
            Some(KeyboardKey::Q)
        } else if str_eq(config_name, "r") {
            Some(KeyboardKey::R)
        } else if str_eq(config_name, "s") {
            Some(KeyboardKey::S)
        } else if str_eq(config_name, "t") {
            Some(KeyboardKey::T)
        } else if str_eq(config_name, "u") {
            Some(KeyboardKey::U)
        } else if str_eq(config_name, "v") {
            Some(KeyboardKey::V)
        } else if str_eq(config_name, "w") {
            Some(KeyboardKey::W)
        } else if str_eq(config_name, "x") {
            Some(KeyboardKey::X)
        } else if str_eq(config_name, "y") {
            Some(KeyboardKey::Y)
        } else if str_eq(config_name, "z") {
            Some(KeyboardKey::Z)
        } else if str_eq(config_name, "space") {
            Some(KeyboardKey::Space)
        } else if str_eq(config_name, "tab") {
            Some(KeyboardKey::Tab)
        } else if str_eq(config_name, "return") {
            Some(KeyboardKey::Return)
        } else if str_eq(config_name, "escape") {
            Some(KeyboardKey::Escape)
        } else {
            None
        }
    }
}

} // verus!
