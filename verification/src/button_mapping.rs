//! A stable numeric code for pointer buttons, and its inverse.

use vstd::prelude::*;

verus! {

/// A pointer button, as the OS reports it.
#[derive(Clone, Copy, Debug, PartialEq, Eq, Structural)]
pub enum Button {
    Left,
    Right,
    Middle,
    Unknown(u8),
}

/// The stable numeric code of a button.
pub open spec fn spec_button_hash(button: Button) -> u32 {
    match button {
        Button::Left => 0,
        Button::Right => 1,
        Button::Middle => 2,
        Button::Unknown(d) => (3 + d as u32) as u32,
    }
}

/// The button a numeric code denotes; a code past the unknown range wraps to
/// the low byte, as the code-to-button direction only ever receives codes
/// this module produced.
pub open spec fn spec_unhash_button(button_hash: u32) -> Button {
    if button_hash == 0 {
        Button::Left
    } else if button_hash == 1 {
        Button::Right
    } else if button_hash == 2 {
        Button::Middle
    } else {
        Button::Unknown((button_hash - 3) as u8)
    }
}

/// Encode a button as its stable numeric code.
pub fn button_hash(button: Button) -> (r: u32)
    ensures
        r == spec_button_hash(button),
{
    match button {
        Button::Left => 0,
        Button::Right => 1,
        Button::Middle => 2,
        Button::Unknown(d) => 3 + (d as u32),
    }
}

/// Decode a numeric code back into a button.
pub fn unhash_button(button_hash: u32) -> (r: Button)
    ensures
        r == spec_unhash_button(button_hash),
{
    if button_hash == 0 {
        Button::Left
    } else if button_hash == 1 {
        Button::Right
    } else if button_hash == 2 {
        Button::Middle
    } else {
        Button::Unknown((button_hash - 3) as u8)
    }
}

/// Encoding a button and decoding the code yields the button again.
pub proof fn lemma_button_round_trip(button: Button)
    ensures
        spec_unhash_button(spec_button_hash(button)) == button,
{
}

} // verus!
