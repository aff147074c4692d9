//! From one keyboard event to the keys latched for a tick.

use vstd::prelude::*;
use crate::piece::KeyMap;

verus! {

/// What the keyboard reported, as far as the game tells events apart.
#[derive(Clone, Copy, Debug)]
pub enum KeyPress {
    /// The left arrow.
    Left,
    /// The right arrow.
    Right,
    /// The down arrow.
    Down,
    /// A key that types a character.
    Letter(char),
    /// Any other event.
    Other,
}

/// No key latched.
pub open spec fn no_keys() -> KeyMap {
    KeyMap { rotate: false, left: false, right: false, down: false }
}

/// The keys that one poll latches: an arrow its direction, the letter `z`
/// the rotation, anything else and no event at all nothing.
pub open spec fn latched(event: Option<KeyPress>) -> KeyMap {
    match event {
        Some(KeyPress::Left) => KeyMap { left: true, ..no_keys() },
        Some(KeyPress::Right) => KeyMap { right: true, ..no_keys() },
        Some(KeyPress::Down) => KeyMap { down: true, ..no_keys() },
        Some(KeyPress::Letter(c)) => KeyMap { rotate: c == 'z', ..no_keys() },
        _ => no_keys(),
    }
}

/// How many of the four keys are latched.
pub open spec fn keys_down(keys: KeyMap) -> nat {
    let r: nat = if keys.rotate { 1 } else { 0 };
    let l: nat = if keys.left { 1 } else { 0 };
    let g: nat = if keys.right { 1 } else { 0 };
    let d: nat = if keys.down { 1 } else { 0 };
    r + l + g + d
}

/// Classifies the event of one poll, `None` standing for a poll that timed
/// out or failed. At most one key is latched.
pub fn key_map(event: Option<KeyPress>) -> (keys: KeyMap)
    ensures
        keys == latched(event),
        keys_down(keys) <= 1,
{
    let mut keys = KeyMap { rotate: false, left: false, right: false, down: false };
    match event {
        Some(KeyPress::Left) => {
            keys.left = true;
        },
        Some(KeyPress::Right) => {
            keys.right = true;
        },
        Some(KeyPress::Down) => {
            keys.down = true;
        },
        Some(KeyPress::Letter(c)) => {
            keys.rotate = c == 'z';
        },
        _ => {},
    }
    keys
}

} // verus!
