//! Mapping of keyboard scancodes to the machine's 16-key hexadecimal pad.

use vstd::prelude::*;

verus! {

/// Maps a keyboard scancode to the key value (0x0 to 0xF) of the machine's
/// hexadecimal keypad, following the conventional 4x4 layout on the left
/// side of a QWERTY keyboard. Scancodes outside that block map to nothing.
pub fn map_key(scancode: u32) -> (r: Option<u8>)
    ensures
        r == map_key_spec(scancode),
{
    match scancode {
        0x2 => Some(0x1),
        0x3 => Some(0x2),
        0x4 => Some(0x3),
        0x5 => Some(0xC),
        0x10 => Some(0x4),
        0x11 => Some(0x5),
        0x12 => Some(0x6),
        0x13 => Some(0xD),
        0x1E => Some(0x7),
        0x1F => Some(0x8),
        0x20 => Some(0x9),
        0x21 => Some(0xE),
        0x2C => Some(0xA),
        0x2D => Some(0x0),
        0x2E => Some(0xB),
        0x3F => Some(0xF),
        _ => None,
    }
}

/// The scancode table of `map_key`.
pub open spec fn map_key_spec(scancode: u32) -> Option<u8> {
    match scancode {
        0x2 => Some(0x1),
        0x3 => Some(0x2),
        0x4 => Some(0x3),
        0x5 => Some(0xC),
        0x10 => Some(0x4),
        0x11 => Some(0x5),
        0x12 => Some(0x6),
        0x13 => Some(0xD),
        0x1E => Some(0x7),
        0x1F => Some(0x8),
        0x20 => Some(0x9),
        0x21 => Some(0xE),
        0x2C => Some(0xA),
        0x2D => Some(0x0),
        0x2E => Some(0xB),
        0x3F => Some(0xF),
        _ => None,
    }
}

} // verus!
