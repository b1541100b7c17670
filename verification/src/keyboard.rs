//! Translation of host key events into the key codes of the emulated
//! machine's operating system.

use crate::vdp::VDP;
use vstd::prelude::*;

verus! {

/// The key code that the emulated machine receives for the SDL scancode with
/// the given number: cursor left (80), tab (43), cursor right (79), cursor
/// down (81), backspace (42), return (40) and escape (41) have one; every
/// other key gives 0.
pub open spec fn keycode_of(scancode: int) -> u8 {
    if scancode == 80 {
        0x08
    } else if scancode == 43 {
        0x09
    } else if scancode == 79 {
        0x15
    } else if scancode == 81 {
        0x0A
    } else if scancode == 42 {
        0x7F
    } else if scancode == 40 {
        0x0D
    } else if scancode == 41 {
        0x1B
    } else {
        0x00
    }
}

impl VDP {
    /// The key code for a host key, given by the number of its SDL scancode
    /// and the bits of the modifier state, which plays no part.
    pub fn sdl_scancode_to_mos_keycode(scancode: i32, keymod: u16) -> (code: u8)
        ensures
            code == keycode_of(scancode as int),
    {
        match scancode {
            80 => 0x08,
            43 => 0x09,
            79 => 0x15,
            81 => 0x0A,
            42 => 0x7F,
            40 => 0x0D,
            41 => 0x1B,
            _ => 0x00,
        }
    }
}

} // verus!
