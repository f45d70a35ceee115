//! Virtual key codes of the keys that the default bindings use.

use vstd::prelude::*;

verus! {

pub const PAGE_UP: u32 = 33;
pub const PAGE_DOWN: u32 = 34;
pub const END: u32 = 35;
pub const HOME: u32 = 36;
pub const LEFT: u32 = 37;
pub const UP: u32 = 38;
pub const RIGHT: u32 = 39;
pub const DOWN: u32 = 40;
pub const ENTER: u32 = 13;
pub const SPACE: u32 = 32;
pub const ESCAPE: u32 = 27;
pub const F1: u32 = 112;
pub const F5: u32 = 116;
pub const F11: u32 = 122;
pub const DELETE: u32 = 46;
pub const KEY_O: u32 = 79;
pub const KEY_S: u32 = 83;
pub const KEY_Q: u32 = 81;
pub const KEY_B: u32 = 66;
pub const KEY_D: u32 = 68;
pub const KEY_P: u32 = 80;
pub const PLUS: u32 = 187;
pub const MINUS: u32 = 189;
pub const KEY_0: u32 = 48;
pub const COMMA: u32 = 188;
pub const PERIOD: u32 = 190;
pub const BACKSPACE: u32 = 8;
pub const TAB: u32 = 9;

} // verus!
