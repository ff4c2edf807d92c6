//! A restrained neo-brutalist palette: bold enough to give the utility a
//! distinct identity, calm enough for long serial-debugging sessions.

use vstd::prelude::*;

verus! {

pub const CANVAS: u32 = 0xE9EDFF;
pub const SURFACE: u32 = 0xFFFDF7;
pub const SURFACE_ALT: u32 = 0xF5F1E8;
pub const INK: u32 = 0x171717;
pub const MUTED: u32 = 0x65636D;
pub const YELLOW: u32 = 0xFFD84A;
pub const YELLOW_HOVER: u32 = 0xFFC933;
pub const LIME: u32 = 0xA8F06A;
pub const LIME_HOVER: u32 = 0x91DD54;
pub const BLUE: u32 = 0x5B72FF;
pub const BLUE_HOVER: u32 = 0x455EEA;
pub const PINK: u32 = 0xFF7A8A;
pub const PINK_HOVER: u32 = 0xF05D70;
pub const WHITE: u32 = 0xFFFFFF;
/// Hover colour of dark buttons.
pub const DARK_HOVER: u32 = 0x333333;
/// Pressed colour of dark buttons.
pub const DARK_ACTIVE: u32 = 0x000000;

} // verus!
