//! The built-in hexadecimal font.

use vstd::prelude::*;

verus! {

/// Address of the first font byte in memory.
pub const FONT_BASE: u16 = 0x050;

/// Number of bytes in one glyph.
pub const GLYPH_BYTES: u16 = 5;

/// The glyphs of the digits `0` to `F`, five rows each, one row per byte,
/// the four leftmost bits of a byte being the four pixels of the row.
pub const FONT: [u8; 80] = [
    0xF0, 0x90, 0x90, 0x90, 0xF0,
    0x20, 0x60, 0x20, 0x20, 0x70,
    0xF0, 0x10, 0xF0, 0x80, 0xF0,
    0xF0, 0x10, 0xF0, 0x10, 0xF0,
    0x90, 0x90, 0xF0, 0x10, 0x10,
    0xF0, 0x80, 0xF0, 0x10, 0xF0,
    0xF0, 0x80, 0xF0, 0x90, 0xF0,
    0xF0, 0x10, 0x20, 0x40, 0x40,
    0xF0, 0x90, 0xF0, 0x90, 0xF0,
    0xF0, 0x90, 0xF0, 0x10, 0xF0,
    0xF0, 0x90, 0xF0, 0x90, 0x90,
    0xE0, 0x90, 0xE0, 0x90, 0xE0,
    0xF0, 0x80, 0x80, 0x80, 0xF0,
    0xE0, 0x90, 0x90, 0x90, 0xE0,
    0xF0, 0x80, 0x80, 0x80, 0xF0,
    0xF0, 0x80, 0xF0, 0x80, 0x80,
];

/// Address of the glyph of the hexadecimal digit `digit`.
pub open spec fn glyph_address(digit: int) -> int {
    FONT_BASE + GLYPH_BYTES * digit
}

} // verus!
