//! The built-in font: one five-byte glyph sprite per hexadecimal digit,
//! loaded at the base of memory once at construction and never mutated.

use vstd::prelude::*;

verus! {

/// The five rows of the glyph sprite for digit `d`.
pub open spec fn font_rows(d: int) -> (u8, u8, u8, u8, u8) {
    if d == 0x0 {
        (0xF0, 0x90, 0x90, 0x90, 0xF0)
    } else if d == 0x1 {
        (0x20, 0x60, 0x20, 0x20, 0x70)
    } else if d == 0x2 {
        (0xF0, 0x10, 0xF0, 0x80, 0xF0)
    } else if d == 0x3 {
        (0xF0, 0x10, 0xF0, 0x10, 0xF0)
    } else if d == 0x4 {
        (0x90, 0x90, 0xF0, 0x10, 0x10)
    } else if d == 0x5 {
        (0xF0, 0x80, 0xF0, 0x10, 0xF0)
    } else if d == 0x6 {
        (0xF0, 0x80, 0xF0, 0x90, 0xF0)
    } else if d == 0x7 {
        (0xF0, 0x10, 0x20, 0x40, 0x40)
    } else if d == 0x8 {
        (0xF0, 0x90, 0xF0, 0x90, 0xF0)
    } else if d == 0x9 {
        (0xF0, 0x90, 0xF0, 0x10, 0xF0)
    } else if d == 0xA {
        (0xF0, 0x90, 0xF0, 0x90, 0x90)
    } else if d == 0xB {
        (0xE0, 0x90, 0xE0, 0x90, 0xE0)
    } else if d == 0xC {
        (0xF0, 0x80, 0x80, 0x80, 0xF0)
    } else if d == 0xD {
        (0xE0, 0x90, 0x90, 0x90, 0xE0)
    } else if d == 0xE {
        (0xF0, 0x80, 0xF0, 0x80, 0xF0)
    } else {
        (0xF0, 0x80, 0xF0, 0x80, 0x80)
    }
}

/// Row `r` (0 through 4) of the glyph sprite for digit `d`; the byte that
/// construction places at memory address `5 * d + r`.
pub open spec fn font_byte(d: int, r: int) -> u8 {
    let rows = font_rows(d);
    if r == 0 {
        rows.0
    } else if r == 1 {
        rows.1
    } else if r == 2 {
        rows.2
    } else if r == 3 {
        rows.3
    } else {
        rows.4
    }
}

/// The five rows of the glyph sprite for digit `d`.
pub fn glyph(d: usize) -> (rows: (u8, u8, u8, u8, u8))
    requires
        d < 16,
    ensures
        rows == font_rows(d as int),
{
    match d {
        0x0 => (0xF0, 0x90, 0x90, 0x90, 0xF0),
        0x1 => (0x20, 0x60, 0x20, 0x20, 0x70),
        0x2 => (0xF0, 0x10, 0xF0, 0x80, 0xF0),
        0x3 => (0xF0, 0x10, 0xF0, 0x10, 0xF0),
        0x4 => (0x90, 0x90, 0xF0, 0x10, 0x10),
        0x5 => (0xF0, 0x80, 0xF0, 0x10, 0xF0),
        0x6 => (0xF0, 0x80, 0xF0, 0x90, 0xF0),
        0x7 => (0xF0, 0x10, 0x20, 0x40, 0x40),
        0x8 => (0xF0, 0x90, 0xF0, 0x90, 0xF0),
        0x9 => (0xF0, 0x90, 0xF0, 0x10, 0xF0),
        0xA => (0xF0, 0x90, 0xF0, 0x90, 0x90),
        0xB => (0xE0, 0x90, 0xE0, 0x90, 0xE0),
        0xC => (0xF0, 0x80, 0x80, 0x80, 0xF0),
        0xD => (0xE0, 0x90, 0x90, 0x90, 0xE0),
        0xE => (0xF0, 0x80, 0xF0, 0x80, 0xF0),
        _ => (0xF0, 0x80, 0xF0, 0x80, 0x80),
    }
}

} // verus!
