//! The hexadecimal font: sixteen 5-byte glyph sprites for the digits 0..F,
//! copied into the reserved low region of memory when a machine is created.

use vstd::prelude::*;

verus! {

/// Number of glyphs in the font.
pub const FONT_GLYPHS: usize = 16;

/// Number of bytes (sprite rows) in one glyph.
pub const GLYPH_BYTES: usize = 5;

/// Total size of the font table in bytes.
pub const FONT_BYTES: usize = FONT_GLYPHS * GLYPH_BYTES;

/// The five sprite rows of the glyph for hexadecimal digit `digit`.
pub open spec fn glyph(digit: int) -> Seq<u8> {
    if digit == 0x0 {
        seq![0xF0u8, 0x90, 0x90, 0x90, 0xF0]
    } else if digit == 0x1 {
        seq![0x20u8, 0x60, 0x20, 0x20, 0x70]
    } else if digit == 0x2 {
        seq![0xF0u8, 0x10, 0xF0, 0x80, 0xF0]
    } else if digit == 0x3 {
        seq![0xF0u8, 0x10, 0xF0, 0x10, 0xF0]
    } else if digit == 0x4 {
        seq![0x90u8, 0x90, 0xF0, 0x10, 0x10]
    } else if digit == 0x5 {
        seq![0xF0u8, 0x80, 0xF0, 0x10, 0xF0]
    } else if digit == 0x6 {
        seq![0xF0u8, 0x80, 0xF0, 0x90, 0xF0]
    } else if digit == 0x7 {
        seq![0xF0u8, 0x10, 0x20, 0x40, 0x40]
    } else if digit == 0x8 {
        seq![0xF0u8, 0x90, 0xF0, 0x90, 0xF0]
    } else if digit == 0x9 {
        seq![0xF0u8, 0x90, 0xF0, 0x10, 0xF0]
    } else if digit == 0xA {
        seq![0xF0u8, 0x90, 0xF0, 0x90, 0x90]
    } else if digit == 0xB {
        seq![0xE0u8, 0x90, 0xE0, 0x90, 0xE0]
    } else if digit == 0xC {
        seq![0xF0u8, 0x80, 0x80, 0x80, 0xF0]
    } else if digit == 0xD {
        seq![0xE0u8, 0x90, 0x90, 0x90, 0xE0]
    } else if digit == 0xE {
        seq![0xF0u8, 0x80, 0xF0, 0x80, 0xF0]
    } else {
        seq![0xF0u8, 0x80, 0xF0, 0x80, 0x80]
    }
}

/// The whole font table as one flat byte sequence: glyph `g` occupies
/// offsets `5 * g .. 5 * g + 5`.
pub open spec fn font_table() -> Seq<u8> {
    Seq::new(FONT_BYTES as nat, |i: int| glyph(i / 5)[i % 5])
}

/// The five bytes of one glyph, as executable data.
fn glyph_bytes(digit: usize) -> (v: Vec<u8>)
    requires
        digit < FONT_GLYPHS,
    ensures
        v@ == glyph(digit as int),
{
    let v: Vec<u8> = if digit == 0x0 {
        vec![0xF0, 0x90, 0x90, 0x90, 0xF0]
    } else if digit == 0x1 {
        vec![0x20, 0x60, 0x20, 0x20, 0x70]
    } else if digit == 0x2 {
        vec![0xF0, 0x10, 0xF0, 0x80, 0xF0]
    } else if digit == 0x3 {
        vec![0xF0, 0x10, 0xF0, 0x10, 0xF0]
    } else if digit == 0x4 {
        vec![0x90, 0x90, 0xF0, 0x10, 0x10]
    } else if digit == 0x5 {
        vec![0xF0, 0x80, 0xF0, 0x10, 0xF0]
    } else if digit == 0x6 {
        vec![0xF0, 0x80, 0xF0, 0x90, 0xF0]
    } else if digit == 0x7 {
        vec![0xF0, 0x10, 0x20, 0x40, 0x40]
    } else if digit == 0x8 {
        vec![0xF0, 0x90, 0xF0, 0x90, 0xF0]
    } else if digit == 0x9 {
        vec![0xF0, 0x90, 0xF0, 0x10, 0xF0]
    } else if digit == 0xA {
        vec![0xF0, 0x90, 0xF0, 0x90, 0x90]
    } else if digit == 0xB {
        vec![0xE0, 0x90, 0xE0, 0x90, 0xE0]
    } else if digit == 0xC {
        vec![0xF0, 0x80, 0x80, 0x80, 0xF0]
    } else if digit == 0xD {
        vec![0xE0, 0x90, 0x90, 0x90, 0xE0]
    } else if digit == 0xE {
        vec![0xF0, 0x80, 0xF0, 0x80, 0xF0]
    } else {
        vec![0xF0, 0x80, 0xF0, 0x80, 0x80]
    };
    proof {
        assert(v@ =~= glyph(digit as int));
    }
    v
}

/// The whole font table, glyph 0 through glyph F, as executable data.
pub fn build_font_table() -> (v: Vec<u8>)
    ensures
        v@ == font_table(),
{
    let mut v: Vec<u8> = Vec::new();
    let mut g: usize = 0;
    while g < FONT_GLYPHS
        invariant
            g <= FONT_GLYPHS,
            v@.len() == 5 * g,
            forall|i: int| 0 <= i < v@.len() ==> v@[i] == #[trigger] font_table()[i],
        decreases FONT_GLYPHS - g,
    {
        let gl = glyph_bytes(g);
        let mut r: usize = 0;
        while r < GLYPH_BYTES
            invariant
                r <= GLYPH_BYTES,
                g < FONT_GLYPHS,
                gl@ == glyph(g as int),
                v@.len() == 5 * g + r,
                forall|i: int| 0 <= i < v@.len() ==> v@[i] == #[trigger] font_table()[i],
            decreases GLYPH_BYTES - r,
        {
            proof {
                let i = v@.len() as int;
                assert(i / 5 == g && i % 5 == r) by (nonlinear_arith)
                    requires
                        i == 5 * g + r,
                        0 <= r < 5,
                        g >= 0,
                ;
            }
            v.push(gl[r]);
            r += 1;
        }
        g += 1;
    }
    proof {
        assert(v@ =~= font_table());
    }
    v
}

} // verus!
