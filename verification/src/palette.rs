//! Colour triples and the fixed glyph palette.

use vstd::prelude::*;

verus! {

/// One pixel: three 8-bit channels.
#[derive(Clone, Copy, Debug, PartialEq, Eq, Structural)]
pub struct RgbTriple {
    pub r: u8,
    pub g: u8,
    pub b: u8,
}

/// Number of glyphs in the palette.
pub const PALETTE_LEN: usize = 64;

/// Glyph used when an index falls outside the palette.
pub const FALLBACK_GLYPH: char = 'a';

/// The palette, ordered from the visually emptiest glyph to the densest.
pub const ASCII_CHARS: &'static str = "`^\",:;Il!i~+_-?][}{1)(|\\/tfjrxnuvczXYUJCLQ0OZmwqpdbkhao*#MW&8%B@";

/// The palette as a sequence of glyphs.
pub open spec fn palette() -> Seq<char> {
    ASCII_CHARS@
}

/// The glyph that stands for a density index: the palette entry when the
/// index is inside the palette, the fallback glyph otherwise.
pub open spec fn glyph_of(index: int) -> char {
    if 0 <= index < palette().len() {
        palette()[index]
    } else {
        FALLBACK_GLYPH
    }
}

/// The palette holds exactly `PALETTE_LEN` glyphs.
pub proof fn lemma_palette_len()
    ensures
        palette().len() == PALETTE_LEN,
{
    reveal_strlit("`^\",:;Il!i~+_-?][}{1)(|\\/tfjrxnuvczXYUJCLQ0OZmwqpdbkhao*#MW&8%B@");
}

/// Looks a density index up in the palette.
pub fn glyph_at(index: usize) -> (glyph: char)
    ensures
        glyph == glyph_of(index as int),
{
    proof {
        lemma_palette_len();
    }
    if index < PALETTE_LEN {
        ASCII_CHARS.get_char(index)
    } else {
        FALLBACK_GLYPH
    }
}

} // verus!
