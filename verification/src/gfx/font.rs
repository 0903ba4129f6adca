//! Bitmap fonts: a run of glyphs for consecutive code points.

use vstd::prelude::*;
use super::shapes::source_bit;
use super::vec::UVec2;

verus! {

/// The picture of one character: a packed one-bit bitmap, row after row,
/// most significant bit first, without padding between rows.
pub struct Glyph {
    /// Width and height in pixels.
    pub size: UVec2,
    /// The packed pixels. Pixels that the bitmap is too short to hold are unset.
    pub bitmap: Vec<u8>,
}

/// A font with one glyph for each of a run of consecutive code points.
pub struct Font {
    /// The character of the first glyph.
    pub first: char,
    /// The glyphs, in the order of their code points.
    pub glyphs: Vec<Glyph>,
    /// The width that each character takes up in a line of text.
    pub spacing: u32,
}

impl Glyph {
    /// A glyph of the given size with the given packed pixels.
    pub fn new(size: UVec2, bitmap: Vec<u8>) -> (glyph: Self)
        ensures
            glyph.size == size,
            glyph.bitmap == bitmap,
    {
        Glyph { size, bitmap }
    }

    /// Width and height in pixels.
    pub fn size(&self) -> (size: UVec2)
        ensures
            size == self.size,
    {
        self.size
    }

    /// Whether the pixel at `offset` is set; pixels outside the glyph are not.
    pub open spec fn spec_get_pixel(&self, offset: UVec2) -> bool {
        offset.x < self.size.x && offset.y < self.size.y && source_bit(
            self.bitmap@,
            offset.y * self.size.x + offset.x,
        )
    }

    /// Whether the pixel at `offset` is set; pixels outside the glyph are not.
    #[verifier::when_used_as_spec(spec_get_pixel)]
    pub fn get_pixel(&self, offset: UVec2) -> (set: bool)
        ensures
            set == self.spec_get_pixel(offset),
    {
        if offset.x >= self.size.x || offset.y >= self.size.y {
            return false;
        }
        assert(0 <= offset.y * self.size.x + offset.x <= 0xFFFF_FFFF * 0xFFFF_FFFF + 0xFFFF_FFFF)
            by (nonlinear_arith)
            requires
                0 <= offset.y <= 0xFFFF_FFFF,
                0 <= self.size.x <= 0xFFFF_FFFF,
                0 <= offset.x <= 0xFFFF_FFFF,
        ;
        let at: u64 = offset.y as u64 * self.size.x as u64 + offset.x as u64;
        let byte_at: u64 = at / 8;
        if byte_at >= self.bitmap.len() as u64 {
            return false;
        }
        let mask: u8 = 0x80u8 >> ((at % 8) as u8);
        self.bitmap[byte_at as usize] & mask != 0
    }
}

impl Font {
    /// A font whose glyphs stand for the characters from `first` on.
    pub fn new(first: char, glyphs: Vec<Glyph>, spacing: u32) -> (font: Self)
        ensures
            font.first == first,
            font.glyphs == glyphs,
            font.spacing == spacing,
    {
        Font { first, glyphs, spacing }
    }

    /// Where the glyph of `character` stands in `glyphs`, if the font has one.
    pub open spec fn glyph_index(&self, character: char) -> Option<int> {
        let at = character as u32 - self.first as u32;
        if 0 <= at < self.glyphs.len() {
            Some(at)
        } else {
            None
        }
    }

    /// The glyph of `character`, if the font has one.
    pub fn get_char(&self, character: char) -> (glyph: Option<&Glyph>)
        ensures
            match self.glyph_index(character) {
                Some(at) => glyph == Some(&self.glyphs[at]),
                None => glyph is None,
            },
    {
        let code: u32 = character as u32;
        let first: u32 = self.first as u32;
        if code < first {
            return None;
        }
        let at: u32 = code - first;
        if (at as usize) < self.glyphs.len() {
            Some(&self.glyphs[at as usize])
        } else {
            None
        }
    }

    /// The width that each character takes up in a line of text.
    pub fn char_spacing(&self) -> (spacing: u32)
        ensures
            spacing == self.spacing,
    {
        self.spacing
    }
}

} // verus!
