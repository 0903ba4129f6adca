//! A canvas stored as a packed bit buffer.

use vstd::prelude::*;
use super::canvas::Canvas;
use super::color::{BlendMode, Color};
use super::error::Error;
use super::model::{bit_at, byte_bit, lemma_chunk_in_range, lemma_index_in_range, CanvasView};
use super::vec::UVec2;

verus! {

/// A monochrome canvas: one bit per pixel, packed row after row with the
/// most significant bit first, and one dirty flag per chunk of rows.
pub struct MonochromeCanvas {
    width: u32,
    height: u32,
    chunk_dirty_flags: Vec<bool>,
    buffer: Vec<u8>,
}

/// Setting one bit of a byte sets that bit and leaves the others.
proof fn lemma_set_bit(b: u8, k: u8, j: u8)
    by (bit_vector)
    requires
        k < 8,
        j < 8,
    ensures
        ((b | (0x80u8 >> k)) & (0x80u8 >> j) != 0) == (j == k || (b & (0x80u8 >> j) != 0)),
{
}

/// Clearing one bit of a byte clears that bit and leaves the others.
proof fn lemma_clear_bit(b: u8, k: u8, j: u8)
    by (bit_vector)
    requires
        k < 8,
        j < 8,
    ensures
        ((b & !(0x80u8 >> k)) & (0x80u8 >> j) != 0) == (j != k && (b & (0x80u8 >> j) != 0)),
{
}

/// Complementing a byte flips each of its bits.
proof fn lemma_flip_bits(b: u8, j: u8)
    by (bit_vector)
    requires
        j < 8,
    ensures
        ((!b) & (0x80u8 >> j) != 0) == (b & (0x80u8 >> j) == 0),
{
}

/// The product of two 32-bit values fits in 64 bits.
proof fn lemma_product_fits(a: u32, b: u32)
    by (nonlinear_arith)
    ensures
        a * b <= 0xFFFF_FFFE_0000_0001,
{
}

impl MonochromeCanvas {
    #[verifier::type_invariant]
    spec fn inv(self) -> bool {
        &&& self.buffer.len() == (self.width * self.height + 7) / 8
        &&& 1 <= self.chunk_dirty_flags.len() <= u32::MAX
        &&& self.height as int % self.chunk_dirty_flags.len() as int == 0
    }

    /// A canvas of `width` by `height` pixels, all dark, whose rows are
    /// divided into `chunks` chunks of equal height, all dirty.
    pub fn new(width: u32, height: u32, chunks: u32) -> (canvas: Self)
        requires
            chunks >= 1,
            height % chunks == 0,
            (width * height + 7) / 8 <= usize::MAX,
        ensures
            canvas@ == CanvasView::blank(width as nat, height as nat, chunks as nat),
            canvas@.wf(),
    {
        proof {
            lemma_product_fits(width, height);
        }
        let bits: u64 = width as u64 * height as u64;
        let bytes: usize = (bits / 8 + if bits % 8 == 0 { 0u64 } else { 1u64 }) as usize;
        let buffer: Vec<u8> = vec![0u8; bytes];
        let chunk_dirty_flags: Vec<bool> = vec![true; chunks as usize];
        let canvas = MonochromeCanvas { width, height, chunk_dirty_flags, buffer };
        proof {
            assert forall|i: int| 0 <= i < width * height implies !bit_at(canvas.buffer@, i) by {
                assert(canvas.buffer@[i / 8] == 0u8);
                let k: u8 = (i % 8) as u8;
                assert(0u8 & (0x80u8 >> k) == 0) by (bit_vector);
            }
            assert(canvas@.pixels =~= CanvasView::blank(
                width as nat,
                height as nat,
                chunks as nat,
            ).pixels);
            assert(canvas@.dirty =~= CanvasView::blank(
                width as nat,
                height as nat,
                chunks as nat,
            ).dirty);
        }
        canvas
    }
}

impl Canvas for MonochromeCanvas {
    closed spec fn view(&self) -> CanvasView {
        CanvasView {
            width: self.width as nat,
            height: self.height as nat,
            pixels: Seq::new((self.width * self.height) as nat, |i: int| bit_at(self.buffer@, i)),
            dirty: self.chunk_dirty_flags@,
        }
    }

    fn size(&self) -> (s: UVec2) {
        proof {
            use_type_invariant(self);
        }
        UVec2::new(self.width, self.height)
    }

    fn number_of_chunks(&self) -> (n: u32) {
        proof {
            use_type_invariant(self);
        }
        self.chunk_dirty_flags.len() as u32
    }

    fn buffer(&self) -> (bytes: &[u8]) {
        proof {
            use_type_invariant(self);
        }
        self.buffer.as_slice()
    }

    fn set_dirty(&mut self) {
        proof {
            use_type_invariant(&*self);
        }
        let n: usize = self.chunk_dirty_flags.len();
        let mut c: usize = 0;
        while c < n
            invariant
                c <= n,
                n == self.chunk_dirty_flags.len(),
                self.width == old(self).width,
                self.height == old(self).height,
                self.buffer == old(self).buffer,
                n == old(self).chunk_dirty_flags.len(),
                self.inv(),
                forall|j: int| 0 <= j < c ==> self.chunk_dirty_flags[j],
            decreases n - c,
        {
            self.chunk_dirty_flags[c] = true;
            c = c + 1;
        }
        assert(self@.dirty =~= old(self)@.all_dirty().dirty);
    }

    fn is_dirty(&self) -> (dirty: bool) {
        let n: usize = self.chunk_dirty_flags.len();
        let mut c: usize = 0;
        while c < n
            invariant
                c <= n,
                n == self.chunk_dirty_flags.len(),
                forall|j: int| 0 <= j < c ==> !self.chunk_dirty_flags[j],
            decreases n - c,
        {
            if self.chunk_dirty_flags[c] {
                assert(0 <= c < self@.dirty.len() && self@.dirty[c as int]);
                return true;
            }
            c = c + 1;
        }
        false
    }

    fn is_chunk_dirty(&self, chunk: u32) -> (dirty: bool) {
        if (chunk as usize) < self.chunk_dirty_flags.len() {
            self.chunk_dirty_flags[chunk as usize]
        } else {
            false
        }
    }

    fn set_chunk_dirty(&mut self, y: u32) {
        proof {
            use_type_invariant(&*self);
        }
        if y < self.height {
            let chunks: u32 = self.chunk_dirty_flags.len() as u32;
            proof {
                lemma_chunk_in_range(self.height as int, chunks as int, y as int);
            }
            let chunk: u32 = y / (self.height / chunks);
            self.chunk_dirty_flags[chunk as usize] = true;
        }
    }

    fn clear_dirty(&mut self) {
        proof {
            use_type_invariant(&*self);
        }
        let n: usize = self.chunk_dirty_flags.len();
        let mut c: usize = 0;
        while c < n
            invariant
                c <= n,
                n == self.chunk_dirty_flags.len(),
                self.width == old(self).width,
                self.height == old(self).height,
                self.buffer == old(self).buffer,
                n == old(self).chunk_dirty_flags.len(),
                self.inv(),
                forall|j: int| 0 <= j < c ==> !self.chunk_dirty_flags[j],
            decreases n - c,
        {
            self.chunk_dirty_flags[c] = false;
            c = c + 1;
        }
        assert(self@.dirty =~= old(self)@.all_clean().dirty);
    }

    fn clear_chunk_dirty(&mut self, chunk: u32) {
        proof {
            use_type_invariant(&*self);
        }
        if (chunk as usize) < self.chunk_dirty_flags.len() {
            self.chunk_dirty_flags[chunk as usize] = false;
        }
    }

    fn fill(&mut self, value: u8) {
        proof {
            use_type_invariant(&*self);
        }
        let n: usize = self.buffer.len();
        let mut at: usize = 0;
        while at < n
            invariant
                at <= n,
                n == self.buffer.len(),
                self.width == old(self).width,
                self.height == old(self).height,
                self.chunk_dirty_flags == old(self).chunk_dirty_flags,
                self.inv(),
                forall|b: int| 0 <= b < at ==> self.buffer[b] == value,
            decreases n - at,
        {
            self.buffer[at] = value;
            at = at + 1;
        }
        self.set_dirty();
        proof {
            assert(self@.pixels =~= old(self)@.repaint(|i: int| byte_bit(value, i)).pixels);
        }
    }

    fn invert(&mut self) {
        proof {
            use_type_invariant(&*self);
        }
        let n: usize = self.buffer.len();
        let mut at: usize = 0;
        while at < n
            invariant
                at <= n,
                n == self.buffer.len(),
                self.width == old(self).width,
                self.height == old(self).height,
                self.chunk_dirty_flags == old(self).chunk_dirty_flags,
                self.inv(),
                n == old(self).buffer.len(),
                forall|b: int| 0 <= b < at ==> self.buffer[b] == !old(self).buffer[b],
                forall|b: int| at <= b < n ==> self.buffer[b] == old(self).buffer[b],
            decreases n - at,
        {
            let flipped: u8 = !self.buffer[at];
            self.buffer[at] = flipped;
            at = at + 1;
        }
        proof {
            assert forall|i: int| 0 <= i < self.width * self.height implies bit_at(self.buffer@, i)
                == !bit_at(old(self).buffer@, i) by {
                assert(0 <= i / 8 < n);
                assert(self.buffer[i / 8] == !old(self).buffer[i / 8]);
                lemma_flip_bits(old(self).buffer@[i / 8], (i % 8) as u8);
            }
            assert(self@.pixels =~= old(self)@.repaint(|i: int| !old(self)@.pixels[i]).pixels);
        }
        self.set_dirty();
    }

    fn get_pixel(&self, p: UVec2) -> (r: Result<Color, Error>) {
        proof {
            use_type_invariant(self);
        }
        if p.oob(self.size()) {
            return Err(Error::OutOfBounds { p, bounds: self.size() });
        }
        proof {
            lemma_index_in_range(self.width as int, self.height as int, p.x as int, p.y as int);
            lemma_product_fits(self.width, self.height);
            lemma_product_fits(p.y, self.width);
        }
        let i: u64 = p.y as u64 * self.width as u64 + p.x as u64;
        let byte: u8 = self.buffer[(i / 8) as usize];
        let mask: u8 = 0x80u8 >> ((i % 8) as u8);
        if byte & mask == 0 {
            Ok(Color::black())
        } else {
            Ok(Color::white())
        }
    }

    fn set_pixel(&mut self, p: UVec2, color: Color) -> (r: Result<(), Error>) {
        proof {
            use_type_invariant(&*self);
        }
        if p.oob(self.size()) {
            return Err(Error::OutOfBounds { p, bounds: self.size() });
        }
        if color.blend_mode == BlendMode::Transparent {
            return Ok(());
        }
        proof {
            lemma_index_in_range(self.width as int, self.height as int, p.x as int, p.y as int);
            lemma_product_fits(self.width, self.height);
            lemma_product_fits(p.y, self.width);
        }
        let i: u64 = p.y as u64 * self.width as u64 + p.x as u64;
        let at: usize = (i / 8) as usize;
        let k: u8 = (i % 8) as u8;
        let mask: u8 = 0x80u8 >> k;
        let byte: u8 = self.buffer[at];
        let lit: bool = color.is_active();
        if (byte & mask != 0) != lit {
            let changed: u8 = if lit { byte | mask } else { byte & !mask };
            self.buffer[at] = changed;
            proof {
                let ghost before = old(self).buffer@;
                let ghost after = self.buffer@;
                assert forall|j: int| 0 <= j < self.width * self.height implies bit_at(after, j)
                    == (if j == i { lit } else { bit_at(before, j) }) by {
                    let kj: u8 = (j % 8) as u8;
                    if j / 8 == at {
                        lemma_set_bit(byte, k, kj);
                        lemma_clear_bit(byte, k, kj);
                    }
                }
                assert(self@.pixels =~= old(self)@.pixels.update(i as int, lit));
            }
            self.set_chunk_dirty(p.y);
        }
        Ok(())
    }
}

} // verus!
