//! The mathematical model of a canvas: a grid of one-bit pixels with one
//! dirty flag per horizontal band, and what drawing does to it.

use vstd::prelude::*;
use vstd::arithmetic::div_mod::lemma_fundamental_div_mod;
use super::color::{BlendMode, Color};
use super::error::Error;
use super::vec::UVec2;

verus! {

/// What a canvas holds, as plain mathematical values.
pub struct CanvasView {
    /// Number of pixel columns.
    pub width: nat,
    /// Number of pixel rows.
    pub height: nat,
    /// The pixels in row-major order; `true` is a lit pixel.
    pub pixels: Seq<bool>,
    /// One flag per chunk, top to bottom; `true` marks a chunk whose pixels
    /// may differ from what was last sent to the display.
    pub dirty: Seq<bool>,
}

/// One pixel write: a position and the color to put there.
pub struct Dot {
    pub x: int,
    pub y: int,
    pub color: Color,
}

/// Bit `i` of a packed bit buffer: bits are numbered from the most
/// significant bit of the first byte.
pub open spec fn bit_at(bytes: Seq<u8>, i: int) -> bool {
    bytes[i / 8] & (0x80u8 >> ((i % 8) as u8)) != 0
}

/// Bit `i % 8` of `value`, counted from its most significant bit: what
/// pixel `i` shows in a buffer whose bytes all hold `value`.
pub open spec fn byte_bit(value: u8, i: int) -> bool {
    value & (0x80u8 >> ((i % 8) as u8)) != 0
}

/// Whether `bytes` is a packed form of `pixels`: exactly as many bytes as
/// the pixels need, and bit `i` set where pixel `i` is lit. Bits past the
/// last pixel are not constrained.
pub open spec fn packs(bytes: Seq<u8>, pixels: Seq<bool>) -> bool {
    &&& bytes.len() == (pixels.len() + 7) / 8
    &&& forall|i: int| 0 <= i < pixels.len() ==> bit_at(bytes, i) == #[trigger] pixels[i]
}

impl CanvasView {
    /// A canvas of the given geometry with every pixel dark and every chunk dirty.
    pub open spec fn blank(width: nat, height: nat, chunks: nat) -> CanvasView {
        CanvasView {
            width,
            height,
            pixels: Seq::new(width * height, |i: int| false),
            dirty: Seq::new(chunks, |c: int| true),
        }
    }

    /// The geometry is consistent: one pixel per grid cell, at least one
    /// chunk, and all chunks equally high.
    pub open spec fn wf(self) -> bool {
        &&& self.pixels.len() == self.width * self.height
        &&& self.dirty.len() >= 1
        &&& self.height % self.dirty.len() == 0
    }

    /// Whether `(x, y)` is a pixel of the canvas.
    pub open spec fn contains(self, x: int, y: int) -> bool {
        0 <= x < self.width && 0 <= y < self.height
    }

    /// Position of pixel `(x, y)` in `pixels`.
    pub open spec fn index(self, x: int, y: int) -> int {
        y * self.width + x
    }

    /// The pixel at `(x, y)`.
    pub open spec fn pixel(self, x: int, y: int) -> bool {
        self.pixels[self.index(x, y)]
    }

    /// Number of rows in each chunk.
    pub open spec fn chunk_height(self) -> int {
        self.height as int / self.dirty.len() as int
    }

    /// The chunk that row `y` belongs to.
    pub open spec fn chunk_of(self, y: int) -> int {
        y / self.chunk_height()
    }

    /// The width and height as a vector.
    pub open spec fn bounds(self) -> UVec2 {
        UVec2 { x: self.width as u32, y: self.height as u32 }
    }

    /// The error that names `p` as lying outside this canvas.
    pub open spec fn fault(self, p: UVec2) -> Error {
        Error::OutOfBounds { p, bounds: self.bounds() }
    }

    /// What reading the pixel at `p` gives: white for a lit pixel, black for
    /// a dark one, an error for a point outside the canvas.
    pub open spec fn read(self, p: UVec2) -> Result<Color, Error> {
        if self.contains(p.x as int, p.y as int) {
            if self.pixel(p.x as int, p.y as int) {
                Ok(Color::spec_white())
            } else {
                Ok(Color::spec_black())
            }
        } else {
            Err(self.fault(p))
        }
    }

    /// Whether any chunk is dirty.
    pub open spec fn any_dirty(self) -> bool {
        exists|c: int| 0 <= c < self.dirty.len() && self.dirty[c]
    }

    /// The same pixels with every chunk marked dirty.
    pub open spec fn all_dirty(self) -> CanvasView {
        CanvasView { dirty: Seq::new(self.dirty.len(), |c: int| true), ..self }
    }

    /// The same pixels with no chunk marked dirty.
    pub open spec fn all_clean(self) -> CanvasView {
        CanvasView { dirty: Seq::new(self.dirty.len(), |c: int| false), ..self }
    }

    /// The same pixels with chunk `c` marked clean; unchanged if there is no chunk `c`.
    pub open spec fn clean_chunk(self, c: int) -> CanvasView {
        if 0 <= c < self.dirty.len() {
            CanvasView { dirty: self.dirty.update(c, false), ..self }
        } else {
            self
        }
    }

    /// The same pixels with the chunk of row `y` marked dirty; unchanged if
    /// the canvas has no row `y`.
    pub open spec fn touch_row(self, y: int) -> CanvasView {
        if 0 <= y < self.height {
            CanvasView { dirty: self.dirty.update(self.chunk_of(y), true), ..self }
        } else {
            self
        }
    }

    /// Every pixel replaced by what `bits` gives for its position, and every
    /// chunk marked dirty.
    pub open spec fn repaint(self, bits: spec_fn(int) -> bool) -> CanvasView {
        CanvasView {
            pixels: Seq::new(self.pixels.len(), bits),
            dirty: Seq::new(self.dirty.len(), |c: int| true),
            ..self
        }
    }

    /// Whether writing `color` at `(x, y)` changes the canvas: the pixel
    /// exists, the color is not transparent, and the pixel's current state
    /// differs from the one the color stands for.
    pub open spec fn flips(self, x: int, y: int, color: Color) -> bool {
        &&& self.contains(x, y)
        &&& color.blend_mode != BlendMode::Transparent
        &&& self.pixel(x, y) != color.spec_is_active()
    }

    /// The canvas after one pixel write. A write that does not flip the pixel
    /// leaves everything, the dirty flags included, as it was; a write that
    /// does sets the pixel and marks its chunk dirty.
    pub open spec fn plot(self, x: int, y: int, color: Color) -> CanvasView {
        if self.flips(x, y, color) {
            CanvasView {
                pixels: self.pixels.update(self.index(x, y), color.spec_is_active()),
                dirty: self.dirty.update(self.chunk_of(y), true),
                ..self
            }
        } else {
            self
        }
    }

    /// The canvas after the writes `dots`, applied first to last.
    pub open spec fn paint(self, dots: Seq<Dot>) -> CanvasView
        decreases dots.len(),
    {
        if dots.len() == 0 {
            self
        } else {
            let d = dots.last();
            self.paint(dots.drop_last()).plot(d.x, d.y, d.color)
        }
    }
}

/// A pixel inside the grid has an index below the number of pixels.
pub proof fn lemma_index_in_range(width: int, height: int, x: int, y: int)
    by (nonlinear_arith)
    requires
        0 <= x < width,
        0 <= y < height,
    ensures
        0 <= y * width + x < width * height,
{
}

/// Rows of a grid whose height is a multiple of the chunk count fall into
/// existing chunks.
pub proof fn lemma_chunk_in_range(height: int, chunks: int, y: int)
    requires
        chunks >= 1,
        height % chunks == 0,
        0 <= y < height,
    ensures
        height / chunks >= 1,
        0 <= y / (height / chunks) < chunks,
{
    lemma_fundamental_div_mod(height, chunks);
    let ch = height / chunks;
    assert(height == chunks * ch);
    assert(ch >= 1) by (nonlinear_arith)
        requires
            chunks * ch > 0,
            chunks >= 1,
    ;
    assert(0 <= y / ch < chunks) by (nonlinear_arith)
        requires
            0 <= y < chunks * ch,
            ch >= 1,
    ;
}

/// A plot on a well-formed canvas gives a well-formed canvas of the same geometry.
pub proof fn lemma_plot_wf(v: CanvasView, x: int, y: int, color: Color)
    requires
        v.wf(),
    ensures
        v.plot(x, y, color).wf(),
        v.plot(x, y, color).width == v.width,
        v.plot(x, y, color).height == v.height,
        v.plot(x, y, color).dirty.len() == v.dirty.len(),
{
    if v.flips(x, y, color) {
        lemma_index_in_range(v.width as int, v.height as int, x, y);
        lemma_chunk_in_range(v.height as int, v.dirty.len() as int, y);
    }
}

} // verus!
