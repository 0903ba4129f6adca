//! The drawing interface shared by all canvases.

use vstd::prelude::*;
use vstd::std_specs::iter::IteratorSpec;
use vstd::string::StrSliceExecFns;
use super::color::{BlendMode, Color};
use super::error::Error;
use super::font::Font;
use super::model::{byte_bit, packs, CanvasView, Dot};
use super::shapes::{
    bitmap_cell, bitmap_dots, block, box_fits, by_row, character_dots, circle_column,
    circle_columns, circle_dot, circle_dots, circle_fits, circle_span, copy_cell, copy_dots,
    corner_radius, edge_x, filled_triangle_dots, frame, inside, lemma_block_color,
    lemma_edge_between, lemma_minor_offset, lemma_paint_concat, lemma_paint_push,
    lemma_paint_transparent, line_dot, line_dots, line_prefix, no_color, on_outline, outside_of2,
    outside_of3, raster, raster_row, rectangle_dots, rounded_corners, rounded_dots, rounded_fits,
    rounded_frame, rounded_interior, rounded_sides, run_h, run_v, span, text_dots, text_fits,
    triangle_dots, triangle_row, triangle_rows,
};
use super::vec::UVec2;

verus! {

/// Which part of a circle is drawn.
#[derive(Debug, Clone, Copy, PartialEq, Eq, Structural)]
pub enum CircleType {
    Full,
    SemiLeft,
    SemiTop,
    SemiRight,
    SemiBottom,
    QuarterTopLeft,
    QuarterTopRight,
    QuarterBottomRight,
    QuarterBottomLeft,
}

/// The column at which the edge from `p` down to `q` crosses row `y`.
fn edge_at(p: UVec2, q: UVec2, y: u32) -> (x: u32)
    requires
        p.y <= y <= q.y,
        p.y < q.y,
    ensures
        x == edge_x(p, q, y as int),
        p.x <= x <= q.x || q.x <= x <= p.x,
{
    let right: bool = q.x >= p.x;
    let d: u64 = if right { (q.x - p.x) as u64 } else { (p.x - q.x) as u64 };
    let t: u64 = (y - p.y) as u64;
    let h: u64 = (q.y - p.y) as u64;
    proof {
        lemma_edge_between(d as int, t as int, h as int);
        assert(d * h <= 0xFFFF_FFFF * 0xFFFF_FFFF) by (nonlinear_arith)
            requires
                0 <= d <= 0xFFFF_FFFF,
                0 <= h <= 0xFFFF_FFFF,
        ;
    }
    let off: u32 = (d * t / h) as u32;
    if right {
        p.x + off
    } else {
        p.x - off
    }
}

/// A grid of one-bit pixels with chunked dirty tracking.
///
/// An implementation supplies storage, the two pixel accessors and the
/// dirty flags. Every drawing primitive is built on `set_pixel`, so a chunk
/// becomes dirty exactly when one of its pixels changes.
pub trait Canvas {
    /// The canvas as mathematical values.
    spec fn view(&self) -> CanvasView;

    /// Width and height in pixels.
    fn size(&self) -> (s: UVec2)
        ensures
            s.x == self@.width,
            s.y == self@.height,
            self@.wf(),
    ;

    /// How many chunks the rows are divided into.
    fn number_of_chunks(&self) -> (n: u32)
        ensures
            n == self@.dirty.len(),
    ;

    /// The pixels as packed bytes, row after row, most significant bit first.
    fn buffer(&self) -> (bytes: &[u8])
        ensures
            packs(bytes@, self@.pixels),
    ;

    /// Marks every chunk dirty.
    fn set_dirty(&mut self)
        ensures
            final(self)@ == old(self)@.all_dirty(),
    ;

    /// Whether any chunk is dirty.
    fn is_dirty(&self) -> (dirty: bool)
        ensures
            dirty == self@.any_dirty(),
    ;

    /// Whether chunk `chunk` is dirty; `false` if there is no such chunk.
    fn is_chunk_dirty(&self, chunk: u32) -> (dirty: bool)
        ensures
            dirty == (chunk < self@.dirty.len() && self@.dirty[chunk as int]),
    ;

    /// Marks the chunk that holds row `y` dirty; does nothing if there is no row `y`.
    fn set_chunk_dirty(&mut self, y: u32)
        ensures
            final(self)@ == old(self)@.touch_row(y as int),
    ;

    /// Marks every chunk clean.
    fn clear_dirty(&mut self)
        ensures
            final(self)@ == old(self)@.all_clean(),
    ;

    /// Marks chunk `chunk` clean; does nothing if there is no such chunk.
    fn clear_chunk_dirty(&mut self, chunk: u32)
        ensures
            final(self)@ == old(self)@.clean_chunk(chunk as int),
    ;

    /// Reads the pixel at `p`: white if it is lit, black if not.
    fn get_pixel(&self, p: UVec2) -> (r: Result<Color, Error>)
        ensures
            r == self@.read(p),
    ;

    /// Writes `color` at `p`.
    ///
    /// Fails if `p` is outside the canvas. A transparent color, or one that
    /// the pixel already shows, changes nothing; otherwise the pixel is set
    /// and its chunk marked dirty.
    fn set_pixel(&mut self, p: UVec2, color: Color) -> (r: Result<(), Error>)
        ensures
            old(self)@.contains(p.x as int, p.y as int) ==> r == Ok::<(), Error>(()),
            !old(self)@.contains(p.x as int, p.y as int) ==> r == Err::<(), Error>(
                old(self)@.fault(p),
            ),
            final(self)@ == old(self)@.plot(p.x as int, p.y as int, color),
    ;

    /// Sets every byte of the pixel buffer to `value` and marks every chunk
    /// dirty: each group of eight pixels shows the bits of `value`, most
    /// significant bit first.
    fn fill(&mut self, value: u8)
        ensures
            final(self)@ == old(self)@.repaint(|i: int| byte_bit(value, i)),
    ;

    /// Flips every pixel and marks every chunk dirty.
    fn invert(&mut self)
        ensures
            final(self)@ == old(self)@.repaint(|i: int| !old(self)@.pixels[i]),
    ;

    /// Lights every pixel and marks every chunk dirty.
    fn white(&mut self)
        ensures
            final(self)@ == old(self)@.repaint(|i: int| true),
    {
        self.fill(0xFF);
        proof {
            assert forall|i: int| #[trigger] byte_bit(0xFFu8, i) by {
                let k: u8 = (i % 8) as u8;
                assert(k < 8 ==> 0xFFu8 & (0x80u8 >> k) != 0) by (bit_vector);
            }
            assert(self@.pixels =~= old(self)@.repaint(|i: int| true).pixels);
        }
    }

    /// Darkens every pixel and marks every chunk dirty.
    fn black(&mut self)
        ensures
            final(self)@ == old(self)@.repaint(|i: int| false),
    {
        self.fill(0x00);
        proof {
            assert forall|i: int| !#[trigger] byte_bit(0x00u8, i) by {
                let k: u8 = (i % 8) as u8;
                assert(0x00u8 & (0x80u8 >> k) == 0) by (bit_vector);
            }
            assert(self@.pixels =~= old(self)@.repaint(|i: int| false).pixels);
        }
    }

    /// Draws `length` pixels to the right, starting at `p`.
    ///
    /// Fails, drawing nothing, if `p` is outside the canvas or the run
    /// would pass its right edge.
    fn line_horizontal(&mut self, p: UVec2, length: u32, color: Color) -> (r: Result<(), Error>)
        ensures
            r is Ok <==> box_fits(old(self)@, p.x as int, p.y as int, length as int, 1),
            r is Ok ==> final(self)@ == old(self)@.paint(
                run_h(p.x as int, p.y as int, length as nat, color),
            ),
            r is Err ==> r == Err::<(), Error>(old(self)@.fault(p)) && final(self)@ == old(self)@,
            final(self)@.width == old(self)@.width,
            final(self)@.height == old(self)@.height,
    {
        let size = self.size();
        if p.oob(size) || length > size.x - p.x {
            return Err(Error::OutOfBounds { p, bounds: size });
        }
        let mut k: u32 = 0;
        while k < length
            invariant
                k <= length,
                self@.width == size.x,
                self@.height == size.y,
                p.x + length <= size.x,
                p.y < size.y,
                self@ == old(self)@.paint(run_h(p.x as int, p.y as int, k as nat, color)),
            decreases length - k,
        {
            let ghost before = run_h(p.x as int, p.y as int, k as nat, color);
            self.set_pixel(UVec2::new(p.x + k, p.y), color)?;
            k = k + 1;
            proof {
                let ghost after = run_h(p.x as int, p.y as int, k as nat, color);
                assert(after =~= before.push(Dot { x: p.x + k - 1, y: p.y as int, color }));
                lemma_paint_push(old(self)@, before, Dot { x: p.x + k - 1, y: p.y as int, color });
            }
        }
        Ok(())
    }

    /// Draws `length` pixels downwards, starting at `p`.
    ///
    /// Fails, drawing nothing, if `p` is outside the canvas or the run
    /// would pass its bottom edge.
    fn line_vertical(&mut self, p: UVec2, length: u32, color: Color) -> (r: Result<(), Error>)
        ensures
            r is Ok <==> box_fits(old(self)@, p.x as int, p.y as int, 1, length as int),
            r is Ok ==> final(self)@ == old(self)@.paint(
                run_v(p.x as int, p.y as int, length as nat, color),
            ),
            r is Err ==> r == Err::<(), Error>(old(self)@.fault(p)) && final(self)@ == old(self)@,
            final(self)@.width == old(self)@.width,
            final(self)@.height == old(self)@.height,
    {
        let size = self.size();
        if p.oob(size) || length > size.y - p.y {
            return Err(Error::OutOfBounds { p, bounds: size });
        }
        let mut k: u32 = 0;
        while k < length
            invariant
                k <= length,
                self@.width == size.x,
                self@.height == size.y,
                p.y + length <= size.y,
                p.x < size.x,
                self@ == old(self)@.paint(run_v(p.x as int, p.y as int, k as nat, color)),
            decreases length - k,
        {
            let ghost before = run_v(p.x as int, p.y as int, k as nat, color);
            self.set_pixel(UVec2::new(p.x, p.y + k), color)?;
            k = k + 1;
            proof {
                let ghost after = run_v(p.x as int, p.y as int, k as nat, color);
                assert(after =~= before.push(Dot { x: p.x as int, y: p.y + k - 1, color }));
                lemma_paint_push(old(self)@, before, Dot { x: p.x as int, y: p.y + k - 1, color });
            }
        }
        Ok(())
    }

    /// Draws the outline of the rectangle of `size` pixels whose top left
    /// corner is `p`.
    fn rectangle(&mut self, p: UVec2, size: UVec2, color: Color) -> (r: Result<(), Error>)
        ensures
            r is Ok <==> box_fits(old(self)@, p.x as int, p.y as int, size.x as int, size.y as int),
            r is Ok ==> final(self)@ == old(self)@.paint(
                rectangle_dots(
                    p.x as int,
                    p.y as int,
                    size.x as nat,
                    size.y as nat,
                    color,
                    no_color(),
                ),
            ),
            r is Err ==> r == Err::<(), Error>(old(self)@.fault(p)) && final(self)@ == old(self)@,
            final(self)@.width == old(self)@.width,
            final(self)@.height == old(self)@.height,
    {
        self.rectangle_filled(p, size, color, Color::from_blend_mode(BlendMode::Transparent))
    }

    /// Draws the rectangle of `size` pixels whose top left corner is `p`:
    /// the outline in `color`, then the interior in `fill_color`.
    ///
    /// Fails, drawing nothing, if `p` is outside the canvas or the
    /// rectangle does not fit between `p` and the right and bottom edges. A
    /// rectangle with an empty side draws nothing.
    fn rectangle_filled(&mut self, p: UVec2, size: UVec2, color: Color, fill_color: Color) -> (r:
        Result<(), Error>)
        ensures
            r is Ok <==> box_fits(old(self)@, p.x as int, p.y as int, size.x as int, size.y as int),
            r is Ok ==> final(self)@ == old(self)@.paint(
                rectangle_dots(
                    p.x as int,
                    p.y as int,
                    size.x as nat,
                    size.y as nat,
                    color,
                    fill_color,
                ),
            ),
            r is Err ==> r == Err::<(), Error>(old(self)@.fault(p)) && final(self)@ == old(self)@,
            final(self)@.width == old(self)@.width,
            final(self)@.height == old(self)@.height,
    {
        let bounds = self.size();
        if p.oob(bounds) {
            return Err(Error::OutOfBounds { p, bounds });
        }
        if size.x == 0 || size.y == 0 {
            return Ok(());
        }
        if size.x > bounds.x - p.x || size.y > bounds.y - p.y {
            return Err(Error::OutOfBounds { p, bounds });
        }
        let ghost (x, y, w, h) = (p.x as int, p.y as int, size.x as nat, size.y as nat);
        let ghost top = run_h(x, y, w, color);
        let ghost bottom = run_h(x, y + h - 1, w, color);
        let ghost left = run_v(x, y, h, color);
        let ghost right = run_v(x + w - 1, y, h, color);
        self.line_horizontal(p, size.x, color)?;
        self.line_horizontal(UVec2::new(p.x, p.y + (size.y - 1)), size.x, color)?;
        self.line_vertical(p, size.y, color)?;
        self.line_vertical(UVec2::new(p.x + (size.x - 1), p.y), size.y, color)?;
        proof {
            lemma_paint_concat(old(self)@, top, bottom);
            lemma_paint_concat(old(self)@, top + bottom, left);
            lemma_paint_concat(old(self)@, top + bottom + left, right);
        }
        if size.x > 2 && size.y > 2 {
            let ghost inner = block(x + 1, y + 1, (w - 2) as nat, (h - 2) as nat, fill_color);
            if fill_color.blend_mode == BlendMode::Transparent {
                proof {
                    lemma_block_color(x + 1, y + 1, (w - 2) as nat, (h - 2) as nat, fill_color);
                    lemma_paint_transparent(self@, inner);
                    lemma_paint_concat(old(self)@, frame(x, y, w, h, color), inner);
                }
                return Ok(());
            }
            let ghost framed = self@;
            let rows: u32 = size.y - 2;
            let mut row: u32 = 0;
            while row < rows
                invariant
                    row <= rows,
                    rows == size.y - 2,
                    size.x > 2,
                    self@.width == bounds.x,
                    self@.height == bounds.y,
                    p.x + size.x <= bounds.x,
                    p.y + size.y <= bounds.y,
                    self@ == framed.paint(
                        block(p.x + 1, p.y + 1, (size.x - 2) as nat, row as nat, fill_color),
                    ),
                decreases rows - row,
            {
                let ghost done = block(
                    p.x + 1,
                    p.y + 1,
                    (size.x - 2) as nat,
                    row as nat,
                    fill_color,
                );
                self.line_horizontal(UVec2::new(p.x + 1, p.y + 1 + row), size.x - 2, fill_color)?;
                proof {
                    lemma_paint_concat(
                        framed,
                        done,
                        run_h(p.x + 1, p.y + 1 + row, (size.x - 2) as nat, fill_color),
                    );
                }
                row = row + 1;
            }
            proof {
                lemma_paint_concat(old(self)@, frame(x, y, w, h, color), inner);
            }
        }
        Ok(())
    }

    /// Draws the outline of the circle of radius `r` around `p`, or of the
    /// part of it that `circle_type` selects.
    fn circle(&mut self, p: UVec2, r: u32, circle_type: CircleType, color: Color) -> (res: Result<
        (),
        Error,
    >)
        ensures
            res is Ok <==> circle_fits(old(self)@, p.x as int, p.y as int, r as int, circle_type),
            res is Ok ==> final(self)@ == old(self)@.paint(
                circle_dots(p.x as int, p.y as int, r as int, circle_type, color, no_color()),
            ),
            res is Err ==> res == Err::<(), Error>(old(self)@.fault(p)) && final(self)@ == old(
                self,
            )@,
            final(self)@.width == old(self)@.width,
            final(self)@.height == old(self)@.height,
    {
        self.circle_filled(p, r, circle_type, color, Color::from_blend_mode(BlendMode::Transparent))
    }

    /// Draws the circle of radius `r` around `p`, or the part of it that
    /// `circle_type` selects: the outline in `color`, the inside in
    /// `fill_color`.
    ///
    /// The square of side `2 * r + 1` around `p`, cut down to the selected
    /// half or quarter, is scanned column by column. A scanned pixel belongs
    /// to the outline when its squared distance from `p` differs from
    /// `r * r` by less than `r`, and to the inside when it is not on the
    /// outline and nearer than `r`. Fails, drawing nothing, if `p` or any
    /// part of the scanned area is outside the canvas. Radius zero draws
    /// nothing.
    fn circle_filled(
        &mut self,
        p: UVec2,
        r: u32,
        circle_type: CircleType,
        color: Color,
        fill_color: Color,
    ) -> (res: Result<(), Error>)
        ensures
            res is Ok <==> circle_fits(old(self)@, p.x as int, p.y as int, r as int, circle_type),
            res is Ok ==> final(self)@ == old(self)@.paint(
                circle_dots(p.x as int, p.y as int, r as int, circle_type, color, fill_color),
            ),
            res is Err ==> res == Err::<(), Error>(old(self)@.fault(p)) && final(self)@ == old(
                self,
            )@,
            final(self)@.width == old(self)@.width,
            final(self)@.height == old(self)@.height,
    {
        let bounds = self.size();
        if p.oob(bounds) {
            return Err(Error::OutOfBounds { p, bounds });
        }
        if r == 0 {
            return Ok(());
        }
        let (to_left, to_right, to_top, to_bottom): (bool, bool, bool, bool) = match circle_type {
            CircleType::Full => (true, true, true, true),
            CircleType::SemiLeft => (true, false, true, true),
            CircleType::SemiTop => (true, true, true, false),
            CircleType::SemiRight => (false, true, true, true),
            CircleType::SemiBottom => (true, true, false, true),
            CircleType::QuarterTopLeft => (true, false, true, false),
            CircleType::QuarterTopRight => (false, true, true, false),
            CircleType::QuarterBottomRight => (false, true, false, true),
            CircleType::QuarterBottomLeft => (true, false, false, true),
        };
        let left: u32 = if to_left { r } else { 0 };
        let right: u32 = if to_right { r } else { 0 };
        let top: u32 = if to_top { r } else { 0 };
        let bottom: u32 = if to_bottom { r } else { 0 };
        let ghost (x0, x1, y0, y1) = circle_span(circle_type, r as int);
        assert(x0 == -left && x1 == right && y0 == -top && y1 == bottom);
        if left > p.x || right > bounds.x - 1 - p.x || top > p.y || bottom > bounds.y - 1 - p.y {
            return Err(Error::OutOfBounds { p, bounds });
        }
        let cols: u32 = left + right + 1;
        let rows: u32 = top + bottom + 1;
        assert(r * r <= 0xFFFF_FFFF * 0xFFFF_FFFF) by (nonlinear_arith)
            requires
                r <= 0xFFFF_FFFF,
        ;
        let r2: u128 = r as u128 * r as u128;
        let mut i: u32 = 0;
        while i < cols
            invariant
                i <= cols,
                cols == left + right + 1,
                rows == top + bottom + 1,
                left <= r,
                top <= r,
                right <= r,
                bottom <= r,
                r > 0,
                r2 == r * r,
                left <= p.x,
                top <= p.y,
                p.x + right < bounds.x,
                p.y + bottom < bounds.y,
                self@.width == bounds.x,
                self@.height == bounds.y,
                self@ == old(self)@.paint(
                    circle_columns(
                        p.x as int,
                        p.y as int,
                        r as int,
                        -left,
                        i as nat,
                        -top,
                        rows as nat,
                        color,
                        fill_color,
                    ),
                ),
            decreases cols - i,
        {
            let ghost column_start = self@;
            let ghost done = circle_columns(
                p.x as int,
                p.y as int,
                r as int,
                -left,
                i as nat,
                -top,
                rows as nat,
                color,
                fill_color,
            );
            let px: u32 = p.x - left + i;
            let dx: u64 = if i >= left { (i - left) as u64 } else { (left - i) as u64 };
            assert(dx * dx <= 0xFFFF_FFFF * 0xFFFF_FFFF && dx * dx == (i - left) * (i - left))
                by (nonlinear_arith)
                requires
                    dx <= 0xFFFF_FFFF,
                    dx == i - left || dx == left - i,
            ;
            let dx2: u128 = dx as u128 * dx as u128;
            let mut j: u32 = 0;
            while j < rows
                invariant
                    j <= rows,
                    rows == top + bottom + 1,
                    top <= r,
                    bottom <= r,
                    r > 0,
                    r2 == r * r,
                    dx2 == (i - left) * (i - left),
                    dx2 <= 0xFFFF_FFFF * 0xFFFF_FFFF,
                    px == p.x - left + i,
                    px < bounds.x,
                    top <= p.y,
                    p.y + bottom < bounds.y,
                    self@.width == bounds.x,
                    self@.height == bounds.y,
                    self@ == column_start.paint(
                        circle_column(
                            p.x as int,
                            p.y as int,
                            r as int,
                            i - left,
                            -top,
                            j as nat,
                            color,
                            fill_color,
                        ),
                    ),
                decreases rows - j,
            {
                let ghost before = circle_column(
                    p.x as int,
                    p.y as int,
                    r as int,
                    i - left,
                    -top,
                    j as nat,
                    color,
                    fill_color,
                );
                let ghost dot = circle_dot(
                    p.x as int,
                    p.y as int,
                    r as int,
                    i - left,
                    j - top,
                    color,
                    fill_color,
                );
                let py: u32 = p.y - top + j;
                let dy: u64 = if j >= top { (j - top) as u64 } else { (top - j) as u64 };
                assert(dy * dy <= 0xFFFF_FFFF * 0xFFFF_FFFF && dy * dy == (j - top) * (j - top))
                    by (nonlinear_arith)
                    requires
                        dy <= 0xFFFF_FFFF,
                        dy == j - top || dy == top - j,
                ;
                let d2: u128 = dx2 + dy as u128 * dy as u128;
                let off: u128 = if r2 >= d2 { r2 - d2 } else { d2 - r2 };
                assert(d2 == (i - left) * (i - left) + (j - top) * (j - top));
                assert((off < r) == on_outline(r as int, i - left, j - top));
                assert((d2 < r2) == inside(r as int, i - left, j - top));
                assert(dot.x == px && dot.y == py);
                let ghost prior = self@;
                if off < r as u128 {
                    self.set_pixel(UVec2::new(px, py), color)?;
                } else if fill_color.blend_mode != BlendMode::Transparent && d2 < r2 {
                    self.set_pixel(UVec2::new(px, py), fill_color)?;
                }
                proof {
                    assert(self@ == prior.plot(dot.x, dot.y, dot.color));
                    lemma_paint_push(column_start, before, dot);
                    assert(circle_column(
                        p.x as int,
                        p.y as int,
                        r as int,
                        i - left,
                        -top,
                        (j + 1) as nat,
                        color,
                        fill_color,
                    ) =~= before.push(dot));
                }
                j = j + 1;
            }
            proof {
                lemma_paint_concat(
                    old(self)@,
                    done,
                    circle_column(
                        p.x as int,
                        p.y as int,
                        r as int,
                        i - left,
                        -top,
                        rows as nat,
                        color,
                        fill_color,
                    ),
                );
            }
            i = i + 1;
        }
        Ok(())
    }

    /// Draws the outline of a rectangle with rounded corners.
    fn rectangle_rounded(&mut self, p: UVec2, size: UVec2, r: u32, color: Color) -> (res: Result<
        (),
        Error,
    >)
        ensures
            res is Ok <==> box_fits(
                old(self)@,
                p.x as int,
                p.y as int,
                size.x as int,
                size.y as int,
            ),
            res is Ok ==> final(self)@ == old(self)@.paint(
                rounded_dots(
                    p.x as int,
                    p.y as int,
                    size.x as int,
                    size.y as int,
                    r as int,
                    color,
                    no_color(),
                ),
            ),
            res is Err ==> res == Err::<(), Error>(old(self)@.fault(p)) && final(self)@ == old(
                self,
            )@,
            final(self)@.width == old(self)@.width,
            final(self)@.height == old(self)@.height,
    {
        self.rectangle_rounded_filled(
            p,
            size,
            r,
            color,
            Color::from_blend_mode(BlendMode::Transparent),
        )
    }

    /// Draws a rectangle with rounded corners: the four straight edges,
    /// shortened by the corner radius, the four quarter circles at the
    /// corners, and, unless `fill_color` is transparent or the rectangle
    /// has no interior, three filled rectangles between the corners.
    ///
    /// A radius of more than half the shorter side is cut down to half of
    /// it. Fails, drawing nothing, if `p` is outside the canvas or the
    /// rectangle does not fit between `p` and the right and bottom edges.
    fn rectangle_rounded_filled(
        &mut self,
        p: UVec2,
        size: UVec2,
        r: u32,
        color: Color,
        fill_color: Color,
    ) -> (res: Result<(), Error>)
        ensures
            res is Ok <==> box_fits(
                old(self)@,
                p.x as int,
                p.y as int,
                size.x as int,
                size.y as int,
            ),
            res is Ok ==> final(self)@ == old(self)@.paint(
                rounded_dots(
                    p.x as int,
                    p.y as int,
                    size.x as int,
                    size.y as int,
                    r as int,
                    color,
                    fill_color,
                ),
            ),
            res is Err ==> res == Err::<(), Error>(old(self)@.fault(p)) && final(self)@ == old(
                self,
            )@,
            final(self)@.width == old(self)@.width,
            final(self)@.height == old(self)@.height,
    {
        let bounds = self.size();
        if p.oob(bounds) {
            return Err(Error::OutOfBounds { p, bounds });
        }
        if size.x == 0 || size.y == 0 {
            return Ok(());
        }
        if size.x > bounds.x - p.x || size.y > bounds.y - p.y {
            return Err(Error::OutOfBounds { p, bounds });
        }
        let shortest: u32 = if size.x <= size.y { size.x } else { size.y };
        let cr: u32 = if r > shortest / 2 { shortest / 2 } else { r };
        let ghost (x, y, w, h) = (p.x as int, p.y as int, size.x as int, size.y as int);
        assert(cr == corner_radius(w, h, r as int));
        self.rounded_sides(p, size, cr, color)?;
        self.rounded_corners(p, size, cr, color, fill_color)?;
        proof {
            lemma_paint_concat(
                old(self)@,
                rounded_sides(x, y, w, h, cr as int, color),
                rounded_corners(x, y, w, h, cr as int, color, fill_color),
            );
        }
        if fill_color.blend_mode == BlendMode::Transparent || size.x <= 2 || size.y <= 2 {
            return Ok(());
        }
        self.rounded_fill(p, size, cr, fill_color)?;
        proof {
            lemma_paint_concat(
                old(self)@,
                rounded_frame(x, y, w, h, cr as int, color, fill_color),
                rounded_interior(x, y, w, h, cr as int, fill_color),
            );
        }
        Ok(())
    }

    /// Draws the four straight edges of a rounded rectangle, each shortened
    /// by the corner radius `r` at both ends.
    ///
    /// Fails, drawing nothing, if a side is empty, the radius is more than
    /// half the shorter side, or the rectangle does not fit on the canvas.
    fn rounded_sides(&mut self, p: UVec2, size: UVec2, r: u32, color: Color) -> (res: Result<
        (),
        Error,
    >)
        ensures
            res is Ok <==> rounded_fits(
                old(self)@,
                p.x as int,
                p.y as int,
                size.x as int,
                size.y as int,
                r as int,
            ),
            res is Ok ==> final(self)@ == old(self)@.paint(
                rounded_sides(
                    p.x as int,
                    p.y as int,
                    size.x as int,
                    size.y as int,
                    r as int,
                    color,
                ),
            ),
            res is Err ==> res == Err::<(), Error>(old(self)@.fault(p)) && final(self)@ == old(
                self,
            )@,
            final(self)@.width == old(self)@.width,
            final(self)@.height == old(self)@.height,
    {
        let bounds = self.size();
        if p.oob(bounds) || size.x == 0 || size.y == 0 || r > size.x / 2 || r > size.y / 2 || size.x
            > bounds.x - p.x || size.y > bounds.y - p.y {
            return Err(Error::OutOfBounds { p, bounds });
        }
        let ghost (x, y, w, h) = (p.x as int, p.y as int, size.x as int, size.y as int);
        let ghost s0 = run_h(x + r, y, (w - 2 * r) as nat, color);
        let ghost s1 = run_h(x + r, y + h - 1, (w - 2 * r) as nat, color);
        let ghost s2 = run_v(x, y + r, (h - 2 * r) as nat, color);
        let ghost s3 = run_v(x + w - 1, y + r, (h - 2 * r) as nat, color);
        let ghost v = old(self)@;
        self.line_horizontal(UVec2::new(p.x + r, p.y), size.x - 2 * r, color)?;
        self.line_horizontal(UVec2::new(p.x + r, p.y + (size.y - 1)), size.x - 2 * r, color)?;
        proof {
            lemma_paint_concat(v, s0, s1);
        }
        self.line_vertical(UVec2::new(p.x, p.y + r), size.y - 2 * r, color)?;
        proof {
            lemma_paint_concat(v, s0 + s1, s2);
        }
        self.line_vertical(UVec2::new(p.x + (size.x - 1), p.y + r), size.y - 2 * r, color)?;
        proof {
            lemma_paint_concat(v, s0 + s1 + s2, s3);
        }
        Ok(())
    }

    /// Draws the four quarter circles of radius `r` at the corners of a
    /// rounded rectangle.
    ///
    /// Fails, drawing nothing, if a side is empty, the radius is more than
    /// half the shorter side, or the rectangle does not fit on the canvas.
    fn rounded_corners(
        &mut self,
        p: UVec2,
        size: UVec2,
        r: u32,
        color: Color,
        fill_color: Color,
    ) -> (res: Result<(), Error>)
        ensures
            res is Ok <==> rounded_fits(
                old(self)@,
                p.x as int,
                p.y as int,
                size.x as int,
                size.y as int,
                r as int,
            ),
            res is Ok ==> final(self)@ == old(self)@.paint(
                rounded_corners(
                    p.x as int,
                    p.y as int,
                    size.x as int,
                    size.y as int,
                    r as int,
                    color,
                    fill_color,
                ),
            ),
            res is Err ==> res == Err::<(), Error>(old(self)@.fault(p)) && final(self)@ == old(
                self,
            )@,
            final(self)@.width == old(self)@.width,
            final(self)@.height == old(self)@.height,
    {
        let bounds = self.size();
        if p.oob(bounds) || size.x == 0 || size.y == 0 || r > size.x / 2 || r > size.y / 2 || size.x
            > bounds.x - p.x || size.y > bounds.y - p.y {
            return Err(Error::OutOfBounds { p, bounds });
        }
        let ghost (x, y, w, h) = (p.x as int, p.y as int, size.x as int, size.y as int);
        let near = UVec2::new(p.x + r, p.y + r);
        let far = UVec2::new(p.x + (size.x - r - 1), p.y + (size.y - r - 1));
        let ghost s4 = circle_dots(
            x + r,
            y + r,
            r as int,
            CircleType::QuarterTopLeft,
            color,
            fill_color,
        );
        let ghost s5 = circle_dots(
            x + w - r - 1,
            y + r,
            r as int,
            CircleType::QuarterTopRight,
            color,
            fill_color,
        );
        let ghost s6 = circle_dots(
            x + w - r - 1,
            y + h - r - 1,
            r as int,
            CircleType::QuarterBottomRight,
            color,
            fill_color,
        );
        let ghost s7 = circle_dots(
            x + r,
            y + h - r - 1,
            r as int,
            CircleType::QuarterBottomLeft,
            color,
            fill_color,
        );
        let ghost v = old(self)@;
        self.circle_filled(near, r, CircleType::QuarterTopLeft, color, fill_color)?;
        self.circle_filled(
            UVec2::new(far.x, near.y),
            r,
            CircleType::QuarterTopRight,
            color,
            fill_color,
        )?;
        proof {
            lemma_paint_concat(v, s4, s5);
        }
        self.circle_filled(far, r, CircleType::QuarterBottomRight, color, fill_color)?;
        proof {
            lemma_paint_concat(v, s4 + s5, s6);
        }
        self.circle_filled(
            UVec2::new(near.x, far.y),
            r,
            CircleType::QuarterBottomLeft,
            color,
            fill_color,
        )?;
        proof {
            lemma_paint_concat(v, s4 + s5 + s6, s7);
        }
        Ok(())
    }

    /// Fills the inside of a rounded rectangle between its corners with
    /// three rectangles: the band between the top corners, the middle, and
    /// the band between the bottom corners.
    ///
    /// Fails, drawing nothing, unless both sides are longer than two
    /// pixels, the radius is at most half the shorter side, and the
    /// rectangle fits on the canvas.
    fn rounded_fill(&mut self, p: UVec2, size: UVec2, r: u32, fill_color: Color) -> (res: Result<
        (),
        Error,
    >)
        ensures
            res is Ok <==> size.x > 2 && size.y > 2 && 2 * r <= size.x && 2 * r <= size.y
                && box_fits(old(self)@, p.x as int, p.y as int, size.x as int, size.y as int),
            res is Ok ==> final(self)@ == old(self)@.paint(
                rounded_interior(
                    p.x as int,
                    p.y as int,
                    size.x as int,
                    size.y as int,
                    r as int,
                    fill_color,
                ),
            ),
            res is Err ==> res == Err::<(), Error>(old(self)@.fault(p)) && final(self)@ == old(
                self,
            )@,
            final(self)@.width == old(self)@.width,
            final(self)@.height == old(self)@.height,
    {
        let bounds = self.size();
        if p.oob(bounds) || size.x <= 2 || size.y <= 2 || r > size.x / 2 || r > size.y / 2 || size.x
            > bounds.x - p.x || size.y > bounds.y - p.y {
            return Err(Error::OutOfBounds { p, bounds });
        }
        let ghost (x, y, w, h) = (p.x as int, p.y as int, size.x as int, size.y as int);
        let ghost f0 = rectangle_dots(
            x + r,
            y + 1,
            (w - 2 * r) as nat,
            r as nat,
            fill_color,
            fill_color,
        );
        let ghost f1 = rectangle_dots(
            x + 1,
            y + r,
            (w - 2) as nat,
            (h - 2 * r) as nat,
            fill_color,
            fill_color,
        );
        let ghost f2 = rectangle_dots(
            x + r,
            y + h - r - 1,
            (w - 2 * r) as nat,
            r as nat,
            fill_color,
            fill_color,
        );
        self.rectangle_filled(
            UVec2::new(p.x + r, p.y + 1),
            UVec2::new(size.x - 2 * r, r),
            fill_color,
            fill_color,
        )?;
        self.rectangle_filled(
            UVec2::new(p.x + 1, p.y + r),
            UVec2::new(size.x - 2, size.y - 2 * r),
            fill_color,
            fill_color,
        )?;
        proof {
            lemma_paint_concat(old(self)@, f0, f1);
        }
        self.rectangle_filled(
            UVec2::new(p.x + r, p.y + (size.y - r - 1)),
            UVec2::new(size.x - 2 * r, r),
            fill_color,
            fill_color,
        )?;
        proof {
            lemma_paint_concat(old(self)@, f0 + f1, f2);
        }
        Ok(())
    }

    /// Draws the straight line from `p0` towards `p1`.
    ///
    /// The line takes one step per pixel along its longer axis and stays
    /// as near as it can to the true line on the other. It starts at `p0`
    /// and stops one pixel short of `p1`, so lines that are chained end to
    /// end draw each joint once. Fails, drawing nothing, if `p0` or `p1` is
    /// outside the canvas.
    fn line(&mut self, p0: UVec2, p1: UVec2, color: Color) -> (res: Result<(), Error>)
        ensures
            match outside_of2(old(self)@, p0, p1) {
                Some(q) => res == Err::<(), Error>(old(self)@.fault(q)) && final(self)@ == old(
                    self,
                )@,
                None => res == Ok::<(), Error>(()) && final(self)@ == old(self)@.paint(
                    line_dots(p0, p1, color),
                ),
            },
            final(self)@.width == old(self)@.width,
            final(self)@.height == old(self)@.height,
    {
        let bounds = self.size();
        if p0.oob(bounds) {
            return Err(Error::OutOfBounds { p: p0, bounds });
        }
        if p1.oob(bounds) {
            return Err(Error::OutOfBounds { p: p1, bounds });
        }
        let x_up: bool = p1.x >= p0.x;
        let y_up: bool = p1.y >= p0.y;
        let dx: u32 = if x_up { p1.x - p0.x } else { p0.x - p1.x };
        let dy: u32 = if y_up { p1.y - p0.y } else { p0.y - p1.y };
        let steep: bool = dy > dx;
        let major: u32 = if steep { dy } else { dx };
        let minor: u32 = if steep { dx } else { dy };
        if major == 0 {
            return Ok(());
        }
        let mut e: i64 = 2 * (minor as i64) - major as i64;
        let mut c: u32 = 0;
        let mut k: u32 = 0;
        let ghost mut km: int = 0;
        let ghost mut mc: int = 0;
        assert(0 * minor == 0 && major * 0 == 0) by (nonlinear_arith);
        while k < major
            invariant
                k <= major,
                0 < major,
                minor <= major,
                x_up == (p1.x >= p0.x),
                y_up == (p1.y >= p0.y),
                dx == span(p0.x as int, p1.x as int),
                dy == span(p0.y as int, p1.y as int),
                steep == (dy > dx),
                major == if steep { dy } else { dx },
                minor == if steep { dx } else { dy },
                km == k * minor,
                mc == major * c,
                e == 2 * km + 2 * minor - major - 2 * mc,
                2 * minor - 2 * major <= e < 2 * minor,
                self@.width == bounds.x,
                self@.height == bounds.y,
                p0.x < bounds.x,
                p0.y < bounds.y,
                p1.x < bounds.x,
                p1.y < bounds.y,
                self@ == old(self)@.paint(
                    line_prefix(
                        p0.x as int,
                        p0.y as int,
                        p1.x as int,
                        p1.y as int,
                        k as nat,
                        color,
                    ),
                ),
            decreases major - k,
        {
            proof {
                lemma_minor_offset(
                    major as int,
                    minor as int,
                    k as int,
                    c as int,
                    e - 2 * minor + 2 * major,
                );
            }
            let along_x: u32 = if steep { c } else { k };
            let along_y: u32 = if steep { k } else { c };
            let x: u32 = if x_up { p0.x + along_x } else { p0.x - along_x };
            let y: u32 = if y_up { p0.y + along_y } else { p0.y - along_y };
            let ghost before = line_prefix(
                p0.x as int,
                p0.y as int,
                p1.x as int,
                p1.y as int,
                k as nat,
                color,
            );
            let ghost dot = line_dot(
                p0.x as int,
                p0.y as int,
                p1.x as int,
                p1.y as int,
                k as int,
                color,
            );
            assert(dot.x == x && dot.y == y);
            self.set_pixel(UVec2::new(x, y), color)?;
            proof {
                lemma_paint_push(old(self)@, before, dot);
                assert(line_prefix(
                    p0.x as int,
                    p0.y as int,
                    p1.x as int,
                    p1.y as int,
                    (k + 1) as nat,
                    color,
                ) =~= before.push(dot));
            }
            if e >= 0 {
                c = c + 1;
                e = e - 2 * (major as i64);
                proof {
                    assert(major * (c as int) == mc + major) by (nonlinear_arith)
                        requires
                            mc == major * (c - 1),
                    ;
                    mc = mc + major;
                }
            }
            e = e + 2 * (minor as i64);
            proof {
                assert((k + 1) * minor == km + minor) by (nonlinear_arith)
                    requires
                        km == k * minor,
                ;
                km = km + minor;
            }
            k = k + 1;
        }
        Ok(())
    }

    /// Draws the outline of the triangle with corners `p0`, `p1` and `p2`.
    ///
    /// Fails, drawing nothing, if a corner is outside the canvas.
    fn triangle(&mut self, p0: UVec2, p1: UVec2, p2: UVec2, color: Color) -> (res: Result<
        (),
        Error,
    >)
        ensures
            match outside_of3(old(self)@, p0, p1, p2) {
                Some(q) => res == Err::<(), Error>(old(self)@.fault(q)) && final(self)@ == old(
                    self,
                )@,
                None => res == Ok::<(), Error>(()) && final(self)@ == old(self)@.paint(
                    triangle_dots(p0, p1, p2, color),
                ),
            },
            final(self)@.width == old(self)@.width,
            final(self)@.height == old(self)@.height,
    {
        let bounds = self.size();
        if p0.oob(bounds) {
            return Err(Error::OutOfBounds { p: p0, bounds });
        }
        if p1.oob(bounds) {
            return Err(Error::OutOfBounds { p: p1, bounds });
        }
        if p2.oob(bounds) {
            return Err(Error::OutOfBounds { p: p2, bounds });
        }
        self.line(p0, p1, color)?;
        self.line(p1, p2, color)?;
        self.line(p2, p0, color)?;
        proof {
            let v = old(self)@;
            lemma_paint_concat(v, line_dots(p0, p1, color), line_dots(p1, p2, color));
            lemma_paint_concat(
                v,
                line_dots(p0, p1, color) + line_dots(p1, p2, color),
                line_dots(p2, p0, color),
            );
        }
        Ok(())
    }

    /// Draws a triangle filled with `fill_color` and outlined in `color`.
    ///
    /// The corners are ordered by row. If all three lie in one row, a
    /// single span from the leftmost to the rightmost is drawn in
    /// `fill_color`. Otherwise every row from the topmost to the bottommost
    /// corner is filled between the long edge and the short edge that
    /// crosses it, and the three sides are drawn last, over the fill.
    /// Fails, drawing nothing, if a corner is outside the canvas.
    fn triangle_filled(
        &mut self,
        p0: UVec2,
        p1: UVec2,
        p2: UVec2,
        color: Color,
        fill_color: Color,
    ) -> (res: Result<(), Error>)
        ensures
            match outside_of3(old(self)@, p0, p1, p2) {
                Some(q) => res == Err::<(), Error>(old(self)@.fault(q)) && final(self)@ == old(
                    self,
                )@,
                None => res == Ok::<(), Error>(()) && final(self)@ == old(self)@.paint(
                    filled_triangle_dots(p0, p1, p2, color, fill_color),
                ),
            },
            final(self)@.width == old(self)@.width,
            final(self)@.height == old(self)@.height,
    {
        let bounds = self.size();
        if p0.oob(bounds) {
            return Err(Error::OutOfBounds { p: p0, bounds });
        }
        if p1.oob(bounds) {
            return Err(Error::OutOfBounds { p: p1, bounds });
        }
        if p2.oob(bounds) {
            return Err(Error::OutOfBounds { p: p2, bounds });
        }
        let (a0, a1) = if p0.y > p1.y { (p1, p0) } else { (p0, p1) };
        let (b1, c) = if a1.y > p2.y { (p2, a1) } else { (a1, p2) };
        let (a, b) = if a0.y > b1.y { (b1, a0) } else { (a0, b1) };
        assert((a, b, c) == by_row(p0, p1, p2));
        if a.y == c.y {
            let ab: u32 = if a.x <= b.x { a.x } else { b.x };
            let left: u32 = if ab <= c.x { ab } else { c.x };
            let ba: u32 = if a.x >= b.x { a.x } else { b.x };
            let right: u32 = if ba >= c.x { ba } else { c.x };
            self.line_horizontal(UVec2::new(left, a.y), right - left + 1, fill_color)?;
            return Ok(());
        }
        let rows: u32 = c.y - a.y + 1;
        let mut t: u32 = 0;
        while t < rows
            invariant
                t <= rows,
                rows == c.y - a.y + 1,
                a.y <= b.y <= c.y,
                a.y < c.y,
                a.x < bounds.x,
                b.x < bounds.x,
                c.x < bounds.x,
                c.y < bounds.y,
                self@.width == bounds.x,
                self@.height == bounds.y,
                self@ == old(self)@.paint(triangle_rows(a, b, c, t as nat, fill_color)),
            decreases rows - t,
        {
            let y: u32 = a.y + t;
            let long: u32 = edge_at(a, c, y);
            let short: u32 = if y < b.y || b.y == c.y {
                edge_at(a, b, y)
            } else {
                edge_at(b, c, y)
            };
            let (lo, hi) = if short <= long { (short, long) } else { (long, short) };
            let ghost done = triangle_rows(a, b, c, t as nat, fill_color);
            self.line_horizontal(UVec2::new(lo, y), hi - lo + 1, fill_color)?;
            proof {
                lemma_paint_concat(old(self)@, done, triangle_row(a, b, c, y as int, fill_color));
            }
            t = t + 1;
        }
        let ghost filled = self@;
        self.line(a, b, color)?;
        self.line(b, c, color)?;
        self.line(c, a, color)?;
        proof {
            lemma_paint_concat(filled, line_dots(a, b, color), line_dots(b, c, color));
            lemma_paint_concat(
                filled,
                line_dots(a, b, color) + line_dots(b, c, color),
                line_dots(c, a, color),
            );
            lemma_paint_concat(
                old(self)@,
                triangle_rows(a, b, c, rows as nat, fill_color),
                triangle_dots(a, b, c, color),
            );
        }
        Ok(())
    }

    /// Stamps a packed one-bit bitmap of `size` pixels onto the canvas with
    /// its top left corner at `p`.
    ///
    /// The bitmap holds its pixels row after row, most significant bit
    /// first, without padding between rows; bits that `bitmap` is too short
    /// to hold count as unset. Set bits are drawn in `color`, unset bits
    /// leave the canvas as it is, and what would fall beyond the right or
    /// bottom edge is left out. Fails, drawing nothing, if `p` is outside
    /// the canvas.
    fn put_bitmap(&mut self, p: UVec2, size: UVec2, bitmap: &[u8], color: Color) -> (res: Result<
        (),
        Error,
    >)
        ensures
            res is Ok <==> old(self)@.contains(p.x as int, p.y as int),
            res is Ok ==> final(self)@ == old(self)@.paint(
                bitmap_dots(old(self)@, p, size, bitmap@, color),
            ),
            res is Err ==> res == Err::<(), Error>(old(self)@.fault(p)) && final(self)@ == old(
                self,
            )@,
            final(self)@.width == old(self)@.width,
            final(self)@.height == old(self)@.height,
    {
        let bounds = self.size();
        if p.oob(bounds) {
            return Err(Error::OutOfBounds { p, bounds });
        }
        let rows: u32 = if size.y > bounds.y - p.y { bounds.y - p.y } else { size.y };
        let cols: u32 = if size.x > bounds.x - p.x { bounds.x - p.x } else { size.x };
        let ghost cell = bitmap_cell(p.x as int, p.y as int, size.x as int, bitmap@, color);
        let mut j: u32 = 0;
        while j < rows
            invariant
                j <= rows,
                p.y + rows <= bounds.y,
                p.x + cols <= bounds.x,
                rows <= size.y,
                cols <= size.x,
                self@.width == bounds.x,
                self@.height == bounds.y,
                cell == bitmap_cell(p.x as int, p.y as int, size.x as int, bitmap@, color),
                self@ == old(self)@.paint(raster(cell, j as nat, cols as nat)),
            decreases rows - j,
        {
            let ghost row_start = self@;
            let ghost done = raster(cell, j as nat, cols as nat);
            let mut i: u32 = 0;
            while i < cols
                invariant
                    i <= cols,
                    j < rows,
                    p.y + rows <= bounds.y,
                    p.x + cols <= bounds.x,
                    rows <= size.y,
                    cols <= size.x,
                    self@.width == bounds.x,
                    self@.height == bounds.y,
                    cell == bitmap_cell(p.x as int, p.y as int, size.x as int, bitmap@, color),
                    self@ == row_start.paint(raster_row(cell, j as int, i as nat)),
                decreases cols - i,
            {
                let ghost before = raster_row(cell, j as int, i as nat);
                let ghost dot = cell(i as int, j as int);
                let ghost prior = self@;
                assert(j * size.x + i <= 0xFFFF_FFFF * 0xFFFF_FFFF + 0xFFFF_FFFF && j * size.x + i
                    >= 0) by (nonlinear_arith)
                    requires
                        0 <= j <= 0xFFFF_FFFF,
                        0 <= size.x <= 0xFFFF_FFFF,
                        0 <= i <= 0xFFFF_FFFF,
                ;
                let at: u64 = j as u64 * size.x as u64 + i as u64;
                let byte_at: u64 = at / 8;
                if byte_at < bitmap.len() as u64 {
                    let mask: u8 = 0x80u8 >> ((at % 8) as u8);
                    if bitmap[byte_at as usize] & mask != 0 {
                        self.set_pixel(UVec2::new(p.x + i, p.y + j), color)?;
                    }
                }
                proof {
                    assert(self@ == prior.plot(dot.x, dot.y, dot.color));
                    lemma_paint_push(row_start, before, dot);
                    assert(raster_row(cell, j as int, (i + 1) as nat) =~= before.push(dot));
                }
                i = i + 1;
            }
            proof {
                lemma_paint_concat(old(self)@, done, raster_row(cell, j as int, cols as nat));
            }
            j = j + 1;
        }
        Ok(())
    }

    /// Copies a region of `other`, starting at `src`, onto this canvas at
    /// `dest`: lit pixels are copied as white, dark ones as black.
    ///
    /// `size` gives the extent of the region; a component that is zero or
    /// larger than `other` stands for all of `other`. The region is cut
    /// down to what `other` holds from `src` on and to what this canvas
    /// holds from `dest` on. Fails, drawing nothing, if `dest` is outside
    /// this canvas or `src` is outside `other`.
    fn put_canvas(&mut self, other: &Self, dest: UVec2, src: UVec2, size: UVec2) -> (res: Result<
        (),
        Error,
    >)
        ensures
            !old(self)@.contains(dest.x as int, dest.y as int) ==> res == Err::<(), Error>(
                old(self)@.fault(dest),
            ),
            old(self)@.contains(dest.x as int, dest.y as int) && !other@.contains(
                src.x as int,
                src.y as int,
            ) ==> res == Err::<(), Error>(other@.fault(src)),
            old(self)@.contains(dest.x as int, dest.y as int) && other@.contains(
                src.x as int,
                src.y as int,
            ) ==> res == Ok::<(), Error>(()),
            res is Ok ==> final(self)@ == old(self)@.paint(
                copy_dots(old(self)@, other@, dest, src, size),
            ),
            res is Err ==> final(self)@ == old(self)@,
            final(self)@.width == old(self)@.width,
            final(self)@.height == old(self)@.height,
    {
        let bounds = self.size();
        if dest.oob(bounds) {
            return Err(Error::OutOfBounds { p: dest, bounds });
        }
        let source = other.size();
        if src.oob(source) {
            return Err(Error::OutOfBounds { p: src, bounds: source });
        }
        let w: u32 = if size.x <= source.x && size.x > 0 { size.x } else { source.x };
        let h: u32 = if size.y <= source.y && size.y > 0 { size.y } else { source.y };
        let room_x: u32 = if source.x - src.x < bounds.x - dest.x {
            source.x - src.x
        } else {
            bounds.x - dest.x
        };
        let room_y: u32 = if source.y - src.y < bounds.y - dest.y {
            source.y - src.y
        } else {
            bounds.y - dest.y
        };
        let cols: u32 = if w < room_x { w } else { room_x };
        let rows: u32 = if h < room_y { h } else { room_y };
        let ghost cell = copy_cell(
            dest.x as int,
            dest.y as int,
            other@,
            src.x as int,
            src.y as int,
        );
        let mut j: u32 = 0;
        while j < rows
            invariant
                j <= rows,
                dest.y + rows <= bounds.y,
                dest.x + cols <= bounds.x,
                src.y + rows <= source.y,
                src.x + cols <= source.x,
                source.x == other@.width,
                source.y == other@.height,
                self@.width == bounds.x,
                self@.height == bounds.y,
                cell == copy_cell(dest.x as int, dest.y as int, other@, src.x as int, src.y as int),
                self@ == old(self)@.paint(raster(cell, j as nat, cols as nat)),
            decreases rows - j,
        {
            let ghost row_start = self@;
            let ghost done = raster(cell, j as nat, cols as nat);
            let mut i: u32 = 0;
            while i < cols
                invariant
                    i <= cols,
                    j < rows,
                    dest.y + rows <= bounds.y,
                    dest.x + cols <= bounds.x,
                    src.y + rows <= source.y,
                    src.x + cols <= source.x,
                    source.x == other@.width,
                    source.y == other@.height,
                    self@.width == bounds.x,
                    self@.height == bounds.y,
                    cell == copy_cell(
                        dest.x as int,
                        dest.y as int,
                        other@,
                        src.x as int,
                        src.y as int,
                    ),
                    self@ == row_start.paint(raster_row(cell, j as int, i as nat)),
                decreases cols - i,
            {
                let ghost before = raster_row(cell, j as int, i as nat);
                let ghost dot = cell(i as int, j as int);
                let color = other.get_pixel(UVec2::new(src.x + i, src.y + j))?;
                self.set_pixel(UVec2::new(dest.x + i, dest.y + j), color)?;
                proof {
                    lemma_paint_push(row_start, before, dot);
                    assert(raster_row(cell, j as int, (i + 1) as nat) =~= before.push(dot));
                }
                i = i + 1;
            }
            proof {
                lemma_paint_concat(old(self)@, done, raster_row(cell, j as int, cols as nat));
            }
            j = j + 1;
        }
        Ok(())
    }

    /// Stamps the glyph of `character` onto the canvas with its top left
    /// corner at `p`, as `put_bitmap` does.
    ///
    /// A character that the font has no glyph for draws nothing. Fails,
    /// drawing nothing, if `p` is outside the canvas.
    fn put_character(&mut self, p: UVec2, character: char, color: Color, font: &Font) -> (res:
        Result<(), Error>)
        ensures
            res is Ok <==> old(self)@.contains(p.x as int, p.y as int),
            res is Ok ==> final(self)@ == old(self)@.paint(
                character_dots(old(self)@, p, character, *font, color),
            ),
            res is Err ==> res == Err::<(), Error>(old(self)@.fault(p)) && final(self)@ == old(
                self,
            )@,
            final(self)@.width == old(self)@.width,
            final(self)@.height == old(self)@.height,
    {
        match font.get_char(character) {
            Some(glyph) => self.put_bitmap(p, glyph.size, glyph.bitmap.as_slice(), color),
            None => {
                let bounds = self.size();
                if p.oob(bounds) {
                    Err(Error::OutOfBounds { p, bounds })
                } else {
                    Ok(())
                }
            },
        }
    }

    /// Writes a line of text with the top left corner of its first
    /// character at `p`.
    ///
    /// Each character is drawn as `put_character` draws it, and the next
    /// one starts the font's character width plus `spacing` pixels further
    /// to the right. Fails, drawing nothing, if `p` is outside the canvas
    /// or a character would reach beyond the right edge.
    fn put_text(&mut self, p: UVec2, text: String, color: Color, font: &Font, spacing: u32) -> (res:
        Result<(), Error>)
        ensures
            res is Ok <==> text_fits(
                old(self)@,
                p,
                text@.len() as int,
                font.spacing as int,
                font.spacing + spacing,
            ),
            res is Ok ==> final(self)@ == old(self)@.paint(
                text_dots(old(self)@, p, text@, *font, color, font.spacing + spacing),
            ),
            res is Err ==> res == Err::<(), Error>(old(self)@.fault(p)) && final(self)@ == old(
                self,
            )@,
            final(self)@.width == old(self)@.width,
            final(self)@.height == old(self)@.height,
    {
        broadcast use vstd::string::axiom_spec_iter;
        broadcast use vstd::string::next_postcondition;

        let bounds = self.size();
        if p.oob(bounds) {
            return Err(Error::OutOfBounds { p, bounds });
        }
        let cell: u32 = font.char_spacing();
        let advance: u64 = cell as u64 + spacing as u64;
        let line = text.as_str();
        let total: usize = line.unicode_len();
        if total == 0 {
            return Ok(());
        }
        assert(0 <= (total - 1) * advance <= 0xFFFF_FFFF_FFFF_FFFF * 0x1_FFFF_FFFE) by (
            nonlinear_arith)
            requires
                0 <= total - 1 <= 0xFFFF_FFFF_FFFF_FFFF,
                0 <= advance <= 0x1_FFFF_FFFE,
        ;
        let last: u128 = p.x as u128 + (total - 1) as u128 * advance as u128;
        if last >= bounds.x as u128 || last + cell as u128 > bounds.x as u128 {
            return Err(Error::OutOfBounds { p, bounds });
        }
        let mut it = line.chars();
        let mut cursor: u64 = p.x as u64;
        let mut k: usize = 0;
        while k < total
            invariant
                k <= total,
                total == text@.len(),
                line@ == text@,
                it.remaining() == text@.skip(k as int),
                advance == font.spacing + spacing,
                cursor == p.x + k * advance,
                p.x + (total - 1) * advance < bounds.x,
                p.y < bounds.y,
                self@.width == bounds.x,
                self@.height == bounds.y,
                old(self)@.width == bounds.x,
                old(self)@.height == bounds.y,
                self@ == old(self)@.paint(
                    text_dots(old(self)@, p, text@.take(k as int), *font, color, advance as int),
                ),
            decreases total - k,
        {
            let ghost done = text_dots(
                old(self)@,
                p,
                text@.take(k as int),
                *font,
                color,
                advance as int,
            );
            assert(k * advance <= (total - 1) * advance) by (nonlinear_arith)
                requires
                    0 <= k <= total - 1,
                    0 <= advance,
            ;
            let at = UVec2::new(cursor as u32, p.y);
            let next = it.next();
            assert(next == Some(text@[k as int]));
            let ghost before = self@;
            if let Some(character) = next {
                self.put_character(at, character, color, font)?;
            }
            proof {
                let shown = text@.take(k + 1);
                assert(shown.drop_last() =~= text@.take(k as int));
                assert(shown.last() == text@[k as int]);
                lemma_paint_concat(
                    old(self)@,
                    done,
                    character_dots(old(self)@, at, text@[k as int], *font, color),
                );
                assert(character_dots(before, at, text@[k as int], *font, color)
                    == character_dots(old(self)@, at, text@[k as int], *font, color));
                assert(it.remaining() =~= text@.skip(k + 1));
                assert((k + 1) * advance == k * advance + advance) by (nonlinear_arith);
            }
            cursor = cursor + advance;
            k = k + 1;
        }
        assert(text@.take(total as int) =~= text@);
        Ok(())
    }
}

} // verus!
