//! The pixel writes that each drawing primitive stands for.
//!
//! Every primitive is described by the sequence of dots it writes, in
//! order. What the canvas looks like afterwards is `CanvasView::paint` of
//! that sequence.

use vstd::prelude::*;
use vstd::arithmetic::div_mod::{
    lemma_div_is_ordered, lemma_div_multiples_vanish, lemma_div_pos_is_pos,
    lemma_fundamental_div_mod_converse,
};
use super::color::{BlendMode, Color};
use super::canvas::CircleType;
use super::font::Font;
use super::model::{bit_at, lemma_plot_wf, CanvasView, Dot};
use super::vec::UVec2;

verus! {

/// `n` dots of one color in a row, left to right, starting at `(x, y)`.
pub open spec fn run_h(x: int, y: int, n: nat, color: Color) -> Seq<Dot> {
    Seq::new(n, |k: int| Dot { x: x + k, y, color })
}

/// `n` dots of one color in a column, top to bottom, starting at `(x, y)`.
pub open spec fn run_v(x: int, y: int, n: nat, color: Color) -> Seq<Dot> {
    Seq::new(n, |k: int| Dot { x, y: y + k, color })
}

/// A solid block of `w` by `h` dots with its top left corner at `(x, y)`,
/// row after row.
pub open spec fn block(x: int, y: int, w: nat, h: nat, color: Color) -> Seq<Dot>
    decreases h,
{
    if h == 0 {
        Seq::empty()
    } else {
        block(x, y, w, (h - 1) as nat, color) + run_h(x, y + h - 1, w, color)
    }
}

/// The outline of a `w` by `h` rectangle with its top left corner at
/// `(x, y)`: top and bottom edge, then left and right edge.
pub open spec fn frame(x: int, y: int, w: nat, h: nat, color: Color) -> Seq<Dot> {
    run_h(x, y, w, color) + run_h(x, y + h - 1, w, color) + run_v(x, y, h, color) + run_v(
        x + w - 1,
        y,
        h,
        color,
    )
}

/// A rectangle with an outline in `color` around an interior in `fill`.
/// A rectangle with an empty side has no dots at all.
pub open spec fn rectangle_dots(x: int, y: int, w: nat, h: nat, color: Color, fill: Color) -> Seq<
    Dot,
> {
    if w == 0 || h == 0 {
        Seq::empty()
    } else if w <= 2 || h <= 2 {
        frame(x, y, w, h, color)
    } else {
        frame(x, y, w, h, color) + block(x + 1, y + 1, (w - 2) as nat, (h - 2) as nat, fill)
    }
}

/// The distance between two coordinates.
pub open spec fn span(a: int, b: int) -> int {
    if a <= b {
        b - a
    } else {
        a - b
    }
}

/// The coordinate `n` steps away from `from` in the direction of `to`.
pub open spec fn toward(from: int, to: int, n: int) -> int {
    if to > from {
        from + n
    } else if to < from {
        from - n
    } else {
        from
    }
}

/// How far a line has moved along its shorter axis after `k` steps along
/// its longer one: `k * minor / major`, rounded to the nearest integer
/// with halves rounded up.
pub open spec fn minor_offset(major: int, minor: int, k: int) -> int {
    (2 * k * minor + major) / (2 * major)
}

/// How many pixels a line from `(x0, y0)` to `(x1, y1)` has: one for each
/// step along its longer axis. The end point itself is not part of the line.
pub open spec fn line_steps(x0: int, y0: int, x1: int, y1: int) -> int {
    if span(y0, y1) > span(x0, x1) {
        span(y0, y1)
    } else {
        span(x0, x1)
    }
}

/// Pixel `k` of the line from `(x0, y0)` to `(x1, y1)`: `k` steps along the
/// longer axis and the nearest whole number of steps along the shorter one.
pub open spec fn line_dot(x0: int, y0: int, x1: int, y1: int, k: int, color: Color) -> Dot {
    let dx = span(x0, x1);
    let dy = span(y0, y1);
    if dy > dx {
        Dot { x: toward(x0, x1, minor_offset(dy, dx, k)), y: toward(y0, y1, k), color }
    } else {
        Dot { x: toward(x0, x1, k), y: toward(y0, y1, minor_offset(dx, dy, k)), color }
    }
}

/// The first `n` pixels of the line from `(x0, y0)` to `(x1, y1)`.
pub open spec fn line_prefix(x0: int, y0: int, x1: int, y1: int, n: nat, color: Color) -> Seq<Dot> {
    Seq::new(n, |k: int| line_dot(x0, y0, x1, y1, k, color))
}

/// The pixels of the line from `p` to `q`, starting at `p` and stopping
/// one step short of `q`.
pub open spec fn line_dots(p: UVec2, q: UVec2, color: Color) -> Seq<Dot> {
    line_prefix(
        p.x as int,
        p.y as int,
        q.x as int,
        q.y as int,
        line_steps(p.x as int, p.y as int, q.x as int, q.y as int) as nat,
        color,
    )
}

/// The outline of a triangle: its three sides, each starting at one corner.
pub open spec fn triangle_dots(p0: UVec2, p1: UVec2, p2: UVec2, color: Color) -> Seq<Dot> {
    line_dots(p0, p1, color) + line_dots(p1, p2, color) + line_dots(p2, p0, color)
}

/// The first of two points that lies outside the canvas, if one does.
pub open spec fn outside_of2(v: CanvasView, p: UVec2, q: UVec2) -> Option<UVec2> {
    if !v.contains(p.x as int, p.y as int) {
        Some(p)
    } else if !v.contains(q.x as int, q.y as int) {
        Some(q)
    } else {
        None
    }
}

/// The first of three points that lies outside the canvas, if one does.
pub open spec fn outside_of3(v: CanvasView, p: UVec2, q: UVec2, s: UVec2) -> Option<UVec2> {
    if !v.contains(p.x as int, p.y as int) {
        Some(p)
    } else {
        outside_of2(v, q, s)
    }
}

/// Three points ordered by row, top to bottom. Points in the same row keep
/// their order.
pub open spec fn by_row(p0: UVec2, p1: UVec2, p2: UVec2) -> (UVec2, UVec2, UVec2) {
    let (a0, a1) = if p0.y > p1.y {
        (p1, p0)
    } else {
        (p0, p1)
    };
    let (b1, b2) = if a1.y > p2.y {
        (p2, a1)
    } else {
        (a1, p2)
    };
    let (c0, c1) = if a0.y > b1.y {
        (b1, a0)
    } else {
        (a0, b1)
    };
    (c0, c1, b2)
}

/// Where the edge from `p` down to `q` crosses row `y`, rounded towards
/// the column of `p`.
pub open spec fn edge_x(p: UVec2, q: UVec2, y: int) -> int {
    toward(p.x as int, q.x as int, (span(p.x as int, q.x as int) * (y - p.y)) / (q.y - p.y))
}

/// The two columns between which row `y` of the triangle `a`, `b`, `c` is
/// filled, for corners ordered by row: the crossing of the long edge from
/// `a` to `c`, and the crossing of the short edge, which is the one from
/// `a` to `b` above the row of `b` and the one from `b` to `c` from there on.
/// Where `b` and `c` share a row, that row still belongs to the upper edge.
pub open spec fn triangle_row_ends(a: UVec2, b: UVec2, c: UVec2, y: int) -> (int, int) {
    let long = edge_x(a, c, y);
    let short = if y < b.y || b.y == c.y {
        edge_x(a, b, y)
    } else {
        edge_x(b, c, y)
    };
    (short, long)
}

/// The filled span of row `y` of a triangle.
pub open spec fn triangle_row(a: UVec2, b: UVec2, c: UVec2, y: int, fill: Color) -> Seq<Dot> {
    let (s, l) = triangle_row_ends(a, b, c, y);
    run_h(if s <= l { s } else { l }, y, (span(s, l) + 1) as nat, fill)
}

/// The filled spans of the first `n` rows of a triangle, top to bottom.
pub open spec fn triangle_rows(a: UVec2, b: UVec2, c: UVec2, n: nat, fill: Color) -> Seq<Dot>
    decreases n,
{
    if n == 0 {
        Seq::empty()
    } else {
        triangle_rows(a, b, c, (n - 1) as nat, fill) + triangle_row(a, b, c, a.y + n - 1, fill)
    }
}

/// The leftmost of three columns.
pub open spec fn min3(a: int, b: int, c: int) -> int {
    if a <= b && a <= c {
        a
    } else if b <= c {
        b
    } else {
        c
    }
}

/// The rightmost of three columns.
pub open spec fn max3(a: int, b: int, c: int) -> int {
    if a >= b && a >= c {
        a
    } else if b >= c {
        b
    } else {
        c
    }
}

/// The writes of a filled triangle. Corners that all lie in one row give
/// a single span in the fill color. Otherwise every row between the
/// topmost and the bottommost corner is filled, and the three sides are
/// drawn over the fill.
pub open spec fn filled_triangle_dots(
    p0: UVec2,
    p1: UVec2,
    p2: UVec2,
    color: Color,
    fill: Color,
) -> Seq<Dot> {
    let (a, b, c) = by_row(p0, p1, p2);
    if a.y == c.y {
        let left = min3(a.x as int, b.x as int, c.x as int);
        let right = max3(a.x as int, b.x as int, c.x as int);
        run_h(left, a.y as int, (right - left + 1) as nat, fill)
    } else {
        triangle_rows(a, b, c, (c.y - a.y + 1) as nat, fill) + triangle_dots(a, b, c, color)
    }
}

/// The first `n` dots of row `j` of a raster whose dot in column `i` of
/// row `j` is `cell(i, j)`.
pub open spec fn raster_row(cell: spec_fn(int, int) -> Dot, j: int, n: nat) -> Seq<Dot> {
    Seq::new(n, |i: int| cell(i, j))
}

/// The dots of a raster of `rows` rows of `cols` dots, row after row.
pub open spec fn raster(cell: spec_fn(int, int) -> Dot, rows: nat, cols: nat) -> Seq<Dot>
    decreases rows,
{
    if rows == 0 {
        Seq::empty()
    } else {
        raster(cell, (rows - 1) as nat, cols) + raster_row(cell, rows - 1, cols)
    }
}

/// How much of an extent that starts at `origin` lies below `limit`.
pub open spec fn clip(origin: int, extent: int, limit: int) -> int {
    if origin + extent > limit {
        limit - origin
    } else {
        extent
    }
}

/// Bit `i` of a packed bitmap, counted from the most significant bit of
/// its first byte. Bits past the end of the bitmap are unset.
pub open spec fn source_bit(bitmap: Seq<u8>, i: int) -> bool {
    0 <= i / 8 < bitmap.len() && bit_at(bitmap, i)
}

/// The write for column `i` of row `j` of a bitmap `w` pixels wide that is
/// stamped at `(x, y)`: `color` where the bit is set, nothing where it is not.
pub open spec fn bitmap_cell(x: int, y: int, w: int, bitmap: Seq<u8>, color: Color) -> spec_fn(
    int,
    int,
) -> Dot {
    |i: int, j: int|
        Dot {
            x: x + i,
            y: y + j,
            color: if source_bit(bitmap, j * w + i) {
                color
            } else {
                no_color()
            },
        }
}

/// The writes of a bitmap of `size` pixels stamped at `p` on a canvas:
/// the part of it that lies on the canvas, row after row.
pub open spec fn bitmap_dots(
    v: CanvasView,
    p: UVec2,
    size: UVec2,
    bitmap: Seq<u8>,
    color: Color,
) -> Seq<Dot> {
    raster(
        bitmap_cell(p.x as int, p.y as int, size.x as int, bitmap, color),
        clip(p.y as int, size.y as int, v.height as int) as nat,
        clip(p.x as int, size.x as int, v.width as int) as nat,
    )
}

/// The write that copies the pixel `(sx + i, sy + j)` of `source` to
/// `(x + i, y + j)`: white for a lit pixel, black for a dark one.
pub open spec fn copy_cell(x: int, y: int, source: CanvasView, sx: int, sy: int) -> spec_fn(
    int,
    int,
) -> Dot {
    |i: int, j: int|
        Dot {
            x: x + i,
            y: y + j,
            color: if source.pixel(sx + i, sy + j) {
                Color::spec_white()
            } else {
                Color::spec_black()
            },
        }
}

/// How many pixels along one axis a copy transfers: as many as asked for,
/// or all of the source if zero or more than it has were asked for, but no
/// more than the source holds from `src` on and the target from `dest` on.
pub open spec fn copy_extent(asked: int, source: int, src: int, target: int, dest: int) -> int {
    let wanted = if 0 < asked <= source {
        asked
    } else {
        source
    };
    let available = if source - src < target - dest {
        source - src
    } else {
        target - dest
    };
    if wanted < available {
        wanted
    } else {
        available
    }
}

/// The writes that copy a region of `source`, starting at `src`, to `dest`
/// on the canvas `v`.
pub open spec fn copy_dots(
    v: CanvasView,
    source: CanvasView,
    dest: UVec2,
    src: UVec2,
    size: UVec2,
) -> Seq<Dot> {
    raster(
        copy_cell(dest.x as int, dest.y as int, source, src.x as int, src.y as int),
        copy_extent(
            size.y as int,
            source.height as int,
            src.y as int,
            v.height as int,
            dest.y as int,
        ) as nat,
        copy_extent(
            size.x as int,
            source.width as int,
            src.x as int,
            v.width as int,
            dest.x as int,
        ) as nat,
    )
}

/// The writes of one character stamped at `p`: those of its glyph's
/// bitmap, or none if the font has no glyph for it.
pub open spec fn character_dots(
    v: CanvasView,
    p: UVec2,
    character: char,
    font: Font,
    color: Color,
) -> Seq<Dot> {
    match font.glyph_index(character) {
        Some(at) => bitmap_dots(v, p, font.glyphs[at].size, font.glyphs[at].bitmap@, color),
        None => Seq::empty(),
    }
}

/// Whether a line of `n` characters that starts at `p` can be drawn: `p`
/// lies on the canvas, and the last character, which stands `n - 1`
/// advances to the right of `p`, still starts on the canvas and ends at
/// or before its right edge.
pub open spec fn text_fits(v: CanvasView, p: UVec2, n: int, cell: int, advance: int) -> bool {
    &&& v.contains(p.x as int, p.y as int)
    &&& n > 0 ==> p.x + (n - 1) * advance < v.width && p.x + (n - 1) * advance + cell <= v.width
}

/// The writes of a line of text that starts at `p`: its characters one
/// after the other, each `advance` pixels to the right of the one before.
pub open spec fn text_dots(
    v: CanvasView,
    p: UVec2,
    text: Seq<char>,
    font: Font,
    color: Color,
    advance: int,
) -> Seq<Dot>
    decreases text.len(),
{
    if text.len() == 0 {
        Seq::empty()
    } else {
        text_dots(v, p, text.drop_last(), font, color, advance) + character_dots(
            v,
            UVec2 { x: (p.x + (text.len() - 1) * advance) as u32, y: p.y },
            text.last(),
            font,
            color,
        )
    }
}

/// A color that draws nothing.
pub open spec fn no_color() -> Color {
    Color { r: 0, g: 0, b: 0, m: 0, blend_mode: BlendMode::Transparent }
}

/// The offsets from the centre that a circle of radius `r` scans for the
/// given part: leftmost and rightmost column, topmost and bottommost row.
pub open spec fn circle_span(kind: CircleType, r: int) -> (int, int, int, int) {
    match kind {
        CircleType::Full => (-r, r, -r, r),
        CircleType::SemiLeft => (-r, 0, -r, r),
        CircleType::SemiTop => (-r, r, -r, 0),
        CircleType::SemiRight => (0, r, -r, r),
        CircleType::SemiBottom => (-r, r, 0, r),
        CircleType::QuarterTopLeft => (-r, 0, -r, 0),
        CircleType::QuarterTopRight => (0, r, -r, 0),
        CircleType::QuarterBottomRight => (0, r, 0, r),
        CircleType::QuarterBottomLeft => (-r, 0, 0, r),
    }
}

/// Whether the offset `(dx, dy)` lies on the outline of a circle of radius
/// `r`: its squared distance from the centre differs from `r * r` by less
/// than `r`.
pub open spec fn on_outline(r: int, dx: int, dy: int) -> bool {
    let d2 = dx * dx + dy * dy;
    let r2 = r * r;
    if r2 >= d2 {
        r2 - d2 < r
    } else {
        d2 - r2 < r
    }
}

/// Whether the offset `(dx, dy)` lies strictly inside a circle of radius `r`.
pub open spec fn inside(r: int, dx: int, dy: int) -> bool {
    dx * dx + dy * dy < r * r
}

/// The write for one scanned offset of a circle centred at `(cx, cy)`:
/// `color` on the outline, `fill` inside it, nothing elsewhere.
pub open spec fn circle_dot(
    cx: int,
    cy: int,
    r: int,
    dx: int,
    dy: int,
    color: Color,
    fill: Color,
) -> Dot {
    Dot {
        x: cx + dx,
        y: cy + dy,
        color: if on_outline(r, dx, dy) {
            color
        } else if inside(r, dx, dy) {
            fill
        } else {
            no_color()
        },
    }
}

/// The writes for the first `n` rows of the scanned column at offset `dx`,
/// from row offset `y0` downwards.
pub open spec fn circle_column(
    cx: int,
    cy: int,
    r: int,
    dx: int,
    y0: int,
    n: nat,
    color: Color,
    fill: Color,
) -> Seq<Dot> {
    Seq::new(n, |j: int| circle_dot(cx, cy, r, dx, y0 + j, color, fill))
}

/// The writes for the first `cols` scanned columns, left to right from
/// column offset `x0`, each with `rows` rows from row offset `y0`.
pub open spec fn circle_columns(
    cx: int,
    cy: int,
    r: int,
    x0: int,
    cols: nat,
    y0: int,
    rows: nat,
    color: Color,
    fill: Color,
) -> Seq<Dot>
    decreases cols,
{
    if cols == 0 {
        Seq::empty()
    } else {
        circle_columns(cx, cy, r, x0, (cols - 1) as nat, y0, rows, color, fill) + circle_column(
            cx,
            cy,
            r,
            x0 + cols - 1,
            y0,
            rows,
            color,
            fill,
        )
    }
}

/// The writes of a circle, or of the part of it that `kind` selects. A
/// circle of radius zero has none.
pub open spec fn circle_dots(
    cx: int,
    cy: int,
    r: int,
    kind: CircleType,
    color: Color,
    fill: Color,
) -> Seq<Dot> {
    if r <= 0 {
        Seq::empty()
    } else {
        let (x0, x1, y0, y1) = circle_span(kind, r);
        circle_columns(cx, cy, r, x0, (x1 - x0 + 1) as nat, y0, (y1 - y0 + 1) as nat, color, fill)
    }
}

/// Whether the selected part of a circle lies inside the canvas: the
/// centre, and for a positive radius the whole scanned square.
pub open spec fn circle_fits(v: CanvasView, cx: int, cy: int, r: int, kind: CircleType) -> bool {
    let (x0, x1, y0, y1) = circle_span(kind, r);
    &&& v.contains(cx, cy)
    &&& r > 0 ==> v.contains(cx + x0, cy + y0) && v.contains(cx + x1, cy + y1)
}

/// The corner radius that is used for a rounded rectangle of `w` by `h`
/// pixels when `r` is asked for: at most half the shorter side.
pub open spec fn corner_radius(w: int, h: int, r: int) -> int {
    let shortest = if w <= h { w } else { h };
    if 2 * r > shortest {
        shortest / 2
    } else {
        r
    }
}

/// The four straight edges of a rounded rectangle, each shortened by the
/// corner radius at both ends: top, bottom, left, right.
pub open spec fn rounded_sides(x: int, y: int, w: int, h: int, r: int, color: Color) -> Seq<Dot> {
    run_h(x + r, y, (w - 2 * r) as nat, color) + run_h(x + r, y + h - 1, (w - 2 * r) as nat, color)
        + run_v(x, y + r, (h - 2 * r) as nat, color) + run_v(
        x + w - 1,
        y + r,
        (h - 2 * r) as nat,
        color,
    )
}

/// The four quarter circles at the corners of a rounded rectangle: top
/// left, top right, bottom right, bottom left.
pub open spec fn rounded_corners(
    x: int,
    y: int,
    w: int,
    h: int,
    r: int,
    color: Color,
    fill: Color,
) -> Seq<Dot> {
    circle_dots(x + r, y + r, r, CircleType::QuarterTopLeft, color, fill) + circle_dots(
        x + w - r - 1,
        y + r,
        r,
        CircleType::QuarterTopRight,
        color,
        fill,
    ) + circle_dots(x + w - r - 1, y + h - r - 1, r, CircleType::QuarterBottomRight, color, fill)
        + circle_dots(x + r, y + h - r - 1, r, CircleType::QuarterBottomLeft, color, fill)
}

/// The straight edges and the four corner arcs of a rounded rectangle.
pub open spec fn rounded_frame(
    x: int,
    y: int,
    w: int,
    h: int,
    r: int,
    color: Color,
    fill: Color,
) -> Seq<Dot> {
    rounded_sides(x, y, w, h, r, color) + rounded_corners(x, y, w, h, r, color, fill)
}

/// Whether a rounded rectangle of `w` by `h` pixels at `(x, y)` with corner
/// radius `r` can be drawn: no side is empty, the corners do not overlap,
/// and the rectangle lies inside the canvas.
pub open spec fn rounded_fits(v: CanvasView, x: int, y: int, w: int, h: int, r: int) -> bool {
    &&& w > 0
    &&& h > 0
    &&& 2 * r <= w
    &&& 2 * r <= h
    &&& box_fits(v, x, y, w, h)
}

/// The three filled rectangles between the corners of a rounded rectangle:
/// the band between the top corners, the middle, and the band between the
/// bottom corners.
pub open spec fn rounded_interior(x: int, y: int, w: int, h: int, r: int, fill: Color) -> Seq<Dot> {
    rectangle_dots(x + r, y + 1, (w - 2 * r) as nat, r as nat, fill, fill) + rectangle_dots(
        x + 1,
        y + r,
        (w - 2) as nat,
        (h - 2 * r) as nat,
        fill,
        fill,
    ) + rectangle_dots(x + r, y + h - r - 1, (w - 2 * r) as nat, r as nat, fill, fill)
}

/// The writes of a rounded rectangle of `w` by `h` pixels at `(x, y)` with
/// corners of radius `r`, which is first cut down to `corner_radius`.
pub open spec fn rounded_dots(
    x: int,
    y: int,
    w: int,
    h: int,
    r: int,
    color: Color,
    fill: Color,
) -> Seq<Dot> {
    let r = corner_radius(w, h, r);
    if w <= 0 || h <= 0 {
        Seq::empty()
    } else if fill.blend_mode == BlendMode::Transparent || w <= 2 || h <= 2 {
        rounded_frame(x, y, w, h, r, color, fill)
    } else {
        rounded_frame(x, y, w, h, r, color, fill) + rounded_interior(x, y, w, h, r, fill)
    }
}

/// Whether the box of `w` by `h` pixels at `(x, y)` lies inside the canvas.
/// A box with an empty side only needs its corner `(x, y)` inside.
pub open spec fn box_fits(v: CanvasView, x: int, y: int, w: int, h: int) -> bool {
    &&& v.contains(x, y)
    &&& (w > 0 && h > 0) ==> x + w <= v.width && y + h <= v.height
}

/// Painting keeps the width and height of the canvas.
pub proof fn lemma_paint_geometry(v: CanvasView, dots: Seq<Dot>)
    ensures
        v.paint(dots).width == v.width,
        v.paint(dots).height == v.height,
    decreases dots.len(),
{
    if dots.len() > 0 {
        lemma_paint_geometry(v, dots.drop_last());
    }
}

/// Painting a well-formed canvas gives a well-formed canvas with as many chunks.
pub proof fn lemma_paint_wf(v: CanvasView, dots: Seq<Dot>)
    requires
        v.wf(),
    ensures
        v.paint(dots).wf(),
        v.paint(dots).dirty.len() == v.dirty.len(),
    decreases dots.len(),
{
    if dots.len() > 0 {
        lemma_paint_wf(v, dots.drop_last());
        let d = dots.last();
        lemma_plot_wf(v.paint(dots.drop_last()), d.x, d.y, d.color);
    }
}

/// Painting one more dot is a plot on top of what was painted before.
pub proof fn lemma_paint_push(v: CanvasView, dots: Seq<Dot>, d: Dot)
    ensures
        v.paint(dots.push(d)) == v.paint(dots).plot(d.x, d.y, d.color),
{
    assert(dots.push(d).drop_last() =~= dots);
}

/// Painting two sequences one after the other is painting their concatenation.
pub proof fn lemma_paint_concat(v: CanvasView, a: Seq<Dot>, b: Seq<Dot>)
    ensures
        v.paint(a + b) == v.paint(a).paint(b),
    decreases b.len(),
{
    if b.len() == 0 {
        assert(a + b =~= a);
    } else {
        lemma_paint_concat(v, a, b.drop_last());
        assert((a + b).drop_last() =~= a + b.drop_last());
        assert((a + b).last() == b.last());
    }
}

/// A count of steps along the shorter axis that keeps the error of a line
/// within one step of the longer axis is the rounded quotient, and never
/// more than the length of the shorter axis.
pub proof fn lemma_minor_offset(major: int, minor: int, k: int, c: int, rest: int)
    requires
        0 < major,
        0 <= minor <= major,
        0 <= k <= major,
        0 <= rest < 2 * major,
        2 * (k * minor) + major == 2 * (major * c) + rest,
    ensures
        c == minor_offset(major, minor, k),
        0 <= c <= minor,
{
    assert(2 * k * minor + major == c * (2 * major) + rest) by (nonlinear_arith)
        requires
            2 * (k * minor) + major == 2 * (major * c) + rest,
    ;
    lemma_fundamental_div_mod_converse(2 * k * minor + major, 2 * major, c, rest);
    assert(c <= minor) by (nonlinear_arith)
        requires
            0 < major,
            0 <= minor <= major,
            0 <= k <= major,
            0 <= rest,
            2 * (k * minor) + major == 2 * (major * c) + rest,
    ;
    assert(c >= 0) by (nonlinear_arith)
        requires
            0 < major,
            0 <= minor,
            0 <= k,
            rest < 2 * major,
            2 * (k * minor) + major == 2 * (major * c) + rest,
    ;
}

/// An edge crosses every row between its end points at a column between
/// the columns of its end points.
pub proof fn lemma_edge_between(d: int, t: int, h: int)
    requires
        0 <= d,
        0 <= t <= h,
        0 < h,
    ensures
        0 <= (d * t) / h <= d,
        0 <= d * t <= d * h,
{
    assert(0 <= d * t <= d * h) by (nonlinear_arith)
        requires
            0 <= d,
            0 <= t <= h,
    ;
    lemma_div_is_ordered(d * t, d * h, h);
    lemma_div_multiples_vanish(d, h);
    assert(d * h == h * d) by (nonlinear_arith);
    lemma_div_pos_is_pos(d * t, h);
}

/// Every dot of a block has the block's color.
pub proof fn lemma_block_color(x: int, y: int, w: nat, h: nat, color: Color)
    ensures
        forall|k: int| 0 <= k < block(x, y, w, h, color).len() ==> (#[trigger] block(
            x,
            y,
            w,
            h,
            color,
        )[k]).color == color,
    decreases h,
{
    if h > 0 {
        lemma_block_color(x, y, w, (h - 1) as nat, color);
    }
}

/// Dots of a transparent color change nothing.
pub proof fn lemma_paint_transparent(v: CanvasView, dots: Seq<Dot>)
    requires
        forall|k: int| 0 <= k < dots.len() ==> (#[trigger] dots[k]).color.blend_mode
            == BlendMode::Transparent,
    ensures
        v.paint(dots) == v,
    decreases dots.len(),
{
    if dots.len() > 0 {
        lemma_paint_transparent(v, dots.drop_last());
    }
}

} // verus!
