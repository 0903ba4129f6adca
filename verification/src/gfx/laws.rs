//! Laws that hold of every canvas, stated over its model.

use vstd::prelude::*;
use vstd::arithmetic::div_mod::{lemma_fundamental_div_mod, lemma_mod_bound};
use super::canvas::CircleType;
use super::font::Font;
use super::color::{BlendMode, Color};
use super::model::{lemma_chunk_in_range, lemma_index_in_range, CanvasView, Dot};
use super::shapes::{
    bitmap_dots, block, box_fits, by_row, character_dots, circle_column, circle_columns,
    circle_dots, circle_fits, circle_span, clip, copy_dots, copy_extent, corner_radius, edge_x,
    filled_triangle_dots, frame, lemma_edge_between, lemma_minor_offset, lemma_paint_geometry,
    lemma_paint_wf, line_dot, line_dots, minor_offset, outside_of2, outside_of3, raster, raster_row,
    rectangle_dots, rounded_corners, rounded_dots, rounded_fits, rounded_frame, rounded_interior,
    rounded_sides, run_h, run_v, span, text_dots, text_fits, triangle_dots, triangle_row,
    triangle_row_ends, triangle_rows,
};
use super::vec::UVec2;

verus! {

/// Round trip: a pixel that was written with a color that is not
/// transparent reads back lit exactly if that color is lit, as white or
/// as black.
pub proof fn lemma_set_then_get(v: CanvasView, p: UVec2, color: Color)
    requires
        v.wf(),
        v.contains(p.x as int, p.y as int),
        color.blend_mode != BlendMode::Transparent,
    ensures
        v.plot(p.x as int, p.y as int, color).pixel(p.x as int, p.y as int)
            == color.spec_is_active(),
        v.plot(p.x as int, p.y as int, color).read(p) == Ok::<Color, super::error::Error>(
            if color.spec_is_active() {
                Color::spec_white()
            } else {
                Color::spec_black()
            },
        ),
        v.plot(p.x as int, p.y as int, color).read(p)->Ok_0.spec_is_active()
            == color.spec_is_active(),
{
    lemma_index_in_range(v.width as int, v.height as int, p.x as int, p.y as int);
}

/// A write leaves every other pixel as it was.
pub proof fn lemma_set_keeps_others(v: CanvasView, x: int, y: int, color: Color, ox: int, oy: int)
    requires
        v.wf(),
        v.contains(ox, oy),
        ox != x || oy != y,
    ensures
        v.plot(x, y, color).pixel(ox, oy) == v.pixel(ox, oy),
{
    if v.flips(x, y, color) {
        lemma_index_in_range(v.width as int, v.height as int, x, y);
        lemma_index_in_range(v.width as int, v.height as int, ox, oy);
        assert(y * v.width + x != oy * v.width + ox) by (nonlinear_arith)
            requires
                0 <= x < v.width,
                0 <= ox < v.width,
                ox != x || oy != y,
        ;
    }
}

/// Idempotence: writing the same color to the same pixel a second time
/// changes nothing. In particular the second write marks no chunk dirty,
/// also when all flags were cleared after the first.
pub proof fn lemma_set_twice(v: CanvasView, x: int, y: int, color: Color)
    requires
        v.wf(),
    ensures
        v.plot(x, y, color).plot(x, y, color) == v.plot(x, y, color),
        v.plot(x, y, color).all_clean().plot(x, y, color) == v.plot(x, y, color).all_clean(),
        forall|c: int|
            v.plot(x, y, color).clean_chunk(c).plot(x, y, color) == v.plot(x, y, color).clean_chunk(
                c,
            ),
{
    if v.contains(x, y) {
        lemma_index_in_range(v.width as int, v.height as int, x, y);
    }
    let once = v.plot(x, y, color);
    assert(!once.flips(x, y, color));
    assert(!once.all_clean().flips(x, y, color));
    assert forall|c: int| once.clean_chunk(c).plot(x, y, color) == once.clean_chunk(c) by {
        assert(!once.clean_chunk(c).flips(x, y, color));
    }
}

/// A write marks a chunk dirty only if it changes a pixel, and then it is
/// the chunk of that pixel's row and no other.
pub proof fn lemma_set_dirties_own_chunk(v: CanvasView, x: int, y: int, color: Color, c: int)
    requires
        v.wf(),
        0 <= c < v.dirty.len(),
    ensures
        v.plot(x, y, color).dirty[c] == (v.dirty[c] || (v.flips(x, y, color) && c == v.chunk_of(
            y,
        ))),
{
    if v.flips(x, y, color) {
        lemma_chunk_in_range(v.height as int, v.dirty.len() as int, y);
    }
}

/// Bounds: a shape whose given point lies outside the canvas never fits,
/// whatever its extent, so every primitive that is handed such a point
/// fails and leaves the canvas as it was.
pub proof fn lemma_outside_never_fits(v: CanvasView, p: UVec2, q: UVec2, s: UVec2)
    requires
        p.x >= v.width || p.y >= v.height,
    ensures
        !v.contains(p.x as int, p.y as int),
        v.read(p) == Err::<Color, super::error::Error>(v.fault(p)),
        forall|w: int, h: int| !box_fits(v, p.x as int, p.y as int, w, h),
        forall|r: int, kind: CircleType| !circle_fits(v, p.x as int, p.y as int, r, kind),
        forall|w: int, h: int, r: int| !rounded_fits(v, p.x as int, p.y as int, w, h, r),
        outside_of2(v, p, q) == Some(p),
        outside_of2(v, q, p) is Some,
        outside_of3(v, p, q, s) == Some(p),
        outside_of3(v, q, p, s) is Some,
        outside_of3(v, q, s, p) is Some,
{
}

/// Whether one of the dots lies at `(x, y)`.
pub open spec fn hits(dots: Seq<Dot>, x: int, y: int) -> bool {
    exists|k: int| 0 <= k < dots.len() && (#[trigger] dots[k]).x == x && dots[k].y == y
}

/// Whether every dot lies on the canvas.
pub open spec fn all_inside(v: CanvasView, dots: Seq<Dot>) -> bool {
    forall|k: int| 0 <= k < dots.len() ==> v.contains((#[trigger] dots[k]).x, dots[k].y)
}

/// Painting leaves every pixel that no dot lies on as it was.
pub proof fn lemma_paint_keeps_untouched(v: CanvasView, dots: Seq<Dot>, x: int, y: int)
    requires
        v.wf(),
        v.contains(x, y),
        !hits(dots, x, y),
    ensures
        v.paint(dots).pixel(x, y) == v.pixel(x, y),
    decreases dots.len(),
{
    if dots.len() > 0 {
        let d = dots.last();
        let rest = dots.drop_last();
        assert forall|k: int| 0 <= k < rest.len() implies !((#[trigger] rest[k]).x == x && rest[k].y
            == y) by {
            assert(dots[k] == rest[k]);
        }
        lemma_paint_keeps_untouched(v, rest, x, y);
        lemma_paint_wf(v, rest);
        lemma_paint_geometry(v, rest);
        assert(dots[dots.len() - 1] == d);
        lemma_set_keeps_others(v.paint(rest), d.x, d.y, d.color, x, y);
    }
}

/// After painting dots that all have one color, and that color is not
/// transparent, every pixel that a dot lies on shows that color.
pub proof fn lemma_paint_shows_color(v: CanvasView, dots: Seq<Dot>, color: Color, x: int, y: int)
    requires
        v.wf(),
        v.contains(x, y),
        hits(dots, x, y),
        color.blend_mode != BlendMode::Transparent,
        forall|k: int| 0 <= k < dots.len() ==> (#[trigger] dots[k]).color == color,
    ensures
        v.paint(dots).pixel(x, y) == color.spec_is_active(),
    decreases dots.len(),
{
    let d = dots.last();
    let rest = dots.drop_last();
    let k = choose|k: int| 0 <= k < dots.len() && (#[trigger] dots[k]).x == x && dots[k].y == y;
    lemma_paint_wf(v, rest);
    lemma_paint_geometry(v, rest);
    assert(dots[dots.len() - 1] == d);
    assert forall|j: int| 0 <= j < rest.len() implies (#[trigger] rest[j]).color == color by {
        assert(dots[j] == rest[j]);
    }
    if d.x == x && d.y == y {
        lemma_index_in_range(v.width as int, v.height as int, x, y);
    } else {
        assert(k < rest.len());
        assert(rest[k] == dots[k]);
        lemma_paint_shows_color(v, rest, color, x, y);
        lemma_set_keeps_others(v.paint(rest), d.x, d.y, d.color, x, y);
    }
}

/// Painting never clears a dirty flag.
pub proof fn lemma_paint_keeps_dirty(v: CanvasView, dots: Seq<Dot>, c: int)
    requires
        v.wf(),
        0 <= c < v.dirty.len(),
        v.dirty[c],
    ensures
        v.paint(dots).dirty[c],
    decreases dots.len(),
{
    if dots.len() > 0 {
        let d = dots.last();
        lemma_paint_keeps_dirty(v, dots.drop_last(), c);
        lemma_paint_wf(v, dots.drop_last());
        lemma_set_dirties_own_chunk(v.paint(dots.drop_last()), d.x, d.y, d.color, c);
    }
}

/// Dirty tracking is sound: a chunk that is still clean after painting
/// holds the pixels it held before. Whatever painting has changed lies in
/// chunks that are now dirty.
pub proof fn lemma_clean_chunk_is_unchanged(v: CanvasView, dots: Seq<Dot>, x: int, y: int)
    requires
        v.wf(),
        v.contains(x, y),
        !v.paint(dots).dirty[v.chunk_of(y)],
    ensures
        v.paint(dots).pixel(x, y) == v.pixel(x, y),
    decreases dots.len(),
{
    if dots.len() > 0 {
        let d = dots.last();
        let rest = dots.drop_last();
        let before = v.paint(rest);
        lemma_paint_wf(v, rest);
        lemma_paint_geometry(v, rest);
        lemma_chunk_in_range(v.height as int, v.dirty.len() as int, y);
        lemma_set_dirties_own_chunk(before, d.x, d.y, d.color, v.chunk_of(y));
        lemma_clean_chunk_is_unchanged(v, rest, x, y);
        if d.x != x || d.y != y {
            lemma_set_keeps_others(before, d.x, d.y, d.color, x, y);
        }
    }
}

/// Painting that changes no pixel's state along the way changes nothing
/// at all: dots that only repeat what the canvas shows leave every dirty
/// flag as it was.
pub proof fn lemma_paint_same_again(v: CanvasView, dots: Seq<Dot>)
    requires
        v.wf(),
        forall|k: int|
            0 <= k < dots.len() ==> !v.flips(
                (#[trigger] dots[k]).x,
                dots[k].y,
                dots[k].color,
            ),
    ensures
        v.paint(dots) == v,
    decreases dots.len(),
{
    if dots.len() > 0 {
        let rest = dots.drop_last();
        assert forall|k: int| 0 <= k < rest.len() implies !v.flips(
            (#[trigger] rest[k]).x,
            rest[k].y,
            rest[k].color,
        ) by {
            assert(dots[k] == rest[k]);
        }
        lemma_paint_same_again(v, rest);
        assert(dots[dots.len() - 1] == dots.last());
    }
}

/// Two sequences of dots that lie on the canvas still do when joined.
pub proof fn lemma_all_inside_concat(v: CanvasView, a: Seq<Dot>, b: Seq<Dot>)
    requires
        all_inside(v, a),
        all_inside(v, b),
    ensures
        all_inside(v, a + b),
{
    assert forall|k: int| 0 <= k < (a + b).len() implies v.contains(
        (#[trigger] (a + b)[k]).x,
        (a + b)[k].y,
    ) by {
        if k < a.len() {
            assert((a + b)[k] == a[k]);
        } else {
            assert((a + b)[k] == b[k - a.len()]);
        }
    }
}

/// A run that fits on the canvas lies on it.
pub proof fn lemma_runs_inside(v: CanvasView, x: int, y: int, n: nat, color: Color)
    requires
        0 <= x,
        0 <= y,
    ensures
        x + n <= v.width && y < v.height ==> all_inside(v, run_h(x, y, n, color)),
        y + n <= v.height && x < v.width ==> all_inside(v, run_v(x, y, n, color)),
{
}

/// A block that fits on the canvas lies on it.
pub proof fn lemma_block_inside(v: CanvasView, x: int, y: int, w: nat, h: nat, color: Color)
    requires
        0 <= x,
        0 <= y,
        x + w <= v.width,
        y + h <= v.height,
    ensures
        all_inside(v, block(x, y, w, h, color)),
    decreases h,
{
    if h > 0 {
        lemma_block_inside(v, x, y, w, (h - 1) as nat, color);
        lemma_runs_inside(v, x, y + h - 1, w, color);
        lemma_all_inside_concat(
            v,
            block(x, y, w, (h - 1) as nat, color),
            run_h(x, y + h - 1, w, color),
        );
    }
}

/// A rectangle that fits on the canvas lies on it: where drawing it
/// succeeds, every one of its writes has landed.
pub proof fn lemma_rectangle_inside(
    v: CanvasView,
    x: int,
    y: int,
    w: nat,
    h: nat,
    color: Color,
    fill: Color,
)
    requires
        box_fits(v, x, y, w as int, h as int),
    ensures
        all_inside(v, rectangle_dots(x, y, w, h, color, fill)),
{
    if w > 0 && h > 0 {
        let top = run_h(x, y, w, color);
        let bottom = run_h(x, y + h - 1, w, color);
        let left = run_v(x, y, h, color);
        let right = run_v(x + w - 1, y, h, color);
        lemma_runs_inside(v, x, y, w, color);
        lemma_runs_inside(v, x, y + h - 1, w, color);
        lemma_runs_inside(v, x, y, h, color);
        lemma_runs_inside(v, x + w - 1, y, h, color);
        lemma_all_inside_concat(v, top, bottom);
        lemma_all_inside_concat(v, top + bottom, left);
        lemma_all_inside_concat(v, top + bottom + left, right);
        if w > 2 && h > 2 {
            lemma_block_inside(v, x + 1, y + 1, (w - 2) as nat, (h - 2) as nat, fill);
            lemma_all_inside_concat(
                v,
                frame(x, y, w, h, color),
                block(x + 1, y + 1, (w - 2) as nat, (h - 2) as nat, fill),
            );
        }
    }
}

/// The scanned columns of a circle lie on the canvas if the corners of
/// the scanned area do.
proof fn lemma_columns_inside(
    v: CanvasView,
    cx: int,
    cy: int,
    r: int,
    x0: int,
    cols: nat,
    y0: int,
    rows: nat,
    color: Color,
    fill: Color,
)
    requires
        0 <= cx + x0,
        0 <= cy + y0,
        cx + x0 + cols <= v.width,
        cy + y0 + rows <= v.height,
    ensures
        all_inside(v, circle_columns(cx, cy, r, x0, cols, y0, rows, color, fill)),
    decreases cols,
{
    if cols > 0 {
        lemma_columns_inside(v, cx, cy, r, x0, (cols - 1) as nat, y0, rows, color, fill);
        lemma_all_inside_concat(
            v,
            circle_columns(cx, cy, r, x0, (cols - 1) as nat, y0, rows, color, fill),
            circle_column(cx, cy, r, x0 + cols - 1, y0, rows, color, fill),
        );
    }
}

/// A circle, or a part of one, that fits on the canvas lies on it.
pub proof fn lemma_circle_inside(
    v: CanvasView,
    cx: int,
    cy: int,
    r: int,
    kind: CircleType,
    color: Color,
    fill: Color,
)
    requires
        circle_fits(v, cx, cy, r, kind),
    ensures
        all_inside(v, circle_dots(cx, cy, r, kind, color, fill)),
{
    if r > 0 {
        let (x0, x1, y0, y1) = circle_span(kind, r);
        lemma_columns_inside(
            v,
            cx,
            cy,
            r,
            x0,
            (x1 - x0 + 1) as nat,
            y0,
            (y1 - y0 + 1) as nat,
            color,
            fill,
        );
    }
}

/// A rounded rectangle that fits on the canvas lies on it.
pub proof fn lemma_rounded_inside(
    v: CanvasView,
    x: int,
    y: int,
    w: int,
    h: int,
    r: int,
    color: Color,
    fill: Color,
)
    requires
        0 <= w,
        0 <= h,
        0 <= r,
        box_fits(v, x, y, w, h),
    ensures
        all_inside(v, rounded_dots(x, y, w, h, r, color, fill)),
{
    if w > 0 && h > 0 {
        let c = corner_radius(w, h, r);
        let s0 = run_h(x + c, y, (w - 2 * c) as nat, color);
        let s1 = run_h(x + c, y + h - 1, (w - 2 * c) as nat, color);
        let s2 = run_v(x, y + c, (h - 2 * c) as nat, color);
        let s3 = run_v(x + w - 1, y + c, (h - 2 * c) as nat, color);
        lemma_runs_inside(v, x + c, y, (w - 2 * c) as nat, color);
        lemma_runs_inside(v, x + c, y + h - 1, (w - 2 * c) as nat, color);
        lemma_runs_inside(v, x, y + c, (h - 2 * c) as nat, color);
        lemma_runs_inside(v, x + w - 1, y + c, (h - 2 * c) as nat, color);
        lemma_all_inside_concat(v, s0, s1);
        lemma_all_inside_concat(v, s0 + s1, s2);
        lemma_all_inside_concat(v, s0 + s1 + s2, s3);
        let a0 = circle_dots(x + c, y + c, c, CircleType::QuarterTopLeft, color, fill);
        let a1 = circle_dots(x + w - c - 1, y + c, c, CircleType::QuarterTopRight, color, fill);
        let a2 = circle_dots(
            x + w - c - 1,
            y + h - c - 1,
            c,
            CircleType::QuarterBottomRight,
            color,
            fill,
        );
        let a3 = circle_dots(x + c, y + h - c - 1, c, CircleType::QuarterBottomLeft, color, fill);
        lemma_circle_inside(v, x + c, y + c, c, CircleType::QuarterTopLeft, color, fill);
        lemma_circle_inside(v, x + w - c - 1, y + c, c, CircleType::QuarterTopRight, color, fill);
        lemma_circle_inside(
            v,
            x + w - c - 1,
            y + h - c - 1,
            c,
            CircleType::QuarterBottomRight,
            color,
            fill,
        );
        lemma_circle_inside(v, x + c, y + h - c - 1, c, CircleType::QuarterBottomLeft, color, fill);
        lemma_all_inside_concat(v, a0, a1);
        lemma_all_inside_concat(v, a0 + a1, a2);
        lemma_all_inside_concat(v, a0 + a1 + a2, a3);
        lemma_all_inside_concat(
            v,
            rounded_sides(x, y, w, h, c, color),
            rounded_corners(x, y, w, h, c, color, fill),
        );
        if fill.blend_mode != BlendMode::Transparent && w > 2 && h > 2 {
            let f0 = rectangle_dots(x + c, y + 1, (w - 2 * c) as nat, c as nat, fill, fill);
            let f1 = rectangle_dots(x + 1, y + c, (w - 2) as nat, (h - 2 * c) as nat, fill, fill);
            let f2 = rectangle_dots(x + c, y + h - c - 1, (w - 2 * c) as nat, c as nat, fill, fill);
            lemma_rectangle_inside(v, x + c, y + 1, (w - 2 * c) as nat, c as nat, fill, fill);
            lemma_rectangle_inside(v, x + 1, y + c, (w - 2) as nat, (h - 2 * c) as nat, fill, fill);
            lemma_rectangle_inside(
                v,
                x + c,
                y + h - c - 1,
                (w - 2 * c) as nat,
                c as nat,
                fill,
                fill,
            );
            lemma_all_inside_concat(v, f0, f1);
            lemma_all_inside_concat(v, f0 + f1, f2);
            lemma_all_inside_concat(
                v,
                rounded_frame(x, y, w, h, c, color, fill),
                rounded_interior(x, y, w, h, c, fill),
            );
        }
    }
}

/// A line never strays further along its shorter axis than that axis is long.
pub proof fn lemma_minor_offset_bounds(major: int, minor: int, k: int)
    requires
        0 < major,
        0 <= minor <= major,
        0 <= k <= major,
    ensures
        0 <= minor_offset(major, minor, k) <= minor,
{
    let x = 2 * k * minor + major;
    let d = 2 * major;
    lemma_fundamental_div_mod(x, d);
    lemma_mod_bound(x, d);
    let q = x / d;
    let rest = x % d;
    assert(2 * (k * minor) + major == 2 * (major * q) + rest) by (nonlinear_arith)
        requires
            2 * k * minor + major == (2 * major) * q + rest,
    ;
    lemma_minor_offset(major, minor, k, q, rest);
}

/// A line between two points of the canvas lies on the canvas.
pub proof fn lemma_line_inside(v: CanvasView, p: UVec2, q: UVec2, color: Color)
    requires
        outside_of2(v, p, q) is None,
    ensures
        all_inside(v, line_dots(p, q, color)),
{
    let (x0, y0, x1, y1) = (p.x as int, p.y as int, q.x as int, q.y as int);
    let dx = span(x0, x1);
    let dy = span(y0, y1);
    let dots = line_dots(p, q, color);
    assert forall|k: int| 0 <= k < dots.len() implies v.contains(
        (#[trigger] dots[k]).x,
        dots[k].y,
    ) by {
        assert(dots[k] == line_dot(x0, y0, x1, y1, k, color));
        if dy > dx {
            lemma_minor_offset_bounds(dy, dx, k);
        } else {
            lemma_minor_offset_bounds(dx, dy, k);
        }
    }
}

/// A triangle between three points of the canvas lies on the canvas.
pub proof fn lemma_triangle_inside(v: CanvasView, p0: UVec2, p1: UVec2, p2: UVec2, color: Color)
    requires
        outside_of3(v, p0, p1, p2) is None,
    ensures
        all_inside(v, triangle_dots(p0, p1, p2, color)),
{
    lemma_line_inside(v, p0, p1, color);
    lemma_line_inside(v, p1, p2, color);
    lemma_line_inside(v, p2, p0, color);
    lemma_all_inside_concat(v, line_dots(p0, p1, color), line_dots(p1, p2, color));
    lemma_all_inside_concat(
        v,
        line_dots(p0, p1, color) + line_dots(p1, p2, color),
        line_dots(p2, p0, color),
    );
}

/// An edge crosses the rows between its ends between the columns of its ends.
pub proof fn lemma_edge_x_between(p: UVec2, q: UVec2, y: int)
    requires
        p.y <= y <= q.y,
        p.y < q.y,
    ensures
        p.x <= edge_x(p, q, y) <= q.x || q.x <= edge_x(p, q, y) <= p.x,
{
    lemma_edge_between(span(p.x as int, q.x as int), y - p.y, q.y - p.y);
}

/// The filled rows of a triangle between three points of the canvas lie on
/// the canvas.
proof fn lemma_triangle_rows_inside(
    v: CanvasView,
    a: UVec2,
    b: UVec2,
    c: UVec2,
    n: nat,
    fill: Color,
)
    requires
        a.y <= b.y <= c.y,
        a.y < c.y,
        n <= c.y - a.y + 1,
        outside_of3(v, a, b, c) is None,
    ensures
        all_inside(v, triangle_rows(a, b, c, n, fill)),
    decreases n,
{
    if n > 0 {
        let y = a.y + n - 1;
        lemma_triangle_rows_inside(v, a, b, c, (n - 1) as nat, fill);
        lemma_edge_x_between(a, c, y);
        if y < b.y || b.y == c.y {
            lemma_edge_x_between(a, b, y);
        } else {
            lemma_edge_x_between(b, c, y);
        }
        let (s, l) = triangle_row_ends(a, b, c, y);
        lemma_runs_inside(v, if s <= l { s } else { l }, y, (span(s, l) + 1) as nat, fill);
        lemma_all_inside_concat(
            v,
            triangle_rows(a, b, c, (n - 1) as nat, fill),
            triangle_row(a, b, c, y, fill),
        );
    }
}

/// A filled triangle between three points of the canvas lies on the canvas.
pub proof fn lemma_filled_triangle_inside(
    v: CanvasView,
    p0: UVec2,
    p1: UVec2,
    p2: UVec2,
    color: Color,
    fill: Color,
)
    requires
        outside_of3(v, p0, p1, p2) is None,
    ensures
        all_inside(v, filled_triangle_dots(p0, p1, p2, color, fill)),
{
    let (a, b, c) = by_row(p0, p1, p2);
    if a.y != c.y {
        lemma_triangle_rows_inside(v, a, b, c, (c.y - a.y + 1) as nat, fill);
        lemma_triangle_inside(v, a, b, c, color);
        lemma_all_inside_concat(
            v,
            triangle_rows(a, b, c, (c.y - a.y + 1) as nat, fill),
            triangle_dots(a, b, c, color),
        );
    }
}

/// A raster whose cells all lie on the canvas lies on the canvas.
proof fn lemma_raster_inside(v: CanvasView, cell: spec_fn(int, int) -> Dot, rows: nat, cols: nat)
    requires
        forall|i: int, j: int|
            0 <= i < cols && 0 <= j < rows ==> v.contains(
                (#[trigger] cell(i, j)).x,
                cell(i, j).y,
            ),
    ensures
        all_inside(v, raster(cell, rows, cols)),
    decreases rows,
{
    if rows > 0 {
        lemma_raster_inside(v, cell, (rows - 1) as nat, cols);
        let row = raster_row(cell, rows - 1, cols);
        assert forall|k: int| 0 <= k < row.len() implies v.contains(
            (#[trigger] row[k]).x,
            row[k].y,
        ) by {
            assert(row[k] == cell(k, rows - 1));
        }
        lemma_all_inside_concat(v, raster(cell, (rows - 1) as nat, cols), row);
    }
}

/// What is drawn of a bitmap lies on the canvas: the rest is cut off.
pub proof fn lemma_bitmap_inside(
    v: CanvasView,
    p: UVec2,
    size: UVec2,
    bitmap: Seq<u8>,
    color: Color,
)
    requires
        v.contains(p.x as int, p.y as int),
    ensures
        all_inside(v, bitmap_dots(v, p, size, bitmap, color)),
{
    lemma_raster_inside(
        v,
        super::shapes::bitmap_cell(p.x as int, p.y as int, size.x as int, bitmap, color),
        clip(p.y as int, size.y as int, v.height as int) as nat,
        clip(p.x as int, size.x as int, v.width as int) as nat,
    );
}

/// What is copied from another canvas lies on this one and comes from
/// pixels that the other one has.
pub proof fn lemma_copy_inside(
    v: CanvasView,
    source: CanvasView,
    dest: UVec2,
    src: UVec2,
    size: UVec2,
)
    requires
        v.contains(dest.x as int, dest.y as int),
        source.contains(src.x as int, src.y as int),
    ensures
        all_inside(v, copy_dots(v, source, dest, src, size)),
        src.x + copy_extent(
            size.x as int,
            source.width as int,
            src.x as int,
            v.width as int,
            dest.x as int,
        ) <= source.width,
        src.y + copy_extent(
            size.y as int,
            source.height as int,
            src.y as int,
            v.height as int,
            dest.y as int,
        ) <= source.height,
{
    lemma_raster_inside(
        v,
        super::shapes::copy_cell(dest.x as int, dest.y as int, source, src.x as int, src.y as int),
        copy_extent(
            size.y as int,
            source.height as int,
            src.y as int,
            v.height as int,
            dest.y as int,
        ) as nat,
        copy_extent(
            size.x as int,
            source.width as int,
            src.x as int,
            v.width as int,
            dest.x as int,
        ) as nat,
    );
}

/// A line of text that fits on the canvas lies on it.
pub proof fn lemma_text_inside(
    v: CanvasView,
    p: UVec2,
    text: Seq<char>,
    font: Font,
    color: Color,
    advance: int,
)
    requires
        0 <= advance,
        text_fits(v, p, text.len() as int, font.spacing as int, advance),
    ensures
        all_inside(v, text_dots(v, p, text, font, color, advance)),
    decreases text.len(),
{
    if text.len() > 0 {
        let n = text.len() as int;
        assert((n - 2) * advance <= (n - 1) * advance) by (nonlinear_arith)
            requires
                0 <= advance,
        ;
        assert(0 <= (n - 1) * advance) by (nonlinear_arith)
            requires
                0 <= advance,
                1 <= n,
        ;
        lemma_text_inside(v, p, text.drop_last(), font, color, advance);
        let at = UVec2 { x: (p.x + (n - 1) * advance) as u32, y: p.y };
        if font.glyph_index(text.last()) is Some {
            let g = font.glyphs[font.glyph_index(text.last())->Some_0];
            lemma_bitmap_inside(v, at, g.size, g.bitmap@, color);
        }
        lemma_all_inside_concat(
            v,
            text_dots(v, p, text.drop_last(), font, color, advance),
            character_dots(v, at, text.last(), font, color),
        );
    }
}

} // verus!
