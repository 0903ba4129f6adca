use maschine::gfx::{
    BlendMode, Canvas, CircleType, Color, Error, Font, Glyph, MonochromeCanvas, UVec2,
};

fn lit(canvas: &MonochromeCanvas) -> Vec<(u32, u32)> {
    let size = canvas.size();
    let mut lit = Vec::new();
    for y in 0..size.y {
        for x in 0..size.x {
            if canvas.get_pixel(UVec2::new(x, y)).unwrap().is_active() {
                lit.push((x, y));
            }
        }
    }
    lit
}

fn dark(canvas: &MonochromeCanvas) -> Vec<(u32, u32)> {
    let size = canvas.size();
    let mut dark = Vec::new();
    for y in 0..size.y {
        for x in 0..size.x {
            if !canvas.get_pixel(UVec2::new(x, y)).unwrap().is_active() {
                dark.push((x, y));
            }
        }
    }
    dark
}

fn blank(width: u32, height: u32) -> MonochromeCanvas {
    let mut canvas = MonochromeCanvas::new(width, height, 1);
    canvas.clear_dirty();
    canvas
}

fn out_of_bounds(p: UVec2, width: u32, height: u32) -> Result<(), Error> {
    Err(Error::OutOfBounds { p, bounds: UVec2::new(width, height) })
}

fn sorted(mut pixels: Vec<(u32, u32)>) -> Vec<(u32, u32)> {
    pixels.sort_by_key(|p| (p.1, p.0));
    pixels.dedup();
    pixels
}

#[test]
fn horizontal_run() {
    let mut canvas = blank(8, 4);
    assert_eq!(canvas.line_horizontal(UVec2::new(2, 1), 4, Color::white()), Ok(()));
    assert_eq!(lit(&canvas), vec![(2, 1), (3, 1), (4, 1), (5, 1)]);
    assert_eq!(canvas.line_horizontal(UVec2::new(5, 3), 3, Color::white()), Ok(()));
    assert_eq!(lit(&canvas), vec![(2, 1), (3, 1), (4, 1), (5, 1), (5, 3), (6, 3), (7, 3)]);
}

#[test]
fn horizontal_run_that_does_not_fit_draws_nothing() {
    let mut canvas = blank(8, 4);
    let p = UVec2::new(5, 3);
    assert_eq!(canvas.line_horizontal(p, 4, Color::white()), out_of_bounds(p, 8, 4));
    assert!(lit(&canvas).is_empty());
    assert!(!canvas.is_dirty());
    assert_eq!(canvas.line_horizontal(p, u32::MAX, Color::white()), out_of_bounds(p, 8, 4));
    assert_eq!(canvas.line_horizontal(p, 0, Color::white()), Ok(()));
    let q = UVec2::new(8, 0);
    assert_eq!(canvas.line_horizontal(q, 0, Color::white()), out_of_bounds(q, 8, 4));
}

#[test]
fn vertical_run() {
    let mut canvas = blank(4, 8);
    assert_eq!(canvas.line_vertical(UVec2::new(1, 5), 3, Color::white()), Ok(()));
    assert_eq!(lit(&canvas), vec![(1, 5), (1, 6), (1, 7)]);
    let p = UVec2::new(1, 5);
    assert_eq!(canvas.line_vertical(p, 4, Color::black()), out_of_bounds(p, 4, 8));
    assert_eq!(lit(&canvas), vec![(1, 5), (1, 6), (1, 7)]);
}

#[test]
fn shallow_line() {
    let mut canvas = blank(8, 8);
    canvas.line(UVec2::new(0, 0), UVec2::new(5, 2), Color::white()).unwrap();
    assert_eq!(lit(&canvas), vec![(0, 0), (1, 0), (2, 1), (3, 1), (4, 2)]);
}

#[test]
fn steep_line_upwards() {
    let mut canvas = blank(8, 8);
    canvas.line(UVec2::new(3, 7), UVec2::new(1, 0), Color::white()).unwrap();
    assert_eq!(lit(&canvas), vec![(1, 1), (2, 2), (2, 3), (2, 4), (2, 5), (3, 6), (3, 7)]);
}

#[test]
fn diagonal_line_backwards() {
    let mut canvas = blank(8, 8);
    canvas.line(UVec2::new(6, 6), UVec2::new(2, 2), Color::white()).unwrap();
    assert_eq!(lit(&canvas), vec![(3, 3), (4, 4), (5, 5), (6, 6)]);
}

#[test]
fn axis_parallel_lines_and_empty_line() {
    let mut canvas = blank(8, 8);
    canvas.line(UVec2::new(1, 2), UVec2::new(5, 2), Color::white()).unwrap();
    assert_eq!(lit(&canvas), vec![(1, 2), (2, 2), (3, 2), (4, 2)]);
    canvas.line(UVec2::new(7, 7), UVec2::new(7, 4), Color::white()).unwrap();
    assert_eq!(
        lit(&canvas),
        vec![(1, 2), (2, 2), (3, 2), (4, 2), (7, 5), (7, 6), (7, 7)]
    );
    let mut other = blank(8, 8);
    other.line(UVec2::new(3, 3), UVec2::new(3, 3), Color::white()).unwrap();
    assert!(lit(&other).is_empty());
}

#[test]
fn line_with_a_point_outside_draws_nothing() {
    let mut canvas = blank(8, 8);
    let inside = UVec2::new(0, 0);
    let outside = UVec2::new(8, 3);
    assert_eq!(canvas.line(inside, outside, Color::white()), out_of_bounds(outside, 8, 8));
    assert_eq!(canvas.line(outside, inside, Color::white()), out_of_bounds(outside, 8, 8));
    let worse = UVec2::new(9, 9);
    assert_eq!(canvas.line(worse, outside, Color::white()), out_of_bounds(worse, 8, 8));
    assert!(lit(&canvas).is_empty());
    assert!(!canvas.is_dirty());
}

#[test]
fn triangle_outline_draws_each_corner_once() {
    let mut canvas = blank(8, 8);
    canvas.triangle(UVec2::new(0, 0), UVec2::new(4, 0), UVec2::new(4, 4), Color::white()).unwrap();
    assert_eq!(
        lit(&canvas),
        vec![
            (0, 0), (1, 0), (2, 0), (3, 0), (4, 0),
            (1, 1), (4, 1),
            (2, 2), (4, 2),
            (3, 3), (4, 3),
            (4, 4),
        ]
    );
}

#[test]
fn filled_triangle() {
    let mut canvas = blank(8, 8);
    canvas
        .triangle_filled(
            UVec2::new(1, 0),
            UVec2::new(6, 3),
            UVec2::new(0, 5),
            Color::white(),
            Color::white(),
        )
        .unwrap();
    assert_eq!(
        lit(&canvas),
        vec![
            (1, 0),
            (1, 1), (2, 1), (3, 1),
            (1, 2), (2, 2), (3, 2), (4, 2), (5, 2),
            (0, 3), (1, 3), (2, 3), (3, 3), (4, 3), (5, 3), (6, 3),
            (0, 4), (1, 4), (2, 4), (3, 4), (4, 4),
            (0, 5), (1, 5),
        ]
    );
}

#[test]
fn filled_triangle_outline_is_drawn_over_the_fill() {
    let mut canvas = blank(8, 8);
    canvas.white();
    canvas
        .triangle_filled(
            UVec2::new(1, 0),
            UVec2::new(6, 3),
            UVec2::new(0, 5),
            Color::white(),
            Color::black(),
        )
        .unwrap();
    assert_eq!(dark(&canvas), vec![(2, 2), (3, 2), (1, 3), (2, 3), (3, 3), (4, 3), (1, 4)]);
}

#[test]
fn filled_triangle_with_flat_bottom_in_any_corner_order() {
    let expected = vec![
        (4, 1),
        (3, 2), (4, 2), (5, 2),
        (3, 3), (4, 3), (5, 3), (6, 3),
        (2, 4), (3, 4), (4, 4), (5, 4), (6, 4), (7, 4),
    ];
    let mut canvas = blank(8, 8);
    canvas
        .triangle_filled(
            UVec2::new(2, 4),
            UVec2::new(7, 4),
            UVec2::new(4, 1),
            Color::white(),
            Color::white(),
        )
        .unwrap();
    assert_eq!(lit(&canvas), expected);
}

#[test]
fn flat_triangle_is_one_span_in_the_fill_color() {
    let mut canvas = blank(8, 8);
    canvas
        .triangle_filled(
            UVec2::new(5, 3),
            UVec2::new(1, 3),
            UVec2::new(3, 3),
            Color::black(),
            Color::white(),
        )
        .unwrap();
    assert_eq!(lit(&canvas), vec![(1, 3), (2, 3), (3, 3), (4, 3), (5, 3)]);
}

#[test]
fn triangle_with_a_corner_outside_draws_nothing() {
    let mut canvas = blank(8, 8);
    let a = UVec2::new(1, 1);
    let b = UVec2::new(6, 2);
    let bad = UVec2::new(3, 8);
    assert_eq!(canvas.triangle(a, b, bad, Color::white()), out_of_bounds(bad, 8, 8));
    assert_eq!(canvas.triangle(a, bad, b, Color::white()), out_of_bounds(bad, 8, 8));
    assert_eq!(
        canvas.triangle_filled(bad, a, b, Color::white(), Color::white()),
        out_of_bounds(bad, 8, 8)
    );
    assert!(lit(&canvas).is_empty());
    assert!(!canvas.is_dirty());
}

#[test]
fn rectangle_outline_and_fill() {
    let mut canvas = blank(8, 6);
    canvas.rectangle(UVec2::new(1, 1), UVec2::new(4, 3), Color::white()).unwrap();
    assert_eq!(
        lit(&canvas),
        vec![(1, 1), (2, 1), (3, 1), (4, 1), (1, 2), (4, 2), (1, 3), (2, 3), (3, 3), (4, 3)]
    );
    canvas.white();
    canvas
        .rectangle_filled(UVec2::new(1, 1), UVec2::new(4, 3), Color::white(), Color::black())
        .unwrap();
    assert_eq!(dark(&canvas), vec![(2, 2), (3, 2)]);
}

#[test]
fn rectangle_up_to_the_edges() {
    let mut canvas = blank(4, 3);
    canvas
        .rectangle_filled(UVec2::new(0, 0), UVec2::new(4, 3), Color::white(), Color::white())
        .unwrap();
    assert_eq!(lit(&canvas).len(), 12);
}

#[test]
fn thin_and_empty_rectangles() {
    let mut canvas = blank(8, 6);
    canvas.rectangle(UVec2::new(2, 2), UVec2::new(3, 1), Color::white()).unwrap();
    assert_eq!(lit(&canvas), vec![(2, 2), (3, 2), (4, 2)]);
    canvas.rectangle(UVec2::new(6, 0), UVec2::new(1, 4), Color::white()).unwrap();
    assert_eq!(lit(&canvas), vec![(6, 0), (6, 1), (2, 2), (3, 2), (4, 2), (6, 2), (6, 3)]);
    let mut other = blank(8, 6);
    assert_eq!(other.rectangle(UVec2::new(7, 5), UVec2::new(0, 100), Color::white()), Ok(()));
    assert_eq!(other.rectangle(UVec2::new(7, 5), UVec2::new(100, 0), Color::white()), Ok(()));
    assert!(lit(&other).is_empty());
}

#[test]
fn rectangle_that_does_not_fit_draws_nothing() {
    let mut canvas = blank(8, 6);
    let p = UVec2::new(5, 2);
    assert_eq!(canvas.rectangle(p, UVec2::new(4, 2), Color::white()), out_of_bounds(p, 8, 6));
    assert_eq!(canvas.rectangle(p, UVec2::new(2, 5), Color::white()), out_of_bounds(p, 8, 6));
    assert_eq!(
        canvas.rectangle(p, UVec2::new(u32::MAX, u32::MAX), Color::white()),
        out_of_bounds(p, 8, 6)
    );
    let q = UVec2::new(2, 6);
    assert_eq!(canvas.rectangle(q, UVec2::new(0, 0), Color::white()), out_of_bounds(q, 8, 6));
    assert!(lit(&canvas).is_empty());
    assert!(!canvas.is_dirty());
}

#[test]
fn circle_of_radius_one_and_zero() {
    let mut canvas = blank(8, 8);
    canvas.circle(UVec2::new(3, 3), 0, CircleType::Full, Color::white()).unwrap();
    assert!(lit(&canvas).is_empty());
    canvas.circle(UVec2::new(3, 3), 1, CircleType::Full, Color::white()).unwrap();
    assert_eq!(lit(&canvas), vec![(3, 2), (2, 3), (4, 3), (3, 4)]);
}

#[test]
fn circle_of_radius_two() {
    let outline = vec![
        (4, 3), (5, 3), (6, 3),
        (3, 4), (7, 4),
        (3, 5), (7, 5),
        (3, 6), (7, 6),
        (4, 7), (5, 7), (6, 7),
    ];
    let mut canvas = blank(12, 12);
    canvas.circle(UVec2::new(5, 5), 2, CircleType::Full, Color::white()).unwrap();
    assert_eq!(lit(&canvas), outline);
    canvas.white();
    canvas
        .circle_filled(UVec2::new(5, 5), 2, CircleType::Full, Color::white(), Color::black())
        .unwrap();
    assert_eq!(
        dark(&canvas),
        vec![(4, 4), (5, 4), (6, 4), (4, 5), (5, 5), (6, 5), (4, 6), (5, 6), (6, 6)]
    );
}

#[test]
fn quarter_and_half_circles() {
    let mut canvas = blank(12, 12);
    canvas.circle(UVec2::new(5, 5), 3, CircleType::QuarterBottomRight, Color::white()).unwrap();
    assert_eq!(lit(&canvas), vec![(8, 5), (8, 6), (7, 7), (5, 8), (6, 8)]);
    let mut top = blank(12, 12);
    top.circle_filled(UVec2::new(5, 5), 3, CircleType::SemiTop, Color::white(), Color::white())
        .unwrap();
    assert_eq!(
        lit(&top),
        sorted(vec![
            (4, 2), (5, 2), (6, 2), (3, 3), (7, 3), (2, 4), (8, 4), (2, 5), (8, 5),
            (4, 3), (5, 3), (6, 3), (3, 4), (4, 4), (5, 4), (6, 4), (7, 4),
            (3, 5), (4, 5), (5, 5), (6, 5), (7, 5),
        ])
    );
}

#[test]
fn each_circle_part_stays_in_its_half() {
    let kinds = [
        (CircleType::SemiLeft, 0u32, 4u32, 0u32, 8u32),
        (CircleType::SemiRight, 4, 8, 0, 8),
        (CircleType::SemiTop, 0, 8, 0, 4),
        (CircleType::SemiBottom, 0, 8, 4, 8),
        (CircleType::QuarterTopLeft, 0, 4, 0, 4),
        (CircleType::QuarterTopRight, 4, 8, 0, 4),
        (CircleType::QuarterBottomRight, 4, 8, 4, 8),
        (CircleType::QuarterBottomLeft, 0, 4, 4, 8),
    ];
    let mut full = blank(9, 9);
    full.circle(UVec2::new(4, 4), 4, CircleType::Full, Color::white()).unwrap();
    let whole = lit(&full);
    for (kind, x0, x1, y0, y1) in kinds {
        let mut canvas = blank(9, 9);
        canvas.circle(UVec2::new(4, 4), 4, kind, Color::white()).unwrap();
        let expected: Vec<(u32, u32)> = whole
            .iter()
            .copied()
            .filter(|p| x0 <= p.0 && p.0 <= x1 && y0 <= p.1 && p.1 <= y1)
            .collect();
        assert_eq!(lit(&canvas), expected);
    }
}

#[test]
fn circle_that_does_not_fit_draws_nothing() {
    let mut canvas = blank(8, 8);
    let p = UVec2::new(1, 4);
    assert_eq!(canvas.circle(p, 2, CircleType::Full, Color::white()), out_of_bounds(p, 8, 8));
    assert_eq!(canvas.circle(p, 2, CircleType::SemiLeft, Color::white()), out_of_bounds(p, 8, 8));
    assert_eq!(canvas.circle(p, 2, CircleType::SemiRight, Color::white()), Ok(()));
    let mut other = blank(8, 8);
    let q = UVec2::new(4, 6);
    assert_eq!(other.circle(q, 2, CircleType::Full, Color::white()), out_of_bounds(q, 8, 8));
    assert_eq!(
        other.circle(q, 2, CircleType::QuarterBottomLeft, Color::white()),
        out_of_bounds(q, 8, 8)
    );
    assert_eq!(other.circle(q, u32::MAX, CircleType::Full, Color::white()), out_of_bounds(q, 8, 8));
    let outside = UVec2::new(8, 8);
    assert_eq!(
        other.circle(outside, 0, CircleType::Full, Color::white()),
        out_of_bounds(outside, 8, 8)
    );
    assert!(lit(&other).is_empty());
    assert!(!other.is_dirty());
}

#[test]
fn rounded_rectangle() {
    let outline = vec![
        (3, 1), (4, 1), (5, 1), (6, 1), (7, 1), (8, 1),
        (2, 2), (9, 2),
        (1, 3), (10, 3),
        (1, 4), (10, 4),
        (1, 5), (10, 5),
        (1, 6), (10, 6),
        (2, 7), (9, 7),
        (3, 8), (4, 8), (5, 8), (6, 8), (7, 8), (8, 8),
    ];
    let inside = vec![
        (3, 2), (4, 2), (5, 2), (6, 2), (7, 2), (8, 2),
        (2, 3), (3, 3), (4, 3), (5, 3), (6, 3), (7, 3), (8, 3), (9, 3),
        (2, 4), (3, 4), (4, 4), (5, 4), (6, 4), (7, 4), (8, 4), (9, 4),
        (2, 5), (3, 5), (4, 5), (5, 5), (6, 5), (7, 5), (8, 5), (9, 5),
        (2, 6), (3, 6), (4, 6), (5, 6), (6, 6), (7, 6), (8, 6), (9, 6),
        (3, 7), (4, 7), (5, 7), (6, 7), (7, 7), (8, 7),
    ];
    let mut canvas = blank(12, 10);
    canvas.rectangle_rounded(UVec2::new(1, 1), UVec2::new(10, 8), 3, Color::white()).unwrap();
    assert_eq!(lit(&canvas), outline);
    canvas.white();
    canvas
        .rectangle_rounded_filled(
            UVec2::new(1, 1),
            UVec2::new(10, 8),
            3,
            Color::white(),
            Color::black(),
        )
        .unwrap();
    assert_eq!(dark(&canvas), inside);
}

#[test]
fn rounded_rectangle_cuts_the_radius_down() {
    let mut canvas = blank(6, 5);
    canvas.rectangle_rounded(UVec2::new(0, 0), UVec2::new(6, 5), 9, Color::white()).unwrap();
    assert_eq!(
        lit(&canvas),
        vec![
            (1, 0), (2, 0), (3, 0), (4, 0),
            (0, 1), (5, 1),
            (0, 2), (5, 2),
            (0, 3), (5, 3),
            (1, 4), (2, 4), (3, 4), (4, 4),
        ]
    );
}

#[test]
fn rounded_rectangle_without_radius_is_a_rectangle() {
    let mut rounded = blank(8, 6);
    rounded
        .rectangle_rounded_filled(
            UVec2::new(1, 1),
            UVec2::new(5, 4),
            0,
            Color::white(),
            Color::white(),
        )
        .unwrap();
    let mut plain = blank(8, 6);
    plain
        .rectangle_filled(UVec2::new(1, 1), UVec2::new(5, 4), Color::white(), Color::white())
        .unwrap();
    assert_eq!(lit(&rounded), lit(&plain));
    assert_eq!(rounded.buffer(), plain.buffer());
}

#[test]
fn rounded_rectangle_that_does_not_fit_draws_nothing() {
    let mut canvas = blank(8, 6);
    let p = UVec2::new(2, 2);
    assert_eq!(
        canvas.rectangle_rounded(p, UVec2::new(7, 3), 1, Color::white()),
        out_of_bounds(p, 8, 6)
    );
    let q = UVec2::new(8, 2);
    assert_eq!(
        canvas.rectangle_rounded(q, UVec2::new(0, 0), 1, Color::white()),
        out_of_bounds(q, 8, 6)
    );
    assert_eq!(canvas.rectangle_rounded(p, UVec2::new(0, 3), 1, Color::white()), Ok(()));
    assert!(lit(&canvas).is_empty());
    assert!(!canvas.is_dirty());
}

#[test]
fn bitmap_is_stamped_msb_first_and_clipped() {
    // 8 x 3: a diagonal with a full bottom row
    let bitmap = [0b1000_0000u8, 0b0100_0000, 0b1111_1111];
    let mut canvas = blank(12, 4);
    canvas.put_bitmap(UVec2::new(2, 1), UVec2::new(8, 3), &bitmap, Color::white()).unwrap();
    assert_eq!(
        lit(&canvas),
        vec![(2, 1), (3, 2), (2, 3), (3, 3), (4, 3), (5, 3), (6, 3), (7, 3), (8, 3), (9, 3)]
    );
    let mut clipped = blank(6, 3);
    clipped.put_bitmap(UVec2::new(2, 1), UVec2::new(8, 3), &bitmap, Color::white()).unwrap();
    assert_eq!(lit(&clipped), vec![(2, 1), (3, 2)]);
}

#[test]
fn bitmap_rows_need_not_be_whole_bytes() {
    // 3 x 3 checker: 101 010 101, packed without padding
    let bitmap = [0b1010_1010u8, 0b1000_0000];
    let mut canvas = blank(4, 4);
    canvas.put_bitmap(UVec2::new(1, 0), UVec2::new(3, 3), &bitmap, Color::white()).unwrap();
    assert_eq!(lit(&canvas), vec![(1, 0), (3, 0), (2, 1), (1, 2), (3, 2)]);
}

#[test]
fn bitmap_leaves_unset_bits_alone_and_short_bitmaps_are_padded() {
    let mut canvas = blank(8, 2);
    canvas.white();
    canvas.put_bitmap(UVec2::new(0, 0), UVec2::new(8, 2), &[0xF0], Color::black()).unwrap();
    assert_eq!(dark(&canvas), vec![(0, 0), (1, 0), (2, 0), (3, 0)]);
    let p = UVec2::new(0, 2);
    assert_eq!(
        canvas.put_bitmap(p, UVec2::new(8, 2), &[0xF0], Color::black()),
        out_of_bounds(p, 8, 2)
    );
    assert_eq!(dark(&canvas), vec![(0, 0), (1, 0), (2, 0), (3, 0)]);
}

#[test]
fn canvas_copy() {
    let mut source = blank(6, 4);
    source.set_pixel(UVec2::new(1, 1), Color::white()).unwrap();
    source.set_pixel(UVec2::new(2, 1), Color::white()).unwrap();
    source.set_pixel(UVec2::new(5, 3), Color::white()).unwrap();
    let mut canvas = blank(8, 8);
    canvas.white();
    canvas.put_canvas(&source, UVec2::new(3, 2), UVec2::new(1, 1), UVec2::new(2, 2)).unwrap();
    // the copied 2 x 2 region holds (1,1) and (2,1) lit, (1,2) and (2,2) dark
    assert_eq!(dark(&canvas), vec![(3, 3), (4, 3)]);
    let mut whole = blank(8, 8);
    whole.put_canvas(&source, UVec2::new(4, 6), UVec2::new(0, 0), UVec2::new(0, 0)).unwrap();
    // clipped to 4 columns and 2 rows of the source
    assert_eq!(lit(&whole), vec![(5, 7), (6, 7)]);
    let mut tail = blank(8, 8);
    tail.put_canvas(&source, UVec2::new(0, 0), UVec2::new(4, 2), UVec2::new(6, 4)).unwrap();
    assert_eq!(lit(&tail), vec![(1, 1)]);
}

#[test]
fn canvas_copy_checks_both_corners() {
    let source = blank(6, 4);
    let mut canvas = blank(8, 8);
    let bad = UVec2::new(8, 0);
    assert_eq!(
        canvas.put_canvas(&source, bad, UVec2::new(0, 0), UVec2::new(1, 1)),
        out_of_bounds(bad, 8, 8)
    );
    let src = UVec2::new(6, 0);
    assert_eq!(
        canvas.put_canvas(&source, UVec2::new(0, 0), src, UVec2::new(1, 1)),
        out_of_bounds(src, 6, 4)
    );
    assert!(!canvas.is_dirty());
}

fn tiny_font() -> Font {
    // 3 x 2 glyphs for 'A' and 'B'
    let a = Glyph::new(UVec2::new(3, 2), vec![0b1110_1000]);
    let b = Glyph::new(UVec2::new(3, 2), vec![0b0101_1100]);
    Font::new('A', vec![a, b], 3)
}

#[test]
fn glyph_pixels_and_lookup() {
    let font = tiny_font();
    assert_eq!(font.char_spacing(), 3);
    let a = font.get_char('A').unwrap();
    assert_eq!(a.size(), UVec2::new(3, 2));
    assert!(a.get_pixel(UVec2::new(0, 0)));
    assert!(a.get_pixel(UVec2::new(2, 0)));
    assert!(!a.get_pixel(UVec2::new(0, 1)));
    assert!(a.get_pixel(UVec2::new(1, 1)));
    assert!(!a.get_pixel(UVec2::new(3, 0)));
    assert!(!a.get_pixel(UVec2::new(0, 2)));
    assert!(font.get_char('B').is_some());
    assert!(font.get_char('C').is_none());
    assert!(font.get_char('@').is_none());
    let short = Glyph::new(UVec2::new(8, 8), vec![0xFF]);
    assert!(short.get_pixel(UVec2::new(7, 0)));
    assert!(!short.get_pixel(UVec2::new(0, 1)));
}

#[test]
fn character_is_stamped_like_a_bitmap() {
    let font = tiny_font();
    let mut canvas = blank(8, 4);
    canvas.put_character(UVec2::new(1, 1), 'A', Color::white(), &font).unwrap();
    assert_eq!(lit(&canvas), vec![(1, 1), (2, 1), (3, 1), (2, 2)]);
    canvas.put_character(UVec2::new(1, 1), 'z', Color::white(), &font).unwrap();
    assert_eq!(lit(&canvas), vec![(1, 1), (2, 1), (3, 1), (2, 2)]);
    let p = UVec2::new(1, 4);
    assert_eq!(canvas.put_character(p, 'A', Color::white(), &font), out_of_bounds(p, 8, 4));
    assert_eq!(canvas.put_character(p, 'z', Color::white(), &font), out_of_bounds(p, 8, 4));
}

#[test]
fn text_advances_by_width_plus_spacing() {
    let font = tiny_font();
    let mut canvas = blank(12, 4);
    canvas.put_text(UVec2::new(0, 1), String::from("AB?A"), Color::white(), &font, 0).unwrap();
    assert_eq!(
        lit(&canvas),
        vec![
            (0, 1), (1, 1), (2, 1), (4, 1), (9, 1), (10, 1), (11, 1),
            (1, 2), (3, 2), (4, 2), (5, 2), (10, 2),
        ]
    );
    let mut spaced = blank(12, 4);
    spaced.put_text(UVec2::new(1, 0), String::from("AA"), Color::white(), &font, 2).unwrap();
    assert_eq!(
        lit(&spaced),
        vec![(1, 0), (2, 0), (3, 0), (6, 0), (7, 0), (8, 0), (2, 1), (7, 1)]
    );
}

#[test]
fn text_that_does_not_fit_draws_nothing() {
    let font = tiny_font();
    let mut canvas = blank(12, 4);
    let p = UVec2::new(1, 1);
    assert_eq!(
        canvas.put_text(p, String::from("ABAB"), Color::white(), &font, 0),
        out_of_bounds(p, 12, 4)
    );
    assert!(lit(&canvas).is_empty());
    assert!(!canvas.is_dirty());
    assert_eq!(canvas.put_text(p, String::from("ABA"), Color::white(), &font, 1), Ok(()));
    let q = UVec2::new(12, 0);
    assert_eq!(
        canvas.put_text(q, String::new(), Color::white(), &font, 0),
        out_of_bounds(q, 12, 4)
    );
    assert_eq!(canvas.put_text(p, String::new(), Color::white(), &font, u32::MAX), Ok(()));
}

#[test]
fn transparent_fill_leaves_the_inside_alone() {
    let mut canvas = blank(8, 6);
    canvas.white();
    canvas
        .rectangle_filled(
            UVec2::new(1, 1),
            UVec2::new(4, 4),
            Color::black(),
            Color::from_blend_mode(BlendMode::Transparent),
        )
        .unwrap();
    assert_eq!(
        dark(&canvas),
        vec![
            (1, 1), (2, 1), (3, 1), (4, 1),
            (1, 2), (4, 2),
            (1, 3), (4, 3),
            (1, 4), (2, 4), (3, 4), (4, 4),
        ]
    );
}

#[test]
fn shapes_dirty_only_the_chunks_they_change() {
    let mut canvas = MonochromeCanvas::new(16, 16, 4);
    canvas.clear_dirty();
    canvas.line_horizontal(UVec2::new(0, 5), 16, Color::white()).unwrap();
    assert!(!canvas.is_chunk_dirty(0));
    assert!(canvas.is_chunk_dirty(1));
    assert!(!canvas.is_chunk_dirty(2));
    assert!(!canvas.is_chunk_dirty(3));
    canvas.clear_dirty();
    canvas.line_horizontal(UVec2::new(0, 5), 16, Color::white()).unwrap();
    assert!(!canvas.is_dirty());
    canvas.line_vertical(UVec2::new(3, 6), 6, Color::white()).unwrap();
    assert!(!canvas.is_chunk_dirty(0));
    assert!(canvas.is_chunk_dirty(1));
    assert!(canvas.is_chunk_dirty(2));
    assert!(!canvas.is_chunk_dirty(3));
}

#[test]
fn runs_from_a_point_outside_draw_nothing() {
    let mut canvas = blank(4, 8);
    for p in [UVec2::new(4, 0), UVec2::new(0, 8), UVec2::new(9, 9)] {
        assert_eq!(canvas.line_vertical(p, 1, Color::white()), out_of_bounds(p, 4, 8));
        assert_eq!(canvas.line_vertical(p, 0, Color::white()), out_of_bounds(p, 4, 8));
        assert_eq!(canvas.line_horizontal(p, 1, Color::white()), out_of_bounds(p, 4, 8));
    }
    assert!(lit(&canvas).is_empty());
    assert!(!canvas.is_dirty());
}

#[test]
fn drawing_the_same_shape_again_dirties_nothing() {
    let mut canvas = MonochromeCanvas::new(16, 16, 4);
    canvas
        .circle_filled(UVec2::new(8, 8), 5, CircleType::Full, Color::white(), Color::black())
        .unwrap();
    canvas.line(UVec2::new(0, 0), UVec2::new(15, 3), Color::white()).unwrap();
    let before = canvas.buffer().to_vec();
    canvas.clear_dirty();
    canvas.line(UVec2::new(0, 0), UVec2::new(15, 3), Color::white()).unwrap();
    assert_eq!(canvas.buffer(), &before[..]);
    assert!(!canvas.is_dirty());
}

#[test]
fn clean_chunks_are_unchanged() {
    let mut canvas = MonochromeCanvas::new(16, 16, 4);
    canvas.fill(0x3C);
    canvas.clear_dirty();
    let before = canvas.buffer().to_vec();
    canvas
        .triangle_filled(
            UVec2::new(2, 5),
            UVec2::new(12, 6),
            UVec2::new(7, 10),
            Color::white(),
            Color::black(),
        )
        .unwrap();
    let after = canvas.buffer().to_vec();
    for chunk in 0..4u32 {
        let rows = (chunk as usize * 8)..(chunk as usize * 8 + 8);
        if !canvas.is_chunk_dirty(chunk) {
            assert_eq!(&after[rows.clone()], &before[rows]);
        }
    }
    assert!(!canvas.is_chunk_dirty(0));
    assert!(canvas.is_chunk_dirty(1));
    assert!(canvas.is_chunk_dirty(2));
    assert!(!canvas.is_chunk_dirty(3));
}

#[test]
fn parts_of_a_rounded_rectangle() {
    let mut canvas = blank(12, 10);
    let p = UVec2::new(1, 1);
    canvas.rounded_sides(p, UVec2::new(10, 8), 3, Color::white()).unwrap();
    assert_eq!(
        lit(&canvas),
        vec![
            (4, 1), (5, 1), (6, 1), (7, 1),
            (1, 4), (10, 4),
            (1, 5), (10, 5),
            (4, 8), (5, 8), (6, 8), (7, 8),
        ]
    );
    let mut corners = blank(12, 10);
    corners.rounded_corners(p, UVec2::new(10, 8), 3, Color::white(), Color::default()).unwrap();
    assert_eq!(
        lit(&corners),
        vec![
            (3, 1), (4, 1), (7, 1), (8, 1),
            (2, 2), (9, 2),
            (1, 3), (10, 3),
            (1, 4), (10, 4),
            (1, 5), (10, 5),
            (1, 6), (10, 6),
            (2, 7), (9, 7),
            (3, 8), (4, 8), (7, 8), (8, 8),
        ]
    );
    let mut inside = blank(12, 10);
    inside.rounded_fill(p, UVec2::new(10, 8), 3, Color::white()).unwrap();
    assert_eq!(
        lit(&inside),
        vec![
            (4, 2), (5, 2), (6, 2), (7, 2),
            (4, 3), (5, 3), (6, 3), (7, 3),
            (2, 4), (3, 4), (4, 4), (5, 4), (6, 4), (7, 4), (8, 4), (9, 4),
            (2, 5), (3, 5), (4, 5), (5, 5), (6, 5), (7, 5), (8, 5), (9, 5),
            (4, 6), (5, 6), (6, 6), (7, 6),
            (4, 7), (5, 7), (6, 7), (7, 7),
        ]
    );
}

#[test]
fn parts_of_a_rounded_rectangle_refuse_what_does_not_fit() {
    let mut canvas = blank(12, 10);
    let p = UVec2::new(1, 1);
    let bounds = out_of_bounds(p, 12, 10);
    assert_eq!(canvas.rounded_sides(p, UVec2::new(10, 8), 5, Color::white()), bounds);
    assert_eq!(canvas.rounded_sides(p, UVec2::new(0, 8), 0, Color::white()), bounds);
    assert_eq!(canvas.rounded_sides(p, UVec2::new(12, 8), 1, Color::white()), bounds);
    assert_eq!(
        canvas.rounded_corners(p, UVec2::new(10, 8), 5, Color::white(), Color::white()),
        bounds
    );
    assert_eq!(canvas.rounded_fill(p, UVec2::new(10, 2), 1, Color::white()), bounds);
    assert_eq!(canvas.rounded_fill(p, UVec2::new(10, 10), 1, Color::white()), bounds);
    assert!(lit(&canvas).is_empty());
    assert!(!canvas.is_dirty());
}
