use maschine::gfx::{BlendMode, Canvas, Color, Error, MonochromeCanvas, UVec2};

fn lit_pixels(canvas: &MonochromeCanvas) -> Vec<(u32, u32)> {
    let size = canvas.size();
    let mut lit = Vec::new();
    for y in 0..size.y {
        for x in 0..size.x {
            if canvas.get_pixel(UVec2::new(x, y)).unwrap().is_active() {
                lit.push((x, y));
            }
        }
    }
    lit
}

fn dirty_chunks(canvas: &MonochromeCanvas) -> Vec<bool> {
    (0..canvas.number_of_chunks()).map(|c| canvas.is_chunk_dirty(c)).collect()
}

#[test]
fn new_canvas_is_dark_and_dirty() {
    let canvas = MonochromeCanvas::new(16, 8, 2);
    assert_eq!(canvas.size(), UVec2::new(16, 8));
    assert_eq!(canvas.number_of_chunks(), 2);
    assert_eq!(canvas.buffer(), &[0u8; 16][..]);
    assert!(canvas.is_dirty());
    assert_eq!(dirty_chunks(&canvas), vec![true, true]);
    assert!(lit_pixels(&canvas).is_empty());
}

#[test]
fn buffer_rounds_up_to_whole_bytes() {
    let canvas = MonochromeCanvas::new(5, 3, 1);
    assert_eq!(canvas.buffer().len(), 2);
    let none = MonochromeCanvas::new(0, 4, 2);
    assert_eq!(none.buffer().len(), 0);
}

#[test]
fn set_pixel_round_trip() {
    let mut canvas = MonochromeCanvas::new(16, 8, 2);
    for y in 0..8 {
        for x in 0..16 {
            let p = UVec2::new(x, y);
            canvas.set_pixel(p, Color::white()).unwrap();
            assert_eq!(canvas.get_pixel(p), Ok(Color::white()));
            canvas.set_pixel(p, Color::black()).unwrap();
            assert_eq!(canvas.get_pixel(p), Ok(Color::black()));
        }
    }
}

#[test]
fn set_pixel_round_trip_on_the_storage_channel() {
    let mut canvas = MonochromeCanvas::new(8, 8, 1);
    let p = UVec2::new(2, 6);
    canvas.set_pixel(p, Color::from_rgbm(0, 0, 0, 200)).unwrap();
    assert!(canvas.get_pixel(p).unwrap().is_active());
    canvas.set_pixel(p, Color::from_rgbm(255, 255, 255, 100)).unwrap();
    assert!(!canvas.get_pixel(p).unwrap().is_active());
    let mut inverted = Color::from_mono(0);
    inverted.blend_mode = BlendMode::Invert;
    canvas.set_pixel(p, inverted).unwrap();
    assert!(canvas.get_pixel(p).unwrap().is_active());
}

#[test]
fn pixels_are_packed_most_significant_bit_first() {
    let mut canvas = MonochromeCanvas::new(16, 2, 1);
    canvas.set_pixel(UVec2::new(0, 0), Color::white()).unwrap();
    canvas.set_pixel(UVec2::new(7, 0), Color::white()).unwrap();
    canvas.set_pixel(UVec2::new(9, 0), Color::white()).unwrap();
    canvas.set_pixel(UVec2::new(3, 1), Color::white()).unwrap();
    assert_eq!(canvas.buffer(), &[0x81, 0x40, 0x10, 0x00][..]);
    canvas.set_pixel(UVec2::new(7, 0), Color::black()).unwrap();
    assert_eq!(canvas.buffer(), &[0x80, 0x40, 0x10, 0x00][..]);
}

#[test]
fn rows_are_packed_without_padding() {
    let mut canvas = MonochromeCanvas::new(5, 3, 1);
    canvas.set_pixel(UVec2::new(4, 0), Color::white()).unwrap();
    canvas.set_pixel(UVec2::new(0, 1), Color::white()).unwrap();
    canvas.set_pixel(UVec2::new(4, 2), Color::white()).unwrap();
    assert_eq!(canvas.buffer(), &[0x0C, 0x02][..]);
    assert_eq!(lit_pixels(&canvas), vec![(4, 0), (0, 1), (4, 2)]);
}

#[test]
fn clearing_a_bit_leaves_its_neighbours() {
    let mut canvas = MonochromeCanvas::new(8, 1, 1);
    canvas.white();
    canvas.set_pixel(UVec2::new(5, 0), Color::black()).unwrap();
    assert_eq!(canvas.buffer(), &[0xFB][..]);
}

#[test]
fn set_pixel_out_of_bounds_fails_and_changes_nothing() {
    let mut canvas = MonochromeCanvas::new(16, 8, 2);
    canvas.set_pixel(UVec2::new(3, 3), Color::white()).unwrap();
    canvas.clear_dirty();
    let before = canvas.buffer().to_vec();
    let bounds = UVec2::new(16, 8);
    for p in [UVec2::new(16, 0), UVec2::new(0, 8), UVec2::new(16, 8), UVec2::new(u32::MAX, 3)] {
        assert_eq!(canvas.set_pixel(p, Color::white()), Err(Error::OutOfBounds { p, bounds }));
        assert_eq!(canvas.get_pixel(p), Err(Error::OutOfBounds { p, bounds }));
    }
    assert_eq!(canvas.buffer(), &before[..]);
    assert!(!canvas.is_dirty());
}

#[test]
fn transparent_out_of_bounds_still_fails() {
    let mut canvas = MonochromeCanvas::new(4, 4, 1);
    let p = UVec2::new(4, 0);
    assert_eq!(
        canvas.set_pixel(p, Color::default()),
        Err(Error::OutOfBounds { p, bounds: UVec2::new(4, 4) })
    );
}

#[test]
fn transparent_color_draws_nothing() {
    let mut canvas = MonochromeCanvas::new(16, 8, 2);
    canvas.clear_dirty();
    let mut c = Color::from_mono(0xFF);
    c.blend_mode = BlendMode::Transparent;
    assert_eq!(canvas.set_pixel(UVec2::new(1, 1), c), Ok(()));
    assert!(lit_pixels(&canvas).is_empty());
    assert!(!canvas.is_dirty());
}

#[test]
fn set_pixel_marks_only_the_owning_chunk() {
    let mut canvas = MonochromeCanvas::new(16, 8, 4);
    canvas.clear_dirty();
    canvas.set_pixel(UVec2::new(9, 5), Color::white()).unwrap();
    assert_eq!(dirty_chunks(&canvas), vec![false, false, true, false]);
    canvas.set_pixel(UVec2::new(0, 0), Color::white()).unwrap();
    assert_eq!(dirty_chunks(&canvas), vec![true, false, true, false]);
    canvas.set_pixel(UVec2::new(15, 7), Color::white()).unwrap();
    assert_eq!(dirty_chunks(&canvas), vec![true, false, true, true]);
}

#[test]
fn same_value_twice_does_not_dirty_again() {
    let mut canvas = MonochromeCanvas::new(16, 8, 2);
    let p = UVec2::new(4, 6);
    canvas.clear_dirty();
    canvas.set_pixel(p, Color::white()).unwrap();
    assert!(canvas.is_chunk_dirty(1));
    canvas.clear_dirty();
    canvas.set_pixel(p, Color::white()).unwrap();
    assert!(!canvas.is_dirty());
    canvas.set_pixel(p, Color::from_mono(200)).unwrap();
    assert!(!canvas.is_dirty());
    canvas.set_pixel(p, Color::black()).unwrap();
    assert_eq!(dirty_chunks(&canvas), vec![false, true]);
}

#[test]
fn writing_dark_on_dark_does_not_dirty() {
    let mut canvas = MonochromeCanvas::new(16, 8, 2);
    canvas.clear_dirty();
    canvas.set_pixel(UVec2::new(0, 0), Color::black()).unwrap();
    assert!(!canvas.is_dirty());
}

#[test]
fn dirty_flag_accessors() {
    let mut canvas = MonochromeCanvas::new(8, 8, 4);
    canvas.clear_dirty();
    assert!(!canvas.is_dirty());
    canvas.set_chunk_dirty(5);
    assert_eq!(dirty_chunks(&canvas), vec![false, false, true, false]);
    canvas.set_chunk_dirty(8);
    assert_eq!(dirty_chunks(&canvas), vec![false, false, true, false]);
    assert!(!canvas.is_chunk_dirty(4));
    assert!(!canvas.is_chunk_dirty(u32::MAX));
    canvas.set_dirty();
    assert_eq!(dirty_chunks(&canvas), vec![true, true, true, true]);
    canvas.clear_chunk_dirty(1);
    assert_eq!(dirty_chunks(&canvas), vec![true, false, true, true]);
    canvas.clear_chunk_dirty(9);
    assert_eq!(dirty_chunks(&canvas), vec![true, false, true, true]);
    canvas.clear_dirty();
    assert_eq!(dirty_chunks(&canvas), vec![false, false, false, false]);
}

#[test]
fn white_black_fill_and_invert() {
    let mut canvas = MonochromeCanvas::new(16, 2, 2);
    canvas.clear_dirty();
    canvas.white();
    assert_eq!(canvas.buffer(), &[0xFF; 4][..]);
    assert_eq!(dirty_chunks(&canvas), vec![true, true]);
    canvas.clear_dirty();
    canvas.black();
    assert_eq!(canvas.buffer(), &[0x00; 4][..]);
    assert_eq!(dirty_chunks(&canvas), vec![true, true]);
    canvas.clear_dirty();
    canvas.fill(0xA5);
    assert_eq!(canvas.buffer(), &[0xA5; 4][..]);
    assert_eq!(dirty_chunks(&canvas), vec![true, true]);
    assert_eq!(canvas.get_pixel(UVec2::new(0, 0)), Ok(Color::white()));
    assert_eq!(canvas.get_pixel(UVec2::new(1, 0)), Ok(Color::black()));
    assert_eq!(canvas.get_pixel(UVec2::new(15, 1)), Ok(Color::white()));
    canvas.clear_dirty();
    canvas.invert();
    assert_eq!(canvas.buffer(), &[0x5A; 4][..]);
    assert_eq!(dirty_chunks(&canvas), vec![true, true]);
}
