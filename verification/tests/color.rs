use maschine::gfx::{BlendMode, Color, UVec2, Vec2};

#[test]
fn from_mono_sets_every_channel() {
    let c = Color::from_mono(0x42);
    assert_eq!(c.red(), 0x42);
    assert_eq!(c.green(), 0x42);
    assert_eq!(c.blue(), 0x42);
    assert_eq!(c.mono(), 0x42);
    assert_eq!(c.blend_mode, BlendMode::Normal);
}

#[test]
fn from_rgb_takes_brightest_channel_as_mono() {
    assert_eq!(Color::from_rgb(10, 200, 30).mono(), 200);
    assert_eq!(Color::from_rgb(250, 200, 30).mono(), 250);
    assert_eq!(Color::from_rgb(1, 2, 3).mono(), 3);
    assert_eq!(Color::from_rgb(7, 7, 7).mono(), 7);
    assert_eq!(Color::from_rgb(0, 0, 0).mono(), 0);
}

#[test]
fn from_rgbm_keeps_all_four_channels() {
    let c = Color::from_rgbm(1, 2, 3, 4);
    assert_eq!(c.as_array_rgbm(), [1, 2, 3, 4]);
    assert_eq!(c.as_array_rgb(), [1, 2, 3]);
}

#[test]
fn from_blend_mode_is_all_zero() {
    let c = Color::from_blend_mode(BlendMode::Transparent);
    assert_eq!(c.blend_mode, BlendMode::Transparent);
    assert_eq!(c.as_array_rgbm(), [0, 0, 0, 0]);
}

#[test]
fn default_color_is_transparent() {
    let c = Color::default();
    assert_eq!(c.blend_mode, BlendMode::Transparent);
    assert_eq!(c, Color::from_blend_mode(BlendMode::Transparent));
}

#[test]
fn white_and_black() {
    assert_eq!(Color::white(), Color::from_mono(0xFF));
    assert_eq!(Color::black(), Color::from_mono(0x00));
    assert!(Color::white().is_active());
    assert!(!Color::black().is_active());
}

#[test]
fn invert_complements_reads_and_keeps_storage() {
    let mut c = Color::from_rgbm(0x12, 0x00, 0xFF, 0x80);
    c.blend_mode = BlendMode::Invert;
    assert_eq!(c.red(), 0xED);
    assert_eq!(c.green(), 0xFF);
    assert_eq!(c.blue(), 0x00);
    assert_eq!(c.mono(), 0x7F);
    assert_eq!(c.as_array_rgbm(), [0xED, 0xFF, 0x00, 0x7F]);
    c.blend_mode = BlendMode::Normal;
    assert_eq!(c.as_array_rgbm(), [0x12, 0x00, 0xFF, 0x80]);
}

#[test]
fn active_threshold_is_above_127() {
    assert!(!Color::from_mono(127).is_active());
    assert!(Color::from_mono(128).is_active());
    let mut c = Color::from_mono(127);
    c.blend_mode = BlendMode::Invert;
    assert!(c.is_active());
    let mut d = Color::from_mono(128);
    d.blend_mode = BlendMode::Invert;
    assert!(!d.is_active());
}

#[test]
fn color_from_arrays() {
    let c: Color = Color::from([9u8, 8, 7]);
    assert_eq!(c, Color::from_rgb(9, 8, 7));
    assert_eq!(c.mono(), 9);
    let d: Color = Color::from([9u8, 8, 7, 6]);
    assert_eq!(d, Color::from_rgbm(9, 8, 7, 6));
}

#[test]
fn vec2_new_and_add() {
    let v = Vec2::new(3u32, 4u32);
    assert_eq!(v.x, 3);
    assert_eq!(v.y, 4);
    let w = v + UVec2::new(10, 20);
    assert_eq!(w, UVec2::new(13, 24));
}

#[test]
fn oob_counts_the_bound_itself_as_outside() {
    let bounds = UVec2::new(8, 4);
    assert!(!UVec2::new(0, 0).oob(bounds));
    assert!(!UVec2::new(7, 3).oob(bounds));
    assert!(UVec2::new(8, 3).oob(bounds));
    assert!(UVec2::new(7, 4).oob(bounds));
    assert!(UVec2::new(100, 100).oob(bounds));
}
