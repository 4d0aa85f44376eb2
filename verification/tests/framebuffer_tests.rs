use softui::color::{blend, lerp_channel, rgb, Color};
use softui::error::DrawError;
use softui::framebuffer::Framebuffer;
use softui::geometry::Rect;

fn count(fb: &Framebuffer, color: u32) -> usize {
    let mut n = 0;
    for y in 0..fb.height() {
        for x in 0..fb.width() {
            if fb.get_pixel(x, y) == Some(color) {
                n += 1;
            }
        }
    }
    n
}

#[test]
fn new_framebuffer_is_blank() {
    let fb = Framebuffer::new(4, 3);
    assert_eq!(fb.width(), 4);
    assert_eq!(fb.height(), 3);
    assert_eq!(fb.len(), 12);
    assert_eq!(count(&fb, 0), 12);
}

#[test]
fn empty_framebuffer_has_no_pixel() {
    let fb = Framebuffer::new(0, 5);
    assert_eq!(fb.len(), 0);
    assert_eq!(fb.get_pixel(0, 0), None);
}

#[test]
fn get_pixel_is_bounds_checked() {
    let fb = Framebuffer::new(4, 3);
    assert_eq!(fb.get_pixel(3, 2), Some(0));
    assert_eq!(fb.get_pixel(4, 0), None);
    assert_eq!(fb.get_pixel(0, 3), None);
    assert_eq!(fb.get_pixel(usize::MAX, usize::MAX), None);
}

#[test]
fn draw_pixel_writes_one_cell() {
    let mut fb = Framebuffer::new(4, 3);
    fb.draw_pixel(1, 2, 7);
    assert_eq!(fb.get_pixel(1, 2), Some(7));
    assert_eq!(fb.get_pixel(2, 1), Some(0));
    assert_eq!(count(&fb, 7), 1);
    assert_eq!(count(&fb, 0), 11);
}

#[test]
fn fill_sets_every_pixel() {
    let mut fb = Framebuffer::new(5, 4);
    fb.draw_pixel(0, 0, 9);
    fb.fill(Color::new(0x123456));
    assert_eq!(count(&fb, 0x123456), 20);
}

#[test]
fn bounds_check_wants_a_spare_pixel() {
    let fb = Framebuffer::new(10, 10);
    assert_eq!(fb.bounds_check(0, 0, 9, 9), Ok(()));
    assert_eq!(fb.bounds_check(2, 3, 4, 5), Ok(()));
    assert_eq!(
        fb.bounds_check(0, 0, 10, 10),
        Err(DrawError::OutOfBounds { x: 0, y: 0, width: 10, height: 10 })
    );
    assert_eq!(
        fb.bounds_check(5, 5, 5, 4),
        Err(DrawError::OutOfBounds { x: 5, y: 5, width: 5, height: 4 })
    );
    assert_eq!(
        fb.bounds_check(5, 5, 4, 5),
        Err(DrawError::OutOfBounds { x: 5, y: 5, width: 4, height: 5 })
    );
    assert_eq!(
        fb.bounds_check(usize::MAX, 0, usize::MAX, 1),
        Err(DrawError::OutOfBounds { x: usize::MAX, y: 0, width: usize::MAX, height: 1 })
    );
}

#[test]
fn rgb_packs_red_high() {
    assert_eq!(rgb(0x12, 0x34, 0x56), 0x123456);
    assert_eq!(rgb(255, 255, 255), 0xFF_FFFF);
    assert_eq!(rgb(0, 0, 0), 0);
    assert_eq!(rgb(0, 0, 1), 1);
    assert_eq!(rgb(1, 0, 0), 0x01_0000);
}

#[test]
fn color_channels_round_trip() {
    let c = Color::from_rgb(10, 20, 30);
    assert_eq!(c.as_u32(), 0x0A141E);
    assert_eq!((c.r(), c.g(), c.b()), (10, 20, 30));
    let top = Color::new(0xAB_12_34_56);
    assert_eq!((top.r(), top.g(), top.b()), (0x12, 0x34, 0x56));
}

#[test]
fn named_colors() {
    assert_eq!(Color::white().as_u32(), 0xFF_FFFF);
    assert_eq!(Color::black().as_u32(), 0);
    assert_eq!(Color::red().as_u32(), 0xFF_0000);
    assert_eq!(Color::green().as_u32(), 0x00_FF00);
    assert_eq!(Color::blue().as_u32(), 0x00_00FF);
}

#[test]
fn blend_rounds_to_nearest() {
    assert_eq!(blend(255, 128, 0), 128);
    assert_eq!(blend(100, 200, 50), 89);
    assert_eq!(blend(0, 128, 255), 127);
    assert_eq!(blend(255, 1, 0), 1);
    assert_eq!(blend(1, 127, 0), 0);
    assert_eq!(blend(1, 128, 0), 1);
}

#[test]
fn blend_matches_the_rounded_quotient() {
    for fg in [0u8, 1, 17, 128, 254, 255] {
        for bg in [0u8, 3, 99, 200, 255] {
            for alpha in 0..=255u8 {
                let exact = (fg as f64 * alpha as f64 + bg as f64 * (255 - alpha) as f64) / 255.0;
                assert_eq!(blend(fg, alpha, bg), exact.round() as u8);
            }
        }
    }
}

#[test]
fn opaque_alpha_gives_foreground_and_zero_gives_background() {
    for fg in 0..=255u8 {
        for bg in 0..=255u8 {
            assert_eq!(blend(fg, 255, bg), fg);
            assert_eq!(blend(fg, 0, bg), bg);
        }
    }
}

#[test]
fn blend_over_works_per_channel() {
    let fg = Color::from_rgb(255, 0, 100);
    assert_eq!(fg.blend_over(255, 0x00_1234), fg.as_u32());
    assert_eq!(fg.blend_over(0, 0x00_1234), 0x00_1234);
    assert_eq!(fg.blend_over(128, rgb(0, 255, 50)), rgb(128, 127, 75));
}

#[test]
fn lerp_channel_rounds_down() {
    assert_eq!(lerp_channel(0, 255, 0, 4), 0);
    assert_eq!(lerp_channel(0, 255, 1, 4), 63);
    assert_eq!(lerp_channel(0, 255, 2, 4), 127);
    assert_eq!(lerp_channel(0, 255, 3, 4), 191);
    assert_eq!(lerp_channel(0, 255, 4, 4), 255);
    assert_eq!(lerp_channel(255, 0, 1, 4), 191);
    assert_eq!(lerp_channel(10, 10, 3, 7), 10);
}

#[test]
fn color_lerp_interpolates_each_channel() {
    let a = Color::from_rgb(0, 100, 255);
    let b = Color::from_rgb(255, 100, 0);
    assert_eq!(a.lerp(b, 0, 2), a);
    assert_eq!(a.lerp(b, 2, 2), b);
    assert_eq!(a.lerp(b, 1, 2), Color::from_rgb(127, 100, 127));
}

#[test]
fn rect_intersects_is_an_overlap_test() {
    let area = Rect::new(0, 0, 50, 50);
    assert!(Rect::point(10, 10).intersects(area));
    assert!(Rect::point(0, 0).intersects(area));
    assert!(Rect::point(49, 49).intersects(area));
    assert!(!Rect::point(50, 10).intersects(area));
    assert!(!Rect::point(-1, 10).intersects(area));
    assert!(area.intersects(Rect::new(40, 40, 100, 100)));
    assert!(!area.intersects(Rect::new(50, 0, 10, 10)));
    assert!(!Rect::new(0, 0, 0, 0).intersects(area));
    assert!(!Rect::new(i32::MAX, i32::MAX, i32::MAX, i32::MAX).intersects(area));
}

#[test]
fn rect_default_is_empty_at_origin() {
    assert_eq!(Rect::default(), Rect { x: 0, y: 0, width: 0, height: 0 });
    assert_eq!(Rect::point(3, 4), Rect { x: 3, y: 4, width: 1, height: 1 });
}
