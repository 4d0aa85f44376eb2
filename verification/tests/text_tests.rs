use softui::color::{rgb, Color};
use softui::error::DrawError;
use softui::framebuffer::Framebuffer;
use softui::geometry::Rect;
use softui::glyph::{Atlas, Glyph};
use softui::measure::measure_text;

fn glyph_a() -> Glyph {
    Glyph::new(2, 2, 3, 0, 0, vec![255, 0, 128, 255]).unwrap()
}

fn atlas() -> Atlas {
    let mut atlas = Atlas::new();
    assert!(atlas.insert('A', 4, glyph_a()));
    assert!(atlas.insert('B', 4, Glyph::new(1, 3, 2, 0, -1, vec![255, 255, 255]).unwrap()));
    assert!(atlas.insert(' ', 4, Glyph::new(0, 0, 2, 0, 0, vec![]).unwrap()));
    atlas
}

fn nonzero(fb: &Framebuffer) -> Vec<(usize, usize, u32)> {
    let mut v = Vec::new();
    for y in 0..fb.height() {
        for x in 0..fb.width() {
            let p = fb.get_pixel(x, y).unwrap();
            if p != 0 {
                v.push((x, y, p));
            }
        }
    }
    v
}

#[test]
fn glyph_new_checks_the_bitmap_length() {
    assert!(Glyph::new(2, 2, 3, 0, 0, vec![0; 4]).is_some());
    assert!(Glyph::new(2, 2, 3, 0, 0, vec![0; 3]).is_none());
    assert!(Glyph::new(2, 2, 3, 0, 0, vec![0; 5]).is_none());
    assert!(Glyph::new(0, 7, 3, 0, 0, vec![]).is_some());
    assert!(Glyph::new(usize::MAX, usize::MAX, 0, 0, 0, vec![]).is_none());
    let g = glyph_a();
    assert_eq!((g.width, g.height, g.advance_width, g.advance_height, g.y_min), (2, 2, 3, 0, 0));
    assert_eq!(g.bitmap, vec![255, 0, 128, 255]);
    assert!(g.is_valid());
    assert_eq!(g.coverage(0, 1), 128);
    assert_eq!(g.coverage(1, 0), 0);
}

#[test]
fn atlas_is_keyed_by_character_and_size() {
    let mut atlas = Atlas::new();
    assert_eq!(atlas.len(), 0);
    assert!(atlas.get('A', 4).is_none());
    assert!(atlas.insert('A', 4, glyph_a()));
    assert_eq!(atlas.len(), 1);
    assert_eq!(atlas.get('A', 4).unwrap().bitmap, vec![255, 0, 128, 255]);
    assert!(atlas.get('A', 5).is_none());
    assert!(atlas.get('B', 4).is_none());
    assert!(atlas.insert('A', 5, Glyph::new(1, 1, 1, 0, 0, vec![9]).unwrap()));
    assert_eq!(atlas.len(), 2);
    assert_eq!(atlas.get('A', 5).unwrap().bitmap, vec![9]);
    assert_eq!(atlas.get('A', 4).unwrap().bitmap, vec![255, 0, 128, 255]);
    assert!(atlas.insert('A', 4, Glyph::new(1, 1, 1, 0, 0, vec![7]).unwrap()));
    assert_eq!(atlas.len(), 2);
    assert_eq!(atlas.get('A', 4).unwrap().bitmap, vec![7]);
    assert!(atlas.insert('\u{10FFFF}', 0, Glyph::new(0, 0, 0, 0, 0, vec![]).unwrap()));
    assert!(atlas.get('\u{10FFFF}', 0).is_some());
    assert!(atlas.get('\u{10FFFE}', 0).is_none());
}

#[test]
fn atlas_refuses_a_malformed_glyph() {
    let mut atlas = Atlas::new();
    let bad = Glyph {
        width: 2,
        height: 2,
        advance_width: 1,
        advance_height: 0,
        y_min: 0,
        bitmap: vec![1, 2, 3],
    };
    assert!(!bad.is_valid());
    assert!(!atlas.insert('A', 4, bad));
    assert_eq!(atlas.len(), 0);
    assert!(atlas.get('A', 4).is_none());
}

#[test]
fn draw_glyph_blends_inked_cells() {
    let mut fb = Framebuffer::new(8, 8);
    let reach = fb.draw_glyph(&glyph_a(), 1, 3, Color::white(), (0, 0));
    assert_eq!(reach, (2, 4));
    assert_eq!(
        nonzero(&fb),
        vec![(1, 3, 0xFF_FFFF), (1, 4, rgb(128, 128, 128)), (2, 4, 0xFF_FFFF)]
    );
}

#[test]
fn draw_glyph_is_clipped_on_every_side() {
    let mut fb = Framebuffer::new(2, 2);
    let reach = fb.draw_glyph(&glyph_a(), 1, -1, Color::white(), (0, 0));
    assert_eq!(nonzero(&fb), vec![(1, 0, rgb(128, 128, 128))]);
    assert_eq!(reach, (1, 0));
    let mut right = Framebuffer::new(2, 2);
    assert_eq!(right.draw_glyph(&glyph_a(), 2, 0, Color::white(), (1, 1)), (1, 1));
    assert_eq!(right.draw_glyph(&glyph_a(), usize::MAX, 0, Color::white(), (1, 1)), (1, 1));
    assert_eq!(right.draw_glyph(&glyph_a(), 0, 2, Color::white(), (1, 1)), (1, 1));
    assert_eq!(right.draw_glyph(&glyph_a(), 0, -2, Color::white(), (1, 1)), (1, 1));
    assert_eq!(nonzero(&right), vec![]);
}

#[test]
fn opaque_glyph_pixel_replaces_any_background_and_empty_one_keeps_it() {
    for bg in [0u32, 0x123456, 0xFF_FFFF, 0x00_00FF] {
        let mut fb = Framebuffer::new(4, 4);
        fb.fill(Color::new(bg));
        fb.draw_glyph(&glyph_a(), 0, 0, Color::new(0x336699), (0, 0));
        assert_eq!(fb.get_pixel(0, 0), Some(0x336699));
        assert_eq!(fb.get_pixel(1, 1), Some(0x336699));
        assert_eq!(fb.get_pixel(1, 0), Some(bg));
        assert_eq!(fb.get_pixel(2, 2), Some(bg));
    }
}

#[test]
fn draw_text_places_a_glyph_below_the_pen() {
    let mut fb = Framebuffer::new(10, 10);
    let area = fb.draw_text("A", &atlas(), 4, 1, 1, 0, Color::white());
    assert_eq!(area, Ok(Rect { x: 1, y: 1, width: 2, height: 4 }));
    assert_eq!(
        nonzero(&fb),
        vec![(1, 3, 0xFF_FFFF), (1, 4, rgb(128, 128, 128)), (2, 4, 0xFF_FFFF)]
    );
}

#[test]
fn draw_text_advances_the_pen() {
    let mut fb = Framebuffer::new(12, 10);
    let area = fb.draw_text("A B", &atlas(), 4, 0, 0, 0, Color::white());
    // A at column 0, the space at 3, B at column 5 with its top at row 4 - 3 + 1.
    assert_eq!(
        nonzero(&fb),
        vec![
            (0, 2, 0xFF_FFFF),
            (5, 2, 0xFF_FFFF),
            (0, 3, rgb(128, 128, 128)),
            (1, 3, 0xFF_FFFF),
            (5, 3, 0xFF_FFFF),
            (5, 4, 0xFF_FFFF),
        ]
    );
    assert_eq!(area, Ok(Rect { x: 0, y: 0, width: 6, height: 5 }));
}

#[test]
fn draw_text_wraps_on_line_feed_only() {
    let mut fb = Framebuffer::new(10, 20);
    let area = fb.draw_text("A\nA", &atlas(), 4, 1, 0, 2, Color::white());
    assert_eq!(
        nonzero(&fb),
        vec![
            (1, 2, 0xFF_FFFF),
            (1, 3, rgb(128, 128, 128)),
            (2, 3, 0xFF_FFFF),
            (1, 8, 0xFF_FFFF),
            (1, 9, rgb(128, 128, 128)),
            (2, 9, 0xFF_FFFF),
        ]
    );
    assert_eq!(area, Ok(Rect { x: 1, y: 0, width: 2, height: 10 }));
}

#[test]
fn draw_text_abandons_a_line_at_the_right_edge() {
    let mut fb = Framebuffer::new(5, 20);
    fb.draw_text("AAAA\nA", &atlas(), 4, 0, 0, 0, Color::white()).unwrap();
    // The pen reaches column 6 after the second glyph; the rest of the
    // first line is dropped and the second line starts again at column 0.
    assert_eq!(
        nonzero(&fb),
        vec![
            (0, 2, 0xFF_FFFF),
            (3, 2, 0xFF_FFFF),
            (0, 3, rgb(128, 128, 128)),
            (1, 3, 0xFF_FFFF),
            (3, 3, rgb(128, 128, 128)),
            (4, 3, 0xFF_FFFF),
            (0, 6, 0xFF_FFFF),
            (0, 7, rgb(128, 128, 128)),
            (1, 7, 0xFF_FFFF),
        ]
    );
}

#[test]
fn draw_text_reports_a_box_of_painted_pixels_only() {
    let mut fb = Framebuffer::new(2, 4);
    let area = fb.draw_text("A", &atlas(), 4, 1, 0, 0, Color::white());
    assert_eq!(nonzero(&fb), vec![(1, 2, 0xFF_FFFF), (1, 3, rgb(128, 128, 128))]);
    assert_eq!(area, Ok(Rect { x: 1, y: 0, width: 1, height: 4 }));
    let mut off = Framebuffer::new(2, 2);
    let none = off.draw_text("A", &atlas(), 4, 0, 0, 0, Color::white());
    assert_eq!(nonzero(&off), vec![]);
    assert_eq!(none, Ok(Rect { x: 0, y: 0, width: 1, height: 1 }));
}

#[test]
fn draw_text_blends_over_what_is_there() {
    let mut fb = Framebuffer::new(4, 4);
    fb.fill(Color::from_rgb(0, 255, 50));
    let mut small = Atlas::new();
    assert!(small.insert('A', 2, glyph_a()));
    fb.draw_text("A", &small, 2, 0, 0, 0, Color::from_rgb(255, 0, 100)).unwrap();
    assert_eq!(fb.get_pixel(0, 0), Some(rgb(255, 0, 100)));
    assert_eq!(fb.get_pixel(1, 0), Some(rgb(0, 255, 50)));
    assert_eq!(fb.get_pixel(0, 1), Some(rgb(128, 127, 75)));
    assert_eq!(fb.get_pixel(1, 1), Some(rgb(255, 0, 100)));
}

#[test]
fn draw_text_fails_before_any_write_when_a_glyph_is_missing() {
    let mut fb = Framebuffer::new(10, 10);
    let r = fb.draw_text("AAxAy", &atlas(), 4, 0, 0, 0, Color::white());
    assert_eq!(r, Err(DrawError::MissingGlyph { code: 'x' as u32, size: 4 }));
    assert_eq!(nonzero(&fb), vec![]);
    let other_size = fb.draw_text("A", &atlas(), 5, 0, 0, 0, Color::white());
    assert_eq!(other_size, Err(DrawError::MissingGlyph { code: 65, size: 5 }));
    assert_eq!(nonzero(&fb), vec![]);
}

#[test]
fn draw_text_of_nothing_paints_nothing() {
    let mut fb = Framebuffer::new(10, 10);
    assert_eq!(
        fb.draw_text("", &Atlas::new(), 4, 3, 2, 0, Color::white()),
        Ok(Rect { x: 3, y: 2, width: -2, height: -1 })
    );
    assert_eq!(
        fb.draw_text("\n\n", &Atlas::new(), usize::MAX, 0, 0, usize::MAX, Color::white()),
        Ok(Rect { x: 0, y: 0, width: 1, height: 1 })
    );
    assert_eq!(nonzero(&fb), vec![]);
}

#[test]
fn measure_text_counts_whole_bitmaps() {
    let a = atlas();
    assert_eq!(measure_text(&a, "A", 4, 1, 1, 0, 10), Ok(Rect { x: 1, y: 1, width: 2, height: 4 }));
    assert_eq!(measure_text(&a, "A B", 4, 0, 0, 0, 12), Ok(Rect { x: 0, y: 0, width: 6, height: 5 }));
    assert_eq!(
        measure_text(&a, "A\nA", 4, 1, 0, 2, 10),
        Ok(Rect { x: 1, y: 0, width: 2, height: 10 })
    );
    assert_eq!(measure_text(&a, "", 4, 3, 2, 0, 10), Ok(Rect { x: 3, y: 2, width: -2, height: -1 }));
    assert_eq!(
        measure_text(&a, "A?", 4, 0, 0, 0, 10),
        Err(DrawError::MissingGlyph { code: '?' as u32, size: 4 })
    );
}

#[test]
fn measure_text_ignores_coverage_and_the_bottom_edge() {
    let mut a = Atlas::new();
    a.insert('o', 4, Glyph::new(3, 2, 4, 0, 0, vec![0; 6]).unwrap());
    // Nothing is inked, yet the bitmap counts: 3 columns from 0, rows 2 and 3.
    assert_eq!(measure_text(&a, "o", 4, 0, 0, 0, 2), Ok(Rect { x: 0, y: 0, width: 3, height: 4 }));
    let mut fb = Framebuffer::new(2, 2);
    assert_eq!(
        fb.draw_text("o", &a, 4, 0, 0, 0, Color::white()),
        Ok(Rect { x: 0, y: 0, width: 1, height: 1 })
    );
}

#[test]
fn measure_text_stops_a_line_at_the_canvas_width() {
    let a = atlas();
    assert_eq!(
        measure_text(&a, "AAAA", 4, 0, 0, 0, 5),
        Ok(Rect { x: 0, y: 0, width: 5, height: 4 })
    );
    assert_eq!(
        measure_text(&a, "AAAA", 4, 0, 0, 0, 100),
        Ok(Rect { x: 0, y: 0, width: 11, height: 4 })
    );
}

#[test]
fn context_draws_text_with_its_own_glyphs() {
    let mut ctx = softui::context::Context::new(10, 10);
    assert_eq!(
        ctx.draw_text("A", 4, 1, 1, 0, Color::white()),
        Err(DrawError::MissingGlyph { code: 65, size: 4 })
    );
    assert!(ctx.atlas.insert('A', 4, glyph_a()));
    assert_eq!(
        ctx.draw_text("A", 4, 1, 1, 0, Color::white()),
        Ok(Rect { x: 1, y: 1, width: 2, height: 4 })
    );
    assert_eq!(
        nonzero(&ctx.framebuffer),
        vec![(1, 3, 0xFF_FFFF), (1, 4, rgb(128, 128, 128)), (2, 4, 0xFF_FFFF)]
    );
}
