use softui::color::Color;
use softui::command::Primitive;
use softui::context::{Context, FrameStatus, DEFAULT_FONT_SIZE};
use softui::error::DrawError;
use softui::geometry::Rect;
use softui::glyph::Glyph;
use softui::image::{Image, ImageFormat};
use softui::input::{Event, MouseButton};
use softui::widgets::{center, rect, text, Rectangle, Text, Widget};

#[test]
fn rect_starts_white_ten_by_ten() {
    let r = rect();
    assert_eq!(
        r,
        Rectangle { area: Rect::new(0, 0, 10, 10), radius: 0, bg: Color::white() }
    );
    assert_eq!(r.area(), Rect::new(0, 0, 10, 10));
    assert!(!Rectangle::is_container());
}

#[test]
fn builders_change_one_thing() {
    let r = rect().bg(Color::red()).radius(4);
    assert_eq!(r, Rectangle { area: Rect::new(0, 0, 10, 10), radius: 4, bg: Color::red() });
    assert_eq!(r.x(7).area, Rect::new(7, 0, 10, 10));
    assert_eq!(r.y(-7).area, Rect::new(0, -7, 10, 10));
    assert_eq!(r.width(30).area, Rect::new(0, 0, 30, 10));
    assert_eq!(r.height(40).area, Rect::new(0, 0, 10, 40));
    assert_eq!(r.w(31).area, Rect::new(0, 0, 31, 10));
    assert_eq!(r.h(41).area, Rect::new(0, 0, 10, 41));
    assert_eq!(r.wh(50).area, Rect::new(0, 0, 50, 50));
    assert_eq!(r.top(3).area, Rect::new(0, 3, 10, 10));
    assert_eq!(r.left(2).area, Rect::new(2, 0, 10, 10));
    assert_eq!(r.pos(1, 2, 3, 4).area, Rect::new(1, 2, 3, 4));
    let moved = r.pos(1, 2, 3, 4);
    assert_eq!((moved.radius, moved.bg), (4, Color::red()));
}

#[test]
fn centered_rounds_halves_away_from_zero() {
    assert_eq!(center(100, 10), 45);
    assert_eq!(center(5, 2), 2);
    assert_eq!(center(2, 5), -2);
    assert_eq!(center(10, 10), 0);
    assert_eq!(center(4, 1), 2);
    assert_eq!(center(1, 4), -2);
    assert_eq!(center(i32::MAX, i32::MIN), i32::MAX);
    assert_eq!(center(i32::MIN, i32::MAX), i32::MIN);
    let parent = Rect::new(500, 500, 100, 60);
    assert_eq!(rect().centered(parent).area, Rect::new(45, 25, 10, 10));
    assert_eq!(rect().wh(7).centered(parent).area, Rect::new(47, 27, 7, 7));
}

#[test]
fn adjust_position_moves_only() {
    let mut r = rect().wh(3);
    r.adjust_position(8, 9);
    assert_eq!(r.area, Rect::new(8, 9, 3, 3));
    r.set_area(Rect::new(1, 1, 1, 1));
    assert_eq!(r.area(), Rect::new(1, 1, 1, 1));
}

#[test]
fn rectangle_draws_through_the_queue() {
    let mut ctx = Context::new(20, 20);
    rect().bg(Color::new(5)).pos(2, 2, 4, 4).draw(&mut ctx);
    rect().bg(Color::new(6)).pos(10, 10, 8, 8).radius(2).draw(&mut ctx);
    assert_eq!(ctx.queue.len(), 2);
    assert_eq!(ctx.framebuffer.get_pixel(3, 3), Some(0));
    assert_eq!(ctx.draw_frame(), Ok(FrameStatus::Done));
    assert_eq!(ctx.framebuffer.get_pixel(2, 2), Some(5));
    assert_eq!(ctx.framebuffer.get_pixel(5, 5), Some(5));
    assert_eq!(ctx.framebuffer.get_pixel(6, 6), Some(0));
    assert_eq!(ctx.framebuffer.get_pixel(14, 14), Some(6));
    assert_eq!(ctx.framebuffer.get_pixel(10, 10), Some(0));
}

#[test]
fn draw_command_pairs_area_and_primitive() {
    let c = rect().radius(3).bg(Color::blue()).pos(1, 2, 30, 40).draw_command();
    assert_eq!(c.area, Rect::new(1, 2, 30, 40));
    assert!(matches!(c.primitive, Primitive::Ellipse(3, color) if color == Color::blue()));
    let t = text("hi").font_size(9).color(Color::green()).x(4).draw_command();
    assert_eq!(t.area, Rect::new(4, 0, 0, 0));
    match t.primitive {
        Primitive::Text(s, size, color) => {
            assert_eq!(s, "hi");
            assert_eq!(size, 9);
            assert_eq!(color, Color::green());
        }
        _ => panic!("a text widget draws text"),
    }
    let img = Image::from_decoded(ImageFormat::JPEG, 1, 1, vec![7, 8, 9]).unwrap();
    assert_eq!(img.area(), Rect::new(0, 0, 1, 1));
    match img.y(5).primative() {
        Primitive::Image(data, format) => {
            assert_eq!(data, vec![7, 8, 9]);
            assert_eq!(format, ImageFormat::JPEG);
        }
        _ => panic!("an image widget draws an image"),
    }
}

#[test]
fn text_starts_white_at_the_default_size() {
    let t = text("abc");
    assert_eq!(t.text, "abc");
    assert_eq!(t.color, Color::white());
    assert_eq!(t.font_size, DEFAULT_FONT_SIZE);
    assert_eq!(DEFAULT_FONT_SIZE, 18);
    assert_eq!(t.line_height, None);
    assert_eq!(t.area, Rect::default());
    assert!(!t.drawn);
    let u: Text = t.font_size(30).line_heigth(4).color(Color::black());
    assert_eq!((u.font_size, u.line_height, u.color), (30, Some(4), Color::black()));
    assert_eq!(u.text, "abc");
}

#[test]
fn text_widget_measures_with_the_context() {
    let mut ctx = Context::new(10, 10);
    assert!(ctx.atlas.insert('A', 4, Glyph::new(2, 2, 3, 0, 0, vec![255, 0, 128, 255]).unwrap()));
    let t = text("A\nA").font_size(4).line_heigth(2);
    assert_eq!(t.calculate_area(&ctx, 1, 0), Ok(Rect { x: 1, y: 0, width: 2, height: 10 }));
    assert_eq!(t.calculate_area(&ctx, -4, 3), Ok(Rect { x: -4, y: 3, width: 0, height: 0 }));
    assert_eq!(text("?").calculate_area(&ctx, 0, -1), Ok(Rect { x: 0, y: -1, width: 0, height: 0 }));
    assert_eq!(
        text("AB").font_size(4).calculate_area(&ctx, 0, 0),
        Err(DrawError::MissingGlyph { code: 66, size: 4 })
    );
    assert_eq!(
        text("A").calculate_area(&ctx, 0, 0),
        Err(DrawError::MissingGlyph { code: 65, size: 18 })
    );
}

#[test]
fn widget_hit_tests_use_its_area() {
    let mut ctx = Context::new(64, 64);
    let w = rect().pos(0, 0, 50, 50);
    let far = rect().pos(55, 55, 5, 5);
    ctx.event(Some(Event::MousePos(10, 10)));
    ctx.event(Some(Event::MouseDown(MouseButton::Left)));
    assert!(w.down(&ctx, MouseButton::Left));
    assert!(!w.up(&ctx, MouseButton::Left));
    assert!(!far.down(&ctx, MouseButton::Left));
    ctx.event(Some(Event::MouseUp(MouseButton::Left)));
    assert!(w.clicked(&ctx, MouseButton::Left));
    assert!(w.up(&ctx, MouseButton::Left));
    assert!(!far.clicked(&ctx, MouseButton::Left));
    assert!(!w.clicked(&ctx, MouseButton::Right));
    ctx.draw_frame().unwrap();
    assert!(!w.clicked(&ctx, MouseButton::Left));
    assert!(!w.up(&ctx, MouseButton::Left));
    assert!(!w.down(&ctx, MouseButton::Left));
}

#[test]
fn text_widget_draws_and_records_its_box() {
    let mut ctx = Context::new(10, 12);
    assert!(ctx.atlas.insert('A', 4, Glyph::new(2, 2, 3, 0, 0, vec![255, 0, 128, 255]).unwrap()));
    let mut t = text("A\nA").font_size(4).line_heigth(2).color(Color::new(0x0000FF)).x(1);
    assert_eq!(t.draw(&mut ctx), Ok(()));
    assert!(t.drawn);
    assert_eq!(t.area, Rect { x: 1, y: 0, width: 2, height: 10 });
    assert_eq!(t.text, "A\nA");
    assert_eq!(ctx.framebuffer.get_pixel(1, 2), Some(0x0000FF));
    assert_eq!(ctx.framebuffer.get_pixel(1, 3), Some(0x000080));
    assert_eq!(ctx.framebuffer.get_pixel(2, 9), Some(0x0000FF));
    assert_eq!(ctx.framebuffer.get_pixel(2, 2), Some(0));
    assert!(ctx.queue.is_empty());
}

#[test]
fn text_widget_draw_fails_or_skips_without_a_trace() {
    let mut ctx = Context::new(10, 12);
    let mut missing = text("A").font_size(4).y(2);
    assert_eq!(missing.draw(&mut ctx), Err(DrawError::MissingGlyph { code: 65, size: 4 }));
    assert!(!missing.drawn);
    assert_eq!(missing.area, Rect::new(0, 2, 0, 0));
    let mut off = text("A").font_size(4).x(-1);
    assert_eq!(off.draw(&mut ctx), Ok(()));
    assert!(!off.drawn);
    assert_eq!(off.area, Rect::new(-1, 0, 0, 0));
    for y in 0..12 {
        for x in 0..10 {
            assert_eq!(ctx.framebuffer.get_pixel(x, y), Some(0));
        }
    }
}

#[test]
fn context_keeps_the_default_font_size() {
    let mut ctx = Context::new(4, 4);
    assert_eq!(ctx.default_font_size(), 18);
    assert_eq!(ctx.text("a").font_size, 18);
    ctx.set_default_font_size(20);
    assert_eq!(ctx.default_font_size(), 20);
    let t = ctx.text("abc");
    assert_eq!((t.font_size, t.color, t.line_height, t.drawn), (20, Color::white(), None, false));
    assert_eq!(t.text, "abc");
    assert_eq!(text("abc").font_size, 18);
    assert_eq!((ctx.width(), ctx.height()), (4, 4));
}
