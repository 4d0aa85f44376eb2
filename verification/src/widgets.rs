//! Widgets: values that have an area, can be moved and sized, and emit one
//! draw command.

use vstd::prelude::*;
use crate::color::Color;
use crate::command::{Command, Primitive, PrimitiveView};
use crate::context::{Context, DEFAULT_FONT_SIZE};
use crate::error::DrawError;
use crate::geometry::Rect;
use crate::glyph::Glyph;
use crate::image::Image;
use crate::input::MouseButton;
use crate::measure::{PenState, measure_run, measure_text};
use crate::text::{TextStyle, clamp_i32, missing_at, text_area, text_run, text_start, to_i32};

verus! {

/// Where an extent of `extent` pixels starts when it is centred in one of
/// `parent` pixels that starts at 0: half the difference, halves rounded
/// away from zero.
pub open spec fn centered_start(parent: int, extent: int) -> int {
    let d = parent - extent;
    if d >= 0 {
        (d + 1) / 2
    } else {
        -((-d + 1) / 2)
    }
}

/// Computes `centered_start`, brought into the range of `i32`.
pub fn center(parent: i32, extent: i32) -> (start: i32)
    ensures
        start == clamp_i32(centered_start(parent as int, extent as int)),
{
    let d: i128 = parent as i128 - extent as i128;
    if d >= 0 {
        to_i32((d + 1) / 2)
    } else {
        to_i32(-((-d + 1) / 2))
    }
}

/// Something with an area that emits a draw primitive.
pub trait Widget: Sized {
    /// The area of the widget.
    spec fn area_view(&self) -> Rect;

    /// What the widget draws.
    spec fn primitive_view(&self) -> PrimitiveView;

    /// The area of the widget.
    fn area(&self) -> (r: Rect)
        ensures
            r == self.area_view(),
    ;

    /// Replaces the area of the widget and keeps what it draws.
    fn set_area(&mut self, area: Rect)
        ensures
            final(self).area_view() == area,
            final(self).primitive_view() == old(self).primitive_view(),
    ;

    /// The primitive that draws the widget.
    fn primative(&self) -> (p: Primitive)
        ensures
            p@ == self.primitive_view(),
    ;

    /// The command that draws the widget on its area.
    fn draw_command(&self) -> (c: Command)
        ensures
            c@ == (self.area_view(), self.primitive_view()),
    {
        Command { area: self.area(), primitive: self.primative() }
    }

    /// Whether the widget holds other widgets.
    fn is_container() -> (b: bool)
        ensures
            !b,
    {
        false
    }

    /// Whether `button` was clicked on the widget during this frame.
    fn clicked(&self, ctx: &Context, button: MouseButton) -> (hit: bool)
        ensures
            hit == ctx.pointer.clicked_on(button, self.area_view()),
    {
        ctx.pointer.clicked(button, self.area())
    }

    /// Whether `button` went up during this frame with the cursor on the
    /// widget.
    fn up(&self, ctx: &Context, button: MouseButton) -> (hit: bool)
        ensures
            hit == (ctx.pointer.mouse_pos.overlaps(self.area_view()) && ctx.pointer.state_of(
                button,
            ).released),
    {
        ctx.pointer.up(button, self.area())
    }

    /// Whether `button` went down during this frame with the cursor on
    /// the widget.
    fn down(&self, ctx: &Context, button: MouseButton) -> (hit: bool)
        ensures
            hit == (ctx.pointer.mouse_pos.overlaps(self.area_view()) && ctx.pointer.state_of(
                button,
            ).pressed),
    {
        ctx.pointer.down(button, self.area())
    }

    /// The widget centred in a parent of the size of `parent` that starts
    /// at the origin.
    fn centered(self, parent: Rect) -> (out: Self)
        ensures
            out.area_view() == (Rect {
                x: clamp_i32(
                    centered_start(parent.width as int, self.area_view().width as int),
                ) as i32,
                y: clamp_i32(
                    centered_start(parent.height as int, self.area_view().height as int),
                ) as i32,
                width: self.area_view().width,
                height: self.area_view().height,
            }),
            out.primitive_view() == self.primitive_view(),
    {
        let mut moved = self;
        let a = moved.area();
        moved.set_area(
            Rect {
                x: center(parent.width, a.width),
                y: center(parent.height, a.height),
                width: a.width,
                height: a.height,
            },
        );
        moved
    }

    /// The widget moved to column `x`.
    fn x(self, x: i32) -> (out: Self)
        ensures
            out.area_view() == (Rect { x, ..self.area_view() }),
            out.primitive_view() == self.primitive_view(),
    {
        let mut moved = self;
        let a = moved.area();
        moved.set_area(Rect { x, y: a.y, width: a.width, height: a.height });
        moved
    }

    /// The widget moved to row `y`.
    fn y(self, y: i32) -> (out: Self)
        ensures
            out.area_view() == (Rect { y, ..self.area_view() }),
            out.primitive_view() == self.primitive_view(),
    {
        let mut moved = self;
        let a = moved.area();
        moved.set_area(Rect { x: a.x, y, width: a.width, height: a.height });
        moved
    }

    /// The widget with its width replaced.
    fn width(self, length: i32) -> (out: Self)
        ensures
            out.area_view() == (Rect { width: length, ..self.area_view() }),
            out.primitive_view() == self.primitive_view(),
    {
        let mut moved = self;
        let a = moved.area();
        moved.set_area(Rect { x: a.x, y: a.y, width: length, height: a.height });
        moved
    }

    /// The widget with its height replaced.
    fn height(self, length: i32) -> (out: Self)
        ensures
            out.area_view() == (Rect { height: length, ..self.area_view() }),
            out.primitive_view() == self.primitive_view(),
    {
        let mut moved = self;
        let a = moved.area();
        moved.set_area(Rect { x: a.x, y: a.y, width: a.width, height: length });
        moved
    }

    /// Short for `width`.
    fn w(self, width: i32) -> (out: Self)
        ensures
            out.area_view() == (Rect { width, ..self.area_view() }),
            out.primitive_view() == self.primitive_view(),
    {
        self.width(width)
    }

    /// Short for `height`.
    fn h(self, height: i32) -> (out: Self)
        ensures
            out.area_view() == (Rect { height, ..self.area_view() }),
            out.primitive_view() == self.primitive_view(),
    {
        self.height(height)
    }

    /// The widget with both its width and its height set to `value`.
    fn wh(self, value: i32) -> (out: Self)
        ensures
            out.area_view() == (Rect { width: value, height: value, ..self.area_view() }),
            out.primitive_view() == self.primitive_view(),
    {
        self.width(value).height(value)
    }

    /// Short for `y`.
    fn top(self, top: i32) -> (out: Self)
        ensures
            out.area_view() == (Rect { y: top, ..self.area_view() }),
            out.primitive_view() == self.primitive_view(),
    {
        self.y(top)
    }

    /// Short for `x`.
    fn left(self, left: i32) -> (out: Self)
        ensures
            out.area_view() == (Rect { x: left, ..self.area_view() }),
            out.primitive_view() == self.primitive_view(),
    {
        self.x(left)
    }

    /// The widget with its whole area replaced.
    fn pos(self, x: i32, y: i32, width: i32, height: i32) -> (out: Self)
        ensures
            out.area_view() == (Rect { x, y, width, height }),
            out.primitive_view() == self.primitive_view(),
    {
        self.x(x).y(y).width(width).height(height)
    }
}

/// A filled rectangle, with rounded corners if its radius is not 0.
#[derive(Clone, Copy, Debug, PartialEq, Eq, Structural)]
pub struct Rectangle {
    pub area: Rect,
    pub radius: usize,
    pub bg: Color,
}

/// A white rectangle of 10 by 10 pixels at the origin.
pub fn rect() -> (r: Rectangle)
    ensures
        r == (Rectangle {
            area: Rect { x: 0, y: 0, width: 10, height: 10 },
            radius: 0,
            bg: Color(0xFF_FFFF),
        }),
{
    Rectangle { area: Rect::new(0, 0, 10, 10), radius: 0, bg: Color::white() }
}

impl Rectangle {
    /// The rectangle with its corner radius replaced.
    pub fn radius(self, radius: usize) -> (out: Rectangle)
        ensures
            out == (Rectangle { radius, ..self }),
    {
        Rectangle { area: self.area, radius, bg: self.bg }
    }

    /// The rectangle with its colour replaced.
    pub fn bg(self, color: Color) -> (out: Rectangle)
        ensures
            out == (Rectangle { bg: color, ..self }),
    {
        Rectangle { area: self.area, radius: self.radius, bg: color }
    }

    /// Moves the rectangle to `(x, y)`.
    pub fn adjust_position(&mut self, x: i32, y: i32)
        ensures
            *final(self) == (Rectangle { area: Rect { x, y, ..old(self).area }, ..*old(self) }),
    {
        self.area.x = x;
        self.area.y = y;
    }

    /// Queues the command that draws the rectangle.
    pub fn draw(&self, ctx: &mut Context)
        ensures
            final(ctx).queue@ == old(ctx).queue@.push(
                Command { area: self.area, primitive: Primitive::Ellipse(self.radius, self.bg) },
            ),
            final(ctx).framebuffer == old(ctx).framebuffer,
            final(ctx).atlas == old(ctx).atlas,
            final(ctx).default_font_size == old(ctx).default_font_size,
            final(ctx).pointer == old(ctx).pointer,
    {
        ctx.queue_command(
            Command { area: self.area, primitive: Primitive::Ellipse(self.radius, self.bg) },
        );
    }
}

impl Widget for Rectangle {
    open spec fn area_view(&self) -> Rect {
        self.area
    }

    open spec fn primitive_view(&self) -> PrimitiveView {
        PrimitiveView::Ellipse(self.radius, self.bg)
    }

    fn area(&self) -> (r: Rect) {
        self.area
    }

    fn set_area(&mut self, area: Rect) {
        self.area = area;
    }

    fn primative(&self) -> (p: Primitive) {
        Primitive::Ellipse(self.radius, self.bg)
    }
}

/// A run of text.
#[derive(Debug)]
pub struct Text {
    pub text: String,
    pub color: Color,
    pub font_size: usize,
    pub line_height: Option<usize>,
    pub area: Rect,
    pub drawn: bool,
}

/// White text at the default font size, at the origin.
pub fn text(content: &str) -> (t: Text)
    ensures
        t.text@ == content@,
        t.color == Color(0xFF_FFFF),
        t.font_size == DEFAULT_FONT_SIZE,
        t.line_height is None,
        t.area == (Rect { x: 0, y: 0, width: 0, height: 0 }),
        !t.drawn,
{
    Text {
        text: content.to_owned(),
        color: Color::white(),
        font_size: DEFAULT_FONT_SIZE,
        line_height: None,
        area: Rect { x: 0, y: 0, width: 0, height: 0 },
        drawn: false,
    }
}

impl Context {
    /// White text at the context's default font size, at the origin.
    pub fn text(&self, content: &str) -> (t: Text)
        ensures
            t.text@ == content@,
            t.color == Color(0xFF_FFFF),
            t.font_size == self.default_font_size,
            t.line_height is None,
            t.area == (Rect { x: 0, y: 0, width: 0, height: 0 }),
            !t.drawn,
    {
        Text {
            text: content.to_owned(),
            color: Color::white(),
            font_size: self.default_font_size,
            line_height: None,
            area: Rect { x: 0, y: 0, width: 0, height: 0 },
            drawn: false,
        }
    }
}

impl Text {
    /// The text with its font size replaced.
    pub fn font_size(self, font_size: usize) -> (out: Text)
        ensures
            out == (Text { font_size, ..self }),
    {
        Text {
            text: self.text,
            color: self.color,
            font_size,
            line_height: self.line_height,
            area: self.area,
            drawn: self.drawn,
        }
    }

    /// The text with extra space between its lines.
    pub fn line_heigth(self, line_height: usize) -> (out: Text)
        ensures
            out == (Text { line_height: Some(line_height), ..self }),
    {
        Text {
            text: self.text,
            color: self.color,
            font_size: self.font_size,
            line_height: Some(line_height),
            area: self.area,
            drawn: self.drawn,
        }
    }

    /// The text with its colour replaced.
    pub fn color(self, color: Color) -> (out: Text)
        ensures
            out == (Text { color, ..self }),
    {
        Text {
            text: self.text,
            color,
            font_size: self.font_size,
            line_height: self.line_height,
            area: self.area,
            drawn: self.drawn,
        }
    }

    /// The box that the text would occupy with its first line starting at
    /// `(x, y)`, measured with the glyphs and the width of `ctx`. Text at
    /// an origin with a negative coordinate is off the screen and occupies
    /// nothing.
    pub fn calculate_area(&self, ctx: &Context, x: i32, y: i32) -> (r: Result<Rect, DrawError>)
        requires
            ctx.wf(),
        ensures
            x < 0 || y < 0 ==> r == Ok::<Rect, DrawError>(Rect { x, y, width: 0, height: 0 }),
            x >= 0 && y >= 0 ==> (match r {
                Err(e) => exists|i: int|
                    0 <= i < self.text@.len() && #[trigger] missing_at(
                        ctx.atlas@,
                        self.text@,
                        self.font_size,
                        i,
                    ) && e == (DrawError::MissingGlyph {
                        code: self.text@[i] as u32,
                        size: self.font_size,
                    }) && forall|j: int|
                        0 <= j < i ==> !missing_at(ctx.atlas@, self.text@, self.font_size, j),
                Ok(area) => {
                    let end = measure_run(
                        PenState { pen_x: x as int, pen_y: y as int, skip: false, reach: (0, 0) },
                        self.text@,
                        self.text@.len() as int,
                        TextStyle { x: x as int, ..self.style(ctx.atlas@) },
                        ctx.framebuffer@.width as int,
                    );
                    &&& forall|j: int|
                        0 <= j < self.text@.len() ==> !missing_at(
                            ctx.atlas@,
                            self.text@,
                            self.font_size,
                            j,
                        )
                    &&& area == text_area(x as int, y as int, end.reach)
                },
            }),
    {
        if x < 0 || y < 0 {
            return Ok(Rect { x, y, width: 0, height: 0 });
        }
        let line_height: usize = match self.line_height {
            Some(n) => n,
            None => 0,
        };
        measure_text(
            &ctx.atlas,
            self.text.as_str(),
            self.font_size,
            x as usize,
            y as usize,
            line_height,
            ctx.framebuffer.width(),
        )
    }

    /// How the widget's text is laid out on the glyphs `glyphs`: at its
    /// font size, from its area's left edge, with its line height or none.
    /// Measuring does not look at the colour.
    pub open spec fn style(&self, glyphs: Map<u64, Glyph>) -> TextStyle {
        TextStyle {
            glyphs,
            font_size: self.font_size,
            x: self.area.x as int,
            line_height: match self.line_height {
                Some(n) => n as int,
                None => 0,
            },
            color: 0,
        }
    }

    /// Draws the text on the framebuffer of `ctx`, with its first line
    /// starting at the origin of the widget's area, and records the box
    /// that the text occupies as the widget's area.
    ///
    /// Text whose origin has a negative coordinate is off the screen:
    /// nothing is drawn and the widget stays as it is. If a glyph is
    /// missing, nothing is drawn either and the failure names the
    /// character.
    pub fn draw(&mut self, ctx: &mut Context) -> (r: Result<(), DrawError>)
        requires
            old(ctx).wf(),
        ensures
            final(ctx).wf(),
            final(ctx).atlas == old(ctx).atlas,
            final(ctx).default_font_size == old(ctx).default_font_size,
            final(ctx).queue == old(ctx).queue,
            final(ctx).pointer == old(ctx).pointer,
            old(self).area.x < 0 || old(self).area.y < 0 ==> r is Ok && *final(self) == *old(self)
                && final(ctx).framebuffer@ == old(ctx).framebuffer@,
            old(self).area.x >= 0 && old(self).area.y >= 0 ==> (match r {
                Err(e) => *final(self) == *old(self) && final(ctx).framebuffer@ == old(
                    ctx,
                ).framebuffer@ && exists|i: int|
                    0 <= i < old(self).text@.len() && #[trigger] missing_at(
                        old(ctx).atlas@,
                        old(self).text@,
                        old(self).font_size,
                        i,
                    ) && e == (DrawError::MissingGlyph {
                        code: old(self).text@[i] as u32,
                        size: old(self).font_size,
                    }) && forall|j: int|
                        0 <= j < i ==> !missing_at(
                            old(ctx).atlas@,
                            old(self).text@,
                            old(self).font_size,
                            j,
                        ),
                Ok(_) => {
                    let t = TextStyle { color: old(self).color@, ..old(self).style(old(ctx).atlas@) };
                    let end = text_run(
                        text_start(
                            old(ctx).framebuffer@,
                            old(self).area.x as int,
                            old(self).area.y as int,
                        ),
                        old(self).text@,
                        old(self).text@.len() as int,
                        t,
                    );
                    &&& final(ctx).framebuffer@ == end.canvas
                    &&& *final(self) == (Text {
                        area: text_area(
                            old(self).area.x as int,
                            old(self).area.y as int,
                            end.reach,
                        ),
                        drawn: true,
                        ..*old(self)
                    })
                },
            }),
    {
        if self.area.x < 0 || self.area.y < 0 {
            return Ok(());
        }
        let line_height: usize = match self.line_height {
            Some(n) => n,
            None => 0,
        };
        let drawn = ctx.framebuffer.draw_text(
            self.text.as_str(),
            &ctx.atlas,
            self.font_size,
            self.area.x as usize,
            self.area.y as usize,
            line_height,
            self.color,
        );
        match drawn {
            Ok(area) => {
                self.area = area;
                self.drawn = true;
                Ok(())
            },
            Err(e) => Err(e),
        }
    }
}

impl Widget for Text {
    open spec fn area_view(&self) -> Rect {
        self.area
    }

    open spec fn primitive_view(&self) -> PrimitiveView {
        PrimitiveView::Text(self.text@, self.font_size, self.color)
    }

    fn area(&self) -> (r: Rect) {
        self.area
    }

    fn set_area(&mut self, area: Rect) {
        self.area = area;
    }

    fn primative(&self) -> (p: Primitive) {
        Primitive::Text(self.text.clone(), self.font_size, self.color)
    }
}

impl Widget for Image {
    open spec fn area_view(&self) -> Rect {
        self.area
    }

    open spec fn primitive_view(&self) -> PrimitiveView {
        PrimitiveView::Image(self.bitmap@, self.format)
    }

    fn area(&self) -> (r: Rect) {
        self.area
    }

    fn set_area(&mut self, area: Rect) {
        self.area = area;
    }

    fn primative(&self) -> (p: Primitive) {
        Primitive::Image(self.bitmap.clone(), self.format)
    }
}

} // verus!
