//! The drawing operations of the framebuffer, offered on the context that
//! owns it. Each one paints what the framebuffer's operation of the same
//! name paints and leaves the rest of the context alone.

use vstd::prelude::*;
use crate::circle::{Quadrant, clamped_radius, quadrant_box};
use crate::color::Color;
use crate::context::Context;
use crate::error::DrawError;
use crate::geometry::Rect;
use crate::image::{ImageFormat, bytes_per_pixel};
use crate::outline::outline_offsets;
use crate::text::{TextStyle, missing_at, text_area, text_run, text_start};

verus! {

impl Context {
    /// Whether nothing but the framebuffer differs from `before`.
    pub open spec fn kept(&self, before: &Context) -> bool {
        &&& self.atlas == before.atlas
        &&& self.queue == before.queue
        &&& self.pointer == before.pointer
        &&& self.default_font_size == before.default_font_size
    }

    /// The pixel at `(x, y)`, or `None` when the point is off the grid.
    pub fn get_pixel(&self, x: usize, y: usize) -> (p: Option<u32>)
        requires
            self.wf(),
        ensures
            p == (if self.framebuffer@.contains(x as int, y as int) {
                Some(self.framebuffer@.at(x as int, y as int))
            } else {
                None
            }),
    {
        self.framebuffer.get_pixel(x, y)
    }

    /// Writes one pixel. The point must be on the grid.
    pub fn draw_pixel(&mut self, x: usize, y: usize, color: u32)
        requires
            old(self).wf(),
            old(self).framebuffer@.contains(x as int, y as int),
        ensures
            final(self).wf(),
            final(self).kept(old(self)),
            final(self).framebuffer@ == old(self).framebuffer@.put(x as int, y as int, color),
    {
        self.framebuffer.draw_pixel(x, y, color);
    }

    /// Traces the outline of a circle; see `Framebuffer::draw_circle_outline`.
    pub fn draw_circle_outline(&mut self, x: i32, y: i32, r: usize, color: Color)
        requires
            old(self).wf(),
        ensures
            final(self).wf(),
            final(self).kept(old(self)),
            x < 0 || y < 0 ==> final(self).framebuffer@ == old(self).framebuffer@,
            x >= 0 && y >= 0 ==> ({
                let radius = clamped_radius(x as int, y as int, r as int);
                final(self).framebuffer@ == old(self).framebuffer@.paint_offsets(
                    x as int,
                    y as int,
                    outline_offsets(radius, -radius, 0),
                    color.0,
                )
            }),
    {
        self.framebuffer.draw_circle_outline(x, y, r, color);
    }

    /// Paints one quarter of a disk; see `Framebuffer::draw_arc`.
    pub fn draw_arc(&mut self, cx: usize, cy: usize, radius: usize, color: Color, quadrant: Quadrant)
        requires
            old(self).wf(),
            2 * radius <= usize::MAX,
        ensures
            final(self).wf(),
            final(self).kept(old(self)),
            ({
                let b = quadrant_box(cx as int, cy as int, radius as int, quadrant);
                final(self).framebuffer@ == old(self).framebuffer@.fill_disk_in(
                    cx as int,
                    cy as int,
                    radius as int,
                    b.0,
                    b.1,
                    b.2,
                    b.3,
                    color.0,
                )
            }),
    {
        self.framebuffer.draw_arc(cx, cy, radius, color, quadrant);
    }

    /// Fills a disk; see `Framebuffer::draw_circle`.
    pub fn draw_circle(&mut self, cx: usize, cy: usize, radius: usize, color: Color)
        requires
            old(self).wf(),
            cx + radius <= usize::MAX,
            cy + radius <= usize::MAX,
        ensures
            final(self).wf(),
            final(self).kept(old(self)),
            ({
                let r = clamped_radius(cx as int, cy as int, radius as int);
                final(self).framebuffer@ == old(self).framebuffer@.fill_disk_in(
                    cx as int,
                    cy as int,
                    r,
                    cx - r,
                    cy - r,
                    cx + r - 1,
                    cy + r - 1,
                    color.0,
                )
            }),
    {
        self.framebuffer.draw_circle(cx, cy, radius, color);
    }

    /// Draws a line; see `Framebuffer::draw_line`.
    pub fn draw_line(&mut self, x0: usize, y0: usize, x1: usize, y1: usize, color: Color)
        requires
            old(self).wf(),
        ensures
            final(self).wf(),
            final(self).kept(old(self)),
            final(self).framebuffer@ == old(self).framebuffer@.line(
                x0 as int,
                y0 as int,
                x1 as int,
                y1 as int,
                color.0,
            ),
    {
        self.framebuffer.draw_line(x0, y0, x1, y1, color);
    }

    /// Fills the visible part of a box.
    pub fn draw_rectangle(
        &mut self,
        x: usize,
        y: usize,
        width: usize,
        height: usize,
        color: Color,
    ) -> (r: Result<(), DrawError>)
        requires
            old(self).wf(),
        ensures
            r is Ok,
            final(self).wf(),
            final(self).kept(old(self)),
            final(self).framebuffer@ == old(self).framebuffer@.fill_rect(
                x as int,
                y as int,
                width as int,
                height as int,
                color.0,
            ),
    {
        self.framebuffer.draw_rectangle(x, y, width, height, color)
    }

    /// Fills the visible part of a box pixel by pixel.
    pub fn draw_rectangle_2(
        &mut self,
        x: usize,
        y: usize,
        width: usize,
        height: usize,
        color: u32,
    ) -> (r: Result<(), DrawError>)
        requires
            old(self).wf(),
        ensures
            r is Ok,
            final(self).wf(),
            final(self).kept(old(self)),
            final(self).framebuffer@ == old(self).framebuffer@.fill_rect(
                x as int,
                y as int,
                width as int,
                height as int,
                color,
            ),
    {
        self.framebuffer.draw_rectangle_2(x, y, width, height, color)
    }

    /// Paints a horizontal gradient over the visible part of a box.
    pub fn draw_linear_gradient(
        &mut self,
        x: usize,
        y: usize,
        width: usize,
        height: usize,
        color1: Color,
        color2: Color,
    ) -> (r: Result<(), DrawError>)
        requires
            old(self).wf(),
        ensures
            r is Ok,
            final(self).wf(),
            final(self).kept(old(self)),
            final(self).framebuffer@ == old(self).framebuffer@.gradient(
                x as int,
                y as int,
                width as int,
                height as int,
                color1@,
                color2@,
            ),
    {
        self.framebuffer.draw_linear_gradient(x, y, width, height, color1, color2)
    }

    /// Paints the visible part of the one-pixel frame of a box.
    pub fn draw_rectangle_outline(
        &mut self,
        x: usize,
        y: usize,
        width: usize,
        height: usize,
        color: Color,
    ) -> (r: Result<(), DrawError>)
        requires
            old(self).wf(),
        ensures
            r is Ok,
            final(self).wf(),
            final(self).kept(old(self)),
            final(self).framebuffer@ == old(self).framebuffer@.outline_rect(
                x as int,
                y as int,
                width as int,
                height as int,
                color.0,
            ),
    {
        self.framebuffer.draw_rectangle_outline(x, y, width, height, color)
    }

    /// Whether the box fits the framebuffer with at least one pixel to
    /// spare on the right and at the bottom.
    pub fn bounds_check(&self, x: usize, y: usize, width: usize, height: usize) -> (r: Result<
        (),
        DrawError,
    >)
        ensures
            r is Ok <==> x + width < self.framebuffer@.width && y + height
                < self.framebuffer@.height,
            r is Err ==> r == Err::<(), DrawError>(DrawError::OutOfBounds { x, y, width, height }),
    {
        self.framebuffer.bounds_check(x, y, width, height)
    }

    /// Fills a rectangle with rounded corners, or rejects a radius of more
    /// than half the width before any pixel is written.
    pub fn draw_rectangle_rounded(
        &mut self,
        x: usize,
        y: usize,
        width: usize,
        height: usize,
        radius: usize,
        color: Color,
    ) -> (r: Result<(), DrawError>)
        requires
            old(self).wf(),
        ensures
            final(self).wf(),
            final(self).kept(old(self)),
            2 * radius > width ==> r == Err::<(), DrawError>(
                DrawError::RadiusTooLarge { radius, width },
            ) && final(self).framebuffer@ == old(self).framebuffer@,
            2 * radius <= width ==> r is Ok && final(self).framebuffer@ == old(
                self,
            ).framebuffer@.fill_rounded(
                x as int,
                y as int,
                width as int,
                height as int,
                radius as int,
                color.0,
            ),
    {
        self.framebuffer.draw_rectangle_rounded(x, y, width, height, radius, color)
    }

    /// Draws a run of text with the glyphs that the context has cached;
    /// see `Framebuffer::draw_text`.
    pub fn draw_text(
        &mut self,
        text: &str,
        font_size: usize,
        x: usize,
        y: usize,
        line_height: usize,
        color: Color,
    ) -> (r: Result<Rect, DrawError>)
        requires
            old(self).wf(),
        ensures
            final(self).wf(),
            final(self).kept(old(self)),
            match r {
                Err(e) => final(self).framebuffer@ == old(self).framebuffer@ && exists|i: int|
                    0 <= i < text@.len() && #[trigger] missing_at(
                        old(self).atlas@,
                        text@,
                        font_size,
                        i,
                    ) && e == (DrawError::MissingGlyph { code: text@[i] as u32, size: font_size })
                        && forall|j: int|
                        0 <= j < i ==> !missing_at(old(self).atlas@, text@, font_size, j),
                Ok(area) => {
                    let t = TextStyle {
                        glyphs: old(self).atlas@,
                        font_size,
                        x: x as int,
                        line_height: line_height as int,
                        color: color@,
                    };
                    let end = text_run(
                        text_start(old(self).framebuffer@, x as int, y as int),
                        text@,
                        text@.len() as int,
                        t,
                    );
                    &&& forall|j: int|
                        0 <= j < text@.len() ==> !missing_at(
                            old(self).atlas@,
                            text@,
                            font_size,
                            j,
                        )
                    &&& final(self).framebuffer@ == end.canvas
                    &&& area == text_area(x as int, y as int, end.reach)
                },
            },
    {
        self.framebuffer.draw_text(text, &self.atlas, font_size, x, y, line_height, color)
    }

    /// Places decoded samples as an image; see `Framebuffer::draw_image`.
    pub fn draw_image(
        &mut self,
        data: &[u8],
        x: usize,
        y: usize,
        width: usize,
        height: usize,
        format: ImageFormat,
    )
        requires
            old(self).wf(),
        ensures
            final(self).wf(),
            final(self).kept(old(self)),
            final(self).framebuffer@ == old(self).framebuffer@.blit(
                data@,
                bytes_per_pixel(format),
                x as int,
                y as int,
                width as int,
                height as int,
            ),
    {
        self.framebuffer.draw_image(data, x, y, width, height, format);
    }
}

} // verus!
