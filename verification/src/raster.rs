//! Rasterisation of rectangles, frames and gradients. Geometry that leaves
//! the framebuffer is clipped silently.

use vstd::prelude::*;
use crate::canvas::{Canvas, in_box, on_frame};
use crate::color::{
    Color, blend_unit, blue_of, green_of, lemma_lerp_bounds, lemma_lerp_endpoints,
    lemma_rgb_channels, lemma_rgb_repacks, lerp_channel_spec, lerp_spec, red_of,
};
use crate::error::DrawError;
use crate::framebuffer::Framebuffer;

verus! {

/// The part of an extent of `extent` pixels starting at `origin` that is
/// visible below `limit`: `min(extent, limit - origin)`, and nothing when
/// the origin itself is not visible.
pub open spec fn clipped(origin: int, extent: int, limit: int) -> int {
    if origin >= limit {
        0
    } else if extent <= limit - origin {
        extent
    } else {
        limit - origin
    }
}

/// Computes `clipped` without overflow.
pub fn clip(origin: usize, extent: usize, limit: usize) -> (n: usize)
    ensures
        n == clipped(origin as int, extent as int, limit as int),
        origin + n <= usize::MAX,
{
    if origin >= limit {
        0
    } else if extent <= limit - origin {
        extent
    } else {
        limit - origin
    }
}

impl Framebuffer {
    /// Whether the box fits the framebuffer with at least one pixel to
    /// spare on the right and at the bottom.
    pub fn bounds_check(&self, x: usize, y: usize, width: usize, height: usize) -> (r: Result<
        (),
        DrawError,
    >)
        ensures
            r is Ok <==> x + width < self@.width && y + height < self@.height,
            r is Err ==> r == Err::<(), DrawError>(DrawError::OutOfBounds { x, y, width, height }),
    {
        let w = self.width();
        let h = self.height();
        if x >= w || width >= w - x || y >= h || height >= h - y {
            Err(DrawError::OutOfBounds { x, y, width, height })
        } else {
            Ok(())
        }
    }

    /// Paints the pixels `x0 <= x < x1` of row `y`.
    pub fn fill_span(&mut self, y: usize, x0: usize, x1: usize, color: u32)
        requires
            old(self).wf(),
            y < old(self)@.height,
            x0 <= x1 <= old(self)@.width,
        ensures
            final(self).wf(),
            final(self)@ == old(self)@.fill_rect(x0 as int, y as int, x1 - x0, 1, color),
    {
        let mut i: usize = x0;
        assert(self@ =~= old(self)@.fill_rect(x0 as int, y as int, 0, 1, color)) by {
            self.lemma_view_wf();
        }
        while i < x1
            invariant
                self.wf(),
                x0 <= i <= x1 <= self@.width,
                y < self@.height,
                self@ == old(self)@.fill_rect(x0 as int, y as int, i - x0, 1, color),
            decreases x1 - i,
        {
            self.draw_pixel(i, y, color);
            i += 1;
            assert(self@ =~= old(self)@.fill_rect(x0 as int, y as int, i - x0, 1, color));
        }
    }

    /// Fills the visible part of the box with `color`, one scanline per
    /// row. A box that reaches beyond the right or the bottom edge is cut
    /// down to what is visible; the pixel array keeps its length.
    pub fn draw_rectangle(
        &mut self,
        x: usize,
        y: usize,
        width: usize,
        height: usize,
        color: Color,
    ) -> (r: Result<(), DrawError>)
        requires
            old(self).wf(),
        ensures
            r is Ok,
            final(self).wf(),
            final(self).len_spec() == old(self).len_spec(),
            final(self)@ == old(self)@.fill_rect(
                x as int,
                y as int,
                width as int,
                height as int,
                color.0,
            ),
    {
        proof {
            self.lemma_view_wf();
        }
        let w = self.width();
        let h = self.height();
        let cw = clip(x, width, w);
        let ch = if cw == 0 {
            0
        } else {
            clip(y, height, h)
        };
        let mut j: usize = 0;
        assert(self@ =~= old(self)@.fill_rect(x as int, y as int, cw as int, 0, color.0)) by {
            self.lemma_view_wf();
        }
        while j < ch
            invariant
                self.wf(),
                ch > 0 ==> x + cw <= w,
                self@.width == old(self)@.width == w,
                self@.height == old(self)@.height == h,
                cw == clipped(x as int, width as int, self@.width as int),
                ch == 0 || ch == clipped(y as int, height as int, self@.height as int),
                j <= ch,
                self@ == old(self)@.fill_rect(x as int, y as int, cw as int, j as int, color.0),
            decreases ch - j,
        {
            self.fill_span(y + j, x, x + cw, color.0);
            j += 1;
            assert(self@ =~= old(self)@.fill_rect(x as int, y as int, cw as int, j as int, color.0));
        }
        assert(self@ =~= old(self)@.fill_rect(
            x as int,
            y as int,
            width as int,
            height as int,
            color.0,
        ));
        proof {
            self.lemma_view_wf();
        }
        Ok(())
    }

    /// Fills the visible part of the box pixel by pixel. Paints what
    /// `draw_rectangle` paints.
    pub fn draw_rectangle_2(
        &mut self,
        x: usize,
        y: usize,
        width: usize,
        height: usize,
        color: u32,
    ) -> (r: Result<(), DrawError>)
        requires
            old(self).wf(),
        ensures
            r is Ok,
            final(self).wf(),
            final(self)@ == old(self)@.fill_rect(
                x as int,
                y as int,
                width as int,
                height as int,
                color,
            ),
    {
        let w = self.width();
        let h = self.height();
        let cw = clip(x, width, w);
        let ch = clip(y, height, h);
        let mut j: usize = 0;
        assert(self@ =~= old(self)@.map_pixels(
            |px: int, py: int, o: u32|
                if in_box(x as int, y as int, cw as int, ch as int, px, py) && py < y + j {
                    color
                } else {
                    o
                },
        )) by {
            self.lemma_view_wf();
        }
        while j < ch
            invariant
                self.wf(),
                self@.width == old(self)@.width == w,
                self@.height == old(self)@.height == h,
                cw == clipped(x as int, width as int, self@.width as int),
                ch == clipped(y as int, height as int, self@.height as int),
                j <= ch,
                self@ == old(self)@.map_pixels(
                    |px: int, py: int, o: u32|
                        if in_box(x as int, y as int, cw as int, ch as int, px, py) && py < y + j {
                            color
                        } else {
                            o
                        },
                ),
            decreases ch - j,
        {
            let mut i: usize = 0;
            while i < cw
                invariant
                    self.wf(),
                    self@.width == old(self)@.width == w,
                    self@.height == old(self)@.height == h,
                    cw == clipped(x as int, width as int, self@.width as int),
                    ch == clipped(y as int, height as int, self@.height as int),
                    j < ch,
                    i <= cw,
                    self@ == old(self)@.map_pixels(
                        |px: int, py: int, o: u32|
                            if in_box(x as int, y as int, cw as int, ch as int, px, py) && (py < y
                                + j || (py == y + j && px < x + i)) {
                                color
                            } else {
                                o
                            },
                    ),
                decreases cw - i,
            {
                self.draw_pixel(x + i, y + j, color);
                i += 1;
                assert(self@ =~= old(self)@.map_pixels(
                    |px: int, py: int, o: u32|
                        if in_box(x as int, y as int, cw as int, ch as int, px, py) && (py < y + j
                            || (py == y + j && px < x + i)) {
                            color
                        } else {
                            o
                        },
                ));
            }
            j += 1;
            assert(self@ =~= old(self)@.map_pixels(
                |px: int, py: int, o: u32|
                    if in_box(x as int, y as int, cw as int, ch as int, px, py) && py < y + j {
                        color
                    } else {
                        o
                    },
            ));
        }
        assert(self@ =~= old(self)@.fill_rect(x as int, y as int, width as int, height as int, color));
        Ok(())
    }

    /// Paints the visible part of the one-pixel frame of the box: its top
    /// and bottom scanlines and its left and right columns. The interior
    /// is left as it was.
    pub fn draw_rectangle_outline(
        &mut self,
        x: usize,
        y: usize,
        width: usize,
        height: usize,
        color: Color,
    ) -> (r: Result<(), DrawError>)
        requires
            old(self).wf(),
        ensures
            r is Ok,
            final(self).wf(),
            final(self)@ == old(self)@.outline_rect(
                x as int,
                y as int,
                width as int,
                height as int,
                color.0,
            ),
    {
        let w = self.width();
        let h = self.height();
        let c = color.0;
        let cw = clip(x, width, w);
        let ch = if cw == 0 {
            0
        } else {
            clip(y, height, h)
        };
        let mut j: usize = 0;
        assert(self@ =~= old(self)@.map_pixels(
            |px: int, py: int, o: u32|
                if on_frame(x as int, y as int, width as int, height as int, px, py) && py < y + j {
                    c
                } else {
                    o
                },
        )) by {
            self.lemma_view_wf();
        }
        while j < ch
            invariant
                self.wf(),
                self@.width == old(self)@.width == w,
                self@.height == old(self)@.height == h,
                cw == clipped(x as int, width as int, w as int),
                ch == 0 || (cw > 0 && ch == clipped(y as int, height as int, h as int)),
                j <= ch,
                self@ == old(self)@.map_pixels(
                    |px: int, py: int, o: u32|
                        if on_frame(x as int, y as int, width as int, height as int, px, py) && py
                            < y + j {
                            c
                        } else {
                            o
                        },
                ),
            decreases ch - j,
        {
            let row = y + j;
            if j == 0 || j == height - 1 {
                self.fill_span(row, x, x + cw, c);
            } else {
                self.draw_pixel(x, row, c);
                if cw == width {
                    self.draw_pixel(x + (width - 1), row, c);
                }
            }
            j += 1;
            assert(self@ =~= old(self)@.map_pixels(
                |px: int, py: int, o: u32|
                    if on_frame(x as int, y as int, width as int, height as int, px, py) && py < y
                        + j {
                        c
                    } else {
                        o
                    },
            ));
        }
        assert(self@ =~= old(self)@.outline_rect(
            x as int,
            y as int,
            width as int,
            height as int,
            c,
        ));
        Ok(())
    }

    /// Paints a horizontal gradient over the visible part of the box: the
    /// column at offset `i` from the left edge gets the colour `i / width`
    /// of the way from `color1` to `color2`, in every row.
    pub fn draw_linear_gradient(
        &mut self,
        x: usize,
        y: usize,
        width: usize,
        height: usize,
        color1: Color,
        color2: Color,
    ) -> (r: Result<(), DrawError>)
        requires
            old(self).wf(),
        ensures
            r is Ok,
            final(self).wf(),
            final(self)@ == old(self)@.gradient(
                x as int,
                y as int,
                width as int,
                height as int,
                color1@,
                color2@,
            ),
    {
        let w = self.width();
        let h = self.height();
        let cw = clip(x, width, w);
        let ch = if cw == 0 {
            0
        } else {
            clip(y, height, h)
        };
        let mut j: usize = 0;
        assert(self@ =~= old(self)@.map_pixels(
            |px: int, py: int, o: u32|
                if in_box(x as int, y as int, width as int, height as int, px, py) && py < y + j {
                    lerp_spec(color1@, color2@, px - x, width as int) as u32
                } else {
                    o
                },
        )) by {
            self.lemma_view_wf();
        }
        while j < ch
            invariant
                self.wf(),
                self@.width == old(self)@.width == w,
                self@.height == old(self)@.height == h,
                cw == clipped(x as int, width as int, w as int),
                ch == 0 || (cw > 0 && ch == clipped(y as int, height as int, h as int)),
                j <= ch,
                self@ == old(self)@.map_pixels(
                    |px: int, py: int, o: u32|
                        if in_box(x as int, y as int, width as int, height as int, px, py) && py < y
                            + j {
                            lerp_spec(color1@, color2@, px - x, width as int) as u32
                        } else {
                            o
                        },
                ),
            decreases ch - j,
        {
            let mut i: usize = 0;
            while i < cw
                invariant
                    self.wf(),
                    self@.width == old(self)@.width == w,
                    self@.height == old(self)@.height == h,
                    cw == clipped(x as int, width as int, w as int),
                    cw > 0 && ch == clipped(y as int, height as int, h as int),
                    j < ch,
                    i <= cw,
                    self@ == old(self)@.map_pixels(
                        |px: int, py: int, o: u32|
                            if in_box(x as int, y as int, width as int, height as int, px, py) && (
                            py < y + j || (py == y + j && px < x + i)) {
                                lerp_spec(color1@, color2@, px - x, width as int) as u32
                            } else {
                                o
                            },
                    ),
                decreases cw - i,
            {
                let c = color1.lerp(color2, i, width);
                self.draw_pixel(x + i, y + j, c.0);
                i += 1;
                assert(self@ =~= old(self)@.map_pixels(
                    |px: int, py: int, o: u32|
                        if in_box(x as int, y as int, width as int, height as int, px, py) && (py
                            < y + j || (py == y + j && px < x + i)) {
                            lerp_spec(color1@, color2@, px - x, width as int) as u32
                        } else {
                            o
                        },
                ));
            }
            j += 1;
            assert(self@ =~= old(self)@.map_pixels(
                |px: int, py: int, o: u32|
                    if in_box(x as int, y as int, width as int, height as int, px, py) && py < y
                        + j {
                        lerp_spec(color1@, color2@, px - x, width as int) as u32
                    } else {
                        o
                    },
            ));
        }
        assert(self@ =~= old(self)@.gradient(
            x as int,
            y as int,
            width as int,
            height as int,
            color1@,
            color2@,
        ));
        Ok(())
    }
}

/// Clipping changes nothing that is drawn, and clipping twice is clipping
/// once. A rectangle that reaches beyond the right or the bottom edge
/// paints what the rectangle cut down to
/// `min(requested, viewport_extent - origin)` paints, and every pixel it
/// writes has a row-major index below `width * height`.
pub proof fn lemma_clipping_idempotent(c: Canvas, x: int, y: int, w: int, h: int, color: u32)
    requires
        c.wf(),
        0 <= x,
        0 <= y,
        0 <= w,
        0 <= h,
    ensures
        c.fill_rect(x, y, w, h, color) == c.fill_rect(
            x,
            y,
            clipped(x, w, c.width as int),
            clipped(y, h, c.height as int),
            color,
        ),
        clipped(x, clipped(x, w, c.width as int), c.width as int) == clipped(x, w, c.width as int),
        clipped(y, clipped(y, h, c.height as int), c.height as int) == clipped(
            y,
            h,
            c.height as int,
        ),
        x + clipped(x, w, c.width as int) <= c.width || clipped(x, w, c.width as int) == 0,
        y + clipped(y, h, c.height as int) <= c.height || clipped(y, h, c.height as int) == 0,
        forall|px: int, py: int|
            c.contains(px, py) && #[trigger] in_box(x, y, w, h, px, py) ==> 0 <= py * c.width + px
                < c.width * c.height,
{
    assert(c.fill_rect(x, y, w, h, color) =~= c.fill_rect(
        x,
        y,
        clipped(x, w, c.width as int),
        clipped(y, h, c.height as int),
        color,
    ));
    assert forall|px: int, py: int|
        c.contains(px, py) && #[trigger] in_box(x, y, w, h, px, py) implies 0 <= py * c.width + px
        < c.width * c.height by {
        crate::framebuffer::lemma_row_major(c.width as int, c.height as int, px, py);
    }
}

/// The outline of a box of at least 2 by 2 pixels touches exactly the
/// cells of its perimeter: a pixel of the canvas has the outline's colour
/// afterwards if it lies on the frame, and is as it was before if it does
/// not. No cell strictly inside the box lies on the frame.
pub proof fn lemma_outline_perimeter(
    c: Canvas,
    x: int,
    y: int,
    w: int,
    h: int,
    color: u32,
    px: int,
    py: int,
)
    requires
        c.wf(),
        w >= 2,
        h >= 2,
        c.contains(px, py),
    ensures
        on_frame(x, y, w, h, px, py) ==> c.outline_rect(x, y, w, h, color).at(px, py) == color,
        !on_frame(x, y, w, h, px, py) ==> c.outline_rect(x, y, w, h, color).at(px, py) == c.at(
            px,
            py,
        ),
        x < px < x + w - 1 && y < py < y + h - 1 ==> !on_frame(x, y, w, h, px, py),
        on_frame(x, y, w, h, px, py) <==> in_box(x, y, w, h, px, py) && !(x < px < x + w - 1 && y
            < py < y + h - 1),
{
}

/// The ends of a gradient between two packed colours. In every visible
/// row of the box the leftmost column has exactly `c1`, and each channel
/// of the rightmost column is within one gradient step of that channel of
/// `c2`.
pub proof fn lemma_gradient_endpoints(
    c: Canvas,
    x: int,
    y: int,
    w: int,
    h: int,
    c1: int,
    c2: int,
    py: int,
)
    requires
        c.wf(),
        0 < w,
        0 <= c1 <= 0xFF_FFFF,
        0 <= c2 <= 0xFF_FFFF,
        y <= py < y + h,
    ensures
        c.contains(x, py) ==> c.gradient(x, y, w, h, c1, c2).at(x, py) == c1,
        c.contains(x + w - 1, py) ==> ({
            let last = c.gradient(x, y, w, h, c1, c2).at(x + w - 1, py) as int;
            &&& lerp_channel_spec(red_of(c1), red_of(c2), w - 1, w) == red_of(last)
            &&& lerp_channel_spec(green_of(c1), green_of(c2), w - 1, w) == green_of(last)
            &&& lerp_channel_spec(blue_of(c1), blue_of(c2), w - 1, w) == blue_of(last)
            &&& red_of(c2) - blend_unit(red_of(c1), red_of(c2), w) <= red_of(last) <= red_of(c2)
                + blend_unit(red_of(c1), red_of(c2), w)
            &&& green_of(c2) - blend_unit(green_of(c1), green_of(c2), w) <= green_of(last)
                <= green_of(c2) + blend_unit(green_of(c1), green_of(c2), w)
            &&& blue_of(c2) - blend_unit(blue_of(c1), blue_of(c2), w) <= blue_of(last) <= blue_of(
                c2,
            ) + blend_unit(blue_of(c1), blue_of(c2), w)
        }),
{
    lemma_rgb_repacks(c1);
    lemma_rgb_repacks(c2);
    lemma_lerp_endpoints(red_of(c1), red_of(c2), w);
    lemma_lerp_endpoints(green_of(c1), green_of(c2), w);
    lemma_lerp_endpoints(blue_of(c1), blue_of(c2), w);
    lemma_lerp_bounds(red_of(c1), red_of(c2), w - 1, w);
    lemma_lerp_bounds(green_of(c1), green_of(c2), w - 1, w);
    lemma_lerp_bounds(blue_of(c1), blue_of(c2), w - 1, w);
    lemma_blend_unit_nonneg(red_of(c1), red_of(c2), w);
    lemma_blend_unit_nonneg(green_of(c1), green_of(c2), w);
    lemma_blend_unit_nonneg(blue_of(c1), blue_of(c2), w);
    let r = lerp_channel_spec(red_of(c1), red_of(c2), w - 1, w);
    let g = lerp_channel_spec(green_of(c1), green_of(c2), w - 1, w);
    let b = lerp_channel_spec(blue_of(c1), blue_of(c2), w - 1, w);
    lemma_rgb_channels(r, g, b);
}

/// A gradient step is never negative.
proof fn lemma_blend_unit_nonneg(a: int, b: int, den: int)
    requires
        0 < den,
    ensures
        blend_unit(a, b, den) >= 0,
{
    let d = if a <= b { b - a } else { a - b };
    vstd::arithmetic::div_mod::lemma_div_pos_is_pos(d + den - 1, den);
}

} // verus!
