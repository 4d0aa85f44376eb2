//! Rasterisation of disks, quarter-disks and rounded rectangles with a
//! squared-distance test on pixel centres.

use vstd::prelude::*;
use crate::canvas::{Canvas, in_box, in_disk};
use crate::color::Color;
use crate::error::DrawError;
use crate::framebuffer::Framebuffer;
use crate::raster::{clip, clipped};

verus! {

/// The quarter of a disk that `draw_arc` paints.
#[derive(Clone, Copy, Debug, PartialEq, Eq, Structural)]
pub enum Quadrant {
    TopLeft,
    TopRight,
    BottomLeft,
    BottomRight,
}

/// The box, both ends included, that bounds one quarter of the disk of
/// radius `r` about `(cx, cy)`: `(x1, y1, x2, y2)`.
pub open spec fn quadrant_box(cx: int, cy: int, r: int, q: Quadrant) -> (int, int, int, int) {
    match q {
        Quadrant::TopLeft => (cx - r, cy - r, cx, cy),
        Quadrant::TopRight => (cx, cy - r, cx + r, cy),
        Quadrant::BottomLeft => (cx - r, cy, cx, cy + r),
        Quadrant::BottomRight => (cx, cy, cx + r, cy + r),
    }
}

/// The radius that `draw_circle` and `draw_circle_outline` use: the
/// requested one, reduced so that the circle reaches no negative
/// coordinate.
pub open spec fn clamped_radius(cx: int, cy: int, r: int) -> int {
    let m = if cx <= cy { cx } else { cy };
    if r <= m { r } else { m }
}

/// Whether a rounded rectangle covers `(px, py)`: the body, which leaves
/// out the corner squares in the first `r + 1` and the last `r` rows, or
/// one of the four quarter-disks of radius `r` in the corners.
pub open spec fn in_rounded(x: int, y: int, w: int, h: int, r: int, px: int, py: int) -> bool {
    ||| in_box(x, y, w, h, px, py) && (if py - y <= r || py - y >= h - r {
        x + r <= px < x + w - r
    } else {
        true
    })
    ||| x <= px <= x + r && y <= py <= y + r && in_disk(x + r, y + r, r, px, py)
    ||| x + w - r <= px <= x + w && y <= py <= y + r && in_disk(x + w - r, y + r, r, px, py)
    ||| x <= px <= x + r && y + h - r <= py <= y + h && in_disk(x + r, y + h - r, r, px, py)
    ||| x + w - r <= px <= x + w && y + h - r <= py <= y + h && in_disk(
        x + w - r,
        y + h - r,
        r,
        px,
        py,
    )
}

impl Canvas {
    /// The visible part of a rounded rectangle set to `color`.
    pub open spec fn fill_rounded(self, x: int, y: int, w: int, h: int, r: int, color: u32) -> Canvas {
        self.map_pixels(
            |px: int, py: int, old: u32|
                if in_rounded(x, y, w, h, r, px, py) {
                    color
                } else {
                    old
                },
        )
    }
}

/// The numbers `p` below `limit` with `a <= p <= b` form the half-open
/// range that starts here.
pub open spec fn span_lo(a: int, b: int, limit: int) -> int {
    if b < 0 || a > b || a >= limit {
        0
    } else if a < 0 {
        0
    } else {
        a
    }
}

/// The end, not included, of the range that `span_lo` starts.
pub open spec fn span_hi(a: int, b: int, limit: int) -> int {
    if b < 0 || a > b || a >= limit {
        0
    } else if b >= limit {
        limit
    } else {
        b + 1
    }
}

/// Computes `span_lo` and `span_hi`.
fn visible_range(a: i128, b: i128, limit: usize) -> (range: (usize, usize))
    ensures
        range.0 == span_lo(a as int, b as int, limit as int),
        range.1 == span_hi(a as int, b as int, limit as int),
        range.0 <= range.1 <= limit,
{
    if b < 0 || a > b || a >= limit as i128 {
        (0, 0)
    } else {
        let lo: usize = if a < 0 {
            0
        } else {
            a as usize
        };
        let hi: usize = if b >= limit as i128 {
            limit
        } else {
            (b + 1) as usize
        };
        (lo, hi)
    }
}

/// The squared-distance test of `in_disk`, in 128-bit arithmetic.
fn disk_test(cx: i128, cy: i128, r: usize, px: usize, py: usize) -> (inside: bool)
    requires
        2 * r <= usize::MAX,
        -0x4_0000_0000_0000_0000 <= cx <= 0x4_0000_0000_0000_0000,
        -0x4_0000_0000_0000_0000 <= cy <= 0x4_0000_0000_0000_0000,
    ensures
        inside == in_disk(cx as int, cy as int, r as int, px as int, py as int),
{
    let dx: i128 = 2 * (px as i128 - cx) + 1;
    let dy: i128 = 2 * (py as i128 - cy) + 1;
    let a: u128 = if dx < 0 {
        (-dx) as u128
    } else {
        dx as u128
    };
    let b: u128 = if dy < 0 {
        (-dy) as u128
    } else {
        dy as u128
    };
    let d: u128 = 2 * (r as u128);
    proof {
        assert(a * a == dx * dx) by (nonlinear_arith)
            requires
                a == dx || a == -dx,
        ;
        assert(b * b == dy * dy) by (nonlinear_arith)
            requires
                b == dy || b == -dy,
        ;
        assert(d * d == 4 * r * r) by (nonlinear_arith)
            requires
                d == 2 * r,
        ;
    }
    if a > d || b > d {
        proof {
            assert(a > d ==> a * a > d * d) by (nonlinear_arith)
                requires
                    0 <= d,
            ;
            assert(b > d ==> b * b > d * d) by (nonlinear_arith)
                requires
                    0 <= d,
            ;
            assert(a * a >= 0 && b * b >= 0) by (nonlinear_arith);
        }
        false
    } else {
        proof {
            assert(a * a <= d * d && b * b <= d * d && d * d
                <= 0xFFFF_FFFF_FFFF_FFFF * 0xFFFF_FFFF_FFFF_FFFF) by (nonlinear_arith)
                requires
                    0 <= a <= d,
                    0 <= b <= d,
                    d <= 0xFFFF_FFFF_FFFF_FFFF,
            ;
        }
        let a2: u128 = a * a;
        let b2: u128 = b * b;
        let d2: u128 = d * d;
        b2 <= d2 && a2 <= d2 - b2
    }
}

impl Framebuffer {
    /// Paints the visible pixels of the box `[x1, x2] x [y1, y2]` that lie
    /// in the disk of radius `r` about `(cx, cy)`.
    fn fill_disk_box(
        &mut self,
        cx: i128,
        cy: i128,
        r: usize,
        x1: i128,
        y1: i128,
        x2: i128,
        y2: i128,
        color: u32,
    )
        requires
            old(self).wf(),
            2 * r <= usize::MAX,
            -0x4_0000_0000_0000_0000 <= cx <= 0x4_0000_0000_0000_0000,
            -0x4_0000_0000_0000_0000 <= cy <= 0x4_0000_0000_0000_0000,
        ensures
            final(self).wf(),
            final(self)@ == old(self)@.fill_disk_in(
                cx as int,
                cy as int,
                r as int,
                x1 as int,
                y1 as int,
                x2 as int,
                y2 as int,
                color,
            ),
    {
        let w = self.width();
        let h = self.height();
        let (lo_x, hi_x) = visible_range(x1, x2, w);
        let (lo_y, hi_y) = visible_range(y1, y2, h);
        let mut py: usize = lo_y;
        assert(self@ =~= old(self)@.map_pixels(
            |qx: int, qy: int, o: u32|
                if x1 <= qx <= x2 && y1 <= qy <= y2 && in_disk(
                    cx as int,
                    cy as int,
                    r as int,
                    qx,
                    qy,
                ) && qy < py {
                    color
                } else {
                    o
                },
        )) by {
            self.lemma_view_wf();
        }
        while py < hi_y
            invariant
                self.wf(),
                2 * r <= usize::MAX,
                -0x4_0000_0000_0000_0000 <= cx <= 0x4_0000_0000_0000_0000,
                -0x4_0000_0000_0000_0000 <= cy <= 0x4_0000_0000_0000_0000,
                self@.width == old(self)@.width == w,
                self@.height == old(self)@.height == h,
                lo_x <= hi_x <= w,
                lo_y <= py <= hi_y <= h,
                lo_x == span_lo(x1 as int, x2 as int, w as int),
                hi_x == span_hi(x1 as int, x2 as int, w as int),
                lo_y == span_lo(y1 as int, y2 as int, h as int),
                hi_y == span_hi(y1 as int, y2 as int, h as int),
                self@ == old(self)@.map_pixels(
                    |qx: int, qy: int, o: u32|
                        if x1 <= qx <= x2 && y1 <= qy <= y2 && in_disk(
                            cx as int,
                            cy as int,
                            r as int,
                            qx,
                            qy,
                        ) && qy < py {
                            color
                        } else {
                            o
                        },
                ),
            decreases hi_y - py,
        {
            let mut px: usize = lo_x;
            assert(self@ =~= old(self)@.map_pixels(
                |qx: int, qy: int, o: u32|
                    if x1 <= qx <= x2 && y1 <= qy <= y2 && in_disk(
                        cx as int,
                        cy as int,
                        r as int,
                        qx,
                        qy,
                    ) && (qy < py || (qy == py && qx < px)) {
                        color
                    } else {
                        o
                    },
            ));
            while px < hi_x
                invariant
                    self.wf(),
                    2 * r <= usize::MAX,
                    -0x4_0000_0000_0000_0000 <= cx <= 0x4_0000_0000_0000_0000,
                    -0x4_0000_0000_0000_0000 <= cy <= 0x4_0000_0000_0000_0000,
                    self@.width == old(self)@.width == w,
                    self@.height == old(self)@.height == h,
                    lo_x <= px <= hi_x <= w,
                    lo_y <= py < hi_y <= h,
                    lo_x == span_lo(x1 as int, x2 as int, w as int),
                    hi_x == span_hi(x1 as int, x2 as int, w as int),
                    lo_y == span_lo(y1 as int, y2 as int, h as int),
                    hi_y == span_hi(y1 as int, y2 as int, h as int),
                    self@ == old(self)@.map_pixels(
                        |qx: int, qy: int, o: u32|
                            if x1 <= qx <= x2 && y1 <= qy <= y2 && in_disk(
                                cx as int,
                                cy as int,
                                r as int,
                                qx,
                                qy,
                            ) && (qy < py || (qy == py && qx < px)) {
                                color
                            } else {
                                o
                            },
                    ),
                decreases hi_x - px,
            {
                if disk_test(cx, cy, r, px, py) {
                    self.draw_pixel(px, py, color);
                }
                px += 1;
                assert(self@ =~= old(self)@.map_pixels(
                    |qx: int, qy: int, o: u32|
                        if x1 <= qx <= x2 && y1 <= qy <= y2 && in_disk(
                            cx as int,
                            cy as int,
                            r as int,
                            qx,
                            qy,
                        ) && (qy < py || (qy == py && qx < px)) {
                            color
                        } else {
                            o
                        },
                ));
            }
            py += 1;
            assert(self@ =~= old(self)@.map_pixels(
                |qx: int, qy: int, o: u32|
                    if x1 <= qx <= x2 && y1 <= qy <= y2 && in_disk(
                        cx as int,
                        cy as int,
                        r as int,
                        qx,
                        qy,
                    ) && qy < py {
                        color
                    } else {
                        o
                    },
            ));
        }
        assert(self@ =~= old(self)@.fill_disk_in(
            cx as int,
            cy as int,
            r as int,
            x1 as int,
            y1 as int,
            x2 as int,
            y2 as int,
            color,
        ));
    }

    /// Paints one quarter of the disk of radius `radius` about
    /// `(cx, cy)`: the pixels of the quarter's bounding box whose centre,
    /// taken half a pixel right of and below the pixel's coordinates, lies
    /// within `radius` of the centre point. Twice the radius must fit the
    /// machine word.
    pub fn draw_arc(&mut self, cx: usize, cy: usize, radius: usize, color: Color, quadrant: Quadrant)
        requires
            old(self).wf(),
            2 * radius <= usize::MAX,
        ensures
            final(self).wf(),
            ({
                let b = quadrant_box(cx as int, cy as int, radius as int, quadrant);
                final(self)@ == old(self)@.fill_disk_in(
                    cx as int,
                    cy as int,
                    radius as int,
                    b.0,
                    b.1,
                    b.2,
                    b.3,
                    color.0,
                )
            }),
    {
        let x = cx as i128;
        let y = cy as i128;
        let r = radius as i128;
        let (x1, y1, x2, y2) = match quadrant {
            Quadrant::TopLeft => (x - r, y - r, x, y),
            Quadrant::TopRight => (x, y - r, x + r, y),
            Quadrant::BottomLeft => (x - r, y, x, y + r),
            Quadrant::BottomRight => (x, y, x + r, y + r),
        };
        self.fill_disk_box(x, y, radius, x1, y1, x2, y2, color.0);
    }

    /// Fills the disk about `(cx, cy)`. The radius is first reduced to
    /// `min(radius, cx, cy)`, so that no negative coordinate is touched;
    /// what leaves the framebuffer on the right or below is clipped. The
    /// bounding box of the requested circle must fit the machine word.
    pub fn draw_circle(&mut self, cx: usize, cy: usize, radius: usize, color: Color)
        requires
            old(self).wf(),
            cx + radius <= usize::MAX,
            cy + radius <= usize::MAX,
        ensures
            final(self).wf(),
            ({
                let r = clamped_radius(cx as int, cy as int, radius as int);
                final(self)@ == old(self)@.fill_disk_in(
                    cx as int,
                    cy as int,
                    r,
                    cx - r,
                    cy - r,
                    cx + r - 1,
                    cy + r - 1,
                    color.0,
                )
            }),
    {
        let m = if cx <= cy {
            cx
        } else {
            cy
        };
        let r = if radius <= m {
            radius
        } else {
            m
        };
        let x = cx as i128;
        let y = cy as i128;
        let d = r as i128;
        self.fill_disk_box(x, y, r, x - d, y - d, x + d - 1, y + d - 1, color.0);
    }

    /// Fills a rectangle whose four corners are rounded with quarter-disks
    /// of radius `radius`. A radius of more than half the width is
    /// rejected before any pixel is written. Otherwise a scanline pass
    /// fills the body, leaving out the corner squares, and the arc routine
    /// paints the four corners.
    pub fn draw_rectangle_rounded(
        &mut self,
        x: usize,
        y: usize,
        width: usize,
        height: usize,
        radius: usize,
        color: Color,
    ) -> (r: Result<(), DrawError>)
        requires
            old(self).wf(),
        ensures
            final(self).wf(),
            2 * radius > width ==> r == Err::<(), DrawError>(
                DrawError::RadiusTooLarge { radius, width },
            ) && final(self)@ == old(self)@,
            2 * radius <= width ==> r is Ok && final(self)@ == old(self)@.fill_rounded(
                x as int,
                y as int,
                width as int,
                height as int,
                radius as int,
                color.0,
            ),
    {
        if radius > width / 2 {
            return Err(DrawError::RadiusTooLarge { radius, width });
        }
        let w = self.width();
        let h = self.height();
        let c = color.0;
        let cw = clip(x, width, w);
        let ch = if cw == 0 {
            0
        } else {
            clip(y, height, h)
        };
        // The columns of the narrow scanlines that are visible.
        let narrow_x = if radius <= cw {
            x + radius
        } else {
            x + cw
        };
        let narrow_end = if width - radius <= cw {
            x + (width - radius)
        } else {
            x + cw
        };
        let mut j: usize = 0;
        assert(self@ =~= old(self)@.map_pixels(
            |px: int, py: int, o: u32|
                if in_box(x as int, y as int, width as int, height as int, px, py) && py < y + j
                    && (if py - y <= radius || py - y >= height - radius {
                    x + radius <= px < x + width - radius
                } else {
                    true
                }) {
                    c
                } else {
                    o
                },
        )) by {
            self.lemma_view_wf();
        }
        while j < ch
            invariant
                self.wf(),
                self@.width == old(self)@.width == w,
                self@.height == old(self)@.height == h,
                2 * radius <= width,
                cw == clipped(x as int, width as int, w as int),
                ch == 0 || (cw > 0 && ch == clipped(y as int, height as int, h as int)),
                j <= ch,
                cw > 0 ==> narrow_x == (if radius <= cw {
                    x + radius
                } else {
                    x + cw
                }),
                cw > 0 ==> narrow_end == (if width - radius <= cw {
                    x + (width - radius)
                } else {
                    x + cw
                }),
                self@ == old(self)@.map_pixels(
                    |px: int, py: int, o: u32|
                        if in_box(x as int, y as int, width as int, height as int, px, py) && py < y
                            + j && (if py - y <= radius || py - y >= height - radius {
                            x + radius <= px < x + width - radius
                        } else {
                            true
                        }) {
                            c
                        } else {
                            o
                        },
                ),
            decreases ch - j,
        {
            if j <= radius || j >= height - radius {
                if narrow_x < narrow_end {
                    self.fill_span(y + j, narrow_x, narrow_end, c);
                }
            } else {
                self.fill_span(y + j, x, x + cw, c);
            }
            j += 1;
            assert(self@ =~= old(self)@.map_pixels(
                |px: int, py: int, o: u32|
                    if in_box(x as int, y as int, width as int, height as int, px, py) && py < y + j
                        && (if py - y <= radius || py - y >= height - radius {
                        x + radius <= px < x + width - radius
                    } else {
                        true
                    }) {
                        c
                    } else {
                        o
                    },
            ));
        }
        let ghost body = self@;
        assert(body =~= old(self)@.map_pixels(
            |px: int, py: int, o: u32|
                if in_box(x as int, y as int, width as int, height as int, px, py) && (if py - y
                    <= radius || py - y >= height - radius {
                    x + radius <= px < x + width - radius
                } else {
                    true
                }) {
                    c
                } else {
                    o
                },
        ));
        let left = x as i128;
        let top = y as i128;
        let right = x as i128 + width as i128;
        let bottom = y as i128 + height as i128;
        let d = radius as i128;
        self.fill_disk_box(left + d, top + d, radius, left, top, left + d, top + d, c);
        self.fill_disk_box(right - d, top + d, radius, right - d, top, right, top + d, c);
        self.fill_disk_box(left + d, bottom - d, radius, left, bottom - d, left + d, bottom, c);
        self.fill_disk_box(right - d, bottom - d, radius, right - d, bottom - d, right, bottom, c);
        assert(self@ =~= old(self)@.fill_rounded(
            x as int,
            y as int,
            width as int,
            height as int,
            radius as int,
            c,
        ));
        Ok(())
    }
}

} // verus!
