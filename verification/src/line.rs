//! A line stepped one column at a time with an integer error term. The
//! stepping serves slopes between 0 and 1; other slopes degenerate.

use vstd::prelude::*;
use crate::canvas::{Canvas, lemma_canvas_ext};
use crate::color::Color;
use crate::framebuffer::Framebuffer;

verus! {

/// How many rows the line has gone down after `k` columns, for a run of
/// `dx` columns and a fall of `dy` rows. For a slope between 0 and 1 this
/// is `k * dy / dx` rounded to nearest, halves rounded down. A rising line
/// stays level, and a line steeper than the diagonal follows the diagonal.
pub open spec fn line_rise(dx: int, dy: int, k: int) -> int {
    if dy <= 0 {
        0
    } else if dy >= dx {
        k
    } else {
        (2 * k * dy + dx - 1) / (2 * dx)
    }
}

impl Canvas {
    /// The visible pixels of the line from `(x0, y0)` towards `(x1, y1)`,
    /// one per column `x0 <= px < x1`, set to `color`.
    pub open spec fn line(self, x0: int, y0: int, x1: int, y1: int, color: u32) -> Canvas {
        self.map_pixels(
            |px: int, py: int, old: u32|
                if x0 <= px < x1 && py == y0 + line_rise(x1 - x0, y1 - y0, px - x0) {
                    color
                } else {
                    old
                },
        )
    }
}

/// The error term pins the quotient: with `e == k * dy - s * dx` and
/// `-dx < 2e <= dx`, the rise after `k` columns is `s`.
proof fn lemma_rise(dx: int, dy: int, k: int, s: int, e: int)
    requires
        0 < dy < dx,
        0 <= k,
        e == k * dy - s * dx,
        -dx < 2 * e <= dx,
    ensures
        line_rise(dx, dy, k) == s,
{
    let n = 2 * k * dy + dx - 1;
    let d = 2 * dx;
    assert(n == s * d + (2 * e + dx - 1)) by (nonlinear_arith)
        requires
            n == 2 * k * dy + dx - 1,
            d == 2 * dx,
            e == k * dy - s * dx,
    ;
    vstd::arithmetic::div_mod::lemma_fundamental_div_mod_converse(n, d, s, 2 * e + dx - 1);
}

impl Framebuffer {
    /// Draws a line from `(x0, y0)` to the column before `x1`, one pixel
    /// per column, going down one row whenever the accumulated slope
    /// passes one half. Pixels off the framebuffer are skipped.
    pub fn draw_line(&mut self, x0: usize, y0: usize, x1: usize, y1: usize, color: Color)
        requires
            old(self).wf(),
        ensures
            final(self).wf(),
            final(self)@ == old(self)@.line(x0 as int, y0 as int, x1 as int, y1 as int, color.0),
    {
        let w = self.width();
        let h = self.height();
        let c = color.0;
        let ghost want = old(self)@.line(x0 as int, y0 as int, x1 as int, y1 as int, c);
        let ghost gdx = x1 - x0;
        let ghost gdy = y1 - y0;
        assert(self@ =~= old(self)@.map_pixels(
            |px: int, py: int, o: u32|
                if x0 <= px < x0 && py == y0 + line_rise(gdx, gdy, px - x0) {
                    c
                } else {
                    o
                },
        )) by {
            self.lemma_view_wf();
        }
        if x0 >= x1 || x0 >= w || y0 >= h {
            assert(self@ =~= want);
            return ;
        }
        let dx: i128 = (x1 - x0) as i128;
        let dy: i128 = y1 as i128 - y0 as i128;
        let mut x: usize = x0;
        let mut y: usize = y0;
        let mut e: i128 = 0;
        proof {
            if 0 < dy < dx {
                lemma_rise(dx as int, dy as int, 0, 0, 0);
            }
        }
        while x < x1 && x < w && y < h
            invariant
                self.wf(),
                self@.width == old(self)@.width == w,
                self@.height == old(self)@.height == h,
                x0 <= x <= x1,
                x0 < x1,
                y0 <= y,
                dx == x1 - x0 == gdx,
                dy == y1 - y0 == gdy,
                y == y0 + line_rise(gdx, gdy, x - x0),
                0 < dy < dx ==> e == (x - x0) * dy - (y - y0) * dx && -dx < 2 * e <= dx,
                self@ == old(self)@.map_pixels(
                    |px: int, py: int, o: u32|
                        if x0 <= px < x && py == y0 + line_rise(gdx, gdy, px - x0) {
                            c
                        } else {
                            o
                        },
                ),
            decreases x1 - x,
        {
            self.draw_pixel(x, y, c);
            let ghost k = x - x0;
            let ghost s = y - y0;
            x += 1;
            if dy >= dx {
                y += 1;
            } else if dy > 0 {
                proof {
                    assert((k + 1) * dy == k * dy + dy) by (nonlinear_arith);
                }
                e += dy;
                if 2 * e > dx {
                    proof {
                        assert((s + 1) * dx == s * dx + dx) by (nonlinear_arith);
                    }
                    y += 1;
                    e -= dx;
                }
                proof {
                    lemma_rise(dx as int, dy as int, k + 1, y - y0, e as int);
                }
            }
            assert(self@ =~= old(self)@.map_pixels(
                |px: int, py: int, o: u32|
                    if x0 <= px < x && py == y0 + line_rise(gdx, gdy, px - x0) {
                        c
                    } else {
                        o
                    },
            ));
        }
        proof {
            // Whatever is left of the line lies right of or below the grid.
            self.lemma_view_wf();
            assert forall|px: int, py: int| self@.contains(px, py) implies self@.at(px, py)
                == want.at(px, py) by {
                if x <= px < x1 && y >= h {
                    lemma_rise_monotone(gdx, gdy, x - x0, px - x0);
                }
            }
            lemma_canvas_ext(self@, want);
        }
    }
}

/// The line never goes up.
pub proof fn lemma_rise_monotone(dx: int, dy: int, j: int, k: int)
    requires
        0 < dx,
        0 <= j <= k,
    ensures
        line_rise(dx, dy, j) <= line_rise(dx, dy, k),
{
    if 0 < dy < dx {
        let a = 2 * j * dy + dx - 1;
        let b = 2 * k * dy + dx - 1;
        assert(a <= b) by (nonlinear_arith)
            requires
                a == 2 * j * dy + dx - 1,
                b == 2 * k * dy + dx - 1,
                0 <= j <= k,
                0 < dy,
        ;
        vstd::arithmetic::div_mod::lemma_div_is_ordered(a, b, 2 * dx);
    }
}

} // verus!
