//! The outline of a circle, traced with an integer error term through one
//! quadrant and copied into the other three by quarter turns.

use vstd::prelude::*;
use crate::canvas::Canvas;
use crate::circle::clamped_radius;
use crate::color::Color;
use crate::framebuffer::Framebuffer;

verus! {

/// The error term of the trace at `(x1, y1)`:
/// `(x1 + 1)² + (y1 + 1)² - r²`. It starts at `2 - 2r`.
pub open spec fn outline_err(r: int, x1: int, y1: int) -> int {
    (x1 + 1) * (x1 + 1) + (y1 + 1) * (y1 + 1) - r * r
}

/// One step of the trace: `x1` moves right when the error exceeds it, and
/// `y1` moves down when the error does not exceed it. Both tests read the
/// error as it was before the step.
pub open spec fn outline_step(r: int, x1: int, y1: int) -> (int, int) {
    let e = outline_err(r, x1, y1);
    (
        if e > x1 {
            x1 + 1
        } else {
            x1
        },
        if e <= y1 {
            y1 + 1
        } else {
            y1
        },
    )
}

/// The offset `(a, b)` from the centre and its three quarter turns.
pub open spec fn quarter_turns(a: int, b: int) -> Set<(int, int)> {
    set![(a, b), (-b, a), (-a, -b), (b, -a)]
}

/// The offsets from the centre that the trace paints from `(x1, y1)` to
/// its end. The trace starts at `(-r, 0)` and ends as soon as `x1` is no
/// longer negative. On such a trace every step moves and `y1` stays within
/// `r`; the two tests for that are there so that the definition ends on
/// every input.
pub open spec fn outline_offsets(r: int, x1: int, y1: int) -> Set<(int, int)>
    decreases
        (if x1 < 0 { -x1 } else { 0 }) + (if y1 <= r { r - y1 } else { 0 }),
{
    let here = quarter_turns(-x1, y1);
    let next = outline_step(r, x1, y1);
    if next.0 >= 0 || next.1 > r || next == (x1, y1) {
        here
    } else {
        here.union(outline_offsets(r, next.0, next.1))
    }
}

impl Canvas {
    /// The pixels at the given offsets from `(cx, cy)` set to `color`.
    pub open spec fn paint_offsets(self, cx: int, cy: int, offsets: Set<(int, int)>, color: u32) -> Canvas {
        self.map_pixels(
            |px: int, py: int, old: u32|
                if offsets.contains((px - cx, py - cy)) {
                    color
                } else {
                    old
                },
        )
    }
}

/// While the trace runs it always moves, and `y1` never passes `r`.
proof fn lemma_outline_step(r: int, x1: int, y1: int)
    requires
        0 <= r,
        -r <= x1 < 0,
        0 <= y1 <= r,
    ensures
        outline_step(r, x1, y1) != (x1, y1),
        outline_step(r, x1, y1).1 <= r,
        -r * r <= outline_err(r, x1, y1) <= (r + 1) * (r + 1) + 1,
        outline_err(r, x1 + 1, y1) == outline_err(r, x1, y1) + 2 * (x1 + 1) + 1,
        outline_err(r, x1, y1 + 1) == outline_err(r, x1, y1) + 2 * (y1 + 1) + 1,
        outline_err(r, x1 + 1, y1 + 1) == outline_err(r, x1, y1) + 2 * (x1 + 1) + 1 + 2 * (y1 + 1)
            + 1,
{
    let e = outline_err(r, x1, y1);
    assert(y1 == r ==> e > y1) by (nonlinear_arith)
        requires
            e == (x1 + 1) * (x1 + 1) + (y1 + 1) * (y1 + 1) - r * r,
            0 <= r,
            0 <= y1,
    ;
    assert(-r * r <= e <= (r + 1) * (r + 1) + 1) by (nonlinear_arith)
        requires
            e == (x1 + 1) * (x1 + 1) + (y1 + 1) * (y1 + 1) - r * r,
            -r <= x1 < 0,
            0 <= y1 <= r,
    ;
    assert(outline_err(r, x1 + 1, y1) == e + 2 * (x1 + 1) + 1) by (nonlinear_arith)
        requires
            e == (x1 + 1) * (x1 + 1) + (y1 + 1) * (y1 + 1) - r * r,
            outline_err(r, x1 + 1, y1) == (x1 + 1 + 1) * (x1 + 1 + 1) + (y1 + 1) * (y1 + 1) - r
                * r,
    ;
    assert(outline_err(r, x1, y1 + 1) == e + 2 * (y1 + 1) + 1) by (nonlinear_arith)
        requires
            e == (x1 + 1) * (x1 + 1) + (y1 + 1) * (y1 + 1) - r * r,
            outline_err(r, x1, y1 + 1) == (x1 + 1) * (x1 + 1) + (y1 + 1 + 1) * (y1 + 1 + 1) - r
                * r,
    ;
    assert(outline_err(r, x1 + 1, y1 + 1) == e + 2 * (x1 + 1) + 1 + 2 * (y1 + 1) + 1)
        by (nonlinear_arith)
        requires
            e == (x1 + 1) * (x1 + 1) + (y1 + 1) * (y1 + 1) - r * r,
            outline_err(r, x1 + 1, y1 + 1) == (x1 + 1 + 1) * (x1 + 1 + 1) + (y1 + 1 + 1) * (y1 + 1
                + 1) - r * r,
    ;
}

impl Framebuffer {
    /// Writes one pixel if the point is on the grid.
    fn plot(&mut self, x: i64, y: i64, color: u32)
        requires
            old(self).wf(),
        ensures
            final(self).wf(),
            final(self)@ == old(self)@.put(x as int, y as int, color),
    {
        if 0 <= x && 0 <= y && (x as u64) < self.width() as u64 && (y as u64) < self.height() as u64 {
            self.draw_pixel(x as usize, y as usize, color);
        } else {
            assert(self@ =~= old(self)@.put(x as int, y as int, color)) by {
                self.lemma_view_wf();
            }
        }
    }

    /// Traces the outline of the circle about `(x, y)`. The radius is
    /// first reduced to `min(r, x, y)`, so that no negative coordinate is
    /// touched; a centre with a negative coordinate paints nothing. Points
    /// right of or below the framebuffer are skipped.
    pub fn draw_circle_outline(&mut self, x: i32, y: i32, r: usize, color: Color)
        requires
            old(self).wf(),
        ensures
            final(self).wf(),
            x < 0 || y < 0 ==> final(self)@ == old(self)@,
            x >= 0 && y >= 0 ==> ({
                let radius = clamped_radius(x as int, y as int, r as int);
                final(self)@ == old(self)@.paint_offsets(
                    x as int,
                    y as int,
                    outline_offsets(radius, -radius, 0),
                    color.0,
                )
            }),
    {
        if x < 0 || y < 0 {
            return ;
        }
        let m: i32 = if x <= y {
            x
        } else {
            y
        };
        let radius: i64 = if r <= m as usize {
            r as i64
        } else {
            m as i64
        };
        let cx = x as i64;
        let cy = y as i64;
        let c = color.0;
        let mut x1: i64 = -radius;
        let mut y1: i64 = 0;
        let mut err: i64 = 2 - 2 * radius;
        let ghost all = outline_offsets(radius as int, -radius as int, 0);
        proof {
            assert(err == outline_err(radius as int, x1 as int, y1 as int)) by (nonlinear_arith)
                requires
                    x1 == -radius,
                    y1 == 0,
                    err == 2 - 2 * radius,
                    outline_err(radius as int, x1 as int, y1 as int) == (x1 + 1) * (x1 + 1) + (y1
                        + 1) * (y1 + 1) - radius * radius,
            ;
            assert(self@ =~= old(self)@.paint_offsets(
                cx as int,
                cy as int,
                Set::<(int, int)>::empty(),
                c,
            )) by {
                self.lemma_view_wf();
            }
            assert(radius * radius <= 0x7FFF_FFFF * 0x7FFF_FFFF) by (nonlinear_arith)
                requires
                    0 <= radius <= 0x7FFF_FFFF,
            ;
        }
        let ghost mut done: Set<(int, int)> = Set::empty();
        loop
            invariant_except_break
                self.wf(),
                0 <= radius <= 0x7FFF_FFFF,
                0 <= cx <= 0x7FFF_FFFF,
                0 <= cy <= 0x7FFF_FFFF,
                -radius <= x1 <= 0,
                x1 < 0 || (radius == 0 && y1 == 0 && done == Set::<(int, int)>::empty()),
                0 <= y1 <= radius,
                err == outline_err(radius as int, x1 as int, y1 as int),
                self@ == old(self)@.paint_offsets(cx as int, cy as int, done, c),
                all == done.union(outline_offsets(radius as int, x1 as int, y1 as int)),
            ensures
                self.wf(),
                self@ == old(self)@.paint_offsets(cx as int, cy as int, all, c),
            decreases (radius - y1) - x1,
        {
            self.plot(cx - x1, cy + y1, c);
            self.plot(cx - y1, cy - x1, c);
            self.plot(cx + x1, cy - y1, c);
            self.plot(cx + y1, cy + x1, c);
            let ghost here = quarter_turns(-x1 as int, y1 as int);
            let ghost before = (x1 as int, y1 as int);
            proof {
                assert(self@ =~= old(self)@.paint_offsets(cx as int, cy as int, done.union(here), c));
                if x1 < 0 {
                    lemma_outline_step(radius as int, x1 as int, y1 as int);
                } else {
                    assert(err == 2) by (nonlinear_arith)
                        requires
                            err == (x1 + 1) * (x1 + 1) + (y1 + 1) * (y1 + 1) - radius * radius,
                            x1 == 0,
                            y1 == 0,
                            radius == 0,
                    ;
                }
                assert((radius + 1) * (radius + 1) <= 0x8000_0000 * 0x8000_0000)
                    by (nonlinear_arith)
                    requires
                        0 <= radius <= 0x7FFF_FFFF,
                ;
                assert(radius * radius <= 0x7FFF_FFFF * 0x7FFF_FFFF) by (nonlinear_arith)
                    requires
                        0 <= radius <= 0x7FFF_FFFF,
                ;
            }
            let e = err;
            if e > x1 {
                x1 += 1;
                err += x1 * 2 + 1;
            }
            if e <= y1 {
                y1 += 1;
                err += y1 * 2 + 1;
            }
            proof {
                assert((x1 as int, y1 as int) == outline_step(radius as int, before.0, before.1));
                done = done.union(here);
            }
            if x1 >= 0 {
                proof {
                    assert(outline_offsets(radius as int, before.0, before.1) == here);
                    assert(all =~= done);
                }
                break ;
            }
            proof {
                assert(outline_offsets(radius as int, before.0, before.1) == here.union(
                    outline_offsets(radius as int, x1 as int, y1 as int),
                ));
                assert(all =~= done.union(outline_offsets(radius as int, x1 as int, y1 as int)));
            }
        }
    }
}

/// The outline is turned into itself by a quarter turn about its centre:
/// with the offset `(dx, dy)` the trace paints `(-dy, dx)`, `(-dx, -dy)`
/// and `(dy, -dx)` too. So the painted set is also its own mirror image
/// through the centre.
pub proof fn lemma_outline_quarter_turns(r: int, x1: int, y1: int, dx: int, dy: int)
    requires
        outline_offsets(r, x1, y1).contains((dx, dy)),
    ensures
        outline_offsets(r, x1, y1).contains((-dy, dx)),
        outline_offsets(r, x1, y1).contains((-dx, -dy)),
        outline_offsets(r, x1, y1).contains((dy, -dx)),
    decreases
        (if x1 < 0 { -x1 } else { 0 }) + (if y1 <= r { r - y1 } else { 0 }),
{
    let here = quarter_turns(-x1, y1);
    let next = outline_step(r, x1, y1);
    if here.contains((dx, dy)) {
        assert(here.contains((-dy, dx)));
        assert(here.contains((-dx, -dy)));
        assert(here.contains((dy, -dx)));
    } else {
        lemma_outline_quarter_turns(r, next.0, next.1, dx, dy);
    }
}

/// On the canvas: if the outline about `(cx, cy)` paints the pixel at the
/// offset `(dx, dy)` from the centre, then each of its three quarter turns
/// that lies on the canvas has the outline's colour too.
pub proof fn lemma_outline_symmetry(c: Canvas, cx: int, cy: int, r: int, color: u32, dx: int, dy: int)
    requires
        c.wf(),
        outline_offsets(r, -r, 0).contains((dx, dy)),
    ensures
        ({
            let out = c.paint_offsets(cx, cy, outline_offsets(r, -r, 0), color);
            &&& c.contains(cx + dx, cy + dy) ==> out.at(cx + dx, cy + dy) == color
            &&& c.contains(cx - dy, cy + dx) ==> out.at(cx - dy, cy + dx) == color
            &&& c.contains(cx - dx, cy - dy) ==> out.at(cx - dx, cy - dy) == color
            &&& c.contains(cx + dy, cy - dx) ==> out.at(cx + dy, cy - dx) == color
        }),
{
    lemma_outline_quarter_turns(r, -r, 0, dx, dy);
    let s = outline_offsets(r, -r, 0);
    assert(s.contains((cx + dx - cx, cy + dy - cy)));
    assert(s.contains((cx - dy - cx, cy + dx - cy)));
    assert(s.contains((cx - dx - cx, cy - dy - cy)));
    assert(s.contains((cx + dy - cx, cy - dx - cy)));
}

} // verus!
