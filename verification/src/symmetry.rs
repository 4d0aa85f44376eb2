//! Why the outline of a circle is its own mirror image: the trace through
//! one quadrant, read backwards with its two coordinates exchanged, is the
//! same trace.

use vstd::prelude::*;
use crate::canvas::Canvas;
use crate::outline::{
    lemma_outline_quarter_turns, outline_err, outline_offsets, outline_step, quarter_turns,
};

verus! {

/// How far the point `(x1, y1)` is from the circle of radius `r`, in
/// squares: `x1² + y1² - r²`.
pub open spec fn gap(r: int, x1: int, y1: int) -> int {
    x1 * x1 + y1 * y1 - r * r
}

/// What holds of every state of the trace while it runs: the point lies
/// in the quadrant, left of the vertical axis, and as close to the circle
/// as a lattice point on its row or column can be.
pub open spec fn on_trace(r: int, x1: int, y1: int) -> bool {
    let m = if -x1 >= y1 { -x1 } else { y1 };
    &&& 1 <= r
    &&& -r <= x1 <= -1
    &&& 0 <= y1 <= r
    &&& -m <= gap(r, x1, y1) <= m - 1
}

/// The state with its two distances from the axes exchanged.
pub open spec fn exchanged(s: (int, int)) -> (int, int) {
    (-s.1, -s.0)
}

/// The state `k` steps after `(x1, y1)`.
pub open spec fn walk(r: int, x1: int, y1: int, k: nat) -> (int, int)
    decreases k,
{
    if k == 0 {
        (x1, y1)
    } else {
        let next = outline_step(r, x1, y1);
        walk(r, next.0, next.1, (k - 1) as nat)
    }
}

/// The number of points that the trace paints from `(x1, y1)` to its end.
pub open spec fn outline_len(r: int, x1: int, y1: int) -> nat
    decreases
        (if x1 < 0 { -x1 } else { 0 }) + (if y1 <= r { r - y1 } else { 0 }),
{
    let next = outline_step(r, x1, y1);
    if next.0 >= 0 || next.1 > r || next == (x1, y1) {
        1
    } else {
        1 + outline_len(r, next.0, next.1)
    }
}

/// The error term and the gap differ by a linear term, and the gap of a
/// neighbour differs from the gap by a linear term.
proof fn lemma_gap(r: int, x: int, y: int)
    ensures
        outline_err(r, x, y) == gap(r, x, y) + 2 * x + 2 * y + 2,
        gap(r, x + 1, y) == gap(r, x, y) + 2 * x + 1,
        gap(r, x, y + 1) == gap(r, x, y) + 2 * y + 1,
        gap(r, x + 1, y + 1) == gap(r, x, y) + 2 * x + 2 * y + 2,
        gap(r, -y, -x) == gap(r, x, y),
{
    assert((x + 1) * (x + 1) == x * x + 2 * x + 1) by (nonlinear_arith);
    assert((y + 1) * (y + 1) == y * y + 2 * y + 1) by (nonlinear_arith);
    assert((-y) * (-y) == y * y) by (nonlinear_arith);
    assert((-x) * (-x) == x * x) by (nonlinear_arith);
}

/// One step of a running trace. The next state is different, its row is
/// within the radius, and it is on the trace again unless it has reached
/// the vertical axis, which it reaches at `(0, r)`. Stepping on from the
/// next state with its coordinates exchanged leads to this state with its
/// coordinates exchanged.
proof fn lemma_trace_step(r: int, x1: int, y1: int)
    requires
        on_trace(r, x1, y1),
    ensures
        ({
            let next = outline_step(r, x1, y1);
            &&& next != (x1, y1)
            &&& next.1 <= r
            &&& next.0 < 0 ==> on_trace(r, next.0, next.1)
            &&& next.0 >= 0 ==> next == (0int, r)
            &&& outline_step(r, exchanged(next).0, exchanged(next).1) == exchanged((x1, y1))
        }),
{
    let next = outline_step(r, x1, y1);
    lemma_gap(r, x1, y1);
    lemma_gap(r, next.0, next.1);
    lemma_gap(r, -next.1, -next.0);
    if next.0 >= 0 {
        // On the axis the gap is y² - r², which pins the row.
        let y = next.1;
        assert(y < r ==> y * y - r * r < -y) by (nonlinear_arith)
            requires
                0 <= y,
                1 <= r,
        ;
        assert(y > r ==> y * y - r * r > y - 1) by (nonlinear_arith)
            requires
                0 <= y,
                1 <= r,
        ;
        assert(gap(r, 0, y) == y * y - r * r) by (nonlinear_arith)
            requires
                gap(r, 0, y) == 0 * 0 + y * y - r * r,
        ;
    }
    if y1 == r {
        assert(gap(r, x1, r) == x1 * x1) by (nonlinear_arith)
            requires
                gap(r, x1, r) == x1 * x1 + r * r - r * r,
        ;
        assert(x1 * x1 + 2 * x1 + 1 >= 0) by (nonlinear_arith);
    }
}

/// Walking one step further is stepping from where the walk stands.
proof fn lemma_walk_step(r: int, x1: int, y1: int, k: nat)
    ensures
        walk(r, x1, y1, k + 1) == outline_step(r, walk(r, x1, y1, k).0, walk(r, x1, y1, k).1),
    decreases k,
{
    let next = outline_step(r, x1, y1);
    if k > 0 {
        lemma_walk_step(r, next.0, next.1, (k - 1) as nat);
        assert(walk(r, x1, y1, k) == walk(r, next.0, next.1, (k - 1) as nat));
        assert(walk(r, x1, y1, k + 1) == walk(r, next.0, next.1, k));
    } else {
        assert(walk(r, next.0, next.1, 0) == next);
        assert(walk(r, x1, y1, 1) == walk(r, next.0, next.1, 0));
    }
}

/// The first `outline_len` states of a running trace are on the trace,
/// and what each of them paints is part of the outline.
proof fn lemma_walk_paints(r: int, x1: int, y1: int, j: nat)
    requires
        on_trace(r, x1, y1),
        j < outline_len(r, x1, y1),
    ensures
        on_trace(r, walk(r, x1, y1, j).0, walk(r, x1, y1, j).1),
        quarter_turns(-walk(r, x1, y1, j).0, walk(r, x1, y1, j).1).subset_of(
            outline_offsets(r, x1, y1),
        ),
    decreases j,
{
    lemma_trace_step(r, x1, y1);
    if j > 0 {
        let next = outline_step(r, x1, y1);
        lemma_walk_paints(r, next.0, next.1, (j - 1) as nat);
    }
}

/// After `outline_len` steps the trace stands on the vertical axis, at
/// `(0, r)`.
proof fn lemma_walk_ends(r: int, x1: int, y1: int)
    requires
        on_trace(r, x1, y1),
    ensures
        walk(r, x1, y1, outline_len(r, x1, y1)) == (0int, r),
    decreases outline_len(r, x1, y1),
{
    lemma_trace_step(r, x1, y1);
    let next = outline_step(r, x1, y1);
    if next.0 < 0 {
        lemma_walk_ends(r, next.0, next.1);
    } else {
        assert(walk(r, next.0, next.1, 0) == next);
    }
}

/// Every offset of the outline is painted by one of the states of the
/// trace; the result is the number of that state.
proof fn lemma_painted_by(r: int, x1: int, y1: int, dx: int, dy: int) -> (j: nat)
    requires
        on_trace(r, x1, y1),
        outline_offsets(r, x1, y1).contains((dx, dy)),
    ensures
        j < outline_len(r, x1, y1),
        quarter_turns(-walk(r, x1, y1, j).0, walk(r, x1, y1, j).1).contains((dx, dy)),
    decreases outline_len(r, x1, y1),
{
    lemma_trace_step(r, x1, y1);
    let next = outline_step(r, x1, y1);
    if quarter_turns(-x1, y1).contains((dx, dy)) {
        0
    } else {
        let k = lemma_painted_by(r, next.0, next.1, dx, dy);
        k + 1
    }
}

/// Read backwards, the trace is itself with the coordinates exchanged:
/// the state `k` steps before the end is the state after `k` steps,
/// exchanged.
proof fn lemma_walk_reversed(r: int, k: nat)
    requires
        1 <= r,
        k <= outline_len(r, -r, 0),
    ensures
        walk(r, -r, 0, (outline_len(r, -r, 0) - k) as nat) == exchanged(walk(r, -r, 0, k)),
    decreases k,
{
    let n = outline_len(r, -r, 0);
    lemma_start_on_trace(r);
    if k == 0 {
        lemma_walk_ends(r, -r, 0);
    } else {
        let back = (n - k) as nat;
        lemma_walk_reversed(r, (k - 1) as nat);
        // `before` is the state one step before the end-side state.
        lemma_walk_paints(r, -r, 0, back);
        let before = walk(r, -r, 0, back);
        lemma_walk_step(r, -r, 0, back);
        lemma_trace_step(r, before.0, before.1);
        lemma_walk_step(r, -r, 0, (k - 1) as nat);
        assert(back + 1 == n - (k - 1));
    }
}

/// The trace starts on the trace.
proof fn lemma_start_on_trace(r: int)
    requires
        1 <= r,
    ensures
        on_trace(r, -r, 0),
{
    assert(gap(r, -r, 0) == 0) by (nonlinear_arith)
        requires
            gap(r, -r, 0) == (-r) * (-r) + 0 * 0 - r * r,
    ;
}

/// With the offset `(dx, dy)` the outline paints `(dy, dx)`: it is its own
/// mirror image in the diagonal.
proof fn lemma_outline_diagonal(r: int, dx: int, dy: int)
    requires
        0 <= r,
        outline_offsets(r, -r, 0).contains((dx, dy)),
    ensures
        outline_offsets(r, -r, 0).contains((dy, dx)),
{
    if r == 0 {
        assert(outline_err(0, 0, 0) == 2) by (nonlinear_arith)
            requires
                outline_err(0, 0, 0) == (0 + 1) * (0 + 1) + (0 + 1) * (0 + 1) - 0 * 0,
        ;
        assert(outline_offsets(0, 0, 0) == quarter_turns(0, 0));
    } else {
        lemma_start_on_trace(r);
        let n = outline_len(r, -r, 0);
        let j = lemma_painted_by(r, -r, 0, dx, dy);
        let p = walk(r, -r, 0, j);
        if j == 0 {
            lemma_walk_paints(r, -r, 0, 0);
            assert(quarter_turns(r, 0).contains((dy, dx)));
        } else {
            lemma_walk_reversed(r, j);
            let back = (n - j) as nat;
            lemma_walk_paints(r, -r, 0, back);
            let q = walk(r, -r, 0, back);
            assert(q == exchanged(p));
            assert(quarter_turns(-q.0, q.1).contains((dy, dx)));
        }
    }
}

/// The outline of a circle is symmetric under the reflections in both
/// axes through its centre: with the offset `(dx, dy)` it paints
/// `(-dx, dy)`, `(dx, -dy)` and `(-dx, -dy)`.
pub proof fn lemma_outline_reflections(r: int, dx: int, dy: int)
    requires
        0 <= r,
        outline_offsets(r, -r, 0).contains((dx, dy)),
    ensures
        outline_offsets(r, -r, 0).contains((-dx, dy)),
        outline_offsets(r, -r, 0).contains((dx, -dy)),
        outline_offsets(r, -r, 0).contains((-dx, -dy)),
{
    lemma_outline_diagonal(r, dx, dy);
    lemma_outline_quarter_turns(r, -r, 0, dy, dx);
    lemma_outline_quarter_turns(r, -r, 0, dx, dy);
}

/// On the canvas: if the outline about `(cx, cy)` paints the pixel at the
/// offset `(dx, dy)` from the centre, then each of its mirror images in
/// the two axes through the centre that lies on the canvas has the
/// outline's colour too.
pub proof fn lemma_outline_mirrored(c: Canvas, cx: int, cy: int, r: int, color: u32, dx: int, dy: int)
    requires
        c.wf(),
        0 <= r,
        outline_offsets(r, -r, 0).contains((dx, dy)),
    ensures
        ({
            let out = c.paint_offsets(cx, cy, outline_offsets(r, -r, 0), color);
            &&& c.contains(cx + dx, cy + dy) ==> out.at(cx + dx, cy + dy) == color
            &&& c.contains(cx - dx, cy + dy) ==> out.at(cx - dx, cy + dy) == color
            &&& c.contains(cx + dx, cy - dy) ==> out.at(cx + dx, cy - dy) == color
            &&& c.contains(cx - dx, cy - dy) ==> out.at(cx - dx, cy - dy) == color
        }),
{
    lemma_outline_reflections(r, dx, dy);
    let s = outline_offsets(r, -r, 0);
    assert(s.contains((cx + dx - cx, cy + dy - cy)));
    assert(s.contains((cx - dx - cx, cy + dy - cy)));
    assert(s.contains((cx + dx - cx, cy - dy - cy)));
    assert(s.contains((cx - dx - cx, cy - dy - cy)));
}

} // verus!
