//! The mathematical model of a framebuffer: a grid of packed pixels
//! addressed by column and row, and the shapes that can be painted on it.

use vstd::prelude::*;
use crate::color::lerp_spec;

verus! {

/// A `width` by `height` grid of pixels. `pixels` is defined exactly on the
/// points `(x, y)` with `0 <= x < width` and `0 <= y < height`.
#[verifier::ext_equal]
pub struct Canvas {
    pub width: nat,
    pub height: nat,
    pub pixels: Map<(int, int), u32>,
}

/// Whether `(px, py)` lies in the `w` by `h` box whose top-left corner is
/// `(x, y)`.
pub open spec fn in_box(x: int, y: int, w: int, h: int, px: int, py: int) -> bool {
    x <= px < x + w && y <= py < y + h
}

/// Whether `(px, py)` lies on the one-pixel frame of the `w` by `h` box at
/// `(x, y)`.
pub open spec fn on_frame(x: int, y: int, w: int, h: int, px: int, py: int) -> bool {
    in_box(x, y, w, h, px, py) && (px == x || px == x + w - 1 || py == y || py == y + h - 1)
}

/// Whether the centre of pixel `(px, py)` lies within distance `r` of the
/// corner point `(cx, cy)` of the pixel grid: with offsets
/// `dx = px - cx + 1/2` and `dy = py - cy + 1/2`, `dx² + dy² <= r²`.
pub open spec fn in_disk(cx: int, cy: int, r: int, px: int, py: int) -> bool {
    (2 * (px - cx) + 1) * (2 * (px - cx) + 1) + (2 * (py - cy) + 1) * (2 * (py - cy) + 1) <= 4 * r
        * r
}

impl Canvas {
    /// The canvas of the given size whose pixels are all zero.
    pub open spec fn blank(width: nat, height: nat) -> Canvas {
        Canvas {
            width,
            height,
            pixels: Map::new(
                |p: (int, int)| 0 <= p.0 < width && 0 <= p.1 < height,
                |p: (int, int)| 0u32,
            ),
        }
    }

    /// Whether `(x, y)` is a pixel of this canvas.
    pub open spec fn contains(self, x: int, y: int) -> bool {
        0 <= x < self.width && 0 <= y < self.height
    }

    /// The domain of `pixels` is the whole grid and nothing else.
    pub open spec fn wf(self) -> bool {
        forall|p: (int, int)| #[trigger] self.pixels.dom().contains(p) <==> self.contains(p.0, p.1)
    }

    /// The pixel at column `x` of row `y`.
    pub open spec fn at(self, x: int, y: int) -> u32 {
        self.pixels[(x, y)]
    }

    /// A canvas of the same size whose pixel at `(x, y)` is
    /// `f(x, y, old pixel)`.
    pub open spec fn map_pixels(self, f: spec_fn(int, int, u32) -> u32) -> Canvas {
        Canvas {
            width: self.width,
            height: self.height,
            pixels: Map::new(
                |p: (int, int)| self.contains(p.0, p.1),
                |p: (int, int)| f(p.0, p.1, self.pixels[p]),
            ),
        }
    }

    /// Every pixel set to `color`.
    pub open spec fn filled(self, color: u32) -> Canvas {
        self.map_pixels(|px: int, py: int, old: u32| color)
    }

    /// The single pixel `(x, y)` set to `color`; nothing changes when the
    /// point is off the canvas.
    pub open spec fn put(self, x: int, y: int, color: u32) -> Canvas {
        self.map_pixels(
            |px: int, py: int, old: u32|
                if px == x && py == y {
                    color
                } else {
                    old
                },
        )
    }

    /// The visible part of the `w` by `h` box at `(x, y)` set to `color`.
    pub open spec fn fill_rect(self, x: int, y: int, w: int, h: int, color: u32) -> Canvas {
        self.map_pixels(
            |px: int, py: int, old: u32|
                if in_box(x, y, w, h, px, py) {
                    color
                } else {
                    old
                },
        )
    }

    /// The visible part of the one-pixel frame of the box set to `color`.
    pub open spec fn outline_rect(self, x: int, y: int, w: int, h: int, color: u32) -> Canvas {
        self.map_pixels(
            |px: int, py: int, old: u32|
                if on_frame(x, y, w, h, px, py) {
                    color
                } else {
                    old
                },
        )
    }

    /// A horizontal gradient over the visible part of the box: the pixel
    /// in column `px` gets the colour `(px - x) / w` of the way from `c1`
    /// to `c2`.
    pub open spec fn gradient(self, x: int, y: int, w: int, h: int, c1: int, c2: int) -> Canvas {
        self.map_pixels(
            |px: int, py: int, old: u32|
                if in_box(x, y, w, h, px, py) {
                    lerp_spec(c1, c2, px - x, w) as u32
                } else {
                    old
                },
        )
    }

    /// The pixels of the box `[x1, x2] x [y1, y2]` (both ends included)
    /// that lie in the disk of radius `r` about `(cx, cy)` set to `color`.
    pub open spec fn fill_disk_in(
        self,
        cx: int,
        cy: int,
        r: int,
        x1: int,
        y1: int,
        x2: int,
        y2: int,
        color: u32,
    ) -> Canvas {
        self.map_pixels(
            |px: int, py: int, old: u32|
                if x1 <= px <= x2 && y1 <= py <= y2 && in_disk(cx, cy, r, px, py) {
                    color
                } else {
                    old
                },
        )
    }
}

/// Two well-formed canvases of one size that agree on every pixel are
/// equal.
pub proof fn lemma_canvas_ext(a: Canvas, b: Canvas)
    requires
        a.wf(),
        b.wf(),
        a.width == b.width,
        a.height == b.height,
        forall|x: int, y: int| a.contains(x, y) ==> a.at(x, y) == b.at(x, y),
    ensures
        a == b,
{
    assert forall|p: (int, int)| a.pixels.dom().contains(p) implies a.pixels[p] == b.pixels[p] by {
        assert(a.contains(p.0, p.1));
        assert(a.at(p.0, p.1) == b.at(p.0, p.1));
    }
    assert forall|p: (int, int)| a.pixels.dom().contains(p) <==> b.pixels.dom().contains(p) by {
        assert(a.contains(p.0, p.1) == b.contains(p.0, p.1));
    }
    assert(a.pixels =~= b.pixels);
}

} // verus!
