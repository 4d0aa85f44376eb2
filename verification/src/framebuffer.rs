//! The pixel grid that every drawing operation writes to.

use vstd::prelude::*;
use crate::canvas::{Canvas, lemma_canvas_ext};
use crate::color::Color;

verus! {

/// A linear, row-major array of packed pixels together with its size.
pub struct Framebuffer {
    pixels: Vec<u32>,
    width: usize,
    height: usize,
}

/// In a grid of `w` columns, distinct in-bounds points have distinct
/// row-major indices, and every such index is below `w * h`.
pub proof fn lemma_row_major(w: int, h: int, x: int, y: int)
    requires
        0 <= x < w,
        0 <= y < h,
    ensures
        0 <= y * w,
        0 <= y * w + x < w * h,
        (y * w + x) / w == y,
        (y * w + x) % w == x,
{
    assert(0 <= y * w && 0 <= y * w + x < w * h) by (nonlinear_arith)
        requires
            0 <= x < w,
            0 <= y < h,
    ;
    vstd::arithmetic::div_mod::lemma_fundamental_div_mod_converse(y * w + x, w, y, x);
}

impl View for Framebuffer {
    type V = Canvas;

    closed spec fn view(&self) -> Canvas {
        Canvas {
            width: self.width as nat,
            height: self.height as nat,
            pixels: Map::new(
                |p: (int, int)| 0 <= p.0 < self.width && 0 <= p.1 < self.height,
                |p: (int, int)| self.pixels@[p.1 * self.width + p.0],
            ),
        }
    }
}

impl Framebuffer {
    /// The pixel array holds exactly `width * height` values.
    pub closed spec fn wf(&self) -> bool {
        self.pixels@.len() == self.width * self.height
    }

    /// The length of the underlying pixel array.
    pub closed spec fn len_spec(&self) -> nat {
        self.pixels@.len()
    }

    /// The view of a framebuffer is a well-formed canvas, and a
    /// well-formed framebuffer stores one value per pixel of it.
    pub proof fn lemma_view_wf(&self)
        ensures
            self@.wf(),
            self.wf() ==> self.len_spec() == self@.width * self@.height,
    {
    }

    /// A framebuffer of the given size with every pixel zero.
    pub fn new(width: usize, height: usize) -> (fb: Framebuffer)
        requires
            width * height <= usize::MAX,
        ensures
            fb.wf(),
            fb@ == Canvas::blank(width as nat, height as nat),
    {
        let n: usize = width * height;
        let pixels: Vec<u32> = vec![0u32; n];
        let fb = Framebuffer { pixels, width, height };
        proof {
            let want = Canvas::blank(width as nat, height as nat);
            assert forall|x: int, y: int| fb@.contains(x, y) implies fb@.at(x, y) == want.at(
                x,
                y,
            ) by {
                lemma_row_major(width as int, height as int, x, y);
            }
            lemma_canvas_ext(fb@, want);
        }
        fb
    }

    /// The number of columns.
    pub fn width(&self) -> (w: usize)
        ensures
            w == self@.width,
    {
        self.width
    }

    /// The number of rows.
    pub fn height(&self) -> (h: usize)
        ensures
            h == self@.height,
    {
        self.height
    }

    /// The number of stored pixels.
    pub fn len(&self) -> (n: usize)
        ensures
            n == self.len_spec(),
    {
        self.pixels.len()
    }

    /// The pixel at `(x, y)`, or `None` when the point is off the grid.
    pub fn get_pixel(&self, x: usize, y: usize) -> (p: Option<u32>)
        requires
            self.wf(),
        ensures
            p == (if self@.contains(x as int, y as int) {
                Some(self@.at(x as int, y as int))
            } else {
                None
            }),
    {
        if x < self.width && y < self.height {
            let n = self.pixels.len();
            proof {
                lemma_row_major(self.width as int, self.height as int, x as int, y as int);
            }
            Some(self.pixels[y * self.width + x])
        } else {
            None
        }
    }

    /// Sets every pixel to `color`.
    pub fn fill(&mut self, color: Color)
        requires
            old(self).wf(),
        ensures
            final(self).wf(),
            final(self)@ == old(self)@.filled(color.0),
    {
        let n = self.pixels.len();
        let mut i: usize = 0;
        while i < n
            invariant
                self.wf(),
                self.width == old(self).width,
                self.height == old(self).height,
                n == self.pixels@.len(),
                i <= n,
                forall|k: int| 0 <= k < i ==> self.pixels@[k] == color.0,
            decreases n - i,
        {
            self.pixels.set(i, color.0);
            i += 1;
        }
        proof {
            let want = old(self)@.filled(color.0);
            assert forall|x: int, y: int| self@.contains(x, y) implies self@.at(x, y) == want.at(
                x,
                y,
            ) by {
                lemma_row_major(self.width as int, self.height as int, x, y);
            }
            lemma_canvas_ext(self@, want);
        }
    }

    /// Writes one pixel. The point must be on the grid.
    pub fn draw_pixel(&mut self, x: usize, y: usize, color: u32)
        requires
            old(self).wf(),
            old(self)@.contains(x as int, y as int),
        ensures
            final(self).wf(),
            final(self)@ == old(self)@.put(x as int, y as int, color),
    {
        let n = self.pixels.len();
        proof {
            lemma_row_major(self.width as int, self.height as int, x as int, y as int);
        }
        let i = y * self.width + x;
        self.pixels.set(i, color);
        proof {
            let want = old(self)@.put(x as int, y as int, color);
            let w = self.width as int;
            assert forall|px: int, py: int| self@.contains(px, py) implies self@.at(px, py)
                == want.at(px, py) by {
                lemma_row_major(w, self.height as int, px, py);
                if py * w + px == y * w + x {
                    assert(px == x && py == y);
                }
            }
            lemma_canvas_ext(self@, want);
        }
    }
}

} // verus!
