//! Compositing of glyphs onto the framebuffer, line layout, and the
//! bounding box of a run of text.

use vstd::prelude::*;
use crate::canvas::Canvas;
use crate::color::{Color, blend_pixel_spec};
use crate::error::DrawError;
use crate::framebuffer::Framebuffer;
use crate::geometry::Rect;
use crate::glyph::{Atlas, Glyph, cached, glyphs_wf};

verus! {

/// The larger of two numbers.
pub open spec fn max_int(a: int, b: int) -> int {
    if a >= b {
        a
    } else {
        b
    }
}

/// A number brought into the range of `i32`.
pub open spec fn clamp_i32(v: int) -> int {
    if v > i32::MAX {
        i32::MAX as int
    } else if v < i32::MIN {
        i32::MIN as int
    } else {
        v
    }
}

/// Whether the glyph, with the top left corner of its bitmap at
/// `(gx, gy)`, has ink at the cell `(col, row)` and that cell falls on the
/// canvas.
pub open spec fn glyph_paints(c: Canvas, g: Glyph, gx: int, gy: int, col: int, row: int) -> bool {
    g.inked(col, row) && c.contains(gx + col, gy + row)
}

/// The largest painted column and row so far, after the first `cols`
/// cells of row `row` have been taken into account.
pub open spec fn row_reach(c: Canvas, g: Glyph, gx: int, gy: int, row: int, cols: int, acc: (int, int)) -> (int, int)
    decreases cols,
{
    if cols <= 0 {
        acc
    } else {
        let prev = row_reach(c, g, gx, gy, row, cols - 1, acc);
        if glyph_paints(c, g, gx, gy, cols - 1, row) {
            (max_int(prev.0, gx + cols - 1), max_int(prev.1, gy + row))
        } else {
            prev
        }
    }
}

/// The largest painted column and row so far, after the first `rows` rows
/// of the glyph have been taken into account.
pub open spec fn glyph_reach(c: Canvas, g: Glyph, gx: int, gy: int, rows: int, acc: (int, int)) -> (int, int)
    decreases rows,
{
    if rows <= 0 {
        acc
    } else {
        row_reach(c, g, gx, gy, rows - 1, g.width as int, glyph_reach(c, g, gx, gy, rows - 1, acc))
    }
}

impl Canvas {
    /// The glyph composited over the canvas in `color`, with the top left
    /// corner of its bitmap at `(gx, gy)`: every pixel under an inked cell
    /// is blended with the cell's coverage as alpha.
    pub open spec fn paint_glyph(self, g: Glyph, gx: int, gy: int, color: int) -> Canvas {
        self.map_pixels(
            |px: int, py: int, old: u32|
                if g.inked(px - gx, py - gy) {
                    blend_pixel_spec(color, g.alpha(px - gx, py - gy) as int, old as int) as u32
                } else {
                    old
                },
        )
    }
}

/// A glyph placed wholly below the canvas paints nothing.
pub proof fn lemma_glyph_below(c: Canvas, g: Glyph, gx: int, gy: int, color: int, acc: (int, int))
    requires
        c.wf(),
        gy >= c.height,
    ensures
        c.paint_glyph(g, gx, gy, color) == c,
        forall|rows: int| glyph_reach(c, g, gx, gy, rows, acc) == acc,
{
    assert(c.paint_glyph(g, gx, gy, color) =~= c);
    assert forall|rows: int| glyph_reach(c, g, gx, gy, rows, acc) == acc by {
        lemma_reach_below(c, g, gx, gy, rows, acc);
    }
}

proof fn lemma_row_below(c: Canvas, g: Glyph, gx: int, gy: int, row: int, cols: int, acc: (int, int))
    requires
        gy >= c.height,
    ensures
        row_reach(c, g, gx, gy, row, cols, acc) == acc,
    decreases cols,
{
    if cols > 0 {
        lemma_row_below(c, g, gx, gy, row, cols - 1, acc);
    }
}

proof fn lemma_reach_below(c: Canvas, g: Glyph, gx: int, gy: int, rows: int, acc: (int, int))
    requires
        gy >= c.height,
    ensures
        glyph_reach(c, g, gx, gy, rows, acc) == acc,
    decreases rows,
{
    if rows > 0 {
        lemma_reach_below(c, g, gx, gy, rows - 1, acc);
        lemma_row_below(c, g, gx, gy, rows - 1, g.width as int, acc);
    }
}

impl Framebuffer {
    /// Composites one glyph over the framebuffer, with the top left corner
    /// of its bitmap at `(gx, gy)`. Cells without ink and cells that fall
    /// off the framebuffer are skipped. Returns the largest column and row
    /// painted so far, given those painted before as `reach`.
    pub fn draw_glyph(&mut self, glyph: &Glyph, gx: usize, gy: i128, color: Color, reach: (
        usize,
        usize,
    )) -> (out: (usize, usize))
        requires
            old(self).wf(),
            glyph.wf(),
            -0x1000_0000_0000_0000_0000_0000_0000 <= gy <= 0x1000_0000_0000_0000_0000_0000_0000,
        ensures
            final(self).wf(),
            final(self)@ == old(self)@.paint_glyph(*glyph, gx as int, gy as int, color@),
            (out.0 as int, out.1 as int) == glyph_reach(
                old(self)@,
                *glyph,
                gx as int,
                gy as int,
                glyph.height as int,
                (reach.0 as int, reach.1 as int),
            ),
    {
        let w = self.width();
        let h = self.height();
        let ghost c0 = old(self)@;
        let ghost g = *glyph;
        let ghost acc0 = (reach.0 as int, reach.1 as int);
        let mut max_x = reach.0;
        let mut max_y = reach.1;
        let mut row: usize = 0;
        assert(self@ =~= c0.map_pixels(
            |px: int, py: int, o: u32|
                if g.inked(px - gx, py - gy) && py - gy < row {
                    blend_pixel_spec(color@, g.alpha(px - gx, py - gy) as int, o as int) as u32
                } else {
                    o
                },
        )) by {
            self.lemma_view_wf();
        }
        while row < glyph.height
            invariant
                self.wf(),
                glyph.wf(),
                g == *glyph,
                c0 == old(self)@,
                self@.width == c0.width == w,
                self@.height == c0.height == h,
                -0x1000_0000_0000_0000_0000_0000_0000 <= gy <= 0x1000_0000_0000_0000_0000_0000_0000,
                row <= glyph.height,
                (max_x as int, max_y as int) == glyph_reach(c0, g, gx as int, gy as int, row as int, acc0),
                self@ == c0.map_pixels(
                    |px: int, py: int, o: u32|
                        if g.inked(px - gx, py - gy) && py - gy < row {
                            blend_pixel_spec(
                                color@,
                                g.alpha(px - gx, py - gy) as int,
                                o as int,
                            ) as u32
                        } else {
                            o
                        },
                ),
            decreases glyph.height - row,
        {
            let py: i128 = gy + row as i128;
            let ghost acc_row = (max_x as int, max_y as int);
            let mut col: usize = 0;
            assert(self@ =~= c0.map_pixels(
                |px: int, py: int, o: u32|
                    if g.inked(px - gx, py - gy) && (py - gy < row || (py - gy == row && px - gx
                        < col)) {
                        blend_pixel_spec(color@, g.alpha(px - gx, py - gy) as int, o as int) as u32
                    } else {
                        o
                    },
            ));
            while col < glyph.width
                invariant
                    self.wf(),
                    glyph.wf(),
                    g == *glyph,
                    c0 == old(self)@,
                    self@.width == c0.width == w,
                    self@.height == c0.height == h,
                    py == gy + row,
                    row < glyph.height,
                    col <= glyph.width,
                    (max_x as int, max_y as int) == row_reach(
                        c0,
                        g,
                        gx as int,
                        gy as int,
                        row as int,
                        col as int,
                        acc_row,
                    ),
                    self@ == c0.map_pixels(
                        |px: int, py: int, o: u32|
                            if g.inked(px - gx, py - gy) && (py - gy < row || (py - gy == row && px
                                - gx < col)) {
                                blend_pixel_spec(
                                    color@,
                                    g.alpha(px - gx, py - gy) as int,
                                    o as int,
                                ) as u32
                            } else {
                                o
                            },
                    ),
                decreases glyph.width - col,
            {
                let px: u128 = gx as u128 + col as u128;
                if 0 <= py && py < h as i128 && px < w as u128 {
                    let alpha = glyph.coverage(col, row);
                    if alpha != 0 {
                        let x = px as usize;
                        let y = py as usize;
                        let under = self.get_pixel(x, y);
                        let bg = match under {
                            Some(v) => v,
                            None => 0,
                        };
                        self.draw_pixel(x, y, color.blend_over(alpha, bg));
                        if max_x < x {
                            max_x = x;
                        }
                        if max_y < y {
                            max_y = y;
                        }
                    }
                }
                col += 1;
                assert(self@ =~= c0.map_pixels(
                    |px: int, py: int, o: u32|
                        if g.inked(px - gx, py - gy) && (py - gy < row || (py - gy == row && px - gx
                            < col)) {
                            blend_pixel_spec(
                                color@,
                                g.alpha(px - gx, py - gy) as int,
                                o as int,
                            ) as u32
                        } else {
                            o
                        },
                ));
            }
            row += 1;
            assert(self@ =~= c0.map_pixels(
                |px: int, py: int, o: u32|
                    if g.inked(px - gx, py - gy) && py - gy < row {
                        blend_pixel_spec(color@, g.alpha(px - gx, py - gy) as int, o as int) as u32
                    } else {
                        o
                    },
            ));
        }
        assert(self@ =~= c0.paint_glyph(g, gx as int, gy as int, color@));
        (max_x, max_y)
    }
}

/// What a run of text is drawn with: the glyph cache, the font size, the
/// column at which every line starts, the extra space between lines and
/// the colour.
pub struct TextStyle {
    pub glyphs: Map<u64, Glyph>,
    pub font_size: usize,
    pub x: int,
    pub line_height: int,
    pub color: int,
}

/// Where the drawing of a run of text stands: the canvas so far, the pen,
/// whether the rest of the current line is abandoned, and the largest
/// column and row painted so far.
pub struct TextState {
    pub canvas: Canvas,
    pub pen_x: int,
    pub pen_y: int,
    pub skip: bool,
    pub reach: (int, int),
}

/// The row of the canvas on which the top row of the glyph's bitmap is
/// placed when the pen stands at row `pen_y`.
pub open spec fn glyph_top(g: Glyph, pen_y: int, font_size: int) -> int {
    font_size + pen_y - (g.height - g.advance_height) - g.y_min
}

/// Whether the character at `i` needs a glyph that is not cached.
pub open spec fn missing_at(glyphs: Map<u64, Glyph>, text: Seq<char>, size: usize, i: int) -> bool {
    text[i] != '\n' && cached(glyphs, text[i], size) is None
}

/// One character of a run of text. A line feed moves the pen to the start
/// of the next line, `font_size + line_height` rows further down. Any
/// other character is composited at the pen, which then advances by the
/// glyph's advance width; once the pen has reached the right edge of the
/// canvas the rest of the line is abandoned.
pub open spec fn text_step(s: TextState, ch: char, t: TextStyle) -> TextState {
    if ch == '\n' {
        TextState {
            canvas: s.canvas,
            pen_x: t.x,
            pen_y: s.pen_y + t.font_size + t.line_height,
            skip: false,
            reach: s.reach,
        }
    } else if s.skip {
        s
    } else {
        match cached(t.glyphs, ch, t.font_size) {
            None => s,
            Some(g) => {
                let gy = glyph_top(g, s.pen_y, t.font_size as int);
                TextState {
                    canvas: s.canvas.paint_glyph(g, s.pen_x, gy, t.color),
                    pen_x: s.pen_x + g.advance_width,
                    pen_y: s.pen_y,
                    skip: s.pen_x + g.advance_width >= s.canvas.width,
                    reach: glyph_reach(s.canvas, g, s.pen_x, gy, g.height as int, s.reach),
                }
            },
        }
    }
}

/// The state after the first `n` characters of `text`.
pub open spec fn text_run(init: TextState, text: Seq<char>, n: int, t: TextStyle) -> TextState
    decreases n,
{
    if n <= 0 {
        init
    } else {
        text_step(text_run(init, text, n - 1, t), text[n - 1], t)
    }
}

/// The state in which a run of text starts at `(x, y)`.
pub open spec fn text_start(c: Canvas, x: int, y: int) -> TextState {
    TextState { canvas: c, pen_x: x, pen_y: y, skip: false, reach: (0, 0) }
}

/// The box that a run of text occupies: from its origin to the largest
/// painted column and row, both included.
pub open spec fn text_area(x: int, y: int, reach: (int, int)) -> Rect {
    Rect {
        x: clamp_i32(x) as i32,
        y: clamp_i32(y) as i32,
        width: clamp_i32(reach.0 + 1 - x) as i32,
        height: clamp_i32(reach.1 + 1 - y) as i32,
    }
}

/// The characters of a string.
pub fn text_chars(text: &str) -> (v: Vec<char>)
    ensures
        v@ == text@,
{
    let mut v: Vec<char> = Vec::new();
    for c in it: text.chars()
        invariant
            v@ == it.seq().take(it.index() as int),
    {
        v.push(c);
    }
    v
}

/// Brings a number into the range of `i32`.
pub fn to_i32(v: i128) -> (out: i32)
    ensures
        out == clamp_i32(v as int),
{
    if v > i32::MAX as i128 {
        i32::MAX
    } else if v < i32::MIN as i128 {
        i32::MIN
    } else {
        v as i32
    }
}

/// Drawing text leaves the size of the canvas alone.
pub proof fn lemma_text_run_dims(init: TextState, text: Seq<char>, n: int, t: TextStyle)
    ensures
        text_run(init, text, n, t).canvas.width == init.canvas.width,
        text_run(init, text, n, t).canvas.height == init.canvas.height,
        init.canvas.wf() ==> text_run(init, text, n, t).canvas.wf(),
    decreases n,
{
    if n > 0 {
        lemma_text_run_dims(init, text, n - 1, t);
    }
}

impl Atlas {
    /// The position of the first character of `text` that has no cached
    /// glyph at `size`, line feeds aside.
    pub fn first_missing(&self, text: &Vec<char>, size: usize) -> (found: Option<usize>)
        ensures
            match found {
                Some(i) => i < text@.len() && missing_at(self@, text@, size, i as int) && forall|
                    j: int,
                |
                    0 <= j < i ==> !missing_at(self@, text@, size, j),
                None => forall|j: int| 0 <= j < text@.len() ==> !missing_at(self@, text@, size, j),
            },
    {
        let mut i: usize = 0;
        while i < text.len()
            invariant
                i <= text@.len(),
                forall|j: int| 0 <= j < i ==> !missing_at(self@, text@, size, j),
            decreases text@.len() - i,
        {
            let ch = text[i];
            if ch != '\n' {
                if self.get(ch, size).is_none() {
                    return Some(i);
                }
            }
            i += 1;
        }
        None
    }
}

impl Framebuffer {
    /// Draws a run of text with its first line starting at `(x, y)`.
    ///
    /// Every character but the line feed needs a cached glyph at
    /// `font_size`; if one is missing the call fails before any pixel is
    /// written and names the first such character. Otherwise each glyph is
    /// composited at the pen by alpha-over blending, the pen advances by
    /// the glyph's advance width, a line feed starts a new line
    /// `font_size + line_height` rows further down, and a line whose pen
    /// has reached the right edge is abandoned up to its line feed. The
    /// result is the box from `(x, y)` to the last painted column and row.
    pub fn draw_text(
        &mut self,
        text: &str,
        atlas: &Atlas,
        font_size: usize,
        x: usize,
        y: usize,
        line_height: usize,
        color: Color,
    ) -> (r: Result<Rect, DrawError>)
        requires
            old(self).wf(),
            glyphs_wf(atlas@),
        ensures
            final(self).wf(),
            match r {
                Err(e) => final(self)@ == old(self)@ && exists|i: int|
                    0 <= i < text@.len() && #[trigger] missing_at(atlas@, text@, font_size, i)
                        && e == (DrawError::MissingGlyph { code: text@[i] as u32, size: font_size })
                        && forall|j: int| 0 <= j < i ==> !missing_at(atlas@, text@, font_size, j),
                Ok(area) => {
                    let t = TextStyle {
                        glyphs: atlas@,
                        font_size,
                        x: x as int,
                        line_height: line_height as int,
                        color: color@,
                    };
                    let end = text_run(
                        text_start(old(self)@, x as int, y as int),
                        text@,
                        text@.len() as int,
                        t,
                    );
                    &&& forall|j: int| 0 <= j < text@.len() ==> !missing_at(atlas@, text@, font_size, j)
                    &&& final(self)@ == end.canvas
                    &&& area == text_area(x as int, y as int, end.reach)
                },
            },
    {
        let chars = text_chars(text);
        match atlas.first_missing(&chars, font_size) {
            Some(i) => {
                return Err(DrawError::MissingGlyph { code: chars[i] as u32, size: font_size });
            },
            None => {},
        }
        let w = self.width();
        let h = self.height();
        let ghost t = TextStyle {
            glyphs: atlas@,
            font_size,
            x: x as int,
            line_height: line_height as int,
            color: color@,
        };
        let ghost init = text_start(old(self)@, x as int, y as int);
        let feed: i128 = font_size as i128 + line_height as i128;
        let mut pen_x: usize = x;
        let mut pen_y: i128 = y as i128;
        let mut skip = false;
        let mut reach: (usize, usize) = (0, 0);
        let n = chars.len();
        let mut i: usize = 0;
        while i < n
            invariant
                self.wf(),
                glyphs_wf(atlas@),
                chars@ == text@,
                n == chars@.len(),
                i <= n,
                forall|j: int| 0 <= j < text@.len() ==> !missing_at(atlas@, text@, font_size, j),
                w == old(self)@.width,
                h == old(self)@.height,
                feed == font_size + line_height,
                t == (TextStyle {
                    glyphs: atlas@,
                    font_size,
                    x: x as int,
                    line_height: line_height as int,
                    color: color@,
                }),
                init == text_start(old(self)@, x as int, y as int),
                self@ == text_run(init, text@, i as int, t).canvas,
                skip == text_run(init, text@, i as int, t).skip,
                !skip ==> pen_x == text_run(init, text@, i as int, t).pen_x,
                0 <= pen_y <= 0x10_0000_0000_0000_0000_0000_0000,
                pen_y < 0x10_0000_0000_0000_0000_0000_0000 ==> pen_y == text_run(
                    init,
                    text@,
                    i as int,
                    t,
                ).pen_y,
                pen_y == 0x10_0000_0000_0000_0000_0000_0000 ==> text_run(
                    init,
                    text@,
                    i as int,
                    t,
                ).pen_y >= 0x10_0000_0000_0000_0000_0000_0000,
                (reach.0 as int, reach.1 as int) == text_run(init, text@, i as int, t).reach,
            decreases n - i,
        {
            let ghost s = text_run(init, text@, i as int, t);
            proof {
                lemma_text_run_dims(init, text@, i as int, t);
                assert(!missing_at(atlas@, text@, font_size, i as int));
            }
            let ch = chars[i];
            if ch == '\n' {
                pen_x = x;
                skip = false;
                // Beyond this row nothing that the pen places can reach the
                // framebuffer, so the row is no longer counted on.
                pen_y = if pen_y + feed >= 0x10_0000_0000_0000_0000_0000_0000 {
                    0x10_0000_0000_0000_0000_0000_0000
                } else {
                    pen_y + feed
                };
            } else if !skip {
                match atlas.get(ch, font_size) {
                    Some(g) => {
                        if pen_y < 0x10_0000_0000_0000_0000_0000_0000 {
                            let gy: i128 = font_size as i128 + pen_y - (g.height as i128
                                - g.advance_height as i128) - g.y_min as i128;
                            reach = self.draw_glyph(g, pen_x, gy, color, reach);
                        } else {
                            proof {
                                self.lemma_view_wf();
                                lemma_glyph_below(
                                    s.canvas,
                                    *g,
                                    s.pen_x,
                                    glyph_top(*g, s.pen_y, font_size as int),
                                    color@,
                                    s.reach,
                                );
                            }
                        }
                        match pen_x.checked_add(g.advance_width) {
                            Some(nx) => {
                                pen_x = nx;
                                skip = nx >= w;
                            },
                            None => {
                                skip = true;
                            },
                        }
                    },
                    None => {},
                }
            }
            i += 1;
        }
        let area = Rect {
            x: to_i32(x as i128),
            y: to_i32(y as i128),
            width: to_i32(reach.0 as i128 + 1 - x as i128),
            height: to_i32(reach.1 as i128 + 1 - y as i128),
        };
        Ok(area)
    }
}

/// The position of the first character from `from` on that needs a glyph
/// that is not cached.
pub open spec fn scan_missing(glyphs: Map<u64, Glyph>, text: Seq<char>, size: usize, from: int) -> Option<int>
    decreases text.len() - from,
{
    if from < 0 || from >= text.len() {
        None
    } else if missing_at(glyphs, text, size, from) {
        Some(from)
    } else {
        scan_missing(glyphs, text, size, from + 1)
    }
}

/// `scan_missing` finds the least position at which a glyph is missing.
pub proof fn lemma_scan_missing(glyphs: Map<u64, Glyph>, text: Seq<char>, size: usize, from: int)
    requires
        0 <= from,
    ensures
        match scan_missing(glyphs, text, size, from) {
            Some(i) => from <= i < text.len() && missing_at(glyphs, text, size, i) && forall|j: int|
                from <= j < i ==> !missing_at(glyphs, text, size, j),
            None => forall|j: int| from <= j < text.len() ==> !missing_at(glyphs, text, size, j),
        },
    decreases text.len() - from,
{
    if from < text.len() && !missing_at(glyphs, text, size, from) {
        lemma_scan_missing(glyphs, text, size, from + 1);
    }
}

} // verus!
