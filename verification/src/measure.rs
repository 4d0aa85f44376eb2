//! The size of a run of text, computed from the glyph metrics alone.

use vstd::prelude::*;
use crate::error::DrawError;
use crate::geometry::Rect;
use crate::glyph::{Atlas, Glyph, cached, glyphs_wf};
use crate::text::{TextStyle, glyph_top, max_int, missing_at, text_area, text_chars, to_i32};

verus! {

/// Where the measuring of a run of text stands: the pen, whether the rest
/// of the current line is abandoned, and the largest column and row that a
/// glyph's bitmap has reached so far.
pub struct PenState {
    pub pen_x: int,
    pub pen_y: int,
    pub skip: bool,
    pub reach: (int, int),
}

/// The reach after a glyph whose bitmap has its top left corner at
/// `(gx, gy)`: the bitmap counts, whatever its coverage, as soon as one of
/// its rows is at or below row 0.
pub open spec fn box_reach(g: Glyph, gx: int, gy: int, acc: (int, int)) -> (int, int) {
    if g.width > 0 && g.height > 0 && gy + g.height - 1 >= 0 {
        (max_int(acc.0, gx + g.width - 1), max_int(acc.1, gy + g.height - 1))
    } else {
        acc
    }
}

/// One character of a measured run. The pen moves as it does when the
/// text is drawn on a canvas `width` columns wide.
pub open spec fn measure_step(s: PenState, ch: char, t: TextStyle, width: int) -> PenState {
    if ch == '\n' {
        PenState {
            pen_x: t.x,
            pen_y: s.pen_y + t.font_size + t.line_height,
            skip: false,
            reach: s.reach,
        }
    } else if s.skip {
        s
    } else {
        match cached(t.glyphs, ch, t.font_size) {
            None => s,
            Some(g) => PenState {
                pen_x: s.pen_x + g.advance_width,
                pen_y: s.pen_y,
                skip: s.pen_x + g.advance_width >= width,
                reach: box_reach(g, s.pen_x, glyph_top(g, s.pen_y, t.font_size as int), s.reach),
            },
        }
    }
}

/// The state after the first `n` characters of `text`.
pub open spec fn measure_run(init: PenState, text: Seq<char>, n: int, t: TextStyle, width: int) -> PenState
    decreases n,
{
    if n <= 0 {
        init
    } else {
        measure_step(measure_run(init, text, n - 1, t, width), text[n - 1], t, width)
    }
}

/// Measures a run of text whose first line starts at `(x, y)` on a canvas
/// `canvas_width` columns wide, without drawing it.
///
/// Fails, naming the first such character, if a character other than the
/// line feed has no cached glyph at `font_size`. Otherwise the result is
/// the box from `(x, y)` to the last column and row that the bitmap of a
/// glyph reaches.
pub fn measure_text(
    atlas: &Atlas,
    text: &str,
    font_size: usize,
    x: usize,
    y: usize,
    line_height: usize,
    canvas_width: usize,
) -> (r: Result<Rect, DrawError>)
    requires
        glyphs_wf(atlas@),
    ensures
        match r {
            Err(e) => exists|i: int|
                0 <= i < text@.len() && #[trigger] missing_at(atlas@, text@, font_size, i) && e == (
                DrawError::MissingGlyph { code: text@[i] as u32, size: font_size }) && forall|
                    j: int,
                |
                    0 <= j < i ==> !missing_at(atlas@, text@, font_size, j),
            Ok(area) => {
                let t = TextStyle {
                    glyphs: atlas@,
                    font_size,
                    x: x as int,
                    line_height: line_height as int,
                    color: 0,
                };
                let init = PenState { pen_x: x as int, pen_y: y as int, skip: false, reach: (0, 0) };
                let end = measure_run(init, text@, text@.len() as int, t, canvas_width as int);
                &&& forall|j: int| 0 <= j < text@.len() ==> !missing_at(atlas@, text@, font_size, j)
                &&& area == text_area(x as int, y as int, end.reach)
            },
        },
{
    let chars = text_chars(text);
    match atlas.first_missing(&chars, font_size) {
        Some(i) => {
            return Err(DrawError::MissingGlyph { code: chars[i] as u32, size: font_size });
        },
        None => {},
    }
    let ghost t = TextStyle {
        glyphs: atlas@,
        font_size,
        x: x as int,
        line_height: line_height as int,
        color: 0,
    };
    let ghost init = PenState { pen_x: x as int, pen_y: y as int, skip: false, reach: (0, 0) };
    let ghost width = canvas_width as int;
    let feed: i128 = font_size as i128 + line_height as i128;
    let mut pen_x: usize = x;
    let mut pen_y: i128 = y as i128;
    let mut skip = false;
    let mut reach_x: i128 = 0;
    let mut reach_y: i128 = 0;
    let n = chars.len();
    let mut i: usize = 0;
    while i < n
        invariant
            glyphs_wf(atlas@),
            chars@ == text@,
            n == chars@.len(),
            i <= n,
            forall|j: int| 0 <= j < text@.len() ==> !missing_at(atlas@, text@, font_size, j),
            width == canvas_width,
            feed == font_size + line_height,
            t == (TextStyle {
                glyphs: atlas@,
                font_size,
                x: x as int,
                line_height: line_height as int,
                color: 0,
            }),
            init == (PenState { pen_x: x as int, pen_y: y as int, skip: false, reach: (0, 0) }),
            skip == measure_run(init, text@, i as int, t, width).skip,
            !skip ==> pen_x == measure_run(init, text@, i as int, t, width).pen_x,
            0 <= pen_y <= 0x10_0000_0000_0000_0000_0000_0000,
            pen_y < 0x10_0000_0000_0000_0000_0000_0000 ==> pen_y == measure_run(
                init,
                text@,
                i as int,
                t,
                width,
            ).pen_y,
            pen_y == 0x10_0000_0000_0000_0000_0000_0000 ==> measure_run(
                init,
                text@,
                i as int,
                t,
                width,
            ).pen_y >= 0x10_0000_0000_0000_0000_0000_0000,
            reach_x == measure_run(init, text@, i as int, t, width).reach.0,
            0 <= reach_x <= 0x2_0000_0000_0000_0000,
            0 <= reach_y <= 0x20_0000_0000_0000_0000_0000_0000,
            reach_y < 0x8_0000_0000_0000_0000_0000_0000 ==> reach_y == measure_run(
                init,
                text@,
                i as int,
                t,
                width,
            ).reach.1,
            reach_y >= 0x8_0000_0000_0000_0000_0000_0000 ==> measure_run(
                init,
                text@,
                i as int,
                t,
                width,
            ).reach.1 >= 0x8_0000_0000_0000_0000_0000_0000,
        decreases n - i,
    {
        proof {
            assert(!missing_at(atlas@, text@, font_size, i as int));
        }
        let ch = chars[i];
        if ch == '\n' {
            pen_x = x;
            skip = false;
            pen_y = if pen_y + feed >= 0x10_0000_0000_0000_0000_0000_0000 {
                0x10_0000_0000_0000_0000_0000_0000
            } else {
                pen_y + feed
            };
        } else if !skip {
            match atlas.get(ch, font_size) {
                Some(g) => {
                    let gy: i128 = font_size as i128 + pen_y - (g.height as i128
                        - g.advance_height as i128) - g.y_min as i128;
                    if g.width > 0 && g.height > 0 && gy + g.height as i128 - 1 >= 0 {
                        let right: i128 = pen_x as i128 + g.width as i128 - 1;
                        let bottom: i128 = gy + g.height as i128 - 1;
                        if reach_x < right {
                            reach_x = right;
                        }
                        if reach_y < bottom {
                            reach_y = bottom;
                        }
                    }
                    match pen_x.checked_add(g.advance_width) {
                        Some(nx) => {
                            pen_x = nx;
                            skip = nx >= canvas_width;
                        },
                        None => {
                            skip = true;
                        },
                    }
                },
                None => {},
            }
        }
        i += 1;
    }
    let area = Rect {
        x: to_i32(x as i128),
        y: to_i32(y as i128),
        width: to_i32(reach_x + 1 - x as i128),
        height: to_i32(reach_y + 1 - y as i128),
    };
    Ok(area)
}

} // verus!
