//! Rasterised glyphs and the cache that holds them by character and size.

use std::collections::HashMap;
use vstd::prelude::*;

verus! {

broadcast use vstd::std_specs::hash::group_hash_axioms;

/// The coverage bitmap of one character at one font size, with the
/// metrics that place it on a line. All metrics are whole pixels.
#[derive(Debug)]
pub struct Glyph {
    /// Columns of the bitmap.
    pub width: usize,
    /// Rows of the bitmap.
    pub height: usize,
    /// How far the pen moves right after this glyph.
    pub advance_width: usize,
    /// The vertical advance, used by vertical fonts.
    pub advance_height: i32,
    /// The offset of the bitmap's bottom edge from the baseline.
    pub y_min: i32,
    /// Coverage per pixel, row by row from the top left corner: 0 is
    /// empty, 255 is fully covered.
    pub bitmap: Vec<u8>,
}

impl Glyph {
    /// The bitmap holds one coverage value per pixel.
    pub open spec fn wf(&self) -> bool {
        self.bitmap@.len() == self.width * self.height
    }

    /// The coverage at column `col` of row `row`.
    pub open spec fn alpha(&self, col: int, row: int) -> u8 {
        self.bitmap@[col + row * self.width]
    }

    /// Whether the glyph has ink at `(col, row)`.
    pub open spec fn inked(&self, col: int, row: int) -> bool {
        0 <= col < self.width && 0 <= row < self.height && self.alpha(col, row) != 0
    }

    /// Builds a glyph, or `None` when the bitmap does not hold exactly
    /// `width * height` values.
    pub fn new(
        width: usize,
        height: usize,
        advance_width: usize,
        advance_height: i32,
        y_min: i32,
        bitmap: Vec<u8>,
    ) -> (g: Option<Glyph>)
        ensures
            g is Some <==> bitmap@.len() == width * height,
            g is Some ==> g->0 == (Glyph {
                width,
                height,
                advance_width,
                advance_height,
                y_min,
                bitmap,
            }) && g->0.wf(),
    {
        let len = bitmap.len();
        match width.checked_mul(height) {
            Some(n) => {
                if n == len {
                    Some(Glyph { width, height, advance_width, advance_height, y_min, bitmap })
                } else {
                    None
                }
            },
            None => None,
        }
    }

    /// Whether the bitmap holds exactly `width * height` values.
    pub fn is_valid(&self) -> (ok: bool)
        ensures
            ok == self.wf(),
    {
        let len = self.bitmap.len();
        match self.width.checked_mul(self.height) {
            Some(n) => n == len,
            None => false,
        }
    }

    /// The coverage at `(col, row)`.
    pub fn coverage(&self, col: usize, row: usize) -> (a: u8)
        requires
            self.wf(),
            col < self.width,
            row < self.height,
        ensures
            a == self.alpha(col as int, row as int),
    {
        proof {
            crate::framebuffer::lemma_row_major(
                self.width as int,
                self.height as int,
                col as int,
                row as int,
            );
        }
        let n = self.bitmap.len();
        self.bitmap[col + row * self.width]
    }
}

/// The key under which the glyph of the character with code `code` at
/// font size `size` is cached.
pub open spec fn glyph_key(code: u32, size: usize) -> u64 {
    (size * 0x1_0000_0000 + code) as u64
}

/// A cache of rasterised glyphs, one entry per character and font size.
pub struct Atlas {
    glyphs: HashMap<u64, Glyph>,
}

impl View for Atlas {
    type V = Map<u64, Glyph>;

    closed spec fn view(&self) -> Map<u64, Glyph> {
        self.glyphs@
    }
}

/// Every glyph of the map holds a bitmap of the right length.
pub open spec fn glyphs_wf(m: Map<u64, Glyph>) -> bool {
    forall|k: u64| m.contains_key(k) ==> (#[trigger] m[k]).wf()
}

/// The glyph cached for `ch` at `size`, if there is one. No glyph is
/// cached for a size above `u32::MAX`.
pub open spec fn cached(m: Map<u64, Glyph>, ch: char, size: usize) -> Option<Glyph> {
    if size <= u32::MAX && m.contains_key(glyph_key(ch as u32, size)) {
        Some(m[glyph_key(ch as u32, size)])
    } else {
        None
    }
}

impl Atlas {
    /// An empty cache.
    pub fn new() -> (a: Atlas)
        ensures
            a@ == Map::<u64, Glyph>::empty(),
            glyphs_wf(a@),
    {
        Atlas { glyphs: HashMap::new() }
    }

    /// Caches `glyph` for `ch` at `size`, replacing an earlier entry.
    /// Refuses, and returns `false`, when the size is above `u32::MAX` or
    /// the glyph's bitmap has the wrong length.
    pub fn insert(&mut self, ch: char, size: usize, glyph: Glyph) -> (stored: bool)
        requires
            glyphs_wf(old(self)@),
        ensures
            glyphs_wf(final(self)@),
            stored == (size <= u32::MAX && glyph.wf()),
            stored ==> final(self)@ == old(self)@.insert(glyph_key(ch as u32, size), glyph),
            !stored ==> final(self)@ == old(self)@,
    {
        if size > u32::MAX as usize || !glyph.is_valid() {
            return false;
        }
        let key: u64 = (size as u64) * 0x1_0000_0000 + (ch as u32 as u64);
        self.glyphs.insert(key, glyph);
        true
    }

    /// The glyph cached for `ch` at `size`.
    pub fn get(&self, ch: char, size: usize) -> (g: Option<&Glyph>)
        ensures
            match g {
                Some(found) => cached(self@, ch, size) == Some(*found),
                None => cached(self@, ch, size) is None,
            },
    {
        if size > u32::MAX as usize {
            return None;
        }
        let key: u64 = (size as u64) * 0x1_0000_0000 + (ch as u32 as u64);
        self.glyphs.get(&key)
    }

    /// The number of cached glyphs.
    pub fn len(&self) -> (n: usize)
        ensures
            n == self@.len(),
    {
        self.glyphs.len()
    }
}

} // verus!
