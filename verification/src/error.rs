//! The failures that drawing operations report.

use vstd::prelude::*;

verus! {

/// Why a drawing operation was rejected. A rejected operation writes no
/// pixel.
#[derive(Clone, Copy, Debug, PartialEq, Eq, Structural)]
pub enum DrawError {
    /// A box does not lie strictly inside the framebuffer.
    OutOfBounds { x: usize, y: usize, width: usize, height: usize },
    /// The corner radius of a rounded rectangle exceeds half its width.
    RadiusTooLarge { radius: usize, width: usize },
    /// No glyph is cached for this character code at this font size.
    MissingGlyph { code: u32, size: usize },
}

} // verus!
