//! A software-rasterised, immediate-mode rendering core: an in-memory pixel
//! framebuffer, a deferred draw-command queue, rasterisation of geometric
//! shapes and glyphs, and a pointer state machine used for hit-testing.

pub mod color;
pub mod geometry;
pub mod canvas;
pub mod error;
pub mod framebuffer;
pub mod raster;
pub mod circle;
pub mod outline;
pub mod symmetry;
pub mod line;
pub mod glyph;
pub mod text;
pub mod measure;
pub mod input;
pub mod image;
pub mod command;
pub mod context;
pub mod painter;
pub mod widgets;

pub use crate::circle::Quadrant;
pub use crate::color::{Color, blend, rgb};
pub use crate::command::{Command, CommandQueue, Primitive};
pub use crate::context::{Context, FrameStatus, create_ctx, queue_command, queue_command_fn};
pub use crate::error::DrawError;
pub use crate::framebuffer::Framebuffer;
pub use crate::geometry::Rect;
pub use crate::glyph::{Atlas, Glyph};
pub use crate::image::{Image, ImageError, ImageFormat, image};
pub use crate::input::{Event, MouseButton, MouseState, Pointer};
pub use crate::measure::measure_text;
pub use crate::widgets::{Rectangle, Text, Widget, rect, text};
