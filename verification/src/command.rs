//! Draw commands, the queue that carries them from the widgets to the
//! framebuffer, and what each command paints.

use crossbeam_queue::SegQueue;
use vstd::prelude::*;
use crate::canvas::Canvas;
use crate::color::Color;
use crate::error::DrawError;
use crate::framebuffer::Framebuffer;
use crate::geometry::Rect;
use crate::glyph::{Atlas, Glyph, glyphs_wf};
use crate::image::{ImageFormat, bytes_per_pixel};
use crate::text::{TextStyle, lemma_scan_missing, missing_at, scan_missing, text_run, text_start};

verus! {

/// A draw operation.
#[derive(Debug)]
pub enum Primitive {
    /// A filled rectangle whose corners are rounded with this radius; with
    /// radius 0, a plain filled rectangle.
    Ellipse(usize, Color),
    /// The one-pixel frame of the area.
    RectangleOutline(Color),
    /// Text at this font size, starting at the area's top left corner.
    Text(String, usize, Color),
    /// A drawing routine that the caller keeps, named by its handle. The
    /// queue hands the handle back when the command's turn comes.
    Custom(usize),
    /// Decoded samples of an image of the area's size.
    Image(Vec<u8>, ImageFormat),
}

/// A draw operation and the area it applies to.
#[derive(Debug)]
pub struct Command {
    pub area: Rect,
    pub primitive: Primitive,
}

/// What a draw operation holds, with its text and its samples as plain
/// sequences.
pub enum PrimitiveView {
    Ellipse(usize, Color),
    RectangleOutline(Color),
    Text(Seq<char>, usize, Color),
    Custom(usize),
    Image(Seq<u8>, ImageFormat),
}

impl View for Primitive {
    type V = PrimitiveView;

    open spec fn view(&self) -> PrimitiveView {
        match *self {
            Primitive::Ellipse(radius, color) => PrimitiveView::Ellipse(radius, color),
            Primitive::RectangleOutline(color) => PrimitiveView::RectangleOutline(color),
            Primitive::Text(text, size, color) => PrimitiveView::Text(text@, size, color),
            Primitive::Custom(id) => PrimitiveView::Custom(id),
            Primitive::Image(data, format) => PrimitiveView::Image(data@, format),
        }
    }
}

impl View for Command {
    type V = (Rect, PrimitiveView);

    open spec fn view(&self) -> (Rect, PrimitiveView) {
        (self.area, self.primitive@)
    }
}

/// What a command does to a canvas.
pub enum Effect {
    /// The command painted; this is the canvas after it.
    Painted(Canvas),
    /// The command is a custom routine with this handle; the canvas is
    /// untouched.
    Yield(usize),
    /// The command was rejected before any pixel was written.
    Failed(DrawError),
}

/// Whether the area has its origin on the pixel grid and a size that is
/// not negative. A command on any other area paints nothing.
pub open spec fn area_drawable(area: Rect) -> bool {
    area.x >= 0 && area.y >= 0 && area.width >= 0 && area.height >= 0
}

/// What drawing `text` at `(x, y)` does: it fails on the first character
/// without a cached glyph, and else paints the run with no extra space
/// between lines.
pub open spec fn text_effect(
    c: Canvas,
    glyphs: Map<u64, Glyph>,
    text: Seq<char>,
    size: usize,
    x: int,
    y: int,
    color: int,
) -> Effect {
    match scan_missing(glyphs, text, size, 0) {
        Some(i) => Effect::Failed(DrawError::MissingGlyph { code: text[i] as u32, size }),
        None => Effect::Painted(
            text_run(
                text_start(c, x, y),
                text,
                text.len() as int,
                TextStyle { glyphs, font_size: size, x, line_height: 0, color },
            ).canvas,
        ),
    }
}

/// What a command does to the canvas `c` with the glyphs `glyphs` at
/// hand.
pub open spec fn command_effect(c: Canvas, glyphs: Map<u64, Glyph>, cmd: Command) -> Effect {
    let a = cmd.area;
    match cmd.primitive {
        Primitive::Custom(id) => Effect::Yield(id),
        Primitive::Ellipse(radius, color) => if !area_drawable(a) {
            Effect::Painted(c)
        } else if radius == 0 {
            Effect::Painted(c.fill_rect(a.x as int, a.y as int, a.width as int, a.height as int, color.0))
        } else if 2 * radius > a.width {
            Effect::Failed(DrawError::RadiusTooLarge { radius, width: a.width as usize })
        } else {
            Effect::Painted(
                c.fill_rounded(
                    a.x as int,
                    a.y as int,
                    a.width as int,
                    a.height as int,
                    radius as int,
                    color.0,
                ),
            )
        },
        Primitive::RectangleOutline(color) => if !area_drawable(a) {
            Effect::Painted(c)
        } else {
            Effect::Painted(
                c.outline_rect(a.x as int, a.y as int, a.width as int, a.height as int, color.0),
            )
        },
        Primitive::Text(text, size, color) => if !area_drawable(a) {
            Effect::Painted(c)
        } else {
            text_effect(c, glyphs, text@, size, a.x as int, a.y as int, color@)
        },
        Primitive::Image(data, format) => if !area_drawable(a) {
            Effect::Painted(c)
        } else {
            Effect::Painted(
                c.blit(
                    data@,
                    bytes_per_pixel(format),
                    a.x as int,
                    a.y as int,
                    a.width as int,
                    a.height as int,
                ),
            )
        },
    }
}

impl Framebuffer {
    /// Rasterises one command. A custom command is not run: its handle is
    /// returned, and the framebuffer stays as it was. A command that is
    /// rejected leaves the framebuffer as it was too.
    pub fn run_command(&mut self, cmd: &Command, atlas: &Atlas) -> (r: Result<Option<usize>, DrawError>)
        requires
            old(self).wf(),
            glyphs_wf(atlas@),
        ensures
            final(self).wf(),
            match command_effect(old(self)@, atlas@, *cmd) {
                Effect::Painted(c) => r == Ok::<Option<usize>, DrawError>(None) && final(self)@ == c,
                Effect::Yield(id) => r == Ok::<Option<usize>, DrawError>(Some(id)) && final(self)@
                    == old(self)@,
                Effect::Failed(e) => r == Err::<Option<usize>, DrawError>(e) && final(self)@ == old(
                    self,
                )@,
            },
    {
        let a = cmd.area;
        match &cmd.primitive {
            Primitive::Custom(id) => {
                return Ok(Some(*id));
            },
            _ => {},
        }
        if a.x < 0 || a.y < 0 || a.width < 0 || a.height < 0 {
            return Ok(None);
        }
        let x = a.x as usize;
        let y = a.y as usize;
        let width = a.width as usize;
        let height = a.height as usize;
        match &cmd.primitive {
            Primitive::Ellipse(radius, color) => {
                if *radius == 0 {
                    let _ = self.draw_rectangle(x, y, width, height, *color);
                    Ok(None)
                } else {
                    match self.draw_rectangle_rounded(x, y, width, height, *radius, *color) {
                        Ok(()) => Ok(None),
                        Err(e) => Err(e),
                    }
                }
            },
            Primitive::RectangleOutline(color) => {
                let _ = self.draw_rectangle_outline(x, y, width, height, *color);
                Ok(None)
            },
            Primitive::Text(text, size, color) => {
                proof {
                    lemma_scan_missing(atlas@, text@, *size, 0);
                }
                match self.draw_text(text.as_str(), atlas, *size, x, y, 0, *color) {
                    Ok(_) => Ok(None),
                    Err(e) => Err(e),
                }
            },
            Primitive::Image(data, format) => {
                self.draw_image(data.as_slice(), x, y, width, height, *format);
                Ok(None)
            },
            Primitive::Custom(id) => Ok(Some(*id)),
        }
    }
}

/// The commands that wait in a queue, oldest first.
pub uninterp spec fn queued(q: SegQueue<Command>) -> Seq<Command>;

/// The queue type of `crossbeam_queue`.
#[verifier::external_type_specification]
#[verifier::external_body]
#[verifier::reject_recursive_types(T)]
pub struct ExSegQueue<T>(SegQueue<T>);

/// `SegQueue::new`: a queue that holds nothing.
#[verifier::external_body]
fn seg_new() -> (q: SegQueue<Command>)
    ensures
        queued(q) == Seq::<Command>::empty(),
{
    SegQueue::new()
}

/// `SegQueue::push_mut`: the element is added at the tail; what was
/// queued stays in its order.
#[verifier::external_body]
fn seg_push(q: &mut SegQueue<Command>, command: Command)
    ensures
        queued(*final(q)) == queued(*old(q)).push(command),
{
    q.push_mut(command)
}

/// `SegQueue::pop_mut`: the head element leaves the queue and is
/// returned; an empty queue gives `None` and stays empty.
#[verifier::external_body]
fn seg_pop(q: &mut SegQueue<Command>) -> (head: Option<Command>)
    ensures
        match head {
            Some(command) => queued(*old(q)).len() > 0 && command == queued(*old(q))[0] && queued(
                *final(q),
            ) == queued(*old(q)).drop_first(),
            None => queued(*old(q)).len() == 0 && queued(*final(q)) == queued(*old(q)),
        },
{
    q.pop_mut()
}

/// `SegQueue::len`: the number of elements in the queue.
#[verifier::external_body]
fn seg_len(q: &SegQueue<Command>) -> (n: usize)
    ensures
        n == queued(*q).len(),
{
    q.len()
}

/// The queue of pending draw commands: first in, first out.
pub struct CommandQueue {
    queue: SegQueue<Command>,
}

impl View for CommandQueue {
    type V = Seq<Command>;

    closed spec fn view(&self) -> Seq<Command> {
        queued(self.queue)
    }
}

impl CommandQueue {
    /// An empty queue.
    pub fn new() -> (q: CommandQueue)
        ensures
            q@ == Seq::<Command>::empty(),
    {
        CommandQueue { queue: seg_new() }
    }

    /// Appends a command behind those that wait. Never blocks and never
    /// fails.
    pub fn push(&mut self, command: Command)
        ensures
            final(self)@ == old(self)@.push(command),
    {
        seg_push(&mut self.queue, command);
    }

    /// Takes the oldest command out of the queue.
    pub fn pop(&mut self) -> (head: Option<Command>)
        ensures
            match head {
                Some(command) => old(self)@.len() > 0 && command == old(self)@[0] && final(self)@
                    == old(self)@.drop_first(),
                None => old(self)@.len() == 0 && final(self)@ == old(self)@,
            },
    {
        seg_pop(&mut self.queue)
    }

    /// The number of commands that wait.
    pub fn len(&self) -> (n: usize)
        ensures
            n == self@.len(),
    {
        seg_len(&self.queue)
    }

    /// Whether no command waits.
    pub fn is_empty(&self) -> (empty: bool)
        ensures
            empty == (self@.len() == 0),
    {
        seg_len(&self.queue) == 0
    }
}

} // verus!
