//! The rendering context: one framebuffer, the glyph cache, the queue of
//! pending commands and the pointer, and the frame loop's two steps.

use vstd::prelude::*;
use crate::canvas::{Canvas, in_box};
use crate::color::Color;
use crate::command::{Command, CommandQueue, Effect, Primitive, area_drawable, command_effect};
use crate::error::DrawError;
use crate::framebuffer::Framebuffer;
use crate::geometry::Rect;
use crate::glyph::{Atlas, Glyph, glyphs_wf};
use crate::input::{Event, MouseButton, Pointer, consumed};

verus! {

/// How a drain of the command queue ended.
#[derive(Clone, Copy, Debug, PartialEq, Eq, Structural)]
pub enum FrameStatus {
    /// The queue is empty and the frame is over.
    Done,
    /// The command whose turn it is is a custom routine with this handle.
    /// The caller runs it and drains again.
    Custom(usize),
}

/// Where a drain stands when it stops: the canvas, the commands that
/// still wait, and why it stopped.
pub struct Drained {
    pub canvas: Canvas,
    pub rest: Seq<Command>,
    pub status: Result<FrameStatus, DrawError>,
}

/// Drains `commands` onto the canvas in the order in which they were
/// queued. The drain stops when the queue is empty, or at the first
/// custom command, or at the first command that is rejected; that command
/// has then left the queue and those behind it still wait.
pub open spec fn drain(c: Canvas, glyphs: Map<u64, Glyph>, commands: Seq<Command>) -> Drained
    decreases commands.len(),
{
    if commands.len() == 0 {
        Drained { canvas: c, rest: commands, status: Ok(FrameStatus::Done) }
    } else {
        match command_effect(c, glyphs, commands[0]) {
            Effect::Painted(next) => drain(next, glyphs, commands.drop_first()),
            Effect::Yield(id) => Drained {
                canvas: c,
                rest: commands.drop_first(),
                status: Ok(FrameStatus::Custom(id)),
            },
            Effect::Failed(e) => Drained { canvas: c, rest: commands.drop_first(), status: Err(e) },
        }
    }
}

/// Everything that one window's rendering needs.
pub struct Context {
    pub framebuffer: Framebuffer,
    pub atlas: Atlas,
    pub queue: CommandQueue,
    pub pointer: Pointer,
    /// The font size of text that sets none.
    pub default_font_size: usize,
}

/// The default font size of a new context.
pub const DEFAULT_FONT_SIZE: usize = 18;

impl Context {
    /// The framebuffer and the glyph cache are well formed.
    pub open spec fn wf(&self) -> bool {
        self.framebuffer.wf() && glyphs_wf(self.atlas@)
    }

    /// A context with a blank framebuffer of the given size, no cached
    /// glyph, no pending command and an idle pointer.
    pub fn new(width: usize, height: usize) -> (ctx: Context)
        requires
            width * height <= usize::MAX,
        ensures
            ctx.wf(),
            ctx.framebuffer@ == Canvas::blank(width as nat, height as nat),
            ctx.atlas@ == Map::<u64, Glyph>::empty(),
            ctx.queue@ == Seq::<Command>::empty(),
            ctx.pointer == Pointer::idle(),
            ctx.default_font_size == DEFAULT_FONT_SIZE,
    {
        Context {
            framebuffer: Framebuffer::new(width, height),
            atlas: Atlas::new(),
            queue: CommandQueue::new(),
            pointer: Pointer::new(),
            default_font_size: DEFAULT_FONT_SIZE,
        }
    }

    /// The font size of text that sets none.
    pub fn default_font_size(&self) -> (size: usize)
        ensures
            size == self.default_font_size,
    {
        self.default_font_size
    }

    /// Replaces the font size of text that sets none.
    pub fn set_default_font_size(&mut self, font_size: usize)
        ensures
            *final(self) == (Context { default_font_size: font_size, ..*old(self) }),
    {
        self.default_font_size = font_size;
    }

    /// Follows a change of the surface's size: if the size differs from
    /// the framebuffer's, the framebuffer is replaced by a blank one of the
    /// new size; if it does not, nothing changes.
    pub fn update_area(&mut self, width: usize, height: usize)
        requires
            old(self).wf(),
            width * height <= usize::MAX,
        ensures
            final(self).wf(),
            final(self).atlas == old(self).atlas,
            final(self).default_font_size == old(self).default_font_size,
            final(self).queue == old(self).queue,
            final(self).pointer == old(self).pointer,
            final(self).framebuffer@ == (if old(self).framebuffer@.width == width && old(
                self,
            ).framebuffer@.height == height {
                old(self).framebuffer@
            } else {
                Canvas::blank(width as nat, height as nat)
            }),
    {
        if self.framebuffer.width() != width || self.framebuffer.height() != height {
            self.framebuffer = Framebuffer::new(width, height);
        }
    }

    /// Queues a command behind those that wait.
    pub fn queue_command(&mut self, command: Command)
        ensures
            final(self).queue@ == old(self).queue@.push(command),
            final(self).framebuffer == old(self).framebuffer,
            final(self).atlas == old(self).atlas,
            final(self).default_font_size == old(self).default_font_size,
            final(self).pointer == old(self).pointer,
    {
        self.queue.push(command);
    }

    /// Feeds one polled event to the pointer. Position and button events
    /// are consumed; any other event, and the absence of one, is handed
    /// back unchanged.
    pub fn event(&mut self, polled: Option<Event>) -> (passed: Option<Event>)
        ensures
            final(self).framebuffer == old(self).framebuffer,
            final(self).atlas == old(self).atlas,
            final(self).default_font_size == old(self).default_font_size,
            final(self).queue == old(self).queue,
            match polled {
                None => passed is None && final(self).pointer == old(self).pointer,
                Some(e) => final(self).pointer == old(self).pointer.after(e) && passed == (
                if consumed(e) {
                    None
                } else {
                    Some(e)
                }),
            },
    {
        self.pointer.event(polled)
    }

    /// Drains the command queue onto the framebuffer, oldest command
    /// first, and ends the frame.
    ///
    /// When the queue has been emptied, the edge flags of every button are
    /// cleared and the result is `Done`. At a custom command the drain
    /// stops with its handle; the caller runs the routine and calls again.
    /// A rejected command stops the drain with its error. In both cases
    /// the command has left the queue, those behind it still wait, and the
    /// pointer is as it was.
    pub fn draw_frame(&mut self) -> (r: Result<FrameStatus, DrawError>)
        requires
            old(self).wf(),
        ensures
            final(self).wf(),
            final(self).atlas == old(self).atlas,
            final(self).default_font_size == old(self).default_font_size,
            ({
                let d = drain(old(self).framebuffer@, old(self).atlas@, old(self).queue@);
                &&& r == d.status
                &&& final(self).framebuffer@ == d.canvas
                &&& final(self).queue@ == d.rest
                &&& final(self).pointer == (if d.status == Ok::<FrameStatus, DrawError>(
                    FrameStatus::Done,
                ) {
                    old(self).pointer.after_frame()
                } else {
                    old(self).pointer
                })
            }),
    {
        loop
            invariant_except_break
                self.wf(),
                self.atlas == old(self).atlas,
                self.pointer == old(self).pointer,
                self.default_font_size == old(self).default_font_size,
                drain(self.framebuffer@, self.atlas@, self.queue@) == drain(
                    old(self).framebuffer@,
                    old(self).atlas@,
                    old(self).queue@,
                ),
            ensures
                self.wf(),
                self.atlas == old(self).atlas,
                self.pointer == old(self).pointer,
                self.default_font_size == old(self).default_font_size,
                self.queue@.len() == 0,
                drain(old(self).framebuffer@, old(self).atlas@, old(self).queue@) == (Drained {
                    canvas: self.framebuffer@,
                    rest: self.queue@,
                    status: Ok(FrameStatus::Done),
                }),
            decreases self.queue@.len(),
        {
            match self.queue.pop() {
                None => {
                    break ;
                },
                Some(command) => {
                    match self.framebuffer.run_command(&command, &self.atlas) {
                        Ok(None) => {},
                        Ok(Some(id)) => {
                            return Ok(FrameStatus::Custom(id));
                        },
                        Err(e) => {
                            return Err(e);
                        },
                    }
                },
            }
        }
        self.pointer.end_frame();
        Ok(FrameStatus::Done)
    }

    /// Whether `button` was clicked on `area` during this frame.
    pub fn clicked(&self, button: MouseButton, area: Rect) -> (hit: bool)
        ensures
            hit == self.pointer.clicked_on(button, area),
    {
        self.pointer.clicked(button, area)
    }

    /// The number of columns of the framebuffer.
    pub fn width(&self) -> (w: usize)
        ensures
            w == self.framebuffer@.width,
    {
        self.framebuffer.width()
    }

    /// The number of rows of the framebuffer.
    pub fn height(&self) -> (h: usize)
        ensures
            h == self.framebuffer@.height,
    {
        self.framebuffer.height()
    }

    /// Sets every pixel of the framebuffer to `color`.
    pub fn fill(&mut self, color: Color)
        requires
            old(self).wf(),
        ensures
            final(self).wf(),
            final(self).framebuffer@ == old(self).framebuffer@.filled(color.0),
            final(self).atlas == old(self).atlas,
            final(self).default_font_size == old(self).default_font_size,
            final(self).queue == old(self).queue,
            final(self).pointer == old(self).pointer,
    {
        self.framebuffer.fill(color);
    }
}

/// Makes the context of a window of the given size.
pub fn create_ctx(width: usize, height: usize) -> (ctx: Context)
    requires
        width * height <= usize::MAX,
    ensures
        ctx.wf(),
        ctx.framebuffer@ == Canvas::blank(width as nat, height as nat),
        ctx.atlas@ == Map::<u64, Glyph>::empty(),
        ctx.queue@ == Seq::<Command>::empty(),
        ctx.pointer == Pointer::idle(),
        ctx.default_font_size == DEFAULT_FONT_SIZE,
{
    Context::new(width, height)
}

/// Queues a command on the context.
pub fn queue_command(ctx: &mut Context, command: Command)
    ensures
        final(ctx).queue@ == old(ctx).queue@.push(command),
        final(ctx).framebuffer == old(ctx).framebuffer,
        final(ctx).atlas == old(ctx).atlas,
        final(ctx).default_font_size == old(ctx).default_font_size,
        final(ctx).pointer == old(ctx).pointer,
{
    ctx.queue_command(command);
}

/// Queues the custom routine with the handle `id`, with no area.
pub fn queue_command_fn(ctx: &mut Context, id: usize)
    ensures
        final(ctx).queue@ == old(ctx).queue@.push(
            Command {
                area: Rect { x: 0, y: 0, width: 0, height: 0 },
                primitive: Primitive::Custom(id),
            },
        ),
        final(ctx).framebuffer == old(ctx).framebuffer,
        final(ctx).atlas == old(ctx).atlas,
        final(ctx).default_font_size == old(ctx).default_font_size,
        final(ctx).pointer == old(ctx).pointer,
{
    ctx.queue_command(
        Command { area: Rect { x: 0, y: 0, width: 0, height: 0 }, primitive: Primitive::Custom(id) },
    );
}

/// Whether the command fills its area with one colour: a rectangle with
/// square corners on a drawable area.
pub open spec fn is_fill(cmd: Command) -> bool {
    cmd.primitive matches Primitive::Ellipse(radius, _) && radius == 0 && area_drawable(cmd.area)
}

/// The colour of a fill.
pub open spec fn fill_color(cmd: Command) -> u32 {
    match cmd.primitive {
        Primitive::Ellipse(_, color) => color.0,
        _ => 0,
    }
}

/// Whether the area of the command holds the pixel.
pub open spec fn covers(cmd: Command, px: int, py: int) -> bool {
    in_box(
        cmd.area.x as int,
        cmd.area.y as int,
        cmd.area.width as int,
        cmd.area.height as int,
        px,
        py,
    )
}

/// A drain of fills runs to the end of the queue, and a pixel that none
/// of them covers is as it was.
pub proof fn lemma_fills_leave_uncovered(
    c: Canvas,
    glyphs: Map<u64, Glyph>,
    commands: Seq<Command>,
    px: int,
    py: int,
)
    requires
        forall|k: int| 0 <= k < commands.len() ==> is_fill(#[trigger] commands[k]),
        forall|k: int| 0 <= k < commands.len() ==> !covers(#[trigger] commands[k], px, py),
        c.contains(px, py),
    ensures
        drain(c, glyphs, commands).status == Ok::<FrameStatus, DrawError>(FrameStatus::Done),
        drain(c, glyphs, commands).rest.len() == 0,
        drain(c, glyphs, commands).canvas.at(px, py) == c.at(px, py),
    decreases commands.len(),
{
    if commands.len() > 0 {
        let head = commands[0];
        let tail = commands.drop_first();
        assert(is_fill(head) && !covers(head, px, py));
        let next = c.fill_rect(
            head.area.x as int,
            head.area.y as int,
            head.area.width as int,
            head.area.height as int,
            fill_color(head),
        );
        assert(command_effect(c, glyphs, head) == Effect::Painted(next));
        assert forall|k: int| 0 <= k < tail.len() implies is_fill(#[trigger] tail[k]) && !covers(
            tail[k],
            px,
            py,
        ) by {
            assert(tail[k] == commands[k + 1]);
        }
        lemma_fills_leave_uncovered(next, glyphs, tail, px, py);
    }
}

/// The later command wins. When a queue of fills has been drained, a
/// pixel shows the colour of the last command that covers it: the one
/// behind which no command of the queue covers the pixel.
pub proof fn lemma_later_command_wins(
    c: Canvas,
    glyphs: Map<u64, Glyph>,
    commands: Seq<Command>,
    i: int,
    px: int,
    py: int,
)
    requires
        forall|k: int| 0 <= k < commands.len() ==> is_fill(#[trigger] commands[k]),
        0 <= i < commands.len(),
        c.contains(px, py),
        covers(commands[i], px, py),
        forall|k: int| i < k < commands.len() ==> !covers(#[trigger] commands[k], px, py),
    ensures
        drain(c, glyphs, commands).status == Ok::<FrameStatus, DrawError>(FrameStatus::Done),
        drain(c, glyphs, commands).rest.len() == 0,
        drain(c, glyphs, commands).canvas.at(px, py) == fill_color(commands[i]),
    decreases commands.len(),
{
    let head = commands[0];
    let tail = commands.drop_first();
    assert(is_fill(head));
    let next = c.fill_rect(
        head.area.x as int,
        head.area.y as int,
        head.area.width as int,
        head.area.height as int,
        fill_color(head),
    );
    assert(command_effect(c, glyphs, head) == Effect::Painted(next));
    assert forall|k: int| 0 <= k < tail.len() implies is_fill(#[trigger] tail[k]) by {
        assert(tail[k] == commands[k + 1]);
    }
    if i == 0 {
        assert forall|k: int| 0 <= k < tail.len() implies !covers(#[trigger] tail[k], px, py) by {
            assert(tail[k] == commands[k + 1]);
        }
        lemma_fills_leave_uncovered(next, glyphs, tail, px, py);
    } else {
        assert(tail[i - 1] == commands[i]);
        assert forall|k: int| i - 1 < k < tail.len() implies !covers(#[trigger] tail[k], px, py) by {
            assert(tail[k] == commands[k + 1]);
        }
        lemma_later_command_wins(next, glyphs, tail, i - 1, px, py);
    }
}

} // verus!
