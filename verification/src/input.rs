//! The pointer state machine: per-button press and release edges, the
//! positions at which they happened, and hit-testing against an area.

use vstd::prelude::*;
use crate::geometry::Rect;

verus! {

/// The logical buttons of a pointer.
#[derive(Clone, Copy, Debug, PartialEq, Eq, Structural)]
pub enum MouseButton {
    Left,
    Right,
    Middle,
    Back,
    Forward,
}

/// What the window layer reports.
#[derive(Clone, Copy, Debug, PartialEq, Eq, Structural)]
pub enum Event {
    /// The window was asked to close.
    Quit,
    /// The cursor moved to this position.
    MousePos(i32, i32),
    /// A button went down.
    MouseDown(MouseButton),
    /// A button went up.
    MouseUp(MouseButton),
    /// A key, by its code.
    Key(u32),
}

/// The state of one button. `pressed` and `released` are edge flags: they
/// hold only during the frame in which the button went down or up. The
/// two positions last until the next press.
#[derive(Clone, Copy, Debug, PartialEq, Eq, Structural)]
pub struct MouseState {
    pub button: MouseButton,
    pub pressed: bool,
    pub released: bool,
    pub initial_position: Rect,
    pub release_position: Option<Rect>,
}

impl MouseState {
    /// The state after the button went down at `pos`.
    pub open spec fn after_press(self, pos: Rect) -> MouseState {
        MouseState {
            button: self.button,
            pressed: true,
            released: self.released,
            initial_position: pos,
            release_position: None,
        }
    }

    /// The state after the button went up at `pos`.
    pub open spec fn after_release(self, pos: Rect) -> MouseState {
        MouseState {
            button: self.button,
            pressed: self.pressed,
            released: true,
            initial_position: self.initial_position,
            release_position: Some(pos),
        }
    }

    /// The state after the end of a frame.
    pub open spec fn after_reset(self) -> MouseState {
        MouseState {
            button: self.button,
            pressed: false,
            released: false,
            initial_position: self.initial_position,
            release_position: self.release_position,
        }
    }

    /// Whether the button was clicked on `area`: it went up during this
    /// frame, it had gone down on the area, and the cursor is on the area.
    pub open spec fn clicked_on(self, cursor: Rect, area: Rect) -> bool {
        self.released && self.initial_position.overlaps(area) && cursor.overlaps(area)
    }

    /// A button that has never gone down.
    pub open spec fn idle(button: MouseButton) -> MouseState {
        MouseState {
            button,
            pressed: false,
            released: false,
            initial_position: Rect { x: 0, y: 0, width: 0, height: 0 },
            release_position: None,
        }
    }

    /// An idle button.
    pub fn new(button: MouseButton) -> (s: MouseState)
        ensures
            s == MouseState::idle(button),
    {
        MouseState {
            button,
            pressed: false,
            released: false,
            initial_position: Rect { x: 0, y: 0, width: 0, height: 0 },
            release_position: None,
        }
    }

    /// The button went down with the cursor at `pos`.
    pub fn pressed(&mut self, pos: Rect)
        ensures
            *final(self) == old(self).after_press(pos),
    {
        self.pressed = true;
        self.initial_position = pos;
        self.release_position = None;
    }

    /// The button went up with the cursor at `pos`.
    pub fn released(&mut self, pos: Rect)
        ensures
            *final(self) == old(self).after_release(pos),
    {
        self.released = true;
        self.release_position = Some(pos);
    }

    /// Clears the edge flags at the end of a frame.
    pub fn reset(&mut self)
        ensures
            *final(self) == old(self).after_reset(),
    {
        self.pressed = false;
        self.released = false;
    }

    /// Hit test for a click on `area` with the cursor at `cursor`.
    pub fn clicked(&self, cursor: Rect, area: Rect) -> (hit: bool)
        ensures
            hit == self.clicked_on(cursor, area),
    {
        self.released && self.initial_position.intersects(area) && cursor.intersects(area)
    }
}

/// The cursor and the five buttons.
#[derive(Clone, Copy, Debug, PartialEq, Eq, Structural)]
pub struct Pointer {
    pub mouse_pos: Rect,
    pub left_mouse: MouseState,
    pub right_mouse: MouseState,
    pub middle_mouse: MouseState,
    pub mouse_4: MouseState,
    pub mouse_5: MouseState,
}

/// Whether the pointer state machine consumes the event. Every other
/// event is handed back to the caller as it came.
pub open spec fn consumed(e: Event) -> bool {
    e is MousePos || e is MouseDown || e is MouseUp
}

impl Pointer {
    /// The state of one button.
    pub open spec fn state_of(self, button: MouseButton) -> MouseState {
        match button {
            MouseButton::Left => self.left_mouse,
            MouseButton::Right => self.right_mouse,
            MouseButton::Middle => self.middle_mouse,
            MouseButton::Back => self.mouse_4,
            MouseButton::Forward => self.mouse_5,
        }
    }

    /// This pointer with the state of one button replaced.
    pub open spec fn with_state(self, button: MouseButton, s: MouseState) -> Pointer {
        match button {
            MouseButton::Left => Pointer { left_mouse: s, ..self },
            MouseButton::Right => Pointer { right_mouse: s, ..self },
            MouseButton::Middle => Pointer { middle_mouse: s, ..self },
            MouseButton::Back => Pointer { mouse_4: s, ..self },
            MouseButton::Forward => Pointer { mouse_5: s, ..self },
        }
    }

    /// The state after an event. A position update moves the cursor, a
    /// button event records the cursor on that button, and any other
    /// event changes nothing.
    pub open spec fn after(self, e: Event) -> Pointer {
        match e {
            Event::MousePos(x, y) => Pointer {
                mouse_pos: Rect { x, y, width: 1, height: 1 },
                ..self
            },
            Event::MouseDown(b) => self.with_state(b, self.state_of(b).after_press(self.mouse_pos)),
            Event::MouseUp(b) => self.with_state(b, self.state_of(b).after_release(self.mouse_pos)),
            _ => self,
        }
    }

    /// The state after the end of a frame: every edge flag is cleared.
    pub open spec fn after_frame(self) -> Pointer {
        Pointer {
            mouse_pos: self.mouse_pos,
            left_mouse: self.left_mouse.after_reset(),
            right_mouse: self.right_mouse.after_reset(),
            middle_mouse: self.middle_mouse.after_reset(),
            mouse_4: self.mouse_4.after_reset(),
            mouse_5: self.mouse_5.after_reset(),
        }
    }

    /// Whether `button` was clicked on `area` during this frame.
    pub open spec fn clicked_on(self, button: MouseButton, area: Rect) -> bool {
        self.state_of(button).clicked_on(self.mouse_pos, area)
    }

    /// The pointer at the origin with every button idle.
    pub open spec fn idle() -> Pointer {
        Pointer {
            mouse_pos: Rect { x: 0, y: 0, width: 0, height: 0 },
            left_mouse: MouseState::idle(MouseButton::Left),
            right_mouse: MouseState::idle(MouseButton::Right),
            middle_mouse: MouseState::idle(MouseButton::Middle),
            mouse_4: MouseState::idle(MouseButton::Back),
            mouse_5: MouseState::idle(MouseButton::Forward),
        }
    }

    /// A pointer at the origin with every button idle.
    pub fn new() -> (p: Pointer)
        ensures
            p == Pointer::idle(),
    {
        Pointer {
            mouse_pos: Rect { x: 0, y: 0, width: 0, height: 0 },
            left_mouse: MouseState::new(MouseButton::Left),
            right_mouse: MouseState::new(MouseButton::Right),
            middle_mouse: MouseState::new(MouseButton::Middle),
            mouse_4: MouseState::new(MouseButton::Back),
            mouse_5: MouseState::new(MouseButton::Forward),
        }
    }

    /// Feeds one polled event to the state machine. Position and button
    /// events are consumed; any other event, and the absence of one, is
    /// handed back unchanged.
    pub fn event(&mut self, polled: Option<Event>) -> (passed: Option<Event>)
        ensures
            match polled {
                None => passed is None && *final(self) == *old(self),
                Some(e) => *final(self) == old(self).after(e) && passed == (if consumed(e) {
                    None
                } else {
                    Some(e)
                }),
            },
    {
        match polled {
            None => None,
            Some(e) => {
                match e {
                    Event::MousePos(x, y) => {
                        self.mouse_pos = Rect::point(x, y);
                        None
                    },
                    Event::MouseDown(b) => {
                        let pos = self.mouse_pos;
                        match b {
                            MouseButton::Left => self.left_mouse.pressed(pos),
                            MouseButton::Right => self.right_mouse.pressed(pos),
                            MouseButton::Middle => self.middle_mouse.pressed(pos),
                            MouseButton::Back => self.mouse_4.pressed(pos),
                            MouseButton::Forward => self.mouse_5.pressed(pos),
                        }
                        None
                    },
                    Event::MouseUp(b) => {
                        let pos = self.mouse_pos;
                        match b {
                            MouseButton::Left => self.left_mouse.released(pos),
                            MouseButton::Right => self.right_mouse.released(pos),
                            MouseButton::Middle => self.middle_mouse.released(pos),
                            MouseButton::Back => self.mouse_4.released(pos),
                            MouseButton::Forward => self.mouse_5.released(pos),
                        }
                        None
                    },
                    _ => Some(e),
                }
            },
        }
    }

    /// Clears the edge flags of every button at the end of a frame.
    pub fn end_frame(&mut self)
        ensures
            *final(self) == old(self).after_frame(),
    {
        self.left_mouse.reset();
        self.right_mouse.reset();
        self.middle_mouse.reset();
        self.mouse_4.reset();
        self.mouse_5.reset();
    }

    /// The state of one button.
    pub fn button(&self, button: MouseButton) -> (s: MouseState)
        ensures
            s == self.state_of(button),
    {
        match button {
            MouseButton::Left => self.left_mouse,
            MouseButton::Right => self.right_mouse,
            MouseButton::Middle => self.middle_mouse,
            MouseButton::Back => self.mouse_4,
            MouseButton::Forward => self.mouse_5,
        }
    }

    /// Whether `button` went up on `area` during this frame after it had
    /// gone down on it, with the cursor still on it.
    pub fn clicked(&self, button: MouseButton, area: Rect) -> (hit: bool)
        ensures
            hit == self.clicked_on(button, area),
    {
        self.button(button).clicked(self.mouse_pos, area)
    }

    /// Whether `button` went up during this frame with the cursor on
    /// `area`.
    pub fn up(&self, button: MouseButton, area: Rect) -> (hit: bool)
        ensures
            hit == (self.mouse_pos.overlaps(area) && self.state_of(button).released),
    {
        self.mouse_pos.intersects(area) && self.button(button).released
    }

    /// Whether `button` went down during this frame with the cursor on
    /// `area`.
    pub fn down(&self, button: MouseButton, area: Rect) -> (hit: bool)
        ensures
            hit == (self.mouse_pos.overlaps(area) && self.state_of(button).pressed),
    {
        self.mouse_pos.intersects(area) && self.button(button).pressed
    }
}

/// After the end of a frame no button counts as clicked, pressed or
/// released on any area, until a new event arrives.
pub proof fn lemma_click_lasts_one_frame(p: Pointer, button: MouseButton, area: Rect)
    ensures
        !p.after_frame().clicked_on(button, area),
        !p.after_frame().state_of(button).pressed,
        !p.after_frame().state_of(button).released,
        p.after_frame().after_frame() == p.after_frame(),
{
}

/// A press on an area followed by a release on it is a click on it, in
/// the frame of the release: whatever the state before, once `button` has
/// gone down and up with the cursor at `(x, y)` on `area`, it counts as
/// clicked there.
pub proof fn lemma_press_release_clicks(p: Pointer, button: MouseButton, x: i32, y: i32, area: Rect)
    requires
        (Rect { x, y, width: 1, height: 1 }).overlaps(area),
    ensures
        p.after(Event::MousePos(x, y)).after(Event::MouseDown(button)).after(
            Event::MouseUp(button),
        ).clicked_on(button, area),
        p.after(Event::MousePos(x, y)).after(Event::MouseDown(button)).after_frame().after(
            Event::MouseUp(button),
        ).clicked_on(button, area),
{
}

} // verus!
