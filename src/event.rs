//! Input events and the actions that handling them may request.
use vstd::prelude::*;

verus! {

/// Wheel movement is measured in units of this many parts of one notch.
pub const WHEEL_UNITS_PER_NOTCH: i64 = 10000;

/// One input event, addressed to a window by its identifier.
#[derive(Clone, Copy, Debug, PartialEq, Eq, Structural)]
pub enum Event {
    /// The window's native close signal.
    WindowClose { window_id: u32 },
    /// The pointer moved to `(x, y)`, by `(dx, dy)`.
    PointerMove { window_id: u32, x: i32, y: i32, dx: i32, dy: i32 },
    PointerDown { window_id: u32, button: u8, x: i32, y: i32 },
    PointerUp { window_id: u32, button: u8 },
    /// A wheel turn with the pointer at `(x, y)`; `precise_dy` is in
    /// `1 / WHEEL_UNITS_PER_NOTCH` notches, positive away from the user.
    Wheel { window_id: u32, x: i32, y: i32, precise_dy: i32 },
    Quit,
    /// Any event outside this vocabulary; every handler ignores it.
    Other,
}

impl Event {
    /// Whether widgets act on the event: pointer and wheel input. Window
    /// lifecycle events are for the window set.
    pub open spec fn is_input(self) -> bool {
        self is PointerMove || self is PointerDown || self is PointerUp || self is Wheel
    }

    pub fn input(&self) -> (r: bool)
        ensures
            r == self.is_input(),
    {
        match self {
            Event::PointerMove { .. } | Event::PointerDown { .. } | Event::PointerUp { .. }
            | Event::Wheel { .. } => true,
            _ => false,
        }
    }
}

/// What a new window should be.
#[derive(Debug, PartialEq, Eq)]
pub struct WindowRequest {
    /// Identifies the requested window, and is where it goes in the window
    /// list.
    pub slot: u32,
    pub title: String,
    pub width: u32,
    pub height: u32,
}

/// The result of handling an event.
#[derive(Debug, PartialEq, Eq)]
pub enum Action {
    /// Open the described window unless a window with its slot is open.
    CreateWindowIfNotExists(WindowRequest),
    NoOp,
}

impl WindowRequest {
    pub fn duplicate(&self) -> (r: WindowRequest)
        ensures
            r == *self,
    {
        WindowRequest {
            slot: self.slot,
            title: self.title.clone(),
            width: self.width,
            height: self.height,
        }
    }
}

impl Action {
    pub fn duplicate(&self) -> (r: Action)
        ensures
            r == *self,
    {
        match self {
            Action::CreateWindowIfNotExists(req) => Action::CreateWindowIfNotExists(req.duplicate()),
            Action::NoOp => Action::NoOp,
        }
    }

    pub fn is_none(&self) -> (r: bool)
        ensures
            r == (*self is NoOp),
    {
        match self {
            Action::NoOp => true,
            _ => false,
        }
    }
}

} // verus!
