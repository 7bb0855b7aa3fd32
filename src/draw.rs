//! Declarative drawing commands, executed in order by a drawing backend.
use vstd::prelude::*;
use crate::geometry::Rect;
use crate::style::{Color, FontStyle};

verus! {

#[derive(Debug, PartialEq, Eq)]
pub enum DrawCmd {
    /// Fill the whole surface.
    Clear(Color),
    FillRect(Rect, Color),
    /// A filled rectangle whose corners are rounded with the given radius.
    RoundedRect(Rect, u32, Color),
    /// A polygon through the points `(vx[i], vy[i])`.
    Polygon { vx: Vec<i16>, vy: Vec<i16>, color: Color, filled: bool },
    /// A circle of the given radius around `(x, y)`.
    Circle { x: i32, y: i32, radius: i32, color: Color, filled: bool },
    /// The rendered text, copied into `dest`.
    Text { dest: Rect, text: String, font_size: u16, font_style: FontStyle, color: Color },
    /// Restrict later commands to a rectangle, or lift the restriction.
    SetClip(Option<Rect>),
    /// Show the finished frame.
    Present,
}

} // verus!
