//! A rectangle with rounded corners.
use vstd::prelude::*;
use crate::draw::DrawCmd;
use crate::geometry::Rect;
use crate::style::Color;

verus! {

#[derive(Clone, Copy, Debug, PartialEq, Eq, Structural)]
pub struct RoundedRect {
    pub rect: Rect,
    pub radius: u32,
}

impl RoundedRect {
    pub fn new(x: i32, y: i32, width: u32, height: u32, radius: u32) -> (r: RoundedRect)
        ensures
            r == (RoundedRect { rect: Rect { x, y, width, height }, radius }),
    {
        RoundedRect { rect: Rect::new(x, y, width, height), radius }
    }

    pub fn from_rect(rect: Rect, radius: u32) -> (r: RoundedRect)
        ensures
            r == (RoundedRect { rect, radius }),
    {
        RoundedRect { rect, radius }
    }

    pub open spec fn render(self, color: Color) -> DrawCmd {
        DrawCmd::RoundedRect(self.rect, self.radius, color)
    }

    /// Appends the command that fills the shape with `color`.
    pub fn draw(&self, color: Color, out: &mut Vec<DrawCmd>)
        ensures
            final(out)@ == old(out)@.push(self.render(color)),
    {
        out.push(DrawCmd::RoundedRect(self.rect, self.radius, color));
    }
}

} // verus!
