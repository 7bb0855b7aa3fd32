//! A circle outline or disc.
use vstd::prelude::*;
use crate::draw::DrawCmd;
use crate::geometry::{clamp_coord, to_coord, Rect};
use crate::style::Color;

verus! {

/// A circle around `(x, y)`.
#[derive(Clone, Copy, Debug, PartialEq, Eq, Structural)]
pub struct Circle {
    pub x: i32,
    pub y: i32,
    pub color: Color,
    pub radius: i32,
    pub filled: bool,
}

impl Circle {
    /// An outline whose bounding square has its top-left corner at `(x, y)`.
    pub fn new(x: i32, y: i32, radius: i32, color: Color) -> (c: Circle)
        ensures
            c == (Circle {
                x: clamp_coord(x + radius),
                y: clamp_coord(y + radius),
                color,
                radius,
                filled: false,
            }),
    {
        Circle {
            x: to_coord(x as i64 + radius as i64),
            y: to_coord(y as i64 + radius as i64),
            color,
            radius,
            filled: false,
        }
    }

    /// A disc centred on `(x, y)`.
    pub fn filled(x: i32, y: i32, radius: i32, color: Color) -> (c: Circle)
        ensures
            c == (Circle { x, y, color, radius, filled: true }),
    {
        Circle { x, y, color, radius, filled: true }
    }

    pub open spec fn extent(self) -> u32 {
        if self.radius < 0 {
            0
        } else {
            self.radius as u32
        }
    }

    /// A square at the centre whose side is the radius.
    pub open spec fn bounds(self) -> Rect {
        Rect { x: self.x, y: self.y, width: self.extent(), height: self.extent() }
    }

    pub fn get_rect(&self) -> (r: Rect)
        ensures
            r == self.bounds(),
    {
        let e: u32 = if self.radius < 0 {
            0
        } else {
            self.radius as u32
        };
        Rect::new(self.x, self.y, e, e)
    }

    /// Moves the centre to the rectangle's corner.
    pub fn set_rect(&mut self, rect: Rect)
        ensures
            *final(self) == (Circle { x: rect.x, y: rect.y, ..*old(self) }),
    {
        self.x = rect.x;
        self.y = rect.y;
    }

    pub open spec fn render(self) -> DrawCmd {
        DrawCmd::Circle {
            x: self.x,
            y: self.y,
            radius: self.radius,
            color: self.color,
            filled: self.filled,
        }
    }

    pub fn draw(&self, out: &mut Vec<DrawCmd>)
        ensures
            final(out)@ == old(out)@.push(self.render()),
    {
        out.push(
            DrawCmd::Circle {
                x: self.x,
                y: self.y,
                radius: self.radius,
                color: self.color,
                filled: self.filled,
            },
        );
    }
}

} // verus!
