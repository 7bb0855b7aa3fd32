//! A clickable button with a text label.
use vstd::prelude::*;
use crate::draw::DrawCmd;
use crate::event::{Action, Event};
use crate::geometry::{clamp_coord, to_coord, Rect};
use crate::rounded_rect::RoundedRect;
use crate::style::{Color, Style, TextAlign};
use crate::text::{measured_rect, tabs_expanded, Text, TextSize};

verus! {

/// A button: hovering is tracked from pointer moves, and a press while
/// hovered yields the click action.
#[derive(Debug)]
pub struct Button {
    pub rect: Rect,
    pub hover: bool,
    pub label: Text,
    pub on_click: Action,
    pub style: Style,
}

/// Where the label of a button at `rect` is anchored.
pub open spec fn label_anchor(rect: Rect, align: TextAlign) -> (i32, i32) {
    match align {
        TextAlign::Left => (rect.x, rect.y),
        TextAlign::Center => (clamp_coord(rect.x + rect.width / 2), rect.y),
        TextAlign::Right => (clamp_coord(rect.x + rect.width), rect.y),
    }
}

impl Button {
    pub fn new(
        x: i32,
        y: i32,
        width: u32,
        height: u32,
        text: &str,
        on_click: Action,
        style: Style,
        label_size: TextSize,
    ) -> (b: Button)
        ensures
            b.rect == (Rect { x, y, width, height }),
            !b.hover,
            b.on_click == on_click,
            b.style == style.adjust_spec(Rect { x, y, width, height }),
            b.label.text@ == tabs_expanded(text@),
            b.label.style == style,
            b.label.texture == label_size,
            b.label.rect == measured_rect(
                Rect {
                    x: label_anchor(Rect { x, y, width, height }, style.normal.text_align).0,
                    y,
                    width: 0,
                    height: 0,
                },
                style.normal.text_align,
                label_size,
            ),
    {
        let rect = Rect::new(x, y, width, height);
        let lx = match style.normal.text_align {
            TextAlign::Left => x,
            TextAlign::Center => to_coord(x as i64 + (width / 2) as i64),
            TextAlign::Right => to_coord(x as i64 + width as i64),
        };
        Button {
            rect,
            hover: false,
            label: Text::new(lx, y, text, style, label_size),
            on_click,
            style: style.adjust(rect),
        }
    }

    /// The button after `ev`, seen by the window `win`, and what it yields.
    pub open spec fn handled(self, ev: Event, win: u32) -> (Button, Action) {
        match ev {
            Event::PointerMove { window_id, x, y, .. } => {
                if window_id == win {
                    (Button { hover: self.rect.contains(x as int, y as int), ..self }, Action::NoOp)
                } else {
                    (self, Action::NoOp)
                }
            },
            Event::PointerDown { window_id, .. } => {
                if self.hover && window_id == win {
                    (self, self.on_click)
                } else {
                    (self, Action::NoOp)
                }
            },
            _ => (self, Action::NoOp),
        }
    }

    pub fn event(&mut self, ev: Event, win: u32) -> (a: Action)
        ensures
            (*final(self), a) == old(self).handled(ev, win),
    {
        match ev {
            Event::PointerMove { window_id, x, y, .. } => {
                if window_id == win {
                    self.hover = self.rect.contains_point(crate::geometry::Point::new(x, y));
                }
                Action::NoOp
            },
            Event::PointerDown { window_id, .. } => {
                if self.hover && window_id == win {
                    self.on_click.duplicate()
                } else {
                    Action::NoOp
                }
            },
            _ => Action::NoOp,
        }
    }

    pub open spec fn fill_color(self) -> Color {
        if self.hover {
            self.style.hover.background_color
        } else {
            self.style.normal.background_color
        }
    }

    /// The background, rounded when the style asks for a radius, then the label.
    pub open spec fn render(self) -> Seq<DrawCmd> {
        seq![
            if self.style.normal.border_radius != 0 {
                DrawCmd::RoundedRect(self.rect, self.style.normal.border_radius, self.fill_color())
            } else {
                DrawCmd::FillRect(self.rect, self.fill_color())
            },
            self.label.render(),
        ]
    }

    pub fn draw(&self, out: &mut Vec<DrawCmd>)
        ensures
            final(out)@ == old(out)@ + self.render(),
    {
        let color = if self.hover {
            self.style.hover.background_color
        } else {
            self.style.normal.background_color
        };
        if self.style.normal.border_radius != 0 {
            RoundedRect::from_rect(self.rect, self.style.normal.border_radius).draw(color, out);
        } else {
            out.push(DrawCmd::FillRect(self.rect, color));
        }
        self.label.draw(out);
        assert(final(out)@ =~= old(out)@ + self.render());
    }

    /// The button moved to `rect`; the label takes the same bounds.
    pub open spec fn placed(self, rect: Rect) -> Button {
        Button { rect, label: Text { rect, ..self.label }, ..self }
    }

    pub fn set_rect(&mut self, rect: Rect)
        ensures
            *final(self) == old(self).placed(rect),
    {
        self.rect = rect;
        self.label.set_rect(rect);
    }

    pub fn get_rect(&self) -> (r: Rect)
        ensures
            r == self.rect,
    {
        self.rect
    }
}

/// Hover gates the click: after a pointer move to `(x, y)` in the button's
/// window, a press there yields the click action exactly when `(x, y)` is
/// inside the button.
pub proof fn click_requires_hover(b: Button, win: u32, x: i32, y: i32, dx: i32, dy: i32, button: u8, px: i32, py: i32)
    requires
        !(b.on_click is NoOp),
    ensures
        ({
            let moved = b.handled(Event::PointerMove { window_id: win, x, y, dx, dy }, win).0;
            let a = moved.handled(Event::PointerDown { window_id: win, button, x: px, y: py }, win).1;
            (a == b.on_click) <==> b.rect.contains(x as int, y as int)
        }),
{
}

} // verus!
