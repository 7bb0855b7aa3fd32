//! A vertical stack of widgets with viewport culling.
use vstd::prelude::*;
use crate::geometry::Rect;
use crate::style::{Style, TextAlign};
use crate::text::{measured_rect, tabs_expanded, Text, TextSize};
use crate::widget::Widget;

verus! {

/// The viewport a list sets for itself after a layout pass is at most this
/// tall, which bounds the cost of drawing a long list.
pub const MAX_RENDER_HEIGHT: u32 = 1500;

/// Children stacked from the list's top edge in insertion order, with no gaps.
#[derive(Debug)]
pub struct List {
    pub widgets: Vec<Widget>,
    pub rect: Rect,
    /// Set when a child was added and the stack is stale.
    pub changed: bool,
    /// Set by a layout pass; tells a parent once that the list's size may
    /// have changed.
    pub need_update: bool,
    /// Only children with a left corner inside it are drawn.
    pub viewport: Rect,
}

/// `r` with its height limited to [`MAX_RENDER_HEIGHT`].
pub open spec fn capped_viewport(r: Rect) -> Rect {
    Rect {
        height: if r.height > MAX_RENDER_HEIGHT {
            MAX_RENDER_HEIGHT
        } else {
            r.height
        },
        ..r
    }
}

pub fn cap_viewport(r: Rect) -> (v: Rect)
    ensures
        v == capped_viewport(r),
{
    Rect {
        height: if r.height > MAX_RENDER_HEIGHT {
            MAX_RENDER_HEIGHT
        } else {
            r.height
        },
        ..r
    }
}

impl List {
    pub fn new(x: i32, y: i32, width: u32, height: u32) -> (l: List)
        ensures
            l.widgets@.len() == 0,
            l.rect == (Rect { x, y, width, height }),
            l.viewport == l.rect,
            !l.changed,
            !l.need_update,
    {
        List {
            widgets: Vec::new(),
            rect: Rect::new(x, y, width, height),
            changed: false,
            need_update: false,
            viewport: Rect::new(x, y, width, height),
        }
    }

    /// Appends `widget` and marks the stack stale.
    pub fn add_widget(self, widget: Widget) -> (l: List)
        ensures
            l.widgets@ == self.widgets@.push(widget),
            l.changed,
            l.rect == self.rect,
            l.need_update == self.need_update,
            l.viewport == self.viewport,
    {
        let mut l = self;
        l.widgets.push(widget);
        l.changed = true;
        l
    }

    /// Appends a line of text in the default style.
    pub fn add_text(self, text: &str, size: TextSize) -> (l: List)
        ensures
            l.widgets@.len() == self.widgets@.len() + 1,
            l.widgets@.drop_last() == self.widgets@,
            l.widgets@.last() matches Widget::Text(t) && t.text@ == tabs_expanded(text@)
                && t.style == Style::default_spec() && t.texture == size && t.rect
                == measured_rect(Rect { x: 0, y: 0, width: 0, height: 0 }, TextAlign::Left, size),
            l.changed,
            l.rect == self.rect,
            l.need_update == self.need_update,
            l.viewport == self.viewport,
    {
        let l = self.add_widget(Widget::Text(Text::new(0, 0, text, Style::new(), size)));
        assert(l.widgets@.drop_last() =~= self.widgets@);
        l
    }

    /// Reports, once, that a layout pass ran since the last report.
    pub fn has_changed(&mut self) -> (r: bool)
        ensures
            r == old(self).need_update,
            *final(self) == (List { need_update: false, ..*old(self) }),
    {
        let r = self.need_update;
        self.need_update = false;
        r
    }

    pub fn give_viewport(&mut self, viewport: Rect)
        ensures
            *final(self) == (List { viewport, ..*old(self) }),
    {
        self.viewport = viewport;
    }

    pub fn get_rect(&self) -> (r: Rect)
        ensures
            r == self.rect,
    {
        self.rect
    }
}

} // verus!
