//! A single line of text.
use vstd::prelude::*;
use crate::draw::DrawCmd;
use crate::geometry::{clamp_coord, to_coord, Rect};
use crate::style::{Style, TextAlign};

verus! {

/// The size of a piece of text as the text rasterizer rendered it.
#[derive(Clone, Copy, Debug, PartialEq, Eq, Structural)]
pub struct TextSize {
    pub width: u32,
    pub height: u32,
}

/// `s` with every occurrence of `from` replaced by `to`.
pub open spec fn char_replaced(s: Seq<char>, from: char, to: Seq<char>) -> Seq<char>
    decreases s.len(),
{
    if s.len() == 0 {
        Seq::empty()
    } else {
        char_replaced(s.drop_last(), from, to) + if s.last() == from {
            to
        } else {
            seq![s.last()]
        }
    }
}

/// The replacement for a tab in a text: four spaces.
pub open spec fn tab_spaces() -> Seq<char> {
    seq![' ', ' ', ' ', ' ']
}

/// `s` with every tab replaced by four spaces.
pub open spec fn tabs_expanded(s: Seq<char>) -> Seq<char> {
    char_replaced(s, '\t', tab_spaces())
}

/// Relies on `str::replace` with a `char` pattern, which replaces every
/// occurrence of `from` by `to` and keeps every other character.
#[verifier::external_body]
fn replace_char(s: &str, from: char, to: &str) -> (r: String)
    ensures
        r@ == char_replaced(s@, from, to@),
{
    s.replace(from, to)
}

fn expand_tabs(s: &str) -> (r: String)
    ensures
        r@ == tabs_expanded(s@),
{
    let r = replace_char(s, '\t', "    ");
    proof {
        reveal_strlit("    ");
        assert("    "@ =~= tab_spaces());
    }
    r
}

/// Extents of at most this many pixels are taken as not yet measured.
pub const UNMEASURED_EXTENT: u32 = 4;

pub open spec fn measured_extent(given: u32, rendered: u32) -> u32 {
    if given <= UNMEASURED_EXTENT {
        rendered
    } else {
        given
    }
}

/// `rect` once the rendered size is known: unmeasured extents take the
/// rendered ones, and the anchor `rect.x` moves left by the part of the
/// rendered width that the alignment puts before it.
pub open spec fn measured_rect(rect: Rect, align: TextAlign, size: TextSize) -> Rect {
    Rect {
        x: match align {
            TextAlign::Left => rect.x,
            TextAlign::Center => clamp_coord(rect.x - size.width / 2),
            TextAlign::Right => clamp_coord(rect.x - size.width),
        },
        y: rect.y,
        width: measured_extent(rect.width, size.width),
        height: measured_extent(rect.height, size.height),
    }
}

/// A line of text, laid out from its rendered size.
#[derive(Debug, PartialEq, Eq)]
pub struct Text {
    pub text: String,
    pub rect: Rect,
    pub style: Style,
    /// The size of the rendered text.
    pub texture: TextSize,
}

fn measure(rect: Rect, align: TextAlign, size: TextSize) -> (r: Rect)
    ensures
        r == measured_rect(rect, align, size),
{
    let x = match align {
        TextAlign::Left => rect.x,
        TextAlign::Center => to_coord(rect.x as i64 - (size.width / 2) as i64),
        TextAlign::Right => to_coord(rect.x as i64 - size.width as i64),
    };
    Rect {
        x,
        y: rect.y,
        width: if rect.width <= UNMEASURED_EXTENT {
            size.width
        } else {
            rect.width
        },
        height: if rect.height <= UNMEASURED_EXTENT {
            size.height
        } else {
            rect.height
        },
    }
}

impl Text {
    /// A text anchored at `(x, y)` that takes its size from the rendering.
    pub fn new(x: i32, y: i32, text: &str, style: Style, size: TextSize) -> (t: Text)
        ensures
            t.text@ == tabs_expanded(text@),
            t.rect == measured_rect(Rect { x, y, width: 0, height: 0 }, style.normal.text_align, size),
            t.style == style,
            t.texture == size,
    {
        let rect = measure(Rect::new(x, y, 0, 0), style.normal.text_align, size);
        Text { text: expand_tabs(text), rect, style, texture: size }
    }

    /// A text with given bounds; an extent of at most four pixels is taken
    /// from the rendering instead.
    pub fn clipped(x: i32, y: i32, width: u32, height: u32, text: &str, style: Style, size: TextSize) -> (t: Text)
        ensures
            t.text@ == tabs_expanded(text@),
            t.rect == measured_rect(Rect { x, y, width, height }, style.normal.text_align, size),
            t.style == style,
            t.texture == size,
    {
        let rect = measure(Rect::new(x, y, width, height), style.normal.text_align, size);
        Text { text: expand_tabs(text), rect, style, texture: size }
    }

    /// The command that copies the rendered text to the top-left corner of
    /// the bounds, at its rendered size.
    pub open spec fn render(self) -> DrawCmd {
        DrawCmd::Text {
            dest: Rect {
                x: self.rect.x,
                y: self.rect.y,
                width: self.texture.width,
                height: self.texture.height,
            },
            text: self.text,
            font_size: self.style.normal.font_size,
            font_style: self.style.normal.font_style,
            color: self.style.normal.text_color,
        }
    }

    pub fn draw(&self, out: &mut Vec<DrawCmd>)
        ensures
            final(out)@ == old(out)@.push(self.render()),
    {
        out.push(
            DrawCmd::Text {
                dest: Rect::new(self.rect.x, self.rect.y, self.texture.width, self.texture.height),
                text: self.text.clone(),
                font_size: self.style.normal.font_size,
                font_style: self.style.normal.font_style,
                color: self.style.normal.text_color,
            },
        );
    }

    pub fn set_rect(&mut self, rect: Rect)
        ensures
            *final(self) == (Text { rect, ..*old(self) }),
    {
        self.rect = rect;
    }

    pub fn get_rect(&self) -> (r: Rect)
        ensures
            r == self.rect,
    {
        self.rect
    }
}

} // verus!
