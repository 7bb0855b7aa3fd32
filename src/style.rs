//! Colors and the state-variant style of a widget.
use vstd::prelude::*;
use crate::geometry::Rect;

verus! {

/// An RGBA color.
#[derive(Clone, Copy, Debug, PartialEq, Eq, Structural)]
pub struct Color {
    pub r: u8,
    pub g: u8,
    pub b: u8,
    pub a: u8,
}

impl Color {
    /// An opaque color.
    pub fn rgb(r: u8, g: u8, b: u8) -> (c: Color)
        ensures
            c == (Color { r, g, b, a: 255 }),
    {
        Color { r, g, b, a: 255 }
    }

    pub fn white() -> (c: Color)
        ensures
            c == (Color { r: 255, g: 255, b: 255, a: 255 }),
    {
        Color::rgb(255, 255, 255)
    }

    pub fn black() -> (c: Color)
        ensures
            c == (Color { r: 0, g: 0, b: 0, a: 255 }),
    {
        Color::rgb(0, 0, 0)
    }

    pub fn red() -> (c: Color)
        ensures
            c == (Color { r: 255, g: 0, b: 0, a: 255 }),
    {
        Color::rgb(255, 0, 0)
    }
}

#[derive(Clone, Copy, Debug, PartialEq, Eq, Structural, Hash)]
pub enum FontStyle {
    Normal,
    Bold,
}

/// Which point of the label the label's anchor is.
#[derive(Clone, Copy, Debug, PartialEq, Eq, Structural)]
pub enum TextAlign {
    Left,
    Center,
    Right,
}

/// A style value and the widget states it applies to.
#[derive(Clone, Copy, Debug, PartialEq, Eq, Structural)]
pub enum Params<T> {
    All(T),
    Normal(T),
    Hover(T),
    Clicked(T),
    Multiple(T, T, T),
}

impl<T> From<T> for Params<T> {
    /// A bare value styles the normal state.
    fn from(value: T) -> (p: Params<T>) {
        Params::Normal(value)
    }
}

impl<T> vstd::std_specs::convert::FromSpecImpl<T> for Params<T> {
    open spec fn obeys_from_spec() -> bool {
        true
    }

    open spec fn from_spec(v: T) -> Params<T> {
        Params::Normal(v)
    }
}

/// The (normal, hover, clicked) values after applying `p` to the current ones.
pub open spec fn spread<T>(p: Params<T>, normal: T, hover: T, clicked: T) -> (T, T, T) {
    match p {
        Params::All(v) => (v, v, v),
        Params::Normal(v) => (v, hover, clicked),
        Params::Hover(v) => (normal, v, clicked),
        Params::Clicked(v) => (normal, hover, v),
        Params::Multiple(n, h, c) => (n, h, c),
    }
}

pub fn spread_params<T: Copy>(p: Params<T>, normal: T, hover: T, clicked: T) -> (r: (T, T, T))
    ensures
        r == spread(p, normal, hover, clicked),
{
    match p {
        Params::All(v) => (v, v, v),
        Params::Normal(v) => (v, hover, clicked),
        Params::Hover(v) => (normal, v, clicked),
        Params::Clicked(v) => (normal, hover, v),
        Params::Multiple(n, h, c) => (n, h, c),
    }
}

/// The style of one widget state.
#[derive(Clone, Copy, Debug, PartialEq, Eq, Structural)]
pub struct StyleValues {
    pub background_color: Color,
    pub border_color: Color,
    pub border_width: u32,
    pub border_radius: u32,
    pub text_color: Color,
    pub font_size: u16,
    pub font_style: FontStyle,
    pub text_align: TextAlign,
}

pub open spec fn min_int(a: int, b: int) -> int {
    if a <= b {
        a
    } else {
        b
    }
}

impl StyleValues {
    /// White background, black border of width 1, square corners, black
    /// 16-point left-aligned regular text.
    pub open spec fn default_spec() -> StyleValues {
        StyleValues {
            background_color: Color { r: 255, g: 255, b: 255, a: 255 },
            border_color: Color { r: 0, g: 0, b: 0, a: 255 },
            border_width: 1,
            border_radius: 0,
            text_color: Color { r: 0, g: 0, b: 0, a: 255 },
            font_size: 16,
            font_style: FontStyle::Normal,
            text_align: TextAlign::Left,
        }
    }

    pub fn new() -> (s: StyleValues)
        ensures
            s == StyleValues::default_spec(),
    {
        StyleValues {
            background_color: Color::white(),
            border_color: Color::black(),
            border_width: 1,
            border_radius: 0,
            text_color: Color::black(),
            font_size: 16,
            font_style: FontStyle::Normal,
            text_align: TextAlign::Left,
        }
    }

    /// These values fitted to `rect`: the corner radius is at most half of
    /// each side, the font size at most the height.
    pub open spec fn adjusted(self, rect: Rect) -> StyleValues {
        StyleValues {
            border_radius: min_int(
                self.border_radius as int,
                min_int(rect.width as int / 2, rect.height as int / 2),
            ) as u32,
            font_size: min_int(self.font_size as int, rect.height as int) as u16,
            ..self
        }
    }

    pub fn adjust(self, rect: Rect) -> (s: StyleValues)
        ensures
            s == self.adjusted(rect),
    {
        let mut s = self;
        let half = if rect.width / 2 <= rect.height / 2 {
            rect.width / 2
        } else {
            rect.height / 2
        };
        if half < s.border_radius {
            s.border_radius = half;
        }
        if (rect.height as u64) < (s.font_size as u64) {
            s.font_size = rect.height as u16;
        }
        s
    }
}

impl Default for StyleValues {
    fn default() -> (s: StyleValues)
        ensures
            s == StyleValues::default_spec(),
    {
        StyleValues::new()
    }
}

/// A style with one set of values for each widget state.
#[derive(Clone, Copy, Debug, PartialEq, Eq, Structural)]
pub struct Style {
    pub normal: StyleValues,
    pub hover: StyleValues,
    pub clicked: StyleValues,
}

impl Style {
    pub open spec fn default_spec() -> Style {
        Style {
            normal: StyleValues::default_spec(),
            hover: StyleValues::default_spec(),
            clicked: StyleValues::default_spec(),
        }
    }

    pub fn new() -> (s: Style)
        ensures
            s == Style::default_spec(),
    {
        Style { normal: StyleValues::new(), hover: StyleValues::new(), clicked: StyleValues::new() }
    }

    pub open spec fn adjust_spec(self, rect: Rect) -> Style {
        Style {
            normal: self.normal.adjusted(rect),
            hover: self.hover.adjusted(rect),
            clicked: self.clicked.adjusted(rect),
        }
    }

    /// Every state's values fitted to `rect`.
    pub fn adjust(self, rect: Rect) -> (s: Style)
        ensures
            s == self.adjust_spec(rect),
    {
        Style {
            normal: self.normal.adjust(rect),
            hover: self.hover.adjust(rect),
            clicked: self.clicked.adjust(rect),
        }
    }

    pub fn background_color(self, p: Params<Color>) -> (s: Style)
        ensures
            (s.normal.background_color, s.hover.background_color, s.clicked.background_color)
                == spread(
                p,
                self.normal.background_color,
                self.hover.background_color,
                self.clicked.background_color,
            ),
            s.normal == (StyleValues { background_color: s.normal.background_color, ..self.normal }),
            s.hover == (StyleValues { background_color: s.hover.background_color, ..self.hover }),
            s.clicked == (StyleValues { background_color: s.clicked.background_color, ..self.clicked }),
    {
        let (n, h, c) = spread_params(
            p,
            self.normal.background_color,
            self.hover.background_color,
            self.clicked.background_color,
        );
        let mut s = self;
        s.normal.background_color = n;
        s.hover.background_color = h;
        s.clicked.background_color = c;
        s
    }

    pub fn border_color(self, p: Params<Color>) -> (s: Style)
        ensures
            (s.normal.border_color, s.hover.border_color, s.clicked.border_color) == spread(
                p,
                self.normal.border_color,
                self.hover.border_color,
                self.clicked.border_color,
            ),
            s.normal == (StyleValues { border_color: s.normal.border_color, ..self.normal }),
            s.hover == (StyleValues { border_color: s.hover.border_color, ..self.hover }),
            s.clicked == (StyleValues { border_color: s.clicked.border_color, ..self.clicked }),
    {
        let (n, h, c) = spread_params(
            p,
            self.normal.border_color,
            self.hover.border_color,
            self.clicked.border_color,
        );
        let mut s = self;
        s.normal.border_color = n;
        s.hover.border_color = h;
        s.clicked.border_color = c;
        s
    }

    pub fn border_width(self, p: Params<u32>) -> (s: Style)
        ensures
            (s.normal.border_width, s.hover.border_width, s.clicked.border_width) == spread(
                p,
                self.normal.border_width,
                self.hover.border_width,
                self.clicked.border_width,
            ),
            s.normal == (StyleValues { border_width: s.normal.border_width, ..self.normal }),
            s.hover == (StyleValues { border_width: s.hover.border_width, ..self.hover }),
            s.clicked == (StyleValues { border_width: s.clicked.border_width, ..self.clicked }),
    {
        let (n, h, c) = spread_params(
            p,
            self.normal.border_width,
            self.hover.border_width,
            self.clicked.border_width,
        );
        let mut s = self;
        s.normal.border_width = n;
        s.hover.border_width = h;
        s.clicked.border_width = c;
        s
    }

    pub fn border_radius(self, p: Params<u32>) -> (s: Style)
        ensures
            (s.normal.border_radius, s.hover.border_radius, s.clicked.border_radius) == spread(
                p,
                self.normal.border_radius,
                self.hover.border_radius,
                self.clicked.border_radius,
            ),
            s.normal == (StyleValues { border_radius: s.normal.border_radius, ..self.normal }),
            s.hover == (StyleValues { border_radius: s.hover.border_radius, ..self.hover }),
            s.clicked == (StyleValues { border_radius: s.clicked.border_radius, ..self.clicked }),
    {
        let (n, h, c) = spread_params(
            p,
            self.normal.border_radius,
            self.hover.border_radius,
            self.clicked.border_radius,
        );
        let mut s = self;
        s.normal.border_radius = n;
        s.hover.border_radius = h;
        s.clicked.border_radius = c;
        s
    }

    pub fn text_color(self, p: Params<Color>) -> (s: Style)
        ensures
            (s.normal.text_color, s.hover.text_color, s.clicked.text_color) == spread(
                p,
                self.normal.text_color,
                self.hover.text_color,
                self.clicked.text_color,
            ),
            s.normal == (StyleValues { text_color: s.normal.text_color, ..self.normal }),
            s.hover == (StyleValues { text_color: s.hover.text_color, ..self.hover }),
            s.clicked == (StyleValues { text_color: s.clicked.text_color, ..self.clicked }),
    {
        let (n, h, c) = spread_params(
            p,
            self.normal.text_color,
            self.hover.text_color,
            self.clicked.text_color,
        );
        let mut s = self;
        s.normal.text_color = n;
        s.hover.text_color = h;
        s.clicked.text_color = c;
        s
    }

    pub fn font_size(self, p: Params<u16>) -> (s: Style)
        ensures
            (s.normal.font_size, s.hover.font_size, s.clicked.font_size) == spread(
                p,
                self.normal.font_size,
                self.hover.font_size,
                self.clicked.font_size,
            ),
            s.normal == (StyleValues { font_size: s.normal.font_size, ..self.normal }),
            s.hover == (StyleValues { font_size: s.hover.font_size, ..self.hover }),
            s.clicked == (StyleValues { font_size: s.clicked.font_size, ..self.clicked }),
    {
        let (n, h, c) = spread_params(
            p,
            self.normal.font_size,
            self.hover.font_size,
            self.clicked.font_size,
        );
        let mut s = self;
        s.normal.font_size = n;
        s.hover.font_size = h;
        s.clicked.font_size = c;
        s
    }

    pub fn font_style(self, p: Params<FontStyle>) -> (s: Style)
        ensures
            (s.normal.font_style, s.hover.font_style, s.clicked.font_style) == spread(
                p,
                self.normal.font_style,
                self.hover.font_style,
                self.clicked.font_style,
            ),
            s.normal == (StyleValues { font_style: s.normal.font_style, ..self.normal }),
            s.hover == (StyleValues { font_style: s.hover.font_style, ..self.hover }),
            s.clicked == (StyleValues { font_style: s.clicked.font_style, ..self.clicked }),
    {
        let (n, h, c) = spread_params(
            p,
            self.normal.font_style,
            self.hover.font_style,
            self.clicked.font_style,
        );
        let mut s = self;
        s.normal.font_style = n;
        s.hover.font_style = h;
        s.clicked.font_style = c;
        s
    }

    pub fn text_align(self, p: Params<TextAlign>) -> (s: Style)
        ensures
            (s.normal.text_align, s.hover.text_align, s.clicked.text_align) == spread(
                p,
                self.normal.text_align,
                self.hover.text_align,
                self.clicked.text_align,
            ),
            s.normal == (StyleValues { text_align: s.normal.text_align, ..self.normal }),
            s.hover == (StyleValues { text_align: s.hover.text_align, ..self.hover }),
            s.clicked == (StyleValues { text_align: s.clicked.text_align, ..self.clicked }),
    {
        let (n, h, c) = spread_params(
            p,
            self.normal.text_align,
            self.hover.text_align,
            self.clicked.text_align,
        );
        let mut s = self;
        s.normal.text_align = n;
        s.hover.text_align = h;
        s.clicked.text_align = c;
        s
    }
}

} // verus!
