//! A scrolling viewport over one child widget, with wheel momentum and a
//! draggable scrollbar thumb.
//!
//! Scroll offsets are kept in fixed point, [`SCROLL_UNITS_PER_PIXEL`] units
//! to the pixel; wheel acceleration in the event's wheel units.
use vstd::prelude::*;
use crate::event::Event;
use crate::geometry::{clamp_coord, to_coord, Point, Rect};
use crate::style::Color;
use crate::widget::Widget;

verus! {

pub const SCROLL_UNITS_PER_PIXEL: i64 = 10000;

/// Pixels scrolled per notch of acceleration.
pub const SCROLL_SENSITIVITY: i64 = 40;

/// Percent of the acceleration kept per frame on macOS.
pub const APPLE_FRICTION: u32 = 77;

/// Percent of the acceleration kept per frame elsewhere.
pub const NORMAL_FRICTION: u32 = 40;

/// Momentum below this many wheel units stops scrolling.
pub const STOP_THRESHOLD: i64 = 5;

/// Accumulated wheel input saturates at this many wheel units.
pub const MAX_ACCELERATION: i64 = 1000000000;

pub const TRACK_WIDTH: u32 = 8;

/// The track's width while the pointer is over it or the thumb is dragged.
pub const TRACK_WIDTH_HOVER: u32 = 10;

/// How far below the view the child's viewport reaches.
pub const VIEWPORT_MARGIN: u32 = 100;

/// The coordinate reported to the child once the pointer has left the view.
pub const POINTER_LEFT: i32 = -2147483648;

/// The largest scroll offset: the content height beyond the view, or zero.
pub open spec fn max_scroll(content: u32, view: u32) -> int {
    if content > view {
        (content - view) * SCROLL_UNITS_PER_PIXEL
    } else {
        0
    }
}

pub open spec fn abs(a: int) -> int {
    if a < 0 {
        -a
    } else {
        a
    }
}

pub open spec fn clamp_range(v: int, lo: int, hi: int) -> int {
    if v < lo {
        lo
    } else if v > hi {
        hi
    } else {
        v
    }
}

/// `a * percent / 100`, rounded toward zero.
pub open spec fn scaled_toward_zero(a: int, percent: int) -> int {
    if a >= 0 {
        a * percent / 100
    } else {
        -((-a) * percent / 100)
    }
}

/// One frame of momentum on `(offset, acceleration, scrolling)`: friction,
/// then a stop below the threshold, then the move, clamped to
/// `[0, limit]`; reaching either end kills the acceleration.
pub open spec fn momentum_step(scroll: int, acc: int, scrolling: bool, limit: int, friction: int) -> (
    int,
    int,
    bool,
) {
    if !scrolling {
        (scroll, acc, false)
    } else {
        let a1 = scaled_toward_zero(acc, friction);
        let a2 = if abs(a1) < STOP_THRESHOLD {
            0
        } else {
            a1
        };
        let moving = abs(a1) >= STOP_THRESHOLD;
        let s1 = scroll - SCROLL_SENSITIVITY * a2;
        if s1 < 0 {
            (0, 0, moving)
        } else if s1 >= limit {
            (limit, 0, moving)
        } else {
            (s1, a2, moving)
        }
    }
}

/// A thumb drag by `dy` pixels as a scroll offset change: the distance
/// scaled by content over view height, rounded toward zero.
pub open spec fn drag_delta(dy: int, content: int, view: int) -> int {
    if view == 0 {
        0
    } else if dy >= 0 {
        dy * content * SCROLL_UNITS_PER_PIXEL / view
    } else {
        -((-dy) * content * SCROLL_UNITS_PER_PIXEL / view)
    }
}

/// The largest scroll offset for `content` pixels of content in a view
/// `view` pixels tall.
pub fn scroll_limit_of(content: u32, view: u32) -> (r: i64)
    ensures
        r == max_scroll(content, view),
{
    if content > view {
        (content - view) as i64 * SCROLL_UNITS_PER_PIXEL
    } else {
        0
    }
}

/// A view over one child, scrolled vertically.
#[derive(Debug)]
pub struct ScrollView {
    pub widget: Box<Widget>,
    pub rect: Rect,
    pub hover: bool,
    pub scrolling: bool,
    /// The scroll offset, in [`SCROLL_UNITS_PER_PIXEL`] units.
    pub scroll: i64,
    pub scroll_acceleration: i64,
    /// The child's height when the view last laid it out.
    pub content_height: u32,
    /// Percent of the acceleration kept per frame.
    pub friction: u32,
    pub scroll_thumb_rect: Rect,
    pub scroll_area_rect: Rect,
    pub scroll_area_width: u32,
    pub drag_thumb: bool,
    /// Where in the thumb it was grabbed.
    pub drag_offset: i32,
    pub thumb_color: Color,
    pub area_color: Color,
    pub thumb_hover_color: Color,
    pub thumb_hover: bool,
}

pub open spec fn zero_rect() -> Rect {
    Rect { x: 0, y: 0, width: 0, height: 0 }
}

impl ScrollView {
    pub open spec fn scroll_limit(self) -> int {
        max_scroll(self.content_height, self.rect.height)
    }

    /// Whether the content is taller than the view; only then is there a
    /// scrollbar, and only then do wheel and drag do anything.
    pub open spec fn scrollable(self) -> bool {
        self.content_height > self.rect.height
    }

    /// The offset stays within `[0, limit]`, the acceleration is bounded and
    /// is zero when idle.
    pub open spec fn wf(self) -> bool {
        &&& 0 <= self.scroll <= self.scroll_limit()
        &&& -MAX_ACCELERATION <= self.scroll_acceleration <= MAX_ACCELERATION
        &&& !self.scrolling ==> self.scroll_acceleration == 0
        &&& self.friction < 100
    }

    /// The track and thumb rectangles for the current offset; empty when
    /// the content fits.
    pub open spec fn tracks(self) -> (Rect, Rect) {
        if self.scrollable() {
            let x = clamp_coord(self.rect.x + self.rect.width - self.scroll_area_width);
            let h = self.rect.height as int;
            let c = self.content_height as int;
            (
                Rect { x, y: self.rect.y, width: self.scroll_area_width, height: self.rect.height },
                Rect {
                    x,
                    y: clamp_coord(self.rect.y + (self.scroll / SCROLL_UNITS_PER_PIXEL) * h / c),
                    width: self.scroll_area_width,
                    height: (h * h / c) as u32,
                },
            )
        } else {
            (zero_rect(), zero_rect())
        }
    }

    pub open spec fn with_tracks(self) -> ScrollView {
        ScrollView { scroll_area_rect: self.tracks().0, scroll_thumb_rect: self.tracks().1, ..self }
    }

    /// One frame of momentum applied to this view's offset.
    pub open spec fn momentum_applied(self) -> ScrollView {
        let m = momentum_step(
            self.scroll as int,
            self.scroll_acceleration as int,
            self.scrolling,
            self.scroll_limit(),
            self.friction as int,
        );
        ScrollView { scroll: m.0 as i64, scroll_acceleration: m.1 as i64, scrolling: m.2, ..self }
    }

    /// This view moved to `rect`, the offset clamped to the new limit.
    pub open spec fn placed_at(self, rect: Rect) -> ScrollView {
        let s = ScrollView { rect, ..self };
        ScrollView {
            scroll: if self.scroll > s.scroll_limit() {
                s.scroll_limit() as i64
            } else {
                self.scroll
            },
            ..s
        }.with_tracks()
    }

    /// The offset after a thumb drag by `dy` with the pointer at `y`: it
    /// snaps to an end when the grab point passes that end of the view.
    pub open spec fn dragged(self, y: i32, dy: i32) -> int {
        let s1 = self.scroll + drag_delta(dy as int, self.content_height as int, self.rect.height as int);
        let s2 = if y <= self.rect.y + self.drag_offset {
            0
        } else if y >= self.rect.y + self.rect.height - self.drag_offset {
            self.scroll_limit()
        } else {
            s1
        };
        clamp_range(s2, 0, self.scroll_limit())
    }

    /// This view's own state after `ev`, seen by window `win`; the child is
    /// not touched.
    pub open spec fn reacted(self, ev: Event, win: u32) -> ScrollView {
        match ev {
            Event::PointerMove { window_id, x, y, dy, .. } => {
                if window_id != win {
                    self
                } else {
                    let dragging = self.scrollable() && self.drag_thumb;
                    ScrollView {
                        hover: self.rect.contains(x as int, y as int),
                        thumb_hover: self.scroll_thumb_rect.contains(x as int, y as int),
                        scroll: if dragging {
                            self.dragged(y, dy) as i64
                        } else {
                            self.scroll
                        },
                        scrolling: if dragging {
                            true
                        } else {
                            self.scrolling
                        },
                        scroll_area_width: if (self.scrollable() && self.scroll_area_rect.contains(
                            x as int,
                            y as int,
                        )) || self.drag_thumb {
                            TRACK_WIDTH_HOVER
                        } else {
                            TRACK_WIDTH
                        },
                        ..self
                    }
                }
            },
            Event::PointerDown { window_id, x, y, .. } => {
                if window_id == win && self.hover && self.scrollable()
                    && self.scroll_thumb_rect.contains(x as int, y as int) {
                    ScrollView {
                        drag_thumb: true,
                        drag_offset: clamp_coord(y - self.scroll_thumb_rect.y),
                        ..self
                    }
                } else {
                    self
                }
            },
            Event::PointerUp { window_id, .. } => {
                if window_id == win {
                    ScrollView { drag_thumb: false, ..self }
                } else {
                    self
                }
            },
            Event::Wheel { window_id, precise_dy, .. } => {
                if self.hover && window_id == win && self.scrollable() {
                    ScrollView {
                        scroll_acceleration: clamp_range(
                            self.scroll_acceleration + precise_dy,
                            -MAX_ACCELERATION as int,
                            MAX_ACCELERATION as int,
                        ) as i64,
                        scrolling: true,
                        ..self
                    }
                } else {
                    self
                }
            },
            _ => self,
        }
    }

    /// The event the child receives for `ev`, if any: pointer and wheel
    /// events while the pointer is inside the view; a move outside it as a
    /// move to [`POINTER_LEFT`].
    pub open spec fn forwarded(self, ev: Event, win: u32) -> Option<Event> {
        match ev {
            Event::PointerMove { window_id, x, y, dx, dy } => {
                if window_id != win {
                    None
                } else if self.rect.contains(x as int, y as int) {
                    Some(ev)
                } else {
                    Some(Event::PointerMove { window_id, x: POINTER_LEFT, y: POINTER_LEFT, dx, dy })
                }
            },
            Event::PointerDown { window_id, x, y, .. } => {
                if window_id == win && self.rect.contains(x as int, y as int) {
                    Some(ev)
                } else {
                    None
                }
            },
            Event::PointerUp { window_id, .. } | Event::Wheel { window_id, .. } => {
                if window_id == win && self.hover {
                    Some(ev)
                } else {
                    None
                }
            },
            _ => None,
        }
    }

    pub fn refresh_tracks(&mut self)
        requires
            old(self).scroll >= 0,
        ensures
            *final(self) == old(self).with_tracks(),
    {
        if self.content_height > self.rect.height {
            let x = to_coord(self.rect.x as i64 + self.rect.width as i64 - self.scroll_area_width as i64);
            let h = self.rect.height as u128;
            let c = self.content_height as u128;
            let px = (self.scroll / SCROLL_UNITS_PER_PIXEL) as u128;
            assert(px * h <= 0xffff_ffff_ffff_ffffu128 * 0xffff_ffffu128) by (nonlinear_arith)
                requires
                    px <= 0xffff_ffff_ffff_ffffu128,
                    h <= 0xffff_ffffu128,
            ;
            assert(h * h <= 0xffff_ffffu128 * 0xffff_ffffu128) by (nonlinear_arith)
                requires
                    h <= 0xffff_ffffu128,
            ;
            let down = px * h / c;
            assert(down <= px) by (nonlinear_arith)
                requires
                    down == (px * h) as u128 / c,
                    h < c,
            ;
            let thumb_h = h * h / c;
            assert(thumb_h <= h) by (nonlinear_arith)
                requires
                    thumb_h == (h * h) as u128 / c,
                    h < c,
            ;
            self.scroll_area_rect = Rect::new(x, self.rect.y, self.scroll_area_width, self.rect.height);
            let ty = to_coord(self.rect.y as i64 + down as i64);
            self.scroll_thumb_rect = Rect::new(x, ty, self.scroll_area_width, thumb_h as u32);
        } else {
            self.scroll_area_rect = Rect::new(0, 0, 0, 0);
            self.scroll_thumb_rect = Rect::new(0, 0, 0, 0);
        }
    }

    pub fn apply_momentum(&mut self)
        requires
            old(self).wf(),
        ensures
            *final(self) == old(self).momentum_applied(),
            final(self).wf(),
    {
        if !self.scrolling {
            return ;
        }
        let acc = self.scroll_acceleration;
        let f = self.friction as i64;
        let a1: i64 = if acc >= 0 {
            assert(acc * f <= MAX_ACCELERATION * 100) by (nonlinear_arith)
                requires
                    0 <= acc <= MAX_ACCELERATION,
                    0 <= f < 100,
            ;
            acc * f / 100
        } else {
            assert((-acc) * f <= MAX_ACCELERATION * 100) by (nonlinear_arith)
                requires
                    0 < -acc <= MAX_ACCELERATION,
                    0 <= f < 100,
            ;
            -((-acc) * f / 100)
        };
        assert(abs(a1 as int) <= abs(acc as int)) by (nonlinear_arith)
            requires
                a1 == scaled_toward_zero(acc as int, f as int),
                0 <= f < 100,
        ;
        let moving = a1 >= STOP_THRESHOLD || a1 <= -STOP_THRESHOLD;
        let a2 = if moving {
            a1
        } else {
            0
        };
        let limit: i64 = if self.content_height > self.rect.height {
            (self.content_height - self.rect.height) as i64 * SCROLL_UNITS_PER_PIXEL
        } else {
            0
        };
        let s1 = self.scroll - SCROLL_SENSITIVITY * a2;
        if s1 < 0 {
            self.scroll = 0;
            self.scroll_acceleration = 0;
        } else if s1 >= limit {
            self.scroll = limit;
            self.scroll_acceleration = 0;
        } else {
            self.scroll = s1;
            self.scroll_acceleration = a2;
        }
        self.scrolling = moving;
    }

    /// The view's own part of handling `ev`; the child is not touched.
    pub fn react(&mut self, ev: Event, win: u32)
        requires
            old(self).wf(),
        ensures
            *final(self) == old(self).reacted(ev, win),
            final(self).wf(),
    {
        let scrollable = self.content_height > self.rect.height;
        match ev {
            Event::PointerMove { window_id, x, y, dy, .. } => {
                if window_id == win {
                    let p = Point::new(x, y);
                    let dragging = scrollable && self.drag_thumb;
                    let in_area = self.scroll_area_rect.contains_point(p);
                    self.hover = self.rect.contains_point(p);
                    self.thumb_hover = self.scroll_thumb_rect.contains_point(p);
                    if dragging {
                        self.scroll = self.drag_to(y, dy);
                        self.scrolling = true;
                    }
                    self.scroll_area_width = if (scrollable && in_area) || self.drag_thumb {
                        TRACK_WIDTH_HOVER
                    } else {
                        TRACK_WIDTH
                    };
                }
            },
            Event::PointerDown { window_id, x, y, .. } => {
                if window_id == win && self.hover && scrollable
                    && self.scroll_thumb_rect.contains_point(Point::new(x, y)) {
                    self.drag_thumb = true;
                    self.drag_offset = to_coord(y as i64 - self.scroll_thumb_rect.y as i64);
                }
            },
            Event::PointerUp { window_id, .. } => {
                if window_id == win {
                    self.drag_thumb = false;
                }
            },
            Event::Wheel { window_id, precise_dy, .. } => {
                if self.hover && window_id == win && scrollable {
                    let a = self.scroll_acceleration + precise_dy as i64;
                    self.scroll_acceleration = if a < -MAX_ACCELERATION {
                        -MAX_ACCELERATION
                    } else if a > MAX_ACCELERATION {
                        MAX_ACCELERATION
                    } else {
                        a
                    };
                    self.scrolling = true;
                }
            },
            _ => {},
        }
    }

    fn drag_to(&self, y: i32, dy: i32) -> (r: i64)
        requires
            self.wf(),
            self.scrollable(),
        ensures
            r == self.dragged(y, dy),
    {
        let limit = (self.content_height - self.rect.height) as i64 * SCROLL_UNITS_PER_PIXEL;
        let top = self.rect.y as i64 + self.drag_offset as i64;
        let bottom = self.rect.y as i64 + self.rect.height as i64 - self.drag_offset as i64;
        let s2: i128 = if (y as i64) <= top {
            0
        } else if (y as i64) >= bottom {
            limit as i128
        } else {
            let c = self.content_height as i128;
            let h = self.rect.height as i128;
            let delta: i128 = if h == 0 {
                0
            } else if dy >= 0 {
                let d = dy as i128;
                assert(0 <= d * c <= 0x8000_0000i128 * 0x1_0000_0000i128) by (nonlinear_arith)
                    requires
                        0 <= d <= 0x8000_0000i128,
                        0 <= c <= 0x1_0000_0000i128,
                ;
                let n = d * c * 10000;
                assert(n / h <= n) by (nonlinear_arith)
                    requires
                        n >= 0,
                        h > 0,
                ;
                n / h
            } else {
                let d = -(dy as i128);
                assert(0 <= d * c <= 0x8000_0000i128 * 0x1_0000_0000i128) by (nonlinear_arith)
                    requires
                        0 <= d <= 0x8000_0000i128,
                        0 <= c <= 0x1_0000_0000i128,
                ;
                let n = d * c * 10000;
                assert(n / h <= n) by (nonlinear_arith)
                    requires
                        n >= 0,
                        h > 0,
                ;
                -(n / h)
            };
            self.scroll as i128 + delta
        };
        if s2 < 0 {
            0
        } else if s2 > limit as i128 {
            limit
        } else {
            s2 as i64
        }
    }

    /// The event the child receives for `ev`, if any.
    pub fn forward(&self, ev: Event, win: u32) -> (r: Option<Event>)
        ensures
            r == self.forwarded(ev, win),
    {
        match ev {
            Event::PointerMove { window_id, x, y, dx, dy } => {
                if window_id != win {
                    None
                } else if self.rect.contains_point(Point::new(x, y)) {
                    Some(ev)
                } else {
                    Some(Event::PointerMove { window_id, x: POINTER_LEFT, y: POINTER_LEFT, dx, dy })
                }
            },
            Event::PointerDown { window_id, x, y, .. } => {
                if window_id == win && self.rect.contains_point(Point::new(x, y)) {
                    Some(ev)
                } else {
                    None
                }
            },
            Event::PointerUp { window_id, .. } | Event::Wheel { window_id, .. } => {
                if window_id == win && self.hover {
                    Some(ev)
                } else {
                    None
                }
            },
            _ => None,
        }
    }

    /// Moves the view; the offset is clamped to the new limit.
    pub fn set_rect(&mut self, rect: Rect)
        requires
            old(self).wf(),
        ensures
            *final(self) == old(self).placed_at(rect),
            final(self).wf(),
    {
        self.rect = rect;
        let limit: i64 = if self.content_height > rect.height {
            (self.content_height - rect.height) as i64 * SCROLL_UNITS_PER_PIXEL
        } else {
            0
        };
        if self.scroll > limit {
            self.scroll = limit;
        }
        self.refresh_tracks();
    }

    pub fn get_rect(&self) -> (r: Rect)
        ensures
            r == self.rect,
    {
        self.rect
    }

    /// The visible share of the content as a fraction `(visible, content)`;
    /// `(1, 1)` when the content fits.
    pub fn v_ratio(&self) -> (r: (u32, u32))
        ensures
            self.scrollable() ==> r == (self.rect.height, self.content_height),
            !self.scrollable() ==> r == (1u32, 1u32),
    {
        if self.content_height > self.rect.height {
            (self.rect.height, self.content_height)
        } else {
            (1, 1)
        }
    }

    /// The scroll offset in whole pixels.
    pub fn scroll_offset(&self) -> (r: i64)
        requires
            self.scroll >= 0,
        ensures
            r == self.scroll / SCROLL_UNITS_PER_PIXEL,
    {
        self.scroll / SCROLL_UNITS_PER_PIXEL
    }
}

/// One step of a scroll view on its own: an input event, or a frame.
pub open spec fn scroll_step(s: ScrollView, op: Option<Event>, win: u32) -> ScrollView {
    match op {
        Some(ev) => s.reacted(ev, win),
        None => s.momentum_applied(),
    }
}

/// A scroll view after the steps of `ops`, in order.
pub open spec fn scroll_run(s: ScrollView, ops: Seq<Option<Event>>, win: u32) -> ScrollView
    decreases ops.len(),
{
    if ops.len() == 0 {
        s
    } else {
        scroll_step(scroll_run(s, ops.subrange(0, ops.len() - 1), win), ops[ops.len() - 1], win)
    }
}

proof fn lemma_scaled_toward_zero(a: int, f: int)
    requires
        0 <= f < 100,
    ensures
        abs(scaled_toward_zero(a, f)) <= abs(a),
        abs(scaled_toward_zero(a, f)) == abs(a) * f / 100,
{
    if a >= 0 {
        assert(a * f / 100 <= a) by (nonlinear_arith)
            requires
                a >= 0,
                0 <= f < 100,
        ;
        assert(a * f / 100 >= 0) by (nonlinear_arith)
            requires
                a >= 0,
                0 <= f,
        ;
    } else {
        assert((-a) * f / 100 <= -a) by (nonlinear_arith)
            requires
                a < 0,
                0 <= f < 100,
        ;
        assert((-a) * f / 100 >= 0) by (nonlinear_arith)
            requires
                a < 0,
                0 <= f,
        ;
    }
}

/// The clamp invariant holds across one step.
pub proof fn lemma_scroll_step_wf(s: ScrollView, op: Option<Event>, win: u32)
    requires
        s.wf(),
    ensures
        scroll_step(s, op, win).wf(),
{
    if op is None {
        if s.scrolling {
            lemma_scaled_toward_zero(s.scroll_acceleration as int, s.friction as int);
        }
    }
}

/// Clamp invariant: whatever sequence of wheel turns, thumb drags, other
/// events and frames a well-formed scroll view goes through, its offset
/// stays within zero and the content height beyond the view (zero when
/// the content fits).
pub proof fn scroll_offset_stays_clamped(s: ScrollView, ops: Seq<Option<Event>>, win: u32)
    requires
        s.wf(),
    ensures
        scroll_run(s, ops, win).wf(),
        0 <= scroll_run(s, ops, win).scroll <= max_scroll(s.content_height, s.rect.height),
        scroll_run(s, ops, win).content_height == s.content_height,
        scroll_run(s, ops, win).rect == s.rect,
    decreases ops.len(),
{
    if ops.len() > 0 {
        let p = ops.subrange(0, ops.len() - 1);
        scroll_offset_stays_clamped(s, p, win);
        lemma_scroll_step_wf(scroll_run(s, p, win), ops[ops.len() - 1], win);
    }
}

/// Frames of momentum from a state, `n` times.
pub open spec fn momentum_frames(scroll: int, acc: int, scrolling: bool, limit: int, friction: int, n: nat) -> (
    int,
    int,
    bool,
)
    decreases n,
{
    if n == 0 {
        (scroll, acc, scrolling)
    } else {
        let m = momentum_step(scroll, acc, scrolling, limit, friction);
        momentum_frames(m.0, m.1, m.2, limit, friction, (n - 1) as nat)
    }
}

/// How many frames momentum of at most `bound` takes to stop: one more each
/// time friction scales the bound down, until it is under the threshold.
pub open spec fn frames_to_rest(bound: nat, friction: nat) -> nat
    decreases bound,
{
    if friction >= 100 || bound < STOP_THRESHOLD {
        1
    } else {
        proof {
            assert(bound * friction / 100 < bound) by (nonlinear_arith)
                requires
                    bound >= 5,
                    friction < 100,
            ;
        }
        1 + frames_to_rest(bound * friction / 100, friction)
    }
}

proof fn lemma_rest_stays(scroll: int, limit: int, friction: int, n: nat)
    ensures
        momentum_frames(scroll, 0, false, limit, friction, n) == (scroll, 0int, false),
    decreases n,
{
    if n > 0 {
        lemma_rest_stays(scroll, limit, friction, (n - 1) as nat);
    }
}

/// Momentum never grows from one frame to the next, and a view that is not
/// scrolling keeps its offset and momentum on every later frame.
pub proof fn momentum_never_grows(scroll: int, acc: int, scrolling: bool, limit: int, friction: nat, n: nat)
    requires
        friction < 100,
        limit >= 0,
    ensures
        abs(momentum_step(scroll, acc, scrolling, limit, friction as int).1) <= abs(acc),
        !scrolling ==> momentum_frames(scroll, acc, scrolling, limit, friction as int, n) == (
            scroll,
            acc,
            false,
        ),
    decreases n,
{
    lemma_scaled_toward_zero(acc, friction as int);
    if !scrolling && n > 0 {
        momentum_never_grows(scroll, acc, scrolling, limit, friction, (n - 1) as nat);
    }
}

/// Momentum decay: with friction below one hundred percent, momentum of at
/// most `bound` is exactly zero, and scrolling has stopped, after
/// `frames_to_rest(bound, friction)` frames.
pub proof fn momentum_comes_to_rest(
    scroll: int,
    acc: int,
    scrolling: bool,
    limit: int,
    friction: nat,
    bound: nat,
)
    requires
        friction < 100,
        abs(acc) <= bound,
        !scrolling ==> acc == 0,
        limit >= 0,
    ensures
        momentum_frames(scroll, acc, scrolling, limit, friction as int, frames_to_rest(bound, friction)).1 == 0,
        !momentum_frames(scroll, acc, scrolling, limit, friction as int, frames_to_rest(bound, friction)).2,
    decreases bound,
{
    let n = frames_to_rest(bound, friction);
    if !scrolling {
        lemma_rest_stays(scroll, limit, friction as int, n);
    } else {
        let m = momentum_step(scroll, acc, scrolling, limit, friction as int);
        lemma_scaled_toward_zero(acc, friction as int);
        let a1 = scaled_toward_zero(acc, friction as int);
        assert(abs(acc) * friction / 100 <= bound * friction / 100) by (nonlinear_arith)
            requires
                abs(acc) <= bound,
                0 <= abs(acc),
                0 <= friction,
        ;
        assert(abs(m.1) <= abs(a1));
        if bound < STOP_THRESHOLD {
            assert(!m.2 && m.1 == 0);
            lemma_rest_stays(m.0, limit, friction as int, (n - 1) as nat);
        } else {
            assert(bound * friction / 100 < bound) by (nonlinear_arith)
                requires
                    bound >= 5,
                    friction < 100,
            ;
            momentum_comes_to_rest(m.0, m.1, m.2, limit, friction, bound * friction / 100);
        }
    }
}

} // verus!
