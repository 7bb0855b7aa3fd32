//! The widget tree: every widget kind, and the operations that walk the tree.
use vstd::prelude::*;
use crate::button::Button;
use crate::circle::Circle;
use crate::draw::DrawCmd;
use crate::event::{Action, Event};
use crate::geometry::{clamp_coord, clamp_extent, to_coord, to_extent, Rect, COORD_MAX};
use crate::list::{cap_viewport, capped_viewport, List};
use crate::scrollview::{
    abs, frames_to_rest, lemma_scroll_step_wf, momentum_comes_to_rest, momentum_frames, momentum_step,
    max_scroll, scroll_limit_of, ScrollView, NORMAL_FRICTION, SCROLL_UNITS_PER_PIXEL, TRACK_WIDTH,
    VIEWPORT_MARGIN,
};
use crate::style::{min_int, Color};
use crate::text::Text;

verus! {

/// A node of the widget tree; containers own their children.
#[derive(Debug)]
pub enum Widget {
    Text(Text),
    Button(Button),
    Circle(Circle),
    List(List),
    ScrollView(ScrollView),
}

/// Running totals of child heights are capped here; past it every
/// coordinate is clamped anyway.
pub const HEIGHT_SUM_CAP: i64 = 0x2_0000_0000;

pub open spec fn white() -> Color {
    Color { r: 255, g: 255, b: 255, a: 255 }
}

/// The sum of the heights of `s`.
pub open spec fn heights_sum(s: Seq<Widget>) -> int
    decreases s.len(),
{
    if s.len() == 0 {
        0
    } else {
        heights_sum(s.subrange(0, s.len() - 1)) + s[s.len() - 1].bounds().height
    }
}

/// The slot a stack at `(x, y)` gives to `child` after `above`: the list's
/// x, the running offset as y, and the child's own size.
pub open spec fn stack_slot(child: Widget, x: i32, y: i32, above: Seq<Widget>) -> Rect {
    Rect {
        x,
        y: clamp_coord(y + heights_sum(above)),
        width: child.bounds().width,
        height: child.bounds().height,
    }
}

/// `news` is `olds` stacked at `(x, y)`: each child placed in its slot below
/// the ones before it, in order.
pub open spec fn stacked_from(olds: Seq<Widget>, news: Seq<Widget>, x: i32, y: i32) -> bool
    decreases olds,
{
    &&& olds.len() == news.len()
    &&& olds.len() > 0 ==> {
        let n = olds.len() - 1;
        &&& stacked_from(olds.subrange(0, n), news.subrange(0, n), x, y)
        &&& olds[n].placed(news[n], stack_slot(olds[n], x, y, news.subrange(0, n)))
    }
}

/// Every widget of `s` is well formed.
pub open spec fn all_wf(s: Seq<Widget>) -> bool {
    forall|i: int| 0 <= i < s.len() ==> #[trigger] s[i].wf()
}

/// [`all_wf`], stated by recursion on the length.
pub open spec fn wf_each(s: Seq<Widget>) -> bool
    decreases s,
{
    s.len() > 0 ==> wf_each(s.subrange(0, s.len() - 1)) && s[s.len() - 1].wf()
}

pub proof fn lemma_wf_each(s: Seq<Widget>)
    ensures
        wf_each(s) == all_wf(s),
    decreases s.len(),
{
    if s.len() > 0 {
        let p = s.subrange(0, s.len() - 1);
        lemma_wf_each(p);
        if all_wf(s) {
            assert forall|i: int| 0 <= i < p.len() implies #[trigger] p[i].wf() by {
                assert(p[i] == s[i]);
            }
            assert(s[s.len() - 1].wf());
        }
        if wf_each(s) {
            assert forall|i: int| 0 <= i < s.len() implies #[trigger] s[i].wf() by {
                if i < s.len() - 1 {
                    assert(p[i] == s[i]);
                }
            }
        }
    }
}

/// The facts a loop over the children needs after it changed child `k` of
/// `prev` into `news[k]`: the children before `k` are as they were, the
/// first `k + 1` of `olds` and of `news` extend the first `k` by child `k`,
/// and well-formedness carries over.
pub proof fn lemma_child_step(olds: Seq<Widget>, prev: Seq<Widget>, news: Seq<Widget>, k: int)
    requires
        0 <= k < olds.len(),
        prev.len() == olds.len(),
        news == prev.update(k, news[k]),
        all_wf(prev),
        news[k].wf(),
    ensures
        news.subrange(0, k) == prev.subrange(0, k),
        news.subrange(0, k + 1).subrange(0, k) == news.subrange(0, k),
        olds.subrange(0, k + 1).subrange(0, k) == olds.subrange(0, k),
        olds.subrange(0, k + 1)[k] == olds[k],
        news.subrange(0, k + 1)[k] == news[k],
        all_wf(news),
{
    assert(news.subrange(0, k) =~= prev.subrange(0, k));
    assert(news.subrange(0, k + 1).subrange(0, k) =~= news.subrange(0, k));
    assert(olds.subrange(0, k + 1).subrange(0, k) =~= olds.subrange(0, k));
    assert forall|j: int| 0 <= j < news.len() implies #[trigger] news[j].wf() by {
        if j != k {
            assert(news[j] == prev[j]);
        }
    }
}

/// `news` is `olds`, each after one frame.
pub open spec fn children_ticked(olds: Seq<Widget>, news: Seq<Widget>) -> bool
    decreases olds,
{
    &&& olds.len() == news.len()
    &&& olds.len() > 0 ==> {
        let n = olds.len() - 1;
        &&& children_ticked(olds.subrange(0, n), news.subrange(0, n))
        &&& olds[n].ticked(news[n])
    }
}

/// `news` is `olds`, each after one frame and then stacked at `(x, y)`.
pub open spec fn ticked_then_stacked(olds: Seq<Widget>, news: Seq<Widget>, x: i32, y: i32) -> bool
    decreases olds,
{
    &&& olds.len() == news.len()
    &&& olds.len() > 0 ==> {
        let n = olds.len() - 1;
        &&& ticked_then_stacked(olds.subrange(0, n), news.subrange(0, n), x, y)
        &&& exists|m: Widget|
            olds[n].ticked(m) && #[trigger] m.placed(news[n], stack_slot(m, x, y, news.subrange(0, n)))
    }
}

proof fn lemma_ticked_then_stacked(olds: Seq<Widget>, mids: Seq<Widget>, news: Seq<Widget>, x: i32, y: i32)
    requires
        children_ticked(olds, mids),
        stacked_from(mids, news, x, y),
    ensures
        ticked_then_stacked(olds, news, x, y),
    decreases olds.len(),
{
    if olds.len() > 0 {
        let n = olds.len() - 1;
        lemma_ticked_then_stacked(olds.subrange(0, n), mids.subrange(0, n), news.subrange(0, n), x, y);
        let m = mids[n];
        assert(olds[n].ticked(m) && m.placed(news[n], stack_slot(m, x, y, news.subrange(0, n))));
    }
}

/// `news` is `olds`, each after handling `ev`.
pub open spec fn children_handled(olds: Seq<Widget>, news: Seq<Widget>, ev: Event, win: u32) -> bool
    decreases olds,
{
    &&& olds.len() == news.len()
    &&& olds.len() > 0 ==> {
        let n = olds.len() - 1;
        &&& children_handled(olds.subrange(0, n), news.subrange(0, n), ev, win)
        &&& olds[n].handled(news[n], ev, win)
    }
}

/// The first action other than a no-op that the children of `s` yield for
/// `ev`, in order; a no-op if there is none.
pub open spec fn first_action(s: Seq<Widget>, ev: Event, win: u32) -> Action
    decreases s,
{
    if s.len() == 0 {
        Action::NoOp
    } else {
        let before = first_action(s.subrange(0, s.len() - 1), ev, win);
        if before is NoOp {
            s[s.len() - 1].action_of(ev, win)
        } else {
            before
        }
    }
}

/// The commands of the children of `s` that have a left corner in `viewport`.
pub open spec fn render_visible(s: Seq<Widget>, viewport: Rect) -> Seq<DrawCmd>
    decreases s,
{
    if s.len() == 0 {
        Seq::empty()
    } else {
        render_visible(s.subrange(0, s.len() - 1), viewport) + if viewport.holds_a_left_corner(
            s[s.len() - 1].bounds(),
        ) {
            s[s.len() - 1].render()
        } else {
            Seq::empty()
        }
    }
}

impl ScrollView {
    /// Where the view puts `child` at scroll offset `scroll`: at the view's
    /// x, moved up from the view's top by the offset in whole pixels, at the
    /// child's own size. At offset zero this is the view's origin.
    pub open spec fn scroll_slot(self, child: Widget, scroll: int) -> Rect {
        Rect {
            x: self.rect.x,
            y: clamp_coord(self.rect.y - scroll / (SCROLL_UNITS_PER_PIXEL as int)),
            width: child.bounds().width,
            height: child.bounds().height,
        }
    }

    /// The viewport handed to the child: the view, reaching a margin further down.
    pub open spec fn child_viewport(self) -> Rect {
        Rect { height: clamp_extent(self.rect.height + VIEWPORT_MARGIN), ..self.rect }
    }

    /// `new` is this view laid out again around `child`: the child gets the
    /// view's viewport and is placed for the current offset; the content
    /// height is re-read and the offset clamped to the new limit, the child
    /// following it when the clamp moved it. Momentum is kept.
    pub open spec fn updated_from(self, child: Widget, new: ScrollView) -> bool {
        exists|m: Widget|
            #[trigger] child.with_viewport(self.child_viewport()).placed(
                m,
                self.scroll_slot(child, self.scroll as int),
            ) && self.relaid_with(m, new)
    }

    /// Laying out again does not read the view's old child, content height
    /// or track rectangles.
    pub proof fn lemma_updated_from_fields(self, other: ScrollView, child: Widget, new: ScrollView)
        requires
            self.updated_from(child, new),
            other == (ScrollView {
                widget: other.widget,
                content_height: other.content_height,
                scroll_thumb_rect: other.scroll_thumb_rect,
                scroll_area_rect: other.scroll_area_rect,
                ..self
            }),
        ensures
            other.updated_from(child, new),
    {
        let m = choose|m: Widget|
            #[trigger] child.with_viewport(self.child_viewport()).placed(
                m,
                self.scroll_slot(child, self.scroll as int),
            ) && self.relaid_with(m, new);
        assert(other.child_viewport() == self.child_viewport());
        assert(other.scroll_slot(child, other.scroll as int) == self.scroll_slot(child, self.scroll as int));
        assert(other.relaid_with(m, new));
    }

    /// A frame that lays the child out again when it reports a change, and
    /// then moves by momentum, is the frame that `settled_with` describes.
    pub proof fn lemma_settled(self, c: Widget, laid: ScrollView, new: ScrollView)
        requires
            c.pending_change() ==> self.updated_from(c.consumed(), laid),
            !c.pending_change() ==> *laid.widget == c && laid == (ScrollView { widget: laid.widget, ..self }),
            laid.moved_with(*laid.widget, new),
        ensures
            self.settled_with(c, new),
    {
        if !c.pending_change() {
            assert(self.momentum_applied() == (ScrollView {
                widget: self.widget,
                ..laid.momentum_applied()
            }));
        }
    }

    /// The rest of [`ScrollView::updated_from`], once the child was placed
    /// for the current offset and became `m`.
    pub open spec fn relaid_with(self, m: Widget, new: ScrollView) -> bool {
        let c = m.bounds().height;
        let s1 = min_int(self.scroll as int, max_scroll(c, self.rect.height));
        &&& if s1 == self.scroll {
            *new.widget == m
        } else {
            m.placed(*new.widget, self.scroll_slot(m, s1))
        }
        &&& new == (ScrollView {
            widget: new.widget,
            content_height: c,
            scroll: s1 as i64,
            ..self
        }).with_tracks()
    }

    /// `new` is this view after one frame of momentum with `child` as its
    /// child: the offset moves, and while scrolling the child follows it.
    pub open spec fn moved_with(self, child: Widget, new: ScrollView) -> bool {
        let m = self.momentum_applied();
        &&& if self.scrolling {
            child.placed(
                *new.widget,
                Rect { y: clamp_coord(self.rect.y - m.scroll / SCROLL_UNITS_PER_PIXEL), ..child.bounds() },
            )
        } else {
            *new.widget == child
        }
        &&& new == (ScrollView { widget: new.widget, ..m }).with_tracks()
    }

    /// `new` is this view after a frame in which its child became `child`:
    /// a child that reports a layout change is laid out again first; then
    /// momentum moves the offset and the child follows it.
    pub open spec fn settled_with(self, child: Widget, new: ScrollView) -> bool {
        if child.pending_change() {
            exists|u: ScrollView|
                #[trigger] self.updated_from(child.consumed(), u) && u.moved_with(*u.widget, new)
        } else {
            self.moved_with(child, new)
        }
    }

    pub open spec fn track_cmds(self) -> Seq<DrawCmd> {
        if self.scrollable() {
            seq![
                DrawCmd::FillRect(self.scroll_area_rect, self.area_color),
                DrawCmd::FillRect(
                    self.scroll_thumb_rect,
                    if self.thumb_hover {
                        self.thumb_hover_color
                    } else {
                        self.thumb_color
                    },
                ),
            ]
        } else {
            Seq::empty()
        }
    }
}

impl Widget {
    /// The widget's layout rectangle.
    pub open spec fn bounds(self) -> Rect {
        match self {
            Widget::Text(t) => t.rect,
            Widget::Button(b) => b.rect,
            Widget::Circle(c) => c.bounds(),
            Widget::List(l) => l.rect,
            Widget::ScrollView(s) => s.rect,
        }
    }

    /// Every scroll view in the tree keeps its offset within bounds.
    pub open spec fn wf(self) -> bool
        decreases self,
    {
        match self {
            Widget::ScrollView(s) => s.wf() && s.widget.wf(),
            Widget::List(l) => wf_each(l.widgets@),
            _ => true,
        }
    }

    /// Whether the widget has a layout change to report.
    pub open spec fn pending_change(self) -> bool {
        match self {
            Widget::List(l) => l.need_update,
            _ => false,
        }
    }

    /// The widget once its layout change was reported.
    pub open spec fn consumed(self) -> Widget {
        match self {
            Widget::List(l) => Widget::List(List { need_update: false, ..l }),
            _ => self,
        }
    }

    /// The widget given a culling viewport; only a list keeps it.
    pub open spec fn with_viewport(self, viewport: Rect) -> Widget {
        match self {
            Widget::List(l) => Widget::List(List { viewport, ..l }),
            _ => self,
        }
    }

    /// `new` is this widget given the bounds `r`. Leaves take them as they
    /// are (a circle centres on the corner); a list stacks its children
    /// from the new corner, takes their total as its height and is no longer
    /// stale; a scroll view clamps its offset to the new height.
    pub open spec fn placed(self, new: Widget, r: Rect) -> bool
        decreases self,
    {
        match self {
            Widget::Text(t) => new == Widget::Text(Text { rect: r, ..t }),
            Widget::Button(b) => new == Widget::Button(b.placed(r)),
            Widget::Circle(c) => new == Widget::Circle(Circle { x: r.x, y: r.y, ..c }),
            Widget::ScrollView(s) => new == Widget::ScrollView(s.placed_at(r)),
            Widget::List(l) => {
                &&& new matches Widget::List(nl)
                &&& stacked_from(l.widgets@, nl.widgets@, r.x, r.y)
                &&& nl.rect == Rect { height: clamp_extent(heights_sum(nl.widgets@)), ..r }
                &&& !nl.changed
                &&& nl.need_update == l.need_update
                &&& nl.viewport == l.viewport
            },
        }
    }

    /// `new` is this widget after one frame. A list advances its children,
    /// then redoes a stale stack at its own corner: its height becomes the
    /// total and its viewport its (capped) bounds.
    pub open spec fn ticked(self, new: Widget) -> bool
        decreases self,
    {
        match self {
            Widget::List(l) => {
                &&& new matches Widget::List(nl)
                &&& if l.changed {
                    &&& ticked_then_stacked(l.widgets@, nl.widgets@, l.rect.x, l.rect.y)
                    &&& nl.rect == Rect { height: clamp_extent(heights_sum(nl.widgets@)), ..l.rect }
                    &&& nl.viewport == capped_viewport(nl.rect)
                    &&& !nl.changed
                    &&& nl.need_update
                } else {
                    &&& children_ticked(l.widgets@, nl.widgets@)
                    &&& nl == List { widgets: nl.widgets, ..l }
                }
            },
            Widget::ScrollView(s) => {
                &&& new matches Widget::ScrollView(ns)
                &&& exists|c: Widget| s.widget.ticked(c) && #[trigger] s.settled_with(c, ns)
            },
            _ => new == self,
        }
    }

    /// `new` is this widget after handling `ev` in window `win`.
    pub open spec fn handled(self, new: Widget, ev: Event, win: u32) -> bool
        decreases self,
    {
        match self {
            Widget::Button(b) => new == Widget::Button(b.handled(ev, win).0),
            Widget::List(l) => {
                &&& new matches Widget::List(nl)
                &&& nl == List { widgets: nl.widgets, ..l }
                &&& children_handled(l.widgets@, nl.widgets@, ev, win)
            },
            Widget::ScrollView(s) => {
                &&& new matches Widget::ScrollView(ns)
                &&& ns == ScrollView { widget: ns.widget, ..s.reacted(ev, win) }
                &&& match s.forwarded(ev, win) {
                    Some(e) => s.widget.handled(*ns.widget, e, win),
                    None => *ns.widget == *s.widget,
                }
            },
            _ => new == self,
        }
    }

    /// What handling `ev` in window `win` yields.
    pub open spec fn action_of(self, ev: Event, win: u32) -> Action
        decreases self,
    {
        match self {
            Widget::Button(b) => b.handled(ev, win).1,
            Widget::List(l) => first_action(l.widgets@, ev, win),
            Widget::ScrollView(s) => match s.forwarded(ev, win) {
                Some(e) => s.widget.action_of(e, win),
                None => Action::NoOp,
            },
            _ => Action::NoOp,
        }
    }

    /// The commands that draw this widget.
    pub open spec fn render(self) -> Seq<DrawCmd>
        decreases self,
    {
        match self {
            Widget::Text(t) => seq![t.render()],
            Widget::Button(b) => b.render(),
            Widget::Circle(c) => seq![c.render()],
            Widget::List(l) => seq![DrawCmd::FillRect(l.rect, white())] + render_visible(
                l.widgets@,
                l.viewport,
            ),
            Widget::ScrollView(s) => seq![
                DrawCmd::FillRect(s.rect, white()),
                DrawCmd::SetClip(Some(s.rect)),
            ] + s.widget.render() + seq![DrawCmd::SetClip(None)] + s.track_cmds(),
        }
    }
}

impl Widget {
    pub fn get_rect(&self) -> (r: Rect)
        ensures
            r == self.bounds(),
    {
        match self {
            Widget::Text(t) => t.get_rect(),
            Widget::Button(b) => b.get_rect(),
            Widget::Circle(c) => c.get_rect(),
            Widget::List(l) => l.get_rect(),
            Widget::ScrollView(s) => s.get_rect(),
        }
    }

    /// Reports, once, a layout change that a parent must react to.
    pub fn has_changed(&mut self) -> (r: bool)
        ensures
            r == old(self).pending_change(),
            *final(self) == old(self).consumed(),
    {
        match self {
            Widget::List(l) => l.has_changed(),
            _ => false,
        }
    }

    /// A hint of which part of the widget is visible.
    pub fn give_viewport(&mut self, viewport: Rect)
        ensures
            *final(self) == old(self).with_viewport(viewport),
    {
        match self {
            Widget::List(l) => l.give_viewport(viewport),
            _ => {},
        }
    }

    pub fn set_rect(&mut self, r: Rect)
        requires
            old(self).wf(),
        ensures
            old(self).placed(*final(self), r),
            final(self).wf(),
        decreases *old(self),
    {
        match self {
            Widget::Text(t) => t.set_rect(r),
            Widget::Button(b) => b.set_rect(r),
            Widget::Circle(c) => c.set_rect(r),
            Widget::List(l) => {
                proof {
                    lemma_wf_each(l.widgets@);
                }
                l.set_rect(r);
                proof {
                    lemma_wf_each(l.widgets@);
                }
            },
            Widget::ScrollView(s) => {
                assert(s.wf() && s.widget.wf());
                s.set_rect(r);
            },
        }
        assert(final(self).wf());
    }
}

impl List {
    /// Takes the corner and width of `r` and stacks the children from that
    /// corner; the list's height becomes their total, and the stack is no
    /// longer stale.
    pub fn set_rect(&mut self, r: Rect)
        requires
            all_wf(old(self).widgets@),
        ensures
            Widget::List(*old(self)).placed(Widget::List(*final(self)), r),
            all_wf(final(self).widgets@),
        decreases *old(self),
    {
        let ghost olds = self.widgets@;
        let n = self.widgets.len();
        let mut acc: i64 = 0;
        let mut i: usize = 0;
        while i < n
            invariant
                n == olds.len(),
                self.widgets@.len() == n,
                0 <= i <= n,
                olds == old(self).widgets@,
                forall|j: int| i <= j < n ==> self.widgets@[j] == olds[j],
                stacked_from(olds.subrange(0, i as int), self.widgets@.subrange(0, i as int), r.x, r.y),
                all_wf(self.widgets@),
                acc == if heights_sum(self.widgets@.subrange(0, i as int)) > HEIGHT_SUM_CAP {
                    HEIGHT_SUM_CAP as int
                } else {
                    heights_sum(self.widgets@.subrange(0, i as int))
                },
                heights_sum(self.widgets@.subrange(0, i as int)) >= 0,
                self.rect == old(self).rect,
                self.need_update == old(self).need_update,
                self.viewport == old(self).viewport,
            decreases n - i,
        {
            let ghost prev = self.widgets@;
            let b = self.widgets[i].get_rect();
            let y = to_coord(r.y as i64 + acc);
            proof {
                assert(y == clamp_coord(r.y + heights_sum(prev.subrange(0, i as int))));
                assert(decreases_to!(old(self).widgets => old(self).widgets@));
                assert(decreases_to!(old(self).widgets@ => olds[i as int]));
            }
            self.widgets[i].set_rect(Rect::new(r.x, y, b.width, b.height));
            let h = self.widgets[i].get_rect().height;
            acc = if acc + h as i64 > HEIGHT_SUM_CAP {
                HEIGHT_SUM_CAP
            } else {
                acc + h as i64
            };
            proof {
                let news = self.widgets@;
                let k = i as int;
                lemma_child_step(olds, prev, news, k);
            }
            i += 1;
        }
        proof {
            assert(olds.subrange(0, n as int) =~= olds);
            assert(self.widgets@.subrange(0, n as int) =~= self.widgets@);
        }
        self.rect = Rect::new(r.x, r.y, r.width, to_extent(acc));
        self.changed = false;
    }
}

impl ScrollView {
    /// A view at `(x, y)` of the given size over `widget`, laid out as by
    /// [`ScrollView::update`], with the default friction.
    pub fn new(widget: Widget, x: i32, y: i32, width: u32, height: u32) -> (s: ScrollView)
        requires
            widget.wf(),
        ensures
            (ScrollView {
                widget: s.widget,
                rect: Rect { x, y, width, height },
                hover: false,
                scrolling: false,
                scroll: 0,
                scroll_acceleration: 0,
                content_height: s.content_height,
                friction: NORMAL_FRICTION,
                scroll_thumb_rect: s.scroll_thumb_rect,
                scroll_area_rect: s.scroll_area_rect,
                scroll_area_width: TRACK_WIDTH,
                drag_thumb: false,
                drag_offset: 0,
                thumb_color: Color { r: 0x80, g: 0x80, b: 0x80, a: 255 },
                area_color: Color { r: 0x60, g: 0x60, b: 0x60, a: 255 },
                thumb_hover_color: Color { r: 0xA0, g: 0xA0, b: 0xA0, a: 255 },
                thumb_hover: false,
            }).updated_from(widget, s),
            s.wf(),
            s.widget.wf(),
    {
        let mut s = ScrollView {
            widget: Box::new(widget),
            rect: Rect::new(x, y, width, height),
            hover: false,
            scrolling: false,
            scroll: 0,
            scroll_acceleration: 0,
            content_height: 0,
            friction: NORMAL_FRICTION,
            scroll_thumb_rect: Rect::new(0, 0, 0, 0),
            scroll_area_rect: Rect::new(0, 0, 0, 0),
            scroll_area_width: TRACK_WIDTH,
            drag_thumb: false,
            drag_offset: 0,
            thumb_color: Color::rgb(0x80, 0x80, 0x80),
            area_color: Color::rgb(0x60, 0x60, 0x60),
            thumb_hover_color: Color::rgb(0xA0, 0xA0, 0xA0),
            thumb_hover: false,
        };
        let ghost init = s;
        s.update();
        proof {
            init.lemma_updated_from_fields(
                ScrollView {
                    widget: s.widget,
                    rect: Rect { x, y, width, height },
                    hover: false,
                    scrolling: false,
                    scroll: 0,
                    scroll_acceleration: 0,
                    content_height: s.content_height,
                    friction: NORMAL_FRICTION,
                    scroll_thumb_rect: s.scroll_thumb_rect,
                    scroll_area_rect: s.scroll_area_rect,
                    scroll_area_width: TRACK_WIDTH,
                    drag_thumb: false,
                    drag_offset: 0,
                    thumb_color: Color { r: 0x80, g: 0x80, b: 0x80, a: 255 },
                    area_color: Color { r: 0x60, g: 0x60, b: 0x60, a: 255 },
                    thumb_hover_color: Color { r: 0xA0, g: 0xA0, b: 0xA0, a: 255 },
                    thumb_hover: false,
                },
                *init.widget,
                s,
            );
        }
        s
    }

    /// The same view with another friction, the percent of momentum kept
    /// per frame (`APPLE_FRICTION` suits macOS, `NORMAL_FRICTION` the rest).
    pub fn with_friction(self, friction: u32) -> (s: ScrollView)
        requires
            friction < 100,
        ensures
            s == (ScrollView { friction, ..self }),
    {
        let mut s = self;
        s.friction = friction;
        s
    }

    /// Lays the child out again: it gets the view's viewport and is placed
    /// for the current offset, the content height is read from it, and the
    /// offset is clamped to the new limit, the child following it. Momentum
    /// is kept.
    pub fn update(&mut self)
        requires
            old(self).wf(),
            old(self).widget.wf(),
        ensures
            old(self).updated_from(*old(self).widget, *final(self)),
            final(self).wf(),
            final(self).widget.wf(),
    {
        let viewport = Rect::new(
            self.rect.x,
            self.rect.y,
            self.rect.width,
            to_extent(self.rect.height as i64 + VIEWPORT_MARGIN as i64),
        );
        let b = self.widget.get_rect();
        self.widget.give_viewport(viewport);
        let y0 = to_coord(self.rect.y as i64 - self.scroll / SCROLL_UNITS_PER_PIXEL);
        self.widget.set_rect(Rect::new(self.rect.x, y0, b.width, b.height));
        let ghost m = *self.widget;
        assert(old(self).widget.with_viewport(old(self).child_viewport()).placed(
            m,
            old(self).scroll_slot(*old(self).widget, old(self).scroll as int),
        ));
        let content = self.widget.get_rect().height;
        let limit = scroll_limit_of(content, self.rect.height);
        if self.scroll > limit {
            let b1 = self.widget.get_rect();
            let y1 = to_coord(self.rect.y as i64 - limit / SCROLL_UNITS_PER_PIXEL);
            self.widget.set_rect(Rect::new(self.rect.x, y1, b1.width, b1.height));
            self.scroll = limit;
        }
        self.content_height = content;
        self.refresh_tracks();
        assert(old(self).relaid_with(m, *self));
    }
}

impl Widget {
    /// Handles one event seen by window `win`; returns what it yields.
    pub fn event(&mut self, ev: Event, win: u32) -> (a: Action)
        requires
            old(self).wf(),
        ensures
            old(self).handled(*final(self), ev, win),
            a == old(self).action_of(ev, win),
            final(self).wf(),
        decreases *old(self),
    {
        match self {
            Widget::Button(b) => b.event(ev, win),
            Widget::List(l) => {
                proof {
                    lemma_wf_each(l.widgets@);
                }
                let a = l.event(ev, win);
                proof {
                    lemma_wf_each(l.widgets@);
                }
                a
            },
            Widget::ScrollView(s) => s.event(ev, win),
            _ => Action::NoOp,
        }
    }

    /// Advances one frame: stale layouts are redone, scroll momentum moves.
    pub fn tick(&mut self)
        requires
            old(self).wf(),
        ensures
            old(self).ticked(*final(self)),
            final(self).wf(),
        decreases *old(self),
    {
        match self {
            Widget::List(l) => {
                proof {
                    lemma_wf_each(l.widgets@);
                }
                l.tick();
                proof {
                    lemma_wf_each(l.widgets@);
                }
            },
            Widget::ScrollView(s) => s.tick(),
            _ => {},
        }
    }

    /// Appends the commands that draw this widget.
    pub fn draw(&self, out: &mut Vec<DrawCmd>)
        ensures
            final(out)@ == old(out)@ + self.render(),
        decreases self,
    {
        match self {
            Widget::Text(t) => t.draw(out),
            Widget::Button(b) => b.draw(out),
            Widget::Circle(c) => c.draw(out),
            Widget::List(l) => l.draw(out),
            Widget::ScrollView(s) => s.draw(out),
        }
    }
}

impl List {
    /// Hands `ev` to every child in order; returns the first action that is
    /// not a no-op.
    pub fn event(&mut self, ev: Event, win: u32) -> (a: Action)
        requires
            all_wf(old(self).widgets@),
        ensures
            Widget::List(*old(self)).handled(Widget::List(*final(self)), ev, win),
            a == first_action(old(self).widgets@, ev, win),
            all_wf(final(self).widgets@),
        decreases *old(self),
    {
        let ghost olds = self.widgets@;
        let n = self.widgets.len();
        let mut a = Action::NoOp;
        let mut i: usize = 0;
        while i < n
            invariant
                n == olds.len(),
                self.widgets@.len() == n,
                0 <= i <= n,
                olds == old(self).widgets@,
                forall|j: int| i <= j < n ==> self.widgets@[j] == olds[j],
                children_handled(olds.subrange(0, i as int), self.widgets@.subrange(0, i as int), ev, win),
                a == first_action(olds.subrange(0, i as int), ev, win),
                all_wf(self.widgets@),
                self.rect == old(self).rect,
                self.changed == old(self).changed,
                self.need_update == old(self).need_update,
                self.viewport == old(self).viewport,
            decreases n - i,
        {
            let ghost prev = self.widgets@;
            proof {
                assert(decreases_to!(old(self).widgets => old(self).widgets@));
                assert(decreases_to!(old(self).widgets@ => olds[i as int]));
            }
            let b = self.widgets[i].event(ev, win);
            if a.is_none() {
                a = b;
            }
            proof {
                let news = self.widgets@;
                let k = i as int;
                lemma_child_step(olds, prev, news, k);
            }
            i += 1;
        }
        proof {
            assert(olds.subrange(0, n as int) =~= olds);
            assert(self.widgets@.subrange(0, n as int) =~= self.widgets@);
        }
        a
    }

    /// Advances every child one frame, then redoes a stale stack: the list's
    /// height becomes the total and the viewport its capped bounds.
    pub fn tick(&mut self)
        requires
            all_wf(old(self).widgets@),
        ensures
            Widget::List(*old(self)).ticked(Widget::List(*final(self))),
            all_wf(final(self).widgets@),
        decreases *old(self),
    {
        let ghost olds = self.widgets@;
        let n = self.widgets.len();
        let mut i: usize = 0;
        while i < n
            invariant
                n == olds.len(),
                self.widgets@.len() == n,
                0 <= i <= n,
                olds == old(self).widgets@,
                forall|j: int| i <= j < n ==> self.widgets@[j] == olds[j],
                children_ticked(olds.subrange(0, i as int), self.widgets@.subrange(0, i as int)),
                all_wf(self.widgets@),
                self.rect == old(self).rect,
                self.changed == old(self).changed,
                self.need_update == old(self).need_update,
                self.viewport == old(self).viewport,
            decreases n - i,
        {
            let ghost prev = self.widgets@;
            proof {
                assert(decreases_to!(old(self).widgets => old(self).widgets@));
                assert(decreases_to!(old(self).widgets@ => olds[i as int]));
            }
            self.widgets[i].tick();
            proof {
                let news = self.widgets@;
                let k = i as int;
                lemma_child_step(olds, prev, news, k);
            }
            i += 1;
        }
        proof {
            assert(olds.subrange(0, n as int) =~= olds);
            assert(self.widgets@.subrange(0, n as int) =~= self.widgets@);
        }
        let ghost mids = self.widgets@;
        if self.changed {
            let r = self.rect;
            self.set_rect(r);
            self.viewport = cap_viewport(self.rect);
            self.changed = false;
            self.need_update = true;
            proof {
                lemma_ticked_then_stacked(olds, mids, self.widgets@, r.x, r.y);
            }
        }
    }

    /// The background, then each child with a left corner in the viewport.
    pub fn draw(&self, out: &mut Vec<DrawCmd>)
        ensures
            final(out)@ == old(out)@ + Widget::List(*self).render(),
        decreases self,
    {
        out.push(DrawCmd::FillRect(self.rect, Color::white()));
        let ghost start = out@;
        let n = self.widgets.len();
        let mut i: usize = 0;
        while i < n
            invariant
                n == self.widgets@.len(),
                0 <= i <= n,
                out@ == start + render_visible(self.widgets@.subrange(0, i as int), self.viewport),
            decreases n - i,
        {
            let b = self.widgets[i].get_rect();
            proof {
                assert(decreases_to!(self.widgets => self.widgets@));
                assert(decreases_to!(self.widgets@ => self.widgets@[i as int]));
                let k = i as int;
                assert(self.widgets@.subrange(0, k + 1).subrange(0, k) =~= self.widgets@.subrange(0, k));
                assert(self.widgets@.subrange(0, k + 1)[k] == self.widgets@[k]);
            }
            if self.viewport.holds_left_corner_of(&b) {
                self.widgets[i].draw(out);
            }
            proof {
                assert(out@ =~= start + render_visible(self.widgets@.subrange(0, i as int + 1), self.viewport));
            }
            i += 1;
        }
        proof {
            assert(self.widgets@.subrange(0, n as int) =~= self.widgets@);
            assert(out@ =~= old(out)@ + Widget::List(*self).render());
        }
    }
}

impl ScrollView {
    /// Updates the view's own state for `ev`, then hands the child the
    /// event it should see; returns the child's action.
    pub fn event(&mut self, ev: Event, win: u32) -> (a: Action)
        requires
            old(self).wf(),
            old(self).widget.wf(),
        ensures
            Widget::ScrollView(*old(self)).handled(Widget::ScrollView(*final(self)), ev, win),
            a == Widget::ScrollView(*old(self)).action_of(ev, win),
            final(self).wf(),
            final(self).widget.wf(),
        decreases *old(self),
    {
        let fwd = self.forward(ev, win);
        self.react(ev, win);
        match fwd {
            Some(e) => self.widget.event(e, win),
            None => Action::NoOp,
        }
    }

    /// One frame of momentum: the offset moves, and while scrolling the
    /// child follows it.
    fn advance(&mut self)
        requires
            old(self).wf(),
            old(self).widget.wf(),
        ensures
            old(self).moved_with(*old(self).widget, *final(self)),
            final(self).wf(),
            final(self).widget.wf(),
    {
        let was_scrolling = self.scrolling;
        self.apply_momentum();
        if was_scrolling {
            let b = self.widget.get_rect();
            let y = to_coord(self.rect.y as i64 - self.scroll / SCROLL_UNITS_PER_PIXEL);
            self.widget.set_rect(Rect::new(b.x, y, b.width, b.height));
        }
        self.refresh_tracks();
    }

    /// Advances one frame: the child first; a child that reports a layout
    /// change is laid out again; then momentum moves the offset and the
    /// child follows.
    pub fn tick(&mut self)
        requires
            old(self).wf(),
            old(self).widget.wf(),
        ensures
            Widget::ScrollView(*old(self)).ticked(Widget::ScrollView(*final(self))),
            final(self).wf(),
            final(self).widget.wf(),
        decreases *old(self),
    {
        self.widget.tick();
        let ghost c = *self.widget;
        let changed = self.widget.has_changed();
        if changed {
            let ghost before = *self;
            self.update();
            proof {
                before.lemma_updated_from_fields(*old(self), c.consumed(), *self);
            }
        }
        let ghost laid = *self;
        assert(changed ==> old(self).updated_from(c.consumed(), laid));
        assert(!changed ==> *laid.widget == c);
        assert(!changed ==> laid == ScrollView { widget: laid.widget, ..*old(self) });
        self.advance();
        proof {
            old(self).lemma_settled(c, laid, *self);
        }
        assert(old(self).widget.ticked(c));
        assert(old(self).settled_with(c, *self));
    }

    /// The background, the child clipped to the view, then the scrollbar
    /// when the content does not fit.
    pub fn draw(&self, out: &mut Vec<DrawCmd>)
        ensures
            final(out)@ == old(out)@ + Widget::ScrollView(*self).render(),
        decreases self,
    {
        out.push(DrawCmd::FillRect(self.rect, Color::white()));
        out.push(DrawCmd::SetClip(Some(self.rect)));
        self.widget.draw(out);
        out.push(DrawCmd::SetClip(None));
        if self.content_height > self.rect.height {
            out.push(DrawCmd::FillRect(self.scroll_area_rect, self.area_color));
            out.push(
                DrawCmd::FillRect(
                    self.scroll_thumb_rect,
                    if self.thumb_hover {
                        self.thumb_hover_color
                    } else {
                        self.thumb_color
                    },
                ),
            );
        }
        proof {
            assert(out@ =~= old(out)@ + Widget::ScrollView(*self).render());
        }
    }
}

/// A widget placed at `r` reports the corner of `r` as its own.
pub proof fn lemma_placed_corner(w: Widget, new: Widget, r: Rect)
    requires
        w.placed(new, r),
    ensures
        new.bounds().x == r.x,
        new.bounds().y == r.y,
{
}

/// Each child of a stack is placed in its slot.
pub proof fn lemma_stacked_index(olds: Seq<Widget>, news: Seq<Widget>, x: i32, y: i32, i: int)
    requires
        stacked_from(olds, news, x, y),
        0 <= i < olds.len(),
    ensures
        olds[i].placed(news[i], stack_slot(olds[i], x, y, news.subrange(0, i))),
    decreases olds.len(),
{
    let n = olds.len() - 1;
    if i < n {
        let po = olds.subrange(0, n);
        let pn = news.subrange(0, n);
        lemma_stacked_index(po, pn, x, y, i);
        assert(po[i] == olds[i]);
        assert(pn[i] == news[i]);
        assert(pn.subrange(0, i) =~= news.subrange(0, i));
    }
}

/// Heights are never negative, so a prefix sums to at most the whole.
pub proof fn lemma_heights_prefix(s: Seq<Widget>, i: int)
    requires
        0 <= i <= s.len(),
    ensures
        0 <= heights_sum(s.subrange(0, i)) <= heights_sum(s),
    decreases s.len(),
{
    if s.len() > 0 {
        let p = s.subrange(0, s.len() - 1);
        if i == s.len() {
            assert(s.subrange(0, i) =~= s);
            lemma_heights_prefix(p, p.len() as int);
            assert(p.subrange(0, p.len() as int) =~= p);
        } else {
            lemma_heights_prefix(p, i);
            assert(p.subrange(0, i) =~= s.subrange(0, i));
        }
    }
}

/// Layout of a list: after a layout pass at `r` whose total fits the
/// coordinate range, the list is as tall as its children together, and
/// child `i` sits at the list's x and at the list's y plus the heights of
/// the children before it.
pub proof fn list_layout_stacks_children(l: List, nl: List, r: Rect)
    requires
        Widget::List(l).placed(Widget::List(nl), r),
        r.y + heights_sum(nl.widgets@) <= COORD_MAX,
    ensures
        nl.rect.height == heights_sum(nl.widgets@),
        forall|i: int|
            0 <= i < nl.widgets@.len() ==> (#[trigger] nl.widgets@[i]).bounds().x == r.x
                && nl.widgets@[i].bounds().y == r.y + heights_sum(nl.widgets@.subrange(0, i)),
{
    let news = nl.widgets@;
    lemma_heights_prefix(news, 0);
    assert(news.subrange(0, 0) =~= Seq::<Widget>::empty());
    assert forall|i: int| 0 <= i < news.len() implies (#[trigger] news[i]).bounds().x == r.x
        && news[i].bounds().y == r.y + heights_sum(news.subrange(0, i)) by {
        lemma_stacked_index(l.widgets@, news, r.x, r.y, i);
        lemma_placed_corner(l.widgets@[i], news[i], stack_slot(l.widgets@[i], r.x, r.y, news.subrange(0, i)));
        lemma_heights_prefix(news, i);
    }
}

/// Every widget of `s` is at rest.
pub open spec fn rest_each(s: Seq<Widget>) -> bool
    decreases s,
{
    s.len() > 0 ==> rest_each(s.subrange(0, s.len() - 1)) && s[s.len() - 1].at_rest()
}

impl Widget {
    /// Nothing moves on the next frame: no stale stack, no scroll momentum,
    /// no unreported layout change under a scroll view, and scrollbars drawn
    /// where they belong.
    pub open spec fn at_rest(self) -> bool
        decreases self,
    {
        match self {
            Widget::List(l) => !l.changed && rest_each(l.widgets@),
            Widget::ScrollView(s) => {
                &&& !s.scrolling
                &&& !s.widget.pending_change()
                &&& s.widget.at_rest()
                &&& s == s.with_tracks()
            },
            _ => true,
        }
    }
}

/// Each child of a stack laid out after a frame sits in its slot.
pub proof fn lemma_ticked_then_stacked_index(olds: Seq<Widget>, news: Seq<Widget>, x: i32, y: i32, i: int)
    requires
        ticked_then_stacked(olds, news, x, y),
        0 <= i < olds.len(),
    ensures
        news[i].bounds().x == x,
        news[i].bounds().y == clamp_coord(y + heights_sum(news.subrange(0, i))),
    decreases olds.len(),
{
    let n = olds.len() - 1;
    if i < n {
        let po = olds.subrange(0, n);
        let pn = news.subrange(0, n);
        lemma_ticked_then_stacked_index(po, pn, x, y, i);
        assert(pn[i] == news[i]);
        assert(pn.subrange(0, i) =~= news.subrange(0, i));
    } else {
        let m = choose|m: Widget|
            olds[n].ticked(m) && #[trigger] m.placed(news[n], stack_slot(m, x, y, news.subrange(0, n)));
        lemma_placed_corner(m, news[n], stack_slot(m, x, y, news.subrange(0, n)));
    }
}

/// Layout of a stale list on a frame: once the frame has redone the stack,
/// and its total fits the coordinate range, the list is as tall as its
/// children together, and child `i` sits at the list's x and at the list's
/// y plus the heights of the children before it.
pub proof fn list_frame_stacks_children(l: List, nl: List)
    requires
        l.changed,
        Widget::List(l).ticked(Widget::List(nl)),
        l.rect.y + heights_sum(nl.widgets@) <= COORD_MAX,
    ensures
        nl.rect.height == heights_sum(nl.widgets@),
        forall|i: int|
            0 <= i < nl.widgets@.len() ==> (#[trigger] nl.widgets@[i]).bounds().x == l.rect.x
                && nl.widgets@[i].bounds().y == l.rect.y + heights_sum(nl.widgets@.subrange(0, i)),
{
    let news = nl.widgets@;
    lemma_heights_prefix(news, 0);
    assert(news.subrange(0, 0) =~= Seq::<Widget>::empty());
    assert(ticked_then_stacked(l.widgets@, news, l.rect.x, l.rect.y));
    assert(l.widgets@.len() == news.len());
    assert forall|i: int| 0 <= i < news.len() implies (#[trigger] news[i]).bounds().x == l.rect.x
        && news[i].bounds().y == l.rect.y + heights_sum(news.subrange(0, i)) by {
        lemma_ticked_then_stacked_index(l.widgets@, news, l.rect.x, l.rect.y, i);
        lemma_heights_prefix(news, i);
    }
}

/// A frame changes nothing that is drawn in a widget at rest, and leaves it
/// at rest.
pub proof fn lemma_rest_tick(w: Widget, new: Widget)
    requires
        w.at_rest(),
        w.ticked(new),
    ensures
        new.at_rest(),
        new.render() == w.render(),
        new.bounds() == w.bounds(),
        new.pending_change() == w.pending_change(),
    decreases w,
{
    match w {
        Widget::List(l) => {
            let nl = new->List_0;
            lemma_rest_tick_each(l.widgets@, nl.widgets@, l.viewport);
        },
        Widget::ScrollView(s) => {
            let ns = new->ScrollView_0;
            let c = choose|c: Widget| s.widget.ticked(c) && #[trigger] s.settled_with(c, ns);
            lemma_rest_tick(*s.widget, c);
            assert(ns == ScrollView { widget: ns.widget, ..s });
        },
        _ => {},
    }
}

/// [`lemma_rest_tick`] for each child of a list.
pub proof fn lemma_rest_tick_each(olds: Seq<Widget>, news: Seq<Widget>, viewport: Rect)
    requires
        rest_each(olds),
        children_ticked(olds, news),
    ensures
        rest_each(news),
        render_visible(news, viewport) == render_visible(olds, viewport),
    decreases olds,
{
    if olds.len() > 0 {
        let n = olds.len() - 1;
        lemma_rest_tick_each(olds.subrange(0, n), news.subrange(0, n), viewport);
        lemma_rest_tick(olds[n], news[n]);
    }
}

/// Every widget of `s` is settled.
pub open spec fn settled_each(s: Seq<Widget>) -> bool
    decreases s,
{
    s.len() > 0 ==> settled_each(s.subrange(0, s.len() - 1)) && s[s.len() - 1].settled()
}

impl Widget {
    /// The widget's height is what a layout pass gives it: every list in it
    /// is as tall as its children together.
    pub open spec fn settled(self) -> bool
        decreases self,
    {
        match self {
            Widget::List(l) => l.rect.height == clamp_extent(heights_sum(l.widgets@)) && settled_each(
                l.widgets@,
            ),
            _ => true,
        }
    }
}

/// Placing a settled widget at its own height keeps that height.
pub proof fn lemma_placed_settled(w: Widget, new: Widget, r: Rect)
    requires
        w.placed(new, r),
        w.settled(),
        r.height == w.bounds().height,
    ensures
        new.bounds().height == w.bounds().height,
        new.settled(),
    decreases w,
{
    if let Widget::List(l) = w {
        let nl = new->List_0;
        lemma_stacked_settled(l.widgets@, nl.widgets@, r.x, r.y);
    }
}

/// Stacking settled children keeps each child's height.
pub proof fn lemma_stacked_settled(olds: Seq<Widget>, news: Seq<Widget>, x: i32, y: i32)
    requires
        stacked_from(olds, news, x, y),
        settled_each(olds),
    ensures
        settled_each(news),
        heights_sum(news) == heights_sum(olds),
        forall|i: int| 0 <= i < olds.len() ==> #[trigger] news[i].bounds().height == olds[i].bounds().height,
    decreases olds,
{
    if olds.len() > 0 {
        let n = olds.len() - 1;
        let po = olds.subrange(0, n);
        let pn = news.subrange(0, n);
        lemma_stacked_settled(po, pn, x, y);
        lemma_placed_settled(olds[n], news[n], stack_slot(olds[n], x, y, pn));
        assert forall|i: int| 0 <= i < olds.len() implies #[trigger] news[i].bounds().height
            == olds[i].bounds().height by {
            if i < n {
                assert(po[i] == olds[i]);
                assert(pn[i] == news[i]);
            }
        }
    }
}

/// Sequences of equal length whose widgets have equal heights have equal
/// height sums.
pub proof fn lemma_heights_sum_equal(a: Seq<Widget>, b: Seq<Widget>)
    requires
        a.len() == b.len(),
        forall|i: int| 0 <= i < a.len() ==> #[trigger] a[i].bounds().height == b[i].bounds().height,
    ensures
        heights_sum(a) == heights_sum(b),
    decreases a.len(),
{
    if a.len() > 0 {
        let n = a.len() - 1;
        let pa = a.subrange(0, n);
        let pb = b.subrange(0, n);
        assert forall|i: int| 0 <= i < pa.len() implies #[trigger] pa[i].bounds().height
            == pb[i].bounds().height by {
            assert(pa[i] == a[i]);
            assert(pb[i] == b[i]);
        }
        lemma_heights_sum_equal(pa, pb);
    }
}

/// Layout of a list over the heights its children have before the pass:
/// when every child is settled (a leaf, or a list as tall as its children
/// together) and the total fits the coordinate range, a layout pass at `r`
/// makes the list as tall as the children's heights `h_0 .. h_{n-1}`
/// together, and puts child `i` at `r.x` and at `r.y + h_0 + .. + h_{i-1}`.
pub proof fn list_layout_uses_children_heights(l: List, nl: List, r: Rect)
    requires
        Widget::List(l).placed(Widget::List(nl), r),
        settled_each(l.widgets@),
        r.y + heights_sum(l.widgets@) <= COORD_MAX,
    ensures
        nl.rect.height == heights_sum(l.widgets@),
        nl.widgets@.len() == l.widgets@.len(),
        forall|i: int|
            0 <= i < nl.widgets@.len() ==> (#[trigger] nl.widgets@[i]).bounds().x == r.x
                && nl.widgets@[i].bounds().y == r.y + heights_sum(l.widgets@.subrange(0, i))
                && nl.widgets@[i].bounds().height == l.widgets@[i].bounds().height,
{
    let olds = l.widgets@;
    let news = nl.widgets@;
    lemma_stacked_settled(olds, news, r.x, r.y);
    list_layout_stacks_children(l, nl, r);
    assert forall|i: int| 0 <= i < news.len() implies (#[trigger] news[i]).bounds().x == r.x
        && news[i].bounds().y == r.y + heights_sum(olds.subrange(0, i))
        && news[i].bounds().height == olds[i].bounds().height by {
        let pa = news.subrange(0, i);
        let pb = olds.subrange(0, i);
        assert forall|j: int| 0 <= j < pa.len() implies #[trigger] pa[j].bounds().height
            == pb[j].bounds().height by {
            assert(pa[j] == news[j]);
            assert(pb[j] == olds[j]);
        }
        lemma_heights_sum_equal(pa, pb);
    }
}

/// A widget ignores events that are not input: it yields no action, keeps
/// its bounds and draws as before; anything but a list stays exactly as it
/// was.
pub proof fn lemma_ignores_non_input(w: Widget, new: Widget, ev: Event, win: u32)
    requires
        !ev.is_input(),
        w.handled(new, ev, win),
    ensures
        w.action_of(ev, win) is NoOp,
        new.render() == w.render(),
        new.bounds() == w.bounds(),
        !(w is List) ==> new == w,
    decreases w,
{
    if let Widget::List(l) = w {
        let nl = new->List_0;
        lemma_ignores_non_input_each(l.widgets@, nl.widgets@, ev, win, l.viewport);
    }
}

/// [`lemma_ignores_non_input`] for each child of a list.
pub proof fn lemma_ignores_non_input_each(olds: Seq<Widget>, news: Seq<Widget>, ev: Event, win: u32, viewport: Rect)
    requires
        !ev.is_input(),
        children_handled(olds, news, ev, win),
    ensures
        first_action(olds, ev, win) is NoOp,
        render_visible(news, viewport) == render_visible(olds, viewport),
        forall|i: int| 0 <= i < olds.len() ==> #[trigger] news[i].render() == olds[i].render(),
        forall|i: int| 0 <= i < olds.len() ==> #[trigger] news[i].bounds() == olds[i].bounds(),
    decreases olds,
{
    if olds.len() > 0 {
        let n = olds.len() - 1;
        let po = olds.subrange(0, n);
        let pn = news.subrange(0, n);
        lemma_ignores_non_input_each(po, pn, ev, win, viewport);
        lemma_ignores_non_input(olds[n], news[n], ev, win);
        assert forall|i: int| 0 <= i < olds.len() implies #[trigger] news[i].render() == olds[i].render() by {
            if i < n {
                assert(po[i] == olds[i]);
                assert(pn[i] == news[i]);
            }
        }
        assert forall|i: int| 0 <= i < olds.len() implies #[trigger] news[i].bounds() == olds[i].bounds() by {
            if i < n {
                assert(po[i] == olds[i]);
                assert(pn[i] == news[i]);
            }
        }
    }
}

impl Widget {
    /// A widget without children.
    pub open spec fn is_leaf(self) -> bool {
        !(self is List) && !(self is ScrollView)
    }
}

/// The momentum state of a scroll view.
pub open spec fn momentum_of(s: ScrollView) -> (int, int, bool) {
    (s.scroll as int, s.scroll_acceleration as int, s.scrolling)
}

/// A frame of a well-formed scroll view over a leaf is one momentum step;
/// the view stays well formed over a leaf, with the same bounds, content
/// height and friction.
pub proof fn lemma_tick_is_momentum_step(s: ScrollView, next: ScrollView)
    requires
        s.wf(),
        s.widget.is_leaf(),
        Widget::ScrollView(s).ticked(Widget::ScrollView(next)),
    ensures
        momentum_of(next) == momentum_step(
            s.scroll as int,
            s.scroll_acceleration as int,
            s.scrolling,
            s.scroll_limit(),
            s.friction as int,
        ),
        next.wf(),
        next.widget.is_leaf(),
        next.rect == s.rect,
        next.content_height == s.content_height,
        next.friction == s.friction,
{
    let c = choose|c: Widget| s.widget.ticked(c) && #[trigger] s.settled_with(c, next);
    assert(c == *s.widget);
    lemma_scroll_step_wf(s, None, 0);
    let m = s.momentum_applied();
    assert(m.wf());
    assert(next == (ScrollView { widget: next.widget, ..m }).with_tracks());
}

proof fn lemma_momentum_frames_last(scroll: int, acc: int, scrolling: bool, limit: int, friction: int, n: nat)
    ensures
        ({
            let p = momentum_frames(scroll, acc, scrolling, limit, friction, n);
            momentum_frames(scroll, acc, scrolling, limit, friction, (n + 1) as nat) == momentum_step(
                p.0,
                p.1,
                p.2,
                limit,
                friction,
            )
        }),
    decreases n,
{
    let m = momentum_step(scroll, acc, scrolling, limit, friction);
    assert(momentum_frames(scroll, acc, scrolling, limit, friction, (n + 1) as nat)
        == momentum_frames(m.0, m.1, m.2, limit, friction, n));
    if n > 0 {
        lemma_momentum_frames_last(m.0, m.1, m.2, limit, friction, (n - 1) as nat);
        assert(momentum_frames(scroll, acc, scrolling, limit, friction, n)
            == momentum_frames(m.0, m.1, m.2, limit, friction, (n - 1) as nat));
    } else {
        assert(momentum_frames(m.0, m.1, m.2, limit, friction, 0) == m);
    }
}

proof fn lemma_ticks_follow_momentum(frames: Seq<ScrollView>, k: int)
    requires
        0 <= k < frames.len(),
        frames[0].wf(),
        frames[0].widget.is_leaf(),
        forall|j: int|
            0 <= j < frames.len() - 1 ==> Widget::ScrollView(frames[j]).ticked(
                Widget::ScrollView(#[trigger] frames[j + 1]),
            ),
    ensures
        momentum_of(frames[k]) == momentum_frames(
            frames[0].scroll as int,
            frames[0].scroll_acceleration as int,
            frames[0].scrolling,
            frames[0].scroll_limit(),
            frames[0].friction as int,
            k as nat,
        ),
        frames[k].wf(),
        frames[k].widget.is_leaf(),
        frames[k].rect == frames[0].rect,
        frames[k].content_height == frames[0].content_height,
        frames[k].friction == frames[0].friction,
    decreases k,
{
    if k > 0 {
        lemma_ticks_follow_momentum(frames, k - 1);
        let f = frames[0];
        lemma_momentum_frames_last(
            f.scroll as int,
            f.scroll_acceleration as int,
            f.scrolling,
            f.scroll_limit(),
            f.friction as int,
            (k - 1) as nat,
        );
        lemma_tick_is_momentum_step(frames[k - 1], frames[k]);
    }
}

/// Momentum decay over frames: in a run of frames of a well-formed scroll
/// view over a leaf, with no events between them, momentum of at most
/// `bound` is exactly zero and scrolling has stopped after
/// `frames_to_rest(bound, friction)` frames.
pub proof fn ticks_come_to_rest(frames: Seq<ScrollView>, bound: nat)
    requires
        frames.len() > frames_to_rest(bound, frames[0].friction as nat),
        frames[0].wf(),
        frames[0].widget.is_leaf(),
        abs(frames[0].scroll_acceleration as int) <= bound,
        forall|j: int|
            0 <= j < frames.len() - 1 ==> Widget::ScrollView(frames[j]).ticked(
                Widget::ScrollView(#[trigger] frames[j + 1]),
            ),
    ensures
        frames[frames_to_rest(bound, frames[0].friction as nat) as int].scroll_acceleration == 0,
        !frames[frames_to_rest(bound, frames[0].friction as nat) as int].scrolling,
{
    let f = frames[0];
    let n = frames_to_rest(bound, f.friction as nat);
    lemma_ticks_follow_momentum(frames, n as int);
    momentum_comes_to_rest(
        f.scroll as int,
        f.scroll_acceleration as int,
        f.scrolling,
        f.scroll_limit(),
        f.friction as nat,
        bound,
    );
}

} // verus!
