//! Windows and the set of open windows: event dispatch, redraw, and window
//! lifecycle.
use vstd::prelude::*;
use crate::draw::DrawCmd;
use crate::event::{Action, Event, WindowRequest};
use crate::style::Color;
use crate::widget::{
    all_wf, children_handled, children_ticked, lemma_child_step, lemma_ignores_non_input, lemma_rest_tick,
    rest_each, Widget,
};

verus! {

/// The actions other than no-ops that the widgets of `s` yield for `ev`, in
/// order.
pub open spec fn actions_of(s: Seq<Widget>, ev: Event, win: u32) -> Seq<Action>
    decreases s.len(),
{
    if s.len() == 0 {
        Seq::empty()
    } else {
        let a = s[s.len() - 1].action_of(ev, win);
        actions_of(s.subrange(0, s.len() - 1), ev, win) + if a is NoOp {
            Seq::empty()
        } else {
            seq![a]
        }
    }
}

/// The commands of every widget of `s`, in order: later widgets draw over
/// earlier ones.
pub open spec fn render_all(s: Seq<Widget>) -> Seq<DrawCmd>
    decreases s.len(),
{
    if s.len() == 0 {
        Seq::empty()
    } else {
        render_all(s.subrange(0, s.len() - 1)) + s[s.len() - 1].render()
    }
}

/// A window: its identifier, the slot it was requested for, whether it is
/// active, and its top-level widgets.
#[derive(Debug)]
pub struct MyWindow {
    pub id: u32,
    pub slot: u32,
    pub active: bool,
    pub widgets: Vec<Widget>,
}

impl MyWindow {
    pub fn new(id: u32, slot: u32, active: bool) -> (w: MyWindow)
        ensures
            w.id == id,
            w.slot == slot,
            w.active == active,
            w.widgets@.len() == 0,
    {
        MyWindow { id, slot, active, widgets: Vec::new() }
    }

    /// The window opened for `req`, with identifier `id`.
    pub fn from_request(req: &WindowRequest, id: u32, widgets: Vec<Widget>) -> (w: MyWindow)
        ensures
            w == (MyWindow { id, slot: req.slot, active: true, widgets }),
    {
        MyWindow { id, slot: req.slot, active: true, widgets }
    }

    pub open spec fn wf(self) -> bool {
        all_wf(self.widgets@)
    }

    pub fn get_id(&self) -> (r: u32)
        ensures
            r == self.id,
    {
        self.id
    }

    pub fn is_active(&self) -> (r: bool)
        ensures
            r == self.active,
    {
        self.active
    }

    pub fn set_active(&mut self, active: bool)
        ensures
            *final(self) == (MyWindow { active, ..*old(self) }),
    {
        self.active = active;
    }

    pub fn add_widget(&mut self, widget: Widget)
        requires
            old(self).wf(),
            widget.wf(),
        ensures
            final(self).widgets@ == old(self).widgets@.push(widget),
            final(self).id == old(self).id,
            final(self).slot == old(self).slot,
            final(self).active == old(self).active,
            final(self).wf(),
    {
        self.widgets.push(widget);
        assert forall|i: int| 0 <= i < self.widgets@.len() implies #[trigger] self.widgets@[i].wf() by {
            if i < old(self).widgets@.len() {
                assert(self.widgets@[i] == old(self).widgets@[i]);
            }
        }
    }

    /// Hands `ev` to every widget in order; returns the actions that are
    /// not no-ops, in order.
    pub fn event(&mut self, ev: Event) -> (r: Vec<Action>)
        requires
            old(self).wf(),
        ensures
            children_handled(old(self).widgets@, final(self).widgets@, ev, old(self).id),
            r@ == actions_of(old(self).widgets@, ev, old(self).id),
            final(self).id == old(self).id,
            final(self).slot == old(self).slot,
            final(self).active == old(self).active,
            final(self).wf(),
    {
        let ghost olds = self.widgets@;
        let id = self.id;
        let n = self.widgets.len();
        let mut actions: Vec<Action> = Vec::new();
        let mut i: usize = 0;
        while i < n
            invariant
                n == olds.len(),
                self.widgets@.len() == n,
                0 <= i <= n,
                olds == old(self).widgets@,
                id == old(self).id,
                forall|j: int| i <= j < n ==> self.widgets@[j] == olds[j],
                children_handled(olds.subrange(0, i as int), self.widgets@.subrange(0, i as int), ev, id),
                actions@ == actions_of(olds.subrange(0, i as int), ev, id),
                all_wf(self.widgets@),
                self.id == old(self).id,
                self.slot == old(self).slot,
                self.active == old(self).active,
            decreases n - i,
        {
            let ghost prev = self.widgets@;
            let a = self.widgets[i].event(ev, id);
            if !a.is_none() {
                actions.push(a);
            }
            proof {
                let news = self.widgets@;
                let k = i as int;
                lemma_child_step(olds, prev, news, k);
                assert(actions@ =~= actions_of(olds.subrange(0, k + 1), ev, id));
            }
            i += 1;
        }
        proof {
            assert(olds.subrange(0, n as int) =~= olds);
            assert(self.widgets@.subrange(0, n as int) =~= self.widgets@);
        }
        actions
    }

    /// The frame: the surface cleared to black, every widget in insertion
    /// order, then presented.
    pub open spec fn frame(self) -> Seq<DrawCmd> {
        seq![DrawCmd::Clear(Color { r: 0, g: 0, b: 0, a: 255 })] + render_all(self.widgets@) + seq![
            DrawCmd::Present,
        ]
    }

    /// The commands that draw the current state; drawing changes nothing.
    pub fn draw(&self) -> (r: Vec<DrawCmd>)
        ensures
            r@ == self.frame(),
    {
        let mut out: Vec<DrawCmd> = Vec::new();
        out.push(DrawCmd::Clear(Color::black()));
        let ghost start = out@;
        let n = self.widgets.len();
        let mut i: usize = 0;
        while i < n
            invariant
                n == self.widgets@.len(),
                0 <= i <= n,
                out@ == start + render_all(self.widgets@.subrange(0, i as int)),
            decreases n - i,
        {
            self.widgets[i].draw(&mut out);
            proof {
                let k = i as int;
                assert(self.widgets@.subrange(0, k + 1).subrange(0, k) =~= self.widgets@.subrange(0, k));
                assert(self.widgets@.subrange(0, k + 1)[k] == self.widgets@[k]);
                assert(out@ =~= start + render_all(self.widgets@.subrange(0, k + 1)));
            }
            i += 1;
        }
        out.push(DrawCmd::Present);
        proof {
            assert(self.widgets@.subrange(0, n as int) =~= self.widgets@);
            assert(out@ =~= self.frame());
        }
        out
    }

    /// One frame: every widget advances (stale layout, momentum), then the
    /// frame of the new state is returned.
    pub fn update(&mut self) -> (r: Vec<DrawCmd>)
        requires
            old(self).wf(),
        ensures
            children_ticked(old(self).widgets@, final(self).widgets@),
            r@ == final(self).frame(),
            final(self).id == old(self).id,
            final(self).slot == old(self).slot,
            final(self).active == old(self).active,
            final(self).wf(),
    {
        let ghost olds = self.widgets@;
        let n = self.widgets.len();
        let mut i: usize = 0;
        while i < n
            invariant
                n == olds.len(),
                self.widgets@.len() == n,
                0 <= i <= n,
                olds == old(self).widgets@,
                forall|j: int| i <= j < n ==> self.widgets@[j] == olds[j],
                children_ticked(olds.subrange(0, i as int), self.widgets@.subrange(0, i as int)),
                all_wf(self.widgets@),
                self.id == old(self).id,
                self.slot == old(self).slot,
                self.active == old(self).active,
            decreases n - i,
        {
            let ghost prev = self.widgets@;
            self.widgets[i].tick();
            proof {
                let news = self.widgets@;
                let k = i as int;
                lemma_child_step(olds, prev, news, k);
            }
            i += 1;
        }
        proof {
            assert(olds.subrange(0, n as int) =~= olds);
            assert(self.widgets@.subrange(0, n as int) =~= self.widgets@);
        }
        self.draw()
    }
}

/// The index of the first window of `s` with identifier `id`, or -1.
pub open spec fn index_of_id(s: Seq<MyWindow>, id: u32) -> int
    decreases s.len(),
{
    if s.len() == 0 {
        -1
    } else {
        let p = index_of_id(s.subrange(0, s.len() - 1), id);
        if p >= 0 {
            p
        } else if s[s.len() - 1].id == id {
            s.len() - 1
        } else {
            -1
        }
    }
}

/// Whether a window of `s` was opened for `slot`.
pub open spec fn has_slot(s: Seq<MyWindow>, slot: u32) -> bool {
    exists|i: int| 0 <= i < s.len() && #[trigger] s[i].slot == slot
}

/// `new` is `old` after its widgets handled `ev`.
pub open spec fn window_handled(old: MyWindow, new: MyWindow, ev: Event) -> bool {
    &&& children_handled(old.widgets@, new.widgets@, ev, old.id)
    &&& new.id == old.id
    &&& new.slot == old.slot
    &&& new.active == old.active
}

/// The actions the active windows of `s` collect for `ev`, window by window.
pub open spec fn windows_actions(s: Seq<MyWindow>, ev: Event) -> Seq<Action>
    decreases s.len(),
{
    if s.len() == 0 {
        Seq::empty()
    } else {
        let w = s[s.len() - 1];
        windows_actions(s.subrange(0, s.len() - 1), ev) + if w.active {
            actions_of(w.widgets@, ev, w.id)
        } else {
            Seq::empty()
        }
    }
}

pub open spec fn min_index(a: int, b: int) -> int {
    if a <= b {
        a
    } else {
        b
    }
}

/// The open windows, the primary one first, and whether the application
/// loop goes on.
#[derive(Debug)]
pub struct Windows {
    pub windows: Vec<MyWindow>,
    pub running: bool,
}

impl Windows {
    pub fn new(primary: MyWindow) -> (s: Windows)
        ensures
            s.windows@ == seq![primary],
            s.running,
    {
        let mut windows = Vec::new();
        windows.push(primary);
        Windows { windows, running: true }
    }

    pub open spec fn wf(self) -> bool {
        forall|i: int| 0 <= i < self.windows@.len() ==> #[trigger] self.windows@[i].wf()
    }

    /// The position of the first window with identifier `id`.
    pub fn position_of(&self, id: u32) -> (r: Option<usize>)
        ensures
            index_of_id(self.windows@, id) >= 0 ==> r == Some(index_of_id(self.windows@, id) as usize),
            index_of_id(self.windows@, id) < 0 ==> r is None,
            index_of_id(self.windows@, id) < self.windows@.len(),
    {
        let n = self.windows.len();
        let mut i: usize = 0;
        while i < n
            invariant
                n == self.windows@.len(),
                0 <= i <= n,
                index_of_id(self.windows@.subrange(0, i as int), id) == -1,
            decreases n - i,
        {
            proof {
                let k = i as int;
                assert(self.windows@.subrange(0, k + 1).subrange(0, k) =~= self.windows@.subrange(0, k));
            }
            if self.windows[i].id == id {
                proof {
                    lemma_index_of_id_prefix(self.windows@, i as int + 1, id);
                }
                return Some(i);
            }
            i += 1;
        }
        proof {
            assert(self.windows@.subrange(0, n as int) =~= self.windows@);
        }
        None
    }

    /// Whether a window was opened for `slot`.
    pub fn has_window_for(&self, slot: u32) -> (r: bool)
        ensures
            r == has_slot(self.windows@, slot),
    {
        let n = self.windows.len();
        let mut i: usize = 0;
        while i < n
            invariant
                n == self.windows@.len(),
                0 <= i <= n,
                forall|j: int| 0 <= j < i ==> self.windows@[j].slot != slot,
            decreases n - i,
        {
            if self.windows[i].slot == slot {
                return true;
            }
            i += 1;
        }
        false
    }

    /// Hands an input event to every active window and collects their
    /// actions. A close event removes that window, and removing the primary
    /// or the last window stops the loop; a quit event stops it.
    pub fn dispatch(&mut self, ev: Event) -> (r: Vec<Action>)
        requires
            old(self).wf(),
        ensures
            final(self).wf(),
            ev.is_input() ==> {
                &&& final(self).windows@.len() == old(self).windows@.len()
                &&& forall|i: int|
                    0 <= i < old(self).windows@.len() ==> if old(self).windows@[i].active {
                        window_handled(old(self).windows@[i], #[trigger] final(self).windows@[i], ev)
                    } else {
                        final(self).windows@[i] == old(self).windows@[i]
                    }
                &&& r@ == windows_actions(old(self).windows@, ev)
                &&& final(self).running == old(self).running
            },
            !ev.is_input() ==> r@.len() == 0,
            ev matches Event::WindowClose { window_id } ==> {
                let p = index_of_id(old(self).windows@, window_id);
                if p >= 0 {
                    &&& final(self).windows@ == old(self).windows@.remove(p)
                    &&& final(self).running == (old(self).running && p != 0
                        && old(self).windows@.len() > 1)
                } else {
                    &&& final(self).windows@ == old(self).windows@
                    &&& final(self).running == old(self).running
                }
            },
            ev is Quit ==> final(self).windows@ == old(self).windows@ && !final(self).running,
            !ev.is_input() && !(ev is WindowClose) && !(ev is Quit) ==> final(self).windows@
                == old(self).windows@ && final(self).running == old(self).running,
    {
        let mut actions: Vec<Action> = Vec::new();
        if ev.input() {
            let ghost olds = self.windows@;
            let n = self.windows.len();
            let mut i: usize = 0;
            while i < n
                invariant
                    n == olds.len(),
                    self.windows@.len() == n,
                    0 <= i <= n,
                    olds == old(self).windows@,
                    forall|j: int| i <= j < n ==> self.windows@[j] == olds[j],
                    forall|j: int|
                        0 <= j < i ==> if olds[j].active {
                            window_handled(olds[j], #[trigger] self.windows@[j], ev)
                        } else {
                            self.windows@[j] == olds[j]
                        },
                    forall|j: int| 0 <= j < n ==> #[trigger] self.windows@[j].wf(),
                    actions@ == windows_actions(olds.subrange(0, i as int), ev),
                    self.running == old(self).running,
                decreases n - i,
            {
                let ghost prev = self.windows@;
                if self.windows[i].is_active() {
                    let mut a = self.windows[i].event(ev);
                    actions.append(&mut a);
                }
                proof {
                    let news = self.windows@;
                    let k = i as int;
                    assert forall|j: int| 0 <= j < n && j != k implies news[j] == prev[j] by {}
                    assert(olds.subrange(0, k + 1).subrange(0, k) =~= olds.subrange(0, k));
                    assert(olds.subrange(0, k + 1)[k] == olds[k]);
                    assert(actions@ =~= windows_actions(olds.subrange(0, k + 1), ev));
                }
                i += 1;
            }
            proof {
                assert(olds.subrange(0, n as int) =~= olds);
            }
        } else {
            match ev {
                Event::WindowClose { window_id } => {
                    match self.position_of(window_id) {
                        Some(p) => {
                            let last = self.windows.len() == 1;
                            let _closed = self.windows.remove(p);
                            if last || p == 0 {
                                self.running = false;
                            }
                            assert forall|j: int| 0 <= j < self.windows@.len() implies #[trigger] self.windows@[j].wf() by {
                                if j >= p {
                                    assert(self.windows@[j] == old(self).windows@[j + 1]);
                                } else {
                                    assert(self.windows@[j] == old(self).windows@[j]);
                                }
                            }
                        },
                        None => {},
                    }
                },
                Event::Quit => {
                    self.running = false;
                },
                _ => {},
            }
        }
        actions
    }

    /// Opens the window that `req` asks for, with identifier `id` and the
    /// given widgets, unless a window for the same slot is open: the request
    /// is applied at most once. The window goes to position `req.slot`, or
    /// last when there are fewer windows.
    pub fn open_window(&mut self, req: WindowRequest, id: u32, widgets: Vec<Widget>) -> (opened: bool)
        requires
            old(self).wf(),
            all_wf(widgets@),
        ensures
            opened == !has_slot(old(self).windows@, req.slot),
            opened ==> final(self).windows@ == old(self).windows@.insert(
                min_index(req.slot as int, old(self).windows@.len() as int),
                MyWindow { id, slot: req.slot, active: true, widgets },
            ),
            !opened ==> final(self).windows@ == old(self).windows@,
            final(self).running == old(self).running,
            final(self).wf(),
    {
        if self.has_window_for(req.slot) {
            return false;
        }
        let n = self.windows.len();
        let at: usize = if (req.slot as usize) < n {
            req.slot as usize
        } else {
            n
        };
        let w = MyWindow::from_request(&req, id, widgets);
        self.windows.insert(at, w);
        assert forall|j: int| 0 <= j < self.windows@.len() implies #[trigger] self.windows@[j].wf() by {
            if j < at {
                assert(self.windows@[j] == old(self).windows@[j]);
            } else if j > at {
                assert(self.windows@[j] == old(self).windows@[j - 1]);
            }
        }
        true
    }
}

proof fn lemma_index_of_id_prefix(s: Seq<MyWindow>, k: int, id: u32)
    requires
        0 < k <= s.len(),
        index_of_id(s.subrange(0, k - 1), id) == -1,
        s[k - 1].id == id,
    ensures
        index_of_id(s, id) == k - 1,
    decreases s.len(),
{
    assert(s.subrange(0, k).subrange(0, k - 1) =~= s.subrange(0, k - 1));
    assert(index_of_id(s.subrange(0, k), id) == k - 1);
    if s.len() > k {
        let p = s.subrange(0, s.len() - 1);
        assert(p.subrange(0, k - 1) =~= s.subrange(0, k - 1));
        assert(p[k - 1] == s[k - 1]);
        lemma_index_of_id_prefix(p, k, id);
    } else {
        assert(s.subrange(0, k) =~= s);
    }
}

proof fn lemma_rest_render_all(olds: Seq<Widget>, news: Seq<Widget>)
    requires
        rest_each(olds),
        children_ticked(olds, news),
    ensures
        rest_each(news),
        render_all(news) == render_all(olds),
    decreases olds.len(),
{
    if olds.len() > 0 {
        let n = olds.len() - 1;
        lemma_rest_render_all(olds.subrange(0, n), news.subrange(0, n));
        lemma_rest_tick(olds[n], news[n]);
    }
}

/// Redraw idempotence: once every widget of a window is at rest, a frame
/// with no event before it draws exactly what the previous frame drew, and
/// everything stays at rest; so [`MyWindow::update`] repeats its output.
pub proof fn frame_repeats_at_rest(w: MyWindow, next: MyWindow)
    requires
        rest_each(w.widgets@),
        children_ticked(w.widgets@, next.widgets@),
    ensures
        next.frame() == w.frame(),
        rest_each(next.widgets@),
{
    lemma_rest_render_all(w.widgets@, next.widgets@);
}

proof fn lemma_ignores_render_all(olds: Seq<Widget>, news: Seq<Widget>, ev: Event, win: u32)
    requires
        !ev.is_input(),
        children_handled(olds, news, ev, win),
    ensures
        actions_of(olds, ev, win) == Seq::<Action>::empty(),
        render_all(news) == render_all(olds),
    decreases olds.len(),
{
    if olds.len() > 0 {
        let n = olds.len() - 1;
        lemma_ignores_render_all(olds.subrange(0, n), news.subrange(0, n), ev, win);
        lemma_ignores_non_input(olds[n], news[n], ev, win);
        assert(actions_of(olds, ev, win) =~= Seq::<Action>::empty());
    }
}

/// Windows ignore events that are not input (a close, a quit): handing one
/// to a window yields no action and leaves everything it draws as it was.
/// Closing a window is the window set's work, which removes that window
/// and keeps every other one exactly ([`Windows::dispatch`]).
pub proof fn window_ignores_non_input(w: MyWindow, next: MyWindow, ev: Event)
    requires
        !ev.is_input(),
        window_handled(w, next, ev),
    ensures
        actions_of(w.widgets@, ev, w.id) == Seq::<Action>::empty(),
        next.frame() == w.frame(),
{
    lemma_ignores_render_all(w.widgets@, next.widgets@, ev, w.id);
}

} // verus!
