use rustgui::event::{Action, Event};
use rustgui::geometry::Rect;
use rustgui::list::List;
use rustgui::style::Style;
use rustgui::text::Text;
use rustgui::scrollview::{
    ScrollView, APPLE_FRICTION, NORMAL_FRICTION, POINTER_LEFT, SCROLL_UNITS_PER_PIXEL, TRACK_WIDTH_HOVER,
};
use rustgui::text::TextSize;
use rustgui::widget::Widget;

const WIN: u32 = 7;

fn ten_rows() -> Widget {
    let mut l = List::new(0, 0, 200, 300);
    for i in 0..10 {
        l = l.add_text(&format!("row {}", i), TextSize { width: 40, height: 40 });
    }
    Widget::List(l)
}

fn view() -> ScrollView {
    ScrollView::new(ten_rows(), 0, 0, 400, 300)
}

fn hover(s: &mut ScrollView) {
    s.event(Event::PointerMove { window_id: WIN, x: 50, y: 50, dx: 0, dy: 0 }, WIN);
    assert!(s.hover);
}

fn settle(s: &mut ScrollView) -> usize {
    let mut frames = 0;
    while s.scrolling && frames < 1000 {
        s.tick();
        frames += 1;
    }
    frames
}

#[test]
fn ratio_of_view_to_content() {
    let s = view();
    assert_eq!(s.content_height, 400);
    let (v, c) = s.v_ratio();
    assert_eq!(v as f64 / c as f64, 0.75);
}

#[test]
fn wheel_scroll_clamps_at_content_end() {
    let mut s = view();
    hover(&mut s);
    // 5.625 notches at 40 px per notch and the default friction add up to
    // 150 px of travel, past the 100 px that can be scrolled.
    s.event(Event::Wheel { window_id: WIN, x: 50, y: 50, precise_dy: -56250 }, WIN);
    assert!(s.scrolling);
    settle(&mut s);
    assert_eq!(s.scroll_offset(), 100);
    assert_eq!(s.scroll, 100 * SCROLL_UNITS_PER_PIXEL);
    assert_eq!(s.scroll_acceleration, 0);
    assert_eq!(s.widget.get_rect().y, -100);
}

#[test]
fn first_frame_moves_by_friction_scaled_momentum() {
    let mut s = view();
    hover(&mut s);
    s.event(Event::Wheel { window_id: WIN, x: 50, y: 50, precise_dy: -10000 }, WIN);
    s.tick();
    // 1 notch * 0.4 * 40 px = 16 px.
    assert_eq!(s.scroll, 16 * SCROLL_UNITS_PER_PIXEL);
    assert_eq!(s.scroll_acceleration, -4000);
    assert_eq!(s.widget.get_rect().y, -16);
}

#[test]
fn scrolling_up_at_the_top_stays_at_zero() {
    let mut s = view();
    hover(&mut s);
    s.event(Event::Wheel { window_id: WIN, x: 50, y: 50, precise_dy: 30000 }, WIN);
    settle(&mut s);
    assert_eq!(s.scroll, 0);
    assert_eq!(s.scroll_acceleration, 0);
}

#[test]
fn momentum_stops_within_bounded_frames() {
    for friction in [NORMAL_FRICTION, APPLE_FRICTION] {
        let mut s = ScrollView::new(ten_rows(), 0, 0, 400, 300).with_friction(friction);
        hover(&mut s);
        s.event(Event::Wheel { window_id: WIN, x: 50, y: 50, precise_dy: -2000 }, WIN);
        let frames = settle(&mut s);
        assert!(!s.scrolling);
        assert_eq!(s.scroll_acceleration, 0);
        assert!(s.scroll > 0 && s.scroll < 100 * SCROLL_UNITS_PER_PIXEL);
        assert!(frames >= 2 && frames <= 30, "{} frames", frames);
    }
}

#[test]
fn wheel_outside_the_view_or_window_is_ignored() {
    let mut s = view();
    s.event(Event::Wheel { window_id: WIN, x: 50, y: 50, precise_dy: -10000 }, WIN);
    assert!(!s.scrolling);
    hover(&mut s);
    s.event(Event::Wheel { window_id: WIN + 1, x: 50, y: 50, precise_dy: -10000 }, WIN);
    assert!(!s.scrolling);
}

#[test]
fn content_that_fits_does_not_scroll() {
    let mut l = List::new(0, 0, 100, 0);
    l = l.add_text("only", TextSize { width: 10, height: 40 });
    let mut s = ScrollView::new(Widget::List(l), 0, 0, 100, 300);
    assert_eq!(s.v_ratio(), (1, 1));
    hover(&mut s);
    s.event(Event::Wheel { window_id: WIN, x: 50, y: 50, precise_dy: -50000 }, WIN);
    assert!(!s.scrolling);
    assert_eq!(s.scroll, 0);
    assert_eq!(s.scroll_thumb_rect, Rect::new(0, 0, 0, 0));
}

#[test]
fn thumb_drag_scrolls_and_clamps() {
    let mut s = view();
    s.tick();
    // Track at the right edge, 8 px wide; thumb 300 * 300 / 400 = 225 px tall.
    assert_eq!(s.scroll_thumb_rect, Rect::new(392, 0, 8, 225));
    s.event(Event::PointerMove { window_id: WIN, x: 395, y: 10, dx: 0, dy: 0 }, WIN);
    assert!(s.thumb_hover);
    assert_eq!(s.scroll_area_width, TRACK_WIDTH_HOVER);
    s.event(Event::PointerDown { window_id: WIN, button: 1, x: 395, y: 10 }, WIN);
    assert!(s.drag_thumb);
    assert_eq!(s.drag_offset, 10);
    // 30 px of drag scroll 30 * 400 / 300 = 40 px of content.
    s.event(Event::PointerMove { window_id: WIN, x: 395, y: 40, dx: 0, dy: 30 }, WIN);
    assert_eq!(s.scroll, 40 * SCROLL_UNITS_PER_PIXEL);
    assert!(s.scrolling);
    // A long drag stops at the end.
    s.event(Event::PointerMove { window_id: WIN, x: 395, y: 280, dx: 0, dy: 240 }, WIN);
    assert_eq!(s.scroll, 100 * SCROLL_UNITS_PER_PIXEL);
    s.event(Event::PointerUp { window_id: WIN, button: 1 }, WIN);
    assert!(!s.drag_thumb);
    settle(&mut s);
    assert_eq!(s.scroll_offset(), 100);
}

#[test]
fn pointer_leaving_the_view_is_reported_to_the_child() {
    let s = view();
    let inside = Event::PointerMove { window_id: WIN, x: 10, y: 10, dx: 1, dy: 1 };
    assert_eq!(s.forward(inside, WIN), Some(inside));
    let outside = Event::PointerMove { window_id: WIN, x: 500, y: 10, dx: 1, dy: 1 };
    assert_eq!(
        s.forward(outside, WIN),
        Some(Event::PointerMove { window_id: WIN, x: POINTER_LEFT, y: POINTER_LEFT, dx: 1, dy: 1 })
    );
    assert_eq!(s.forward(Event::PointerDown { window_id: WIN, button: 1, x: 500, y: 10 }, WIN), None);
    assert_eq!(s.forward(inside, WIN + 1), None);
}

#[test]
fn set_rect_clamps_the_offset_to_a_taller_view() {
    let mut s = view();
    hover(&mut s);
    s.event(Event::Wheel { window_id: WIN, x: 50, y: 50, precise_dy: -56250 }, WIN);
    settle(&mut s);
    assert_eq!(s.scroll_offset(), 100);
    s.set_rect(Rect::new(0, 0, 400, 350));
    assert_eq!(s.scroll_offset(), 50);
    s.set_rect(Rect::new(0, 0, 400, 500));
    assert_eq!(s.scroll, 0);
}

#[test]
fn child_actions_pass_through_the_view() {
    let mut s = view();
    let a = s.event(Event::PointerDown { window_id: WIN, button: 1, x: 10, y: 10 }, WIN);
    assert_eq!(a, Action::NoOp);
}

fn list_of(s: &mut ScrollView) -> &mut List {
    match &mut *s.widget {
        Widget::List(l) => l,
        _ => unreachable!(),
    }
}

fn row() -> Widget {
    Widget::Text(Text::new(0, 0, "more", Style::new(), TextSize { width: 40, height: 40 }))
}

#[test]
fn pointer_up_from_another_window_keeps_the_drag() {
    let mut s = view();
    s.tick();
    s.event(Event::PointerMove { window_id: WIN, x: 395, y: 10, dx: 0, dy: 0 }, WIN);
    s.event(Event::PointerDown { window_id: WIN, button: 1, x: 395, y: 10 }, WIN);
    assert!(s.drag_thumb);
    s.event(Event::PointerUp { window_id: WIN + 1, button: 1 }, WIN);
    assert!(s.drag_thumb);
    s.event(Event::PointerUp { window_id: WIN, button: 1 }, WIN);
    assert!(!s.drag_thumb);
}

#[test]
fn growing_content_keeps_the_offset() {
    let mut s = view();
    hover(&mut s);
    s.event(Event::Wheel { window_id: WIN, x: 50, y: 50, precise_dy: -56250 }, WIN);
    settle(&mut s);
    assert_eq!(s.scroll_offset(), 100);
    let l = list_of(&mut s);
    l.widgets.push(row());
    l.widgets.push(row());
    l.changed = true;
    s.tick();
    assert_eq!(s.content_height, 480);
    assert_eq!(s.scroll_offset(), 100);
    assert_eq!(s.widget.get_rect().y, -100);
    assert_eq!(s.v_ratio(), (300, 480));
}

#[test]
fn shrinking_content_clamps_the_offset() {
    let mut s = view();
    hover(&mut s);
    s.event(Event::Wheel { window_id: WIN, x: 50, y: 50, precise_dy: -56250 }, WIN);
    settle(&mut s);
    let l = list_of(&mut s);
    l.widgets.truncate(9);
    l.changed = true;
    s.tick();
    // 360 px of content in a 300 px view: at most 60 px of offset.
    assert_eq!(s.content_height, 360);
    assert_eq!(s.scroll_offset(), 60);
    assert_eq!(s.widget.get_rect().y, -60);
    let l = list_of(&mut s);
    l.widgets.truncate(5);
    l.changed = true;
    s.tick();
    assert_eq!(s.scroll, 0);
    assert_eq!(s.widget.get_rect().y, 0);
}

#[test]
fn relayout_keeps_the_momentum() {
    let mut s = view();
    hover(&mut s);
    s.event(Event::Wheel { window_id: WIN, x: 50, y: 50, precise_dy: -10000 }, WIN);
    s.tick();
    assert_eq!(s.scroll_acceleration, -4000);
    let l = list_of(&mut s);
    l.widgets.push(row());
    l.changed = true;
    // The frame lays the list out again and still applies friction and
    // moves: 0.4 notch * 0.4 * 40 px = 6.4 px more.
    s.tick();
    assert!(s.scrolling);
    assert_eq!(s.content_height, 440);
    assert_eq!(s.scroll_acceleration, -1600);
    assert_eq!(s.scroll, 224000);
    assert_eq!(s.widget.get_rect().y, -22);
    s.tick();
    assert_eq!(s.scroll_acceleration, -640);
}

#[test]
fn wheel_reaches_a_nested_scroll_view() {
    let inner = ScrollView::new(ten_rows(), 0, 0, 400, 300);
    let mut outer = ScrollView::new(Widget::ScrollView(inner), 0, 0, 400, 300);
    outer.event(Event::PointerMove { window_id: WIN, x: 50, y: 50, dx: 0, dy: 0 }, WIN);
    outer.event(Event::Wheel { window_id: WIN, x: 50, y: 50, precise_dy: -10000 }, WIN);
    match &*outer.widget {
        Widget::ScrollView(inner) => {
            assert!(inner.hover);
            assert!(inner.scrolling);
            assert_eq!(inner.scroll_acceleration, -10000);
        }
        _ => unreachable!(),
    }
    // The outer view's content fits, so it does not scroll itself.
    assert!(!outer.scrolling);
}

#[test]
fn one_notch_stops_on_the_ninth_frame() {
    let mut s = view();
    hover(&mut s);
    s.event(Event::Wheel { window_id: WIN, x: 50, y: 50, precise_dy: -10000 }, WIN);
    for _ in 0..8 {
        s.tick();
        assert!(s.scrolling);
    }
    s.tick();
    assert!(!s.scrolling);
    assert_eq!(s.scroll_acceleration, 0);
    assert_eq!(s.scroll, 266400);
    s.tick();
    assert_eq!(s.scroll, 266400);
}
