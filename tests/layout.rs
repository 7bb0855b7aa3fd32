use rustgui::draw::DrawCmd;
use rustgui::geometry::Rect;
use rustgui::list::{List, MAX_RENDER_HEIGHT};
use rustgui::style::Color;
use rustgui::text::TextSize;
use rustgui::widget::Widget;

fn sized(height: u32) -> TextSize {
    TextSize { width: 30, height }
}

fn three_lines() -> List {
    List::new(10, 20, 100, 0)
        .add_text("a", sized(10))
        .add_text("b", sized(20))
        .add_text("c", sized(30))
}

#[test]
fn set_rect_stacks_children_by_height() {
    let mut w = Widget::List(three_lines());
    w.set_rect(Rect::new(10, 20, 100, 0));
    let l = match &w {
        Widget::List(l) => l,
        _ => unreachable!(),
    };
    let ys: Vec<i32> = l.widgets.iter().map(|c| c.get_rect().y).collect();
    assert_eq!(ys, vec![20, 30, 50]);
    assert!(l.widgets.iter().all(|c| c.get_rect().x == 10));
    assert_eq!(w.get_rect(), Rect::new(10, 20, 100, 60));
}

#[test]
fn set_rect_moves_children_with_list() {
    let mut w = Widget::List(three_lines());
    w.set_rect(Rect::new(-5, 100, 80, 7));
    let l = match &w {
        Widget::List(l) => l,
        _ => unreachable!(),
    };
    let corners: Vec<(i32, i32)> = l.widgets.iter().map(|c| (c.get_rect().x, c.get_rect().y)).collect();
    assert_eq!(corners, vec![(-5, 100), (-5, 110), (-5, 130)]);
    assert_eq!(w.get_rect(), Rect::new(-5, 100, 80, 60));
}

#[test]
fn zero_height_children_keep_their_slot() {
    let mut w = Widget::List(
        List::new(0, 0, 50, 0).add_text("a", sized(0)).add_text("b", sized(0)).add_text("c", sized(12)),
    );
    w.set_rect(Rect::new(0, 0, 50, 0));
    let l = match &w {
        Widget::List(l) => l,
        _ => unreachable!(),
    };
    assert_eq!(l.widgets.len(), 3);
    let ys: Vec<i32> = l.widgets.iter().map(|c| c.get_rect().y).collect();
    assert_eq!(ys, vec![0, 0, 0]);
    assert_eq!(w.get_rect().height, 12);
}

#[test]
fn tick_lays_out_a_dirty_list_once() {
    let mut w = Widget::List(three_lines());
    if let Widget::List(l) = &w {
        assert!(l.changed);
    }
    w.tick();
    let l = match &mut w {
        Widget::List(l) => l,
        _ => unreachable!(),
    };
    assert!(!l.changed);
    assert_eq!(l.rect, Rect::new(10, 20, 100, 60));
    let ys: Vec<i32> = l.widgets.iter().map(|c| c.get_rect().y).collect();
    assert_eq!(ys, vec![20, 30, 50]);
    assert_eq!(l.viewport, l.rect);
    assert!(l.has_changed());
    assert!(!l.has_changed());
}

#[test]
fn viewport_is_capped_for_long_lists() {
    let mut l = List::new(0, 0, 100, 0);
    for _ in 0..100 {
        l = l.add_text("line", sized(20));
    }
    let mut w = Widget::List(l);
    w.tick();
    let l = match &w {
        Widget::List(l) => l,
        _ => unreachable!(),
    };
    assert_eq!(l.rect.height, 2000);
    assert_eq!(l.viewport.height, MAX_RENDER_HEIGHT);
}

#[test]
fn draw_culls_children_outside_the_viewport() {
    let mut w = Widget::List(three_lines());
    w.tick();
    w.give_viewport(Rect::new(10, 20, 100, 25));
    let mut out = Vec::new();
    w.draw(&mut out);
    assert_eq!(out[0], DrawCmd::FillRect(Rect::new(10, 20, 100, 60), Color::white()));
    let texts: Vec<String> = out
        .iter()
        .filter_map(|c| match c {
            DrawCmd::Text { text, .. } => Some(text.clone()),
            _ => None,
        })
        .collect();
    // "a" at y 20 and "b" at y 30 have a corner inside; "c" at y 50 does not.
    assert_eq!(texts, vec!["a".to_string(), "b".to_string()]);
}

#[test]
fn add_widget_appends_in_order() {
    let l = List::new(0, 0, 10, 10).add_text("x", sized(5));
    assert!(l.changed);
    assert_eq!(l.widgets.len(), 1);
    assert_eq!(l.get_rect(), Rect::new(0, 0, 10, 10));
}
