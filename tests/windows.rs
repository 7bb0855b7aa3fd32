use rustgui::button::Button;
use rustgui::draw::DrawCmd;
use rustgui::event::{Action, Event, WindowRequest};
use rustgui::list::List;
use rustgui::scrollview::ScrollView;
use rustgui::style::{Color, Style};
use rustgui::text::TextSize;
use rustgui::widget::Widget;
use rustgui::window::{MyWindow, Windows};

fn request(slot: u32) -> WindowRequest {
    WindowRequest { slot, title: "Second Window".to_string(), width: 400, height: 800 }
}

fn primary() -> MyWindow {
    let mut w = MyWindow::new(1, 0, true);
    w.add_widget(Widget::Button(Button::new(
        10,
        10,
        200,
        20,
        "Open",
        Action::CreateWindowIfNotExists(request(1)),
        Style::new(),
        TextSize { width: 40, height: 16 },
    )));
    w.add_widget(Widget::Button(Button::new(
        10,
        40,
        200,
        20,
        "Nothing",
        Action::NoOp,
        Style::new(),
        TextSize { width: 40, height: 16 },
    )));
    w
}

fn content() -> Vec<Widget> {
    let mut l = List::new(0, 100, 200, 600);
    for i in 0..20 {
        l = l.add_text(&format!("Text {} \t lol", i), TextSize { width: 80, height: 20 });
    }
    vec![Widget::ScrollView(ScrollView::new(Widget::List(l), 0, 0, 400, 800))]
}

fn click(ws: &mut Windows, win: u32, x: i32, y: i32) -> Vec<Action> {
    ws.dispatch(Event::PointerMove { window_id: win, x, y, dx: 0, dy: 0 });
    ws.dispatch(Event::PointerDown { window_id: win, button: 1, x, y })
}

#[test]
fn window_collects_actions_of_its_widgets() {
    let mut ws = Windows::new(primary());
    let actions = click(&mut ws, 1, 20, 15);
    assert_eq!(actions, vec![Action::CreateWindowIfNotExists(request(1))]);
    let actions = click(&mut ws, 1, 20, 45);
    assert!(actions.is_empty());
}

#[test]
fn create_window_action_applies_once() {
    let mut ws = Windows::new(primary());
    for _ in 0..2 {
        for action in click(&mut ws, 1, 20, 15) {
            if let Action::CreateWindowIfNotExists(req) = action {
                if !ws.has_window_for(req.slot) {
                    assert!(ws.open_window(req, 2, content()));
                } else {
                    assert!(!ws.open_window(req, 3, content()));
                }
            }
        }
    }
    assert_eq!(ws.windows.len(), 2);
    assert_eq!(ws.windows[1].get_id(), 2);
    assert!(ws.has_window_for(1));
}

#[test]
fn closing_a_secondary_window_keeps_the_primary() {
    let mut ws = Windows::new(primary());
    assert!(ws.open_window(request(1), 2, content()));
    click(&mut ws, 1, 20, 15);
    let actions = ws.dispatch(Event::WindowClose { window_id: 2 });
    assert!(actions.is_empty());
    assert!(ws.running);
    assert_eq!(ws.windows.len(), 1);
    assert_eq!(ws.windows[0].get_id(), 1);
    assert_eq!(ws.windows[0].widgets.len(), 2);
    match &ws.windows[0].widgets[0] {
        Widget::Button(b) => assert!(b.hover),
        _ => panic!("expected the button"),
    }
}

#[test]
fn closing_the_primary_window_stops_the_loop() {
    let mut ws = Windows::new(primary());
    assert!(ws.open_window(request(1), 2, content()));
    ws.dispatch(Event::WindowClose { window_id: 1 });
    assert!(!ws.running);
    assert_eq!(ws.windows.len(), 1);
    assert_eq!(ws.windows[0].get_id(), 2);
}

#[test]
fn closing_an_unknown_window_changes_nothing() {
    let mut ws = Windows::new(primary());
    ws.dispatch(Event::WindowClose { window_id: 9 });
    assert!(ws.running);
    assert_eq!(ws.windows.len(), 1);
}

#[test]
fn quit_stops_the_loop() {
    let mut ws = Windows::new(primary());
    ws.dispatch(Event::Quit);
    assert!(!ws.running);
    assert_eq!(ws.windows.len(), 1);
}

#[test]
fn inactive_windows_get_no_events() {
    let mut w = primary();
    w.set_active(false);
    let mut ws = Windows::new(w);
    assert!(click(&mut ws, 1, 20, 15).is_empty());
}

#[test]
fn new_window_goes_to_its_slot_or_last() {
    let mut ws = Windows::new(primary());
    assert!(ws.open_window(request(5), 2, Vec::new()));
    assert_eq!(ws.windows[1].get_id(), 2);
    assert!(ws.open_window(request(1), 3, Vec::new()));
    let ids: Vec<u32> = ws.windows.iter().map(|w| w.get_id()).collect();
    assert_eq!(ids, vec![1, 3, 2]);
}

#[test]
fn drawing_twice_gives_identical_frames() {
    let mut w = primary();
    w.update();
    let a = w.draw();
    let b = w.draw();
    assert_eq!(a, b);
    assert_eq!(a[0], DrawCmd::Clear(Color::black()));
    assert_eq!(a[a.len() - 1], DrawCmd::Present);
    // Two buttons, each a background and a label.
    assert_eq!(a.len(), 6);
}

#[test]
fn update_at_rest_repeats_the_frame() {
    let mut w = MyWindow::new(2, 1, true);
    for widget in content() {
        w.add_widget(widget);
    }
    let first = w.update();
    let second = w.update();
    let third = w.update();
    assert_eq!(second, third);
    assert_eq!(first[0], DrawCmd::Clear(Color::black()));
}
