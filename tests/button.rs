use rustgui::button::Button;
use rustgui::draw::DrawCmd;
use rustgui::event::{Action, Event, WindowRequest};
use rustgui::geometry::Rect;
use rustgui::style::{Color, Params, Style, TextAlign};
use rustgui::text::TextSize;

const WIN: u32 = 3;

fn request() -> Action {
    Action::CreateWindowIfNotExists(WindowRequest {
        slot: 1,
        title: "Second Window".to_string(),
        width: 400,
        height: 800,
    })
}

fn button() -> Button {
    Button::new(10, 10, 200, 20, "Hello", request(), Style::new(), TextSize { width: 40, height: 16 })
}

fn move_to(b: &mut Button, x: i32, y: i32) -> Action {
    b.event(Event::PointerMove { window_id: WIN, x, y, dx: 0, dy: 0 }, WIN)
}

fn press(b: &mut Button) -> Action {
    b.event(Event::PointerDown { window_id: WIN, button: 1, x: 0, y: 0 }, WIN)
}

#[test]
fn press_after_moving_inside_clicks() {
    let mut b = button();
    assert_eq!(move_to(&mut b, 50, 15), Action::NoOp);
    assert!(b.hover);
    assert_eq!(press(&mut b), request());
}

#[test]
fn press_after_moving_outside_does_nothing() {
    let mut b = button();
    move_to(&mut b, 50, 15);
    move_to(&mut b, 250, 15);
    assert!(!b.hover);
    assert_eq!(press(&mut b), Action::NoOp);
}

#[test]
fn press_without_any_move_does_nothing() {
    let mut b = button();
    assert_eq!(press(&mut b), Action::NoOp);
}

#[test]
fn edges_of_the_bounds() {
    let mut b = button();
    move_to(&mut b, 10, 10);
    assert!(b.hover);
    move_to(&mut b, 210, 15);
    assert!(!b.hover);
    move_to(&mut b, 209, 29);
    assert!(b.hover);
    move_to(&mut b, 100, 30);
    assert!(!b.hover);
}

#[test]
fn events_for_other_windows_are_ignored() {
    let mut b = button();
    b.event(Event::PointerMove { window_id: WIN + 1, x: 50, y: 15, dx: 0, dy: 0 }, WIN);
    assert!(!b.hover);
    move_to(&mut b, 50, 15);
    let a = b.event(Event::PointerDown { window_id: WIN + 1, button: 1, x: 50, y: 15 }, WIN);
    assert_eq!(a, Action::NoOp);
}

#[test]
fn clicking_twice_yields_the_action_twice() {
    let mut b = button();
    move_to(&mut b, 50, 15);
    assert_eq!(press(&mut b), request());
    assert_eq!(press(&mut b), request());
}

#[test]
fn label_is_anchored_by_alignment() {
    let style = Style::new().text_align(Params::All(TextAlign::Center));
    let b = Button::new(10, 10, 200, 20, "Hi", Action::NoOp, style, TextSize { width: 40, height: 16 });
    // Anchor at the middle, 110, moved left by half the text width.
    assert_eq!(b.label.rect, Rect::new(90, 10, 40, 16));
    let style = Style::new().text_align(Params::All(TextAlign::Right));
    let b = Button::new(10, 10, 200, 20, "Hi", Action::NoOp, style, TextSize { width: 40, height: 16 });
    assert_eq!(b.label.rect, Rect::new(170, 10, 40, 16));
    let b = button();
    assert_eq!(b.label.rect, Rect::new(10, 10, 40, 16));
}

#[test]
fn draw_uses_the_hover_color_and_radius() {
    let style = Style::new()
        .background_color(Params::Multiple(Color::rgb(0, 0, 160), Color::rgb(160, 160, 160), Color::red()))
        .border_radius(Params::All(20));
    let mut b = Button::new(10, 10, 200, 20, "Hi", Action::NoOp, style, TextSize { width: 40, height: 16 });
    // The radius is fitted to half the height.
    assert_eq!(b.style.normal.border_radius, 10);
    let mut out = Vec::new();
    b.draw(&mut out);
    assert_eq!(out[0], DrawCmd::RoundedRect(Rect::new(10, 10, 200, 20), 10, Color::rgb(0, 0, 160)));
    assert_eq!(out.len(), 2);
    move_to(&mut b, 20, 20);
    let mut out = Vec::new();
    b.draw(&mut out);
    assert_eq!(out[0], DrawCmd::RoundedRect(Rect::new(10, 10, 200, 20), 10, Color::rgb(160, 160, 160)));
}

#[test]
fn square_buttons_fill_a_rect() {
    let b = button();
    let mut out = Vec::new();
    b.draw(&mut out);
    assert_eq!(out[0], DrawCmd::FillRect(Rect::new(10, 10, 200, 20), Color::white()));
    match &out[1] {
        DrawCmd::Text { dest, text, .. } => {
            assert_eq!(*dest, Rect::new(10, 10, 40, 16));
            assert_eq!(text, "Hello");
        },
        other => panic!("unexpected {:?}", other),
    }
}

#[test]
fn set_rect_moves_button_and_label() {
    let mut b = button();
    b.set_rect(Rect::new(0, 0, 50, 50));
    assert_eq!(b.get_rect(), Rect::new(0, 0, 50, 50));
    assert_eq!(b.label.get_rect(), Rect::new(0, 0, 50, 50));
}
