use rustgui::circle::Circle;
use rustgui::draw::DrawCmd;
use rustgui::geometry::{Point, Rect};
use rustgui::style::{Color, FontStyle, Params, Style, StyleValues, TextAlign};
use rustgui::polygon::Polygon;
use rustgui::rounded_rect::RoundedRect;
use rustgui::text::{Text, TextSize};

#[test]
fn a_bare_value_styles_the_normal_state() {
    assert_eq!(Params::from(3u32), Params::Normal(3u32));
    let s = Style::new().border_width(Params::from(3));
    assert_eq!(s.normal.border_width, 3);
    assert_eq!(s.hover.border_width, 1);
    assert_eq!(s.clicked.border_width, 1);
}

#[test]
fn params_pick_the_states() {
    let s = Style::new().font_size(Params::Hover(30));
    assert_eq!((s.normal.font_size, s.hover.font_size, s.clicked.font_size), (16, 30, 16));
    let s = Style::new().font_style(Params::Clicked(FontStyle::Bold));
    assert_eq!(s.clicked.font_style, FontStyle::Bold);
    assert_eq!(s.normal.font_style, FontStyle::Normal);
    let s = Style::new().text_color(Params::All(Color::red()));
    assert_eq!(s.hover.text_color, Color::red());
    let s = Style::new().border_color(Params::Multiple(Color::red(), Color::white(), Color::black()));
    assert_eq!(
        (s.normal.border_color, s.hover.border_color, s.clicked.border_color),
        (Color::red(), Color::white(), Color::black())
    );
}

#[test]
fn default_style_values() {
    let v = StyleValues::default();
    assert_eq!(v, StyleValues::new());
    assert_eq!(v.background_color, Color::white());
    assert_eq!(v.font_size, 16);
    assert_eq!(v.border_width, 1);
    assert_eq!(v.text_align, TextAlign::Left);
}

#[test]
fn adjust_fits_radius_and_font_to_the_rect() {
    let s = Style::new().border_radius(Params::All(50)).font_size(Params::All(40));
    let a = s.adjust(Rect::new(0, 0, 60, 30));
    assert_eq!(a.normal.border_radius, 15);
    assert_eq!(a.hover.font_size, 30);
    let b = StyleValues::new().adjust(Rect::new(0, 0, 60, 30));
    assert_eq!(b.border_radius, 0);
    assert_eq!(b.font_size, 16);
}

#[test]
fn text_expands_tabs_and_takes_its_rendered_size() {
    let t = Text::new(5, 6, "a\tb", Style::new(), TextSize { width: 50, height: 18 });
    assert_eq!(t.text, "a    b");
    assert_eq!(t.get_rect(), Rect::new(5, 6, 50, 18));
    let c = Text::clipped(5, 6, 100, 3, "x", Style::new(), TextSize { width: 50, height: 18 });
    assert_eq!(c.get_rect(), Rect::new(5, 6, 100, 18));
    let mut out = Vec::new();
    c.draw(&mut out);
    assert_eq!(
        out,
        vec![DrawCmd::Text {
            dest: Rect::new(5, 6, 50, 18),
            text: "x".to_string(),
            font_size: 16,
            font_style: FontStyle::Normal,
            color: Color::black(),
        }]
    );
}

#[test]
fn circles_are_placed_by_corner_or_centre() {
    let c = Circle::new(10, 20, 5, Color::red());
    assert_eq!((c.x, c.y, c.filled), (15, 25, false));
    assert_eq!(c.get_rect(), Rect::new(15, 25, 5, 5));
    let mut d = Circle::filled(10, 20, 5, Color::red());
    assert_eq!((d.x, d.y, d.filled), (10, 20, true));
    d.set_rect(Rect::new(1, 2, 3, 4));
    assert_eq!((d.x, d.y, d.radius), (1, 2, 5));
    let mut out = Vec::new();
    d.draw(&mut out);
    assert_eq!(out, vec![DrawCmd::Circle { x: 1, y: 2, radius: 5, color: Color::red(), filled: true }]);
}

#[test]
fn rect_contains_its_top_left_but_not_its_far_edges() {
    let r = Rect::new(0, 0, 10, 10);
    assert!(r.contains_point(Point::new(0, 0)));
    assert!(r.contains_point(Point::new(9, 9)));
    assert!(!r.contains_point(Point::new(10, 5)));
    assert!(!r.contains_point(Point::new(5, 10)));
    assert!(!Rect::new(0, 0, 0, 0).contains_point(Point::new(0, 0)));
}

#[test]
fn polygon_details_are_the_extremes() {
    let p = Polygon::new(vec![3, -2, 7, 0], vec![5, 9, -1, 4]);
    assert_eq!(p.extreme_x, (-2, 7));
    assert_eq!(p.extreme_y, (-1, 9));
    assert_eq!(p.center, Point::new(9, 10));
    let (center, ex, ey) = Polygon::get_details(&vec![1], &vec![2]);
    assert_eq!((center, ex, ey), (Point::new(0, 0), (1, 1), (2, 2)));
}

#[test]
fn polygon_from_points_limits_coordinates() {
    let p = Polygon::from_points(vec![Point::new(40000, 0), Point::new(-5, -40000), Point::new(10, 20)]);
    assert_eq!(p.vx, vec![32767, -5, 10]);
    assert_eq!(p.vy, vec![0, -32768, 20]);
    assert_eq!(p.extreme_x, (-5, 32767));
    let empty = Polygon::from_points(Vec::new());
    assert_eq!((empty.extreme_x, empty.extreme_y, empty.center), ((0, 0), (0, 0), Point::new(0, 0)));
    assert!(empty.vx.is_empty());
}

#[test]
fn polygon_shrinks_toward_its_extents() {
    // A diamond: left, top, right, bottom; extents (10, 10).
    let mut p = Polygon::new(vec![0, 5, 10, 5], vec![5, 0, 5, 10]);
    p.shrink(2);
    // Vertices at the x extremes 0 and 10 move in x, the others in y; none
    // lies above the extents point (10, 10), so all move up.
    assert_eq!(p.vx, vec![2, 5, 12, 5]);
    assert_eq!(p.vy, vec![5, 2, 5, 12]);
    let mut out = Vec::new();
    p.draw(Color::red(), true, &mut out);
    assert_eq!(out, vec![DrawCmd::Polygon { vx: vec![2, 5, 12, 5], vy: vec![5, 2, 5, 12], color: Color::red(), filled: true }]);
}

#[test]
fn rounded_rect_draws_one_command() {
    let r = RoundedRect::new(1, 2, 30, 40, 5);
    assert_eq!(r, RoundedRect::from_rect(Rect::new(1, 2, 30, 40), 5));
    let mut out = Vec::new();
    r.draw(Color::black(), &mut out);
    assert_eq!(out, vec![DrawCmd::RoundedRect(Rect::new(1, 2, 30, 40), 5, Color::black())]);
}

#[test]
fn polygon_details_read_vy_as_far_as_vx() {
    let (center, ex, ey) = Polygon::get_details(&vec![4, 1], &vec![3, 8, -50]);
    assert_eq!(ex, (1, 4));
    assert_eq!(ey, (3, 8));
    assert_eq!(center, Point::new(3, 5));
}
