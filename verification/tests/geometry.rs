use paint_grid::color::{generate_random_color, Color};
use paint_grid::geometry::{size_of_length, HalfPoint, Point, Rect, Viewport};
use paint_grid::square::{Policy, StyledRect};

#[test]
fn viewport_needs_width_and_height() {
    assert!(Viewport { left: -1, right: 1, top: 1, bottom: -1 }.is_wf());
    assert!(!Viewport { left: 1, right: 1, top: 1, bottom: -1 }.is_wf());
    assert!(!Viewport { left: -1, right: 1, top: -1, bottom: -1 }.is_wf());
    assert!(!Viewport { left: 3, right: 1, top: 5, bottom: -1 }.is_wf());
}

#[test]
fn rect_edges_in_halves() {
    let rect = Rect::from_x_y_w_h(50, -20, 300, 7);
    assert_eq!(rect, Rect { x: 50, y: -20, w: 300, h: 7 });
    assert_eq!(rect.left(), -200);
    assert_eq!(rect.right(), 400);
    assert_eq!(rect.bottom(), -47);
    assert_eq!(rect.top(), -33);
}

#[test]
fn rect_corners() {
    let rect = Rect::from_x_y_w_h(0, 0, 32, 32);
    assert_eq!(rect.top_left(), HalfPoint { x: -32, y: 32 });
    assert_eq!(rect.top_right(), HalfPoint { x: 32, y: 32 });
    assert_eq!(rect.bottom_right(), HalfPoint { x: 32, y: -32 });
    assert_eq!(rect.bottom_left(), HalfPoint { x: -32, y: -32 });
}

#[test]
fn rect_with_a_negative_size_counts_by_its_size() {
    let rect = Rect::from_x_y_w_h(10, 10, -4, -6);
    assert_eq!(rect.left(), 16);
    assert_eq!(rect.right(), 24);
    assert_eq!(rect.bottom(), 14);
    assert_eq!(rect.top(), 26);
    assert_eq!(size_of_length(-4), 4);
    assert_eq!(size_of_length(4), 4);
    assert_eq!(size_of_length(0), 0);
    assert_eq!(size_of_length(i32::MIN), 2147483648);
}

#[test]
fn rect_at_the_limits_of_the_machine() {
    let rect = Rect::from_x_y_w_h(i32::MAX, i32::MIN, i32::MAX, i32::MIN);
    assert_eq!(rect.right(), 3 * 2147483647);
    assert_eq!(rect.left(), 2147483647);
    assert_eq!(rect.bottom(), -3 * 2147483648);
    assert_eq!(rect.top(), -2147483648);
}

#[test]
fn rect_contains_its_edges() {
    let rect = Rect::from_x_y_w_h(32, 64, 32, 32);
    assert!(rect.contains(Point { x: 32, y: 64 }));
    assert!(rect.contains(Point { x: 16, y: 48 }));
    assert!(rect.contains(Point { x: 48, y: 80 }));
    assert!(rect.contains(Point { x: 16, y: 80 }));
    assert!(!rect.contains(Point { x: 15, y: 64 }));
    assert!(!rect.contains(Point { x: 49, y: 64 }));
    assert!(!rect.contains(Point { x: 32, y: 47 }));
    assert!(!rect.contains(Point { x: 32, y: 81 }));
}

#[test]
fn new_tile_is_white_with_a_black_stroke() {
    let rect = Rect::from_x_y_w_h(1, 2, 3, 4);
    let tile = StyledRect::new(rect);
    assert_eq!(tile.rect, rect);
    assert_eq!(tile.fill_color, Color::white());
    assert_eq!(tile.fill_color, Color::new(255, 255, 255));
    assert_eq!(tile.stroke_color, Color::black());
    assert_eq!(tile.stroke_color, Color::new(0, 0, 0));
    assert_eq!(tile.stroke_weight, 1);
    assert!(!tile.styled);
}

#[test]
fn paint_once_keeps_the_first_colour() {
    let mut tile = StyledRect::new(Rect::from_x_y_w_h(0, 0, 32, 32));
    let first = Color::new(10, 20, 30);
    let second = Color::new(40, 50, 60);
    tile.paint(first, Policy::PaintOnce);
    assert_eq!(tile.fill_color, first);
    assert_eq!(tile.stroke_color, first);
    assert!(tile.styled);
    let once = tile;
    tile.paint(second, Policy::PaintOnce);
    assert_eq!(tile, once);
    tile.paint(second, Policy::PaintOnce);
    assert_eq!(tile, once);
}

#[test]
fn repaint_always_shows_the_last_colour() {
    let mut tile = StyledRect::new(Rect::from_x_y_w_h(0, 0, 32, 32));
    let first = Color::new(10, 20, 30);
    let second = Color::new(40, 50, 60);
    tile.paint(first, Policy::RepaintAlways);
    assert_eq!(tile.fill_color, first);
    assert_eq!(tile.stroke_color, first);
    assert!(!tile.styled);
    tile.paint(second, Policy::RepaintAlways);
    assert_eq!(tile.fill_color, second);
    assert_eq!(tile.stroke_color, second);
    assert!(!tile.styled);
    assert_eq!(tile.rect, Rect::from_x_y_w_h(0, 0, 32, 32));
    assert_eq!(tile.stroke_weight, 1);
}

#[test]
fn repaint_always_paints_over_a_tile_painted_once() {
    let mut tile = StyledRect::new(Rect::from_x_y_w_h(0, 0, 32, 32));
    tile.paint(Color::new(1, 1, 1), Policy::PaintOnce);
    tile.paint(Color::new(2, 2, 2), Policy::RepaintAlways);
    assert_eq!(tile.fill_color, Color::new(2, 2, 2));
    assert!(tile.styled);
}

#[test]
fn tile_wants_paint_under_the_pointer_only() {
    let mut tile = StyledRect::new(Rect::from_x_y_w_h(0, 0, 32, 32));
    let inside = Point { x: 16, y: -16 };
    let outside = Point { x: 17, y: 0 };
    assert!(tile.wants_paint(inside, Policy::PaintOnce));
    assert!(tile.wants_paint(inside, Policy::RepaintAlways));
    assert!(!tile.wants_paint(outside, Policy::PaintOnce));
    assert!(!tile.wants_paint(outside, Policy::RepaintAlways));
    tile.paint(Color::new(1, 2, 3), Policy::PaintOnce);
    assert!(!tile.wants_paint(inside, Policy::PaintOnce));
    assert!(tile.wants_paint(inside, Policy::RepaintAlways));
}

#[test]
fn random_colours_stay_below_255() {
    for _ in 0..2000 {
        let color = generate_random_color();
        assert!(color.red < 255);
        assert!(color.green < 255);
        assert!(color.blue < 255);
    }
}

#[test]
fn random_colours_vary() {
    let first = generate_random_color();
    let mut reds = vec![first.red];
    let mut differs = false;
    for _ in 0..200 {
        let next = generate_random_color();
        differs = differs || next != first;
        reds.push(next.red);
    }
    assert!(differs);
    assert!(reds.iter().any(|red| *red != 0));
    assert!(reds.iter().any(|red| *red != reds[0]));
}
