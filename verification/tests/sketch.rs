use paint_grid::capture::{file_name_with_entropy, generate_file_name, ENTROPY_LEN};
use paint_grid::color::Color;
use paint_grid::draw::{draw_squares, Quad};
use paint_grid::geometry::{HalfPoint, Point, Rect, Viewport};
use paint_grid::grid::{build_grid, ZeroOffset};
use paint_grid::sketch::{event, model, recolor, Action, Input, Model};
use paint_grid::square::{Policy, StyledRect};

fn window() -> Viewport {
    Viewport { left: -320, right: 320, top: 240, bottom: -240 }
}

fn is_capture_name(exe_name: &str, name: &str) -> bool {
    let chars: Vec<char> = name.chars().collect();
    let start = exe_name.chars().count();
    chars.len() == start + 15
        && chars[..start].iter().collect::<String>() == exe_name
        && chars[start] == '_'
        && chars[start + 1..start + 11].iter().all(|c| c.is_ascii_alphanumeric())
        && chars[start + 11..].iter().collect::<String>() == ".png"
}

#[test]
fn file_name_is_put_together_in_order() {
    assert_eq!(file_name_with_entropy("sketch", "a1B2c3D4e5"), "sketch_a1B2c3D4e5.png");
    assert_eq!(file_name_with_entropy("", "0000000000"), "_0000000000.png");
    assert_eq!(file_name_with_entropy("my_app.bin", "zzzzzzzzzZ"), "my_app.bin_zzzzzzzzzZ.png");
}

#[test]
fn generated_file_name_has_the_shape() {
    assert_eq!(ENTROPY_LEN, 10);
    for _ in 0..200 {
        let name = generate_file_name("sketch");
        assert!(is_capture_name("sketch", &name));
        assert!(name.starts_with("sketch_"));
        assert!(name.ends_with(".png"));
        assert_eq!(name.len(), 6 + 1 + 10 + 4);
    }
}

#[test]
fn generated_file_name_keeps_a_name_that_is_not_ascii() {
    let name = generate_file_name("skizze_ä");
    assert!(is_capture_name("skizze_ä", &name));
}

#[test]
fn two_captures_get_different_names() {
    let first = generate_file_name("sketch");
    let second = generate_file_name("sketch");
    assert_ne!(first, second);
}

#[test]
fn model_starts_with_a_fresh_grid() {
    let state = model(&window(), 32, ZeroOffset::Once, Policy::PaintOnce);
    assert_eq!(state.policy, Policy::PaintOnce);
    assert_eq!(state.grid, build_grid(&window(), 32, ZeroOffset::Once));
    assert_eq!(state.grid.len(), 285);
    let state = model(&window(), 16, ZeroOffset::Twice, Policy::RepaintAlways);
    assert_eq!(state.policy, Policy::RepaintAlways);
    assert_eq!(state.grid, build_grid(&window(), 16, ZeroOffset::Twice));
}

fn check_recolor(before: &Vec<StyledRect>, after: &Vec<StyledRect>, at: Point, policy: Policy) {
    assert_eq!(before.len(), after.len());
    for (old, new) in before.iter().zip(after.iter()) {
        if old.wants_paint(at, policy) {
            assert_eq!(new.fill_color, new.stroke_color);
            assert!(new.fill_color.red < 255);
            assert!(new.fill_color.green < 255);
            assert!(new.fill_color.blue < 255);
            assert_eq!(new.rect, old.rect);
            assert_eq!(new.stroke_weight, old.stroke_weight);
            assert_eq!(new.styled, policy == Policy::PaintOnce || old.styled);
        } else {
            assert_eq!(new, old);
        }
    }
}

#[test]
fn recolor_paints_the_tile_under_the_pointer() {
    let mut grid = build_grid(&window(), 32, ZeroOffset::Once);
    let before = grid.clone();
    let at = Point { x: 40, y: -70 };
    recolor(&mut grid, at, Policy::PaintOnce);
    check_recolor(&before, &grid, at, Policy::PaintOnce);
    let painted: Vec<&StyledRect> = grid.iter().filter(|s| s.styled).collect();
    assert_eq!(painted.len(), 1);
    assert_eq!(painted[0].rect, Rect::from_x_y_w_h(32, -64, 32, 32));
}

#[test]
fn recolor_on_a_shared_corner_paints_four_tiles() {
    let mut grid = build_grid(&window(), 32, ZeroOffset::Once);
    let before = grid.clone();
    let at = Point { x: 16, y: 16 };
    recolor(&mut grid, at, Policy::PaintOnce);
    check_recolor(&before, &grid, at, Policy::PaintOnce);
    assert_eq!(grid.iter().filter(|s| s.styled).count(), 4);
}

#[test]
fn recolor_outside_the_grid_changes_nothing() {
    let mut grid = build_grid(&window(), 32, ZeroOffset::Once);
    let before = grid.clone();
    recolor(&mut grid, Point { x: 320, y: 0 }, Policy::RepaintAlways);
    assert_eq!(grid, before);
}

#[test]
fn recolor_twice_under_paint_once_keeps_the_first_colour() {
    let mut grid = build_grid(&window(), 32, ZeroOffset::Once);
    let at = Point { x: 3, y: 3 };
    recolor(&mut grid, at, Policy::PaintOnce);
    let once = grid.clone();
    for _ in 0..50 {
        recolor(&mut grid, at, Policy::PaintOnce);
        assert_eq!(grid, once);
    }
}

#[test]
fn recolor_twice_under_repaint_always_may_change_the_colour() {
    let mut grid = build_grid(&window(), 32, ZeroOffset::Once);
    let at = Point { x: 3, y: 3 };
    recolor(&mut grid, at, Policy::RepaintAlways);
    let first = grid.clone();
    let mut changed = false;
    for _ in 0..100 {
        let before = grid.clone();
        recolor(&mut grid, at, Policy::RepaintAlways);
        check_recolor(&before, &grid, at, Policy::RepaintAlways);
        changed = changed || grid != first;
    }
    assert!(changed);
    assert!(grid.iter().all(|s| !s.styled));
}

#[test]
fn recolor_gives_stacked_tiles_a_colour_each() {
    let win = Viewport { left: -10, right: 10, top: 10, bottom: -10 };
    let mut grid = build_grid(&win, 32, ZeroOffset::Twice);
    let before = grid.clone();
    let at = Point { x: 0, y: 0 };
    recolor(&mut grid, at, Policy::PaintOnce);
    check_recolor(&before, &grid, at, Policy::PaintOnce);
    assert_eq!(grid.iter().filter(|s| s.styled).count(), 4);
}

#[test]
fn event_with_the_capture_key_asks_for_a_frame() {
    let mut state = model(&window(), 32, ZeroOffset::Once, Policy::PaintOnce);
    let before = state.grid.clone();
    let action = event(&mut state, Input::CaptureKey { exe_name: String::from("sketch") });
    match action {
        Action::CaptureFrame { path } => assert!(is_capture_name("sketch", &path)),
        Action::Nothing => panic!("the capture key asks for a frame"),
    }
    assert_eq!(state.grid, before);
    assert_eq!(state.policy, Policy::PaintOnce);
}

#[test]
fn event_with_the_button_held_recolors() {
    let mut state = model(&window(), 32, ZeroOffset::Once, Policy::PaintOnce);
    let before = state.grid.clone();
    let at = Point { x: -100, y: 100 };
    let action = event(&mut state, Input::Window { pressed_at: Some(at) });
    assert_eq!(action, Action::Nothing);
    check_recolor(&before, &state.grid, at, Policy::PaintOnce);
    assert_eq!(state.grid.iter().filter(|s| s.styled).count(), 1);
    let once = state.grid.clone();
    let action = event(&mut state, Input::Window { pressed_at: Some(at) });
    assert_eq!(action, Action::Nothing);
    assert_eq!(state.grid, once);
}

#[test]
fn event_follows_the_policy_of_the_model() {
    let mut state = Model {
        grid: build_grid(&window(), 32, ZeroOffset::Once),
        policy: Policy::RepaintAlways,
    };
    let at = Point { x: 0, y: 0 };
    event(&mut state, Input::Window { pressed_at: Some(at) });
    let first = state.grid.clone();
    let mut changed = false;
    for _ in 0..100 {
        event(&mut state, Input::Window { pressed_at: Some(at) });
        changed = changed || state.grid != first;
    }
    assert!(changed);
    assert_eq!(state.policy, Policy::RepaintAlways);
}

#[test]
fn event_with_the_button_released_does_nothing() {
    let mut state = model(&window(), 32, ZeroOffset::Once, Policy::RepaintAlways);
    let before = state.grid.clone();
    assert_eq!(event(&mut state, Input::Window { pressed_at: None }), Action::Nothing);
    assert_eq!(state.grid, before);
    assert_eq!(event(&mut state, Input::Other), Action::Nothing);
    assert_eq!(state.grid, before);
}

#[test]
fn draw_squares_makes_a_quad_for_each_square() {
    let mut squares = vec![
        StyledRect::new(Rect::from_x_y_w_h(0, 0, 32, 32)),
        StyledRect::new(Rect::from_x_y_w_h(32, -64, 3, 3)),
    ];
    squares[1].paint(Color::new(7, 8, 9), Policy::PaintOnce);
    let quads = draw_squares(&squares);
    assert_eq!(
        quads,
        vec![
            Quad {
                top_left: HalfPoint { x: -32, y: 32 },
                top_right: HalfPoint { x: 32, y: 32 },
                bottom_right: HalfPoint { x: 32, y: -32 },
                bottom_left: HalfPoint { x: -32, y: -32 },
                stroke_weight: 1,
                stroke_color: Color::new(0, 0, 0),
                color: Color::new(255, 255, 255),
            },
            Quad {
                top_left: HalfPoint { x: 61, y: -125 },
                top_right: HalfPoint { x: 67, y: -125 },
                bottom_right: HalfPoint { x: 67, y: -131 },
                bottom_left: HalfPoint { x: 61, y: -131 },
                stroke_weight: 1,
                stroke_color: Color::new(7, 8, 9),
                color: Color::new(7, 8, 9),
            },
        ]
    );
    assert_eq!(draw_squares(&Vec::new()), Vec::<Quad>::new());
}
