use dvd_term::app::App;
use dvd_term::error::AppError;
use dvd_term::util::Vec2;

fn one_logo(pos: Vec2, dir: Vec2, canvas: Vec2, random: bool) -> App {
    App {
        input: vec![String::from("DVD")],
        logo_strings: vec![String::from("####\n####\n####\n####\n####\n####")],
        logo_sizes: vec![Vec2::new(40, 6)],
        canvas_size: canvas,
        colors: vec![15],
        speed: 8,
        random,
        positions: vec![pos],
        directions: vec![dir],
        running: true,
        plain: false,
    }
}

#[test]
fn free_flight_moves_one_cell() {
    // canvas 80x24, logo 40x6 at (10,10) flying (1,1): no bounce
    let mut app = one_logo(Vec2::new(10, 10), Vec2::new(1, 1), Vec2::new(80, 24), false);
    app.update_with_canvas(Vec2::new(80, 24));
    assert_eq!(app.positions[0], Vec2::new(11, 11));
    assert_eq!(app.directions[0], Vec2::new(1, 1));
    assert_eq!(app.colors[0], 15);
}

#[test]
fn horizontal_bounce_clamps_and_reflects() {
    // at (39,10) flying (1,0): 39+1+40 >= 80 fires, clamp to 80-40-1=39,
    // reflect, then advance to 38; the vertical axis is untouched
    let mut app = one_logo(Vec2::new(39, 10), Vec2::new(1, 0), Vec2::new(80, 24), false);
    app.update_with_canvas(Vec2::new(80, 24));
    assert_eq!(app.positions[0].x, 38);
    assert_eq!(app.directions[0].x, -1);
    assert_eq!(app.positions[0].y, 10);
    assert_eq!(app.directions[0].y, 0);
}

#[test]
fn vertical_far_clamp_has_no_extra_margin() {
    // the documented asymmetry: the bottom clamp is canvas.y - height,
    // not canvas.y - height - 1
    let mut app = one_logo(Vec2::new(10, 17), Vec2::new(0, 1), Vec2::new(80, 24), false);
    app.update_with_canvas(Vec2::new(80, 24));
    assert_eq!(app.positions[0].y, 17);
    assert_eq!(app.directions[0].y, -1);
    assert_eq!(app.positions[0].x, 10);
    assert_eq!(app.directions[0].x, 0);
}

#[test]
fn near_edge_bounce_clamps_to_zero() {
    let mut app = one_logo(Vec2::new(0, 10), Vec2::new(-1, 1), Vec2::new(80, 24), false);
    app.update_with_canvas(Vec2::new(80, 24));
    // clamp to 0, reflect to +1, advance to 1
    assert_eq!(app.positions[0].x, 1);
    assert_eq!(app.directions[0].x, 1);
}

#[test]
fn bounce_recolors_when_randomized() {
    let mut app = one_logo(Vec2::new(39, 10), Vec2::new(1, 1), Vec2::new(80, 24), true);
    app.update_with_canvas(Vec2::new(80, 24));
    let c = app.colors[0];
    assert_ne!(c, 15);
    assert_ne!(c, 16);
    assert!((1..=231).contains(&c));
}

#[test]
fn no_bounce_keeps_color_even_when_randomized() {
    let mut app = one_logo(Vec2::new(10, 10), Vec2::new(1, 1), Vec2::new(80, 24), true);
    app.update_with_canvas(Vec2::new(80, 24));
    assert_eq!(app.colors[0], 15);
}

#[test]
fn velocities_stay_unit_for_many_frames() {
    let mut app = one_logo(Vec2::new(10, 10), Vec2::new(1, -1), Vec2::new(80, 24), false);
    for _ in 0..500 {
        app.update_with_canvas(Vec2::new(80, 24));
        let d = app.directions[0];
        assert!(d.x == 1 || d.x == -1);
        assert!(d.y == 1 || d.y == -1);
        let p = app.positions[0];
        assert!(p.x >= 0 && p.x + 40 <= 80);
        assert!(p.y >= 0 && p.y + 6 <= 24);
    }
}

#[test]
fn resize_flips_into_plain_mode_next_frame() {
    // 80x24: the 40x6 logo fits comfortably, art mode
    let app = one_logo(Vec2::new(10, 10), Vec2::new(1, 1), Vec2::new(80, 24), false);
    assert!(!app.should_use_plain_mode());
    // shrink to 20x24: 40 >= 20 - 40/2, plain mode must activate at once
    let mut app = one_logo(Vec2::new(10, 10), Vec2::new(1, 1), Vec2::new(20, 24), false);
    assert!(app.should_use_plain_mode());
    // the very next update uses the plain footprint (3x1 for "DVD"):
    // 11 + 3 < 20 means free flight, no clamp against the old 40-wide box
    app.update_with_canvas(Vec2::new(20, 24));
    assert_eq!(app.positions[0], Vec2::new(11, 11));
    assert_eq!(app.directions[0], Vec2::new(1, 1));
}

#[test]
fn update_queries_the_live_terminal() {
    // the live query may fail off a terminal; either way the contract holds
    let mut app = one_logo(Vec2::new(10, 10), Vec2::new(1, 1), Vec2::new(80, 24), false);
    match app.update() {
        Ok(()) => {
            let d = app.directions[0];
            assert!(d.x == 1 || d.x == -1);
            assert!(d.y == 1 || d.y == -1);
        }
        Err(e) => {
            assert_eq!(e, AppError::TerminalUnavailable);
            assert_eq!(app.positions[0], Vec2::new(10, 10));
        }
    }
    assert!(app.running);
}

#[test]
fn plain_flag_forces_plain_mode() {
    let mut app = one_logo(Vec2::new(10, 10), Vec2::new(1, 1), Vec2::new(80, 24), false);
    app.plain = true;
    assert!(app.should_use_plain_mode());
}

#[test]
fn get_logo_dimensions_follows_mode() {
    let app = one_logo(Vec2::new(10, 10), Vec2::new(1, 1), Vec2::new(80, 24), false);
    assert_eq!(app.get_logo_dimensions(0, false), (40, 6));
    assert_eq!(app.get_logo_dimensions(0, true), (3, 1));
}
