use dvd_term::app::{frame_time_ms, App, KeyEvt, KeyInput};
use dvd_term::config::{Config, DEFAULT_COLOR, DEFAULT_SPEED};
use dvd_term::util::Vec2;

fn tiny_app() -> App {
    App {
        input: vec![String::from("hi")],
        logo_strings: vec![String::from("hi")],
        logo_sizes: vec![Vec2::new(2, 1)],
        canvas_size: Vec2::new(80, 24),
        colors: vec![20],
        speed: 8,
        random: true,
        positions: vec![Vec2::new(5, 5)],
        directions: vec![Vec2::new(1, 1)],
        running: true,
        plain: false,
    }
}

#[test]
fn random_color_avoids_reserved_background() {
    for _ in 0..200 {
        let c = App::generate_random_color();
        assert!((1..=231).contains(&c));
        assert_ne!(c, 16);
    }
}

#[test]
fn reroll_differs_from_previous_color() {
    let mut app = tiny_app();
    for _ in 0..100 {
        let prev = app.colors[0];
        app.randomize_color(0);
        let c = app.colors[0];
        assert_ne!(c, prev);
        assert_ne!(c, 16);
        assert!((1..=231).contains(&c));
    }
}

fn key(code: KeyInput) -> KeyEvt {
    KeyEvt { code, ctrl_only: false, press: true, state_empty: true }
}

#[test]
fn q_quits() {
    let mut app = tiny_app();
    app.apply_key(Some(key(KeyInput::Character('q'))));
    assert!(!app.running);
}

#[test]
fn escape_quits() {
    let mut app = tiny_app();
    app.apply_key(Some(key(KeyInput::Escape)));
    assert!(!app.running);
}

#[test]
fn control_c_press_quits() {
    let mut app = tiny_app();
    let k = KeyEvt {
        code: KeyInput::Character('c'),
        ctrl_only: true,
        press: true,
        state_empty: true,
    };
    app.apply_key(Some(k));
    assert!(!app.running);
}

#[test]
fn control_c_release_does_not_quit() {
    let mut app = tiny_app();
    let k = KeyEvt {
        code: KeyInput::Character('c'),
        ctrl_only: true,
        press: false,
        state_empty: true,
    };
    app.apply_key(Some(k));
    assert!(app.running);
}

#[test]
fn plain_c_does_not_quit() {
    let mut app = tiny_app();
    app.apply_key(Some(key(KeyInput::Character('c'))));
    assert!(app.running);
}

#[test]
fn other_keys_and_silence_change_nothing() {
    let mut app = tiny_app();
    app.apply_key(Some(key(KeyInput::Character('x'))));
    assert!(app.running);
    app.apply_key(Some(key(KeyInput::Other)));
    assert!(app.running);
    app.apply_key(None);
    assert!(app.running);
}

#[test]
fn frame_budget_is_a_whole_second_split_by_speed() {
    assert_eq!(frame_time_ms(8), 125);
    assert_eq!(frame_time_ms(1), 1000);
    assert_eq!(frame_time_ms(3), 333);
}

#[test]
fn config_carries_the_settings_verbatim() {
    let c = Config {
        text: vec![String::from("DVD")],
        font_path: String::new(),
        color: DEFAULT_COLOR,
        random: false,
        speed: DEFAULT_SPEED,
        plain: false,
        art_path: String::new(),
    };
    assert_eq!(c.color, 15);
    assert_eq!(c.speed, 8);
    assert_eq!(c.text.len(), 1);
}

#[test]
fn quit_is_sticky() {
    let mut app = tiny_app();
    app.apply_key(Some(key(KeyInput::Character('q'))));
    assert!(!app.running);
    app.apply_key(None);
    assert!(!app.running);
}
