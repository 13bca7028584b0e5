use dvd_term::app::App;
use dvd_term::error::AppError;
use dvd_term::util::{fig_size, figlet, Vec2, SIZE_LIMIT};
use figlet_rs::FIGfont;

#[test]
fn vec2_helpers() {
    let v = Vec2::new(3, -4);
    assert_eq!(v.x, 3);
    assert_eq!(v.y, -4);
    let d = Vec2::default();
    assert_eq!(d, Vec2::new(0, 0));
}

#[test]
fn random_placement_fits_the_canvas() {
    for _ in 0..200 {
        let p = Vec2::rand(80, 24, 40, 6);
        assert!(p.x >= 0 && p.x + 40 < 80);
        assert!(p.y >= 0 && p.y + 6 < 24);
    }
}

#[test]
fn random_direction_is_unit() {
    for _ in 0..100 {
        let d = Vec2::rand_dir();
        assert!(d.x == 1 || d.x == -1);
        assert!(d.y == 1 || d.y == -1);
    }
}

#[test]
fn figlet_output_has_no_blank_lines() {
    let font = FIGfont::standard().unwrap();
    let s = figlet("DVD", &font).unwrap();
    assert!(!s.is_empty());
    // a real glyph render is a block several lines tall, not the input text
    assert!(s.lines().count() > 1);
    for line in s.lines() {
        assert!(!line.trim().is_empty());
    }
    // measuring the stripped render again changes nothing
    let size = fig_size(s.as_str()).unwrap();
    assert_eq!(size.y as usize, s.lines().count());
    assert!(size.x > 0);
}

#[test]
fn figlet_rejects_unrenderable_input() {
    let font = FIGfont::standard().unwrap();
    assert_eq!(figlet("", &font), Err(AppError::RenderConversionFailure));
}

#[test]
fn new_builds_one_logo_per_text() {
    let font = FIGfont::standard().unwrap();
    let app = App::new(
        vec![String::from("DVD")],
        &font,
        15,
        false,
        8,
        false,
        None,
        Vec2::new(300, 100),
    )
    .unwrap();
    assert_eq!(app.logo_strings.len(), 1);
    assert_eq!(app.logo_sizes.len(), 1);
    assert_eq!(app.colors, vec![15]);
    assert!(app.running);
    assert!(!app.plain);
    assert_eq!(app.speed, 8);
    assert_eq!(app.canvas_size, Vec2::new(300, 100));
    // the stored size is the measure of the stored block
    let measured = fig_size(app.logo_strings[0].as_str()).unwrap();
    assert_eq!(app.logo_sizes[0], measured);
    // spawn placement is inside the canvas
    let p = app.positions[0];
    let s = app.logo_sizes[0];
    assert!(p.x >= 0 && p.x + s.x < 300);
    assert!(p.y >= 0 && p.y + s.y < 100);
    let d = app.directions[0];
    assert!(d.x == 1 || d.x == -1);
    assert!(d.y == 1 || d.y == -1);
}

#[test]
fn art_becomes_one_extra_logo_kept_verbatim() {
    let font = FIGfont::standard().unwrap();
    let art = String::from(" /\\ \n/__\\");
    let app = App::new(
        vec![String::from("DVD")],
        &font,
        15,
        false,
        8,
        false,
        Some(art.clone()),
        Vec2::new(300, 100),
    )
    .unwrap();
    assert_eq!(app.logo_strings.len(), 2);
    assert_eq!(app.logo_strings[1], art);
    assert_eq!(app.logo_sizes[1], Vec2::new(4, 2));
}

#[test]
fn art_alone_always_succeeds() {
    // no text to render: nothing can fail but an oversized art block
    let font = FIGfont::standard().unwrap();
    let app = App::new(
        Vec::new(),
        &font,
        15,
        false,
        8,
        false,
        Some(String::from("##\n##")),
        Vec2::new(80, 24),
    )
    .unwrap();
    assert_eq!(app.logo_strings.len(), 1);
    assert_eq!(app.logo_sizes[0], Vec2::new(2, 2));
}

#[test]
fn oversized_art_is_rejected() {
    let font = FIGfont::standard().unwrap();
    let too_big = "x".repeat(SIZE_LIMIT as usize + 1);
    let r = App::new(
        Vec::new(),
        &font,
        15,
        false,
        8,
        false,
        Some(too_big),
        Vec2::new(300, 100),
    );
    match r {
        Ok(_) => panic!("oversized art must be rejected"),
        Err(e) => assert_eq!(e, AppError::LogoTooLarge),
    }
}

#[test]
fn random_colors_avoid_the_reserved_index() {
    let font = FIGfont::standard().unwrap();
    for _ in 0..20 {
        let app = App::new(
            vec![String::from("a"), String::from("b")],
            &font,
            15,
            true,
            8,
            false,
            None,
            Vec2::new(300, 100),
        )
        .unwrap();
        for &c in &app.colors {
            assert!((1..=231).contains(&c));
            assert_ne!(c, 16);
        }
    }
}

#[test]
fn logo_larger_than_canvas_spawns_at_origin() {
    let font = FIGfont::standard().unwrap();
    let app = App::new(
        vec![String::from("DVD")],
        &font,
        15,
        false,
        8,
        false,
        None,
        Vec2::new(3, 2),
    )
    .unwrap();
    assert_eq!(app.positions[0], Vec2::new(0, 0));
}
