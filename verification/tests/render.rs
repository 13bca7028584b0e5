use dvd_term::app::App;
use dvd_term::render::DrawOp;
use dvd_term::util::Vec2;

fn block_app() -> App {
    App {
        input: vec![String::from("zz")],
        logo_strings: vec![String::from("ab\ncd")],
        logo_sizes: vec![Vec2::new(2, 2)],
        canvas_size: Vec2::new(10, 10),
        colors: vec![5],
        speed: 8,
        random: false,
        positions: vec![Vec2::new(0, 0)],
        directions: vec![Vec2::new(1, 1)],
        running: true,
        plain: false,
    }
}

fn glyphs(ops: &[DrawOp]) -> Vec<(u16, u16, u8, char)> {
    let mut out = Vec::new();
    for op in ops {
        match op {
            DrawOp::Glyph { x, y, color, ch } => out.push((*x, *y, *color, *ch)),
            DrawOp::Text { .. } => panic!("expected only glyph operations"),
        }
    }
    out
}

#[test]
fn block_renders_cell_by_cell_in_order() {
    let app = block_app();
    let ops = app.render_frame();
    let cells = glyphs(&ops);
    assert_eq!(
        cells,
        vec![(0, 0, 5, 'a'), (1, 0, 5, 'b'), (0, 1, 5, 'c'), (1, 1, 5, 'd')]
    );
}

#[test]
fn spaces_are_transparent() {
    let mut app = block_app();
    app.logo_strings = vec![String::from("a b")];
    app.logo_sizes = vec![Vec2::new(3, 1)];
    let ops = app.render_frame();
    let cells = glyphs(&ops);
    assert_eq!(cells, vec![(0, 0, 5, 'a'), (2, 0, 5, 'b')]);
}

#[test]
fn cells_off_the_canvas_are_not_drawn() {
    let mut app = block_app();
    app.positions = vec![Vec2::new(-1, 0)];
    let ops = app.render_frame();
    let cells = glyphs(&ops);
    // the left column sits off-screen; only the right column remains
    assert_eq!(cells, vec![(0, 0, 5, 'b'), (0, 1, 5, 'd')]);
}

#[test]
fn plain_frame_prints_the_raw_text() {
    let mut app = block_app();
    app.plain = true;
    app.positions = vec![Vec2::new(3, 4)];
    let ops = app.render_frame();
    assert_eq!(ops.len(), 1);
    match &ops[0] {
        DrawOp::Text { x, y, color, text } => {
            assert_eq!((*x, *y, *color), (3, 4, 5));
            assert_eq!(text.as_str(), "zz");
        }
        DrawOp::Glyph { .. } => panic!("expected a text operation"),
    }
}

#[test]
fn plain_logo_off_canvas_is_skipped() {
    let mut app = block_app();
    app.plain = true;
    app.positions = vec![Vec2::new(-2, 4)];
    let ops = app.render_frame();
    assert_eq!(ops.len(), 0);
}

#[test]
fn later_logos_draw_after_earlier_ones() {
    let mut app = block_app();
    app.input = vec![String::from("zz"), String::from("w")];
    app.logo_strings = vec![String::from("a"), String::from("b")];
    app.logo_sizes = vec![Vec2::new(1, 1), Vec2::new(1, 1)];
    app.colors = vec![5, 7];
    app.positions = vec![Vec2::new(2, 2), Vec2::new(2, 2)];
    app.directions = vec![Vec2::new(1, 1), Vec2::new(1, 1)];
    let ops = app.render_frame();
    let cells = glyphs(&ops);
    assert_eq!(cells, vec![(2, 2, 5, 'a'), (2, 2, 7, 'b')]);
}

#[test]
fn art_logo_keeps_its_block_in_a_plain_frame() {
    // two logos but only one plain-text source: the second falls back to
    // its glyph block even when the frame is plain
    let mut app = block_app();
    app.plain = true;
    app.input = vec![String::from("zz")];
    app.logo_strings = vec![String::from("a"), String::from("xy")];
    app.logo_sizes = vec![Vec2::new(1, 1), Vec2::new(2, 1)];
    app.colors = vec![5, 7];
    app.positions = vec![Vec2::new(0, 0), Vec2::new(4, 4)];
    app.directions = vec![Vec2::new(1, 1), Vec2::new(1, 1)];
    let ops = app.render_frame();
    assert_eq!(ops.len(), 3);
    assert!(matches!(&ops[0], DrawOp::Text { .. }));
    assert!(matches!(&ops[1], DrawOp::Glyph { ch: 'x', .. }));
    assert!(matches!(&ops[2], DrawOp::Glyph { ch: 'y', .. }));
}
