use dvd_term::text::strip_blank_lines;
use dvd_term::util::fig_size;

#[test]
fn single_line_measures_its_length() {
    let v = fig_size("abc").unwrap();
    assert_eq!(v.x, 3);
    assert_eq!(v.y, 1);
}

#[test]
fn empty_input_measures_zero() {
    let v = fig_size("").unwrap();
    assert_eq!(v.x, 0);
    assert_eq!(v.y, 0);
}

#[test]
fn height_excludes_blank_lines() {
    // four lines, two blank (one empty, one all spaces)
    let v = fig_size("ab\n\n  \ncdef").unwrap();
    assert_eq!(v.x, 4);
    assert_eq!(v.y, 2);
}

#[test]
fn crlf_line_endings_are_one_ending() {
    let v = fig_size("a\r\nb").unwrap();
    assert_eq!(v.x, 1);
    assert_eq!(v.y, 2);
}

#[test]
fn width_ignores_blank_lines() {
    // the longest line is blank; neither dimension sees it
    let v = fig_size("ab\n      ").unwrap();
    assert_eq!(v.x, 2);
    assert_eq!(v.y, 1);
}

#[test]
fn wide_blank_line_does_not_shift_the_measure() {
    let before = fig_size("a\n  ").unwrap();
    assert_eq!(before.x, 1);
    assert_eq!(before.y, 1);
    let stripped = strip_blank_lines("a\n  ");
    assert_eq!(stripped.as_str(), "a");
    let after = fig_size(stripped.as_str()).unwrap();
    assert_eq!(before, after);
}

#[test]
fn unicode_whitespace_counts_as_blank() {
    // a line of no-break spaces is blank, as trimming treats it
    let v = fig_size("ab\n\u{00A0}\u{00A0}\u{00A0}").unwrap();
    assert_eq!(v.x, 2);
    assert_eq!(v.y, 1);
}

#[test]
fn strip_removes_interior_blank_lines() {
    let s = strip_blank_lines("ab\n\n  \ncdef");
    assert_eq!(s.as_str(), "ab\ncdef");
}

#[test]
fn measure_is_stable_under_strip() {
    // glyph-like output with interior blank padding rows
    let raw = "  ##  \n\n ###  \n      \n##  ##";
    let before = fig_size(raw).unwrap();
    let stripped = strip_blank_lines(raw);
    let after = fig_size(stripped.as_str()).unwrap();
    assert_eq!(before.x, after.x);
    assert_eq!(before.y, after.y);
    assert_eq!(after.y, 3);
}

#[test]
fn strip_is_idempotent() {
    let raw = "one\n\ntwo\n   \nthree";
    let once = strip_blank_lines(raw);
    let twice = strip_blank_lines(once.as_str());
    assert_eq!(once, twice);
}
