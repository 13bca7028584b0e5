//! Geometry primitives and the thin bridges to the terminal, the random
//! number generator and the glyph font.

use vstd::prelude::*;

use crate::error::AppError;
use crate::text::{
    block_height, block_width, count_nonblank, keep_nonblank, lemma_split_lines_shape, max_width,
    split_into_lines, split_lines, strip_blank_lines, strip_blank_spec,
};

verus! {

/// Largest width or height (in cells) a logo may measure. Keeps every
/// coordinate computation comfortably inside `i32`.
pub const SIZE_LIMIT: i32 = 0x0100_0000;

/// Bound on the magnitude of a sprite coordinate; positions stay far inside
/// it, so `position + velocity` never overflows.
pub const POS_LIMIT: i32 = 0x1000_0000;

/// Largest terminal dimension; the terminal reports its size as two `u16`s.
pub const CANVAS_LIMIT: i32 = 0xFFFF;

/// Integer pair used for positions, velocities and measured sizes.
#[derive(Clone, Copy, Debug, PartialEq, Eq, Structural)]
pub struct Vec2 {
    pub x: i32,
    pub y: i32,
}

impl Default for Vec2 {
    fn default() -> (r: Self)
        ensures
            r.x == 0,
            r.y == 0,
    {
        Vec2 { x: 0, y: 0 }
    }
}

impl Vec2 {
    /// Pair the two coordinates up.
    pub fn new(x: i32, y: i32) -> (r: Self)
        ensures
            r.x == x,
            r.y == y,
    {
        Vec2 { x, y }
    }

    /// A uniformly random point such that a sprite of size `(xoff, yoff)`
    /// placed there lies strictly inside a `width` by `height` canvas.
    pub fn rand(width: i32, height: i32, xoff: i32, yoff: i32) -> (r: Self)
        requires
            0 <= xoff < width,
            0 <= yoff < height,
        ensures
            0 <= r.x,
            r.x + xoff < width,
            0 <= r.y,
            r.y + yoff < height,
    {
        let x = rand_range_i32(0, width - xoff);
        let y = rand_range_i32(0, height - yoff);
        Vec2 { x, y }
    }

    /// A random direction: each axis independently `+1` or `-1`.
    pub fn rand_dir() -> (r: Self)
        ensures
            r.x == 1 || r.x == -1,
            r.y == 1 || r.y == -1,
    {
        let x: i32 = if rand_coin() {
            1
        } else {
            -1
        };
        let y: i32 = if rand_coin() {
            1
        } else {
            -1
        };
        Vec2 { x, y }
    }
}

/// Relies on `rand::random_range` (thread-local generator): a uniformly
/// random integer in `[lo, hi)`; the call panics only on an empty range,
/// which the precondition rules out.
#[verifier::external_body]
pub(crate) fn rand_range_i32(lo: i32, hi: i32) -> (r: i32)
    requires
        lo < hi,
    ensures
        lo <= r < hi,
{
    rand::random_range(lo..hi)
}

/// Relies on `rand::random::<bool>`: a coin flip. Nothing can be promised
/// of the outcome.
#[verifier::external_body]
fn rand_coin() -> bool {
    rand::random::<bool>()
}

/// Relies on `crossterm::terminal::size`: on success the terminal's
/// dimensions come back as a pair of `u16`s, so both components fit in
/// `[0, CANVAS_LIMIT]`. A failure of the underlying query is mapped to the
/// library's own error.
#[verifier::external_body]
pub fn term_size() -> (r: Result<Vec2, AppError>)
    ensures
        r matches Ok(v) ==> 0 <= v.x <= CANVAS_LIMIT && 0 <= v.y <= CANVAS_LIMIT,
        r matches Err(e) ==> e == AppError::TerminalUnavailable,
{
    match crossterm::terminal::size() {
        Ok((cols, rows)) => Ok(Vec2 { x: cols as i32, y: rows as i32 }),
        Err(_) => Err(AppError::TerminalUnavailable),
    }
}

/// Declares `figlet_rs::FIGfont` so fonts can pass through signatures; the
/// value is opaque, only [`fig_convert`] looks inside it.
#[verifier::external_type_specification]
#[verifier::external_body]
pub struct ExFIGfont(figlet_rs::FIGfont);

/// What the glyph font draws for a message: the render depends on the font
/// and the message alone, so the result bears a name. `None` stands for a
/// message the font draws nothing for.
pub uninterp spec fn fig_of(font: figlet_rs::FIGfont, s: Seq<char>) -> Option<Seq<char>>;

/// Relies on `figlet_rs::FIGfont::convert` and on the `Display` of the
/// `FIGure` it returns: the message rendered as a glyph block, named
/// [`fig_of`], or `None` when the font renders none of it (an empty
/// message, or no glyph for any of its characters).
#[verifier::external_body]
fn fig_convert(font: &figlet_rs::FIGfont, input: &str) -> (r: Option<String>)
    ensures
        r is Some <==> fig_of(*font, input@) is Some,
        r matches Some(s) ==> fig_of(*font, input@) matches Some(raw) && s@ == raw,
{
    match font.convert(input) {
        Some(figure) => Some(figure.to_string()),
        None => None,
    }
}

/// Render `input` through the glyph font and strip the blank lines the
/// font's padding leaves behind: exactly the stripped form of the named
/// render, and `Ok` exactly when the font draws something.
pub fn figlet(input: &str, font: &figlet_rs::FIGfont) -> (r: Result<String, AppError>)
    ensures
        r is Ok <==> fig_of(*font, input@) is Some,
        r matches Err(e) ==> e == AppError::RenderConversionFailure,
        r matches Ok(s) ==> fig_of(*font, input@) matches Some(raw) && s@ == strip_blank_spec(
            raw,
        ),
{
    match fig_convert(font, input) {
        Some(rendered) => {
            let stripped = strip_blank_lines(rendered.as_str());
            proof {
                assert(stripped@ == strip_blank_spec(rendered@));
            }
            Ok(stripped)
        },
        None => Err(AppError::RenderConversionFailure),
    }
}

/// Measure a block of text: width is the longest non-blank line, height
/// the number of non-blank lines — blank padding lines count for neither
/// dimension. The length bound is a machine limit: it keeps the measured
/// size inside `i32`.
pub fn fig_size(input: &str) -> (r: Result<Vec2, AppError>)
    requires
        input@.len() <= SIZE_LIMIT,
    ensures
        r matches Ok(v) && v.x == block_width(input@) && v.y == block_height(input@),
        r matches Ok(v) && 0 <= v.x <= SIZE_LIMIT && 0 <= v.y <= SIZE_LIMIT + 1,
{
    let lines = split_into_lines(input);
    let ghost dv = lines.deep_view();
    proof {
        lemma_split_lines_shape(input@);
    }
    let n = lines.len();
    let mut w: i32 = 0;
    let mut h: usize = 0;
    let mut i: usize = 0;
    while i < n
        invariant
            n == dv.len(),
            dv == split_lines(input@),
            lines.deep_view() == dv,
            input@.len() <= SIZE_LIMIT,
            forall|k: int| 0 <= k < dv.len() ==> (#[trigger] dv[k]).len() <= input@.len(),
            0 <= i <= n,
            0 <= w <= SIZE_LIMIT,
            w == max_width(keep_nonblank(dv.take(i as int))),
            h <= i,
            h == count_nonblank(dv.take(i as int)),
        decreases n - i,
    {
        proof {
            assert(dv.take(i + 1).drop_last() =~= dv.take(i as int));
            assert(dv.take(i + 1).last() == dv[i as int]);
        }
        if !crate::text::line_is_blank(lines[i].as_str()) {
            let l = lines[i].unicode_len();
            if l as i32 > w {
                w = l as i32;
            }
            h = h + 1;
            proof {
                let kp = keep_nonblank(dv.take(i as int));
                assert(keep_nonblank(dv.take(i + 1)) == kp.push(dv[i as int]));
                assert(kp.push(dv[i as int]).drop_last() =~= kp);
                assert(kp.push(dv[i as int]).last() == dv[i as int]);
            }
        }
        i = i + 1;
    }
    proof {
        assert(dv.take(n as int) =~= dv);
    }
    Ok(Vec2 { x: w, y: h as i32 })
}

} // verus!
