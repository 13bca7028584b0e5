//! The simulation core: a set of logos with positions, velocities and
//! colors, advanced one frame at a time against the live terminal bounds.

use vstd::prelude::*;
use vstd::pervasive::VecAdditionalExecFns;

use crate::error::AppError;
use crate::text::{block_height, block_width, strip_blank_spec};
use crate::util::{fig_of, fig_size, figlet, rand_range_i32, term_size, Vec2, CANVAS_LIMIT,
    POS_LIMIT, SIZE_LIMIT};

verus! {

/// Smallest color index the random roll may produce.
pub const MIN_COLOR: u8 = 1;

/// Largest color index the random roll may produce.
pub const MAX_COLOR: u8 = 231;

/// The reserved background index: it renders as black on most terminal
/// themes, so the random roll never settles on it.
pub const BLACK_COLOR: u8 = 16;

/// Milliseconds in a second, for the frame budget.
pub const MILLISECONDS_PER_SECOND: u64 = 1000;

/// How long one frame may wait for input: the whole frame budget, which is
/// also the frame clock.
pub fn frame_time_ms(speed: u64) -> (r: u64)
    requires
        1 <= speed,
    ensures
        r == MILLISECONDS_PER_SECOND as int / speed as int,
{
    MILLISECONDS_PER_SECOND / speed
}

/// The aspects of one key event the quit decision looks at.
pub enum KeyInput {
    /// A printable character was typed.
    Character(char),
    /// The escape key.
    Escape,
    /// Anything else.
    Other,
}

/// One key event, reduced to what the simulation decides on.
pub struct KeyEvt {
    /// Which key.
    pub code: KeyInput,
    /// Control is held and no other modifier is.
    pub ctrl_only: bool,
    /// The event is a press, not a release or repeat.
    pub press: bool,
    /// No extra key state accompanies the event.
    pub state_empty: bool,
}

/// The keys that end the run: `q`, escape, or a bare control-c press.
pub open spec fn quits(k: KeyEvt) -> bool {
    ||| k.code == KeyInput::Character('q')
    ||| k.code == KeyInput::Escape
    ||| (k.code == KeyInput::Character('c') && k.ctrl_only && k.press && k.state_empty)
}

/// A velocity component the simulation can take a step with.
pub open spec fn dir_ok(d: int) -> bool {
    -1 <= d <= 1
}

/// A velocity component as the simulation creates and maintains them:
/// exactly one cell per frame, towards one side.
pub open spec fn vel_ok(d: int) -> bool {
    d == 1 || d == -1
}

/// One axis of the bounce check, before the move: clamped coordinate,
/// possibly reflected velocity, and whether the near or far edge was hit.
/// The far clamp leaves one cell of margin.
pub open spec fn bounce_h(pos: int, dir: int, w: int, c: int) -> (int, int, bool) {
    if pos + dir < 0 {
        (0, -dir, true)
    } else if pos + dir + w >= c {
        (c - w - 1, -dir, true)
    } else {
        (pos, dir, false)
    }
}

/// The vertical twin of [`bounce_h`]. Its far clamp sits one cell lower:
/// a deliberate asymmetry, kept for compatibility.
pub open spec fn bounce_v(pos: int, dir: int, h: int, c: int) -> (int, int, bool) {
    if pos + dir < 0 {
        (0, -dir, true)
    } else if pos + dir + h >= c {
        (c - h, -dir, true)
    } else {
        (pos, dir, false)
    }
}

/// A whole horizontal frame step for one logo: bounce check, then one move
/// with the (possibly reflected) velocity.
pub open spec fn step_h(pos: int, dir: int, w: int, c: int) -> (int, int, bool) {
    let b = bounce_h(pos, dir, w, c);
    (b.0 + b.1, b.1, b.2)
}

/// A whole vertical frame step for one logo.
pub open spec fn step_v(pos: int, dir: int, h: int, c: int) -> (int, int, bool) {
    let b = bounce_v(pos, dir, h, c);
    (b.0 + b.1, b.1, b.2)
}

/// A bounce reflects exactly the velocity component of its own axis: the
/// component is negated when and only when the step bounced.
pub proof fn lemma_step_reflective(pos: int, dir: int, w: int, c: int)
    ensures
        step_h(pos, dir, w, c).1 == if step_h(pos, dir, w, c).2 {
            -dir
        } else {
            dir
        },
        step_v(pos, dir, w, c).1 == if step_v(pos, dir, w, c).2 {
            -dir
        } else {
            dir
        },
{
}

/// After a horizontal step the logo lies inside the canvas, provided it
/// fits with two cells to spare and did not start far beyond the left edge.
pub proof fn lemma_step_h_in_bounds(pos: int, dir: int, w: int, c: int)
    requires
        dir_ok(dir),
        0 <= w,
        w + 2 <= c,
        pos >= -1,
    ensures
        0 <= step_h(pos, dir, w, c).0,
        step_h(pos, dir, w, c).0 + w <= c,
{
}

/// After a vertical step the logo lies inside the canvas, provided it fits
/// with one row to spare and started no lower than the far clamp line.
pub proof fn lemma_step_v_in_bounds(pos: int, dir: int, h: int, c: int)
    requires
        dir_ok(dir),
        0 <= h,
        h + 1 <= c,
        -1 <= pos <= c - h,
    ensures
        0 <= step_v(pos, dir, h, c).0,
        step_v(pos, dir, h, c).0 <= c - h,
{
}

/// The whole simulation state: per logo its plain-text source (where it has
/// one), rendered block, measured size, position, velocity and color, plus
/// the shared canvas snapshot and run flags.
pub struct App {
    /// The plain-text form of each text logo, in logo order. An art logo
    /// has no plain-text form, so this may be one entry shorter.
    pub input: Vec<String>,
    /// The rendered block of each logo.
    pub logo_strings: Vec<String>,
    /// The measured size of each rendered block.
    pub logo_sizes: Vec<Vec2>,
    /// The terminal bounds as of the last frame.
    pub canvas_size: Vec2,
    /// The current color index of each logo.
    pub colors: Vec<u8>,
    /// Frames (cells moved) per second; pacing only, the library never
    /// sleeps.
    pub speed: u64,
    /// Whether a bounce re-rolls the bouncing logo's color.
    pub random: bool,
    /// The current position of each logo.
    pub positions: Vec<Vec2>,
    /// The current velocity of each logo.
    pub directions: Vec<Vec2>,
    /// Cleared by a quit key; the loop stops at the next iteration.
    pub running: bool,
    /// Force plain rendering regardless of available space.
    pub plain: bool,
}

/// What construction promises of a freshly built scene: the vectors line
/// up, every stored size is the measure of its stored block, colors follow
/// the configuration, velocities are units, and every logo that fits the
/// canvas starts fully inside it (one that cannot fit starts at the
/// origin).
pub open spec fn built_ok(
    app: App,
    input_text: Seq<String>,
    color: u8,
    random: bool,
    speed: u64,
    plain: bool,
    art_content: Option<String>,
    canvas_size: Vec2,
) -> bool {
    &&& app.wf()
    &&& app.input@ == input_text
    &&& app.logo_strings@.len() == input_text.len() + (if art_content is Some {
        1int
    } else {
        0int
    })
    &&& app.canvas_size == canvas_size
    &&& app.speed == speed
    &&& app.random == random
    &&& app.plain == plain
    &&& app.running == true
    &&& (!random ==> forall|i: int|
        0 <= i < app.colors@.len() ==> #[trigger] app.colors@[i] == color)
    &&& (random ==> forall|i: int|
        0 <= i < app.colors@.len() ==> MIN_COLOR <= #[trigger] app.colors@[i] <= MAX_COLOR
            && app.colors@[i] != BLACK_COLOR)
    &&& forall|i: int|
        0 <= i < app.directions@.len() ==> vel_ok((#[trigger] app.directions@[i]).x as int)
            && vel_ok(app.directions@[i].y as int)
    &&& forall|i: int|
        0 <= i < app.logo_sizes@.len() ==> (#[trigger] app.logo_sizes@[i]).x == block_width(
            (app.logo_strings@[i])@,
        ) && app.logo_sizes@[i].y == block_height((app.logo_strings@[i])@)
    &&& (art_content matches Some(a) ==> app.logo_strings@.last() == a)
    &&& forall|i: int|
        0 <= i < app.positions@.len() ==> {
            let p = #[trigger] app.positions@[i];
            let s = app.logo_sizes@[i];
            &&& 0 <= p.x && 0 <= p.y
            &&& (s.x < canvas_size.x && s.y < canvas_size.y ==> p.x + s.x < canvas_size.x
                && p.y + s.y < canvas_size.y)
            &&& (!(s.x < canvas_size.x && s.y < canvas_size.y) ==> p.x == 0 && p.y == 0)
        }
}

/// One text input goes through construction cleanly: the font draws
/// something for it, and the stripped render stays within the machine size
/// limit.
pub open spec fn text_renders(font: figlet_rs::FIGfont, t: Seq<char>) -> bool {
    &&& fig_of(font, t) is Some
    &&& strip_blank_spec(fig_of(font, t)->Some_0).len() <= SIZE_LIMIT
}

/// Construction stops at text `i` because the font draws nothing for it,
/// every earlier text having gone through cleanly.
pub open spec fn render_fails_first(font: figlet_rs::FIGfont, texts: Seq<String>, i: int) -> bool {
    &&& 0 <= i < texts.len()
    &&& fig_of(font, (texts[i])@) is None
    &&& forall|j: int| 0 <= j < i ==> text_renders(font, (#[trigger] texts[j])@)
}

impl App {
    /// Build the scene: render every text input through the font and strip
    /// the blank padding lines, take the art block as one more logo as it
    /// is, measure everything, then hand out colors, spawn positions and
    /// directions. A logo the canvas cannot hold spawns at the origin
    /// instead of panicking.
    ///
    /// Success is owed exactly when every text renders within the size
    /// limit and the art (if any) fits it too; a font that draws nothing
    /// for some text is a render failure, everything else too large is
    /// [`AppError::LogoTooLarge`].
    pub fn new(
        input_text: Vec<String>,
        font: &figlet_rs::FIGfont,
        color: u8,
        random: bool,
        speed: u64,
        plain: bool,
        art_content: Option<String>,
        canvas_size: Vec2,
    ) -> (r: Result<App, AppError>)
        requires
            input_text@.len() > 0 || art_content is Some,
            forall|i: int|
                0 <= i < input_text@.len() ==> (#[trigger] input_text@[i])@.len() <= SIZE_LIMIT,
            0 <= canvas_size.x <= CANVAS_LIMIT,
            0 <= canvas_size.y <= CANVAS_LIMIT,
        ensures
            r is Ok <==> ({
                &&& forall|i: int|
                    0 <= i < input_text@.len() ==> text_renders(
                        *font,
                        (#[trigger] input_text@[i])@,
                    )
                &&& (art_content matches Some(a) ==> a@.len() <= SIZE_LIMIT)
            }),
            (r matches Err(e) && e == AppError::RenderConversionFailure) <==> exists|i: int|
                #[trigger] render_fails_first(*font, input_text@, i),
            r matches Ok(app) ==> built_ok(
                app,
                input_text@,
                color,
                random,
                speed,
                plain,
                art_content,
                canvas_size,
            ),
            r matches Err(e) ==> e == AppError::RenderConversionFailure || e
                == AppError::LogoTooLarge,
    {
        let mut logo_strings: Vec<String> = Vec::new();
        let mut logo_sizes: Vec<Vec2> = Vec::new();
        let n_text = input_text.len();
        let mut idx: usize = 0;
        while idx < n_text
            invariant
                0 <= idx <= n_text,
                n_text == input_text@.len(),
                logo_strings@.len() == idx,
                logo_sizes@.len() == idx,
                forall|i: int|
                    0 <= i < idx ==> (#[trigger] logo_sizes@[i]).x == block_width(
                        (logo_strings@[i])@,
                    ) && logo_sizes@[i].y == block_height((logo_strings@[i])@),
                forall|i: int|
                    0 <= i < idx ==> 0 <= (#[trigger] logo_sizes@[i]).x <= SIZE_LIMIT + 1 && 0
                        <= logo_sizes@[i].y <= SIZE_LIMIT + 1,
                forall|i: int|
                    0 <= i < idx ==> (#[trigger] logo_strings@[i])@.len() <= SIZE_LIMIT,
                forall|j: int|
                    0 <= j < idx ==> text_renders(*font, (#[trigger] input_text@[j])@),
            decreases n_text - idx,
        {
            let logo_str = match figlet(input_text[idx].as_str(), font) {
                Ok(s) => s,
                Err(e) => {
                    proof {
                        assert(!text_renders(*font, (input_text@[idx as int])@));
                        assert(render_fails_first(*font, input_text@, idx as int));
                    }
                    return Err(e);
                },
            };
            if logo_str.as_str().unicode_len() > SIZE_LIMIT as usize {
                proof {
                    assert(!text_renders(*font, (input_text@[idx as int])@));
                    assert forall|i: int| !render_fails_first(*font, input_text@, i) by {
                        if render_fails_first(*font, input_text@, i) {
                            if i < idx {
                                assert(text_renders(*font, (input_text@[i])@));
                            } else if i > idx {
                                assert(text_renders(*font, (input_text@[idx as int])@));
                            }
                            assert(false);
                        }
                    }
                }
                return Err(AppError::LogoTooLarge);
            }
            let size = match fig_size(logo_str.as_str()) {
                Ok(v) => v,
                Err(e) => {
                    return Err(e);
                },
            };
            logo_sizes.push(size);
            logo_strings.push(logo_str);
            idx = idx + 1;
        }
        proof {
            assert forall|i: int| !render_fails_first(*font, input_text@, i) by {
                if render_fails_first(*font, input_text@, i) {
                    assert(text_renders(*font, (input_text@[i])@));
                    assert(false);
                }
            }
        }
        match art_content {
            Some(art) => {
                if art.as_str().unicode_len() > SIZE_LIMIT as usize {
                    return Err(AppError::LogoTooLarge);
                }
                let size = match fig_size(art.as_str()) {
                    Ok(v) => v,
                    Err(e) => {
                        return Err(e);
                    },
                };
                logo_sizes.push(size);
                logo_strings.push(art);
            },
            None => {},
        }
        let count = logo_strings.len();
        let mut colors: Vec<u8> = Vec::new();
        while colors.len() < count
            invariant
                colors@.len() <= count,
                !random ==> forall|i: int|
                    0 <= i < colors@.len() ==> #[trigger] colors@[i] == color,
                random ==> forall|i: int|
                    0 <= i < colors@.len() ==> MIN_COLOR <= #[trigger] colors@[i] <= MAX_COLOR
                        && colors@[i] != BLACK_COLOR,
            decreases count - colors.len(),
        {
            if random {
                colors.push(Self::generate_random_color());
            } else {
                colors.push(color);
            }
        }
        let mut positions: Vec<Vec2> = Vec::new();
        let mut directions: Vec<Vec2> = Vec::new();
        let mut pidx: usize = 0;
        while pidx < count
            invariant
                0 <= pidx <= count,
                count == logo_sizes@.len(),
                positions@.len() == pidx,
                directions@.len() == pidx,
                0 <= canvas_size.x <= CANVAS_LIMIT,
                0 <= canvas_size.y <= CANVAS_LIMIT,
                forall|i: int|
                    0 <= i < count ==> 0 <= (#[trigger] logo_sizes@[i]).x <= SIZE_LIMIT + 1 && 0
                        <= logo_sizes@[i].y <= SIZE_LIMIT + 1,
                forall|i: int|
                    0 <= i < pidx ==> {
                        let p = #[trigger] positions@[i];
                        let s = logo_sizes@[i];
                        &&& 0 <= p.x <= CANVAS_LIMIT && 0 <= p.y <= CANVAS_LIMIT
                        &&& (s.x < canvas_size.x && s.y < canvas_size.y ==> p.x + s.x
                            < canvas_size.x && p.y + s.y < canvas_size.y)
                        &&& (!(s.x < canvas_size.x && s.y < canvas_size.y) ==> p.x == 0 && p.y
                            == 0)
                    },
                forall|i: int|
                    0 <= i < pidx ==> vel_ok((#[trigger] directions@[i]).x as int) && vel_ok(
                        directions@[i].y as int,
                    ),
            decreases count - pidx,
        {
            let size = logo_sizes[pidx];
            if size.x < canvas_size.x && size.y < canvas_size.y {
                positions.push(Vec2::rand(canvas_size.x, canvas_size.y, size.x, size.y));
            } else {
                positions.push(Vec2::new(0, 0));
            }
            directions.push(Vec2::rand_dir());
            pidx = pidx + 1;
        }
        Ok(
            App {
                input: input_text,
                logo_strings,
                logo_sizes,
                canvas_size,
                colors,
                speed,
                random,
                positions,
                directions,
                running: true,
                plain,
            },
        )
    }

    /// Everything the simulation relies on: the per-logo vectors line up,
    /// and every coordinate is small enough that a frame step cannot
    /// overflow.
    pub open spec fn wf(self) -> bool {
        &&& self.logo_strings@.len() >= 1
        &&& self.logo_sizes@.len() == self.logo_strings@.len()
        &&& self.positions@.len() == self.logo_strings@.len()
        &&& self.directions@.len() == self.logo_strings@.len()
        &&& self.colors@.len() == self.logo_strings@.len()
        &&& self.input@.len() <= self.logo_strings@.len()
        &&& forall|i: int|
            0 <= i < self.input@.len() ==> (#[trigger] self.input@[i])@.len() <= SIZE_LIMIT
        &&& forall|i: int|
            0 <= i < self.logo_strings@.len() ==> (#[trigger] self.logo_strings@[i])@.len()
                <= SIZE_LIMIT
        &&& forall|i: int|
            0 <= i < self.logo_sizes@.len() ==> 0 <= (#[trigger] self.logo_sizes@[i]).x
                <= SIZE_LIMIT + 1 && 0 <= self.logo_sizes@[i].y <= SIZE_LIMIT + 1
        &&& forall|i: int|
            0 <= i < self.positions@.len() ==> -POS_LIMIT <= (#[trigger] self.positions@[i]).x
                <= POS_LIMIT && -POS_LIMIT <= self.positions@[i].y <= POS_LIMIT
        &&& forall|i: int|
            0 <= i < self.directions@.len() ==> dir_ok(
                (#[trigger] self.directions@[i]).x as int,
            ) && dir_ok(self.directions@[i].y as int)
        &&& 0 <= self.canvas_size.x <= CANVAS_LIMIT
        &&& 0 <= self.canvas_size.y <= CANVAS_LIMIT
    }

    /// The lexicographically largest measured size (width first), the
    /// sizing reference for the automatic plain-mode decision.
    pub open spec fn max_logo_size(sizes: Seq<Vec2>) -> Vec2
        decreases sizes.len(),
    {
        if sizes.len() <= 1 {
            sizes[0]
        } else {
            let rest = Self::max_logo_size(sizes.drop_last());
            let last = sizes.last();
            if last.x > rest.x || (last.x == rest.x && last.y > rest.y) {
                last
            } else {
                rest
            }
        }
    }

    /// Whether this frame renders plain text: forced by configuration, or
    /// demanded because the largest logo eats too far into the canvas on
    /// either axis.
    pub open spec fn plain_decision(self) -> bool {
        self.plain || {
            let m = Self::max_logo_size(self.logo_sizes@);
            m.x >= self.canvas_size.x - m.x as int / 2 || m.y >= self.canvas_size.y - m.y as int
                / 2
        }
    }

    /// The footprint the bounce math sees for logo `i` this frame: the
    /// plain-text line in plain mode, the measured block otherwise. A logo
    /// without a plain-text source keeps its measured block even in a
    /// plain frame.
    pub open spec fn spec_dims(self, i: int, plain: bool) -> (int, int) {
        if plain && i < self.input@.len() {
            ((self.input@[i])@.len() as int, 1)
        } else {
            (self.logo_sizes@[i].x as int, self.logo_sizes@[i].y as int)
        }
    }

    /// Decide the rendering mode for the current frame from the live
    /// canvas snapshot; nothing is cached across frames.
    pub fn should_use_plain_mode(&self) -> (r: bool)
        requires
            self.wf(),
        ensures
            r == self.plain_decision(),
    {
        if self.plain {
            return true;
        }
        let n = self.logo_sizes.len();
        let mut m = self.logo_sizes[0];
        let mut i: usize = 1;
        while i < n
            invariant
                self.wf(),
                n == self.logo_sizes@.len(),
                1 <= i <= n,
                m == Self::max_logo_size(self.logo_sizes@.take(i as int)),
                0 <= m.x <= SIZE_LIMIT + 1,
                0 <= m.y <= SIZE_LIMIT + 1,
            decreases n - i,
        {
            proof {
                assert(self.logo_sizes@.take(i + 1).drop_last() =~= self.logo_sizes@.take(
                    i as int,
                ));
                assert(self.logo_sizes@.take(i + 1).last() == self.logo_sizes@[i as int]);
            }
            let s = self.logo_sizes[i];
            if s.x > m.x || (s.x == m.x && s.y > m.y) {
                m = s;
            }
            i = i + 1;
        }
        proof {
            assert(self.logo_sizes@.take(n as int) =~= self.logo_sizes@);
        }
        m.x >= self.canvas_size.x - m.x / 2 || m.y >= self.canvas_size.y - m.y / 2
    }

    /// The width and height the bounce math uses for logo `index` this
    /// frame. Plain mode measures the text in characters, one line high.
    pub fn get_logo_dimensions(&self, index: usize, plain: bool) -> (r: (i32, i32))
        requires
            self.wf(),
            index < self.logo_strings@.len(),
        ensures
            r.0 as int == self.spec_dims(index as int, plain).0,
            r.1 as int == self.spec_dims(index as int, plain).1,
            0 <= r.0 <= SIZE_LIMIT + 1,
            0 <= r.1 <= SIZE_LIMIT + 1,
    {
        if plain && index < self.input.len() {
            (self.input[index].as_str().unicode_len() as i32, 1)
        } else {
            let s = self.logo_sizes[index];
            (s.x, s.y)
        }
    }

    /// Clamp-and-reflect against the left and right edges. Only logo
    /// `index`'s horizontal position and velocity change; the move itself
    /// comes later in the frame.
    pub fn check_horizontal_bounce(&mut self, index: usize, logo_width: i32) -> (bounced: bool)
        requires
            old(self).wf(),
            index < old(self).logo_strings@.len(),
            0 <= logo_width <= SIZE_LIMIT + 1,
        ensures
            final(self).wf(),
            ({
                let b = bounce_h(
                    old(self).positions@[index as int].x as int,
                    old(self).directions@[index as int].x as int,
                    logo_width as int,
                    old(self).canvas_size.x as int,
                );
                &&& final(self).positions@[index as int].x as int == b.0
                &&& final(self).directions@[index as int].x as int == b.1
                &&& bounced == b.2
            }),
            final(self).positions@.len() == old(self).positions@.len(),
            final(self).directions@.len() == old(self).directions@.len(),
            final(self).positions@[index as int].y == old(self).positions@[index as int].y,
            final(self).directions@[index as int].y == old(self).directions@[index as int].y,
            forall|j: int|
                0 <= j < old(self).positions@.len() && j != index ==> final(self).positions@[j]
                    == old(self).positions@[j],
            forall|j: int|
                0 <= j < old(self).directions@.len() && j != index ==> final(self).directions@[j] == old(self).directions@[j],
            final(self).input == old(self).input,
            final(self).logo_strings == old(self).logo_strings,
            final(self).logo_sizes == old(self).logo_sizes,
            final(self).canvas_size == old(self).canvas_size,
            final(self).colors == old(self).colors,
            final(self).speed == old(self).speed,
            final(self).random == old(self).random,
            final(self).running == old(self).running,
            final(self).plain == old(self).plain,
    {
        let pos = self.positions[index];
        let dir = self.directions[index];
        let next_x = pos.x + dir.x;
        if next_x < 0 {
            self.positions.set(index, Vec2 { x: 0, y: pos.y });
            self.directions.set(index, Vec2 { x: -dir.x, y: dir.y });
            true
        } else if next_x + logo_width >= self.canvas_size.x {
            let cx = self.canvas_size.x - logo_width - 1;
            self.positions.set(index, Vec2 { x: cx, y: pos.y });
            self.directions.set(index, Vec2 { x: -dir.x, y: dir.y });
            true
        } else {
            false
        }
    }

    /// Clamp-and-reflect against the top and bottom edges; the far clamp
    /// sits one cell lower than its horizontal twin.
    pub fn check_vertical_bounce(&mut self, index: usize, logo_height: i32) -> (bounced: bool)
        requires
            old(self).wf(),
            index < old(self).logo_strings@.len(),
            0 <= logo_height <= SIZE_LIMIT + 1,
        ensures
            final(self).wf(),
            ({
                let b = bounce_v(
                    old(self).positions@[index as int].y as int,
                    old(self).directions@[index as int].y as int,
                    logo_height as int,
                    old(self).canvas_size.y as int,
                );
                &&& final(self).positions@[index as int].y as int == b.0
                &&& final(self).directions@[index as int].y as int == b.1
                &&& bounced == b.2
            }),
            final(self).positions@.len() == old(self).positions@.len(),
            final(self).directions@.len() == old(self).directions@.len(),
            final(self).positions@[index as int].x == old(self).positions@[index as int].x,
            final(self).directions@[index as int].x == old(self).directions@[index as int].x,
            forall|j: int|
                0 <= j < old(self).positions@.len() && j != index ==> final(self).positions@[j]
                    == old(self).positions@[j],
            forall|j: int|
                0 <= j < old(self).directions@.len() && j != index ==> final(self).directions@[j] == old(self).directions@[j],
            final(self).input == old(self).input,
            final(self).logo_strings == old(self).logo_strings,
            final(self).logo_sizes == old(self).logo_sizes,
            final(self).canvas_size == old(self).canvas_size,
            final(self).colors == old(self).colors,
            final(self).speed == old(self).speed,
            final(self).random == old(self).random,
            final(self).running == old(self).running,
            final(self).plain == old(self).plain,
    {
        let pos = self.positions[index];
        let dir = self.directions[index];
        let next_y = pos.y + dir.y;
        if next_y < 0 {
            self.positions.set(index, Vec2 { x: pos.x, y: 0 });
            self.directions.set(index, Vec2 { x: dir.x, y: -dir.y });
            true
        } else if next_y + logo_height >= self.canvas_size.y {
            let cy = self.canvas_size.y - logo_height;
            self.positions.set(index, Vec2 { x: pos.x, y: cy });
            self.directions.set(index, Vec2 { x: dir.x, y: -dir.y });
            true
        } else {
            false
        }
    }

    /// Roll a color for one logo, excluding the reserved background index.
    /// The roll is retried a bounded number of times; a run of bad luck
    /// falls back to the first free index rather than looping forever.
    pub fn generate_random_color() -> (r: u8)
        ensures
            MIN_COLOR <= r <= MAX_COLOR,
            r != BLACK_COLOR,
    {
        let mut color = rand_range_i32(MIN_COLOR as i32, MAX_COLOR as i32 + 1);
        let mut tries: u32 = 0;
        while color == BLACK_COLOR as i32 && tries < 32
            invariant
                MIN_COLOR as i32 <= color <= MAX_COLOR as i32,
            decreases 32 - tries,
        {
            color = rand_range_i32(MIN_COLOR as i32, MAX_COLOR as i32 + 1);
            tries = tries + 1;
        }
        if color == BLACK_COLOR as i32 {
            color = BLACK_COLOR as i32 + 1;
        }
        color as u8
    }

    /// Re-roll the color of logo `index` after a bounce: the new color
    /// differs from the old one and from the reserved background index.
    pub fn randomize_color(&mut self, index: usize)
        requires
            old(self).wf(),
            index < old(self).colors@.len(),
        ensures
            final(self).wf(),
            final(self).colors@.len() == old(self).colors@.len(),
            MIN_COLOR <= final(self).colors@[index as int] <= MAX_COLOR,
            final(self).colors@[index as int] != BLACK_COLOR,
            final(self).colors@[index as int] != old(self).colors@[index as int],
            forall|j: int|
                0 <= j < old(self).colors@.len() && j != index ==> final(self).colors@[j] == old(self).colors@[j],
            final(self).input == old(self).input,
            final(self).logo_strings == old(self).logo_strings,
            final(self).logo_sizes == old(self).logo_sizes,
            final(self).canvas_size == old(self).canvas_size,
            final(self).positions == old(self).positions,
            final(self).directions == old(self).directions,
            final(self).speed == old(self).speed,
            final(self).random == old(self).random,
            final(self).running == old(self).running,
            final(self).plain == old(self).plain,
    {
        let prev = self.colors[index];
        let mut c = Self::generate_random_color();
        let mut tries: u32 = 0;
        while c == prev && tries < 32
            invariant
                MIN_COLOR <= c <= MAX_COLOR,
                c != BLACK_COLOR,
            decreases 32 - tries,
        {
            c = Self::generate_random_color();
            tries = tries + 1;
        }
        if c == prev {
            c = if prev == BLACK_COLOR + 1 {
                BLACK_COLOR + 2
            } else {
                BLACK_COLOR + 1
            };
        }
        self.colors.set(index, c);
    }
}

/// How one frame changes one logo: both axes step independently, and the
/// color is re-rolled exactly when randomization is on and an axis bounced.
pub open spec fn frame_logo_rel(pre: App, post: App, canvas: Vec2, plain: bool, i: int) -> bool {
    let dims = pre.spec_dims(i, plain);
    let sx = step_h(
        pre.positions@[i].x as int,
        pre.directions@[i].x as int,
        dims.0,
        canvas.x as int,
    );
    let sy = step_v(
        pre.positions@[i].y as int,
        pre.directions@[i].y as int,
        dims.1,
        canvas.y as int,
    );
    &&& post.positions@[i].x as int == sx.0
    &&& post.positions@[i].y as int == sy.0
    &&& post.directions@[i].x as int == sx.1
    &&& post.directions@[i].y as int == sy.1
    &&& if pre.random && (sx.2 || sy.2) {
        &&& MIN_COLOR <= post.colors@[i] <= MAX_COLOR
        &&& post.colors@[i] != BLACK_COLOR
        &&& post.colors@[i] != pre.colors@[i]
    } else {
        post.colors@[i] == pre.colors@[i]
    }
}

/// The axes of a frame step are independent and each bounce is purely
/// reflective: the horizontal velocity ends negated exactly when the
/// horizontal check bounced, untouched otherwise, and never depends on the
/// vertical axis — and symmetrically.
pub proof fn lemma_frame_axes_independent(
    pre: App,
    post: App,
    canvas: Vec2,
    plain: bool,
    i: int,
)
    requires
        0 <= i < pre.positions@.len(),
        pre.positions@.len() == pre.directions@.len(),
        post.positions@.len() == pre.positions@.len(),
        post.directions@.len() == pre.directions@.len(),
        frame_logo_rel(pre, post, canvas, plain, i),
    ensures
        post.directions@[i].x as int == if step_h(
            pre.positions@[i].x as int,
            pre.directions@[i].x as int,
            pre.spec_dims(i, plain).0,
            canvas.x as int,
        ).2 {
            -pre.directions@[i].x as int
        } else {
            pre.directions@[i].x as int
        },
        post.directions@[i].y as int == if step_v(
            pre.positions@[i].y as int,
            pre.directions@[i].y as int,
            pre.spec_dims(i, plain).1,
            canvas.y as int,
        ).2 {
            -pre.directions@[i].y as int
        } else {
            pre.directions@[i].y as int
        },
{
    lemma_step_reflective(
        pre.positions@[i].x as int,
        pre.directions@[i].x as int,
        pre.spec_dims(i, plain).0,
        canvas.x as int,
    );
    lemma_step_reflective(
        pre.positions@[i].y as int,
        pre.directions@[i].y as int,
        pre.spec_dims(i, plain).1,
        canvas.y as int,
    );
}

/// How one frame changes the whole scene: the canvas snapshot is replaced,
/// the rendering mode is decided afresh from it, every logo steps by
/// [`frame_logo_rel`], and everything else stays.
pub open spec fn frame_rel(pre: App, post: App, canvas: Vec2) -> bool {
    let plain = (App { canvas_size: canvas, ..pre }).plain_decision();
    &&& post.canvas_size == canvas
    &&& post.input == pre.input
    &&& post.logo_strings == pre.logo_strings
    &&& post.logo_sizes == pre.logo_sizes
    &&& post.speed == pre.speed
    &&& post.random == pre.random
    &&& post.running == pre.running
    &&& post.plain == pre.plain
    &&& post.positions@.len() == pre.positions@.len()
    &&& post.directions@.len() == pre.directions@.len()
    &&& post.colors@.len() == pre.colors@.len()
    &&& forall|i: int|
        0 <= i < pre.positions@.len() ==> #[trigger] frame_logo_rel(pre, post, canvas, plain, i)
}

impl App {
    /// Advance every logo one frame against the given canvas bounds:
    /// refresh the canvas snapshot, decide the rendering mode, bounce,
    /// move, and re-roll colors where a bounce asks for it.
    ///
    /// The last two conditions are the screen-keeping laws: a logo that
    /// fits the canvas (with the documented margins) and starts inside it
    /// ends the frame inside it, and a velocity component that was a unit
    /// stays a unit.
    pub fn update_with_canvas(&mut self, canvas: Vec2)
        requires
            old(self).wf(),
            0 <= canvas.x <= CANVAS_LIMIT,
            0 <= canvas.y <= CANVAS_LIMIT,
        ensures
            final(self).wf(),
            frame_rel(*old(self), *final(self), canvas),
            ({
                let plain = (App { canvas_size: canvas, ..*old(self) }).plain_decision();
                forall|i: int|
                    0 <= i < old(self).positions@.len() ==> {
                        let dims = old(self).spec_dims(i, plain);
                        &&& (dims.0 + 2 <= canvas.x && old(self).positions@[i].x >= -1 ==> 0
                            <= (#[trigger] final(self).positions@[i]).x && final(self).positions@[i].x + dims.0 <= canvas.x)
                        &&& (dims.1 + 1 <= canvas.y && -1 <= old(self).positions@[i].y
                            <= canvas.y - dims.1 ==> 0 <= final(self).positions@[i].y && final(self).positions@[i].y <= canvas.y - dims.1)
                    }
            }),
            forall|i: int|
                0 <= i < old(self).directions@.len() ==> (vel_ok(
                    (#[trigger] old(self).directions@[i]).x as int,
                ) ==> vel_ok(final(self).directions@[i].x as int)) && (vel_ok(
                    old(self).directions@[i].y as int,
                ) ==> vel_ok(final(self).directions@[i].y as int)),
    {
        let ghost pre = *old(self);
        self.canvas_size = canvas;
        let ghost staged = *self;
        let plain = self.should_use_plain_mode();
        let n = self.logo_strings.len();
        let mut i: usize = 0;
        while i < n
            invariant
                self.wf(),
                n == pre.logo_strings@.len(),
                0 <= i <= n,
                staged == (App { canvas_size: canvas, ..pre }),
                plain == staged.plain_decision(),
                0 <= canvas.x <= CANVAS_LIMIT,
                0 <= canvas.y <= CANVAS_LIMIT,
                self.canvas_size == canvas,
                self.input == pre.input,
                self.logo_strings == pre.logo_strings,
                self.logo_sizes == pre.logo_sizes,
                self.speed == pre.speed,
                self.random == pre.random,
                self.running == pre.running,
                self.plain == pre.plain,
                self.positions@.len() == n,
                self.directions@.len() == n,
                self.colors@.len() == n,
                pre.wf(),
                forall|j: int| 0 <= j < i ==> #[trigger] frame_logo_rel(pre, *self, canvas, plain, j),
                forall|j: int|
                    i <= j < n ==> (#[trigger] self.positions@[j]) == pre.positions@[j]
                        && self.directions@[j] == pre.directions@[j] && self.colors@[j]
                        == pre.colors@[j],
            decreases n - i,
        {
            let ghost at_entry = *self;
            let dims = self.get_logo_dimensions(i, plain);
            proof {
                assert(self.spec_dims(i as int, plain) == pre.spec_dims(i as int, plain));
            }
            let ghost bh = bounce_h(
                pre.positions@[i as int].x as int,
                pre.directions@[i as int].x as int,
                dims.0 as int,
                canvas.x as int,
            );
            let ghost bv = bounce_v(
                pre.positions@[i as int].y as int,
                pre.directions@[i as int].y as int,
                dims.1 as int,
                canvas.y as int,
            );
            let hb = self.check_horizontal_bounce(i, dims.0);
            let vb = self.check_vertical_bounce(i, dims.1);
            let bounced = hb || vb;
            proof {
                assert(self.positions@[i as int].x as int == bh.0);
                assert(self.positions@[i as int].y as int == bv.0);
                assert(self.directions@[i as int].x as int == bh.1);
                assert(self.directions@[i as int].y as int == bv.1);
                assert(hb == bh.2 && vb == bv.2);
            }
            let pos = self.positions[i];
            let dir = self.directions[i];
            self.positions.set(i, Vec2 { x: pos.x + dir.x, y: pos.y + dir.y });
            let ghost prev_color = pre.colors@[i as int];
            proof {
                assert(self.colors@[i as int] == prev_color);
            }
            if self.random && bounced {
                self.randomize_color(i);
            }
            proof {
                let dims_s = pre.spec_dims(i as int, plain);
                assert(self.positions@[i as int].x as int == step_h(
                    pre.positions@[i as int].x as int,
                    pre.directions@[i as int].x as int,
                    dims_s.0,
                    canvas.x as int,
                ).0);
                assert(self.positions@[i as int].y as int == step_v(
                    pre.positions@[i as int].y as int,
                    pre.directions@[i as int].y as int,
                    dims_s.1,
                    canvas.y as int,
                ).0);
                assert(frame_logo_rel(pre, *self, canvas, plain, i as int));
                assert forall|j: int| 0 <= j < i implies #[trigger] frame_logo_rel(
                    pre,
                    *self,
                    canvas,
                    plain,
                    j,
                ) by {
                    assert(frame_logo_rel(pre, at_entry, canvas, plain, j));
                    assert(self.positions@[j] == at_entry.positions@[j]);
                    assert(self.directions@[j] == at_entry.directions@[j]);
                    assert(self.colors@[j] == at_entry.colors@[j]);
                }
                assert forall|j: int|
                    i + 1 <= j < n implies (#[trigger] self.positions@[j]) == pre.positions@[j]
                        && self.directions@[j] == pre.directions@[j] && self.colors@[j]
                        == pre.colors@[j] by {
                    assert(at_entry.positions@[j] == pre.positions@[j]);
                    assert(at_entry.directions@[j] == pre.directions@[j]);
                    assert(at_entry.colors@[j] == pre.colors@[j]);
                    assert(self.positions@[j] == at_entry.positions@[j]);
                    assert(self.directions@[j] == at_entry.directions@[j]);
                    assert(self.colors@[j] == at_entry.colors@[j]);
                }
            }
            i = i + 1;
        }
        proof {
            assert forall|i: int| 0 <= i < pre.positions@.len() implies {
                let plain2 = (App { canvas_size: canvas, ..pre }).plain_decision();
                let dims = pre.spec_dims(i, plain2);
                &&& (dims.0 + 2 <= canvas.x && pre.positions@[i].x >= -1 ==> 0 <= (
                #[trigger] self.positions@[i]).x && self.positions@[i].x + dims.0 <= canvas.x)
                &&& (dims.1 + 1 <= canvas.y && -1 <= pre.positions@[i].y <= canvas.y - dims.1
                    ==> 0 <= self.positions@[i].y && self.positions@[i].y <= canvas.y - dims.1)
            } by {
                let plain2 = (App { canvas_size: canvas, ..pre }).plain_decision();
                let dims = pre.spec_dims(i, plain2);
                assert(frame_logo_rel(pre, *self, canvas, plain2, i));
                if dims.0 + 2 <= canvas.x && pre.positions@[i].x >= -1 {
                    lemma_step_h_in_bounds(
                        pre.positions@[i].x as int,
                        pre.directions@[i].x as int,
                        dims.0,
                        canvas.x as int,
                    );
                }
                if dims.1 + 1 <= canvas.y && -1 <= pre.positions@[i].y <= canvas.y - dims.1 {
                    lemma_step_v_in_bounds(
                        pre.positions@[i].y as int,
                        pre.directions@[i].y as int,
                        dims.1,
                        canvas.y as int,
                    );
                }
            }
            assert forall|i: int| 0 <= i < pre.directions@.len() implies (vel_ok(
                (#[trigger] pre.directions@[i]).x as int,
            ) ==> vel_ok(self.directions@[i].x as int)) && (vel_ok(pre.directions@[i].y as int)
                ==> vel_ok(self.directions@[i].y as int)) by {
                let plain2 = (App { canvas_size: canvas, ..pre }).plain_decision();
                assert(frame_logo_rel(pre, *self, canvas, plain2, i));
            }
        }
    }

    /// Advance one frame against the terminal's bounds as they are right
    /// now. The terminal answers the size query however it will: whatever
    /// bounds come back, the frame steps by [`frame_rel`] against them; if
    /// the query fails, nothing changes and the failure is reported.
    pub fn update(&mut self) -> (r: Result<(), AppError>)
        requires
            old(self).wf(),
        ensures
            final(self).wf(),
            r matches Err(e) ==> e == AppError::TerminalUnavailable && *final(self) == *old(self),
            r is Ok ==> exists|canvas: Vec2|
                #[trigger] frame_rel(*old(self), *final(self), canvas) && 0 <= canvas.x
                    <= CANVAS_LIMIT && 0 <= canvas.y <= CANVAS_LIMIT,
    {
        match term_size() {
            Ok(canvas) => {
                self.update_with_canvas(canvas);
                Ok(())
            },
            Err(e) => Err(e),
        }
    }

    /// Let one polled key (or the lack of one) act on the run flag: a quit
    /// key stops the run, everything else changes nothing.
    pub fn apply_key(&mut self, key: Option<KeyEvt>)
        ensures
            final(self).running == (old(self).running && !(key matches Some(k) && quits(k))),
            final(self).input == old(self).input,
            final(self).logo_strings == old(self).logo_strings,
            final(self).logo_sizes == old(self).logo_sizes,
            final(self).canvas_size == old(self).canvas_size,
            final(self).colors == old(self).colors,
            final(self).positions == old(self).positions,
            final(self).directions == old(self).directions,
            final(self).speed == old(self).speed,
            final(self).random == old(self).random,
            final(self).plain == old(self).plain,
    {
        match key {
            Some(k) => {
                let quit = match k.code {
                    KeyInput::Character(ch) => ch == 'q' || (ch == 'c' && k.ctrl_only && k.press
                        && k.state_empty),
                    KeyInput::Escape => true,
                    KeyInput::Other => false,
                };
                if quit {
                    self.running = false;
                }
            },
            None => {},
        }
    }
}

} // verus!
