//! The render pass: turn the scene into a list of draw operations. The
//! operations carry terminal coordinates, so only cells that actually lie
//! on the canvas are emitted; transparent (space) cells of a glyph block
//! are skipped so that logos drawn earlier show through.

use vstd::prelude::*;

use crate::app::App;
use crate::text::{lemma_split_lines_shape, split_into_lines, split_lines};
use crate::util::Vec2;

verus! {

/// One queued drawing operation, ready for the terminal.
pub enum DrawOp {
    /// Print a whole line of text at a cell.
    Text { x: u16, y: u16, color: u8, text: String },
    /// Print one character at a cell.
    Glyph { x: u16, y: u16, color: u8, ch: char },
}

/// What an operation paints, reduced to position, color and characters. A
/// one-character text and a glyph paint the same thing.
pub open spec fn abs_op(op: DrawOp) -> (int, int, int, Seq<char>) {
    match op {
        DrawOp::Text { x, y, color, text } => (x as int, y as int, color as int, text@),
        DrawOp::Glyph { x, y, color, ch } => (x as int, y as int, color as int, seq![ch]),
    }
}

/// The operations paint exactly the expected cells, in the same order.
pub open spec fn ops_match(ops: Seq<DrawOp>, expect: Seq<(int, int, int, Seq<char>)>) -> bool {
    &&& ops.len() == expect.len()
    &&& forall|k: int| 0 <= k < ops.len() ==> abs_op(#[trigger] ops[k]) == expect[k]
}

/// The visible cells of one glyph row, left to right: spaces and cells off
/// the canvas are skipped.
pub open spec fn row_ops(line: Seq<char>, x0: int, y: int, color: u8, canvas: Vec2) -> Seq<
    (int, int, int, Seq<char>),
>
    decreases line.len(),
{
    if line.len() == 0 {
        Seq::empty()
    } else {
        let rest = row_ops(line.drop_last(), x0, y, color, canvas);
        let k = line.len() - 1;
        let ch = line.last();
        if ch != ' ' && 0 <= x0 + k < canvas.x && 0 <= y < canvas.y {
            rest.push((x0 + k, y, color as int, seq![ch]))
        } else {
            rest
        }
    }
}

/// The visible cells of a whole glyph block, row-major.
pub open spec fn block_ops(
    lines: Seq<Seq<char>>,
    pos: Vec2,
    color: u8,
    canvas: Vec2,
) -> Seq<(int, int, int, Seq<char>)>
    decreases lines.len(),
{
    if lines.len() == 0 {
        Seq::empty()
    } else {
        block_ops(lines.drop_last(), pos, color, canvas) + row_ops(
            lines.last(),
            pos.x as int,
            pos.y + lines.len() - 1,
            color,
            canvas,
        )
    }
}

/// What drawing logo `i` emits this frame. A plain frame prints the
/// logo's text as one line, provided its origin lies on the canvas; a
/// logo without a plain-text source, and every logo of an art frame,
/// paints its glyph block cell by cell.
pub open spec fn logo_ops(app: App, plain: bool, i: int) -> Seq<(int, int, int, Seq<char>)> {
    if plain && i < app.input@.len() {
        let p = app.positions@[i];
        if 0 <= p.x < app.canvas_size.x && 0 <= p.y < app.canvas_size.y {
            seq![(p.x as int, p.y as int, app.colors@[i] as int, (app.input@[i])@)]
        } else {
            Seq::empty()
        }
    } else {
        block_ops(
            split_lines((app.logo_strings@[i])@),
            app.positions@[i],
            app.colors@[i],
            app.canvas_size,
        )
    }
}

/// Everything the first `n` logos emit, in logo order: logos drawn later
/// paint over earlier ones.
pub open spec fn frame_ops_upto(app: App, plain: bool, n: int) -> Seq<(int, int, int, Seq<char>)>
    decreases n,
{
    if n <= 0 {
        Seq::empty()
    } else {
        frame_ops_upto(app, plain, n - 1) + logo_ops(app, plain, n - 1)
    }
}

/// The whole frame: the rendering mode is decided from the current canvas
/// snapshot, then every logo paints in order.
pub open spec fn frame_ops(app: App) -> Seq<(int, int, int, Seq<char>)> {
    frame_ops_upto(app, app.plain_decision(), app.logo_strings@.len() as int)
}

impl App {
    /// Compute this frame's draw operations. The caller clears the screen,
    /// performs them in order, and flushes once.
    pub fn render_frame(&self) -> (r: Vec<DrawOp>)
        requires
            self.wf(),
        ensures
            ops_match(r@, frame_ops(*self)),
    {
        let plain = self.should_use_plain_mode();
        let n = self.logo_strings.len();
        let mut ops: Vec<DrawOp> = Vec::new();
        let mut i: usize = 0;
        while i < n
            invariant
                self.wf(),
                n == self.logo_strings@.len(),
                0 <= i <= n,
                plain == self.plain_decision(),
                ops_match(ops@, frame_ops_upto(*self, plain, i as int)),
            decreases n - i,
        {
            let ghost before = ops@;
            let ghost upto = frame_ops_upto(*self, plain, i as int);
            if plain && i < self.input.len() {
                let p = self.positions[i];
                if p.x >= 0 && p.x < self.canvas_size.x && p.y >= 0 && p.y
                    < self.canvas_size.y {
                    ops.push(
                        DrawOp::Text {
                            x: p.x as u16,
                            y: p.y as u16,
                            color: self.colors[i],
                            text: self.input[i].clone(),
                        },
                    );
                    proof {
                        assert(ops@.drop_last() =~= before);
                        assert(ops_match(ops@, upto + logo_ops(*self, plain, i as int)));
                    }
                } else {
                    proof {
                        assert(logo_ops(*self, plain, i as int) =~= Seq::<
                            (int, int, int, Seq<char>),
                        >::empty());
                        assert(ops_match(ops@, upto + logo_ops(*self, plain, i as int)));
                    }
                }
            } else {
                let lines = split_into_lines(self.logo_strings[i].as_str());
                let ghost lsv = lines.deep_view();
                proof {
                    lemma_split_lines_shape((self.logo_strings@[i as int])@);
                }
                let p = self.positions[i];
                let color = self.colors[i];
                let m = lines.len();
                let mut j: usize = 0;
                while j < m
                    invariant
                        self.wf(),
                        0 <= j <= m,
                        m == lsv.len(),
                        lines.deep_view() == lsv,
                        lsv == split_lines((self.logo_strings@[i as int])@),
                        i < self.logo_strings@.len(),
                        p == self.positions@[i as int],
                        color == self.colors@[i as int],
                        m <= crate::util::SIZE_LIMIT + 1,
                        forall|t: int| 0 <= t < m ==> (#[trigger] lsv[t]).len()
                            <= crate::util::SIZE_LIMIT,
                        ops_match(
                            ops@,
                            frame_ops_upto(*self, plain, i as int) + block_ops(
                                lsv.take(j as int),
                                p,
                                color,
                                self.canvas_size,
                            ),
                        ),
                    decreases m - j,
                {
                    let line = &lines[j];
                    let llen = line.as_str().unicode_len();
                    let y = p.y + (j as i32);
                    let mut k: usize = 0;
                    while k < llen
                        invariant
                            self.wf(),
                            0 <= k <= llen,
                            0 <= j < m,
                            m == lsv.len(),
                            lines.deep_view() == lsv,
                            llen == lsv[j as int].len(),
                            line@ == lsv[j as int],
                            lsv[j as int].len() <= crate::util::SIZE_LIMIT,
                            m <= crate::util::SIZE_LIMIT + 1,
                            p == self.positions@[i as int],
                            color == self.colors@[i as int],
                            i < self.logo_strings@.len(),
                            y == p.y + j,
                            ops_match(
                                ops@,
                                frame_ops_upto(*self, plain, i as int) + block_ops(
                                    lsv.take(j as int),
                                    p,
                                    color,
                                    self.canvas_size,
                                ) + row_ops(
                                    lsv[j as int].take(k as int),
                                    p.x as int,
                                    p.y + j,
                                    color,
                                    self.canvas_size,
                                ),
                            ),
                        decreases llen - k,
                    {
                        proof {
                            assert(lsv[j as int].take(k + 1).drop_last() =~= lsv[j as int].take(
                                k as int,
                            ));
                            assert(lsv[j as int].take(k + 1).last() == lsv[j as int][k as int]);
                        }
                        let ghost row_before = ops@;
                        let ch = line.as_str().get_char(k);
                        let x = p.x + (k as i32);
                        if ch != ' ' && x >= 0 && x < self.canvas_size.x && y >= 0 && y
                            < self.canvas_size.y {
                            ops.push(DrawOp::Glyph { x: x as u16, y: y as u16, color, ch });
                            proof {
                                assert(ops@.drop_last() =~= row_before);
                            }
                        }
                        k = k + 1;
                    }
                    proof {
                        assert(lsv[j as int].take(llen as int) =~= lsv[j as int]);
                        assert(lsv.take(j + 1).drop_last() =~= lsv.take(j as int));
                        assert(lsv.take(j + 1).last() == lsv[j as int]);
                        assert(block_ops(lsv.take(j + 1), p, color, self.canvas_size)
                            == block_ops(lsv.take(j as int), p, color, self.canvas_size)
                            + row_ops(
                            lsv[j as int],
                            p.x as int,
                            p.y + j,
                            color,
                            self.canvas_size,
                        ));
                    }
                    j = j + 1;
                }
                proof {
                    assert(lsv.take(m as int) =~= lsv);
                    assert(ops_match(ops@, upto + logo_ops(*self, plain, i as int)));
                }
            }
            i = i + 1;
        }
        proof {
            assert(frame_ops(*self) == frame_ops_upto(
                *self,
                self.plain_decision(),
                self.logo_strings@.len() as int,
            ));
        }
        ops
    }
}

} // verus!
