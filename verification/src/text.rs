//! The line model: how a block of rendered glyphs is cut into lines, which
//! lines count as blank, how blank lines are stripped, and how a block is
//! measured. Line endings follow the usual convention: a line ends at `'\n'`,
//! a `'\r'` directly before the `'\n'` belongs to the ending, and a final
//! line needs no ending.

use vstd::prelude::*;

verus! {

/// The characters a blank line may consist of: the code points of the
/// Unicode `White_Space` property, exactly what trimming in the standard
/// library treats as whitespace.
pub open spec fn is_blank_char(c: char) -> bool {
    let u = c as u32;
    ||| u == 0x09
    ||| u == 0x0A
    ||| u == 0x0B
    ||| u == 0x0C
    ||| u == 0x0D
    ||| u == 0x20
    ||| u == 0x85
    ||| u == 0xA0
    ||| u == 0x1680
    ||| (0x2000 <= u && u <= 0x200A)
    ||| u == 0x2028
    ||| u == 0x2029
    ||| u == 0x202F
    ||| u == 0x205F
    ||| u == 0x3000
}

/// A line is blank when it holds nothing but horizontal whitespace.
pub open spec fn is_blank_line(l: Seq<char>) -> bool {
    forall|i: int| 0 <= i < l.len() ==> is_blank_char(#[trigger] l[i])
}

/// Index of the first `'\n'`, or the length when there is none.
pub open spec fn first_nl(s: Seq<char>) -> int
    decreases s.len(),
{
    if s.len() == 0 {
        0
    } else if s[0] == '\n' {
        0
    } else {
        1 + first_nl(s.drop_first())
    }
}

/// Remove one trailing `'\r'`, the remnant of a `"\r\n"` ending.
pub open spec fn strip_cr(l: Seq<char>) -> Seq<char> {
    if l.len() > 0 && l.last() == '\r' {
        l.drop_last()
    } else {
        l
    }
}

/// The lines of `s`, the way a terminal reads them.
pub open spec fn split_lines(s: Seq<char>) -> Seq<Seq<char>>
    decreases s.len(),
    via split_lines_dec
{
    if s.len() == 0 {
        Seq::empty()
    } else {
        let i = first_nl(s);
        if i == s.len() {
            seq![s]
        } else {
            seq![strip_cr(s.subrange(0, i))] + split_lines(s.subrange(i + 1, s.len() as int))
        }
    }
}

#[via_fn]
proof fn split_lines_dec(s: Seq<char>) {
    lemma_first_nl(s);
}

pub proof fn lemma_first_nl(s: Seq<char>)
    ensures
        0 <= first_nl(s) <= s.len(),
        first_nl(s) < s.len() ==> s[first_nl(s)] == '\n',
        forall|j: int| 0 <= j < first_nl(s) ==> s[j] != '\n',
    decreases s.len(),
{
    if s.len() > 0 && s[0] != '\n' {
        lemma_first_nl(s.drop_first());
        assert forall|j: int| 0 <= j < first_nl(s) implies s[j] != '\n' by {
            if j > 0 {
                assert(s.drop_first()[j - 1] == s[j]);
            }
        }
        if first_nl(s) < s.len() {
            assert(s.drop_first()[first_nl(s) - 1] == s[first_nl(s)]);
        }
    }
}

pub proof fn lemma_first_nl_at(s: Seq<char>, k: int)
    requires
        0 <= k < s.len(),
        s[k] == '\n',
        forall|j: int| 0 <= j < k ==> s[j] != '\n',
    ensures
        first_nl(s) == k,
{
    lemma_first_nl(s);
    if first_nl(s) < k {
        assert(s[first_nl(s)] != '\n');
    }
}

pub proof fn lemma_first_nl_none(s: Seq<char>)
    requires
        forall|j: int| 0 <= j < s.len() ==> s[j] != '\n',
    ensures
        first_nl(s) == s.len(),
{
    lemma_first_nl(s);
    if first_nl(s) < s.len() {
        assert(s[first_nl(s)] == '\n');
    }
}

/// Splitting distributes over concatenation when the first part is either
/// empty or ends in a line ending of its own.
pub proof fn lemma_split_concat(a: Seq<char>, b: Seq<char>)
    requires
        a.len() > 0 ==> a.last() == '\n',
    ensures
        split_lines(a + b) == split_lines(a) + split_lines(b),
    decreases a.len(),
{
    if a.len() == 0 {
        assert(a + b =~= b);
        assert(split_lines(a) + split_lines(b) =~= split_lines(b));
    } else {
        let s = a + b;
        let i = first_nl(a);
        lemma_first_nl(a);
        assert(a[a.len() - 1] == '\n');
        assert(i < a.len());
        lemma_first_nl_at(s, i);
        assert(s.subrange(0, i) =~= a.subrange(0, i));
        let a2 = a.subrange(i + 1, a.len() as int);
        assert(s.subrange(i + 1, s.len() as int) =~= a2 + b);
        if a2.len() > 0 {
            assert(a2.last() == a.last());
        }
        lemma_split_concat(a2, b);
        if a.len() > 0 && first_nl(a) == a.len() {
            assert(false);
        }
        assert(split_lines(a) == seq![strip_cr(a.subrange(0, i))] + split_lines(a2));
        assert(split_lines(s) =~= split_lines(a) + split_lines(b));
    }
}

/// A string made of complete lines plus one final segment without `'\n'`
/// splits into the lines of the front part plus that segment.
pub proof fn lemma_split_trailing(s: Seq<char>, start: int)
    requires
        0 <= start < s.len(),
        start == 0 || s[start - 1] == '\n',
        forall|j: int| start <= j < s.len() ==> s[j] != '\n',
    ensures
        split_lines(s) == split_lines(s.take(start)).push(s.subrange(start, s.len() as int)),
{
    let a = s.take(start);
    let b = s.subrange(start, s.len() as int);
    assert(s =~= a + b);
    if a.len() > 0 {
        assert(a.last() == s[start - 1]);
    }
    lemma_split_concat(a, b);
    assert(b.len() > 0);
    assert forall|j: int| 0 <= j < b.len() implies b[j] != '\n' by {
        assert(b[j] == s[start + j]);
    }
    lemma_first_nl_none(b);
    assert(split_lines(b) == seq![b]);
    assert(split_lines(a) + seq![b] =~= split_lines(a).push(b));
    assert(split_lines(s) == split_lines(a + b));
}

/// Extending a string made of complete lines by one more complete line
/// appends exactly that line.
pub proof fn lemma_split_step(s: Seq<char>, start: int, i: int)
    requires
        0 <= start <= i < s.len(),
        s[i] == '\n',
        start == 0 || s[start - 1] == '\n',
        forall|j: int| start <= j < i ==> s[j] != '\n',
    ensures
        split_lines(s.take(i + 1)) == split_lines(s.take(start)).push(
            strip_cr(s.subrange(start, i)),
        ),
{
    let a = s.take(start);
    let b = s.subrange(start, i + 1);
    assert(s.take(i + 1) =~= a + b);
    if a.len() > 0 {
        assert(a.last() == s[start - 1]);
    }
    lemma_split_concat(a, b);
    assert(b.len() > 0);
    assert(b[b.len() - 1] == s[i]);
    assert forall|j: int| 0 <= j < b.len() - 1 implies b[j] != '\n' by {
        assert(b[j] == s[start + j]);
    }
    lemma_first_nl_at(b, b.len() - 1);
    let body = b.subrange(0, b.len() - 1);
    assert(body =~= s.subrange(start, i));
    assert(b.subrange(b.len() as int, b.len() as int) =~= Seq::<char>::empty());
    assert(split_lines(b) == seq![strip_cr(body)] + split_lines(
        b.subrange(b.len() as int, b.len() as int),
    ));
    assert(split_lines(b) =~= seq![strip_cr(body)]);
    assert(split_lines(a) + seq![strip_cr(body)] =~= split_lines(a).push(strip_cr(body)));
}

/// Every line is at most as long as the string it came from, there are at
/// most `len + 1` lines, and no line contains `'\n'`.
pub proof fn lemma_split_lines_shape(s: Seq<char>)
    ensures
        split_lines(s).len() <= s.len() + 1,
        forall|k: int| 0 <= k < split_lines(s).len() ==> (#[trigger] split_lines(s)[k]).len()
            <= s.len(),
        forall|k: int, j: int|
            0 <= k < split_lines(s).len() && 0 <= j < split_lines(s)[k].len() ==> #[trigger] split_lines(
                s,
            )[k][j] != '\n',
    decreases s.len(),
{
    lemma_first_nl(s);
    if s.len() == 0 {
    } else {
        let i = first_nl(s);
        if i == s.len() {
        } else {
            let rest = s.subrange(i + 1, s.len() as int);
            lemma_split_lines_shape(rest);
            let head = strip_cr(s.subrange(0, i));
            assert(head.len() <= i);
            assert forall|j: int| 0 <= j < head.len() implies head[j] != '\n' by {
                assert(head[j] == s[j]);
            }
        }
    }
}

/// The length of the longest of these lines; measured widths apply it to
/// the non-blank lines (see [`block_width`]).
pub open spec fn max_width(ls: Seq<Seq<char>>) -> int
    decreases ls.len(),
{
    if ls.len() == 0 {
        0
    } else {
        let rest = max_width(ls.drop_last());
        if ls.last().len() > rest {
            ls.last().len() as int
        } else {
            rest
        }
    }
}

/// The non-blank lines, in order.
pub open spec fn keep_nonblank(ls: Seq<Seq<char>>) -> Seq<Seq<char>>
    decreases ls.len(),
{
    if ls.len() == 0 {
        Seq::empty()
    } else if is_blank_line(ls.last()) {
        keep_nonblank(ls.drop_last())
    } else {
        keep_nonblank(ls.drop_last()).push(ls.last())
    }
}

/// Height of a block: how many of its lines are not blank.
pub open spec fn count_nonblank(ls: Seq<Seq<char>>) -> int {
    keep_nonblank(ls).len() as int
}

/// Measured width of a block of text: its widest non-blank line. Blank
/// padding lines carry no content, so they count for neither dimension.
pub open spec fn block_width(s: Seq<char>) -> int {
    max_width(keep_nonblank(split_lines(s)))
}

/// Measured height of a block of text: its number of non-blank lines.
pub open spec fn block_height(s: Seq<char>) -> int {
    count_nonblank(split_lines(s))
}

/// The lines joined back together with single `'\n'` separators.
pub open spec fn join_lines(ls: Seq<Seq<char>>) -> Seq<char>
    decreases ls.len(),
{
    if ls.len() == 0 {
        Seq::empty()
    } else if ls.len() == 1 {
        ls[0]
    } else {
        join_lines(ls.drop_last()) + seq!['\n'] + ls.last()
    }
}

/// What stripping the blank lines out of a block leaves.
pub open spec fn strip_blank_spec(s: Seq<char>) -> Seq<char> {
    join_lines(keep_nonblank(split_lines(s)))
}




/// Every kept line is one of the original lines, and is not blank.
pub proof fn lemma_keep_elements(ls: Seq<Seq<char>>)
    ensures
        forall|k: int|
            0 <= k < keep_nonblank(ls).len() ==> exists|j: int|
                0 <= j < ls.len() && #[trigger] keep_nonblank(ls)[k] == ls[j] && !is_blank_line(
                    ls[j],
                ),
    decreases ls.len(),
{
    if ls.len() > 0 {
        lemma_keep_elements(ls.drop_last());
        let kp = keep_nonblank(ls);
        assert forall|k: int| 0 <= k < kp.len() implies exists|j: int|
            0 <= j < ls.len() && #[trigger] kp[k] == ls[j] && !is_blank_line(ls[j]) by {
            let prev = keep_nonblank(ls.drop_last());
            if k < prev.len() {
                let j = choose|j: int|
                    0 <= j < ls.drop_last().len() && #[trigger] prev[k] == ls.drop_last()[j]
                        && !is_blank_line(ls.drop_last()[j]);
                assert(ls.drop_last()[j] == ls[j]);
                assert(kp[k] == ls[j] && !is_blank_line(ls[j]));
            } else {
                assert(kp[k] == ls[ls.len() - 1] && !is_blank_line(ls[ls.len() - 1]));
            }
        }
    }
}



/// A block of only non-blank lines is kept whole.
pub proof fn lemma_keep_all_nonblank(ls: Seq<Seq<char>>)
    requires
        forall|k: int| 0 <= k < ls.len() ==> !is_blank_line(#[trigger] ls[k]),
    ensures
        keep_nonblank(ls) == ls,
    decreases ls.len(),
{
    if ls.len() > 0 {
        assert forall|k: int| 0 <= k < ls.drop_last().len() implies !is_blank_line(
            #[trigger] ls.drop_last()[k],
        ) by {
            assert(ls.drop_last()[k] == ls[k]);
        }
        lemma_keep_all_nonblank(ls.drop_last());
        assert(keep_nonblank(ls) =~= ls);
    } else {
        assert(keep_nonblank(ls) =~= ls);
    }
}

/// Joining can be read off the front as well as off the back.
pub proof fn lemma_join_first(ls: Seq<Seq<char>>)
    requires
        ls.len() >= 2,
    ensures
        join_lines(ls) == ls.first() + seq!['\n'] + join_lines(ls.drop_first()),
    decreases ls.len(),
{
    if ls.len() == 2 {
        assert(ls.drop_last()[0] == ls[0]);
        assert(join_lines(ls.drop_last()) == ls[0]);
        assert(ls.drop_first()[0] == ls[1]);
        assert(join_lines(ls.drop_first()) == ls[1]);
    } else {
        lemma_join_first(ls.drop_last());
        assert(ls.drop_last().first() == ls.first());
        assert(ls.drop_last().drop_first() =~= ls.drop_first().drop_last());
        assert(join_lines(ls) == join_lines(ls.drop_last()) + seq!['\n'] + ls.last());
        assert(ls.drop_first().len() >= 2);
        assert(ls.drop_first().last() == ls.last());
        assert(join_lines(ls.drop_first()) == join_lines(ls.drop_first().drop_last())
            + seq!['\n'] + ls.drop_first().last());
        assert(join_lines(ls) =~= ls.first() + seq!['\n'] + join_lines(ls.drop_first()));
    }
}

/// Splitting undoes joining, for lines a splitter can produce: non-empty,
/// free of `'\n'`, and not ending in `'\r'`.
pub proof fn lemma_split_join(ls: Seq<Seq<char>>)
    requires
        forall|k: int| 0 <= k < ls.len() ==> (#[trigger] ls[k]).len() > 0,
        forall|k: int, j: int|
            0 <= k < ls.len() && 0 <= j < ls[k].len() ==> #[trigger] ls[k][j] != '\n',
        forall|k: int| 0 <= k < ls.len() ==> (#[trigger] ls[k]).last() != '\r',
    ensures
        split_lines(join_lines(ls)) == ls,
    decreases ls.len(),
{
    if ls.len() == 0 {
        assert(split_lines(join_lines(ls)) =~= ls);
    } else if ls.len() == 1 {
        let l = ls[0];
        assert forall|j: int| 0 <= j < l.len() implies l[j] != '\n' by {}
        lemma_first_nl_none(l);
        assert(join_lines(ls) == l);
        assert(split_lines(l) == seq![l]);
        assert(seq![l] =~= ls);
    } else {
        lemma_join_first(ls);
        let l0 = ls.first();
        let rest = ls.drop_first();
        let s = join_lines(ls);
        let tail = join_lines(rest);
        assert(s == l0 + seq!['\n'] + tail);
        let i = l0.len() as int;
        assert(s[i] == '\n');
        assert forall|j: int| 0 <= j < i implies s[j] != '\n' by {
            assert(s[j] == l0[j]);
        }
        lemma_first_nl_at(s, i);
        assert(s.subrange(0, i) =~= l0);
        assert(l0.last() != '\r');
        assert(strip_cr(l0) == l0);
        assert(s.subrange(i + 1, s.len() as int) =~= tail);
        assert forall|k: int| 0 <= k < rest.len() implies (#[trigger] rest[k]).len() > 0 by {
            assert(rest[k] == ls[k + 1]);
        }
        assert forall|k: int, j: int|
            0 <= k < rest.len() && 0 <= j < rest[k].len() implies #[trigger] rest[k][j]
            != '\n' by {
            assert(rest[k] == ls[k + 1]);
        }
        assert forall|k: int| 0 <= k < rest.len() implies (#[trigger] rest[k]).last() != '\r' by {
            assert(rest[k] == ls[k + 1]);
        }
        lemma_split_join(rest);
        assert(i < s.len());
        assert(split_lines(s) == seq![strip_cr(s.subrange(0, i))] + split_lines(
            s.subrange(i + 1, s.len() as int),
        ));
        assert(split_lines(s) =~= seq![l0] + rest);
        assert(seq![l0] + rest =~= ls);
    }
}

/// Measuring is stable under blank-line stripping: both dimensions range
/// over non-blank lines only, so dropping the blank ones changes neither,
/// and re-splitting the stripped text yields exactly the non-blank lines.
/// The one shape condition: no non-blank line ends in a stray `'\r'`
/// (joining and re-splitting would swallow it into the line ending).
pub proof fn lemma_strip_preserves_measure(s: Seq<char>)
    requires
        forall|k: int|
            0 <= k < split_lines(s).len() && !is_blank_line(#[trigger] split_lines(s)[k])
                ==> split_lines(s)[k].last() != '\r',
    ensures
        split_lines(strip_blank_spec(s)) == keep_nonblank(split_lines(s)),
        block_width(strip_blank_spec(s)) == block_width(s),
        block_height(strip_blank_spec(s)) == block_height(s),
{
    let ls = split_lines(s);
    let kp = keep_nonblank(ls);
    lemma_split_lines_shape(s);
    lemma_keep_elements(ls);
    assert forall|k: int| 0 <= k < kp.len() implies (#[trigger] kp[k]).len() > 0 by {
        let j = choose|j: int| 0 <= j < ls.len() && kp[k] == ls[j] && !is_blank_line(ls[j]);
        assert(!is_blank_line(kp[k]));
    }
    assert forall|k: int, j: int|
        0 <= k < kp.len() && 0 <= j < kp[k].len() implies #[trigger] kp[k][j] != '\n' by {
        let m = choose|m: int| 0 <= m < ls.len() && kp[k] == ls[m] && !is_blank_line(ls[m]);
        assert(ls[m][j] != '\n');
    }
    assert forall|k: int| 0 <= k < kp.len() implies (#[trigger] kp[k]).last() != '\r' by {
        let j = choose|j: int| 0 <= j < ls.len() && kp[k] == ls[j] && !is_blank_line(ls[j]);
    }
    lemma_split_join(kp);
    assert(split_lines(strip_blank_spec(s)) == kp);
    // the kept lines are all non-blank, so keeping them again changes
    // nothing: both measures of the stripped text are measures of `kp`
    assert forall|k: int| 0 <= k < kp.len() implies !is_blank_line(#[trigger] kp[k]) by {
        let j = choose|j: int| 0 <= j < ls.len() && kp[k] == ls[j] && !is_blank_line(ls[j]);
    }
    lemma_keep_all_nonblank(kp);
}

/// Whether this line holds nothing but horizontal whitespace.
pub fn line_is_blank(l: &str) -> (r: bool)
    ensures
        r == is_blank_line(l@),
{
    let n = l.unicode_len();
    let mut i: usize = 0;
    while i < n
        invariant
            n == l@.len(),
            0 <= i <= n,
            forall|j: int| 0 <= j < i ==> is_blank_char(#[trigger] l@[j]),
        decreases n - i,
    {
        let c = l.get_char(i);
        let u: u32 = c as u32;
        let blank = u == 0x09 || u == 0x0A || u == 0x0B || u == 0x0C || u == 0x0D || u == 0x20
            || u == 0x85 || u == 0xA0 || u == 0x1680 || (0x2000 <= u && u <= 0x200A)
            || u == 0x2028 || u == 0x2029 || u == 0x202F || u == 0x205F || u == 0x3000;
        if !blank {
            return false;
        }
        i = i + 1;
    }
    true
}

/// Cut a string into its lines.
pub fn split_into_lines(s: &str) -> (r: Vec<String>)
    ensures
        r.deep_view() == split_lines(s@),
{
    let n = s.unicode_len();
    let mut r: Vec<String> = Vec::new();
    let mut start: usize = 0;
    let mut i: usize = 0;
    while i < n
        invariant
            n == s@.len(),
            0 <= start <= i <= n,
            start == 0 || s@[start - 1] == '\n',
            forall|j: int| start <= j < i ==> s@[j] != '\n',
            r.deep_view() == split_lines(s@.take(start as int)),
        decreases n - i,
    {
        let c = s.get_char(i);
        if c == '\n' {
            let end = if i > start && s.get_char(i - 1) == '\r' {
                i - 1
            } else {
                i
            };
            let line = s.substring_char(start, end);
            let ghost prev = r.deep_view();
            r.push(String::from_str(line));
            proof {
                lemma_split_step(s@, start as int, i as int);
                assert(line@ =~= strip_cr(s@.subrange(start as int, i as int)));
                assert(r.deep_view() =~= prev.push(line@));
            }
            start = i + 1;
        }
        i = i + 1;
    }
    if start < n {
        let line = s.substring_char(start, n);
        let ghost prev = r.deep_view();
        r.push(String::from_str(line));
        proof {
            lemma_split_trailing(s@, start as int);
            assert(r.deep_view() =~= prev.push(line@));
            assert(s@.take(n as int) =~= s@);
        }
    } else {
        proof {
            assert(s@.take(start as int) =~= s@);
        }
    }
    r
}

/// Drop every blank line and join the rest back together.
pub fn strip_blank_lines(s: &str) -> (r: String)
    ensures
        r@ == strip_blank_spec(s@),
{
    let lines = split_into_lines(s);
    let ghost dv = lines.deep_view();
    let mut out = String::new();
    let mut kept: usize = 0;
    let n = lines.len();
    let mut i: usize = 0;
    while i < n
        invariant
            n == dv.len(),
            dv == split_lines(s@),
            lines.deep_view() == dv,
            0 <= i <= n,
            kept <= i,
            kept == keep_nonblank(dv.take(i as int)).len(),
            out@ == join_lines(keep_nonblank(dv.take(i as int))),
        decreases n - i,
    {
        let ghost pre = keep_nonblank(dv.take(i as int));
        proof {
            assert(dv.take(i + 1).drop_last() =~= dv.take(i as int));
            assert(dv.take(i + 1).last() == dv[i as int]);
        }
        if !line_is_blank(lines[i].as_str()) {
            if kept > 0 {
                out.append("\n");
                proof {
                    reveal_strlit("\n");
                }
            }
            out.append(lines[i].as_str());
            kept = kept + 1;
            proof {
                assert(keep_nonblank(dv.take(i + 1)) == pre.push(dv[i as int]));
                if pre.len() == 0 {
                    assert(join_lines(pre.push(dv[i as int])) =~= dv[i as int]);
                } else {
                    assert(pre.push(dv[i as int]).drop_last() =~= pre);
                    assert(join_lines(pre.push(dv[i as int])) == join_lines(pre) + seq!['\n']
                        + dv[i as int]);
                }
                assert(out@ =~= join_lines(keep_nonblank(dv.take(i + 1))));
            }
        } else {
            proof {
                assert(keep_nonblank(dv.take(i + 1)) == pre);
            }
        }
        i = i + 1;
    }
    proof {
        assert(dv.take(n as int) =~= dv);
    }
    out
}

} // verus!
