//! The line model: how text splits into newline-delimited lines, and the
//! per-line facts (trimmed content bounds, blankness, letter case, leading
//! indent) that line classification decides by.
use vstd::prelude::*;

use crate::bytes::{is_lower, is_upper, is_ws, ws_byte};

verus! {

/// No line feed occurs in `t[a..b]`.
pub open spec fn no_nl(t: Seq<u8>, a: int, b: int) -> bool {
    forall|k: int| a <= k < b ==> t[k] != 10
}

/// Offset of the first line feed at or after `a`, or the text length if
/// there is none.
pub open spec fn next_nl(t: Seq<u8>, a: int) -> int
    decreases t.len() - a,
{
    if a < 0 || a >= t.len() {
        t.len() as int
    } else if t[a] == 10 {
        a
    } else {
        next_nl(t, a + 1)
    }
}

/// The lines of `t` from offset `a` on, as pairs of the line's first byte
/// offset and the offset one past its last byte (the line feed's offset, or
/// the text length). Text ending in a line feed has no trailing empty line;
/// a last line without a line feed is still a line.
pub open spec fn lines_from(t: Seq<u8>, a: int) -> Seq<(int, int)>
    decreases t.len() - a,
    via lines_from_decreases
{
    if a < 0 || a >= t.len() {
        Seq::empty()
    } else {
        let e = next_nl(t, a);
        if e >= t.len() {
            seq![(a, e)]
        } else {
            seq![(a, e)] + lines_from(t, e + 1)
        }
    }
}

#[via_fn]
proof fn lines_from_decreases(t: Seq<u8>, a: int) {
    if 0 <= a < t.len() {
        next_nl_props(t, a);
    }
}

/// The lines of the whole text.
pub open spec fn lines_of(t: Seq<u8>) -> Seq<(int, int)> {
    lines_from(t, 0)
}

pub proof fn next_nl_props(t: Seq<u8>, a: int)
    requires
        0 <= a <= t.len(),
    ensures
        a <= next_nl(t, a) <= t.len(),
        next_nl(t, a) < t.len() ==> t[next_nl(t, a)] == 10,
        no_nl(t, a, next_nl(t, a)),
    decreases t.len() - a,
{
    if a < t.len() && t[a] != 10 {
        next_nl_props(t, a + 1);
    }
}

pub proof fn next_nl_eq(t: Seq<u8>, a: int, j: int)
    requires
        0 <= a <= j <= t.len(),
        no_nl(t, a, j),
        j == t.len() || t[j] == 10,
    ensures
        next_nl(t, a) == j,
    decreases j - a,
{
    if a < j {
        next_nl_eq(t, a + 1, j);
    }
}

/// Well-formedness of every line: lines lie within the text, abut the text
/// ends or line feeds, hold no line feed, and come in order, each starting
/// one past the previous line's end.
pub proof fn lines_from_wf(t: Seq<u8>, a: int)
    requires
        0 <= a <= t.len(),
    ensures
        forall|j: int|
            0 <= j < lines_from(t, a).len() ==> {
                let l = #[trigger] lines_from(t, a)[j];
                &&& a <= l.0 <= l.1 <= t.len()
                &&& (l.0 == a || t[l.0 - 1] == 10)
                &&& (l.1 == t.len() || t[l.1] == 10)
                &&& no_nl(t, l.0, l.1)
            },
        forall|j: int|
            0 < j < lines_from(t, a).len() ==> (#[trigger] lines_from(t, a)[j]).0 == lines_from(
                t,
                a,
            )[j - 1].1 + 1,
        lines_from(t, a).len() > 0 ==> lines_from(t, a)[0].0 == a,
    decreases t.len() - a,
{
    if 0 <= a < t.len() {
        let e = next_nl(t, a);
        next_nl_props(t, a);
        if e < t.len() {
            lines_from_wf(t, e + 1);
        }
    }
}

/// The line holds only whitespace.
pub open spec fn line_blank(t: Seq<u8>, a: int, b: int) -> bool {
    forall|k: int| a <= k < b ==> is_ws(#[trigger] t[k])
}

/// Offset of the first non-whitespace byte in `t[a..b]`, or `b` if the line
/// is blank.
pub open spec fn first_content(t: Seq<u8>, a: int, b: int) -> int
    decreases b - a,
{
    if a >= b {
        b
    } else if !is_ws(t[a]) {
        a
    } else {
        first_content(t, a + 1, b)
    }
}

/// Offset of the last non-whitespace byte in `t[a..b]`; `a - 1` if the line
/// is blank.
pub open spec fn last_content(t: Seq<u8>, a: int, b: int) -> int
    decreases b - a,
{
    if b <= a {
        a - 1
    } else if !is_ws(t[b - 1]) {
        b - 1
    } else {
        last_content(t, a, b - 1)
    }
}

pub proof fn first_content_props(t: Seq<u8>, a: int, b: int)
    requires
        0 <= a <= b <= t.len(),
    ensures
        a <= first_content(t, a, b) <= b,
        first_content(t, a, b) < b ==> !is_ws(t[first_content(t, a, b)]),
        forall|k: int| a <= k < first_content(t, a, b) ==> is_ws(#[trigger] t[k]),
        (first_content(t, a, b) == b) == line_blank(t, a, b),
    decreases b - a,
{
    if a < b && is_ws(t[a]) {
        first_content_props(t, a + 1, b);
    }
}

pub proof fn last_content_props(t: Seq<u8>, a: int, b: int)
    requires
        0 <= a <= b <= t.len(),
        !line_blank(t, a, b),
    ensures
        a <= last_content(t, a, b) < b,
        !is_ws(t[last_content(t, a, b)]),
        forall|k: int| last_content(t, a, b) < k < b ==> is_ws(#[trigger] t[k]),
        first_content(t, a, b) <= last_content(t, a, b),
    decreases b - a,
{
    let w = choose|k: int| a <= k < b && !is_ws(t[k]);
    if is_ws(t[b - 1]) {
        assert(!line_blank(t, a, b - 1)) by {
            assert(a <= w < b - 1 && !is_ws(t[w]));
        }
        last_content_props(t, a, b - 1);
    }
    first_content_props(t, a, b);
    if first_content(t, a, b) > last_content(t, a, b) {
        assert(is_ws(t[last_content(t, a, b)]));
    }
}

/// The line is entirely uppercase: at least one uppercase letter and no
/// lowercase letter.
pub open spec fn upper_line(t: Seq<u8>, a: int, b: int) -> bool {
    &&& exists|k: int| a <= k < b && is_upper(#[trigger] t[k])
    &&& forall|k: int| a <= k < b ==> !is_lower(#[trigger] t[k])
}

/// The raw line begins with two spaces: inside a dialogue block, a blank
/// line so indented is an explicit forced line break, not a separator.
pub open spec fn lead2(t: Seq<u8>, a: int, b: int) -> bool {
    b - a >= 2 && t[a] == 32 && t[a + 1] == 32
}

/// After ignoring trailing whitespace the line is three or more `=` bytes
/// and nothing else.
pub open spec fn page_break_line(t: Seq<u8>, a: int, b: int) -> bool {
    &&& !line_blank(t, a, b)
    &&& last_content(t, a, b) - a + 1 >= 3
    &&& forall|k: int| a <= k <= last_content(t, a, b) ==> t[k] == 61
}

/// The trimmed line starts with `(` and ends with `)`.
pub open spec fn paren_line(t: Seq<u8>, a: int, b: int) -> bool {
    &&& !line_blank(t, a, b)
    &&& t[first_content(t, a, b)] == 40
    &&& t[last_content(t, a, b)] == 41
}

/// The trimmed line starts with `INT`, `EXT` or `I/E`.
pub open spec fn heading_prefix(t: Seq<u8>, cs: int, ce: int) -> bool {
    ce - cs >= 2 && ((t[cs] == 73 && t[cs + 1] == 78 && t[cs + 2] == 84) || (t[cs] == 69 && t[cs + 1]
        == 88 && t[cs + 2] == 84) || (t[cs] == 73 && t[cs + 1] == 47 && t[cs + 2] == 69))
}

/// The trimmed line ends with `TO:`.
pub open spec fn transition_suffix(t: Seq<u8>, cs: int, ce: int) -> bool {
    ce - cs >= 2 && t[ce - 2] == 84 && t[ce - 1] == 79 && t[ce] == 58
}

/// What `LineStatus::new` computes, as one predicate, so a vector of
/// line statuses can be carried through a loop invariant.
pub open spec fn line_status_wf(t: Seq<u8>, a: int, b: int, r: LineStatus) -> bool {
    &&& r.start as int == a && r.end as int == b
    &&& match r.content {
        None => line_blank(t, a, b),
        Some((cs, ce)) => {
            &&& !line_blank(t, a, b)
            &&& cs as int == first_content(t, a, b)
            &&& ce as int == last_content(t, a, b)
        },
    }
    &&& r.uppercase == upper_line(t, a, b)
    &&& r.lead2 == lead2(t, a, b)
}

/// Decides whether the line is entirely uppercase.
pub fn line_is_uppercase(t: &[u8], a: usize, b: usize) -> (r: bool)
    requires
        a <= b <= t@.len(),
    ensures
        r == upper_line(t@, a as int, b as int),
{
    let ghost ta = a as int;
    let ghost tb = b as int;
    let mut has_upper = false;
    let mut no_lower = true;
    let mut j: usize = a;
    while j < b
        invariant
            a <= j <= b <= t@.len(),
            has_upper ==> exists|k: int| ta <= k < j && is_upper(#[trigger] t@[k]),
            !has_upper ==> forall|k: int| ta <= k < j ==> !is_upper(#[trigger] t@[k]),
            no_lower ==> forall|k: int| ta <= k < j ==> !is_lower(#[trigger] t@[k]),
            !no_lower ==> exists|k: int| ta <= k < j && is_lower(#[trigger] t@[k]),
        decreases b - j,
    {
        let ghost jj = j as int;
        let by = t[j];
        if 65 <= by && by <= 90 {
            has_upper = true;
            proof {
                assert(ta <= jj < jj + 1 && is_upper(t@[jj]));
            }
        }
        if 97 <= by && by <= 122 {
            no_lower = false;
            proof {
                assert(ta <= jj < jj + 1 && is_lower(t@[jj]));
            }
        }
        j = j + 1;
    }
    proof {
        if !no_lower {
            let w = choose|k: int| ta <= k < tb && is_lower(t@[k]);
            assert(!upper_line(t@, ta, tb));
        }
    }
    has_upper && no_lower
}

/// Decides whether trimmed content bytes make a parenthetical line:
/// first `(` and last `)`.
pub fn line_is_parenthetical(t: &[u8], cs: usize, ce: usize) -> (r: bool)
    requires
        cs <= ce < t@.len(),
    ensures
        r == (t@[cs as int] == 40 && t@[ce as int] == 41),
{
    t[cs] == 40 && t[ce] == 41
}

/// Decides whether the line from `a` with last content byte `ce` is a page
/// break: three or more `=` bytes and nothing else before the trailing
/// whitespace.
pub fn line_is_page_break(t: &[u8], a: usize, ce: usize) -> (r: bool)
    requires
        a <= ce < t@.len(),
    ensures
        r == (ce - a + 1 >= 3 && forall|k: int| a <= k <= ce ==> t@[k] == 61),
{
    if ce - a < 2 {
        return false;
    }
    let mut j: usize = a;
    while j <= ce
        invariant
            a <= j <= ce + 1,
            ce < t@.len(),
            forall|k: int| a <= k < j ==> t@[k] == 61,
        decreases ce + 1 - j,
    {
        if t[j] != 61 {
            return false;
        }
        j = j + 1;
    }
    true
}

/// Decides whether the trimmed content starts with `INT`, `EXT` or `I/E`.
pub fn line_is_heading(t: &[u8], cs: usize, ce: usize) -> (r: bool)
    requires
        cs <= ce < t@.len(),
    ensures
        r == heading_prefix(t@, cs as int, ce as int),
{
    ce - cs >= 2 && ((t[cs] == 73 && t[cs + 1] == 78 && t[cs + 2] == 84) || (t[cs] == 69 && t[cs + 1]
        == 88 && t[cs + 2] == 84) || (t[cs] == 73 && t[cs + 1] == 47 && t[cs + 2] == 69))
}

/// Decides whether the trimmed content ends with `TO:`.
pub fn line_is_transition(t: &[u8], cs: usize, ce: usize) -> (r: bool)
    requires
        cs <= ce < t@.len(),
    ensures
        r == transition_suffix(t@, cs as int, ce as int),
{
    ce - cs >= 2 && t[ce - 2] == 84 && t[ce - 1] == 79 && t[ce] == 58
}

/// Per-line facts computed by one pass over the line's bytes: its raw
/// bounds, trimmed content bounds (`None` for a blank line), letter case,
/// and whether the raw line starts with two spaces.
pub struct LineStatus {
    pub start: usize,
    pub end: usize,
    pub content: Option<(usize, usize)>,
    pub uppercase: bool,
    pub lead2: bool,
}

impl LineStatus {
    /// Collects the per-line facts for the line `t[a..b]`.
    pub fn new(t: &[u8], a: usize, b: usize) -> (r: LineStatus)
        requires
            a <= b <= t@.len(),
        ensures
            line_status_wf(t@, a as int, b as int, r),
    {
        let ghost ta = a as int;
        let ghost tb = b as int;
        let mut cs: usize = a;
        while cs < b && ws_byte(t[cs])
            invariant
                a <= cs <= b <= t@.len(),
                first_content(t@, cs as int, tb) == first_content(t@, ta, tb),
            decreases b - cs,
        {
            cs = cs + 1;
        }
        let content: Option<(usize, usize)>;
        if cs == b {
            proof {
                first_content_props(t@, ta, tb);
            }
            content = None;
        } else {
            let mut ce: usize = b;
            while ce > cs && ws_byte(t[ce - 1])
                invariant
                    a <= cs < ce <= b <= t@.len(),
                    last_content(t@, ta, ce as int) == last_content(t@, ta, tb),
                    first_content(t@, ta, tb) == cs as int,
                    !is_ws(t@[cs as int]),
                decreases ce,
            {
                ce = ce - 1;
            }
            proof {
                first_content_props(t@, ta, tb);
            }
            content = Some((cs, ce - 1));
        }
        let upper = line_is_uppercase(t, a, b);
        let two = b - a >= 2 && t[a] == 32 && t[a + 1] == 32;
        LineStatus { start: a, end: b, content, uppercase: upper, lead2: two }
    }
}

/// Splits the text into its lines. Each returned pair is a line's raw
/// bounds, matching `lines_of`.
pub fn split_lines(t: &[u8]) -> (r: Vec<(usize, usize)>)
    ensures
        r@.len() == lines_of(t@).len(),
        forall|j: int|
            0 <= j < r@.len() ==> (#[trigger] r@[j]).0 as int == lines_of(t@)[j].0 && r@[j].1 as int
                == lines_of(t@)[j].1,
{
    let n = t.len();
    let mut r: Vec<(usize, usize)> = Vec::new();
    let mut cur: usize = 0;
    let mut i: usize = 0;
    proof {
        assert(lines_of(t@) == r@.map_values(|p: (usize, usize)| (p.0 as int, p.1 as int))
            + lines_from(t@, 0));
    }
    while i < n
        invariant
            cur <= i <= n == t@.len(),
            no_nl(t@, cur as int, i as int),
            lines_of(t@) == r@.map_values(|p: (usize, usize)| (p.0 as int, p.1 as int))
                + lines_from(t@, cur as int),
        decreases n - i,
    {
        if t[i] == 10 {
            proof {
                next_nl_eq(t@, cur as int, i as int);
                assert(lines_from(t@, cur as int) == seq![(cur as int, i as int)] + lines_from(
                    t@,
                    i as int + 1,
                ));
            }
            r.push((cur, i));
            proof {
                assert(r@.map_values(|p: (usize, usize)| (p.0 as int, p.1 as int))
                    == r@.drop_last().map_values(|p: (usize, usize)| (p.0 as int, p.1 as int)).push(
                    (cur as int, i as int),
                ));
                assert(lines_of(t@) == r@.map_values(|p: (usize, usize)| (p.0 as int, p.1 as int))
                    + lines_from(t@, i as int + 1));
            }
            cur = i + 1;
        }
        i = i + 1;
    }
    if cur < n {
        proof {
            next_nl_eq(t@, cur as int, n as int);
            assert(lines_from(t@, cur as int) == seq![(cur as int, n as int)]);
        }
        r.push((cur, n));
        proof {
            assert(r@.map_values(|p: (usize, usize)| (p.0 as int, p.1 as int))
                == r@.drop_last().map_values(|p: (usize, usize)| (p.0 as int, p.1 as int)).push(
                (cur as int, n as int),
            ));
        }
    }
    proof {
        assert(lines_of(t@) =~= r@.map_values(|p: (usize, usize)| (p.0 as int, p.1 as int)));
        assert(forall|j: int|
            0 <= j < r@.len() ==> (#[trigger] r@[j]).0 as int == lines_of(t@)[j].0 && r@[j].1 as int
                == lines_of(t@)[j].1);
    }
    r
}

} // verus!
