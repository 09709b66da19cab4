//! The line classifier: assigns every line a structural role using the
//! previous line's outcome and one line of lookahead, and aggregates the
//! lines following a character cue into parenthetical and dialogue
//! elements, merging consecutive dialogue continuation lines into one span.
//!
//! Like the scanner it is specified as a state machine: `classify_step`
//! gives the exact effect of one line, `classify_upto` folds it over the
//! line list, and the executable pass `parse_lines` is proved to produce
//! exactly the folded result.
use vstd::prelude::*;

use crate::bytes::is_ws;
use crate::lines::{
    first_content, first_content_props, heading_prefix, last_content, last_content_props, lead2,
    line_blank, line_is_heading, line_is_page_break, line_is_parenthetical, line_is_transition,
    line_status_wf, lines_from_wf, lines_of, page_break_line, paren_line, transition_suffix,
    upper_line, LineStatus,
};
use crate::markup::ElmType;
use crate::scan::{mk_span, view_seq};
use crate::spans::{IntElement, SpanData};

verus! {

/// The classifier's state between lines: whether the previous line was
/// blank, ordinary, or part of a character block — and, inside a character
/// block, the bounds of the dialogue run being merged.
pub ghost enum Mode {
    /// The previous line was blank (or this is the first line).
    Blank,
    /// The previous line was classified outside any character block.
    Normal,
    /// Inside a character block, with no dialogue run being merged.
    DialIdle,
    /// Inside a character block, merging a dialogue run with these content
    /// bounds (both inclusive).
    DialRun(int, int),
}

/// The exact effect of the line `t[a..b]` on the classifier. `nb` says
/// whether the next line is blank (a missing next line counts as blank).
#[verifier::opaque]
pub open spec fn classify_step(t: Seq<u8>, a: int, b: int, nb: bool, m: Mode) -> (
    Mode,
    Seq<SpanData>,
) {
    if line_blank(t, a, b) {
        match m {
            // a blank line indented by two spaces is a forced break inside
            // dialogue, not a separator
            Mode::DialRun(s, e) => if lead2(t, a, b) {
                (Mode::DialRun(s, e), Seq::empty())
            } else {
                (Mode::Blank, seq![mk_span(s, e, ElmType::Dialogue)])
            },
            Mode::DialIdle => if lead2(t, a, b) {
                (Mode::DialIdle, Seq::empty())
            } else {
                (Mode::Blank, Seq::empty())
            },
            _ => (Mode::Blank, Seq::empty()),
        }
    } else {
        let cs = first_content(t, a, b);
        let ce = last_content(t, a, b);
        match m {
            Mode::DialIdle => if paren_line(t, a, b) {
                (Mode::DialIdle, seq![mk_span(cs, ce, ElmType::Parenthetical)])
            } else {
                (Mode::DialRun(cs, ce), Seq::empty())
            },
            Mode::DialRun(s, e) => if paren_line(t, a, b) {
                (
                    Mode::DialIdle,
                    seq![mk_span(s, e, ElmType::Dialogue), mk_span(cs, ce, ElmType::Parenthetical)],
                )
            } else {
                (Mode::DialRun(s, ce), Seq::empty())
            },
            _ => if t[cs] == 46 {  // `.` forces a heading
                (Mode::Normal, seq![mk_span(cs, ce, ElmType::Heading)])
            } else if t[cs] == 33 {  // `!` forces action
                (Mode::Normal, seq![mk_span(cs, ce, ElmType::Action)])
            } else if t[cs] == 126 {  // `~` forces a lyric
                (Mode::Normal, seq![mk_span(cs, ce, ElmType::Lyric)])
            } else if t[cs] == 64 {  // `@` forces a character cue
                (Mode::DialIdle, seq![mk_span(cs, ce, ElmType::Character)])
            } else if t[cs] == 62 {  // `>`: centered if the line ends `<`
                if t[ce] == 60 {
                    (Mode::Normal, seq![mk_span(cs, ce, ElmType::Centered)])
                } else {
                    (Mode::Normal, seq![mk_span(cs, ce, ElmType::Transition)])
                }
            } else if page_break_line(t, a, b) {
                (Mode::Normal, seq![mk_span(cs, ce, ElmType::PageBreak)])
            } else if m is Blank {
                if nb {
                    if heading_prefix(t, cs, ce) {
                        (Mode::Normal, seq![mk_span(cs, ce, ElmType::Heading)])
                    } else if upper_line(t, a, b) && transition_suffix(t, cs, ce) {
                        (Mode::Normal, seq![mk_span(cs, ce, ElmType::Transition)])
                    } else {
                        (Mode::Normal, seq![mk_span(cs, ce, ElmType::Action)])
                    }
                } else if upper_line(t, a, b) {
                    (Mode::DialIdle, seq![mk_span(cs, ce, ElmType::Character)])
                } else {
                    (Mode::Normal, seq![mk_span(cs, ce, ElmType::Action)])
                }
            } else {
                (Mode::Normal, seq![mk_span(cs, ce, ElmType::Action)])
            },
        }
    }
}

/// The classifier's state and output after the first `k` lines.
pub open spec fn classify_upto(t: Seq<u8>, ls: Seq<(int, int)>, k: int) -> (Mode, Seq<SpanData>)
    decreases k,
{
    if k <= 0 {
        (Mode::Blank, Seq::empty())
    } else {
        let r = classify_upto(t, ls, k - 1);
        let nb = k >= ls.len() || line_blank(t, ls[k].0, ls[k].1);
        let st = classify_step(t, ls[k - 1].0, ls[k - 1].1, nb, r.0);
        (st.0, r.1 + st.1)
    }
}

/// A dialogue run still open at the end of the text becomes its element.
pub open spec fn classify_finish(m: Mode) -> Seq<SpanData> {
    match m {
        Mode::DialRun(s, e) => seq![mk_span(s, e, ElmType::Dialogue)],
        _ => Seq::empty(),
    }
}

/// All structural spans of the text, in line order.
pub open spec fn struct_spans(t: Seq<u8>) -> Seq<SpanData> {
    let ls = lines_of(t);
    let r = classify_upto(t, ls, ls.len() as int);
    r.1 + classify_finish(r.0)
}

pub open spec fn structural_kind(k: ElmType) -> bool {
    k == ElmType::Heading || k == ElmType::Action || k == ElmType::Character || k
        == ElmType::Parenthetical || k == ElmType::Dialogue || k == ElmType::Transition || k
        == ElmType::Centered || k == ElmType::Lyric || k == ElmType::PageBreak
}

/// What every structural span satisfies: it lies within the text, and both
/// of its boundaries abut whitespace or a text end (its content is trimmed),
/// so both lie on character boundaries of any valid encoding.
pub open spec fn struct_span_wf(t: Seq<u8>, sp: SpanData) -> bool {
    &&& 0 <= sp.start <= sp.end < t.len()
    &&& (sp.start == 0 || is_ws(t[sp.start - 1]))
    &&& (sp.end + 1 == t.len() || is_ws(t[sp.end + 1]))
    &&& !is_ws(t[sp.start])
    &&& !is_ws(t[sp.end])
    &&& structural_kind(sp.kind)
}

/// What the mode satisfies after `k` lines: a merged dialogue run has
/// trimmed, in-bounds boundaries and ended before the next unprocessed line.
pub open spec fn mode_wf(t: Seq<u8>, ls: Seq<(int, int)>, k: int, m: Mode) -> bool {
    match m {
        Mode::DialRun(s, e) => {
            &&& 0 <= s <= e < t.len()
            &&& (s == 0 || is_ws(t[s - 1]))
            &&& (e + 1 == t.len() || is_ws(t[e + 1]))
            &&& !is_ws(t[s])
            &&& !is_ws(t[e])
            &&& k > 0 && e < ls[k - 1].1
        },
        _ => true,
    }
}

/// The classifier's invariant holds after every prefix of the lines.
pub proof fn classify_upto_wf(t: Seq<u8>, k: int)
    requires
        0 <= k <= lines_of(t).len(),
    ensures
        mode_wf(t, lines_of(t), k, classify_upto(t, lines_of(t), k).0),
        forall|j: int|
            0 <= j < classify_upto(t, lines_of(t), k).1.len() ==> struct_span_wf(
                t,
                #[trigger] classify_upto(t, lines_of(t), k).1[j],
            ),
    decreases k,
{
    let ls = lines_of(t);
    lines_from_wf(t, 0);
    reveal(classify_step);
    if k > 0 {
        classify_upto_wf(t, k - 1);
        let a = ls[k - 1].0;
        let b = ls[k - 1].1;
        if !line_blank(t, a, b) {
            first_content_props(t, a, b);
            last_content_props(t, a, b);
        }
    }
}

/// Every span of `struct_spans` is a trimmed, in-bounds structural span.
pub proof fn struct_spans_wf(t: Seq<u8>)
    ensures
        forall|j: int|
            0 <= j < struct_spans(t).len() ==> struct_span_wf(t, #[trigger] struct_spans(t)[j]),
{
    let ls = lines_of(t);
    classify_upto_wf(t, ls.len() as int);
}


/// The classifier's state between lines, as held by the executable pass.
#[derive(Clone, Copy)]
pub enum LineMode {
    Blank,
    Normal,
    DialIdle,
    DialRun(usize, usize),
}

impl View for LineMode {
    type V = Mode;

    open spec fn view(&self) -> Mode {
        match self {
            LineMode::Blank => Mode::Blank,
            LineMode::Normal => Mode::Normal,
            LineMode::DialIdle => Mode::DialIdle,
            LineMode::DialRun(s, e) => Mode::DialRun(*s as int, *e as int),
        }
    }
}

pub open spec fn opt2_seq(x: Option<IntElement>, y: Option<IntElement>) -> Seq<SpanData> {
    match (x, y) {
        (None, None) => Seq::empty(),
        (Some(u), None) => seq![u@],
        (None, Some(v)) => seq![v@],
        (Some(u), Some(v)) => seq![u@, v@],
    }
}

/// Classifies one line: from the line's facts, the next line's blankness
/// and the mode, the new mode and the elements this line settles (at most
/// two: a finished dialogue run and the line's own element).
fn classify_line_exec(t: &[u8], st: &LineStatus, nb: bool, mode: LineMode) -> (r: (
    LineMode,
    Option<IntElement>,
    Option<IntElement>,
))
    requires
        st.start <= st.end <= t@.len(),
        line_status_wf(t@, st.start as int, st.end as int, *st),
    ensures
        r.0@ == classify_step(t@, st.start as int, st.end as int, nb, mode@).0,
        opt2_seq(r.1, r.2) == classify_step(t@, st.start as int, st.end as int, nb, mode@).1,
{
    let ghost a_s = st.start as int;
    let ghost b_s = st.end as int;
    proof {
        reveal(classify_step);
    }
    match st.content {
        None => {
            match mode {
                LineMode::DialRun(s, e) => {
                    if st.lead2 {
                        (LineMode::DialRun(s, e), None, None)
                    } else {
                        (LineMode::Blank, Some(IntElement::new(s, e, ElmType::Dialogue)), None)
                    }
                },
                LineMode::DialIdle => {
                    if st.lead2 {
                        (LineMode::DialIdle, None, None)
                    } else {
                        (LineMode::Blank, None, None)
                    }
                },
                _ => (LineMode::Blank, None, None),
            }
        },
        Some((cs, ce)) => {
            proof {
                first_content_props(t@, a_s, b_s);
                last_content_props(t@, a_s, b_s);
            }
            match mode {
                LineMode::DialIdle => {
                    if line_is_parenthetical(t, cs, ce) {
                        (
                            LineMode::DialIdle,
                            Some(IntElement::new(cs, ce, ElmType::Parenthetical)),
                            None,
                        )
                    } else {
                        (LineMode::DialRun(cs, ce), None, None)
                    }
                },
                LineMode::DialRun(s, e) => {
                    if line_is_parenthetical(t, cs, ce) {
                        (
                            LineMode::DialIdle,
                            Some(IntElement::new(s, e, ElmType::Dialogue)),
                            Some(IntElement::new(cs, ce, ElmType::Parenthetical)),
                        )
                    } else {
                        (LineMode::DialRun(s, ce), None, None)
                    }
                },
                _ => {
                    let c0 = t[cs];
                    if c0 == 46 {
                        (LineMode::Normal, Some(IntElement::new(cs, ce, ElmType::Heading)), None)
                    } else if c0 == 33 {
                        (LineMode::Normal, Some(IntElement::new(cs, ce, ElmType::Action)), None)
                    } else if c0 == 126 {
                        (LineMode::Normal, Some(IntElement::new(cs, ce, ElmType::Lyric)), None)
                    } else if c0 == 64 {
                        (
                            LineMode::DialIdle,
                            Some(IntElement::new(cs, ce, ElmType::Character)),
                            None,
                        )
                    } else if c0 == 62 {
                        if t[ce] == 60 {
                            (
                                LineMode::Normal,
                                Some(IntElement::new(cs, ce, ElmType::Centered)),
                                None,
                            )
                        } else {
                            (
                                LineMode::Normal,
                                Some(IntElement::new(cs, ce, ElmType::Transition)),
                                None,
                            )
                        }
                    } else if line_is_page_break(t, st.start, ce) {
                        (LineMode::Normal, Some(IntElement::new(cs, ce, ElmType::PageBreak)), None)
                    } else {
                        let at_blank = matches!(mode, LineMode::Blank);
                        if at_blank {
                            if nb {
                                if line_is_heading(t, cs, ce) {
                                    (
                                        LineMode::Normal,
                                        Some(IntElement::new(cs, ce, ElmType::Heading)),
                                        None,
                                    )
                                } else if st.uppercase && line_is_transition(t, cs, ce) {
                                    (
                                        LineMode::Normal,
                                        Some(IntElement::new(cs, ce, ElmType::Transition)),
                                        None,
                                    )
                                } else {
                                    (
                                        LineMode::Normal,
                                        Some(IntElement::new(cs, ce, ElmType::Action)),
                                        None,
                                    )
                                }
                            } else if st.uppercase {
                                (
                                    LineMode::DialIdle,
                                    Some(IntElement::new(cs, ce, ElmType::Character)),
                                    None,
                                )
                            } else {
                                (
                                    LineMode::Normal,
                                    Some(IntElement::new(cs, ce, ElmType::Action)),
                                    None,
                                )
                            }
                        } else {
                            (
                                LineMode::Normal,
                                Some(IntElement::new(cs, ce, ElmType::Action)),
                                None,
                            )
                        }
                    }
                },
            }
        },
    }
}

/// Collects the per-line facts for every line.
fn build_stats(t: &[u8], lines: &Vec<(usize, usize)>) -> (r: Vec<LineStatus>)
    requires
        lines@.len() == lines_of(t@).len(),
        forall|j: int|
            0 <= j < lines@.len() ==> (#[trigger] lines@[j]).0 as int == lines_of(t@)[j].0
                && lines@[j].1 as int == lines_of(t@)[j].1,
    ensures
        r@.len() == lines_of(t@).len(),
        forall|j: int|
            0 <= j < r@.len() ==> line_status_wf(
                t@,
                lines_of(t@)[j].0,
                lines_of(t@)[j].1,
                #[trigger] r@[j],
            ),
{
    let ghost ls = lines_of(t@);
    proof {
        lines_from_wf(t@, 0);
    }
    let nl = lines.len();
    let mut stats: Vec<LineStatus> = Vec::new();
    let mut k: usize = 0;
    while k < nl
        invariant
            stats@.len() == k <= nl,
            forall|j: int|
                0 <= j < k ==> line_status_wf(t@, ls[j].0, ls[j].1, #[trigger] stats@[j]),
        decreases nl - k,
    {
        let a = lines[k].0;
        let b = lines[k].1;
        stats.push(LineStatus::new(t, a, b));
        k = k + 1;
    }
    stats
}

/// The line classification pass: assigns every line of the text its
/// structural role. `lines` must be the text's line list as `split_lines`
/// returns it.
pub fn parse_lines(t: &[u8], lines: &Vec<(usize, usize)>) -> (r: Vec<IntElement>)
    requires
        lines@.len() == lines_of(t@).len(),
        forall|j: int|
            0 <= j < lines@.len() ==> (#[trigger] lines@[j]).0 as int == lines_of(t@)[j].0
                && lines@[j].1 as int == lines_of(t@)[j].1,
    ensures
        view_seq(r@) == struct_spans(t@),
{
    broadcast use crate::scan::view_seq_push;

    let ghost ls = lines_of(t@);
    proof {
        lines_from_wf(t@, 0);
    }
    let stats = build_stats(t, lines);
    let nl = stats.len();
    let mut out: Vec<IntElement> = Vec::new();
    let mut mode = LineMode::Blank;
    let mut k: usize = 0;
    proof {
        assert(view_seq(out@) =~= Seq::<SpanData>::empty());
    }
    while k < nl
        invariant
            k <= nl,
            mode@ == classify_upto(t@, ls, k as int).0,
            view_seq(out@) == classify_upto(t@, ls, k as int).1,
        decreases nl - k,
    {
        let ghost pre_mode = mode@;
        let ghost pre_out = view_seq(out@);
        let nb = if k + 1 < nl {
            stats[k + 1].content.is_none()
        } else {
            true
        };
        let ghost nb_s = k as int + 1 >= ls.len() || line_blank(
            t@,
            ls[k as int + 1].0,
            ls[k as int + 1].1,
        );
        proof {
            assert(nb == nb_s);
        }
        let st = &stats[k];
        let stepped = classify_line_exec(t, st, nb, mode);
        mode = stepped.0;
        if let Some(e) = stepped.1 {
            out.push(e);
        }
        if let Some(e) = stepped.2 {
            out.push(e);
        }
        proof {
            assert(view_seq(out@) =~= pre_out + classify_step(
                t@,
                ls[k as int].0,
                ls[k as int].1,
                nb_s,
                pre_mode,
            ).1);
        }
        k = k + 1;
    }
    match mode {
        LineMode::DialRun(s, e) => {
            out.push(IntElement::new(s, e, ElmType::Dialogue));
        },
        _ => {},
    }
    proof {
        assert(view_seq(out@) =~= struct_spans(t@));
    }
    out
}


} // verus!
