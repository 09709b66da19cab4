//! The inline scanner: a single forward pass over the bytes of the text
//! that finds inline markup spans. Boneyard comments (`/*`...`*/`) and notes
//! (`[[`...`]]`) may cross lines; underline (`_`...`_`) and the three
//! emphasis levels (runs of one to three `*`) close within the line that
//! opened them, and any state they left open is discarded at each line feed.
//!
//! The scanner is specified as a state machine: `scan_step` gives the exact
//! effect of one byte, `scan_upto` folds it over a prefix, and the executable
//! pass `parse_chars` is proved to produce exactly the folded result.
use vstd::prelude::*;

use crate::bytes::{is_punct, is_ws, punct_byte, ws_byte};
use crate::lines::no_nl;
use crate::markup::ElmType;
use crate::spans::{IntElement, SpanData};

verus! {

/// The scanner's whole auxiliary state: for each inline construct the
/// offset where its open instance started (if any), the current run of `*`
/// bytes, and what the previous byte was.
pub ghost struct ScanState {
    /// Open boneyard: offset of its `/`.
    pub bone: Option<int>,
    /// Open note: offset of its first `[`.
    pub note: Option<int>,
    /// Open underline: offset of its opening `_`.
    pub undl: Option<int>,
    /// The previous byte was a `_` able to close the open underline.
    pub undl_before: bool,
    /// Open italic opener: offset of its `*`.
    pub em1: Option<int>,
    /// Open bold opener: offset of its first `*`.
    pub em2: Option<int>,
    /// Open bold-italic opener: offset of its first `*`.
    pub em3: Option<int>,
    /// Start of the run of `*` bytes ending at the current position.
    pub run: Option<int>,
    /// Length of that run (0 when there is none).
    pub run_len: int,
    /// The run was preceded by whitespace or the line start.
    pub run_opened: bool,
    /// The previous byte was the final byte of a boneyard or note
    /// delimiter just recognized, and is spent: it can serve in no further
    /// delimiter pair.
    pub delim: bool,
    /// The previous byte (a line feed at the start of the text).
    pub prev: u8,
    /// The previous byte was whitespace (true at the start of the text).
    pub ws_before: bool,
}

pub open spec fn mk_span(start: int, end: int, kind: ElmType) -> SpanData {
    SpanData { start, end, kind }
}

pub open spec fn scan_init() -> ScanState {
    ScanState {
        bone: None,
        note: None,
        undl: None,
        undl_before: false,
        em1: None,
        em2: None,
        em3: None,
        run: None,
        run_len: 0,
        run_opened: false,
        delim: false,
        prev: 10,
        ws_before: true,
    }
}

/// Closes the open emphasis span whose level best matches a closing run of
/// length `ll` ending at `rs + ll - 1`: the highest open level not above
/// `ll`, exactly one span per closing run.
pub open spec fn close_emphasis(rs: int, ll: int, s0: ScanState, s: ScanState) -> (
    ScanState,
    Option<SpanData>,
) {
    if ll == 3 && s.em3 is Some {
        match s.em3 {
            Some(e) => (
                ScanState { em3: None, ..s0 },
                Some(mk_span(e, rs + ll - 1, ElmType::BoldItalic)),
            ),
            None => (s0, None),
        }
    } else if ll >= 2 && s.em2 is Some {
        match s.em2 {
            Some(e) => (ScanState { em2: None, ..s0 }, Some(mk_span(e, rs + ll - 1, ElmType::Bold))),
            None => (s0, None),
        }
    } else if s.em1 is Some {
        match s.em1 {
            Some(e) => (
                ScanState { em1: None, ..s0 },
                Some(mk_span(e, rs + ll - 1, ElmType::Italic)),
            ),
            None => (s0, None),
        }
    } else {
        (s0, None)
    }
}

/// Records an opening run of length `ll` starting at `rs` as the opener of
/// its level, unless that level is already open (the earliest opener wins).
pub open spec fn open_emphasis(rs: int, ll: int, s0: ScanState) -> ScanState {
    if ll == 1 {
        if s0.em1 is None {
            ScanState { em1: Some(rs), ..s0 }
        } else {
            s0
        }
    } else if ll == 2 {
        if s0.em2 is None {
            ScanState { em2: Some(rs), ..s0 }
        } else {
            s0
        }
    } else {
        if s0.em3 is None {
            ScanState { em3: Some(rs), ..s0 }
        } else {
            s0
        }
    }
}

/// The effect of the byte `b` ending a run of `*` bytes. A maximal run of
/// one to three stars preceded by whitespace and followed by a non-
/// whitespace byte opens its level; one preceded by non-whitespace and
/// followed by whitespace or punctuation closes the best open level. Longer
/// runs are plain text.
pub open spec fn run_end_state(b: u8, s: ScanState) -> (ScanState, Option<SpanData>) {
    let s0 = ScanState { run: None, run_len: 0, run_opened: false, ..s };
    match s.run {
        None => (s0, None),
        Some(rs) => {
            let ll = s.run_len;
            if 1 <= ll && ll <= 3 {
                if s.run_opened && !is_ws(b) {
                    (open_emphasis(rs, ll, s0), None)
                } else if !s.run_opened && (is_ws(b) || is_punct(b)) {
                    close_emphasis(rs, ll, s0, s)
                } else {
                    (s0, None)
                }
            } else {
                (s0, None)
            }
        },
    }
}

/// The effect of one ordinary byte: no boneyard or note is open and the
/// byte opens neither.
pub open spec fn normal_step(i: int, b: u8, s: ScanState) -> (ScanState, Option<SpanData>) {
    let ra = if b != 42 && s.run is Some {
        run_end_state(b, s)
    } else {
        (s, None)
    };
    let sa = ra.0;
    let em_a = ra.1;
    let rb = if sa.undl_before && (is_ws(b) || is_punct(b)) && sa.undl is Some {
        match sa.undl {
            Some(u) => (
                ScanState { undl: None, ..sa },
                Some(mk_span(u, i - 1, ElmType::Underline)),
            ),
            None => (sa, None),
        }
    } else {
        (sa, None)
    };
    let sb = rb.0;
    let em_b = rb.1;
    let sc = if b == 42 {
        match sb.run {
            Some(_) => ScanState { run_len: sb.run_len + 1, ..sb },
            None => ScanState { run: Some(i), run_len: 1, run_opened: sb.ws_before, ..sb },
        }
    } else {
        sb
    };
    let sd = if b == 95 {
        if sc.undl is None && sc.ws_before {
            ScanState { undl: Some(i), undl_before: false, ..sc }
        } else {
            ScanState { undl_before: true, ..sc }
        }
    } else {
        ScanState { undl_before: false, ..sc }
    };
    (sd, if em_a is Some {
        em_a
    } else {
        em_b
    })
}

/// The exact effect of the byte `b` at offset `i` on the scanner. While a
/// boneyard is open only `*/` is recognized; while a note is open only
/// `]]`; a note never opens inside a boneyard nor a boneyard inside a note.
/// A byte that completes a delimiter is spent: the `*` that opened a
/// boneyard cannot serve as the `*` of its closer, and the `/` that closed
/// one cannot serve as the `/` of the next opener, so boneyard spans never
/// share a byte. A line feed discards all open underline and emphasis
/// state, never an open boneyard or note.
pub open spec fn scan_step(i: int, b: u8, s: ScanState) -> (ScanState, Option<SpanData>) {
    let r1 = match s.bone {
        Some(bs) => if s.prev == 42 && b == 47 && !s.delim {
            (ScanState { bone: None, ..s }, Some(mk_span(bs, i, ElmType::Boneyard)))
        } else {
            (s, None)
        },
        None => match s.note {
            Some(ns) => if s.prev == 93 && b == 93 {
                (ScanState { note: None, ..s }, Some(mk_span(ns, i, ElmType::Note)))
            } else {
                (s, None)
            },
            None => if b == 42 && s.prev == 47 && !s.delim {
                (
                    ScanState {
                        bone: Some(i - 1),
                        run: None,
                        run_len: 0,
                        run_opened: false,
                        ..s
                    },
                    None,
                )
            } else if b == 91 && s.prev == 91 && !s.delim {
                (ScanState { note: Some(i - 1), ..s }, None)
            } else {
                normal_step(i, b, s)
            },
        },
    };
    let dlm = match s.bone {
        Some(bs) => s.prev == 42 && b == 47 && !s.delim,
        None => match s.note {
            Some(ns) => s.prev == 93 && b == 93,
            None => (b == 42 && s.prev == 47 && !s.delim) || (b == 91 && s.prev == 91
                && !s.delim),
        },
    };
    let s1 = r1.0;
    let em = r1.1;
    let s2 = if b == 10 {
        ScanState {
            undl: None,
            undl_before: false,
            em1: None,
            em2: None,
            em3: None,
            run: None,
            run_len: 0,
            run_opened: false,
            ..s1
        }
    } else {
        s1
    };
    (ScanState { delim: dlm, prev: b, ws_before: is_ws(b), ..s2 }, em)
}

pub open spec fn opt_seq(em: Option<SpanData>) -> Seq<SpanData> {
    match em {
        Some(sp) => seq![sp],
        None => Seq::empty(),
    }
}

/// The scanner's state and output after the first `n` bytes of the text.
pub open spec fn scan_upto(t: Seq<u8>, n: int) -> (ScanState, Seq<SpanData>)
    decreases n,
{
    if n <= 0 {
        (scan_init(), Seq::empty())
    } else {
        let r = scan_upto(t, n - 1);
        let st = scan_step(n - 1, t[n - 1], r.0);
        (st.0, r.1 + opt_seq(st.1))
    }
}

/// At the end of the text a pending closing run of stars still closes its
/// level (the text end counts as whitespace); everything else left open is
/// discarded and produces no span.
pub open spec fn scan_eof(s: ScanState) -> Option<SpanData> {
    if s.run is Some {
        run_end_state(32, s).1
    } else {
        None
    }
}

/// All inline markup spans of the text, in the order they close.
pub open spec fn inline_spans(t: Seq<u8>) -> Seq<SpanData> {
    let r = scan_upto(t, t.len() as int);
    r.1 + opt_seq(scan_eof(r.0))
}

pub open spec fn inline_kind(k: ElmType) -> bool {
    k == ElmType::Boneyard || k == ElmType::Note || k == ElmType::Underline || k == ElmType::Italic
        || k == ElmType::Bold || k == ElmType::BoldItalic
}

/// The kinds whose spans never cross a line feed.
pub open spec fn line_bound_kind(k: ElmType) -> bool {
    k == ElmType::Underline || k == ElmType::Italic || k == ElmType::Bold || k
        == ElmType::BoldItalic
}

/// What every emitted inline span satisfies once the first `n` bytes are
/// scanned: it lies within the scanned prefix, both its boundary bytes are
/// ASCII (they are marker bytes), and line-bound kinds hold no line feed.
pub open spec fn inline_span_wf(t: Seq<u8>, n: int, sp: SpanData) -> bool {
    &&& 0 <= sp.start < sp.end < n
    &&& t[sp.start] < 128
    &&& t[sp.end] < 128
    &&& inline_kind(sp.kind)
    &&& (line_bound_kind(sp.kind) ==> no_nl(t, sp.start, sp.end + 1))
}

/// The scanner's invariant, tying its state after `n` bytes to the text.
pub open spec fn scan_wf(t: Seq<u8>, n: int, s: ScanState, out: Seq<SpanData>) -> bool {
    &&& (n == 0 ==> s == scan_init())
    &&& (n > 0 ==> s.prev == t[n - 1] && s.ws_before == is_ws(t[n - 1]))
    &&& match s.bone {
        Some(p) => 0 <= p && p + 2 <= n && t[p] == 47,
        None => true,
    }
    &&& match s.note {
        Some(p) => 0 <= p && p + 2 <= n && t[p] == 91,
        None => true,
    }
    &&& match s.undl {
        Some(p) => 0 <= p < n && t[p] == 95 && no_nl(t, p, n),
        None => true,
    }
    &&& (s.undl_before ==> n > 0 && t[n - 1] == 95 && match s.undl {
        Some(p) => p < n - 1,
        None => true,
    })
    &&& match s.em1 {
        Some(p) => 0 <= p < n && t[p] == 42 && no_nl(t, p, n) && match s.run {
            Some(rs) => p < rs,
            None => true,
        },
        None => true,
    }
    &&& match s.em2 {
        Some(p) => 0 <= p < n && t[p] == 42 && no_nl(t, p, n) && match s.run {
            Some(rs) => p < rs,
            None => true,
        },
        None => true,
    }
    &&& match s.em3 {
        Some(p) => 0 <= p < n && t[p] == 42 && no_nl(t, p, n) && match s.run {
            Some(rs) => p < rs,
            None => true,
        },
        None => true,
    }
    &&& match s.run {
        Some(rs) => 0 <= rs < n && s.run_len == n - rs && (forall|k: int|
            rs <= k < n ==> t[k] == 42),
        None => s.run_len == 0 && s.run_opened == false,
    }
    &&& (s.bone is Some || s.note is Some ==> s.run is None && !s.undl_before)
    &&& forall|j: int| 0 <= j < out.len() ==> inline_span_wf(t, n, #[trigger] out[j])
}

/// The scanner's invariant holds after every prefix.
pub proof fn scan_upto_wf(t: Seq<u8>, n: int)
    requires
        0 <= n <= t.len(),
    ensures
        scan_wf(t, n, scan_upto(t, n).0, scan_upto(t, n).1),
    decreases n,
{
    if n > 0 {
        scan_upto_wf(t, n - 1);
    }
}

/// Every span of `inline_spans` is an inline span of the text: within
/// bounds, ASCII bytes at both ends, and, for underline and emphasis, free
/// of line feeds.
pub proof fn inline_spans_wf(t: Seq<u8>)
    ensures
        forall|j: int|
            0 <= j < inline_spans(t).len() ==> inline_span_wf(
                t,
                t.len() as int,
                #[trigger] inline_spans(t)[j],
            ),
{
    scan_upto_wf(t, t.len() as int);
}


/// The scanner's auxiliary state, as held by the executable pass. One
/// exclusively-owned record threaded through the scan; its view is the
/// specification state.
pub struct CharStatus {
    pub bnyd_start: Option<usize>,
    pub note_start: Option<usize>,
    pub undl_start: Option<usize>,
    pub undl_before: bool,
    pub ital_start: Option<usize>,
    pub bold_start: Option<usize>,
    pub boit_start: Option<usize>,
    pub run_start: Option<usize>,
    pub run_len: usize,
    pub run_opened: bool,
    pub delim_before: bool,
    pub prev: u8,
    pub whspc_before: bool,
}

pub open spec fn opt_int(o: Option<usize>) -> Option<int> {
    match o {
        Some(p) => Some(p as int),
        None => None,
    }
}

impl View for CharStatus {
    type V = ScanState;

    open spec fn view(&self) -> ScanState {
        ScanState {
            bone: opt_int(self.bnyd_start),
            note: opt_int(self.note_start),
            undl: opt_int(self.undl_start),
            undl_before: self.undl_before,
            em1: opt_int(self.ital_start),
            em2: opt_int(self.bold_start),
            em3: opt_int(self.boit_start),
            run: opt_int(self.run_start),
            run_len: self.run_len as int,
            run_opened: self.run_opened,
            delim: self.delim_before,
            prev: self.prev,
            ws_before: self.whspc_before,
        }
    }
}

impl CharStatus {
    pub fn new() -> (r: CharStatus)
        ensures
            r@ == scan_init(),
    {
        CharStatus {
            bnyd_start: None,
            note_start: None,
            undl_start: None,
            undl_before: false,
            ital_start: None,
            bold_start: None,
            boit_start: None,
            run_start: None,
            run_len: 0,
            run_opened: false,
            delim_before: false,
            prev: 10,
            whspc_before: true,
        }
    }

    /// Discards all open underline, emphasis and star-run state, as a line
    /// feed demands; open boneyard and note state is kept.
    pub fn newline_reset(&mut self)
        ensures
            final(self)@ == (ScanState {
                undl: None,
                undl_before: false,
                em1: None,
                em2: None,
                em3: None,
                run: None,
                run_len: 0,
                run_opened: false,
                prev: 10,
                ws_before: true,
                ..old(self)@
            }),
    {
        self.undl_start = None;
        self.undl_before = false;
        self.ital_start = None;
        self.bold_start = None;
        self.boit_start = None;
        self.run_start = None;
        self.run_len = 0;
        self.run_opened = false;
        self.prev = 10;
        self.whspc_before = true;
    }
}

/// Maps a sequence of held spans to their models.
pub open spec fn view_seq(v: Seq<IntElement>) -> Seq<SpanData> {
    v.map_values(|e: IntElement| e@)
}

pub broadcast proof fn view_seq_push(v: Seq<IntElement>, e: IntElement)
    ensures
        #[trigger] view_seq(v.push(e)) == view_seq(v).push(e@),
{
    assert(view_seq(v.push(e)) =~= view_seq(v).push(e@));
}

/// Ends the current star run with follower byte `b`, recording an opener or
/// emitting the span of the best-matching closer.
fn run_end_exec(cstat: &mut CharStatus, i: usize, b: u8) -> (r: Option<IntElement>)
    requires
        old(cstat).run_start is Some,
        match old(cstat)@.run {
            Some(rs) => 0 <= rs < i && old(cstat)@.run_len == i - rs,
            None => false,
        },
    ensures
        final(cstat)@ == run_end_state(b, old(cstat)@).0,
        opt_int_elem(r) == run_end_state(b, old(cstat)@).1,
{
    let ghost s = old(cstat)@;
    let rs = cstat.run_start.unwrap();
    let ll = cstat.run_len;
    let opened = cstat.run_opened;
    cstat.run_start = None;
    cstat.run_len = 0;
    cstat.run_opened = false;
    let mut r: Option<IntElement> = None;
    if 1 <= ll && ll <= 3 {
        if opened && !ws_byte(b) {
            if ll == 1 {
                if cstat.ital_start.is_none() {
                    cstat.ital_start = Some(rs);
                }
            } else if ll == 2 {
                if cstat.bold_start.is_none() {
                    cstat.bold_start = Some(rs);
                }
            } else {
                if cstat.boit_start.is_none() {
                    cstat.boit_start = Some(rs);
                }
            }
        } else if !opened && (ws_byte(b) || punct_byte(b)) {
            if ll == 3 && cstat.boit_start.is_some() {
                let e = cstat.boit_start.unwrap();
                cstat.boit_start = None;
                r = Some(IntElement::boit(e, i - 1));
            } else if ll >= 2 && cstat.bold_start.is_some() {
                let e = cstat.bold_start.unwrap();
                cstat.bold_start = None;
                r = Some(IntElement::bold(e, i - 1));
            } else if cstat.ital_start.is_some() {
                let e = cstat.ital_start.unwrap();
                cstat.ital_start = None;
                r = Some(IntElement::ital(e, i - 1));
            }
        }
    }
    r
}

pub open spec fn opt_int_elem(r: Option<IntElement>) -> Option<SpanData> {
    match r {
        Some(e) => Some(e@),
        None => None,
    }
}

/// The inline scanning pass: finds every inline markup span of the text.
#[verifier::rlimit(100)]
pub fn parse_chars(t: &[u8]) -> (r: Vec<IntElement>)
    ensures
        view_seq(r@) == inline_spans(t@),
{
    broadcast use view_seq_push;

    let n = t.len();
    let mut cstat = CharStatus::new();
    let mut out: Vec<IntElement> = Vec::new();
    let mut i: usize = 0;
    proof {
        assert(view_seq(out@) =~= Seq::<SpanData>::empty());
    }
    while i < n
        invariant
            i <= n == t@.len(),
            cstat@ == scan_upto(t@, i as int).0,
            view_seq(out@) == scan_upto(t@, i as int).1,
        decreases n - i,
    {
        proof {
            scan_upto_wf(t@, i as int);
        }
        let ghost pre = cstat@;
        let ghost pre_out = view_seq(out@);
        let b = t[i];
        let mut em: Option<IntElement> = None;
        let mut fired = false;
        if cstat.bnyd_start.is_some() {
            if cstat.prev == 42 && b == 47 && !cstat.delim_before {
                let bs = cstat.bnyd_start.unwrap();
                em = Some(IntElement::bnyd(bs, i));
                cstat.bnyd_start = None;
                fired = true;
            }
        } else if cstat.note_start.is_some() {
            if cstat.prev == 93 && b == 93 {
                let ns = cstat.note_start.unwrap();
                em = Some(IntElement::note(ns, i));
                cstat.note_start = None;
                fired = true;
            }
        } else if b == 42 && cstat.prev == 47 && !cstat.delim_before {
            cstat.bnyd_start = Some(i - 1);
            cstat.run_start = None;
            cstat.run_len = 0;
            cstat.run_opened = false;
            fired = true;
        } else if b == 91 && cstat.prev == 91 && !cstat.delim_before {
            cstat.note_start = Some(i - 1);
            fired = true;
        } else {
            if b != 42 && cstat.run_start.is_some() {
                em = run_end_exec(&mut cstat, i, b);
            }
            if cstat.undl_before && (ws_byte(b) || punct_byte(b)) && cstat.undl_start.is_some() {
                let u = cstat.undl_start.unwrap();
                em = Some(IntElement::undl(u, i - 1));
                cstat.undl_start = None;
            }
            if b == 42 {
                if cstat.run_start.is_some() {
                    cstat.run_len = cstat.run_len + 1;
                } else {
                    cstat.run_start = Some(i);
                    cstat.run_len = 1;
                    cstat.run_opened = cstat.whspc_before;
                }
            }
            if b == 95 {
                if cstat.undl_start.is_none() && cstat.whspc_before {
                    cstat.undl_start = Some(i);
                    cstat.undl_before = false;
                } else {
                    cstat.undl_before = true;
                }
            } else {
                cstat.undl_before = false;
            }
        }
        if b == 10 {
            cstat.newline_reset();
        }
        cstat.delim_before = fired;
        cstat.prev = b;
        cstat.whspc_before = ws_byte(b);
        if let Some(e) = em {
            out.push(e);
        }
        proof {
            assert(cstat@ == scan_step(i as int, b, pre).0);
            assert(opt_int_elem(em) == scan_step(i as int, b, pre).1);
            assert(view_seq(out@) =~= pre_out + opt_seq(scan_step(i as int, b, pre).1));
        }
        i = i + 1;
    }
    proof {
        scan_upto_wf(t@, n as int);
    }
    if cstat.run_start.is_some() && !cstat.run_opened && 1 <= cstat.run_len && cstat.run_len <= 3 {
        let ghost s_end = cstat@;
        let em = run_end_exec(&mut cstat, n, 32);
        if let Some(e) = em {
            out.push(e);
        }
        proof {
            assert(opt_int_elem(em) == scan_eof(s_end));
            assert(view_seq(out@) =~= scan_upto(t@, n as int).1 + opt_seq(scan_eof(s_end)));
        }
    } else {
        proof {
            assert(opt_seq(scan_eof(cstat@)) =~= Seq::<SpanData>::empty());
            assert(view_seq(out@) =~= scan_upto(t@, n as int).1 + opt_seq(scan_eof(cstat@)));
        }
    }
    out
}


/// A line feed never closes or discards an open boneyard or note: their
/// state survives every line break, and only `*/` or `]]` closes them. So
/// their spans may cross lines, which no other inline kind's can.
pub proof fn newline_keeps_comments_open(i: int, s: ScanState)
    ensures
        scan_step(i, 10, s).0.bone == s.bone,
        scan_step(i, 10, s).0.note == s.note,
{
}

/// No two spans of the same kind share a byte: the earlier-closed span
/// ends before the later one starts.
pub open spec fn same_kind_disjoint(out: Seq<SpanData>) -> bool {
    forall|i: int, j: int|
        0 <= i < j < out.len() && (#[trigger] out[i]).kind == (#[trigger] out[j]).kind ==> out[i].end
            < out[j].start
}

/// The frontier invariant behind span disjointness: every emitted span of
/// a kind ends before that kind's currently open marker; a boneyard or
/// note span ending at the previous byte is recorded in `delim`; and an
/// emphasis span is always followed by a byte that is not a star (its
/// closing run was maximal), so no emitted emphasis span reaches into the
/// current star run.
pub open spec fn scan_disj(t: Seq<u8>, n: int, s: ScanState, out: Seq<SpanData>) -> bool {
    &&& match s.bone {
        Some(p) => forall|j: int|
            0 <= j < out.len() && (#[trigger] out[j]).kind == ElmType::Boneyard ==> out[j].end < p,
        None => true,
    }
    &&& match s.note {
        Some(p) => forall|j: int|
            0 <= j < out.len() && (#[trigger] out[j]).kind == ElmType::Note ==> out[j].end < p,
        None => true,
    }
    &&& match s.undl {
        Some(p) => forall|j: int|
            0 <= j < out.len() && (#[trigger] out[j]).kind == ElmType::Underline ==> out[j].end
                < p,
        None => true,
    }
    &&& match s.em1 {
        Some(p) => forall|j: int|
            0 <= j < out.len() && (#[trigger] out[j]).kind == ElmType::Italic ==> out[j].end < p,
        None => true,
    }
    &&& match s.em2 {
        Some(p) => forall|j: int|
            0 <= j < out.len() && (#[trigger] out[j]).kind == ElmType::Bold ==> out[j].end < p,
        None => true,
    }
    &&& match s.em3 {
        Some(p) => forall|j: int|
            0 <= j < out.len() && (#[trigger] out[j]).kind == ElmType::BoldItalic ==> out[j].end
                < p,
        None => true,
    }
    &&& forall|j: int|
        0 <= j < out.len() && ((#[trigger] out[j]).kind == ElmType::Boneyard || out[j].kind
            == ElmType::Note) && out[j].end == n - 1 ==> s.delim
    &&& forall|j: int|
        0 <= j < out.len() && ((#[trigger] out[j]).kind == ElmType::Italic || out[j].kind
            == ElmType::Bold || out[j].kind == ElmType::BoldItalic) ==> out[j].end + 1 < n
            && t[out[j].end + 1] != 42
    &&& same_kind_disjoint(out)
}

/// The disjointness invariant holds after every prefix.
pub proof fn scan_upto_disj(t: Seq<u8>, n: int)
    requires
        0 <= n <= t.len(),
    ensures
        scan_disj(t, n, scan_upto(t, n).0, scan_upto(t, n).1),
    decreases n,
{
    if n > 0 {
        scan_upto_disj(t, n - 1);
        scan_upto_wf(t, n - 1);
    }
}

/// No two inline spans of the same kind overlap.
pub proof fn inline_spans_same_kind_disjoint(t: Seq<u8>)
    ensures
        same_kind_disjoint(inline_spans(t)),
{
    let n = t.len() as int;
    scan_upto_disj(t, n);
    scan_upto_wf(t, n);
    let s = scan_upto(t, n).0;
    let out = scan_upto(t, n).1;
    assert(inline_spans(t) == out + opt_seq(scan_eof(s)));
    match scan_eof(s) {
        Some(sp) => {
            assert(same_kind_disjoint(out.push(sp)));
            assert(inline_spans(t) =~= out.push(sp));
        },
        None => {
            assert(inline_spans(t) =~= out);
        },
    }
}

} // verus!
