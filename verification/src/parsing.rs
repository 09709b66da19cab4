//! The whole engine: one call that runs the inline scanner and the line
//! classifier over the same text and merges their spans into the reported
//! order. `parse_spans` is the exact mathematical statement of the result;
//! the laws beneath it state what every result satisfies: spans lie within
//! the text on character boundaries, they come sorted, underline and
//! emphasis spans never cross a line feed, and the result is a pure
//! function of the text.
use vstd::prelude::*;
use vstd::string::StringSliceAdditionalSpecFns;
use vstd::utf8::{
    is_char_boundary, is_char_boundary_iff_not_is_continuation_byte,
    is_char_boundary_start_end_of_seq, is_continuation_byte, length_of_first_scalar,
    pop_first_scalar, valid_utf8,
};

use crate::classify::{struct_span_wf, struct_spans, struct_spans_wf};
use crate::lines::{no_nl, split_lines};
use crate::order::{sort_elems, sort_spans, sort_spans_contains, sort_spans_props, spans_sorted};
use crate::scan::{inline_span_wf, inline_spans, inline_spans_wf, line_bound_kind, view_seq};
use crate::spans::{span_le, IntElement, SpanData};

verus! {

/// Every span the engine reports for the text `t`, in the reported order:
/// the structural spans and the inline spans, sorted.
pub open spec fn parse_spans(t: Seq<u8>) -> Seq<SpanData> {
    sort_spans(struct_spans(t) + inline_spans(t))
}

/// What every reported span satisfies: it is either a structural span
/// (trimmed line content, whitespace or a text end on both sides) or an
/// inline span (ASCII marker bytes at both ends, no line feed inside the
/// line-bound kinds).
pub open spec fn span_wf(t: Seq<u8>, sp: SpanData) -> bool {
    struct_span_wf(t, sp) || inline_span_wf(t, t.len() as int, sp)
}

/// Every reported span is well-formed, and the report is sorted.
pub proof fn parse_spans_wf(t: Seq<u8>)
    ensures
        forall|j: int| 0 <= j < parse_spans(t).len() ==> span_wf(t, #[trigger] parse_spans(t)[j]),
        spans_sorted(parse_spans(t)),
        parse_spans(t).len() == struct_spans(t).len() + inline_spans(t).len(),
{
    struct_spans_wf(t);
    inline_spans_wf(t);
    let all = struct_spans(t) + inline_spans(t);
    sort_spans_props(all);
    assert forall|j: int| 0 <= j < parse_spans(t).len() implies span_wf(
        t,
        #[trigger] parse_spans(t)[j],
    ) by {
        let sp = parse_spans(t)[j];
        assert(parse_spans(t).contains(sp));
        sort_spans_contains(all, sp);
        let w = choose|w: int| 0 <= w < all.len() && all[w] == sp;
        if w < struct_spans(t).len() {
            assert(sp == struct_spans(t)[w]);
        } else {
            assert(sp == inline_spans(t)[w - struct_spans(t).len()]);
        }
    }
}

/// In a valid UTF-8 encoding, a continuation byte follows a non-ASCII
/// byte: the other bytes of its codepoint are a leading byte of width two
/// or more, or further continuation bytes, all at least `0x80`.
proof fn continuation_after_nonascii(t: Seq<u8>, j: int)
    requires
        valid_utf8(t),
        0 <= j < t.len(),
        is_continuation_byte(t[j]),
    ensures
        j > 0,
        t[j - 1] >= 128,
    decreases t.len(),
{
    let ll = length_of_first_scalar(t);
    if j >= ll {
        let tail = pop_first_scalar(t);
        continuation_after_nonascii(tail, j - ll);
        assert(tail[j - ll] == t[j]);
        assert(tail[j - ll - 1] == t[j - 1]);
    }
}

/// A position next to an ASCII byte is a character boundary of any valid
/// UTF-8 encoding.
pub proof fn ascii_edge_boundary(t: Seq<u8>, i: int)
    requires
        valid_utf8(t),
        0 <= i <= t.len(),
        i < t.len() ==> (t[i] < 128 || i == 0 || t[i - 1] < 128),
    ensures
        is_char_boundary(t, i),
{
    if i == t.len() || i == 0 {
        is_char_boundary_start_end_of_seq(t);
    } else {
        if is_continuation_byte(t[i]) {
            continuation_after_nonascii(t, i);
        }
        is_char_boundary_iff_not_is_continuation_byte(t, i);
    }
}

/// Both edges of every reported span lie on character boundaries of the
/// text (and within it): slicing the text at a span never splits a
/// multi-byte code point.
pub proof fn parse_spans_boundaries(t: Seq<u8>, j: int)
    requires
        valid_utf8(t),
        0 <= j < parse_spans(t).len(),
    ensures
        0 <= parse_spans(t)[j].start <= parse_spans(t)[j].end < t.len(),
        is_char_boundary(t, parse_spans(t)[j].start),
        is_char_boundary(t, parse_spans(t)[j].end + 1),
{
    parse_spans_wf(t);
    let sp = parse_spans(t)[j];
    assert(span_wf(t, sp));
    ascii_edge_boundary(t, sp.start);
    ascii_edge_boundary(t, sp.end + 1);
}

/// Reported spans come in non-decreasing start order, and among spans
/// sharing a start the longer (outer) span comes first.
pub proof fn parse_spans_ordered(t: Seq<u8>, i: int, j: int)
    requires
        0 <= i < j < parse_spans(t).len(),
    ensures
        parse_spans(t)[i].start <= parse_spans(t)[j].start,
        parse_spans(t)[i].start == parse_spans(t)[j].start ==> parse_spans(t)[i].end
            >= parse_spans(t)[j].end,
{
    parse_spans_wf(t);
    assert(span_le(parse_spans(t)[i], parse_spans(t)[j]));
}

/// Underline and emphasis spans never cross a line feed. (Boneyard and
/// note spans may: nothing bounds them to one line.)
pub proof fn parse_spans_line_bound(t: Seq<u8>, j: int)
    requires
        0 <= j < parse_spans(t).len(),
        line_bound_kind(parse_spans(t)[j].kind),
    ensures
        no_nl(t, parse_spans(t)[j].start, parse_spans(t)[j].end + 1),
{
    parse_spans_wf(t);
    assert(span_wf(t, parse_spans(t)[j]));
}

/// The engine is a pure function of the text: two results of parsing the
/// same text are identical.
pub proof fn parse_deterministic(t: Seq<u8>, r1: Seq<SpanData>, r2: Seq<SpanData>)
    requires
        r1 == parse_spans(t),
        r2 == parse_spans(t),
    ensures
        r1 == r2,
{
}

/// Empty text parses to no spans at all.
pub proof fn parse_spans_empty()
    ensures
        parse_spans(Seq::<u8>::empty()) == Seq::<SpanData>::empty(),
{
    let t = Seq::<u8>::empty();
    assert(crate::lines::lines_of(t) =~= Seq::<(int, int)>::empty());
    assert(struct_spans(t) =~= Seq::<SpanData>::empty());
    assert(inline_spans(t) =~= Seq::<SpanData>::empty());
    assert(struct_spans(t) + inline_spans(t) =~= Seq::<SpanData>::empty());
    assert(parse_spans(t) =~= Seq::<SpanData>::empty());
}

/// Parses the text given as bytes: every structural and inline span, in
/// the reported order.
pub fn parse_bytes(t: &[u8]) -> (r: Vec<IntElement>)
    ensures
        view_seq(r@) == parse_spans(t@),
        forall|j: int| 0 <= j < r@.len() ==> span_wf(t@, (#[trigger] r@[j])@),
        spans_sorted(view_seq(r@)),
{
    let lines = split_lines(t);
    let mut v = crate::classify::parse_lines(t, &lines);
    let mut inl = crate::scan::parse_chars(t);
    v.append(&mut inl);
    proof {
        assert(view_seq(v@) =~= struct_spans(t@) + inline_spans(t@));
    }
    let r = sort_elems(v);
    proof {
        parse_spans_wf(t@);
        assert(forall|j: int|
            0 <= j < r@.len() ==> (#[trigger] r@[j])@ == view_seq(r@)[j]);
    }
    r
}

/// `parse_spans`, each span moved `off` bytes to the right: the form the
/// engine reports when the text is itself a region of a larger source.
pub open spec fn shift_spans(s: Seq<SpanData>, off: int) -> Seq<SpanData> {
    s.map_values(
        |sp: SpanData| SpanData { start: sp.start + off, end: sp.end + off, kind: sp.kind },
    )
}

/// Parses the text, reporting each span's offsets relative to a source in
/// which the text starts at byte `offset`.
pub fn parse_str(text: &str, offset: usize) -> (r: Vec<IntElement>)
    requires
        offset + text.spec_bytes().len() <= usize::MAX,
    ensures
        view_seq(r@) == shift_spans(parse_spans(text.spec_bytes()), offset as int),
{
    let bytes = text.as_bytes();
    let v = parse_bytes(bytes);
    let ghost base = parse_spans(text.spec_bytes());
    let n = v.len();
    let mut out: Vec<IntElement> = Vec::new();
    let mut i: usize = 0;
    while i < n
        invariant
            i <= n == v@.len(),
            out@.len() == i,
            forall|j: int|
                0 <= j < i ==> (#[trigger] out@[j])@ == (SpanData {
                    start: base[j].start + offset,
                    end: base[j].end + offset,
                    kind: base[j].kind,
                }),
        decreases n - i,
    {
        let e = v[i];
        proof {
            assert(e@ == view_seq(v@)[i as int]);
            assert(span_wf(text.spec_bytes(), e@));
        }
        out.push(IntElement::new(e.start + offset, e.end + offset, e.elm_type));
        i = i + 1;
    }
    proof {
        assert(view_seq(out@) =~= shift_spans(base, offset as int));
    }
    out
}

} // verus!
