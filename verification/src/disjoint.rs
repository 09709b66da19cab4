//! The non-overlap law: spans of the same kind never share a byte. The
//! scanner keeps at most one open instance per inline kind and spends each
//! delimiter byte, and the classifier emits structural spans in line
//! order, so every same-kind pair is disjoint; sorting only rearranges
//! them.
use vstd::prelude::*;

use crate::classify::{
    classify_step, classify_upto, classify_upto_wf, struct_span_wf, struct_spans,
    struct_spans_wf, structural_kind, Mode,
};
use crate::lines::{
    first_content_props, last_content_props, line_blank, lines_from_wf, lines_of,
};
use crate::markup::ElmType;
use crate::order::sort_spans_props;
use crate::parsing::parse_spans;
use crate::scan::{
    inline_kind, inline_span_wf, inline_spans, inline_spans_same_kind_disjoint, inline_spans_wf,
    mk_span, same_kind_disjoint,
};
use crate::spans::SpanData;

verus! {

/// Structural spans never share a byte: each ends before the next starts.
pub open spec fn spans_disjoint_ordered(out: Seq<SpanData>) -> bool {
    forall|i: int, j: int|
        0 <= i < j < out.len() ==> (#[trigger] out[i]).end < (#[trigger] out[j]).start
}

/// The frontier invariant behind structural disjointness: everything
/// emitted so far ends inside the lines already consumed, and before any
/// dialogue run still being merged.
pub open spec fn classify_disj(ls: Seq<(int, int)>, k: int, m: Mode, out: Seq<SpanData>) -> bool {
    &&& spans_disjoint_ordered(out)
    &&& match m {
        Mode::DialRun(s, e) => forall|j: int| 0 <= j < out.len() ==> (#[trigger] out[j]).end < s,
        _ => true,
    }
    &&& (k == 0 ==> out.len() == 0)
    &&& (k > 0 ==> forall|j: int| 0 <= j < out.len() ==> (#[trigger] out[j]).end < ls[k - 1].1 + 1)
}

/// The disjointness invariant holds after every prefix of the lines.
pub proof fn classify_upto_disj(t: Seq<u8>, k: int)
    requires
        0 <= k <= lines_of(t).len(),
    ensures
        classify_disj(lines_of(t), k, classify_upto(t, lines_of(t), k).0, classify_upto(t, lines_of(t), k).1),
    decreases k,
{
    let ls = lines_of(t);
    lines_from_wf(t, 0);
    reveal(classify_step);
    if k > 0 {
        classify_upto_disj(t, k - 1);
        classify_upto_wf(t, k - 1);
        let a = ls[k - 1].0;
        let b = ls[k - 1].1;
        if !line_blank(t, a, b) {
            first_content_props(t, a, b);
            last_content_props(t, a, b);
        }
    }
}

/// No two structural spans overlap at all: line classification emits them
/// in line order, each ending before the next begins.
pub proof fn struct_spans_disjoint(t: Seq<u8>)
    ensures
        spans_disjoint_ordered(struct_spans(t)),
{
    let ls = lines_of(t);
    let kk = ls.len() as int;
    classify_upto_disj(t, kk);
    classify_upto_wf(t, kk);
    let m = classify_upto(t, ls, kk).0;
    let out = classify_upto(t, ls, kk).1;
    match m {
        Mode::DialRun(s, e) => {
            assert(struct_spans(t) =~= out.push(mk_span(s, e, ElmType::Dialogue)));
            assert(spans_disjoint_ordered(out.push(mk_span(s, e, ElmType::Dialogue))));
        },
        _ => {
            assert(struct_spans(t) =~= out);
        },
    }
}

/// Among all reported spans, two of the same kind never overlap: the
/// earlier one ends before the later one starts, or the other way round.
pub proof fn parse_spans_same_kind_disjoint(t: Seq<u8>, i: int, j: int)
    requires
        0 <= i < parse_spans(t).len(),
        0 <= j < parse_spans(t).len(),
        i != j,
        parse_spans(t)[i].kind == parse_spans(t)[j].kind,
    ensures
        parse_spans(t)[i].end < parse_spans(t)[j].start || parse_spans(t)[j].end < parse_spans(
            t,
        )[i].start,
{
    broadcast use vstd::seq_lib::group_to_multiset_ensures;

    let ss = struct_spans(t);
    let il = inline_spans(t);
    let all = ss + il;
    let sorted = parse_spans(t);
    struct_spans_wf(t);
    inline_spans_wf(t);
    struct_spans_disjoint(t);
    inline_spans_same_kind_disjoint(t);
    sort_spans_props(all);
    // the concatenation holds no span twice: each part repeats nothing,
    // and no span can sit in both parts (the kind families are disjoint)
    assert forall|p: int, q: int|
        0 <= p < all.len() && 0 <= q < all.len() && p != q implies all[p] != all[q] by {
        if all[p] == all[q] {
            let a = if p < q {
                p
            } else {
                q
            };
            let b = if p < q {
                q
            } else {
                p
            };
            if b < ss.len() {
                assert(ss[a].end < ss[b].start);
                assert(struct_span_wf(t, ss[b]));
            } else if a >= ss.len() {
                assert(il[a - ss.len()].end < il[b - ss.len()].start);
                assert(inline_span_wf(t, t.len() as int, il[b - ss.len()]));
            } else {
                assert(structural_kind(all[a].kind));
                assert(inline_kind(all[b].kind));
            }
        }
    }
    assert(all.no_duplicates());
    all.lemma_multiset_has_no_duplicates();
    assert(sorted.to_multiset() == all.to_multiset());
    sorted.lemma_multiset_has_no_duplicates_conv();
    assert(sorted[i] != sorted[j]);
    let v1 = sorted[i];
    let v2 = sorted[j];
    assert(sorted.contains(v1) && sorted.contains(v2));
    assert(all.contains(v1)) by {
        assert(all.to_multiset().count(v1) > 0);
    }
    assert(all.contains(v2)) by {
        assert(all.to_multiset().count(v2) > 0);
    }
    let p = choose|p: int| 0 <= p < all.len() && all[p] == v1;
    let q = choose|q: int| 0 <= q < all.len() && all[q] == v2;
    if structural_kind(v1.kind) {
        assert(p < ss.len()) by {
            if p >= ss.len() {
                assert(inline_kind(all[p].kind));
            }
        }
        assert(q < ss.len()) by {
            if q >= ss.len() {
                assert(inline_kind(all[q].kind));
            }
        }
        assert(ss[p] == v1 && ss[q] == v2);
        if p < q {
            assert(ss[p].end < ss[q].start);
        } else {
            assert(ss[q].end < ss[p].start);
        }
    } else {
        assert(inline_kind(v1.kind)) by {
            if p < ss.len() {
                assert(structural_kind(all[p].kind));
            } else {
                assert(inline_span_wf(t, t.len() as int, il[p - ss.len()]));
            }
        }
        assert(p >= ss.len()) by {
            if p < ss.len() {
                assert(structural_kind(all[p].kind));
            }
        }
        assert(q >= ss.len()) by {
            if q < ss.len() {
                assert(structural_kind(all[q].kind));
            }
        }
        let pa = p - ss.len();
        let qa = q - ss.len();
        assert(il[pa] == v1 && il[qa] == v2);
        if pa < qa {
            assert(il[pa].end < il[qa].start);
        } else {
            assert(il[qa].end < il[pa].start);
        }
    }
}

} // verus!
