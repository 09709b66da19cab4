//! The pass coordinator's ordering: merged spans are sorted by ascending
//! start offset, ties by descending length, then by kind precedence, so a
//! consumer walking the collection sees every outer span before the inner
//! spans that share its start.
use vstd::prelude::*;

use crate::scan::view_seq;
use crate::spans::{span_le, span_le_exec, span_le_total, span_le_trans, IntElement, SpanData};

verus! {

/// Places `x` behind every element allowed to precede it: the result of
/// one insertion-sort step.
pub open spec fn insert_span(s: Seq<SpanData>, x: SpanData) -> Seq<SpanData>
    decreases s.len(),
{
    if s.len() == 0 {
        seq![x]
    } else if span_le(s.last(), x) {
        s.push(x)
    } else {
        insert_span(s.drop_last(), x).push(s.last())
    }
}

/// The spans of `s` in the reported order.
pub open spec fn sort_spans(s: Seq<SpanData>) -> Seq<SpanData>
    decreases s.len(),
{
    if s.len() == 0 {
        s
    } else {
        insert_span(sort_spans(s.drop_last()), s.last())
    }
}

pub open spec fn spans_sorted(s: Seq<SpanData>) -> bool {
    forall|i: int, j: int| 0 <= i < j < s.len() ==> span_le(#[trigger] s[i], #[trigger] s[j])
}

pub proof fn insert_span_props(s: Seq<SpanData>, x: SpanData)
    requires
        spans_sorted(s),
    ensures
        spans_sorted(insert_span(s, x)),
        insert_span(s, x).to_multiset() == s.to_multiset().insert(x),
        insert_span(s, x).len() == s.len() + 1,
    decreases s.len(),
{
    broadcast use vstd::seq_lib::group_to_multiset_ensures;

    let r = insert_span(s, x);
    if s.len() == 0 {
        assert(seq![x] == Seq::<SpanData>::empty().push(x));
        assert(r.to_multiset() == s.to_multiset().insert(x));
    } else if span_le(s.last(), x) {
        assert forall|i: int, j: int| 0 <= i < j < r.len() implies span_le(r[i], r[j]) by {
            if j == r.len() - 1 {
                if i < s.len() - 1 {
                    assert(span_le(s[i], s.last()));
                }
                span_le_trans(r[i], s.last(), x);
                span_le_total(s.last(), x);
            }
        }
    } else {
        let dl = s.drop_last();
        assert(spans_sorted(dl)) by {
            assert(forall|i: int, j: int|
                0 <= i < j < dl.len() ==> span_le(#[trigger] dl[i], #[trigger] dl[j]));
        }
        insert_span_props(dl, x);
        let r0 = insert_span(dl, x);
        assert(r == r0.push(s.last()));
        // everything in r0 is either x or an element of dl, and both come
        // no later than the last element
        assert forall|i: int, j: int| 0 <= i < j < r.len() implies span_le(r[i], r[j]) by {
            if j == r.len() - 1 {
                let v = r0[i];
                assert(r0.to_multiset().contains(v));
                if v == x {
                    span_le_total(s.last(), x);
                } else {
                    assert(dl.to_multiset().contains(v));
                    assert(dl.contains(v));
                    let w = choose|w: int| 0 <= w < dl.len() && dl[w] == v;
                    if w < dl.len() - 1 {
                        assert(span_le(dl[w], dl.last()));
                        assert(span_le(v, s[s.len() - 2]));
                        span_le_trans(v, s[s.len() - 2], s.last());
                    }
                    if w == dl.len() - 1 {
                        assert(span_le(s[s.len() - 2], s.last()));
                    }
                    if dl.len() == 0 {
                        assert(false);
                    }
                }
            }
        }
        assert(s.to_multiset() == dl.to_multiset().insert(s.last())) by {
            assert(s =~= dl.push(s.last()));
        }
        assert(r.to_multiset() =~= s.to_multiset().insert(x));
    }
}

pub proof fn sort_spans_props(s: Seq<SpanData>)
    ensures
        spans_sorted(sort_spans(s)),
        sort_spans(s).to_multiset() == s.to_multiset(),
        sort_spans(s).len() == s.len(),
    decreases s.len(),
{
    broadcast use vstd::seq_lib::group_to_multiset_ensures;

    if s.len() > 0 {
        let dl = s.drop_last();
        sort_spans_props(dl);
        insert_span_props(sort_spans(dl), s.last());
        assert(s.to_multiset() == dl.to_multiset().insert(s.last())) by {
            assert(s =~= dl.push(s.last()));
        }
    }
}

/// Sorting neither adds nor loses spans.
pub proof fn sort_spans_contains(s: Seq<SpanData>, x: SpanData)
    ensures
        sort_spans(s).contains(x) == s.contains(x),
{
    broadcast use vstd::seq_lib::group_to_multiset_ensures;

    sort_spans_props(s);
    assert(sort_spans(s).contains(x) <==> sort_spans(s).to_multiset().count(x) > 0);
    assert(s.contains(x) <==> s.to_multiset().count(x) > 0);
}

proof fn insert_span_split(s: Seq<SpanData>, x: SpanData, p: int)
    requires
        0 <= p <= s.len(),
        forall|k: int| p <= k < s.len() ==> !span_le(#[trigger] s[k], x),
        p > 0 ==> span_le(s[p - 1], x),
    ensures
        insert_span(s, x) == s.subrange(0, p) + seq![x] + s.subrange(p, s.len() as int),
    decreases s.len(),
{
    if s.len() == 0 {
        assert(insert_span(s, x) =~= s.subrange(0, p) + seq![x] + s.subrange(p, s.len() as int));
    } else if p == s.len() {
        assert(span_le(s.last(), x));
        assert(insert_span(s, x) =~= s.subrange(0, p) + seq![x] + s.subrange(p, s.len() as int));
    } else {
        assert(!span_le(s.last(), x));
        let dl = s.drop_last();
        insert_span_split(dl, x, p);
        assert(insert_span(s, x) == insert_span(dl, x).push(s.last()));
        assert(insert_span(s, x) =~= s.subrange(0, p) + seq![x] + s.subrange(p, s.len() as int));
    }
}

/// Inserts one span at its place in the reported order.
fn insert_sorted(v: &mut Vec<IntElement>, x: IntElement)
    ensures
        view_seq(final(v)@) == insert_span(view_seq(old(v)@), x@),
{
    let ghost s = view_seq(old(v)@);
    let mut p: usize = v.len();
    while p > 0 && !span_le_exec(&v[p - 1], &x)
        invariant
            p <= v.len(),
            v@ == old(v)@,
            forall|k: int| p <= k < s.len() ==> !span_le(#[trigger] s[k], x@),
        decreases p,
    {
        p = p - 1;
    }
    proof {
        insert_span_split(s, x@, p as int);
    }
    v.insert(p, x);
    proof {
        assert(view_seq(v@) =~= s.subrange(0, p as int) + seq![x@] + s.subrange(
            p as int,
            s.len() as int,
        ));
    }
}

/// Sorts the merged spans into the reported order.
pub fn sort_elems(v: Vec<IntElement>) -> (r: Vec<IntElement>)
    ensures
        view_seq(r@) == sort_spans(view_seq(v@)),
{
    let n = v.len();
    let mut r: Vec<IntElement> = Vec::new();
    let mut i: usize = 0;
    proof {
        assert(view_seq(r@) =~= sort_spans(view_seq(v@).subrange(0, 0)));
    }
    while i < n
        invariant
            i <= n == v@.len(),
            view_seq(r@) == sort_spans(view_seq(v@.subrange(0, i as int))),
        decreases n - i,
    {
        let ghost pre = view_seq(v@.subrange(0, i as int));
        let ghost cur = view_seq(v@.subrange(0, i as int + 1));
        insert_sorted(&mut r, v[i]);
        proof {
            assert(cur.drop_last() =~= pre);
            assert(cur.last() == v@[i as int]@);
            assert(view_seq(r@) == sort_spans(cur));
        }
        i = i + 1;
    }
    proof {
        assert(v@.subrange(0, n as int) =~= v@);
    }
    r
}

} // verus!
