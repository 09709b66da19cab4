//! Internal span representation shared by the engine's passes, its
//! mathematical model, and the ordering rule used when spans are reported
//! together.
use vstd::prelude::*;

use crate::markup::ElmType;

verus! {

/// Mathematical model of a span: byte offsets of its first and last byte
/// (both inclusive) and its element kind.
pub ghost struct SpanData {
    pub start: int,
    pub end: int,
    pub kind: ElmType,
}

/// A classified region of text held by index: the byte offsets of its first
/// and last byte (inclusive) and its kind.
#[derive(Clone, Copy, Debug, PartialEq, Eq, Structural)]
pub struct IntElement {
    pub elm_type: ElmType,
    pub start: usize,
    pub end: usize,
}

impl View for IntElement {
    type V = SpanData;

    open spec fn view(&self) -> SpanData {
        SpanData { start: self.start as int, end: self.end as int, kind: self.elm_type }
    }
}

impl IntElement {
    pub fn new(start: usize, end: usize, elm_type: ElmType) -> (r: Self)
        ensures
            r@ == (SpanData { start: start as int, end: end as int, kind: elm_type }),
    {
        Self { elm_type, start, end }
    }

    pub fn bnyd(start: usize, end: usize) -> (r: Self)
        ensures
            r@ == (SpanData { start: start as int, end: end as int, kind: ElmType::Boneyard }),
    {
        Self::new(start, end, ElmType::Boneyard)
    }

    pub fn note(start: usize, end: usize) -> (r: Self)
        ensures
            r@ == (SpanData { start: start as int, end: end as int, kind: ElmType::Note }),
    {
        Self::new(start, end, ElmType::Note)
    }

    pub fn ital(start: usize, end: usize) -> (r: Self)
        ensures
            r@ == (SpanData { start: start as int, end: end as int, kind: ElmType::Italic }),
    {
        Self::new(start, end, ElmType::Italic)
    }

    pub fn bold(start: usize, end: usize) -> (r: Self)
        ensures
            r@ == (SpanData { start: start as int, end: end as int, kind: ElmType::Bold }),
    {
        Self::new(start, end, ElmType::Bold)
    }

    pub fn boit(start: usize, end: usize) -> (r: Self)
        ensures
            r@ == (SpanData { start: start as int, end: end as int, kind: ElmType::BoldItalic }),
    {
        Self::new(start, end, ElmType::BoldItalic)
    }

    pub fn undl(start: usize, end: usize) -> (r: Self)
        ensures
            r@ == (SpanData { start: start as int, end: end as int, kind: ElmType::Underline }),
    {
        Self::new(start, end, ElmType::Underline)
    }
}

/// Fixed precedence of kinds, used only to break ties between spans that
/// share both boundaries: structural kinds come before inline kinds.
pub open spec fn kind_rank(k: ElmType) -> int {
    match k {
        ElmType::Heading => 0,
        ElmType::Action => 1,
        ElmType::Character => 2,
        ElmType::Parenthetical => 3,
        ElmType::Dialogue => 4,
        ElmType::Transition => 5,
        ElmType::Centered => 6,
        ElmType::Lyric => 7,
        ElmType::PageBreak => 8,
        ElmType::Boneyard => 9,
        ElmType::Note => 10,
        ElmType::Underline => 11,
        ElmType::Italic => 12,
        ElmType::Bold => 13,
        ElmType::BoldItalic => 14,
    }
}

/// The global ordering of reported spans: ascending start offset; ties broken
/// by descending length (the outer span first), then by kind precedence.
pub open spec fn span_le(a: SpanData, b: SpanData) -> bool {
    ||| a.start < b.start
    ||| (a.start == b.start && a.end > b.end)
    ||| (a.start == b.start && a.end == b.end && kind_rank(a.kind) <= kind_rank(b.kind))
}

pub proof fn span_le_total(a: SpanData, b: SpanData)
    ensures
        span_le(a, b) || span_le(b, a),
        span_le(a, a),
        span_le(a, b) && span_le(b, a) ==> a.start == b.start && a.end == b.end && kind_rank(
            a.kind,
        ) == kind_rank(b.kind),
{
}

pub proof fn span_le_trans(a: SpanData, b: SpanData, c: SpanData)
    ensures
        span_le(a, b) && span_le(b, c) ==> span_le(a, c),
{
}

fn rank_of(k: ElmType) -> (r: u8)
    ensures
        r as int == kind_rank(k),
{
    match k {
        ElmType::Heading => 0,
        ElmType::Action => 1,
        ElmType::Character => 2,
        ElmType::Parenthetical => 3,
        ElmType::Dialogue => 4,
        ElmType::Transition => 5,
        ElmType::Centered => 6,
        ElmType::Lyric => 7,
        ElmType::PageBreak => 8,
        ElmType::Boneyard => 9,
        ElmType::Note => 10,
        ElmType::Underline => 11,
        ElmType::Italic => 12,
        ElmType::Bold => 13,
        ElmType::BoldItalic => 14,
    }
}

/// Decides the span ordering executably.
pub fn span_le_exec(a: &IntElement, b: &IntElement) -> (r: bool)
    ensures
        r == span_le(a@, b@),
{
    if a.start < b.start {
        true
    } else if a.start == b.start {
        if a.end > b.end {
            true
        } else if a.end == b.end {
            rank_of(a.elm_type) <= rank_of(b.elm_type)
        } else {
            false
        }
    } else {
        false
    }
}

} // verus!
