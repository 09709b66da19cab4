//! A screenplay markup engine: one forward pass over plain text that finds
//! inline markup spans (emphasis, underline, boneyard comments, notes) and
//! classifies every line into a structural role (heading, action, character
//! cue, dialogue, and so on), returning byte-offset-anchored elements.
#![verifier::loop_isolation(false)]
pub mod bytes;
pub mod classify;
pub mod disjoint;
pub mod lines;
pub mod markup;
pub mod order;
pub mod parsing;
pub mod scan;
pub mod spans;

pub use markup::Element;
pub use markup::ElmType;
pub use markup::Slice;
pub use parsing::parse_str;
pub use scan::CharStatus;
pub use spans::IntElement;

use vstd::prelude::*;
use vstd::string::StringSliceAdditionalSpecFns;
use vstd::utf8::{
    encode_utf8, encode_utf8_valid_utf8, is_char_boundary,
    is_char_boundary_iff_not_is_continuation_byte, is_char_boundary_start_end_of_seq, valid_utf8,
    valid_utf8_split,
};

use crate::parsing::{parse_spans, parse_spans_boundaries, parse_spans_empty};
use crate::scan::view_seq;
use crate::spans::SpanData;

verus! {

/// A parsed screenplay: the text and every element the engine found in it,
/// in the reported order.
#[derive(Debug, PartialEq)]
pub struct Document {
    text: String,
    markup: Vec<IntElement>,
}

impl Document {
    /// The stored markup is exactly what the engine reports for the stored
    /// text: the spans are trusted to index it safely.
    #[verifier::type_invariant]
    closed spec fn wf(self) -> bool {
        view_seq(self.markup@) == parse_spans(encode_utf8(self.text@))
    }

    /// The document's text, as characters.
    pub closed spec fn spec_text(&self) -> Seq<char> {
        self.text@
    }

    /// The document's text, as the bytes the spans index.
    pub open spec fn spec_bytes(&self) -> Seq<u8> {
        encode_utf8(self.spec_text())
    }

    /// The models of the stored elements, in the reported order.
    pub closed spec fn spec_markup(&self) -> Seq<SpanData> {
        view_seq(self.markup@)
    }

    /// An empty document: no text, no elements.
    pub fn new() -> (r: Self)
        ensures
            r.spec_text() == Seq::<char>::empty(),
            r.spec_markup() == Seq::<SpanData>::empty(),
    {
        proof {
            parse_spans_empty();
        }
        let text = String::new();
        let markup: Vec<IntElement> = Vec::new();
        proof {
            assert(encode_utf8(text@) =~= Seq::<u8>::empty());
            assert(view_seq(markup@) =~= Seq::<SpanData>::empty());
        }
        Document { text, markup }
    }

    /// Parses the given text into a document that owns a copy of it.
    pub fn from_text(text: &str) -> (r: Self)
        ensures
            r.spec_text() == text@,
            r.spec_markup() == parse_spans(text.spec_bytes()),
    {
        let bytes = text.as_bytes();
        let markup = crate::parsing::parse_bytes(bytes);
        let owned = text.to_owned();
        Document { text: owned, markup }
    }

    /// Iterates the document's elements, in the reported order.
    pub fn elements(&self) -> (r: Elements<'_>)
        ensures
            r.spec_doc() == *self,
            r.spec_index() == 0,
            r.spec_limit() == self.spec_markup().len(),
    {
        let limit = self.markup.len();
        Elements::new(self, 0, limit)
    }
}

impl<'a> From<&'a str> for Document {
    /// Parses the text; the exact contract is on `Document::from_text`.
    fn from(text: &'a str) -> (r: Document) {
        Document::from_text(text)
    }
}

impl<'a> vstd::std_specs::convert::FromSpecImpl<&'a str> for Document {
    open spec fn obeys_from_spec() -> bool {
        false
    }

    open spec fn from_spec(v: &'a str) -> Document {
        arbitrary()
    }
}

/// A cursor over a range of a document's elements.
pub struct Elements<'d> {
    doc: &'d Document,
    index: usize,
    limit: usize,
}

impl<'d> Elements<'d> {
    pub closed spec fn spec_doc(&self) -> Document {
        *self.doc
    }

    pub closed spec fn spec_index(&self) -> int {
        self.index as int
    }

    pub closed spec fn spec_limit(&self) -> int {
        self.limit as int
    }

    pub fn new(doc: &'d Document, start: usize, end: usize) -> (r: Self)
        ensures
            r.spec_doc() == *doc,
            r.spec_index() == start as int,
            r.spec_limit() == end as int,
    {
        Self { doc, index: start, limit: end }
    }

    /// The next element of the range, if any: its kind and offset are those
    /// of the document's next stored span, and its text is the exact region
    /// of the document's text that the span covers.
    pub fn next(&mut self) -> (r: Option<Element<'d>>)
        ensures
            final(self).spec_doc() == old(self).spec_doc(),
            final(self).spec_limit() == old(self).spec_limit(),
            final(self).spec_index() == if old(self).spec_index() < old(self).spec_limit() {
                old(self).spec_index() + 1
            } else {
                old(self).spec_index()
            },
            ({
                let d = old(self).spec_doc();
                let i = old(self).spec_index();
                if i < old(self).spec_limit() && i < d.spec_markup().len() {
                    match r {
                        Some(e) => {
                            let sp = d.spec_markup()[i];
                            &&& e.spec_offset() == sp.start
                            &&& e.spec_elm_type() == sp.kind
                            &&& e.spec_text().spec_bytes() == d.spec_bytes().subrange(
                                sp.start,
                                sp.end + 1,
                            )
                        },
                        None => false,
                    }
                } else {
                    r is None
                }
            }),
    {
        if self.index >= self.limit {
            return None;
        }
        let i = self.index;
        self.index = i + 1;
        if i >= self.doc.markup.len() {
            return None;
        }
        proof {
            use_type_invariant(&*self.doc);
        }
        let ghost tb = encode_utf8(self.doc.text@);
        let e = self.doc.markup[i];
        let s: &str = self.doc.text.as_str();
        let _total = s.as_bytes().len();
        proof {
            broadcast use encode_utf8_valid_utf8;

            assert(e@ == view_seq(self.doc.markup@)[i as int]);
            parse_spans_boundaries(tb, i as int);
            assert(is_char_boundary(s.spec_bytes(), e.start as int));
        }
        let (_, rest) = s.split_at(e.start);
        let ghost rb = rest.spec_bytes();
        proof {
            broadcast use encode_utf8_valid_utf8;

            valid_utf8_split(tb, e.start as int);
            assert(valid_utf8(rb));
            let p = e.end + 1 - e.start as int;
            if e.end + 1 < tb.len() {
                is_char_boundary_iff_not_is_continuation_byte(tb, e.end + 1);
                assert(rb[p] == tb[e.end + 1]);
                is_char_boundary_iff_not_is_continuation_byte(rb, p);
            } else {
                assert(p == rb.len());
                is_char_boundary_start_end_of_seq(rb);
            }
        }
        let (mid, _) = rest.split_at(e.end + 1 - e.start);
        proof {
            assert(mid.spec_bytes() =~= tb.subrange(e.start as int, e.end + 1));
        }
        Some(Element::new(e.start, e.elm_type, mid))
    }
}

} // verus!
