//! Public element model: the kinds of screenplay elements and the
//! borrowed views (`Element`, `Slice`) handed to consumers.
use vstd::prelude::*;
use vstd::string::StringSliceAdditionalSpecFns;

verus! {

/// The closed set of element kinds.
///
/// Structural kinds describe a line's (or line block's) narrative role;
/// inline kinds describe typographic markup nested within structural text.
#[derive(Clone, Copy, Debug, PartialEq, Eq, Structural)]
pub enum ElmType {
    Action,
    Character,
    Parenthetical,
    Dialogue,
    Heading,
    Transition,
    Bold,
    Italic,
    BoldItalic,
    Underline,
    Boneyard,
    Note,
    Lyric,
    Centered,
    PageBreak,
}

/// A classified region of a document's text: its kind, the byte offset of its
/// first byte, and the borrowed text it covers. Owns no text.
#[derive(Clone, Debug, PartialEq)]
pub struct Element<'s> {
    elm_type: ElmType,
    offset: usize,
    text: &'s str,
}

impl<'s> Element<'s> {
    pub fn new(offset: usize, elm_type: ElmType, text: &'s str) -> (r: Self)
        ensures
            r.spec_elm_type() == elm_type,
            r.spec_offset() == offset as int,
            r.spec_text() == text,
    {
        Self { offset, text, elm_type }
    }

    /// The kind of this element.
    pub closed spec fn spec_elm_type(&self) -> ElmType {
        self.elm_type
    }

    /// Byte offset of the element's first byte within the source text.
    pub closed spec fn spec_offset(&self) -> int {
        self.offset as int
    }

    /// The borrowed text the element covers.
    pub closed spec fn spec_text(&self) -> &'s str {
        self.text
    }

    pub fn elm_type(&self) -> (r: ElmType)
        ensures
            r == self.spec_elm_type(),
    {
        self.elm_type
    }

    pub fn offset(&self) -> (r: usize)
        ensures
            r as int == self.spec_offset(),
    {
        self.offset
    }

    pub fn text(&self) -> (r: &'s str)
        ensures
            r == self.spec_text(),
    {
        self.text
    }

    /// Length of the element in bytes of the underlying encoded text.
    pub fn len(&self) -> (r: usize)
        ensures
            r == self.spec_text().spec_bytes().len() as usize,
    {
        self.text.len()
    }
}

/// A region of a document together with the elements found inside it:
/// a read-only projection over borrowed text.
#[derive(Clone, Debug)]
pub struct Slice<'s> {
    text: &'s str,
    offset: usize,
    markup: Vec<Element<'s>>,
}

impl<'s> Slice<'s> {
    pub fn new(offset: usize, text: &'s str, markup: Vec<Element<'s>>) -> (r: Self)
        ensures
            r.spec_offset() == offset as int,
            r.spec_text() == text,
            r.spec_markup() == markup,
    {
        Self { offset, text, markup }
    }

    pub closed spec fn spec_offset(&self) -> int {
        self.offset as int
    }

    pub closed spec fn spec_text(&self) -> &'s str {
        self.text
    }

    pub closed spec fn spec_markup(&self) -> Vec<Element<'s>> {
        self.markup
    }

    pub fn offset(&self) -> (r: usize)
        ensures
            r as int == self.spec_offset(),
    {
        self.offset
    }

    pub fn text(&self) -> (r: &'s str)
        ensures
            r == self.spec_text(),
    {
        self.text
    }

    /// Length of the slice in bytes of the underlying encoded text.
    pub fn len(&self) -> (r: usize)
        ensures
            r == self.spec_text().spec_bytes().len() as usize,
    {
        self.text.len()
    }

    /// The elements found within this slice.
    pub fn markup(&self) -> (r: &Vec<Element<'s>>)
        ensures
            *r == self.spec_markup(),
    {
        &self.markup
    }
}

} // verus!
