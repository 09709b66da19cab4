use screenplay::{parse_str, CharStatus, Document, Element, ElmType, IntElement, Slice};

#[test]
fn from_empty_string() {
    let doc = Document::from_text("");
    assert_eq!(doc, Document::new());
}

#[test]
fn parse_is_pure() {
    let text = "EDWARD\n(beat)\nWell.  _So_ it goes. /* x */";
    assert_eq!(parse_str(text, 0), parse_str(text, 0));
    let d1: Vec<(ElmType, usize, String)> = {
        let doc = Document::from_text(text);
        let mut it = doc.elements();
        let mut v = Vec::new();
        while let Some(e) = it.next() {
            v.push((e.elm_type(), e.offset(), e.text().to_string()));
        }
        v
    };
    let d2: Vec<(ElmType, usize, String)> = {
        let doc = Document::from_text(text);
        let mut it = doc.elements();
        let mut v = Vec::new();
        while let Some(e) = it.next() {
            v.push((e.elm_type(), e.offset(), e.text().to_string()));
        }
        v
    };
    assert_eq!(d1, d2);
}

#[test]
fn spans_in_bounds_and_ordered() {
    let text = "INT. HOUSE\n\nA *bold* _move_.\n\nBOB\n(softly)\nno [[check]] /* hm\n*/ more";
    let spans = parse_str(text, 0);
    let mut prev_start = 0usize;
    let mut prev_end_for_ties = usize::MAX;
    for s in &spans {
        assert!(s.start <= s.end);
        assert!(s.end < text.len());
        assert!(text.is_char_boundary(s.start));
        assert!(text.is_char_boundary(s.end + 1));
        if s.start == prev_start {
            assert!(s.end <= prev_end_for_ties);
        } else {
            assert!(s.start > prev_start);
        }
        prev_start = s.start;
        prev_end_for_ties = s.end;
    }
}

#[test]
fn underline_and_emphasis_stay_on_one_line() {
    let text = "a _open\nclosed_ b *star\nstar* c";
    let spans = parse_str(text, 0);
    for s in &spans {
        let within = &text.as_bytes()[s.start..=s.end];
        match s.elm_type {
            ElmType::Underline | ElmType::Italic | ElmType::Bold | ElmType::BoldItalic => {
                assert!(!within.contains(&b'\n'));
            }
            _ => {}
        }
    }
    // neither half-open marker pair closed across the line feed
    assert!(spans.iter().all(|s| !matches!(
        s.elm_type,
        ElmType::Underline | ElmType::Italic | ElmType::Bold | ElmType::BoldItalic
    )));
}

#[test]
fn parse_str_applies_offset() {
    let spans = parse_str("EDWARD", 5);
    assert_eq!(spans.len(), 1);
    assert_eq!(spans[0], IntElement::new(5, 10, ElmType::Action));
}

#[test]
fn int_element_constructors() {
    assert_eq!(IntElement::bnyd(1, 2).elm_type, ElmType::Boneyard);
    assert_eq!(IntElement::note(1, 2).elm_type, ElmType::Note);
    assert_eq!(IntElement::ital(1, 2).elm_type, ElmType::Italic);
    assert_eq!(IntElement::bold(1, 2).elm_type, ElmType::Bold);
    assert_eq!(IntElement::boit(1, 2).elm_type, ElmType::BoldItalic);
    assert_eq!(IntElement::undl(1, 2).elm_type, ElmType::Underline);
    let e = IntElement::new(3, 7, ElmType::Heading);
    assert_eq!((e.start, e.end, e.elm_type), (3, 7, ElmType::Heading));
}

#[test]
fn char_status_newline_reset() {
    let mut c = CharStatus::new();
    c.undl_start = Some(4);
    c.ital_start = Some(1);
    c.bold_start = Some(2);
    c.boit_start = Some(3);
    c.run_start = Some(5);
    c.run_len = 2;
    c.undl_before = true;
    c.bnyd_start = Some(0);
    c.note_start = None;
    c.newline_reset();
    assert_eq!(c.undl_start, None);
    assert_eq!(c.ital_start, None);
    assert_eq!(c.bold_start, None);
    assert_eq!(c.boit_start, None);
    assert_eq!(c.run_start, None);
    assert_eq!(c.run_len, 0);
    assert!(!c.undl_before);
    // boneyard state survives a line feed
    assert_eq!(c.bnyd_start, Some(0));
}

#[test]
fn element_and_slice_accessors() {
    let e = Element::new(3, ElmType::Dialogue, "hi there");
    assert_eq!(e.offset(), 3);
    assert_eq!(e.elm_type(), ElmType::Dialogue);
    assert_eq!(e.text(), "hi there");
    assert_eq!(e.len(), 8);
    let s = Slice::new(0, "hi there", vec![e.clone()]);
    assert_eq!(s.offset(), 0);
    assert_eq!(s.text(), "hi there");
    assert_eq!(s.len(), 8);
    assert_eq!(s.markup().len(), 1);
    assert_eq!(s.markup()[0], e);
}

#[test]
fn elements_range_cursor() {
    let doc = Document::from_text("BOB\nHi.");
    let mut all = screenplay::Elements::new(&doc, 0, usize::MAX);
    let mut n: usize = 0;
    while let Some(_) = all.next() {
        n += 1;
    }
    assert_eq!(n, 2);
    let mut none = screenplay::Elements::new(&doc, 0, 0);
    assert_eq!(none.next(), None);
}
