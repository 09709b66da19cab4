use screenplay::{Document, ElmType};

fn kinds_and_texts(doc: &Document) -> Vec<(ElmType, usize, String)> {
    let mut out = Vec::new();
    let mut it = doc.elements();
    while let Some(e) = it.next() {
        out.push((e.elm_type(), e.offset(), e.text().to_string()));
    }
    out
}

#[test]
fn character_block_scenario() {
    let doc = Document::from_text("EDWARD\n(shaking his head)\nJesus Christ.");
    let got = kinds_and_texts(&doc);
    assert_eq!(
        got,
        vec![
            (ElmType::Character, 0, "EDWARD".to_string()),
            (ElmType::Parenthetical, 7, "(shaking his head)".to_string()),
            (ElmType::Dialogue, 26, "Jesus Christ.".to_string()),
        ]
    );
}

#[test]
fn underline_nested_in_dialogue() {
    let doc = Document::from_text("WILL\nNo Dad.  _I_ do not like it.");
    let got = kinds_and_texts(&doc);
    assert_eq!(got.len(), 3);
    assert_eq!(got[0], (ElmType::Character, 0, "WILL".to_string()));
    assert_eq!(
        got[1],
        (ElmType::Dialogue, 5, "No Dad.  _I_ do not like it.".to_string())
    );
    assert_eq!(got[2], (ElmType::Underline, 14, "_I_".to_string()));
    // the underline lies inside the dialogue span
    assert!(got[1].1 <= got[2].1);
    assert!(got[2].1 + got[2].2.len() <= got[1].1 + got[1].2.len());
}

#[test]
fn forced_heading() {
    let doc = Document::from_text(".INT. HOUSE");
    let got = kinds_and_texts(&doc);
    assert_eq!(got, vec![(ElmType::Heading, 0, ".INT. HOUSE".to_string())]);
}

#[test]
fn page_break_four_equals() {
    let doc = Document::from_text("====");
    let got = kinds_and_texts(&doc);
    assert_eq!(got, vec![(ElmType::PageBreak, 0, "====".to_string())]);
}

#[test]
fn boneyard_spans_two_lines() {
    let text = "/* note\nspanning two lines */";
    let doc = Document::from_text(text);
    let got = kinds_and_texts(&doc);
    // the boneyard covers both lines; classification still runs over the
    // same text, so neither line's structural element is suppressed
    assert_eq!(
        got,
        vec![
            (ElmType::Boneyard, 0, text.to_string()),
            (ElmType::Action, 0, "/* note".to_string()),
            (ElmType::Action, 8, "spanning two lines */".to_string()),
        ]
    );
}

#[test]
fn heading_heuristics() {
    let doc = Document::from_text("INT. HOUSE");
    assert_eq!(
        kinds_and_texts(&doc),
        vec![(ElmType::Heading, 0, "INT. HOUSE".to_string())]
    );
    let doc = Document::from_text("EXT. LAWN");
    assert_eq!(
        kinds_and_texts(&doc),
        vec![(ElmType::Heading, 0, "EXT. LAWN".to_string())]
    );
    let doc = Document::from_text("I/E CAR");
    assert_eq!(
        kinds_and_texts(&doc),
        vec![(ElmType::Heading, 0, "I/E CAR".to_string())]
    );
}

#[test]
fn transition_heuristic() {
    let doc = Document::from_text("CUT TO:");
    assert_eq!(
        kinds_and_texts(&doc),
        vec![(ElmType::Transition, 0, "CUT TO:".to_string())]
    );
    // lowercase text ending in TO: is plain action
    let doc = Document::from_text("cut to:");
    assert_eq!(
        kinds_and_texts(&doc),
        vec![(ElmType::Action, 0, "cut to:".to_string())]
    );
}

#[test]
fn forced_markers() {
    let doc = Document::from_text("!BANG");
    assert_eq!(
        kinds_and_texts(&doc),
        vec![(ElmType::Action, 0, "!BANG".to_string())]
    );
    let doc = Document::from_text("~la la la");
    assert_eq!(
        kinds_and_texts(&doc),
        vec![(ElmType::Lyric, 0, "~la la la".to_string())]
    );
    let doc = Document::from_text("@McAVOY\nHello.");
    assert_eq!(
        kinds_and_texts(&doc),
        vec![
            (ElmType::Character, 0, "@McAVOY".to_string()),
            (ElmType::Dialogue, 8, "Hello.".to_string()),
        ]
    );
}

#[test]
fn centered_and_transition_forced() {
    let doc = Document::from_text("> THE END <");
    assert_eq!(
        kinds_and_texts(&doc),
        vec![(ElmType::Centered, 0, "> THE END <".to_string())]
    );
    let doc = Document::from_text("> SMASH CUT");
    assert_eq!(
        kinds_and_texts(&doc),
        vec![(ElmType::Transition, 0, "> SMASH CUT".to_string())]
    );
}

#[test]
fn note_span() {
    let doc = Document::from_text("[[fix this later]]");
    let got = kinds_and_texts(&doc);
    assert_eq!(
        got,
        vec![
            (ElmType::Action, 0, "[[fix this later]]".to_string()),
            (ElmType::Note, 0, "[[fix this later]]".to_string()),
        ]
    );
}

#[test]
fn emphasis_levels() {
    let doc = Document::from_text("*it* **bo** ***bi***");
    let got = kinds_and_texts(&doc);
    assert_eq!(
        got,
        vec![
            (ElmType::Action, 0, "*it* **bo** ***bi***".to_string()),
            (ElmType::Italic, 0, "*it*".to_string()),
            (ElmType::Bold, 5, "**bo**".to_string()),
            (ElmType::BoldItalic, 12, "***bi***".to_string()),
        ]
    );
}

#[test]
fn nested_emphasis_outer_first() {
    let doc = Document::from_text("*a **b** c*");
    let got = kinds_and_texts(&doc);
    assert_eq!(
        got,
        vec![
            (ElmType::Action, 0, "*a **b** c*".to_string()),
            (ElmType::Italic, 0, "*a **b** c*".to_string()),
            (ElmType::Bold, 3, "**b**".to_string()),
        ]
    );
}

#[test]
fn dialogue_merges_continuation_lines() {
    let doc = Document::from_text("BOB\nline one\nline two\n\nAfter");
    assert_eq!(
        kinds_and_texts(&doc),
        vec![
            (ElmType::Character, 0, "BOB".to_string()),
            (ElmType::Dialogue, 4, "line one\nline two".to_string()),
            (ElmType::Action, 23, "After".to_string()),
        ]
    );
}

#[test]
fn dialogue_forced_break_with_two_spaces() {
    let doc = Document::from_text("BOB\nline one\n  \nline two");
    assert_eq!(
        kinds_and_texts(&doc),
        vec![
            (ElmType::Character, 0, "BOB".to_string()),
            (ElmType::Dialogue, 4, "line one\n  \nline two".to_string()),
        ]
    );
}

#[test]
fn unclosed_markers_produce_no_span() {
    let doc = Document::from_text("a /* never closed\n_lost [[note");
    let got = kinds_and_texts(&doc);
    for (k, _, _) in &got {
        assert!(matches!(k, ElmType::Action));
    }
    assert_eq!(got.len(), 2);
}

#[test]
fn multibyte_text_offsets() {
    let text = "\u{5360} \u{5360}\u{5360}\u{70b9}";
    let doc = Document::from_text(text);
    assert_eq!(
        kinds_and_texts(&doc),
        vec![(ElmType::Action, 0, text.to_string())]
    );
    let doc = Document::from_text("_\u{5360}_ x");
    let got = kinds_and_texts(&doc);
    assert_eq!(got[0], (ElmType::Action, 0, "_\u{5360}_ x".to_string()));
    assert_eq!(got[1], (ElmType::Underline, 0, "_\u{5360}_".to_string()));
}

#[test]
fn lookahead_decides_heading_or_character() {
    // with a blank (or absent) next line the uppercase scene line is a
    // heading; with content following it is a character cue
    let doc = Document::from_text("INT. HOUSE\n\nBob enters.");
    assert_eq!(
        kinds_and_texts(&doc),
        vec![
            (ElmType::Heading, 0, "INT. HOUSE".to_string()),
            (ElmType::Action, 12, "Bob enters.".to_string()),
        ]
    );
    let doc = Document::from_text("INT. HOUSE\nBob enters.");
    assert_eq!(
        kinds_and_texts(&doc),
        vec![
            (ElmType::Character, 0, "INT. HOUSE".to_string()),
            (ElmType::Dialogue, 11, "Bob enters.".to_string()),
        ]
    );
}

#[test]
fn page_break_edges() {
    let doc = Document::from_text("===   ");
    assert_eq!(
        kinds_and_texts(&doc),
        vec![(ElmType::PageBreak, 0, "===".to_string())]
    );
    let doc = Document::from_text("==");
    assert_eq!(
        kinds_and_texts(&doc),
        vec![(ElmType::Action, 0, "==".to_string())]
    );
}

#[test]
fn parenthetical_only_inside_character_block() {
    let doc = Document::from_text("(alone)");
    assert_eq!(
        kinds_and_texts(&doc),
        vec![(ElmType::Action, 0, "(alone)".to_string())]
    );
}

#[test]
fn boneyard_delimiters_are_not_shared() {
    // the '/' that closes one boneyard cannot open the next: one span only
    let doc = Document::from_text("/*a*/*b*/");
    assert_eq!(
        kinds_and_texts(&doc),
        vec![
            (ElmType::Action, 0, "/*a*/*b*/".to_string()),
            (ElmType::Boneyard, 0, "/*a*/".to_string()),
        ]
    );
    // back-to-back boneyards with their own delimiters both close
    let doc = Document::from_text("/*a*//*b*/");
    assert_eq!(
        kinds_and_texts(&doc),
        vec![
            (ElmType::Action, 0, "/*a*//*b*/".to_string()),
            (ElmType::Boneyard, 0, "/*a*/".to_string()),
            (ElmType::Boneyard, 5, "/*b*/".to_string()),
        ]
    );
}

#[test]
fn smallest_boneyard_needs_both_delimiters() {
    // the opener's '*' cannot double as the closer's '*'
    let doc = Document::from_text("/*/");
    assert_eq!(
        kinds_and_texts(&doc),
        vec![(ElmType::Action, 0, "/*/".to_string())]
    );
    let doc = Document::from_text("/**/");
    assert_eq!(
        kinds_and_texts(&doc),
        vec![
            (ElmType::Action, 0, "/**/".to_string()),
            (ElmType::Boneyard, 0, "/**/".to_string()),
        ]
    );
}

#[test]
fn same_kind_spans_never_overlap() {
    let text = "[[a]][[b]] /*x*/*y*/";
    let spans = screenplay::parse_str(text, 0);
    let notes: Vec<_> = spans
        .iter()
        .filter(|s| s.elm_type == ElmType::Note)
        .collect();
    let bones: Vec<_> = spans
        .iter()
        .filter(|s| s.elm_type == ElmType::Boneyard)
        .collect();
    assert_eq!((notes[0].start, notes[0].end), (0, 4));
    assert_eq!((notes[1].start, notes[1].end), (5, 9));
    assert_eq!(bones.len(), 1);
    assert_eq!((bones[0].start, bones[0].end), (11, 15));
    for a in &spans {
        for b in &spans {
            if (a.start, a.end) != (b.start, b.end) && a.elm_type == b.elm_type {
                assert!(a.end < b.start || b.end < a.start);
            }
        }
    }
}
