use autocorrect::bytes::{byte_offsets, char_width};
use autocorrect::charclass::{classify, CharClass};
use autocorrect::engine::{correct, lint};
use autocorrect::grammar::{FaultKind, ParseError};
use autocorrect::java::segment_java;
use autocorrect::registry::{Language, SourceDocument};
use autocorrect::result::CoreError;
use autocorrect::rules::{lookup_rule, rule_at, RuleId};
use autocorrect::span::{Span, SpanKind, SpanTree};

fn chars(text: &str) -> Vec<char> {
    text.chars().collect()
}

#[test]
fn java_document_is_segmented() {
    let doc = chars("int a; // 中a\n/** 文 */ s = \"x\" + \"\"\"t\"\"\" + 'c' /* b */");
    let tree = segment_java(&doc).unwrap();
    let spans: Vec<(usize, usize, SpanKind)> =
        tree.nodes.iter().map(|s| (s.start, s.end, s.kind)).collect();
    assert_eq!(
        spans,
        vec![
            (0, doc.len(), SpanKind::Code),
            (7, 12, SpanKind::Comment),
            (13, 21, SpanKind::DocComment),
            (26, 29, SpanKind::StringLiteral),
            (32, 39, SpanKind::StringLiteral),
            (46, 53, SpanKind::Comment),
        ]
    );
}

#[test]
fn empty_comment_is_no_doc_comment() {
    let doc = chars("/**//***/");
    let tree = segment_java(&doc).unwrap();
    let spans: Vec<(usize, usize, SpanKind)> =
        tree.nodes.iter().map(|s| (s.start, s.end, s.kind)).collect();
    assert_eq!(
        spans,
        vec![(0, 9, SpanKind::Code), (0, 4, SpanKind::Comment), (4, 9, SpanKind::DocComment)]
    );
}

#[test]
fn a_document_that_is_one_comment() {
    let doc = chars("// 中a");
    let tree = segment_java(&doc).unwrap();
    assert_eq!(tree.nodes.len(), 2);
    assert_eq!(tree.nodes[1], Span { start: 0, end: 5, kind: SpanKind::Comment });
    let out: String = correct(&tree, &doc).into_iter().collect();
    assert_eq!(out, "// 中 a");
}

#[test]
fn owners_are_the_innermost_spans() {
    let tree = SpanTree {
        nodes: vec![
            Span { start: 0, end: 10, kind: SpanKind::Code },
            Span { start: 2, end: 8, kind: SpanKind::Comment },
            Span { start: 3, end: 5, kind: SpanKind::StringLiteral },
            Span { start: 9, end: 10, kind: SpanKind::PlainText },
        ],
    };
    assert_eq!(tree.owners(10), vec![0, 0, 1, 2, 2, 1, 1, 1, 0, 3]);
}

#[test]
fn nested_spans_are_corrected_apart() {
    let doc = chars("中a中a中a中a");
    let tree = SpanTree {
        nodes: vec![
            Span { start: 0, end: 8, kind: SpanKind::Code },
            Span { start: 1, end: 7, kind: SpanKind::Markup },
            Span { start: 3, end: 5, kind: SpanKind::Code },
        ],
    };
    let out: String = correct(&tree, &doc).into_iter().collect();
    assert_eq!(out, "中a 中a中a 中a");
    let found = lint(&tree, &doc);
    let offsets: Vec<usize> = found.iter().map(|d| d.offset).collect();
    assert_eq!(offsets, vec![1, 5]);
}

#[test]
fn every_text_kind_is_corrected() {
    for kind in [
        SpanKind::Comment,
        SpanKind::DocComment,
        SpanKind::StringLiteral,
        SpanKind::Markup,
        SpanKind::PlainText,
    ] {
        assert!(kind.is_correctable());
        let doc = chars("中a");
        let tree = SpanTree { nodes: vec![Span { start: 0, end: 2, kind }] };
        let out: String = correct(&tree, &doc).into_iter().collect();
        assert_eq!(out, "中 a");
    }
    assert!(!SpanKind::Code.is_correctable());
}

#[test]
fn byte_spans_follow_the_encoding() {
    let doc = chars("a// 中é\u{20000}b");
    let tree = segment_java(&doc).unwrap();
    assert_eq!(byte_offsets(&doc), Some(vec![0, 1, 2, 3, 4, 7, 9, 13, 14]));
    let spans = tree.byte_spans(&doc).unwrap();
    assert_eq!(spans[0], Span { start: 0, end: 14, kind: SpanKind::Code });
    assert_eq!(spans[1], Span { start: 1, end: 14, kind: SpanKind::Comment });
    let text: String = doc.iter().collect();
    assert_eq!(text.len(), 14);
    assert_eq!(&text[1..14], "// 中é\u{20000}b");
}

#[test]
fn character_widths() {
    assert_eq!(char_width('a'), 1);
    assert_eq!(char_width('\u{7f}'), 1);
    assert_eq!(char_width('\u{80}'), 2);
    assert_eq!(char_width('\u{7ff}'), 2);
    assert_eq!(char_width('\u{800}'), 3);
    assert_eq!(char_width('\u{ffff}'), 3);
    assert_eq!(char_width('\u{10000}'), 4);
    assert_eq!(char_width('\u{10ffff}'), 4);
}

#[test]
fn characters_are_classified() {
    assert_eq!(classify('中'), CharClass::Cjk);
    assert_eq!(classify('ひ'), CharClass::Cjk);
    assert_eq!(classify('カ'), CharClass::Cjk);
    assert_eq!(classify('한'), CharClass::Cjk);
    assert_eq!(classify('\u{20000}'), CharClass::Cjk);
    assert_eq!(classify('a'), CharClass::Letter);
    assert_eq!(classify('Z'), CharClass::Letter);
    assert_eq!(classify('0'), CharClass::Digit);
    assert_eq!(classify('9'), CharClass::Digit);
    assert_eq!(classify('１'), CharClass::Digit);
    assert_eq!(classify(' '), CharClass::Space);
    assert_eq!(classify('\n'), CharClass::Space);
    assert_eq!(classify('\u{3000}'), CharClass::Space);
    assert_eq!(classify('"'), CharClass::Quote);
    assert_eq!(classify('“'), CharClass::Quote);
    assert_eq!(classify('「'), CharClass::Quote);
    assert_eq!(classify('\u{ff0c}'), CharClass::CjkPunct);
    assert_eq!(classify('。'), CharClass::CjkPunct);
    assert_eq!(classify(','), CharClass::AsciiPunct);
    assert_eq!(classify('/'), CharClass::AsciiPunct);
    assert_eq!(classify('\\'), CharClass::AsciiPunct);
    assert_eq!(classify('é'), CharClass::Other);
    assert_eq!(classify('Ａ'), CharClass::Other);
    assert_eq!(classify('\u{0}'), CharClass::Other);
}

#[test]
fn the_rule_table() {
    assert_eq!(lookup_rule(CharClass::Cjk, CharClass::Letter), Some(RuleId::SpaceCjkLetter));
    assert_eq!(lookup_rule(CharClass::Letter, CharClass::Cjk), Some(RuleId::SpaceCjkLetter));
    assert_eq!(lookup_rule(CharClass::Cjk, CharClass::Digit), Some(RuleId::SpaceCjkDigit));
    assert_eq!(lookup_rule(CharClass::Digit, CharClass::Cjk), Some(RuleId::SpaceCjkDigit));
    assert_eq!(lookup_rule(CharClass::Cjk, CharClass::Cjk), None);
    assert_eq!(lookup_rule(CharClass::Letter, CharClass::Digit), None);
    assert_eq!(lookup_rule(CharClass::Cjk, CharClass::Space), None);
    assert_eq!(lookup_rule(CharClass::Cjk, CharClass::Quote), None);
    assert_eq!(lookup_rule(CharClass::CjkPunct, CharClass::Letter), None);
    assert_eq!(rule_at('中', 'a'), Some(RuleId::SpaceCjkLetter));
    assert_eq!(rule_at('1', '中'), Some(RuleId::SpaceCjkDigit));
    assert_eq!(rule_at('中', ' '), None);
}

#[test]
fn a_source_document_goes_through_its_grammar() {
    let doc = SourceDocument::new("int a; // 中a", Language::Java);
    assert_eq!(doc.language, Language::Java);
    assert_eq!(doc.text.len(), 12);
    let tree = doc.segment().unwrap();
    assert_eq!(tree.nodes.len(), 2);
    let result = doc.format();
    assert_eq!(result.text, "int a; // 中 a");
    assert_eq!(result.error, None);
    let report = doc.lint();
    assert_eq!(report.filepath, "");
    assert_eq!(report.diagnostics.len(), 1);
    assert_eq!(report.hunks, "@@ -1 +1 @@\n-int a; // 中a\n+int a; // 中 a\n");
}

#[test]
fn a_source_document_that_cannot_be_segmented() {
    let doc = SourceDocument::new("int a; /* 中a", Language::Java);
    let fault = doc.segment().err().unwrap();
    assert_eq!(fault, ParseError { offset: 7, kind: FaultKind::UnterminatedComment });
    let result = doc.format();
    assert_eq!(result.text, "int a; /* 中a");
    assert_eq!(result.error, Some(CoreError::Parse(fault)));
    let report = doc.lint();
    assert_eq!(report.diagnostics.len(), 0);
    assert_eq!(report.hunks, "");
    assert_eq!(report.error, Some(CoreError::Parse(fault)));
}
