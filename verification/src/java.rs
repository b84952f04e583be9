//! The grammar of Java sources: comments, string literals and text blocks
//! are text; everything else is code.

use crate::engine::{correct, corrected, diff, doc_diff};
use crate::grammar::{
    block_end, find_block_end, find_illegal, find_line_end, find_literal_end, find_text_block_end,
    first_illegal, lemma_scan_bounds, line_end, literal_end, text_block_end, Fault, FaultKind,
    ParseError,
};
use crate::engine::{doc_findings, doc_gap};
use crate::span::{extents, well_formed, Extent, Span, SpanKind, SpanTree};
use crate::spacing::{moved, with_spaces};
use crate::stability::{
    fitting, inert, lemma_block_end_moved, lemma_corrected_is_settled, lemma_line_end_moved,
    lemma_literal_end_moved, lemma_moved_len, lemma_moved_order, lemma_no_illegal_moved,
    lemma_space_before, lemma_step, lemma_text_block_end_moved, moved_extent, moved_extents,
};
use crate::text::{chars_of, string_of};
use vstd::prelude::*;

verus! {

/// The rules of the grammar.
#[derive(Clone, Copy, Debug, PartialEq, Eq, Structural)]
pub enum JavaRule {
    /// `// ...` up to the end of the line.
    LineComment,
    /// `/* ... */`.
    BlockComment,
    /// `/** ... */`.
    DocComment,
    /// `"..."` on one line.
    StringLiteral,
    /// `""" ... """`.
    TextBlock,
    /// `'.'`: skipped as a whole, so that a quote in it opens no string.
    CharLiteral,
    /// Any other single character.
    Other,
}

/// The kind of span that each rule yields.
pub open spec fn java_kind(rule: JavaRule) -> SpanKind {
    match rule {
        JavaRule::LineComment => SpanKind::Comment,
        JavaRule::BlockComment => SpanKind::Comment,
        JavaRule::DocComment => SpanKind::DocComment,
        JavaRule::StringLiteral => SpanKind::StringLiteral,
        JavaRule::TextBlock => SpanKind::StringLiteral,
        JavaRule::CharLiteral => SpanKind::Code,
        JavaRule::Other => SpanKind::Code,
    }
}

/// Looks a rule up in the table of kinds.
pub fn kind_of_rule(rule: JavaRule) -> (kind: SpanKind)
    ensures
        kind == java_kind(rule),
{
    match rule {
        JavaRule::LineComment => SpanKind::Comment,
        JavaRule::BlockComment => SpanKind::Comment,
        JavaRule::DocComment => SpanKind::DocComment,
        JavaRule::StringLiteral => SpanKind::StringLiteral,
        JavaRule::TextBlock => SpanKind::StringLiteral,
        JavaRule::CharLiteral => SpanKind::Code,
        JavaRule::Other => SpanKind::Code,
    }
}

/// The piece of the document that starts at `p`: the rule that matches
/// there and the offset behind the piece, or what is wrong with it.
pub open spec fn java_lexeme(doc: Seq<char>, p: int) -> Result<(JavaRule, int), FaultKind> {
    let n = doc.len();
    let c = doc[p];
    if c == '/' && p + 1 < n && doc[p + 1] == '/' {
        Ok((JavaRule::LineComment, line_end(doc, p + 2)))
    } else if c == '/' && p + 1 < n && doc[p + 1] == '*' {
        match block_end(doc, p + 2) {
            Some(e) => Ok(
                (
                    if doc[p + 2] == '*' && e > p + 4 {
                        JavaRule::DocComment
                    } else {
                        JavaRule::BlockComment
                    },
                    e,
                ),
            ),
            None => Err(FaultKind::UnterminatedComment),
        }
    } else if c == '"' {
        if p + 2 < n && doc[p + 1] == '"' && doc[p + 2] == '"' {
            match text_block_end(doc, p + 3) {
                Some(e) => Ok((JavaRule::TextBlock, e)),
                None => Err(FaultKind::UnterminatedString),
            }
        } else {
            match literal_end(doc, p + 1, '"') {
                Some(e) => Ok((JavaRule::StringLiteral, e)),
                None => Err(FaultKind::UnterminatedString),
            }
        }
    } else if c == '\'' {
        match literal_end(doc, p + 1, '\'') {
            Some(e) => Ok((JavaRule::CharLiteral, e)),
            None => Ok((JavaRule::Other, p + 1)),
        }
    } else {
        Ok((JavaRule::Other, p + 1))
    }
}

/// A piece is not empty and ends inside the document.
pub proof fn lemma_java_lexeme_bounds(doc: Seq<char>, p: int)
    requires
        0 <= p < doc.len(),
    ensures
        java_lexeme(doc, p) is Ok ==> p < java_lexeme(doc, p)->Ok_0.1 <= doc.len(),
{
    lemma_scan_bounds(doc, p + 1, '"');
    lemma_scan_bounds(doc, p + 1, '\'');
    if p + 1 < doc.len() {
        lemma_scan_bounds(doc, p + 2, '"');
    }
    if p + 2 < doc.len() {
        lemma_scan_bounds(doc, p + 3, '"');
    }
}

/// The text spans of the document from `p` on, in order: one for each piece
/// whose rule yields text.
pub open spec fn java_spans(doc: Seq<char>, p: int) -> Result<Seq<Extent>, Fault>
    decreases doc.len() - p,
    via java_spans_decreases
{
    if p < 0 || p >= doc.len() {
        Ok(Seq::empty())
    } else {
        match java_lexeme(doc, p) {
            Err(kind) => Err(Fault { offset: p, kind }),
            Ok((rule, e)) => match java_spans(doc, e) {
                Err(fault) => Err(fault),
                Ok(rest) => if java_kind(rule).correctable() {
                    Ok(seq![Extent { start: p, end: e, kind: java_kind(rule) }] + rest)
                } else {
                    Ok(rest)
                },
            },
        }
    }
}

#[via_fn]
proof fn java_spans_decreases(doc: Seq<char>, p: int) {
    if 0 <= p < doc.len() {
        lemma_java_lexeme_bounds(doc, p);
    }
}

/// The span tree of a Java document: the root, which is code and spans the
/// document, and under it the text spans. A document that holds an illegal
/// character has none, nor has one with an unclosed comment or string.
pub open spec fn java_tree(doc: Seq<char>) -> Result<Seq<Extent>, Fault> {
    if first_illegal(doc, 0) < doc.len() {
        Err(Fault { offset: first_illegal(doc, 0), kind: FaultKind::IllegalControl })
    } else {
        match java_spans(doc, 0) {
            Err(fault) => Err(fault),
            Ok(spans) => Ok(
                seq![Extent { start: 0, end: doc.len() as int, kind: SpanKind::Code }] + spans,
            ),
        }
    }
}

/// The text spans are non-empty, lie inside the document behind `p`, and
/// each lies wholly behind the one before it.
pub proof fn lemma_java_spans_ordered(doc: Seq<char>, p: int)
    requires
        0 <= p <= doc.len(),
        java_spans(doc, p) is Ok,
    ensures
        forall|k: int|
            0 <= k < java_spans(doc, p)->Ok_0.len() ==> {
                let x = #[trigger] java_spans(doc, p)->Ok_0[k];
                p <= x.start < x.end <= doc.len() && x.kind.correctable()
            },
        forall|j: int, k: int|
            0 <= j < k < java_spans(doc, p)->Ok_0.len() ==> (#[trigger] java_spans(
                doc,
                p,
            )->Ok_0[j]).end <= (#[trigger] java_spans(doc, p)->Ok_0[k]).start,
    decreases doc.len() - p,
{
    if p < doc.len() {
        lemma_java_lexeme_bounds(doc, p);
        lemma_java_spans_ordered(doc, java_lexeme(doc, p)->Ok_0.1);
    }
}

/// The span tree of a Java document is well formed.
pub proof fn lemma_java_tree_well_formed(doc: Seq<char>)
    requires
        java_tree(doc) is Ok,
    ensures
        well_formed(java_tree(doc)->Ok_0, doc.len() as int),
{
    lemma_java_spans_ordered(doc, 0);
    let spans = java_spans(doc, 0)->Ok_0;
    let nodes = java_tree(doc)->Ok_0;
    assert forall|k: int| 1 <= k < nodes.len() implies 0 <= (#[trigger] nodes[k]).start
        < nodes[k].end <= doc.len() by {
        assert(nodes[k] == spans[k - 1]);
    }
    assert forall|j: int, k: int| 0 <= j < k < nodes.len() implies {
        ||| (#[trigger] nodes[j]).start <= (#[trigger] nodes[k]).start && nodes[k].end
            <= nodes[j].end
        ||| nodes[j].end <= nodes[k].start
    } by {
        assert(nodes[k] == spans[k - 1]);
        if j > 0 {
            assert(nodes[j] == spans[j - 1]);
        }
    }
}

/// A piece of a document: the rule that matched and the offset behind it.
#[derive(Clone, Copy, Debug, PartialEq, Eq, Structural)]
pub struct JavaToken {
    pub rule: JavaRule,
    pub end: usize,
}

/// Reads the piece that starts at `p`.
pub fn next_token(doc: &Vec<char>, p: usize) -> (token: Result<JavaToken, FaultKind>)
    requires
        p < doc@.len(),
    ensures
        match token {
            Ok(t) => java_lexeme(doc@, p as int) == Ok::<(JavaRule, int), FaultKind>(
                (t.rule, t.end as int),
            ),
            Err(kind) => java_lexeme(doc@, p as int) == Err::<(JavaRule, int), FaultKind>(kind),
        },
{
    let n = doc.len();
    let c = doc[p];
    if c == '/' && n - p >= 2 && doc[p + 1] == '/' {
        Ok(JavaToken { rule: JavaRule::LineComment, end: find_line_end(doc, p + 2) })
    } else if c == '/' && n - p >= 2 && doc[p + 1] == '*' {
        proof {
            lemma_scan_bounds(doc@, p + 2, '"');
        }
        match find_block_end(doc, p + 2) {
            Some(e) => {
                let rule = if doc[p + 2] == '*' && e - p > 4 {
                    JavaRule::DocComment
                } else {
                    JavaRule::BlockComment
                };
                Ok(JavaToken { rule, end: e })
            },
            None => Err(FaultKind::UnterminatedComment),
        }
    } else if c == '"' {
        if n - p >= 3 && doc[p + 1] == '"' && doc[p + 2] == '"' {
            match find_text_block_end(doc, p + 3) {
                Some(e) => Ok(JavaToken { rule: JavaRule::TextBlock, end: e }),
                None => Err(FaultKind::UnterminatedString),
            }
        } else {
            match find_literal_end(doc, p + 1, '"') {
                Some(e) => Ok(JavaToken { rule: JavaRule::StringLiteral, end: e }),
                None => Err(FaultKind::UnterminatedString),
            }
        }
    } else if c == '\'' {
        match find_literal_end(doc, p + 1, '\'') {
            Some(e) => Ok(JavaToken { rule: JavaRule::CharLiteral, end: e }),
            None => Ok(JavaToken { rule: JavaRule::Other, end: p + 1 }),
        }
    } else {
        Ok(JavaToken { rule: JavaRule::Other, end: p + 1 })
    }
}

/// `spans` put before the spans of a result.
pub open spec fn behind(spans: Seq<Extent>, rest: Result<Seq<Extent>, Fault>) -> Result<
    Seq<Extent>,
    Fault,
> {
    match rest {
        Ok(more) => Ok(spans + more),
        Err(fault) => Err(fault),
    }
}

/// Segments a Java document into its span tree. Fails as a whole, with the
/// first offending offset, where the document holds an illegal character or
/// an unclosed comment or string.
pub fn segment_java(doc: &Vec<char>) -> (tree: Result<SpanTree, ParseError>)
    ensures
        match tree {
            Ok(t) => java_tree(doc@) == Ok::<Seq<Extent>, Fault>(t@) && t.wf(doc@.len() as int),
            Err(e) => java_tree(doc@) == Err::<Seq<Extent>, Fault>(e@),
        },
{
    let n = doc.len();
    let bad = find_illegal(doc, 0);
    if bad < n {
        return Err(ParseError { offset: bad, kind: FaultKind::IllegalControl });
    }
    let root = Span { start: 0, end: n, kind: SpanKind::Code };
    let mut nodes: Vec<Span> = Vec::new();
    nodes.push(root);
    let ghost top = seq![root@];
    let mut p: usize = 0;
    assert(extents(nodes@) == top + Seq::<Extent>::empty());
    assert(behind(Seq::empty(), java_spans(doc@, 0)) == java_spans(doc@, 0));
    let ghost mut found: Seq<Extent> = Seq::empty();
    while p < n
        invariant
            n == doc@.len(),
            p <= n,
            top == seq![root@],
            root@ == (Extent { start: 0, end: n as int, kind: SpanKind::Code }),
            first_illegal(doc@, 0) >= n,
            extents(nodes@) == top + found,
            java_spans(doc@, 0) == behind(found, java_spans(doc@, p as int)),
        decreases n - p,
    {
        proof {
            lemma_java_lexeme_bounds(doc@, p as int);
        }
        match next_token(doc, p) {
            Err(kind) => {
                return Err(ParseError { offset: p, kind });
            },
            Ok(token) => {
                let kind = kind_of_rule(token.rule);
                if kind.is_correctable() {
                    let span = Span { start: p, end: token.end, kind };
                    let ghost before = nodes@;
                    nodes.push(span);
                    proof {
                        assert(extents(nodes@) == extents(before).push(span@));
                        let rest = java_spans(doc@, token.end as int);
                        assert(behind(found, behind(seq![span@], rest)) == behind(
                            found.push(span@),
                            rest,
                        )) by {
                            if rest is Ok {
                                assert(found + (seq![span@] + rest->Ok_0) == found.push(span@)
                                    + rest->Ok_0);
                            }
                        }
                        assert(java_spans(doc@, p as int) == behind(seq![span@], rest));
                        found = found.push(span@);
                        assert(extents(nodes@) == top + found);
                    }
                } else {
                    proof {
                        let rest = java_spans(doc@, token.end as int);
                        assert(java_spans(doc@, p as int) == rest);
                    }
                }
                p = token.end;
            },
        }
    }
    proof {
        assert(found + Seq::<Extent>::empty() == found);
    }
    let tree = SpanTree { nodes };
    proof {
        lemma_java_tree_well_formed(doc@);
    }
    Ok(tree)
}

/// What `format_java` returns for the text `doc`: the document unchanged
/// where it cannot be segmented; else its diff in lint mode, and its
/// corrected form otherwise.
pub open spec fn java_output(doc: Seq<char>, lint: bool) -> Seq<char> {
    match java_tree(doc) {
        Err(_) => doc,
        Ok(nodes) => if lint {
            doc_diff(doc, nodes)
        } else {
            corrected(doc, nodes)
        },
    }
}

/// Corrects the comments and string literals of a Java source, or, in lint
/// mode, reports the lines that correction would change. A source that
/// cannot be segmented is returned as it is.
pub fn format_java(text: &str, lint: bool) -> (out: String)
    ensures
        out@ == java_output(text@, lint),
{
    let doc = chars_of(text);
    match segment_java(&doc) {
        Err(_) => string_of(&doc),
        Ok(tree) => {
            if lint {
                string_of(&diff(&tree, &doc))
            } else {
                string_of(&correct(&tree, &doc))
            }
        },
    }
}

/// The piece at `p` of the original stands in the corrected document at the
/// place of `p`, under the same rule, and ends where it ended; a single
/// character is still a single character.
pub proof fn lemma_java_lexeme_moved(doc: Seq<char>, gap: spec_fn(int) -> bool, p: int)
    requires
        fitting(doc, gap),
        0 <= p < doc.len(),
    ensures
        java_lexeme(with_spaces(doc, gap), moved(gap, p)) == match java_lexeme(doc, p) {
            Err(kind) => Err::<(JavaRule, int), FaultKind>(kind),
            Ok((rule, e)) => Ok(
                (
                    rule,
                    if rule is Other {
                        moved(gap, p) + 1
                    } else {
                        moved(gap, e)
                    },
                ),
            ),
        },
{
    lemma_moved_len(doc, gap);
    lemma_step(doc, gap, p);
    assert(inert('/') && inert('*') && inert('"') && inert('\''));
    if p + 1 < doc.len() {
        lemma_step(doc, gap, p + 1);
    }
    if p + 2 < doc.len() {
        lemma_step(doc, gap, p + 2);
    }
    let c = doc[p];
    if c == '/' && p + 1 < doc.len() && doc[p + 1] == '/' {
        lemma_line_end_moved(doc, gap, p + 2);
    } else if c == '/' && p + 1 < doc.len() && doc[p + 1] == '*' {
        lemma_block_end_moved(doc, gap, p + 2);
        lemma_scan_bounds(doc, p + 2, '"');
        if block_end(doc, p + 2) is Some {
            let e = block_end(doc, p + 2).unwrap();
            lemma_moved_order(gap, p + 2, e);
            if e == p + 4 {
                lemma_scan_bounds(doc, p + 3, '"');
                lemma_step(doc, gap, p + 3);
            }
        }
    } else if c == '"' {
        if p + 2 < doc.len() && doc[p + 1] == '"' && doc[p + 2] == '"' {
            lemma_text_block_end_moved(doc, gap, p + 3);
        } else {
            lemma_literal_end_moved(doc, gap, p + 1, '"');
        }
    } else if c == '\'' {
        lemma_literal_end_moved(doc, gap, p + 1, '\'');
    }
}

/// The spans of a result, moved.
pub open spec fn moved_spans(gap: spec_fn(int) -> bool, spans: Result<Seq<Extent>, Fault>) -> Result<
    Seq<Extent>,
    Fault,
> {
    match spans {
        Ok(list) => Ok(moved_extents(gap, list)),
        Err(fault) => Err(Fault { offset: moved(gap, fault.offset), kind: fault.kind }),
    }
}

/// The text spans of the corrected document are those of the original, moved.
pub proof fn lemma_java_spans_moved(doc: Seq<char>, gap: spec_fn(int) -> bool, p: int)
    requires
        fitting(doc, gap),
        0 <= p <= doc.len(),
    ensures
        java_spans(with_spaces(doc, gap), moved(gap, p)) == moved_spans(gap, java_spans(doc, p)),
        p > 0 && gap(p - 1) ==> java_spans(with_spaces(doc, gap), moved(gap, p) - 1) == moved_spans(
            gap,
            java_spans(doc, p),
        ),
    decreases doc.len() - p,
{
    lemma_moved_len(doc, gap);
    lemma_moved_order(gap, 0, p);
    if p < doc.len() {
        lemma_step(doc, gap, p);
        lemma_java_lexeme_moved(doc, gap, p);
        lemma_java_lexeme_bounds(doc, p);
        match java_lexeme(doc, p) {
            Err(kind) => {},
            Ok((rule, e)) => {
                lemma_java_spans_moved(doc, gap, e);
                match java_spans(doc, e) {
                    Err(fault) => {},
                    Ok(rest) => {
                        if java_kind(rule).correctable() {
                            let x = Extent { start: p, end: e, kind: java_kind(rule) };
                            assert(moved_extents(gap, seq![x] + rest) == seq![
                                moved_extent(gap, x),
                            ] + moved_extents(gap, rest));
                        }
                    },
                }
            },
        }
    } else {
        assert(moved_extents(gap, Seq::<Extent>::empty()) == Seq::<Extent>::empty());
    }
    if p > 0 && gap(p - 1) {
        lemma_space_before(doc, gap, p);
    }
}

/// The span tree of the corrected document is that of the original, moved.
pub proof fn lemma_java_tree_moved(doc: Seq<char>, gap: spec_fn(int) -> bool)
    requires
        fitting(doc, gap),
        java_tree(doc) is Ok,
    ensures
        java_tree(with_spaces(doc, gap)) == Ok::<Seq<Extent>, Fault>(
            moved_extents(gap, java_tree(doc)->Ok_0),
        ),
{
    lemma_no_illegal_moved(doc, gap);
    lemma_java_spans_moved(doc, gap, 0);
    lemma_moved_len(doc, gap);
    lemma_moved_order(gap, 0, 0);
    let root = Extent { start: 0, end: doc.len() as int, kind: SpanKind::Code };
    let spans = java_spans(doc, 0)->Ok_0;
    assert(moved_extents(gap, seq![root] + spans) == seq![moved_extent(gap, root)] + moved_extents(
        gap,
        spans,
    ));
}

/// Formatting is idempotent: a Java source that has been formatted is left
/// as it is when it is formatted again, and lint then reports no line of it.
pub proof fn lemma_format_java_idempotent(doc: Seq<char>)
    ensures
        java_output(java_output(doc, false), false) == java_output(doc, false),
        java_tree(doc) is Ok ==> java_tree(java_output(doc, false)) is Ok && doc_findings(
            java_output(doc, false),
            java_tree(java_output(doc, false))->Ok_0,
        ).len() == 0,
{
    if java_tree(doc) is Ok {
        let nodes = java_tree(doc)->Ok_0;
        lemma_java_tree_well_formed(doc);
        lemma_corrected_is_settled(doc, nodes);
        lemma_java_tree_moved(doc, doc_gap(doc, nodes));
    }
}

} // verus!
