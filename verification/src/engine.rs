//! The correction engine: walks a document by its span tree, leaves code as
//! it is and applies the rules inside each correctable span.

use crate::diagnostic::{
    finding_at, findings, findings_of, lemma_line_bounds, line_of, line_start, make_diagnostic,
    Diagnostic, Finding,
};
use crate::grammar::{find_line_end, lemma_scan_bounds, line_end};
use crate::rules::{needs_space, rule_at};
use crate::span::{joined, owner, Extent, SpanTree};
use crate::spacing::{
    lemma_unchanged_when_same_length, lemma_with_spaces_ext, lemma_with_spaces_len, with_spaces,
};
use crate::text::{digits, push_decimal, push_range, push_str};
use vstd::prelude::*;

verus! {

/// The gaps of `doc` that correction fills: both characters lie in the same
/// innermost span, that span is correctable, and a rule fires between them.
pub open spec fn doc_gap(doc: Seq<char>, nodes: Seq<Extent>) -> spec_fn(int) -> bool {
    |i: int| 0 <= i && i + 1 < doc.len() && joined(nodes, i) && needs_space(doc[i], doc[i + 1])
}

/// The corrected document.
pub open spec fn corrected(doc: Seq<char>, nodes: Seq<Extent>) -> Seq<char> {
    with_spaces(doc, doc_gap(doc, nodes))
}

/// What lint reports of a document: one finding for each gap that
/// correction fills.
pub open spec fn doc_findings(doc: Seq<char>, nodes: Seq<Extent>) -> Seq<Finding> {
    findings(doc, doc_gap(doc, nodes), doc.len() - 1)
}

/// The marks of `gap` as seen from offset `s`.
pub open spec fn gap_from(gap: spec_fn(int) -> bool, s: int) -> spec_fn(int) -> bool {
    |i: int| gap(i + s)
}

/// The report on one line that correction changes: its number, the line as
/// it is and the line as it should be.
pub open spec fn hunk(old_line: Seq<char>, new_line: Seq<char>, line: int) -> Seq<char> {
    "@@ -"@ + digits(line as nat) + " +"@ + digits(line as nat) + " @@\n-"@ + old_line + "\n+"@
        + new_line + "\n"@
}

/// The report on the lines from the one that starts at `s`, which is line
/// number `line`: a hunk for each line that correction changes.
pub open spec fn diff_from(doc: Seq<char>, gap: spec_fn(int) -> bool, s: int, line: int) -> Seq<
    char,
>
    decreases doc.len() - s,
    via diff_from_decreases
{
    if s < 0 || s >= doc.len() {
        Seq::empty()
    } else {
        let e = line_end(doc, s);
        let old_line = doc.subrange(s, e);
        let new_line = with_spaces(old_line, gap_from(gap, s));
        let rest = if e < doc.len() {
            diff_from(doc, gap, e + 1, line + 1)
        } else {
            Seq::empty()
        };
        if new_line != old_line {
            hunk(old_line, new_line, line) + rest
        } else {
            rest
        }
    }
}

#[via_fn]
proof fn diff_from_decreases(doc: Seq<char>, gap: spec_fn(int) -> bool, s: int, line: int) {
    if 0 <= s < doc.len() {
        lemma_scan_bounds(doc, s, ' ');
    }
}

/// The diff of a document against its corrected form, line by line.
pub open spec fn doc_diff(doc: Seq<char>, nodes: Seq<Extent>) -> Seq<char> {
    diff_from(doc, doc_gap(doc, nodes), 0, 1)
}

/// The gaps that a list of flags marks.
pub open spec fn marks(flags: Seq<bool>) -> spec_fn(int) -> bool {
    |i: int| 0 <= i < flags.len() && flags[i]
}

/// Decides for each gap of the document whether correction fills it.
pub fn plan(tree: &SpanTree, doc: &Vec<char>) -> (flags: Vec<bool>)
    ensures
        flags@.len() == doc@.len(),
        forall|i: int| 0 <= i < doc@.len() ==> #[trigger] flags@[i] == doc_gap(doc@, tree@)(i),
{
    let n = doc.len();
    let owners = tree.owners(n);
    let mut flags: Vec<bool> = Vec::new();
    let mut i: usize = 0;
    while i < n
        invariant
            n == doc.len(),
            i <= n,
            owners.len() == n,
            flags@.len() == i,
            forall|j: int| 0 <= j < n ==> #[trigger] owners[j] == owner(tree@, j),
            forall|j: int| 0 <= j < i ==> #[trigger] flags@[j] == doc_gap(doc@, tree@)(j),
        decreases n - i,
    {
        let mut flag = false;
        if n - i >= 2 {
            let o = owners[i];
            if o < tree.nodes.len() {
                assert(tree@[o as int].kind == tree.nodes[o as int].kind);
                flag = o == owners[i + 1] && tree.nodes[o].kind.is_correctable() && rule_at(
                    doc[i],
                    doc[i + 1],
                ).is_some();
            }
        }
        flags.push(flag);
        i += 1;
    }
    flags
}

/// Puts one ASCII space into each flagged gap of `doc[from..to]`.
pub fn apply(doc: &Vec<char>, flags: &Vec<bool>, from: usize, to: usize) -> (out: Vec<char>)
    requires
        flags@.len() == doc@.len(),
        from <= to <= doc@.len(),
    ensures
        out@ == with_spaces(doc@.subrange(from as int, to as int), gap_from(marks(flags@), from as int)),
{
    let ghost piece = doc@.subrange(from as int, to as int);
    let ghost gap = gap_from(marks(flags@), from as int);
    let mut out: Vec<char> = Vec::new();
    let mut i: usize = from;
    while i < to
        invariant
            flags@.len() == doc@.len(),
            from <= i <= to <= doc@.len(),
            piece == doc@.subrange(from as int, to as int),
            gap == gap_from(marks(flags@), from as int),
            out@ == with_spaces(piece.take(i - from), gap),
        decreases to - i,
    {
        let ghost before = out@;
        if i > from && flags[i - 1] {
            out.push(' ');
        }
        out.push(doc[i]);
        proof {
            let t = piece.take(i - from + 1);
            assert(t.drop_last() == piece.take(i - from));
            assert(t.last() == doc@[i as int]);
            assert(gap(i - from - 1) == marks(flags@)(i - 1));
            if i == from {
                assert(before.len() == 0);
                assert(out@ == t);
            }
        }
        i += 1;
    }
    proof {
        assert(piece.take(to - from) == piece);
    }
    out
}

/// Corrects a document: puts one ASCII space into each gap inside a
/// correctable span in which a rule fires, and changes nothing else. The
/// spans are taken as they come: where the tree names no span for a
/// character, the character is code.
pub fn correct(tree: &SpanTree, doc: &Vec<char>) -> (out: Vec<char>)
    ensures
        out@ == corrected(doc@, tree@),
{
    let flags = plan(tree, doc);
    let out = apply(doc, &flags, 0, doc.len());
    proof {
        assert(doc@.subrange(0, doc@.len() as int) == doc@);
        lemma_with_spaces_ext(doc@, gap_from(marks(flags@), 0), doc_gap(doc@, tree@));
    }
    out
}

/// Reports what `correct` would change: one diagnostic for each gap that it
/// fills, in the order of the document, each with its line and column in
/// the original.
pub fn lint(tree: &SpanTree, doc: &Vec<char>) -> (out: Vec<Diagnostic>)
    ensures
        findings_of(out@) == doc_findings(doc@, tree@),
{
    let n = doc.len();
    let flags = plan(tree, doc);
    let ghost gap = doc_gap(doc@, tree@);
    let mut out: Vec<Diagnostic> = Vec::new();
    let mut line: usize = 1;
    let mut start: usize = 0;
    let mut i: usize = 0;
    if n == 0 {
        assert(findings_of(out@) == doc_findings(doc@, tree@));
        return out;
    }
    while i + 1 < n
        invariant
            n == doc.len(),
            i + 1 <= n,
            flags@.len() == n,
            gap == doc_gap(doc@, tree@),
            forall|j: int| 0 <= j < n ==> #[trigger] flags@[j] == gap(j),
            line == line_of(doc@, i as int),
            start == line_start(doc@, i as int),
            findings_of(out@) == findings(doc@, gap, i as int),
        decreases n - i,
    {
        proof {
            lemma_line_bounds(doc@, i as int);
        }
        if flags[i] {
            match rule_at(doc[i], doc[i + 1]) {
                Some(rule) => {
                    let d = make_diagnostic(i, line, i - start + 1, doc[i], doc[i + 1], rule);
                    let ghost before = out@;
                    out.push(d);
                    assert(findings_of(out@) == findings_of(before).push(d@));
                    assert(d@ == finding_at(doc@, i as int));
                },
                None => {},
            }
        }
        if doc[i] == '\n' {
            line += 1;
            start = i + 1;
        }
        i += 1;
    }
    out
}

/// Renders the diff of a document against its corrected form: for each line
/// that correction changes, its number, the line as it is and the line as
/// it should be.
pub fn diff(tree: &SpanTree, doc: &Vec<char>) -> (out: Vec<char>)
    ensures
        out@ == doc_diff(doc@, tree@),
{
    let n = doc.len();
    let flags = plan(tree, doc);
    let ghost gap = doc_gap(doc@, tree@);
    let mut out: Vec<char> = Vec::new();
    let mut line: usize = 1;
    let mut s: usize = 0;
    while s < n
        invariant
            n == doc.len(),
            s <= n,
            1 <= line <= s + 1,
            flags@.len() == n,
            gap == doc_gap(doc@, tree@),
            forall|j: int| 0 <= j < n ==> #[trigger] flags@[j] == gap(j),
            doc_diff(doc@, tree@) == out@ + diff_from(doc@, gap, s as int, line as int),
        decreases n - s,
    {
        proof {
            lemma_scan_bounds(doc@, s as int, ' ');
        }
        let e = find_line_end(doc, s);
        let new_line = apply(doc, &flags, s, e);
        let ghost old_line = doc@.subrange(s as int, e as int);
        let ghost rest = if e < n {
            diff_from(doc@, gap, e + 1, line + 1)
        } else {
            Seq::empty()
        };
        proof {
            assert forall|i: int| 0 <= i && i + 1 < old_line.len() implies #[trigger] gap_from(
                marks(flags@),
                s as int,
            )(i) == gap_from(gap, s as int)(i) by {
                assert(flags@[i + s] == gap(i + s));
            }
            lemma_with_spaces_ext(
                old_line,
                gap_from(marks(flags@), s as int),
                gap_from(gap, s as int),
            );
            lemma_with_spaces_len(old_line, gap_from(gap, s as int));
        }
        if new_line.len() != e - s {
            let ghost before = out@;
            push_str(&mut out, "@@ -");
            push_decimal(&mut out, line);
            push_str(&mut out, " +");
            push_decimal(&mut out, line);
            push_str(&mut out, " @@\n-");
            push_range(&mut out, doc, s, e);
            push_str(&mut out, "\n+");
            push_range(&mut out, &new_line, 0, new_line.len());
            push_str(&mut out, "\n");
            proof {
                assert(new_line@.subrange(0, new_line@.len() as int) == new_line@);
                assert(out@ == before + hunk(old_line, new_line@, line as int));
                assert(before + (hunk(old_line, new_line@, line as int) + rest) == out@ + rest);
            }
        } else {
            proof {
                let g = gap_from(gap, s as int);
                lemma_unchanged_when_same_length(old_line, g);
            }
        }
        if n - e <= 1 {
            proof {
                assert(rest == Seq::<char>::empty());
                assert(out@ + rest == out@);
            }
            return out;
        }
        s = e + 1;
        line += 1;
    }
    proof {
        assert(out@ + Seq::<char>::empty() == out@);
    }
    out
}

} // verus!
