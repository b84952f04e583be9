//! What holds of every corrected document and of every lint report.

use crate::diagnostic::{finding_at, lemma_findings};
use crate::charclass::class_of;
use crate::engine::{corrected, doc_findings, doc_gap};
use crate::rules::needs_space;
use crate::span::{joined, kind_at, Extent};
use crate::stability::inert;
use crate::spacing::{
    gap_count, lemma_gap_count_flat, lemma_gap_count_monotonic, lemma_spaced_without_boundary,
    lemma_with_spaces_index, lemma_with_spaces_len, lemma_with_spaces_none,
    lemma_with_spaces_places, moved, settled, spaced, text_gap,
};
use vstd::prelude::*;

verus! {

/// Code is never altered. A run of code characters stands in the corrected
/// document as it stood in the original, moved right by the number of
/// spaces put in before it, and no space is put before, into or behind it.
pub proof fn lemma_code_untouched(doc: Seq<char>, nodes: Seq<Extent>, a: int, b: int)
    requires
        0 <= a <= b <= doc.len(),
        forall|i: int| a <= i < b ==> !(#[trigger] kind_at(nodes, i)).correctable(),
    ensures
        moved(doc_gap(doc, nodes), a) + (b - a) <= corrected(doc, nodes).len(),
        corrected(doc, nodes).subrange(
            moved(doc_gap(doc, nodes), a),
            moved(doc_gap(doc, nodes), a) + (b - a),
        ) == doc.subrange(a, b),
        forall|i: int| a <= i < b ==> !#[trigger] doc_gap(doc, nodes)(i),
        forall|i: int| a <= i + 1 < b ==> !#[trigger] doc_gap(doc, nodes)(i),
{
    let gap = doc_gap(doc, nodes);
    let out = corrected(doc, nodes);
    assert forall|i: int| a <= i < b implies !#[trigger] gap(i) by {
        assert(!kind_at(nodes, i).correctable());
    }
    assert forall|i: int| a <= i + 1 < b implies !#[trigger] gap(i) by {
        assert(!kind_at(nodes, i + 1).correctable());
    }
    lemma_with_spaces_len(doc, gap);
    lemma_gap_count_monotonic(gap, b - 1, doc.len() - 1);
    if a < b {
        lemma_gap_count_flat(gap, a, b - 1);
        assert forall|i: int| a <= i < b implies out[moved(gap, a) + (i - a)] == doc[i] by {
            lemma_gap_count_flat(gap, a, i);
            lemma_with_spaces_index(doc, gap, i);
        }
        assert(out.subrange(moved(gap, a), moved(gap, a) + (b - a)) =~= doc.subrange(a, b));
    } else {
        if a < doc.len() {
            lemma_gap_count_monotonic(gap, a, doc.len() - 1);
        } else {
            assert(!gap(doc.len() - 1));
        }
        assert(out.subrange(moved(gap, a), moved(gap, a) + (b - a)) =~= doc.subrange(a, b));
    }
}

/// The corrected document is longer than the original by the number of
/// findings: each finding stands for one space, and nothing else is added.
pub proof fn lemma_one_space_per_finding(doc: Seq<char>, nodes: Seq<Extent>)
    ensures
        corrected(doc, nodes).len() == doc.len() + doc_findings(doc, nodes).len(),
        doc_findings(doc, nodes).len() == gap_count(doc_gap(doc, nodes), doc.len() - 1),
{
    lemma_with_spaces_len(doc, doc_gap(doc, nodes));
    lemma_findings(doc, doc_gap(doc, nodes), doc.len() - 1);
}

/// A document in which no rule fires inside a correctable span is left as
/// it is, and lint finds nothing in it.
pub proof fn lemma_no_boundary_no_change(doc: Seq<char>, nodes: Seq<Extent>)
    requires
        forall|i: int|
            0 <= i && i + 1 < doc.len() && #[trigger] joined(nodes, i) ==> !needs_space(
                doc[i],
                doc[i + 1],
            ),
    ensures
        corrected(doc, nodes) == doc,
        doc_findings(doc, nodes).len() == 0,
{
    let gap = doc_gap(doc, nodes);
    assert forall|i: int| 0 <= i && i + 1 < doc.len() implies !#[trigger] gap(i) by {
        if joined(nodes, i) {
        }
    }
    lemma_with_spaces_none(doc, gap);
    lemma_one_space_per_finding(doc, nodes);
}

/// Where a rule fires between two adjacent characters of one correctable
/// span, the corrected document holds the first, exactly one space, and the
/// second.
pub proof fn lemma_space_at_boundary(doc: Seq<char>, nodes: Seq<Extent>, i: int)
    requires
        0 <= i,
        i + 1 < doc.len(),
        joined(nodes, i),
        needs_space(doc[i], doc[i + 1]),
    ensures
        moved(doc_gap(doc, nodes), i) + 2 < corrected(doc, nodes).len(),
        corrected(doc, nodes)[moved(doc_gap(doc, nodes), i)] == doc[i],
        corrected(doc, nodes)[moved(doc_gap(doc, nodes), i) + 1] == ' ',
        corrected(doc, nodes)[moved(doc_gap(doc, nodes), i) + 2] == doc[i + 1],
{
    let gap = doc_gap(doc, nodes);
    assert(gap(i));
    lemma_with_spaces_index(doc, gap, i);
    lemma_with_spaces_index(doc, gap, i + 1);
}

/// Correction adds spaces and nothing else: every character of the
/// original stands in the corrected document, in the same order, and every
/// other place of the corrected document holds an ASCII space.
pub proof fn lemma_only_spaces_added(doc: Seq<char>, nodes: Seq<Extent>)
    ensures
        forall|i: int|
            0 <= i < doc.len() ==> {
                let at = #[trigger] moved(doc_gap(doc, nodes), i);
                0 <= at < corrected(doc, nodes).len() && corrected(doc, nodes)[at] == doc[i]
            },
        forall|i: int, k: int|
            0 <= i < k < doc.len() ==> #[trigger] moved(doc_gap(doc, nodes), i) < #[trigger] moved(
                doc_gap(doc, nodes),
                k,
            ),
        forall|j: int|
            0 <= j < corrected(doc, nodes).len() ==> #[trigger] corrected(doc, nodes)[j] == ' '
                || exists|i: int| 0 <= i < doc.len() && j == moved(doc_gap(doc, nodes), i),
{
    let gap = doc_gap(doc, nodes);
    let out = corrected(doc, nodes);
    assert forall|i: int| 0 <= i < doc.len() implies {
        let at = #[trigger] moved(gap, i);
        0 <= at < out.len() && out[at] == doc[i]
    } by {
        lemma_with_spaces_index(doc, gap, i);
    }
    assert forall|i: int, k: int| 0 <= i < k < doc.len() implies #[trigger] moved(gap, i)
        < #[trigger] moved(gap, k) by {
        lemma_gap_count_monotonic(gap, i, k);
    }
    assert forall|j: int| 0 <= j < out.len() implies #[trigger] out[j] == ' ' || exists|i: int|
        0 <= i < doc.len() && j == moved(gap, i) by {
        lemma_with_spaces_places(doc, gap, j);
        let i = choose|i: int|
            0 <= i < doc.len() && (j == moved(gap, i) || (i + 1 < doc.len() && gap(i) && j
                == moved(gap, i) + 1));
        lemma_with_spaces_index(doc, gap, i);
    }
}

/// The findings of a document come in its order, no two of them for the
/// same place, and each one names a gap that correction fills.
pub proof fn lemma_doc_findings_ordered(doc: Seq<char>, nodes: Seq<Extent>)
    ensures
        forall|k: int|
            0 <= k < doc_findings(doc, nodes).len() ==> {
                let f = #[trigger] doc_findings(doc, nodes)[k];
                0 <= f.offset && f.offset + 1 < doc.len() && joined(nodes, f.offset) && needs_space(
                    doc[f.offset],
                    doc[f.offset + 1],
                ) && f == finding_at(doc, f.offset)
            },
        forall|j: int, k: int|
            0 <= j < k < doc_findings(doc, nodes).len() ==> (#[trigger] doc_findings(
                doc,
                nodes,
            )[j]).offset < (#[trigger] doc_findings(doc, nodes)[k]).offset,
{
    lemma_findings(doc, doc_gap(doc, nodes), doc.len() - 1);
}

/// No space is put next to a character that takes part in no rule: a
/// delimiter stays whole, and a backslash stays with the character that it
/// escapes.
pub proof fn lemma_no_space_beside_inert(doc: Seq<char>, nodes: Seq<Extent>, i: int)
    requires
        0 <= i < doc.len(),
        inert(doc[i]),
    ensures
        !doc_gap(doc, nodes)(i),
        !doc_gap(doc, nodes)(i - 1),
        inert('\\') && inert('"') && inert('\'') && inert('/') && inert('*') && inert(' ')
            && inert('\n'),
{
}

/// A text of one script is left as it is: where it holds no CJK character,
/// or neither an ASCII letter nor a digit, no rule fires in it.
pub proof fn lemma_one_script_unchanged(s: Seq<char>)
    requires
        (forall|i: int| 0 <= i < s.len() ==> !(class_of(#[trigger] s[i]) is Cjk)) || (forall|i: int|
            0 <= i < s.len() ==> !(class_of(#[trigger] s[i]) is Letter) && !(class_of(s[i])
                is Digit)),
    ensures
        settled(s),
        spaced(s) == s,
        gap_count(text_gap(s), s.len() - 1) == 0,
{
    assert forall|j: int| 0 <= j && j + 1 < s.len() implies !needs_space(
        #[trigger] s[j],
        s[j + 1],
    ) by {
        assert(0 <= j + 1 < s.len());
    }
    lemma_spaced_without_boundary(s);
}

} // verus!
