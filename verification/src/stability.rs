//! Correction does not move the borders of comments and strings: the
//! spaces that it puts in stand between two characters that no delimiter is
//! made of, so that a grammar reads the corrected document as it read the
//! original, with each offset moved right by the spaces before it.

use crate::charclass::class_of;
use crate::grammar::{
    block_end, first_illegal, illegal, lemma_scan_bounds, line_end, literal_end, text_block_end,
};
use crate::engine::{corrected, doc_findings, doc_gap};
use crate::laws::lemma_one_space_per_finding;
use crate::rules::needs_space;
use crate::span::{joined, owner, owner_among, well_formed, Extent};
use crate::spacing::{
    lemma_gap_count_monotonic, lemma_with_spaces_index, lemma_with_spaces_len,
    lemma_with_spaces_none, lemma_with_spaces_places, moved, with_spaces,
};
use vstd::prelude::*;

verus! {

/// Every marked gap lies between two characters of the text between which
/// a rule fires.
pub open spec fn fitting(doc: Seq<char>, gap: spec_fn(int) -> bool) -> bool {
    forall|i: int| #[trigger] gap(i) ==> 0 <= i && i + 1 < doc.len() && needs_space(doc[i], doc[i + 1])
}

/// The character takes part in no rule.
pub open spec fn inert(c: char) -> bool {
    !(class_of(c) is Cjk) && !(class_of(c) is Letter) && !(class_of(c) is Digit)
}

/// An offset behind the one that a result holds, moved.
pub open spec fn moved_end(gap: spec_fn(int) -> bool, end: Option<int>) -> Option<int> {
    match end {
        Some(e) => Some(moved(gap, e)),
        None => None,
    }
}

/// Offsets keep their order when they are moved.
pub proof fn lemma_moved_order(gap: spec_fn(int) -> bool, a: int, b: int)
    requires
        0 <= a,
        0 <= b,
    ensures
        a <= b <==> moved(gap, a) <= moved(gap, b),
        a < b <==> moved(gap, a) < moved(gap, b),
        a <= b ==> moved(gap, b) - moved(gap, a) >= b - a,
        moved(gap, 0) == 0,
{
    if a <= b {
        lemma_gap_count_monotonic(gap, a, b);
    } else {
        lemma_gap_count_monotonic(gap, b, a);
    }
}

/// What stands in the corrected text at the place of the character at `p`
/// and behind it.
pub proof fn lemma_step(doc: Seq<char>, gap: spec_fn(int) -> bool, p: int)
    requires
        fitting(doc, gap),
        0 <= p < doc.len(),
    ensures
        moved(gap, p) < with_spaces(doc, gap).len(),
        with_spaces(doc, gap)[moved(gap, p)] == doc[p],
        moved(gap, p + 1) <= with_spaces(doc, gap).len(),
        moved(gap, doc.len() as int) == with_spaces(doc, gap).len(),
        gap(p) ==> p + 1 < doc.len() && with_spaces(doc, gap)[moved(gap, p) + 1] == ' ' && moved(
            gap,
            p + 1,
        ) == moved(gap, p) + 2 && !inert(doc[p]) && !inert(doc[p + 1]),
        !gap(p) ==> moved(gap, p + 1) == moved(gap, p) + 1,
        inert(doc[p]) ==> !gap(p) && (p > 0 ==> !gap(p - 1)),
{
    lemma_with_spaces_index(doc, gap, p);
    lemma_with_spaces_len(doc, gap);
    assert(!gap(doc.len() - 1));
    lemma_gap_count_monotonic(gap, p + 1, doc.len() as int);
    if p > 0 && gap(p - 1) {
        assert(needs_space(doc[p - 1], doc[p]));
    }
}

/// The end of the document, moved, is the end of the corrected document.
pub proof fn lemma_moved_len(doc: Seq<char>, gap: spec_fn(int) -> bool)
    requires
        fitting(doc, gap),
    ensures
        moved(gap, doc.len() as int) == with_spaces(doc, gap).len(),
{
    lemma_with_spaces_len(doc, gap);
    assert(!gap(doc.len() - 1));
    if doc.len() == 0 {
        lemma_gap_count_monotonic(gap, 0, 0);
    }
}

/// The space that a marked gap holds stands just before the place of the
/// character behind the gap.
pub proof fn lemma_space_before(doc: Seq<char>, gap: spec_fn(int) -> bool, p: int)
    requires
        fitting(doc, gap),
        0 < p <= doc.len(),
        gap(p - 1),
    ensures
        p < doc.len(),
        0 <= moved(gap, p) - 1 < with_spaces(doc, gap).len(),
        with_spaces(doc, gap)[moved(gap, p) - 1] == ' ',
        moved(gap, p) < with_spaces(doc, gap).len(),
{
    lemma_step(doc, gap, p - 1);
    lemma_step(doc, gap, p);
}

/// A line ends in the corrected document where it ended in the original.
pub proof fn lemma_line_end_moved(doc: Seq<char>, gap: spec_fn(int) -> bool, p: int)
    requires
        fitting(doc, gap),
        0 <= p <= doc.len(),
    ensures
        line_end(with_spaces(doc, gap), moved(gap, p)) == moved(gap, line_end(doc, p)),
        p > 0 && gap(p - 1) ==> line_end(with_spaces(doc, gap), moved(gap, p) - 1) == moved(
            gap,
            line_end(doc, p),
        ),
    decreases doc.len() - p,
{
    lemma_moved_len(doc, gap);
    if p < doc.len() {
        lemma_step(doc, gap, p);
        if doc[p] != '\n' {
            lemma_line_end_moved(doc, gap, p + 1);
        }
    }
    if p > 0 && gap(p - 1) {
        lemma_space_before(doc, gap, p);
    }
}

/// A block comment ends in the corrected document where it ended in the
/// original.
pub proof fn lemma_block_end_moved(doc: Seq<char>, gap: spec_fn(int) -> bool, p: int)
    requires
        fitting(doc, gap),
        0 <= p <= doc.len(),
    ensures
        block_end(with_spaces(doc, gap), moved(gap, p)) == moved_end(gap, block_end(doc, p)),
        p > 0 && gap(p - 1) ==> block_end(with_spaces(doc, gap), moved(gap, p) - 1) == moved_end(
            gap,
            block_end(doc, p),
        ),
    decreases doc.len() - p,
{
    lemma_moved_len(doc, gap);
    if p < doc.len() {
        lemma_step(doc, gap, p);
        if p + 1 < doc.len() {
            lemma_step(doc, gap, p + 1);
            if doc[p] == '*' && doc[p + 1] == '/' {
                assert(inert('*') && inert('/'));
            } else {
                lemma_block_end_moved(doc, gap, p + 1);
            }
        }
    }
    if p > 0 && gap(p - 1) {
        lemma_space_before(doc, gap, p);
    }
}

/// A quoted literal ends in the corrected document where it ended in the
/// original.
pub proof fn lemma_literal_end_moved(
    doc: Seq<char>,
    gap: spec_fn(int) -> bool,
    p: int,
    quote: char,
)
    requires
        fitting(doc, gap),
        0 <= p <= doc.len(),
        quote == '"' || quote == '\'',
    ensures
        literal_end(with_spaces(doc, gap), moved(gap, p), quote) == moved_end(
            gap,
            literal_end(doc, p, quote),
        ),
        p > 0 && gap(p - 1) ==> literal_end(with_spaces(doc, gap), moved(gap, p) - 1, quote)
            == moved_end(gap, literal_end(doc, p, quote)),
    decreases doc.len() - p,
{
    lemma_moved_len(doc, gap);
    assert(inert('"') && inert('\'') && inert('\\') && inert('\n'));
    if p < doc.len() {
        lemma_step(doc, gap, p);
        if doc[p] == '\n' {
        } else if doc[p] == quote {
        } else if doc[p] == '\\' {
            if p + 1 < doc.len() {
                lemma_step(doc, gap, p + 1);
                if doc[p + 1] != '\n' {
                    lemma_literal_end_moved(doc, gap, p + 2, quote);
                }
            }
        } else {
            lemma_literal_end_moved(doc, gap, p + 1, quote);
        }
    }
    if p > 0 && gap(p - 1) {
        lemma_space_before(doc, gap, p);
    }
}

/// A text block ends in the corrected document where it ended in the
/// original.
pub proof fn lemma_text_block_end_moved(doc: Seq<char>, gap: spec_fn(int) -> bool, p: int)
    requires
        fitting(doc, gap),
        0 <= p <= doc.len(),
    ensures
        text_block_end(with_spaces(doc, gap), moved(gap, p)) == moved_end(
            gap,
            text_block_end(doc, p),
        ),
        p > 0 && gap(p - 1) ==> text_block_end(with_spaces(doc, gap), moved(gap, p) - 1)
            == moved_end(gap, text_block_end(doc, p)),
    decreases doc.len() - p,
{
    lemma_moved_len(doc, gap);
    assert(inert('"') && inert('\\'));
    if p < doc.len() {
        lemma_step(doc, gap, p);
        if p + 1 < doc.len() {
            lemma_step(doc, gap, p + 1);
        }
        if p + 2 < doc.len() {
            lemma_step(doc, gap, p + 2);
        }
        if doc[p] == '\\' {
            if p + 1 < doc.len() {
                lemma_text_block_end_moved(doc, gap, p + 2);
            }
        } else if doc[p] == '"' && p + 2 < doc.len() && doc[p + 1] == '"' && doc[p + 2] == '"' {
        } else {
            lemma_text_block_end_moved(doc, gap, p + 1);
        }
    }
    if p > 0 && gap(p - 1) {
        lemma_space_before(doc, gap, p);
    }
}

/// A corrected document holds no illegal character unless the original did.
pub proof fn lemma_no_illegal_moved(doc: Seq<char>, gap: spec_fn(int) -> bool)
    requires
        fitting(doc, gap),
        first_illegal(doc, 0) >= doc.len(),
    ensures
        first_illegal(with_spaces(doc, gap), 0) >= with_spaces(doc, gap).len(),
{
    let t = with_spaces(doc, gap);
    lemma_scan_bounds(doc, 0, '"');
    lemma_scan_bounds(t, 0, '"');
    let j = first_illegal(t, 0);
    if j < t.len() {
        lemma_with_spaces_places(doc, gap, j);
        let i = choose|i: int|
            0 <= i < doc.len() && (j == moved(gap, i) || (i + 1 < doc.len() && gap(i) && j
                == moved(gap, i) + 1));
        lemma_step(doc, gap, i);
        assert(!illegal(doc[i]));
        assert(!illegal(' '));
    }
}

/// An extent with both ends moved.
pub open spec fn moved_extent(gap: spec_fn(int) -> bool, x: Extent) -> Extent {
    Extent { start: moved(gap, x.start), end: moved(gap, x.end), kind: x.kind }
}

/// The tree of the original, with every offset moved to its place in the
/// corrected document.
pub open spec fn moved_extents(gap: spec_fn(int) -> bool, nodes: Seq<Extent>) -> Seq<Extent> {
    nodes.map_values(|x: Extent| moved_extent(gap, x))
}

/// A character keeps its innermost span when the tree moves along with it.
pub proof fn lemma_owner_moved(nodes: Seq<Extent>, gap: spec_fn(int) -> bool, n: int, x: int)
    requires
        0 <= n <= nodes.len(),
        0 <= x,
        forall|k: int| 0 <= k < nodes.len() ==> 0 <= (#[trigger] nodes[k]).start && 0 <= nodes[k].end,
    ensures
        owner_among(moved_extents(gap, nodes), n, moved(gap, x)) == owner_among(nodes, n, x),
    decreases n,
{
    if n > 0 {
        let node = nodes[n - 1];
        assert(moved_extents(gap, nodes)[n - 1] == moved_extent(gap, node));
        lemma_moved_order(gap, node.start, x);
        lemma_moved_order(gap, x, node.end);
        lemma_owner_moved(nodes, gap, n - 1, x);
    }
}

/// The moved tree of a well-formed tree is well formed over the corrected
/// document.
pub proof fn lemma_moved_well_formed(doc: Seq<char>, nodes: Seq<Extent>, gap: spec_fn(int) -> bool)
    requires
        fitting(doc, gap),
        well_formed(nodes, doc.len() as int),
    ensures
        well_formed(moved_extents(gap, nodes), with_spaces(doc, gap).len() as int),
{
    let after = moved_extents(gap, nodes);
    lemma_moved_len(doc, gap);
    lemma_moved_order(gap, 0, 0);
    assert(after[0] == moved_extent(gap, nodes[0]));
    assert forall|k: int| 1 <= k < after.len() implies 0 <= (#[trigger] after[k]).start
        < after[k].end <= with_spaces(doc, gap).len() by {
        assert(after[k] == moved_extent(gap, nodes[k]));
        lemma_moved_order(gap, 0, nodes[k].start);
        lemma_moved_order(gap, nodes[k].start, nodes[k].end);
        lemma_moved_order(gap, nodes[k].end, doc.len() as int);
    }
    assert forall|j: int, k: int| 0 <= j < k < after.len() implies {
        ||| (#[trigger] after[j]).start <= (#[trigger] after[k]).start && after[k].end
            <= after[j].end
        ||| after[j].end <= after[k].start
    } by {
        assert(after[j] == moved_extent(gap, nodes[j]));
        assert(after[k] == moved_extent(gap, nodes[k]));
        assert(0 <= nodes[j].start && 0 <= nodes[j].end);
        lemma_moved_order(gap, nodes[j].start, nodes[k].start);
        lemma_moved_order(gap, nodes[k].end, nodes[j].end);
        lemma_moved_order(gap, nodes[j].end, nodes[k].start);
    }
}

/// Once a document is corrected by its tree, the moved tree is a tree over
/// the corrected document; correcting it again by that tree changes
/// nothing, and lint finds nothing in it.
pub proof fn lemma_corrected_is_settled(doc: Seq<char>, nodes: Seq<Extent>)
    requires
        well_formed(nodes, doc.len() as int),
    ensures
        fitting(doc, doc_gap(doc, nodes)),
        well_formed(
            moved_extents(doc_gap(doc, nodes), nodes),
            corrected(doc, nodes).len() as int,
        ),
        corrected(corrected(doc, nodes), moved_extents(doc_gap(doc, nodes), nodes)) == corrected(
            doc,
            nodes,
        ),
        doc_findings(corrected(doc, nodes), moved_extents(doc_gap(doc, nodes), nodes)).len() == 0,
{
    let gap = doc_gap(doc, nodes);
    let t = corrected(doc, nodes);
    let after = moved_extents(gap, nodes);
    let again = doc_gap(t, after);
    assert(fitting(doc, gap));
    lemma_moved_well_formed(doc, nodes, gap);
    lemma_moved_len(doc, gap);
    assert forall|j: int| 0 <= j && j + 1 < t.len() implies !#[trigger] again(j) by {
        lemma_with_spaces_places(doc, gap, j);
        let i = choose|i: int|
            0 <= i < doc.len() && (j == moved(gap, i) || (i + 1 < doc.len() && gap(i) && j
                == moved(gap, i) + 1));
        lemma_step(doc, gap, i);
        if j == moved(gap, i) && !gap(i) {
            lemma_moved_order(gap, i + 1, doc.len() as int);
            lemma_step(doc, gap, i + 1);
            lemma_owner_moved(nodes, gap, nodes.len() as int, i);
            lemma_owner_moved(nodes, gap, nodes.len() as int, i + 1);
            assert(after[owner(nodes, i)] == moved_extent(gap, nodes[owner(nodes, i)])) by {
                crate::span::lemma_owner_holds(nodes, doc.len() as int, i);
            }
            assert(joined(after, j) == joined(nodes, i));
        }
    }
    lemma_with_spaces_none(t, again);
    lemma_one_space_per_finding(t, after);
}

} // verus!
