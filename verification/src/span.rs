//! Spans: typed ranges of a document, and the tree that they form.
//!
//! Offsets count characters (Unicode scalar values) from the start of the
//! document.

use vstd::prelude::*;

verus! {

/// What a range of a document holds.
#[derive(Clone, Copy, Debug, PartialEq, Eq, Structural)]
pub enum SpanKind {
    /// Syntax of the language: never altered.
    Code,
    /// A line or block comment.
    Comment,
    /// A documentation comment.
    DocComment,
    /// A string literal, with its delimiters.
    StringLiteral,
    /// Text of a markup language.
    Markup,
    /// Prose.
    PlainText,
}

impl SpanKind {
    /// Text of this kind is open to correction.
    pub open spec fn correctable(self) -> bool {
        !(self is Code)
    }

    /// Tells whether text of this kind is open to correction.
    pub fn is_correctable(self) -> (b: bool)
        ensures
            b == self.correctable(),
    {
        match self {
            SpanKind::Code => false,
            _ => true,
        }
    }
}

/// A range `[start, end)` with its kind, as the contracts speak of it.
pub struct Extent {
    pub start: int,
    pub end: int,
    pub kind: SpanKind,
}

impl Extent {
    /// The range holds the offset `i`.
    pub open spec fn holds(self, i: int) -> bool {
        self.start <= i < self.end
    }
}

/// A range `[start, end)` of a document with its kind.
#[derive(Clone, Copy, Debug, PartialEq, Eq, Structural)]
pub struct Span {
    pub start: usize,
    pub end: usize,
    pub kind: SpanKind,
}

impl View for Span {
    type V = Extent;

    open spec fn view(&self) -> Extent {
        Extent { start: self.start as int, end: self.end as int, kind: self.kind }
    }
}

/// The extents of a list of spans.
pub open spec fn extents(spans: Seq<Span>) -> Seq<Extent> {
    spans.map_values(|s: Span| s@)
}

/// The index of the last of the first `n` extents that holds the offset `i`,
/// and 0 where none does.
pub open spec fn owner_among(nodes: Seq<Extent>, n: int, i: int) -> int
    decreases n,
{
    if n <= 0 {
        0
    } else if nodes[n - 1].holds(i) {
        n - 1
    } else {
        owner_among(nodes, n - 1, i)
    }
}

/// The innermost span at offset `i`: in a tree laid out in pre-order it is
/// the last one that holds `i`.
pub open spec fn owner(nodes: Seq<Extent>, i: int) -> int {
    owner_among(nodes, nodes.len() as int, i)
}

/// The kind of the text at offset `i`; code where there is no span at all.
pub open spec fn kind_at(nodes: Seq<Extent>, i: int) -> SpanKind {
    if owner(nodes, i) < nodes.len() {
        nodes[owner(nodes, i)].kind
    } else {
        SpanKind::Code
    }
}

/// The characters at `i` and `i + 1` lie in the same innermost span, and it
/// is open to correction.
pub open spec fn joined(nodes: Seq<Extent>, i: int) -> bool {
    owner(nodes, i) == owner(nodes, i + 1) && kind_at(nodes, i).correctable()
}

/// The extents form a tree over a document of `len` characters, laid out in
/// pre-order: the first is the root and spans the document; every other one
/// is non-empty and lies inside the document; of two, the later one lies
/// inside the earlier one or wholly behind it.
pub open spec fn well_formed(nodes: Seq<Extent>, len: int) -> bool {
    &&& nodes.len() >= 1
    &&& nodes[0].start == 0
    &&& nodes[0].end == len
    &&& forall|k: int|
        1 <= k < nodes.len() ==> 0 <= (#[trigger] nodes[k]).start < nodes[k].end <= len
    &&& forall|j: int, k: int|
        0 <= j < k < nodes.len() ==> {
            ||| (#[trigger] nodes[j]).start <= (#[trigger] nodes[k]).start && nodes[k].end
                <= nodes[j].end
            ||| nodes[j].end <= nodes[k].start
        }
}

/// The owner is one of the extents, and is the last one that holds the offset.
pub proof fn lemma_owner_among(nodes: Seq<Extent>, n: int, i: int)
    requires
        0 <= n <= nodes.len(),
    ensures
        0 <= owner_among(nodes, n, i),
        n > 0 ==> owner_among(nodes, n, i) < n,
        forall|k: int| owner_among(nodes, n, i) < k < n ==> !(#[trigger] nodes[k]).holds(i),
        owner_among(nodes, n, i) > 0 ==> nodes[owner_among(nodes, n, i)].holds(i),
    decreases n,
{
    if n > 0 && !nodes[n - 1].holds(i) {
        lemma_owner_among(nodes, n - 1, i);
    }
}

/// In a well-formed tree every offset of the document lies in exactly one
/// innermost span: its owner holds it, and no later span does.
pub proof fn lemma_owner_holds(nodes: Seq<Extent>, len: int, i: int)
    requires
        well_formed(nodes, len),
        0 <= i < len,
    ensures
        0 <= owner(nodes, i) < nodes.len(),
        nodes[owner(nodes, i)].holds(i),
        forall|k: int| owner(nodes, i) < k < nodes.len() ==> !(#[trigger] nodes[k]).holds(i),
{
    lemma_owner_among(nodes, nodes.len() as int, i);
}

/// A tree of spans over one document.
pub struct SpanTree {
    /// The spans in pre-order; the first is the root.
    pub nodes: Vec<Span>,
}

impl View for SpanTree {
    type V = Seq<Extent>;

    open spec fn view(&self) -> Seq<Extent> {
        extents(self.nodes@)
    }
}

impl SpanTree {
    /// The tree is well formed over a document of `len` characters.
    pub open spec fn wf(&self, len: int) -> bool {
        well_formed(self@, len)
    }

    /// For each offset of a document of `len` characters, the index of its
    /// innermost span.
    pub fn owners(&self, len: usize) -> (out: Vec<usize>)
        ensures
            out.len() == len,
            forall|i: int| 0 <= i < len ==> #[trigger] out[i] == owner(self@, i),
            forall|i: int| 0 <= i < len ==> (#[trigger] out[i]) < self.nodes.len() || out[i] == 0,
    {
        let mut out: Vec<usize> = Vec::new();
        let mut i: usize = 0;
        while i < len
            invariant
                i <= len,
                out.len() == i,
                forall|j: int| 0 <= j < i ==> #[trigger] out[j] == 0,
            decreases len - i,
        {
            out.push(0);
            i += 1;
        }
        let ghost nodes = self@;
        let count = self.nodes.len();
        let mut k: usize = 0;
        while k < count
            invariant
                k <= count,
                count == self.nodes.len(),
                nodes == self@,
                nodes.len() == count,
                out.len() == len,
                forall|j: int| 0 <= j < len ==> #[trigger] out[j] == owner_among(nodes, k as int, j),
                forall|j: int| 0 <= j < len ==> (#[trigger] out[j]) < count || out[j] == 0,
            decreases count - k,
        {
            let span = self.nodes[k];
            assert(nodes[k as int] == span@);
            let stop = if span.end < len {
                span.end
            } else {
                len
            };
            let mut i: usize = span.start;
            while i < stop
                invariant
                    stop <= len,
                    stop <= span.end,
                    k < count,
                    out.len() == len,
                    span.start <= i,
                    i <= stop || i == span.start,
                    nodes.len() == count,
                    nodes[k as int] == span@,
                    forall|j: int|
                        0 <= j < len ==> #[trigger] out[j] == if span.start <= j < i {
                            k as int
                        } else {
                            owner_among(nodes, k as int, j)
                        },
                    forall|j: int| 0 <= j < len ==> (#[trigger] out[j]) < count || out[j] == 0,
                decreases stop - i,
            {
                out.set(i, k);
                i += 1;
            }
            k += 1;
        }
        out
    }
}

} // verus!
