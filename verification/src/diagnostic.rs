//! Diagnostics: what correction would change, with its place in the
//! original document.

use crate::rules::{rule_between, RuleId};
use crate::spacing::gap_count;
use crate::text::push_char;
use vstd::prelude::*;

verus! {

/// A diagnostic as the contracts speak of it.
pub struct Finding {
    /// The offset of the character before the gap.
    pub offset: int,
    /// The line of the gap, counted from 1.
    pub line: int,
    /// The column of the character before the gap, counted from 1.
    pub column: int,
    /// The column of the character after the gap.
    pub end_column: int,
    /// The two characters around the gap.
    pub original: Seq<char>,
    /// The two characters with the space between them.
    pub corrected: Seq<char>,
    /// The rule that fires in the gap.
    pub rule: RuleId,
}

/// One change that correction would make.
#[derive(Debug)]
pub struct Diagnostic {
    pub offset: usize,
    pub line: usize,
    pub column: usize,
    pub end_column: usize,
    pub original: String,
    pub corrected: String,
    pub rule: RuleId,
}

impl View for Diagnostic {
    type V = Finding;

    open spec fn view(&self) -> Finding {
        Finding {
            offset: self.offset as int,
            line: self.line as int,
            column: self.column as int,
            end_column: self.end_column as int,
            original: self.original@,
            corrected: self.corrected@,
            rule: self.rule,
        }
    }
}

/// The findings of a list of diagnostics.
pub open spec fn findings_of(list: Seq<Diagnostic>) -> Seq<Finding> {
    list.map_values(|d: Diagnostic| d@)
}

/// The offset at which the line of offset `i` starts.
pub open spec fn line_start(doc: Seq<char>, i: int) -> int
    decreases i,
{
    if i <= 0 {
        0
    } else if doc[i - 1] == '\n' {
        i
    } else {
        line_start(doc, i - 1)
    }
}

/// The number of the line of offset `i`, counted from 1: one more than the
/// number of line feeds before `i`.
pub open spec fn line_of(doc: Seq<char>, i: int) -> int
    decreases i,
{
    if i <= 0 {
        1
    } else if doc[i - 1] == '\n' {
        line_of(doc, i - 1) + 1
    } else {
        line_of(doc, i - 1)
    }
}

/// The finding for the gap `i` of `doc`.
pub open spec fn finding_at(doc: Seq<char>, i: int) -> Finding {
    Finding {
        offset: i,
        line: line_of(doc, i),
        column: i - line_start(doc, i) + 1,
        end_column: i - line_start(doc, i) + 2,
        original: seq![doc[i], doc[i + 1]],
        corrected: seq![doc[i], ' ', doc[i + 1]],
        rule: rule_between(doc[i], doc[i + 1]).unwrap(),
    }
}

/// The findings for the marked gaps among the first `n`, in the order of
/// the document.
pub open spec fn findings(doc: Seq<char>, gap: spec_fn(int) -> bool, n: int) -> Seq<Finding>
    decreases n,
{
    if n <= 0 {
        Seq::empty()
    } else if gap(n - 1) {
        findings(doc, gap, n - 1).push(finding_at(doc, n - 1))
    } else {
        findings(doc, gap, n - 1)
    }
}

/// A line starts at or before each of its offsets, and lines are counted
/// from 1 up to one more than the offset.
pub proof fn lemma_line_bounds(doc: Seq<char>, i: int)
    requires
        0 <= i,
    ensures
        0 <= line_start(doc, i) <= i,
        1 <= line_of(doc, i) <= i + 1,
    decreases i,
{
    if i > 0 {
        lemma_line_bounds(doc, i - 1);
    }
}

/// There is one finding for each marked gap, each finding names its gap,
/// and the findings come in the order of the document.
pub proof fn lemma_findings(doc: Seq<char>, gap: spec_fn(int) -> bool, n: int)
    ensures
        findings(doc, gap, n).len() == gap_count(gap, n),
        forall|k: int|
            0 <= k < findings(doc, gap, n).len() ==> {
                let f = #[trigger] findings(doc, gap, n)[k];
                0 <= f.offset < n && gap(f.offset) && f == finding_at(doc, f.offset)
            },
        forall|j: int, k: int|
            0 <= j < k < findings(doc, gap, n).len() ==> (#[trigger] findings(
                doc,
                gap,
                n,
            )[j]).offset < (#[trigger] findings(doc, gap, n)[k]).offset,
    decreases n,
{
    if n > 0 {
        lemma_findings(doc, gap, n - 1);
    }
}

/// Builds the diagnostic for the gap between `a` at `offset` and `b` behind it.
pub fn make_diagnostic(
    offset: usize,
    line: usize,
    column: usize,
    a: char,
    b: char,
    rule: RuleId,
) -> (d: Diagnostic)
    requires
        column < usize::MAX,
    ensures
        d@ == (Finding {
            offset: offset as int,
            line: line as int,
            column: column as int,
            end_column: column + 1,
            original: seq![a, b],
            corrected: seq![a, ' ', b],
            rule: rule,
        }),
{
    let mut original = String::new();
    push_char(&mut original, a);
    push_char(&mut original, b);
    let mut corrected = String::new();
    push_char(&mut corrected, a);
    push_char(&mut corrected, ' ');
    push_char(&mut corrected, b);
    assert(original@ == seq![a, b]);
    assert(corrected@ == seq![a, ' ', b]);
    Diagnostic { offset, line, column, end_column: column + 1, original, corrected, rule }
}

} // verus!
