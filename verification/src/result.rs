//! What a pass over one document hands back.

use crate::diagnostic::{findings_of, Diagnostic, Finding};
use crate::grammar::{FaultKind, ParseError};
use crate::json::{json_string, push_json_string, push_number_field, push_string_field};
use crate::rules::rule_name;
use crate::text::{digits, push_decimal, push_str, string_of};
use vstd::prelude::*;

verus! {

/// Why a document was left as it is.
#[derive(Clone, Copy, Debug, PartialEq, Eq, Structural)]
pub enum CoreError {
    /// The grammar could not segment the document.
    Parse(ParseError),
    /// No grammar is registered for the language tag.
    UnsupportedLanguage,
}

/// The words for a kind of parse error.
pub open spec fn fault_text(kind: FaultKind) -> Seq<char> {
    match kind {
        FaultKind::IllegalControl => "illegal control character"@,
        FaultKind::UnterminatedComment => "unterminated comment"@,
        FaultKind::UnterminatedString => "unterminated string literal"@,
    }
}

/// The message for an error; empty where there is none.
pub open spec fn message_of(error: Option<CoreError>) -> Seq<char> {
    match error {
        None => Seq::empty(),
        Some(CoreError::UnsupportedLanguage) => "unsupported language"@,
        Some(CoreError::Parse(e)) => fault_text(e.kind) + " at offset "@ + digits(e.offset as nat),
    }
}

/// Renders the message for an error.
pub fn render_message(error: Option<CoreError>) -> (out: String)
    ensures
        out@ == message_of(error),
{
    let mut out: Vec<char> = Vec::new();
    match error {
        None => {},
        Some(CoreError::UnsupportedLanguage) => {
            push_str(&mut out, "unsupported language");
        },
        Some(CoreError::Parse(e)) => {
            match e.kind {
                FaultKind::IllegalControl => push_str(&mut out, "illegal control character"),
                FaultKind::UnterminatedComment => push_str(&mut out, "unterminated comment"),
                FaultKind::UnterminatedString => push_str(&mut out, "unterminated string literal"),
            }
            push_str(&mut out, " at offset ");
            push_decimal(&mut out, e.offset);
        },
    }
    string_of(&out)
}

/// The outcome of formatting one document.
#[derive(Debug)]
pub struct FormatResult {
    /// The corrected document; the original where `error` is set.
    pub text: String,
    /// Why the document was left as it is, if it was.
    pub error: Option<CoreError>,
}

impl FormatResult {
    /// Tells whether the document was left as it is because of an error.
    pub fn has_error(&self) -> (b: bool)
        ensures
            b == self.error is Some,
    {
        self.error.is_some()
    }

    /// The message of the error; empty where there is none.
    pub fn error_message(&self) -> (out: String)
        ensures
            out@ == message_of(self.error),
    {
        render_message(self.error)
    }
}

/// The outcome of linting one document.
#[derive(Debug)]
pub struct LintResult {
    /// The path of the file, as the caller names it.
    pub filepath: String,
    /// What correction would change, in the order of the document.
    pub diagnostics: Vec<Diagnostic>,
    /// The lines that correction would change, as hunks.
    pub hunks: String,
    /// Why the document was not linted, if it was not.
    pub error: Option<CoreError>,
}

/// One finding as a JSON object: its line, the columns of the two
/// characters, the text as it is and as it should be, and the rule.
pub open spec fn finding_json(f: Finding) -> Seq<char> {
    seq!['{'] + json_string("line"@) + seq![':'] + digits(f.line as nat) + seq![','] + json_string(
        "column"@,
    ) + seq![':'] + digits(f.column as nat) + seq![','] + json_string("end_column"@) + seq![':']
        + digits(f.end_column as nat) + seq![','] + json_string("original"@) + seq![':']
        + json_string(f.original) + seq![','] + json_string("corrected"@) + seq![':']
        + json_string(f.corrected) + seq![','] + json_string("rule"@) + seq![':'] + json_string(
        rule_name(f.rule),
    ) + seq!['}']
}

/// The findings as JSON objects with commas between them.
pub open spec fn findings_json(list: Seq<Finding>) -> Seq<char>
    decreases list.len(),
{
    if list.len() == 0 {
        Seq::empty()
    } else if list.len() == 1 {
        finding_json(list[0])
    } else {
        findings_json(list.drop_last()) + seq![','] + finding_json(list.last())
    }
}

/// The structured report on one file: its path, the number of findings, the
/// findings, and whether linting failed.
pub open spec fn lint_json(filepath: Seq<char>, list: Seq<Finding>, errored: bool) -> Seq<char> {
    seq!['{'] + json_string("filepath"@) + seq![':'] + json_string(filepath) + seq![',']
        + json_string("count"@) + seq![':'] + digits(list.len()) + seq![','] + json_string(
        "diagnostics"@,
    ) + seq![':', '['] + findings_json(list) + seq![']', ','] + json_string("errored"@) + seq![':']
        + (if errored {
        "true"@
    } else {
        "false"@
    }) + seq!['}']
}

/// The textual report on one file: the two header lines of a unified diff,
/// then the hunks.
pub open spec fn lint_diff(filepath: Seq<char>, hunks: Seq<char>) -> Seq<char> {
    "--- "@ + filepath + "\n+++ "@ + filepath + "\n"@ + hunks
}

fn finding_text(d: &Diagnostic) -> (out: Vec<char>)
    ensures
        out@ == finding_json(d@),
{
    let mut out: Vec<char> = Vec::new();
    out.push('{');
    assert(out@ == seq!['{']);
    push_number_field(&mut out, "line", d.line);
    out.push(',');
    let ghost line = seq!['{'] + json_string("line"@) + seq![':'] + digits(d.line as nat) + seq![
        ',',
    ];
    assert(out@ == line);
    push_number_field(&mut out, "column", d.column);
    out.push(',');
    let ghost column = line + json_string("column"@) + seq![':'] + digits(d.column as nat) + seq![
        ',',
    ];
    assert(out@ == column);
    push_number_field(&mut out, "end_column", d.end_column);
    out.push(',');
    let ghost end_column = column + json_string("end_column"@) + seq![':'] + digits(
        d.end_column as nat,
    ) + seq![','];
    assert(out@ == end_column);
    push_string_field(&mut out, "original", d.original.as_str());
    out.push(',');
    let ghost original = end_column + json_string("original"@) + seq![':'] + json_string(
        d.original@,
    ) + seq![','];
    assert(out@ == original);
    push_string_field(&mut out, "corrected", d.corrected.as_str());
    out.push(',');
    let ghost corrected = original + json_string("corrected"@) + seq![':'] + json_string(
        d.corrected@,
    ) + seq![','];
    assert(out@ == corrected);
    push_string_field(&mut out, "rule", d.rule.name());
    out.push('}');
    assert(out@ == corrected + json_string("rule"@) + seq![':'] + json_string(rule_name(d.rule))
        + seq!['}']);
    out
}

impl LintResult {
    /// Tells whether linting failed.
    pub fn has_error(&self) -> (b: bool)
        ensures
            b == self.error is Some,
    {
        self.error.is_some()
    }

    /// The message of the error; empty where there is none.
    pub fn error_message(&self) -> (out: String)
        ensures
            out@ == message_of(self.error),
    {
        render_message(self.error)
    }

    /// The textual report: original and corrected form of each changed line.
    pub fn to_diff(&self) -> (out: String)
        ensures
            out@ == lint_diff(self.filepath@, self.hunks@),
    {
        let mut out: Vec<char> = Vec::new();
        push_str(&mut out, "--- ");
        push_str(&mut out, self.filepath.as_str());
        push_str(&mut out, "\n+++ ");
        push_str(&mut out, self.filepath.as_str());
        push_str(&mut out, "\n");
        push_str(&mut out, self.hunks.as_str());
        string_of(&out)
    }

    /// The structured report.
    pub fn to_json(&self) -> (out: String)
        ensures
            out@ == lint_json(self.filepath@, findings_of(self.diagnostics@), self.error is Some),
    {
        let ghost list = findings_of(self.diagnostics@);
        let mut out: Vec<char> = Vec::new();
        out.push('{');
        push_string_field(&mut out, "filepath", self.filepath.as_str());
        out.push(',');
        push_number_field(&mut out, "count", self.diagnostics.len());
        out.push(',');
        push_json_string(&mut out, "diagnostics");
        out.push(':');
        out.push('[');
        let ghost head = out@;
        let n = self.diagnostics.len();
        let mut i: usize = 0;
        while i < n
            invariant
                n == self.diagnostics@.len(),
                i <= n,
                list == findings_of(self.diagnostics@),
                out@ == head + findings_json(list.take(i as int)),
            decreases n - i,
        {
            if i > 0 {
                out.push(',');
            }
            let mut piece = finding_text(&self.diagnostics[i]);
            out.append(&mut piece);
            proof {
                let t = list.take(i + 1);
                assert(t.drop_last() == list.take(i as int));
                assert(t.last() == self.diagnostics@[i as int]@);
                if i == 0 {
                    assert(findings_json(list.take(0)) == Seq::<char>::empty());
                    assert(t[0] == t.last());
                }
                assert(out@ == head + findings_json(t));
            }
            i += 1;
        }
        proof {
            assert(list.take(n as int) == list);
        }
        out.push(']');
        out.push(',');
        push_json_string(&mut out, "errored");
        out.push(':');
        if self.error.is_some() {
            push_str(&mut out, "true");
        } else {
            push_str(&mut out, "false");
        }
        out.push('}');
        proof {
            assert(out@ == lint_json(self.filepath@, list, self.error is Some));
        }
        string_of(&out)
    }
}

} // verus!
