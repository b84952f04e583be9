//! What a run decides on: the mode, what to do with each file, the final
//! report and the exit status. Reading, writing and printing are left to
//! the caller.

use crate::registry::{
    chars_equal, failure_message, format_fails, format_for, formatted, hunks_of, language_of,
    lint_for, linted, parse_fails,
};
use crate::result::{lint_diff, lint_json, CoreError};
use crate::text::{chars_of, digits, push_decimal, push_str, string_of};
use vstd::prelude::*;

verus! {

/// The form of the lint report.
#[derive(Clone, Copy, Debug, PartialEq, Eq, Structural)]
pub enum Formatter {
    /// Original and corrected lines, as a diff.
    Diff,
    /// Structured, as JSON.
    Json,
}

/// The mode of a run.
#[derive(Clone, Copy, Debug, PartialEq, Eq, Structural)]
pub struct Mode {
    /// Report the changes, and change nothing.
    pub lint: bool,
    /// Rewrite the files.
    pub fix: bool,
    /// Report errors and timings too.
    pub debug: bool,
    /// The form of the lint report.
    pub formatter: Formatter,
}

/// The formatter that a name selects: `json` selects JSON, every other
/// name the diff.
pub open spec fn formatter_of(name: Seq<char>) -> Formatter {
    if name == "json"@ {
        Formatter::Json
    } else {
        Formatter::Diff
    }
}

/// Settles the mode of a run from its switches. Fixing wins over linting.
pub fn resolve_mode(fix: bool, lint: bool, debug: bool, formatter: &str) -> (mode: Mode)
    ensures
        mode.fix == fix,
        mode.lint == (lint && !fix),
        mode.debug == debug,
        mode.formatter == formatter_of(formatter@),
{
    let name = chars_of(formatter);
    let json = chars_of("json");
    let formatter = if chars_equal(&name, &json) {
        Formatter::Json
    } else {
        Formatter::Diff
    };
    Mode { lint: lint && !fix, fix, debug, formatter }
}

/// The language tag for a file: the forced one where one is given, else
/// the file's extension.
pub fn choose_filetype(extension: String, forced: &str) -> (tag: String)
    ensures
        tag@ == if forced@.len() == 0 {
            extension@
        } else {
            forced@
        },
{
    if forced.is_empty() {
        extension
    } else {
        forced.to_owned()
    }
}

/// The error entry for a file that its grammar cannot segment: the path of
/// the file, a line feed, and the message of the failure.
pub open spec fn failure_entry(filepath: Seq<char>, raw: Seq<char>, tag: Seq<char>) -> Seq<char> {
    filepath + "\n"@ + failure_message(raw, tag)
}

/// The error entry that is owed for a file: one where its grammar cannot
/// segment it, whatever the mode, and none otherwise.
pub open spec fn owed_entry(filepath: Seq<char>, raw: Seq<char>, tag: Seq<char>) -> Option<
    Seq<char>,
> {
    if parse_fails(raw, tag) {
        Some(failure_entry(filepath, raw, tag))
    } else {
        None
    }
}

/// The text of an entry that is handed out, if one is.
pub open spec fn entry_text(entry: Option<String>) -> Option<Seq<char>> {
    match entry {
        Some(text) => Some(text@),
        None => None,
    }
}

/// What to do with a file after formatting it.
#[derive(Debug, PartialEq, Eq)]
pub enum FormatAction {
    /// The grammar could not segment the file: leave the file alone and
    /// report this error entry.
    Fail(String),
    /// There is nothing to write: no grammar is registered for the tag, or
    /// there is no file.
    Skip,
    /// The file is as it should be: nothing to write.
    Keep,
    /// Write the corrected text to the file.
    Write(String),
    /// Print the text, and report the error entry where there is one.
    Print(String, Option<String>),
}

fn render_entry(filepath: &str, message: &str) -> (entry: String)
    ensures
        entry@ == filepath@ + "\n"@ + message@,
{
    let mut out: Vec<char> = Vec::new();
    push_str(&mut out, filepath);
    push_str(&mut out, "\n");
    push_str(&mut out, message);
    string_of(&out)
}

/// Formats a document and decides what to do with the outcome. When
/// fixing, a file is written only if formatting succeeded and changed it.
/// When not fixing, the text is printed: corrected, or as it came where
/// formatting failed. In either mode a file that its grammar cannot
/// segment has its error entry handed out; a tag without a grammar has
/// none.
pub fn format_step(mode: &Mode, filepath: &str, raw: &str, filetype: &str) -> (action: FormatAction)
    ensures
        match action {
            FormatAction::Fail(entry) => mode.fix && parse_fails(raw@, filetype@) && entry@
                == failure_entry(filepath@, raw@, filetype@),
            FormatAction::Skip => mode.fix && (language_of(filetype@) is None || (!format_fails(
                raw@,
                filetype@,
            ) && filepath@.len() == 0)),
            FormatAction::Keep => mode.fix && !format_fails(raw@, filetype@) && filepath@.len() > 0
                && formatted(raw@, filetype@) == raw@,
            FormatAction::Write(text) => mode.fix && !format_fails(raw@, filetype@)
                && filepath@.len() > 0 && text@ == formatted(raw@, filetype@) && text@ != raw@,
            FormatAction::Print(text, entry) => !mode.fix && text@ == formatted(raw@, filetype@)
                && entry_text(entry) == owed_entry(filepath@, raw@, filetype@),
        },
{
    let result = format_for(raw, filetype);
    let entry = match result.error {
        Some(CoreError::Parse(_)) => Some(
            render_entry(filepath, result.error_message().as_str()),
        ),
        _ => None,
    };
    if mode.fix {
        if result.has_error() {
            match entry {
                Some(text) => FormatAction::Fail(text),
                None => FormatAction::Skip,
            }
        } else if filepath.is_empty() {
            FormatAction::Skip
        } else {
            let before = chars_of(raw);
            let after = chars_of(result.text.as_str());
            if chars_equal(&before, &after) {
                FormatAction::Keep
            } else {
                FormatAction::Write(result.text)
            }
        }
    } else {
        FormatAction::Print(result.text, entry)
    }
}

/// The report on one file in the form that the mode asks for.
pub open spec fn lint_report(
    formatter: Formatter,
    filepath: Seq<char>,
    raw: Seq<char>,
    tag: Seq<char>,
) -> Seq<char> {
    match formatter {
        Formatter::Json => lint_json(filepath, linted(raw, tag), false),
        Formatter::Diff => lint_diff(filepath, hunks_of(raw, tag)),
    }
}

/// What linting a file came to.
#[derive(Debug, PartialEq, Eq)]
pub enum LintAction {
    /// The grammar could not segment the file: there are no findings, and
    /// this error entry is to be reported.
    Fail(String),
    /// No grammar is registered for the tag: the file is passed over.
    Skip,
    /// Nothing was found.
    Clean,
    /// Something was found: the report on the file.
    Report(String),
}

/// Lints a document and renders the report on it, in the form that the
/// mode asks for. A document in which nothing is found has no report. A
/// file that its grammar cannot segment has its error entry handed out; a
/// tag without a grammar has none.
pub fn lint_step(mode: &Mode, filepath: &str, raw: &str, filetype: &str) -> (action: LintAction)
    ensures
        match action {
            LintAction::Fail(entry) => parse_fails(raw@, filetype@) && entry@ == failure_entry(
                filepath@,
                raw@,
                filetype@,
            ),
            LintAction::Skip => language_of(filetype@) is None,
            LintAction::Clean => !format_fails(raw@, filetype@) && linted(raw@, filetype@).len()
                == 0,
            LintAction::Report(text) => !format_fails(raw@, filetype@) && linted(
                raw@,
                filetype@,
            ).len() > 0 && text@ == lint_report(mode.formatter, filepath@, raw@, filetype@),
        },
{
    let mut result = lint_for(raw, filetype);
    match result.error {
        Some(CoreError::Parse(_)) => {
            return LintAction::Fail(render_entry(filepath, result.error_message().as_str()));
        },
        Some(CoreError::UnsupportedLanguage) => {
            return LintAction::Skip;
        },
        None => {},
    }
    result.filepath = filepath.to_owned();
    if result.diagnostics.len() == 0 {
        return LintAction::Clean;
    }
    match mode.formatter {
        Formatter::Json => LintAction::Report(result.to_json()),
        Formatter::Diff => LintAction::Report(result.to_diff()),
    }
}

/// The exit status of a run: 1 where lint found something in any file, and
/// else 0.
pub fn exit_status(mode: &Mode, reports: usize) -> (status: i32)
    ensures
        status == if mode.lint && reports > 0 {
            1i32
        } else {
            0i32
        },
{
    if mode.lint && reports > 0 {
        1
    } else {
        0
    }
}

/// The texts of a list of strings.
pub open spec fn texts(list: Seq<String>) -> Seq<Seq<char>> {
    list.map_values(|s: String| s@)
}

/// The parts with `sep` between each two of them.
pub open spec fn join(parts: Seq<Seq<char>>, sep: Seq<char>) -> Seq<char>
    decreases parts.len(),
{
    if parts.len() == 0 {
        Seq::empty()
    } else if parts.len() == 1 {
        parts[0]
    } else {
        join(parts.drop_last(), sep) + sep + parts.last()
    }
}

/// The final report in JSON: the number of files with findings, and the
/// reports on them.
pub open spec fn json_summary(reports: Seq<Seq<char>>) -> Seq<char> {
    "{\"count\": "@ + digits(reports.len()) + ",\"messages\": ["@ + join(reports, ","@) + "]}"@
}

fn push_joined(out: &mut Vec<char>, parts: &Vec<String>, sep: &str)
    ensures
        final(out)@ == old(out)@ + join(texts(parts@), sep@),
{
    let ghost before = out@;
    let ghost list = texts(parts@);
    let n = parts.len();
    let mut i: usize = 0;
    while i < n
        invariant
            n == parts@.len(),
            i <= n,
            list == texts(parts@),
            out@ == before + join(list.take(i as int), sep@),
        decreases n - i,
    {
        if i > 0 {
            push_str(out, sep);
        }
        push_str(out, parts[i].as_str());
        proof {
            let t = list.take(i + 1);
            assert(t.drop_last() == list.take(i as int));
            assert(t.last() == parts@[i as int]@);
            if i == 0 {
                assert(join(list.take(0), sep@) == Seq::<char>::empty());
                assert(t[0] == t.last());
            }
            assert(out@ == before + join(t, sep@));
        }
        i += 1;
    }
    proof {
        assert(list.take(n as int) == list);
    }
}

/// Renders the final report of a lint run in JSON.
pub fn render_json_summary(reports: &Vec<String>) -> (out: String)
    ensures
        out@ == json_summary(texts(reports@)),
{
    let mut out: Vec<char> = Vec::new();
    push_str(&mut out, "{\"count\": ");
    push_decimal(&mut out, reports.len());
    push_str(&mut out, ",\"messages\": [");
    push_joined(&mut out, reports, ",");
    push_str(&mut out, "]}");
    string_of(&out)
}

/// Renders the final report of a lint run as a diff: the reports on the
/// files, one after the other.
pub fn render_diff_summary(reports: &Vec<String>) -> (out: String)
    ensures
        out@ == join(texts(reports@), "\n"@),
{
    let mut out: Vec<char> = Vec::new();
    push_joined(&mut out, reports, "\n");
    string_of(&out)
}

} // verus!
