//! The registry of grammars, keyed by language tag, and the passes over one
//! document that go through it.

use crate::diagnostic::{findings_of, Finding};
use crate::engine::{correct, corrected, diff, doc_diff, doc_findings, lint};
use crate::grammar::{Fault, ParseError};
use crate::java::{java_output, java_tree, lemma_format_java_idempotent, segment_java};
use crate::result::{fault_text, message_of, CoreError, FormatResult, LintResult};
use crate::span::{Extent, SpanTree};
use crate::text::{chars_of, digits, push_range, string_of};
use vstd::prelude::*;

verus! {

/// The languages that have a grammar.
#[derive(Clone, Copy, Debug, PartialEq, Eq, Structural)]
pub enum Language {
    Java,
}

/// The language that a tag selects.
pub open spec fn language_of(tag: Seq<char>) -> Option<Language> {
    if tag == "java"@ {
        Some(Language::Java)
    } else {
        None
    }
}

/// The span tree that the grammar of `language` gives of `doc`.
pub open spec fn tree_of(language: Language, doc: Seq<char>) -> Result<Seq<Extent>, Fault> {
    match language {
        Language::Java => java_tree(doc),
    }
}

/// What formatting makes of a document under a language tag: the corrected
/// document where a grammar is registered for the tag and can segment the
/// document, and else the document as it is.
pub open spec fn formatted(doc: Seq<char>, tag: Seq<char>) -> Seq<char> {
    match language_of(tag) {
        None => doc,
        Some(language) => match tree_of(language, doc) {
            Err(_) => doc,
            Ok(nodes) => corrected(doc, nodes),
        },
    }
}

/// Whether formatting under a language tag fails: no grammar is registered
/// for the tag, or the grammar cannot segment the document.
pub open spec fn format_fails(doc: Seq<char>, tag: Seq<char>) -> bool {
    match language_of(tag) {
        None => true,
        Some(language) => tree_of(language, doc) is Err,
    }
}

/// Whether the grammar that is registered for the tag cannot segment the
/// document: the failure that is reported. A tag without a grammar is no
/// such failure; its files are passed over in silence.
pub open spec fn parse_fails(doc: Seq<char>, tag: Seq<char>) -> bool {
    match language_of(tag) {
        None => false,
        Some(language) => tree_of(language, doc) is Err,
    }
}

/// The message of the failure; empty where formatting does not fail.
pub open spec fn failure_message(doc: Seq<char>, tag: Seq<char>) -> Seq<char> {
    match language_of(tag) {
        None => message_of(Some(CoreError::UnsupportedLanguage)),
        Some(language) => match tree_of(language, doc) {
            Err(fault) => fault_text(fault.kind) + " at offset "@ + digits(fault.offset as nat),
            Ok(_) => Seq::empty(),
        },
    }
}

/// What lint finds in a document under a language tag; nothing where
/// formatting fails.
pub open spec fn linted(doc: Seq<char>, tag: Seq<char>) -> Seq<Finding> {
    match language_of(tag) {
        None => Seq::empty(),
        Some(language) => match tree_of(language, doc) {
            Err(_) => Seq::empty(),
            Ok(nodes) => doc_findings(doc, nodes),
        },
    }
}

/// The hunks of the lines that formatting changes; none where it fails.
pub open spec fn hunks_of(doc: Seq<char>, tag: Seq<char>) -> Seq<char> {
    match language_of(tag) {
        None => Seq::empty(),
        Some(language) => match tree_of(language, doc) {
            Err(_) => Seq::empty(),
            Ok(nodes) => doc_diff(doc, nodes),
        },
    }
}

/// Formatting is idempotent under every language tag, and fails closed: a
/// document on which it fails is left as it is.
pub proof fn lemma_format_idempotent(doc: Seq<char>, tag: Seq<char>)
    ensures
        formatted(formatted(doc, tag), tag) == formatted(doc, tag),
        format_fails(doc, tag) ==> formatted(doc, tag) == doc && linted(doc, tag).len() == 0,
        !format_fails(doc, tag) ==> !format_fails(formatted(doc, tag), tag) && linted(
            formatted(doc, tag),
            tag,
        ).len() == 0,
{
    match language_of(tag) {
        None => {},
        Some(Language::Java) => {
            lemma_format_java_idempotent(doc);
            assert(formatted(doc, tag) == java_output(doc, false));
        },
    }
}

/// One more than the offset of the last `c` in `s`, and 0 where `s` holds none.
pub open spec fn after_last(s: Seq<char>, c: char) -> int
    decreases s.len(),
{
    if s.len() == 0 {
        0
    } else if s.last() == c {
        s.len() as int
    } else {
        after_last(s.drop_last(), c)
    }
}

/// The name of the file that a path leads to: what stands behind its last `/`.
pub open spec fn base_name(path: Seq<char>) -> Seq<char> {
    path.subrange(after_last(path, '/'), path.len() as int)
}

/// The extension of the file that a path leads to: what stands behind the
/// last `.` of its name. A name without a `.`, or with none but the first
/// character, has the empty extension.
pub open spec fn extension_of(path: Seq<char>) -> Seq<char> {
    let name = base_name(path);
    if after_last(name, '.') <= 1 {
        Seq::empty()
    } else {
        name.subrange(after_last(name, '.'), name.len() as int)
    }
}

/// The place behind the last `c` lies inside the text.
pub proof fn lemma_after_last_bounds(s: Seq<char>, c: char)
    ensures
        0 <= after_last(s, c) <= s.len(),
    decreases s.len(),
{
    if s.len() > 0 && s.last() != c {
        lemma_after_last_bounds(s.drop_last(), c);
    }
}

/// Tells whether two texts hold the same characters.
pub fn chars_equal(a: &Vec<char>, b: &Vec<char>) -> (same: bool)
    ensures
        same == (a@ == b@),
{
    if a.len() != b.len() {
        return false;
    }
    let mut i: usize = 0;
    while i < a.len()
        invariant
            a@.len() == b@.len(),
            i <= a@.len(),
            a@.take(i as int) == b@.take(i as int),
        decreases a@.len() - i,
    {
        if a[i] != b[i] {
            return false;
        }
        proof {
            assert(a@.take(i + 1) == a@.take(i as int).push(a@[i as int]));
            assert(b@.take(i + 1) == b@.take(i as int).push(b@[i as int]));
        }
        i += 1;
    }
    proof {
        assert(a@.take(a@.len() as int) == a@);
        assert(b@.take(b@.len() as int) == b@);
    }
    true
}

fn find_after_last(v: &Vec<char>, from: usize, c: char) -> (at: usize)
    requires
        from <= v@.len(),
    ensures
        at == after_last(v@.subrange(from as int, v@.len() as int), c),
        at <= v@.len() - from,
{
    let ghost s = v@.subrange(from as int, v@.len() as int);
    let mut i: usize = v.len();
    proof {
        assert(s.take(v@.len() - from) == s);
    }
    while i > from
        invariant
            from <= i <= v@.len(),
            s == v@.subrange(from as int, v@.len() as int),
            after_last(s, c) == after_last(s.take(i - from), c),
        decreases i,
    {
        proof {
            let t = s.take(i - from);
            assert(t.last() == v@[i - 1]);
            assert(t.drop_last() == s.take(i - from - 1));
        }
        if v[i - 1] == c {
            return i - from;
        }
        i -= 1;
    }
    proof {
        assert(s.take(0).len() == 0);
    }
    0
}

/// Looks a language tag up.
pub fn find_language(tag: &str) -> (language: Option<Language>)
    ensures
        language == language_of(tag@),
{
    let given = chars_of(tag);
    let java = chars_of("java");
    if chars_equal(&given, &java) {
        Some(Language::Java)
    } else {
        None
    }
}

/// Tells whether a grammar is registered for the tag.
pub fn is_support_type(filetype: &str) -> (supported: bool)
    ensures
        supported == language_of(filetype@) is Some,
{
    find_language(filetype).is_some()
}

/// The extension of the file that a path leads to.
pub fn get_file_extension(path: &str) -> (extension: String)
    ensures
        extension@ == extension_of(path@),
{
    let v = chars_of(path);
    let start = find_after_last(&v, 0, '/');
    proof {
        assert(v@.subrange(0, v@.len() as int) == v@);
        lemma_after_last_bounds(v@, '/');
    }
    let dot = find_after_last(&v, start, '.');
    let n = v.len();
    let mut out: Vec<char> = Vec::new();
    if dot > 1 {
        push_range(&mut out, &v, start + dot, n);
        proof {
            let name = base_name(v@);
            assert(name.subrange(dot as int, name.len() as int) == v@.subrange(
                start + dot,
                v@.len() as int,
            ));
        }
    }
    string_of(&out)
}

/// A document with the language that selects its grammar: the input of
/// one pass.
#[derive(Debug)]
pub struct SourceDocument {
    /// The text, as Unicode scalar values.
    pub text: Vec<char>,
    /// The language of the text.
    pub language: Language,
}

impl SourceDocument {
    /// The document that holds the text `raw` in the given language.
    pub fn new(raw: &str, language: Language) -> (doc: SourceDocument)
        ensures
            doc.text@ == raw@,
            doc.language == language,
    {
        SourceDocument { text: chars_of(raw), language }
    }

    /// Segments the document by the grammar of its language. Segmentation
    /// fails as a whole: there is a tree over the whole document or none.
    pub fn segment(&self) -> (tree: Result<SpanTree, ParseError>)
        ensures
            match tree {
                Ok(t) => tree_of(self.language, self.text@) == Ok::<Seq<Extent>, Fault>(t@)
                    && t.wf(self.text@.len() as int),
                Err(e) => tree_of(self.language, self.text@) == Err::<Seq<Extent>, Fault>(e@),
            },
    {
        match self.language {
            Language::Java => segment_java(&self.text),
        }
    }

    /// Formats the document. Where its grammar cannot segment it, the
    /// result carries the error and the text as it came.
    pub fn format(&self) -> (result: FormatResult)
        ensures
            match tree_of(self.language, self.text@) {
                Err(fault) => result.text@ == self.text@ && (result.error matches Some(
                    CoreError::Parse(e),
                ) && e@ == fault),
                Ok(nodes) => result.text@ == corrected(self.text@, nodes) && result.error is None,
            },
    {
        match self.segment() {
            Err(e) => FormatResult { text: string_of(&self.text), error: Some(CoreError::Parse(e)) },
            Ok(tree) => FormatResult { text: string_of(&correct(&tree, &self.text)), error: None },
        }
    }

    /// Lints the document: reports each change that formatting would make,
    /// and the changed lines as hunks. Where its grammar cannot segment it,
    /// the result carries the error and reports nothing. The file path is
    /// left empty for the caller to fill in.
    pub fn lint(&self) -> (result: LintResult)
        ensures
            result.filepath@ == Seq::<char>::empty(),
            match tree_of(self.language, self.text@) {
                Err(fault) => result.diagnostics@.len() == 0 && result.hunks@.len() == 0 && (
                result.error matches Some(CoreError::Parse(e)) && e@ == fault),
                Ok(nodes) => findings_of(result.diagnostics@) == doc_findings(self.text@, nodes)
                    && result.hunks@ == doc_diff(self.text@, nodes) && result.error is None,
            },
    {
        match self.segment() {
            Err(e) => LintResult {
                filepath: String::new(),
                diagnostics: Vec::new(),
                hunks: String::new(),
                error: Some(CoreError::Parse(e)),
            },
            Ok(tree) => LintResult {
                filepath: String::new(),
                diagnostics: lint(&tree, &self.text),
                hunks: string_of(&diff(&tree, &self.text)),
                error: None,
            },
        }
    }
}

/// Formats a document of the given language. Where no grammar is registered
/// for the tag, or the grammar cannot segment the document, the result
/// carries the error and the text as it came.
pub fn format_for(raw: &str, filetype: &str) -> (result: FormatResult)
    ensures
        match language_of(filetype@) {
            None => result.text@ == raw@ && result.error == Some(CoreError::UnsupportedLanguage),
            Some(language) => match tree_of(language, raw@) {
                Err(fault) => result.text@ == raw@ && (result.error matches Some(
                    CoreError::Parse(e),
                ) && e@ == fault),
                Ok(nodes) => result.text@ == corrected(raw@, nodes) && result.error is None,
            },
        },
        result.text@ == formatted(raw@, filetype@),
        result.error is Some <==> format_fails(raw@, filetype@),
        result.error is Some ==> result.text@ == raw@,
        message_of(result.error) == failure_message(raw@, filetype@),
{
    match find_language(filetype) {
        None => FormatResult {
            text: raw.to_owned(),
            error: Some(CoreError::UnsupportedLanguage),
        },
        Some(language) => SourceDocument::new(raw, language).format(),
    }
}

/// Lints a document of the given language: reports each change that
/// formatting would make, and the changed lines as hunks. Where no grammar
/// is registered for the tag, or the grammar cannot segment the document,
/// the result carries the error and reports nothing. The file path is left
/// empty for the caller to fill in.
pub fn lint_for(raw: &str, filetype: &str) -> (result: LintResult)
    ensures
        result.filepath@ == Seq::<char>::empty(),
        match language_of(filetype@) {
            None => result.error == Some(CoreError::UnsupportedLanguage),
            Some(language) => match tree_of(language, raw@) {
                Err(fault) => result.error matches Some(CoreError::Parse(e)) && e@ == fault,
                Ok(nodes) => findings_of(result.diagnostics@) == doc_findings(raw@, nodes)
                    && result.hunks@ == doc_diff(raw@, nodes) && result.error is None,
            },
        },
        findings_of(result.diagnostics@) == linted(raw@, filetype@),
        result.hunks@ == hunks_of(raw@, filetype@),
        result.error is Some <==> format_fails(raw@, filetype@),
        result.error is Some ==> result.diagnostics@.len() == 0 && result.hunks@.len() == 0,
        message_of(result.error) == failure_message(raw@, filetype@),
{
    match find_language(filetype) {
        None => LintResult {
            filepath: String::new(),
            diagnostics: Vec::new(),
            hunks: String::new(),
            error: Some(CoreError::UnsupportedLanguage),
        },
        Some(language) => SourceDocument::new(raw, language).lint(),
    }
}

} // verus!
