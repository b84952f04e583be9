//! What the grammars share: parse errors, the check for characters that no
//! source file may hold, and the scans for the end of a line, of a block
//! comment and of a quoted literal.

use vstd::prelude::*;

verus! {

/// Why a document could not be segmented.
#[derive(Clone, Copy, Debug, PartialEq, Eq, Structural)]
pub enum FaultKind {
    /// A control character other than tab, line feed, form feed and carriage
    /// return.
    IllegalControl,
    /// A block comment that is not closed.
    UnterminatedComment,
    /// A string literal that is not closed.
    UnterminatedString,
}

/// A parse error as the contracts speak of it.
pub struct Fault {
    pub offset: int,
    pub kind: FaultKind,
}

/// A parse error: what is wrong, and the offset of the character at which
/// the offending piece starts.
#[derive(Clone, Copy, Debug, PartialEq, Eq, Structural)]
pub struct ParseError {
    pub offset: usize,
    pub kind: FaultKind,
}

impl View for ParseError {
    type V = Fault;

    open spec fn view(&self) -> Fault {
        Fault { offset: self.offset as int, kind: self.kind }
    }
}

/// The character may not stand in a source file.
pub open spec fn illegal(c: char) -> bool {
    let n = c as int;
    (n < 0x20 && n != 0x09 && n != 0x0A && n != 0x0C && n != 0x0D) || n == 0x7F
}

/// The offset of the first illegal character at or behind `p`, or the
/// length of the document where there is none.
pub open spec fn first_illegal(doc: Seq<char>, p: int) -> int
    decreases doc.len() - p,
{
    if p >= doc.len() {
        doc.len() as int
    } else if illegal(doc[p]) {
        p
    } else {
        first_illegal(doc, p + 1)
    }
}

/// The offset of the first line feed at or behind `p`, or the length of the
/// document where there is none.
pub open spec fn line_end(doc: Seq<char>, p: int) -> int
    decreases doc.len() - p,
{
    if p >= doc.len() {
        doc.len() as int
    } else if doc[p] == '\n' {
        p
    } else {
        line_end(doc, p + 1)
    }
}

/// The offset behind the first `*/` that starts at or behind `p`.
pub open spec fn block_end(doc: Seq<char>, p: int) -> Option<int>
    decreases doc.len() - p,
{
    if p + 1 >= doc.len() {
        None
    } else if doc[p] == '*' && doc[p + 1] == '/' {
        Some(p + 2)
    } else {
        block_end(doc, p + 1)
    }
}

/// The offset behind the quote that closes a literal whose body starts at
/// `p`. A backslash takes the character behind it along; the literal must
/// close before its line ends.
pub open spec fn literal_end(doc: Seq<char>, p: int, quote: char) -> Option<int>
    decreases doc.len() - p,
{
    if p >= doc.len() || doc[p] == '\n' {
        None
    } else if doc[p] == quote {
        Some(p + 1)
    } else if doc[p] == '\\' {
        if p + 1 < doc.len() && doc[p + 1] != '\n' {
            literal_end(doc, p + 2, quote)
        } else {
            None
        }
    } else {
        literal_end(doc, p + 1, quote)
    }
}

/// The offset behind the `"""` that closes a text block whose body starts at
/// `p`. A backslash takes the character behind it along.
pub open spec fn text_block_end(doc: Seq<char>, p: int) -> Option<int>
    decreases doc.len() - p,
{
    if p >= doc.len() {
        None
    } else if doc[p] == '\\' {
        if p + 1 < doc.len() {
            text_block_end(doc, p + 2)
        } else {
            None
        }
    } else if doc[p] == '"' && p + 2 < doc.len() && doc[p + 1] == '"' && doc[p + 2] == '"' {
        Some(p + 3)
    } else {
        text_block_end(doc, p + 1)
    }
}

/// Each scan ends at or behind the offset where it starts, inside the document.
pub proof fn lemma_scan_bounds(doc: Seq<char>, p: int, quote: char)
    requires
        0 <= p <= doc.len(),
    ensures
        p <= first_illegal(doc, p) <= doc.len(),
        forall|j: int| p <= j < first_illegal(doc, p) ==> !illegal(#[trigger] doc[j]),
        first_illegal(doc, p) < doc.len() ==> illegal(doc[first_illegal(doc, p)]),
        p <= line_end(doc, p) <= doc.len(),
        block_end(doc, p) is Some ==> p + 2 <= block_end(doc, p).unwrap() <= doc.len(),
        literal_end(doc, p, quote) is Some ==> p + 1 <= literal_end(doc, p, quote).unwrap()
            <= doc.len(),
        text_block_end(doc, p) is Some ==> p + 3 <= text_block_end(doc, p).unwrap() <= doc.len(),
    decreases doc.len() - p,
{
    if p < doc.len() {
        lemma_scan_bounds(doc, p + 1, quote);
        if p + 1 < doc.len() {
            lemma_scan_bounds(doc, p + 2, quote);
        }
    }
}

/// Tells whether a character may not stand in a source file.
pub fn is_illegal(c: char) -> (b: bool)
    ensures
        b == illegal(c),
{
    let n: u32 = c as u32;
    (n < 0x20 && n != 0x09 && n != 0x0A && n != 0x0C && n != 0x0D) || n == 0x7F
}

/// Finds the first illegal character at or behind `p`.
pub fn find_illegal(doc: &Vec<char>, p: usize) -> (e: usize)
    requires
        p <= doc@.len(),
    ensures
        e == first_illegal(doc@, p as int),
{
    let n = doc.len();
    let mut q = p;
    while q < n && !is_illegal(doc[q])
        invariant
            n == doc@.len(),
            p <= q <= n,
            first_illegal(doc@, p as int) == first_illegal(doc@, q as int),
        decreases n - q,
    {
        q += 1;
    }
    q
}

/// Finds the end of the line of `p`.
pub fn find_line_end(doc: &Vec<char>, p: usize) -> (e: usize)
    requires
        p <= doc@.len(),
    ensures
        e == line_end(doc@, p as int),
{
    let n = doc.len();
    let mut q = p;
    while q < n && doc[q] != '\n'
        invariant
            n == doc@.len(),
            p <= q <= n,
            line_end(doc@, p as int) == line_end(doc@, q as int),
        decreases n - q,
    {
        q += 1;
    }
    q
}

/// Finds the end of a block comment whose body starts at `p`.
pub fn find_block_end(doc: &Vec<char>, p: usize) -> (e: Option<usize>)
    requires
        p <= doc@.len(),
    ensures
        match e {
            Some(e) => block_end(doc@, p as int) == Some(e as int),
            None => block_end(doc@, p as int) is None,
        },
{
    let n = doc.len();
    let mut q = p;
    while n - q >= 2
        invariant
            n == doc@.len(),
            p <= q <= n,
            block_end(doc@, p as int) == block_end(doc@, q as int),
        decreases n - q,
    {
        if doc[q] == '*' && doc[q + 1] == '/' {
            return Some(q + 2);
        }
        q += 1;
    }
    None
}

/// Finds the end of a quoted literal whose body starts at `p`.
pub fn find_literal_end(doc: &Vec<char>, p: usize, quote: char) -> (e: Option<usize>)
    requires
        p <= doc@.len(),
    ensures
        match e {
            Some(e) => literal_end(doc@, p as int, quote) == Some(e as int),
            None => literal_end(doc@, p as int, quote) is None,
        },
{
    let n = doc.len();
    let mut q = p;
    while q < n
        invariant
            n == doc@.len(),
            p <= q <= n,
            literal_end(doc@, p as int, quote) == literal_end(doc@, q as int, quote),
        decreases n - q,
    {
        let c = doc[q];
        if c == '\n' {
            return None;
        } else if c == quote {
            return Some(q + 1);
        } else if c == '\\' {
            if n - q >= 2 && doc[q + 1] != '\n' {
                q += 2;
            } else {
                return None;
            }
        } else {
            q += 1;
        }
    }
    None
}

/// Finds the end of a text block whose body starts at `p`.
pub fn find_text_block_end(doc: &Vec<char>, p: usize) -> (e: Option<usize>)
    requires
        p <= doc@.len(),
    ensures
        match e {
            Some(e) => text_block_end(doc@, p as int) == Some(e as int),
            None => text_block_end(doc@, p as int) is None,
        },
{
    let n = doc.len();
    let mut q = p;
    while q < n
        invariant
            n == doc@.len(),
            p <= q <= n,
            text_block_end(doc@, p as int) == text_block_end(doc@, q as int),
        decreases n - q,
    {
        let c = doc[q];
        if c == '\\' {
            if n - q >= 2 {
                q += 2;
            } else {
                return None;
            }
        } else if c == '"' && n - q >= 3 && doc[q + 1] == '"' && doc[q + 2] == '"' {
            return Some(q + 3);
        } else {
            q += 1;
        }
    }
    None
}

} // verus!
