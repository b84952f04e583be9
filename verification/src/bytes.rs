//! Offsets in bytes. Spans and diagnostics count characters; a caller that
//! works on the UTF-8 bytes of a document finds here where each character
//! starts.

use crate::span::{Span, SpanTree};
use vstd::prelude::*;
use vstd::utf8::{encode_scalar, encode_utf8};

verus! {

/// The number of bytes that a character takes in UTF-8.
pub open spec fn utf8_width(c: char) -> int {
    if (c as u32) <= 0x7F {
        1
    } else if (c as u32) <= 0x7FF {
        2
    } else if (c as u32) <= 0xFFFF {
        3
    } else {
        4
    }
}

/// The offset in bytes of the character at `i`: the length of the UTF-8
/// encoding of the characters before it.
pub open spec fn byte_offset(doc: Seq<char>, i: int) -> int {
    encode_utf8(doc.take(i)).len() as int
}

/// A text with one more character takes as many more bytes as that
/// character is wide.
pub proof fn lemma_encoded_len_push(s: Seq<char>, c: char)
    ensures
        encode_utf8(s.push(c)).len() == encode_utf8(s).len() + utf8_width(c),
    decreases s.len(),
{
    assert(encode_scalar(c as u32).len() == utf8_width(c));
    if s.len() == 0 {
        assert(s.push(c).drop_first() == s);
        assert(encode_utf8(s).len() == 0);
    } else {
        assert(s.push(c).drop_first() == s.drop_first().push(c));
        lemma_encoded_len_push(s.drop_first(), c);
    }
}

/// Byte offsets start at 0 and grow by the width of each character.
pub proof fn lemma_byte_offset_step(doc: Seq<char>, i: int)
    requires
        0 <= i < doc.len(),
    ensures
        byte_offset(doc, 0) == 0,
        byte_offset(doc, i + 1) == byte_offset(doc, i) + utf8_width(doc[i]),
        byte_offset(doc, i) < byte_offset(doc, i + 1),
{
    assert(doc.take(0).len() == 0);
    assert(doc.take(i + 1) == doc.take(i).push(doc[i]));
    lemma_encoded_len_push(doc.take(i), doc[i]);
}

/// Byte offsets grow with the offset, and none lies behind the end of the
/// encoded document.
pub proof fn lemma_byte_offset_order(doc: Seq<char>, i: int, j: int)
    requires
        0 <= i <= j <= doc.len(),
    ensures
        byte_offset(doc, i) <= byte_offset(doc, j),
        i < j ==> byte_offset(doc, i) < byte_offset(doc, j),
        byte_offset(doc, j) <= encode_utf8(doc).len(),
        byte_offset(doc, doc.len() as int) == encode_utf8(doc).len(),
    decreases doc.len() - i,
{
    assert(doc.take(doc.len() as int) == doc);
    if i < j {
        lemma_byte_offset_step(doc, i);
        lemma_byte_offset_order(doc, i + 1, j);
    } else if j < doc.len() {
        lemma_byte_offset_step(doc, j);
        lemma_byte_offset_order(doc, j + 1, doc.len() as int);
    }
}

/// The number of bytes that a character takes in UTF-8.
pub fn char_width(c: char) -> (width: usize)
    ensures
        width == utf8_width(c),
{
    let n: u32 = c as u32;
    if n <= 0x7F {
        1
    } else if n <= 0x7FF {
        2
    } else if n <= 0xFFFF {
        3
    } else {
        4
    }
}

/// The byte offset of every character offset of the document, from 0 up to
/// its length; `None` where the encoded document is too long for the
/// machine to address.
pub fn byte_offsets(doc: &Vec<char>) -> (table: Option<Vec<usize>>)
    ensures
        match table {
            Some(t) => t@.len() == doc@.len() + 1 && forall|i: int|
                0 <= i <= doc@.len() ==> #[trigger] t@[i] == byte_offset(doc@, i),
            None => encode_utf8(doc@).len() > usize::MAX,
        },
{
    let n = doc.len();
    let mut table: Vec<usize> = Vec::new();
    let mut at: usize = 0;
    table.push(0);
    proof {
        assert(doc@.take(0).len() == 0);
    }
    let mut i: usize = 0;
    while i < n
        invariant
            n == doc@.len(),
            i <= n,
            at == byte_offset(doc@, i as int),
            table@.len() == i + 1,
            forall|k: int| 0 <= k <= i ==> #[trigger] table@[k] == byte_offset(doc@, k),
        decreases n - i,
    {
        let width = char_width(doc[i]);
        proof {
            lemma_byte_offset_step(doc@, i as int);
            lemma_byte_offset_order(doc@, i + 1, i + 1);
        }
        if width > usize::MAX - at {
            return None;
        }
        at = at + width;
        table.push(at);
        i += 1;
    }
    Some(table)
}

impl SpanTree {
    /// The spans of the tree with their ends in bytes, in the same order;
    /// `None` where the encoded document is too long for the machine to
    /// address.
    pub fn byte_spans(&self, doc: &Vec<char>) -> (spans: Option<Vec<Span>>)
        requires
            self.wf(doc@.len() as int),
        ensures
            match spans {
                Some(list) => list@.len() == self.nodes@.len() && forall|k: int|
                    0 <= k < list@.len() ==> {
                        let b = #[trigger] list@[k];
                        let s = self.nodes@[k];
                        b.start == byte_offset(doc@, s.start as int) && b.end == byte_offset(
                            doc@,
                            s.end as int,
                        ) && b.kind == s.kind
                    },
                None => encode_utf8(doc@).len() > usize::MAX,
            },
    {
        let table = match byte_offsets(doc) {
            Some(table) => table,
            None => {
                return None;
            },
        };
        let count = self.nodes.len();
        let mut list: Vec<Span> = Vec::new();
        let mut k: usize = 0;
        while k < count
            invariant
                count == self.nodes@.len(),
                k <= count,
                self.wf(doc@.len() as int),
                table@.len() == doc@.len() + 1,
                forall|i: int| 0 <= i <= doc@.len() ==> #[trigger] table@[i] == byte_offset(doc@, i),
                list@.len() == k,
                forall|j: int|
                    0 <= j < k ==> {
                        let b = #[trigger] list@[j];
                        let s = self.nodes@[j];
                        b.start == byte_offset(doc@, s.start as int) && b.end == byte_offset(
                            doc@,
                            s.end as int,
                        ) && b.kind == s.kind
                    },
            decreases count - k,
        {
            let s = self.nodes[k];
            assert(self@[k as int] == s@);
            list.push(Span { start: table[s.start], end: table[s.end], kind: s.kind });
            k += 1;
        }
        Some(list)
    }
}

} // verus!
