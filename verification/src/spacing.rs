//! Insertion of spaces into a text, and what holds of the result.
//!
//! A gap is the place between the characters at `i` and `i + 1`; it is named
//! by `i`. A text is corrected by putting one ASCII space into each gap that
//! a predicate marks.

use crate::rules::{needs_space, rule_at};
use vstd::prelude::*;

verus! {

/// `s` with one ASCII space put into each gap `i` for which `gap(i)` holds.
pub open spec fn with_spaces(s: Seq<char>, gap: spec_fn(int) -> bool) -> Seq<char>
    decreases s.len(),
{
    if s.len() <= 1 {
        s
    } else {
        let head = with_spaces(s.drop_last(), gap);
        if gap(s.len() - 2) {
            head.push(' ').push(s.last())
        } else {
            head.push(s.last())
        }
    }
}

/// The number of marked gaps among the first `n`.
pub open spec fn gap_count(gap: spec_fn(int) -> bool, n: int) -> nat
    decreases n,
{
    if n <= 0 {
        0
    } else {
        gap_count(gap, n - 1) + if gap(n - 1) {
            1nat
        } else {
            0nat
        }
    }
}

/// Where the character at `i` of the original stands in the corrected text.
pub open spec fn moved(gap: spec_fn(int) -> bool, i: int) -> int {
    i + gap_count(gap, i)
}

/// The gaps of `s` in which a rule fires.
pub open spec fn text_gap(s: Seq<char>) -> spec_fn(int) -> bool {
    |i: int| 0 <= i && i + 1 < s.len() && needs_space(s[i], s[i + 1])
}

/// The corrected form of a text that is correctable as a whole.
pub open spec fn spaced(s: Seq<char>) -> Seq<char> {
    with_spaces(s, text_gap(s))
}

/// No rule fires anywhere in `t`.
pub open spec fn settled(t: Seq<char>) -> bool {
    forall|j: int| 0 <= j && j + 1 < t.len() ==> !needs_space(#[trigger] t[j], t[j + 1])
}

/// The count grows with the number of gaps looked at.
pub proof fn lemma_gap_count_monotonic(gap: spec_fn(int) -> bool, m: int, n: int)
    requires
        m <= n,
    ensures
        gap_count(gap, m) <= gap_count(gap, n),
        gap_count(gap, n) - gap_count(gap, m) <= n - m,
        n <= 0 ==> gap_count(gap, n) == 0,
    decreases n - m,
{
    if m < n {
        lemma_gap_count_monotonic(gap, m, n - 1);
    }
}

/// Only the marks on the gaps of `s` matter.
pub proof fn lemma_with_spaces_ext(s: Seq<char>, g1: spec_fn(int) -> bool, g2: spec_fn(int) -> bool)
    requires
        forall|i: int| 0 <= i && i + 1 < s.len() ==> #[trigger] g1(i) == g2(i),
    ensures
        with_spaces(s, g1) == with_spaces(s, g2),
    decreases s.len(),
{
    if s.len() > 1 {
        lemma_with_spaces_ext(s.drop_last(), g1, g2);
    }
}

/// The corrected text is longer by the number of marked gaps, and ends as
/// the original does.
pub proof fn lemma_with_spaces_len(s: Seq<char>, gap: spec_fn(int) -> bool)
    ensures
        with_spaces(s, gap).len() == s.len() + gap_count(gap, s.len() - 1),
        s.len() > 0 ==> with_spaces(s, gap).last() == s.last(),
    decreases s.len(),
{
    if s.len() > 1 {
        lemma_with_spaces_len(s.drop_last(), gap);
    }
}

/// Correcting a prefix gives a prefix of the corrected text.
pub proof fn lemma_with_spaces_take(s: Seq<char>, gap: spec_fn(int) -> bool, k: int)
    requires
        0 <= k <= s.len(),
    ensures
        with_spaces(s.take(k), gap) == with_spaces(s, gap).take(
            k + gap_count(gap, k - 1),
        ),
        k + gap_count(gap, k - 1) <= with_spaces(s, gap).len(),
    decreases s.len() - k,
{
    lemma_with_spaces_len(s, gap);
    lemma_gap_count_monotonic(gap, k - 1, s.len() - 1);
    if k == s.len() {
        assert(s.take(k) == s);
        assert(with_spaces(s, gap).take(k + gap_count(gap, k - 1)) == with_spaces(s, gap));
    } else {
        lemma_with_spaces_take(s, gap, k + 1);
        let t = s.take(k + 1);
        assert(t.drop_last() == s.take(k));
        let whole = with_spaces(s, gap);
        let next = with_spaces(t, gap);
        assert(next == whole.take(k + 1 + gap_count(gap, k)));
        if k == 0 {
            assert(s.take(0).len() == 0);
            assert(whole.take(0) == s.take(0));
        } else {
            let head = with_spaces(s.take(k), gap);
            lemma_with_spaces_len(s.take(k), gap);
            if gap(k - 1) {
                assert(next == head.push(' ').push(t.last()));
                assert(next.take(head.len() as int) == head);
            } else {
                assert(next == head.push(t.last()));
                assert(next.take(head.len() as int) == head);
            }
            assert(whole.take(k + 1 + gap_count(gap, k)).take(head.len() as int) == whole.take(
                head.len() as int,
            ));
        }
    }
}

/// Each character of the original stands in the corrected text, moved right by
/// the number of spaces put in before it; behind it stands the space of its
/// gap, if that is marked, and else the next character.
pub proof fn lemma_with_spaces_index(s: Seq<char>, gap: spec_fn(int) -> bool, i: int)
    requires
        0 <= i < s.len(),
    ensures
        moved(gap, i) < with_spaces(s, gap).len(),
        with_spaces(s, gap)[moved(gap, i)] == s[i],
        i + 1 < s.len() && gap(i) ==> with_spaces(s, gap)[moved(gap, i) + 1] == ' ' && moved(
            gap,
            i + 1,
        ) == moved(gap, i) + 2,
        i + 1 < s.len() && !gap(i) ==> moved(gap, i + 1) == moved(gap, i) + 1,
{
    let whole = with_spaces(s, gap);
    lemma_with_spaces_take(s, gap, i + 1);
    lemma_with_spaces_len(s.take(i + 1), gap);
    let upto = with_spaces(s.take(i + 1), gap);
    assert(upto.last() == s.take(i + 1).last());
    assert(upto.len() == i + 1 + gap_count(gap, i));
    assert(whole[moved(gap, i)] == upto[moved(gap, i)]);
    if i + 1 < s.len() {
        lemma_with_spaces_take(s, gap, i + 2);
        let t = s.take(i + 2);
        assert(t.drop_last() == s.take(i + 1));
        let next = with_spaces(t, gap);
        if gap(i) {
            assert(next == upto.push(' ').push(t.last()));
            assert(next[moved(gap, i) + 1] == ' ');
            assert(whole[moved(gap, i) + 1] == next[moved(gap, i) + 1]);
        }
    }
}

/// Where no gap is marked between `a` and `b`, the count does not grow.
pub proof fn lemma_gap_count_flat(gap: spec_fn(int) -> bool, a: int, b: int)
    requires
        a <= b,
        forall|i: int| a <= i < b ==> !#[trigger] gap(i),
    ensures
        gap_count(gap, b) == gap_count(gap, a),
    decreases b - a,
{
    if a < b {
        lemma_gap_count_flat(gap, a, b - 1);
        if b <= 0 {
            lemma_gap_count_monotonic(gap, a, b);
        }
    }
}

/// Where no gap is marked at all, nothing is changed.
pub proof fn lemma_with_spaces_none(s: Seq<char>, gap: spec_fn(int) -> bool)
    requires
        forall|i: int| 0 <= i && i + 1 < s.len() ==> !#[trigger] gap(i),
    ensures
        with_spaces(s, gap) == s,
    decreases s.len(),
{
    if s.len() > 1 {
        lemma_with_spaces_none(s.drop_last(), gap);
        assert(!gap(s.len() - 2));
        assert(s.drop_last().push(s.last()) == s);
    }
}

/// A correction that adds no character changes none.
pub proof fn lemma_unchanged_when_same_length(s: Seq<char>, gap: spec_fn(int) -> bool)
    requires
        with_spaces(s, gap).len() == s.len(),
    ensures
        with_spaces(s, gap) == s,
    decreases s.len(),
{
    if s.len() > 1 {
        lemma_with_spaces_len(s, gap);
        lemma_with_spaces_len(s.drop_last(), gap);
        lemma_unchanged_when_same_length(s.drop_last(), gap);
        assert(s.drop_last().push(s.last()) == s);
    }
}

/// Every place of the corrected text holds a character of the original or
/// the space of a marked gap.
pub proof fn lemma_with_spaces_places(s: Seq<char>, gap: spec_fn(int) -> bool, j: int)
    requires
        0 <= j < with_spaces(s, gap).len(),
    ensures
        exists|i: int|
            0 <= i < s.len() && (j == moved(gap, i) || (i + 1 < s.len() && gap(i) && j == moved(
                gap,
                i,
            ) + 1)),
    decreases s.len(),
{
    lemma_with_spaces_len(s, gap);
    if s.len() <= 1 {
        assert(j == moved(gap, 0));
    } else {
        let n = s.len() as int;
        let head = with_spaces(s.drop_last(), gap);
        lemma_with_spaces_len(s.drop_last(), gap);
        if j < head.len() {
            lemma_with_spaces_places(s.drop_last(), gap, j);
            let i = choose|i: int|
                0 <= i < s.drop_last().len() && (j == moved(gap, i) || (i + 1 < s.drop_last().len()
                    && gap(i) && j == moved(gap, i) + 1));
            assert(0 <= i < s.len() && (j == moved(gap, i) || (i + 1 < s.len() && gap(i) && j
                == moved(gap, i) + 1)));
        } else if gap(n - 2) && j == head.len() {
            assert(j == moved(gap, n - 2) + 1);
        } else {
            assert(j == moved(gap, n - 1));
        }
    }
}

/// A text in which every rule has fired is settled.
pub proof fn lemma_spaced_settled(s: Seq<char>)
    ensures
        settled(spaced(s)),
{
    let gap = text_gap(s);
    let t = spaced(s);
    assert forall|j: int| 0 <= j && j + 1 < t.len() implies !needs_space(#[trigger] t[j], t[j + 1]) by {
        lemma_with_spaces_places(s, gap, j);
        let i = choose|i: int|
            0 <= i < s.len() && (j == moved(gap, i) || (i + 1 < s.len() && gap(i) && j == moved(
                gap,
                i,
            ) + 1));
        lemma_with_spaces_index(s, gap, i);
        lemma_with_spaces_len(s, gap);
        if j == moved(gap, i) {
            if i + 1 < s.len() {
                lemma_with_spaces_index(s, gap, i + 1);
            } else {
                lemma_gap_count_monotonic(gap, i, s.len() - 1);
            }
        }
    }
}

/// A rule-by-rule correction changes nothing in a settled text.
pub proof fn lemma_settled_unchanged(t: Seq<char>, gap: spec_fn(int) -> bool)
    requires
        settled(t),
        forall|i: int| 0 <= i && i + 1 < t.len() && #[trigger] gap(i) ==> needs_space(t[i], t[i + 1]),
    ensures
        with_spaces(t, gap) == t,
    decreases t.len(),
{
    if t.len() > 1 {
        let head = t.drop_last();
        assert forall|j: int| 0 <= j && j + 1 < head.len() implies !needs_space(
            #[trigger] head[j],
            head[j + 1],
        ) by {
            assert(head[j] == t[j]);
        }
        lemma_settled_unchanged(head, gap);
        assert(!needs_space(t[t.len() - 2], t[t.len() - 1]));
        assert(head.push(t.last()) == t);
    }
}

/// Correcting a corrected text changes nothing.
pub proof fn lemma_spaced_idempotent(s: Seq<char>)
    ensures
        spaced(spaced(s)) == spaced(s),
{
    lemma_spaced_settled(s);
    lemma_settled_unchanged(spaced(s), text_gap(spaced(s)));
}

/// A text without a boundary between CJK and Latin is left as it is.
pub proof fn lemma_spaced_without_boundary(s: Seq<char>)
    requires
        settled(s),
    ensures
        spaced(s) == s,
        gap_count(text_gap(s), s.len() - 1) == 0,
{
    lemma_settled_unchanged(s, text_gap(s));
    lemma_with_spaces_len(s, text_gap(s));
}

/// Correction works piece by piece: the corrected form of `a + b` is that of
/// `a`, a space where a rule fires between the last character of `a` and the
/// first of `b`, and the corrected form of `b`.
pub proof fn lemma_spaced_concat(a: Seq<char>, b: Seq<char>)
    requires
        a.len() > 0,
        b.len() > 0,
    ensures
        spaced(a + b) == if needs_space(a.last(), b.first()) {
            spaced(a).push(' ') + spaced(b)
        } else {
            spaced(a) + spaced(b)
        },
    decreases b.len(),
{
    let s = a + b;
    let g = text_gap(s);
    assert(s.drop_last() == a + b.drop_last());
    assert(s.last() == b.last());
    assert(with_spaces(a, g) == spaced(a)) by {
        assert forall|i: int| 0 <= i && i + 1 < a.len() implies #[trigger] g(i) == text_gap(a)(i) by {
            assert(s[i] == a[i] && s[i + 1] == a[i + 1]);
        }
        lemma_with_spaces_ext(a, g, text_gap(a));
    }
    if b.len() == 1 {
        assert(s.drop_last() == a);
        assert(spaced(b) == b);
        assert(s[s.len() - 2] == a.last());
        assert(b == seq![b.first()]);
        if needs_space(a.last(), b.first()) {
            assert(spaced(a).push(' ').push(b.last()) == spaced(a).push(' ') + b);
        } else {
            assert(spaced(a).push(b.last()) == spaced(a) + b);
        }
    } else {
        let b0 = b.drop_last();
        lemma_spaced_concat(a, b0);
        let s0 = a + b0;
        assert(with_spaces(s0, g) == spaced(s0)) by {
            assert forall|i: int| 0 <= i && i + 1 < s0.len() implies #[trigger] g(i) == text_gap(s0)(i) by {
                assert(s[i] == s0[i] && s[i + 1] == s0[i + 1]);
            }
            lemma_with_spaces_ext(s0, g, text_gap(s0));
        }
        let gb = text_gap(b);
        assert(with_spaces(b0, gb) == spaced(b0)) by {
            assert forall|i: int| 0 <= i && i + 1 < b0.len() implies #[trigger] gb(i) == text_gap(b0)(i) by {
                assert(b[i] == b0[i] && b[i + 1] == b0[i + 1]);
            }
            lemma_with_spaces_ext(b0, gb, text_gap(b0));
        }
        assert(b0.first() == b.first());
        assert(s[s.len() - 2] == b[b.len() - 2]);
        assert(g(s.len() - 2) == gb(b.len() - 2));
        let front = if needs_space(a.last(), b.first()) {
            spaced(a).push(' ')
        } else {
            spaced(a)
        };
        assert(spaced(s0) == front + spaced(b0));
        if g(s.len() - 2) {
            assert((front + spaced(b0)).push(' ').push(b.last()) == front + spaced(b0).push(
                ' ',
            ).push(b.last()));
        } else {
            assert((front + spaced(b0)).push(b.last()) == front + spaced(b0).push(b.last()));
        }
    }
}

/// Where a CJK character is directly followed by an ASCII letter or a digit,
/// or the other way round, exactly one space is put between the two, and
/// what stands before and after is corrected as it would be alone.
pub proof fn lemma_spacing_insertion(before: Seq<char>, x: char, y: char, after: Seq<char>)
    requires
        needs_space(x, y),
    ensures
        spaced(before.push(x) + seq![y] + after) == spaced(before.push(x)).push(' ') + spaced(
            seq![y] + after,
        ),
        spaced(before.push(x)).last() == x,
        spaced(seq![y] + after).first() == y,
{
    let a = before.push(x);
    let b = seq![y] + after;
    assert(a + b == before.push(x) + seq![y] + after);
    lemma_spaced_concat(a, b);
    lemma_with_spaces_len(a, text_gap(a));
    lemma_with_spaces_index(b, text_gap(b), 0);
}

/// Corrects a text that is correctable as a whole: puts one ASCII space
/// between each two adjacent characters between which a rule fires.
pub fn correct_text(text: &Vec<char>) -> (out: Vec<char>)
    ensures
        out@ == spaced(text@),
{
    let mut out: Vec<char> = Vec::new();
    let n = text.len();
    let mut i: usize = 0;
    while i < n
        invariant
            n == text.len(),
            i <= n,
            out@ == with_spaces(text@.take(i as int), text_gap(text@)),
        decreases n - i,
    {
        let ghost before = out@;
        if i > 0 && rule_at(text[i - 1], text[i]).is_some() {
            out.push(' ');
        }
        out.push(text[i]);
        proof {
            let t = text@.take(i + 1);
            assert(t.drop_last() == text@.take(i as int));
            assert(t.last() == text@[i as int]);
            if i == 0 {
                assert(before.len() == 0);
                assert(out@ == t);
            }
        }
        i += 1;
    }
    proof {
        assert(text@.take(n as int) == text@);
    }
    out
}

} // verus!
