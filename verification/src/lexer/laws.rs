//! What holds of lexing whatever the program text.
use vstd::prelude::*;
use crate::lexer::chars::CharClass;
use crate::lexer::spec::{lex_next, scan, skip};
use crate::lexer::{lemma_scan_bounds, lex_all};

verus! {

/// A scan over the characters of a class from `a` stops at `k` when every
/// character in between belongs to the class and the one at `k` (if any)
/// does not.
pub proof fn lemma_scan_stops(cs: Seq<char>, a: int, k: int, cls: CharClass)
    requires
        0 <= a <= k <= cs.len(),
        forall|j: int| a <= j < k ==> cls.contains(#[trigger] cs[j]),
        k == cs.len() || !cls.contains(cs[k]),
    ensures
        scan(cs, a, cls) == k,
    decreases k - a,
{
    if a < k {
        lemma_scan_stops(cs, a + 1, k, cls);
    }
}

/// A comment runs from `#` to the end of its line: skipping from the `#`
/// passes every character up to the newline (or the end of the text) and
/// counts each of them after the `#` once, and goes on from there.
pub proof fn law_comment_to_end_of_line(cs: Seq<char>, i: int, k: int, p: int)
    requires
        0 <= i < k <= cs.len(),
        cs[i] == '#',
        forall|j: int| i < j < k ==> #[trigger] cs[j] != '\n',
        k == cs.len() || cs[k] == '\n',
    ensures
        skip(cs, i, p) == skip(cs, k, p + (k - i - 1)),
{
    lemma_scan_stops(cs, i + 1, k, CharClass::NotNewline);
}

/// A text that is one comment line holds no token.
pub proof fn law_comment_line_has_no_tokens(cs: Seq<char>)
    requires
        cs.len() > 0,
        cs[0] == '#',
        forall|j: int| 0 < j < cs.len() ==> #[trigger] cs[j] != '\n',
    ensures
        lex_next(cs, 0, 0) is None,
        lex_all(cs, 0, 0) == Seq::<Result<crate::lexer::tokens::TokenTypeV, Seq<char>>>::empty(),
{
    law_comment_to_end_of_line(cs, 0, cs.len() as int, 0);
    lemma_scan_bounds(cs, 1, CharClass::NotNewline);
}

/// Blanks between tokens only move the position counter on: skipping from
/// a blank goes on from the next character with the counter one further.
pub proof fn law_blank_is_skipped(cs: Seq<char>, i: int, p: int)
    requires
        0 <= i < cs.len(),
        cs[i] == ' ' || cs[i] == '\t' || cs[i] == '\n',
    ensures
        skip(cs, i, p) == skip(cs, i + 1, p + 1),
        lex_next(cs, i, p) == lex_next(cs, i + 1, p + 1),
{
}

} // verus!
