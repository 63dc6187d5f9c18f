//! Scanning text that is put together from words, numbers, marks and
//! spaces: each piece gives its token, whatever stands before it.

use vstd::prelude::*;
use crate::round_trip::{all_digits, is_number, is_number_with, is_word, number_token};
use crate::scanner::{
    ScanState, digits_end, identifier_end, is_alpha, is_alpha_numeric, is_digit, number_end,
    scan_rest, word_token,
};
use crate::tokens::{LiteralView, TokenType, TokenView};

verus! {

/// Whether the text `src` holds `piece` from position `p` on.
pub open spec fn holds(src: Seq<char>, p: int, piece: Seq<char>) -> bool {
    &&& 0 <= p
    &&& p + piece.len() <= src.len()
    &&& src.subrange(p, p + piece.len()) == piece
}

/// Whether a word or a number that ends before position `q` cannot go
/// on there: the text ends, or a mark or a space follows; after a dot
/// comes a letter.
pub open spec fn breaks(src: Seq<char>, q: int) -> bool {
    q == src.len() || (0 <= q < src.len() && (src[q] == ',' || src[q] == ')' || src[q] == '('
        || src[q] == ' ' || (src[q] == '.' && q + 1 < src.len() && is_alpha(src[q + 1]))))
}

/// The state `st` with one more token, at position `q`.
pub open spec fn with_token(st: ScanState, q: int, token: TokenView) -> ScanState {
    ScanState { pos: q, tokens: st.tokens.push(token), ..st }
}

/// A character of a text that is held stands at its place.
pub proof fn lemma_holds_char(src: Seq<char>, p: int, piece: Seq<char>, i: int)
    requires
        holds(src, p, piece),
        0 <= i < piece.len(),
    ensures
        src[p + i] == piece[i],
{
    assert(src.subrange(p, p + piece.len())[i] == src[p + i]);
}

/// The parts of a text that is held hold too.
pub proof fn lemma_holds_parts(src: Seq<char>, p: int, a: Seq<char>, b: Seq<char>)
    requires
        holds(src, p, a + b),
    ensures
        holds(src, p, a),
        holds(src, p + a.len(), b),
{
    let whole = a + b;
    assert(src.subrange(p, p + a.len()) =~= a) by {
        assert forall|i: int| 0 <= i < a.len() implies src.subrange(p, p + a.len())[i] == a[i] by {
            lemma_holds_char(src, p, whole, i);
        }
    }
    assert(src.subrange(p + a.len(), p + a.len() + b.len()) =~= b) by {
        assert forall|i: int| 0 <= i < b.len() implies src.subrange(
            p + a.len(),
            p + a.len() + b.len(),
        )[i] == b[i] by {
            lemma_holds_char(src, p, whole, a.len() + i);
        }
    }
}

proof fn lemma_identifier_end_at(src: Seq<char>, p: int, w: Seq<char>, i: int)
    requires
        holds(src, p, w),
        forall|j: int| 0 <= j < w.len() ==> is_alpha_numeric(#[trigger] w[j]),
        0 <= i <= w.len(),
        p + w.len() == src.len() || !is_alpha_numeric(src[p + w.len()]),
    ensures
        identifier_end(src, p + i) == p + w.len(),
    decreases w.len() - i,
{
    if i < w.len() {
        lemma_holds_char(src, p, w, i);
        lemma_identifier_end_at(src, p, w, i + 1);
    }
}

proof fn lemma_digits_end_at(src: Seq<char>, p: int, w: Seq<char>, from: int, to: int)
    requires
        holds(src, p, w),
        0 <= from <= to <= w.len(),
        all_digits(w, from, to),
        p + to == src.len() || !is_digit(src[p + to]),
    ensures
        digits_end(src, p + from) == p + to,
    decreases to - from,
{
    if from < to {
        lemma_holds_char(src, p, w, from);
        lemma_digits_end_at(src, p, w, from + 1, to);
    }
}

/// A word in a text, where it cannot go on, scans to its token.
pub proof fn lemma_step_word(src: Seq<char>, st: ScanState, w: Seq<char>)
    requires
        holds(src, st.pos, w),
        is_word(w),
        breaks(src, st.pos + w.len()),
    ensures
        scan_rest(src, st) == scan_rest(
            src,
            with_token(st, st.pos + w.len(), word_token(w, st.line)),
        ),
{
    let p = st.pos;
    lemma_holds_char(src, p, w, 0);
    lemma_identifier_end_at(src, p, w, 0);
}

/// A number in a text, where it cannot go on, scans to its token.
pub proof fn lemma_step_number(src: Seq<char>, st: ScanState, w: Seq<char>)
    requires
        holds(src, st.pos, w),
        is_number(w),
        breaks(src, st.pos + w.len()),
    ensures
        scan_rest(src, st) == scan_rest(
            src,
            with_token(st, st.pos + w.len(), number_token(w, st.line)),
        ),
{
    let p = st.pos;
    let k = choose|k: int| is_number_with(w, k);
    lemma_holds_char(src, p, w, 0);
    assert(is_digit(w[0]));
    if k == w.len() {
        lemma_digits_end_at(src, p, w, 0, k);
    } else {
        lemma_holds_char(src, p, w, k);
        lemma_holds_char(src, p, w, k + 1);
        assert(is_digit(w[k + 1]));
        lemma_digits_end_at(src, p, w, 0, k);
        lemma_digits_end_at(src, p, w, k + 1, w.len() as int);
    }
    assert(number_end(src, p) == p + w.len());
}

/// The kind of token that a mark gives.
pub open spec fn mark_kind(c: char) -> TokenType {
    if c == '(' {
        TokenType::LeftParen
    } else if c == ')' {
        TokenType::RightParen
    } else if c == ',' {
        TokenType::Comma
    } else if c == '.' {
        TokenType::Dot
    } else {
        TokenType::Equal
    }
}

/// The token of the mark `c` on line `line`.
pub open spec fn mark_token(c: char, line: int) -> TokenView {
    TokenView { token_type: mark_kind(c), lexeme: seq![c], literal: LiteralView::Nil, line }
}

/// A parenthesis, a comma or a dot scans to its token; so does an
/// equals sign that no other follows.
pub proof fn lemma_step_mark(src: Seq<char>, st: ScanState, c: char)
    requires
        0 <= st.pos < src.len(),
        src[st.pos] == c,
        c == '(' || c == ')' || c == ',' || c == '.' || (c == '=' && (st.pos + 1 == src.len()
            || src[st.pos + 1] != '=')),
    ensures
        scan_rest(src, st) == scan_rest(src, with_token(st, st.pos + 1, mark_token(c, st.line))),
{
    assert(src.subrange(st.pos, st.pos + 1) =~= seq![c]);
}

/// A space is passed over.
pub proof fn lemma_step_space(src: Seq<char>, st: ScanState)
    requires
        0 <= st.pos < src.len(),
        src[st.pos] == ' ',
    ensures
        scan_rest(src, st) == scan_rest(src, ScanState { pos: st.pos + 1, ..st }),
{
}

} // verus!
