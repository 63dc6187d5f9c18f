//! Printing and reading back: the text form of a plain expression is
//! source text that scans and parses to the expression it came from.

use vstd::prelude::*;
use crate::expression::{Expression, expr_view};
use crate::grammar;
use crate::grammar::{Cursor, Parsed};
use crate::printer::pretty;
use crate::round_trip::parsing::{after, at, lemma_parse_plain, plain_read, renumber, same_piece};
use crate::round_trip::shape::{lemma_renumbered_is_same, same_but_for_labels};
use crate::round_trip::text::{advanced, lemma_scan_plain};
use crate::scanner::{
    eof_token, is_alpha, is_alpha_numeric, is_digit, keyword_of, scan_errors_spec, scan_rest,
    scan_spec, scan_start, word_token,
};
use crate::tokens::{LiteralTypes, LiteralView, Token, TokenType, TokenView};

pub mod parsing;
pub mod scanning;
pub mod shape;
pub mod text;

verus! {

/// A word: a letter or underscore, then letters, digits and underscores.
pub open spec fn is_word(w: Seq<char>) -> bool {
    &&& w.len() > 0
    &&& is_alpha(w[0])
    &&& forall|i: int| 0 <= i < w.len() ==> is_alpha_numeric(#[trigger] w[i])
}

/// Whether the characters from `from` up to `to` are digits.
pub open spec fn all_digits(w: Seq<char>, from: int, to: int) -> bool {
    forall|i: int| from <= i < to ==> is_digit(#[trigger] w[i])
}

/// A number as it is written, with its whole part `k` digits long:
/// digits, and then perhaps a dot and more digits.
pub open spec fn is_number_with(w: Seq<char>, k: int) -> bool {
    &&& 1 <= k <= w.len()
    &&& all_digits(w, 0, k)
    &&& k == w.len() || (k + 1 < w.len() && w[k] == '.' && all_digits(w, k + 1, w.len() as int))
}

/// A number as it is written.
pub open spec fn is_number(w: Seq<char>) -> bool {
    exists|k: int| is_number_with(w, k)
}

/// The token of a number written as `w` on line `line`.
pub open spec fn number_token(w: Seq<char>, line: int) -> TokenView {
    TokenView { token_type: TokenType::Number, lexeme: w, literal: LiteralView::Number(w), line }
}

/// The cursor before the first token, with no identifier handed out.
pub open spec fn start() -> Cursor {
    Cursor { pos: 0, next_id: 0 }
}

/// What the keywords spell.
pub proof fn lemma_keywords()
    ensures
        is_word("true"@) && keyword_of("true"@) == Some(TokenType::True),
        is_word("false"@) && keyword_of("false"@) == Some(TokenType::False),
        is_word("nil"@) && keyword_of("nil"@) == Some(TokenType::Nil),
        is_word("this"@) && keyword_of("this"@) == Some(TokenType::This),
        keyword_of("super"@) == Some(TokenType::Super),
{
    reveal_strlit("and");
    reveal_strlit("class");
    reveal_strlit("else");
    reveal_strlit("false");
    reveal_strlit("for");
    reveal_strlit("fun");
    reveal_strlit("if");
    reveal_strlit("nil");
    reveal_strlit("or");
    reveal_strlit("print");
    reveal_strlit("return");
    reveal_strlit("super");
    reveal_strlit("this");
    reveal_strlit("true");
    let t = "true"@;
    assert(t[0] == 't' && t[1] == 'r' && t[2] == 'u' && t[3] == 'e');
    assert(t != "this"@) by {
        assert("this"@[1] == 'h');
    }
    let f = "false"@;
    assert(f[0] == 'f' && f[1] == 'a' && f[2] == 'l' && f[3] == 's' && f[4] == 'e');
    assert(f != "class"@) by {
        assert("class"@[0] == 'c');
    }
    let n = "nil"@;
    assert(n[0] == 'n' && n[1] == 'i' && n[2] == 'l');
    assert(n != "and"@) by {
        assert("and"@[0] == 'a');
    }
    assert(n != "for"@) by {
        assert("for"@[0] == 'f');
    }
    assert(n != "fun"@) by {
        assert("fun"@[0] == 'f');
    }
    let h = "this"@;
    assert(h[0] == 't' && h[1] == 'h' && h[2] == 'i' && h[3] == 's');
    assert(h != "else"@) by {
        assert("else"@[0] == 'e');
    }
    let u = "super"@;
    assert(u.len() == 5 && u[0] == 's');
    assert(u != "class"@) by {
        assert("class"@[0] == 'c');
    }
    assert(u != "false"@) by {
        assert("false"@[0] == 'f');
    }
    assert(u != "print"@) by {
        assert("print"@[0] == 'p');
    }
}

/// The simplest expressions: a number, `true`, `false`, `nil`, `this`,
/// or a variable, with tokens as the scanner makes them.
pub open spec fn is_simple(e: Expression) -> bool {
    match e {
        Expression::Literal(l) => match l.value {
            LiteralTypes::Number(text) => is_number(text@),
            LiteralTypes::Bool(_) => true,
            LiteralTypes::Nil => true,
            LiteralTypes::String(_) => false,
        },
        Expression::This(t) => t.keyword@ == word_token("this"@, t.keyword.line as int),
        Expression::Variable(v) => {
            &&& is_word(v.name.lexeme@)
            &&& keyword_of(v.name.lexeme@) is None
            &&& v.name@ == word_token(v.name.lexeme@, v.name.line as int)
        },
        _ => false,
    }
}

/// Whether a token is a name as the scanner makes it: a word that is no
/// keyword, with the word as its payload.
pub open spec fn is_name(t: Token) -> bool {
    &&& is_word(t.lexeme@)
    &&& keyword_of(t.lexeme@) is None
    &&& t@ == word_token(t.lexeme@, t.line as int)
}

/// Whether an expression is a chain: a simple expression or
/// `super.method`, followed by any number of property names and
/// argument lists, with tokens as the scanner makes them. The
/// arguments are plain expressions, at most 255 of them.
pub open spec fn is_chain(e: Expression) -> bool
    decreases e, 0nat,
{
    match e {
        Expression::Literal(_) => is_simple(e),
        Expression::This(_) => is_simple(e),
        Expression::Variable(_) => is_simple(e),
        Expression::Super(s) => s.keyword@ == word_token("super"@, s.keyword.line as int)
            && is_name(s.method),
        Expression::Get(g) => is_chain(*g.object) && is_name(g.name),
        Expression::Call(c) => {
            &&& is_chain(*c.callee)
            &&& c.paren@ == scanning::mark_token(')', c.paren.line as int)
            &&& c.arguments@.len() <= 255
            &&& all_plain(c.arguments@, 0)
        },
        _ => false,
    }
}

/// Whether the expressions from position `i` on are plain.
pub open spec fn all_plain(list: Seq<Expression>, i: int) -> bool
    decreases list, list.len() - i,
{
    if 0 <= i < list.len() {
        is_plain(list[i]) && all_plain(list, i + 1)
    } else {
        true
    }
}

/// Whether an expression is plain: a chain, or an assignment of a plain
/// expression to a variable or to a property of a chain. These are the
/// expressions whose text form is source text.
pub open spec fn is_plain(e: Expression) -> bool
    decreases e, 1nat,
{
    match e {
        Expression::Assign(a) => is_name(a.name) && is_plain(*a.value),
        Expression::SetExpr(s) => is_chain(*s.object) && is_name(s.name) && is_plain(*s.value),
        _ => is_chain(e),
    }
}

/// The tokens that the text form of a plain expression scans to, on
/// line `line`.
pub open spec fn tokens_of(e: Expression, line: int) -> Seq<TokenView>
    decreases e,
{
    match e {
        Expression::Literal(l) => match l.value {
            LiteralTypes::Number(text) => seq![number_token(text@, line)],
            LiteralTypes::Bool(b) => seq![
                word_token(
                    if b {
                        "true"@
                    } else {
                        "false"@
                    },
                    line,
                ),
            ],
            _ => seq![word_token("nil"@, line)],
        },
        Expression::This(_) => seq![word_token("this"@, line)],
        Expression::Variable(v) => seq![word_token(v.name.lexeme@, line)],
        Expression::Super(s) => seq![
            word_token("super"@, line),
            scanning::mark_token('.', line),
            word_token(s.method.lexeme@, line),
        ],
        Expression::Get(g) => tokens_of(*g.object, line) + seq![
            scanning::mark_token('.', line),
            word_token(g.name.lexeme@, line),
        ],
        Expression::Call(c) => tokens_of(*c.callee, line) + seq![scanning::mark_token('(', line)]
            + list_tokens(c.arguments@, 0, line) + seq![scanning::mark_token(')', line)],
        Expression::Assign(a) => seq![
            word_token(a.name.lexeme@, line),
            scanning::mark_token('=', line),
        ] + tokens_of(*a.value, line),
        Expression::SetExpr(s) => tokens_of(*s.object, line) + seq![
            scanning::mark_token('.', line),
            word_token(s.name.lexeme@, line),
            scanning::mark_token('=', line),
        ] + tokens_of(*s.value, line),
        _ => Seq::empty(),
    }
}

/// The tokens of the arguments from position `i` on, with the commas
/// between them.
pub open spec fn list_tokens(list: Seq<Expression>, i: int, line: int) -> Seq<TokenView>
    decreases list, list.len() - i,
{
    if 0 <= i < list.len() {
        (if i > 0 {
            seq![scanning::mark_token(',', line)]
        } else {
            Seq::empty()
        }) + tokens_of(list[i], line) + list_tokens(list, i + 1, line)
    } else {
        Seq::empty()
    }
}

/// The text form of a plain expression is source text. It scans
/// without a diagnostic to the tokens of the expression on line 1,
/// and these parse to the same expression, but for the identifiers of
/// its nodes and the lines of its tokens.
pub proof fn lemma_plain_expression_reads_back(e: Expression)
    requires
        is_plain(e),
    ensures
        scan_errors_spec(pretty(e)) == Seq::<Seq<char>>::empty(),
        scan_spec(pretty(e)) == tokens_of(e, 1).push(eof_token(1)),
        grammar::expression(scan_spec(pretty(e)), start()) == (Parsed {
            result: Ok(renumber(e, 1, 0).view),
            cursor: after(e, 1, start()),
        }),
        same_but_for_labels(renumber(e, 1, 0).view, expr_view(e)),
{
    let src = pretty(e);
    let tokens = tokens_of(e, 1);
    let st = scan_start();
    assert(src.subrange(0, src.len() as int) =~= src);
    lemma_scan_plain(e, src, st);
    let done = advanced(st, src.len() as int, tokens);
    assert(scan_rest(src, done) == done);
    assert(done.tokens =~= tokens);
    let ts = tokens.push(eof_token(1));
    assert(at(ts, 0, tokens)) by {
        reveal(same_piece);
        assert(ts.subrange(0, tokens.len() as int) =~= tokens);
    }
    lemma_parse_plain(e, ts, start(), 1);
    reveal(plain_read);
    lemma_renumbered_is_same(e, 1, 0);
}

} // verus!
