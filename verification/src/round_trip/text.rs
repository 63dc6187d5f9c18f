//! The text form of a plain expression scans to the tokens of the
//! expression.

use vstd::prelude::*;
use crate::expression::{Assign, Call, Expression, Get, SetExpr, Super};
use crate::printer::{pretty, pretty_list};
use crate::round_trip::scanning::{
    breaks, holds, lemma_holds_char, lemma_holds_parts, lemma_step_mark, lemma_step_number,
    lemma_step_space, lemma_step_word, mark_token,
};
use crate::round_trip::{
    all_plain, is_chain, is_name, is_plain, is_simple, is_word, lemma_keywords, list_tokens,
    number_token, tokens_of,
};
use crate::scanner::{ScanState, scan_rest, word_token};
use crate::tokens::{LiteralTypes, TokenView};

verus! {

/// The state `st` at position `q`, with more tokens.
pub open spec fn advanced(st: ScanState, q: int, tokens: Seq<TokenView>) -> ScanState {
    ScanState { pos: q, tokens: st.tokens + tokens, ..st }
}

/// A chain is a plain expression.
pub proof fn lemma_chain_is_plain(e: Expression)
    requires
        is_chain(e),
    ensures
        is_plain(e),
{
    reveal_with_fuel(is_plain, 2);
    reveal_with_fuel(is_chain, 2);
}

/// What a plain expression is made of is plain.
pub proof fn lemma_parts_are_plain(e: Expression)
    requires
        is_plain(e),
    ensures
        match e {
            Expression::Literal(_) | Expression::This(_) | Expression::Variable(_) => is_simple(e),
            Expression::Super(s) => s.keyword@ == word_token("super"@, s.keyword.line as int)
                && is_name(s.method),
            Expression::Get(g) => is_plain(*g.object) && is_chain(*g.object) && is_name(g.name),
            Expression::Call(c) => {
                &&& is_plain(*c.callee)
                &&& is_chain(*c.callee)
                &&& c.paren@ == mark_token(')', c.paren.line as int)
                &&& c.arguments@.len() <= 255
                &&& all_plain(c.arguments@, 0)
            },
            Expression::Assign(a) => is_name(a.name) && is_plain(*a.value),
            Expression::SetExpr(s) => is_plain(*s.object) && is_chain(*s.object) && is_name(s.name)
                && is_plain(*s.value),
            _ => false,
        },
{
    reveal_with_fuel(is_plain, 2);
    reveal_with_fuel(is_chain, 2);
    match e {
        Expression::Get(g) => {
            lemma_chain_is_plain(*g.object);
        },
        Expression::Call(c) => {
            lemma_chain_is_plain(*c.callee);
        },
        Expression::SetExpr(s) => {
            lemma_chain_is_plain(*s.object);
        },
        _ => {},
    }
}

/// A word scans to its token and nothing else changes.
proof fn lemma_word(src: Seq<char>, st: ScanState, w: Seq<char>)
    requires
        holds(src, st.pos, w),
        is_word(w),
        breaks(src, st.pos + w.len()),
    ensures
        scan_rest(src, st) == scan_rest(
            src,
            advanced(st, st.pos + w.len(), seq![word_token(w, st.line)]),
        ),
{
    lemma_step_word(src, st, w);
    assert(st.tokens.push(word_token(w, st.line)) =~= st.tokens + seq![word_token(w, st.line)]);
}

proof fn lemma_mark(src: Seq<char>, st: ScanState, c: char)
    requires
        0 <= st.pos < src.len(),
        src[st.pos] == c,
        c == '(' || c == ')' || c == ',' || c == '.' || (c == '=' && (st.pos + 1 == src.len()
            || src[st.pos + 1] != '=')),
    ensures
        scan_rest(src, st) == scan_rest(
            src,
            advanced(st, st.pos + 1, seq![mark_token(c, st.line)]),
        ),
{
    lemma_step_mark(src, st, c);
    assert(st.tokens.push(mark_token(c, st.line)) =~= st.tokens + seq![mark_token(c, st.line)]);
}

/// Scanning on from a state that has gone on.
proof fn lemma_advanced_twice(st: ScanState, q: int, a: Seq<TokenView>, r: int, b: Seq<TokenView>)
    ensures
        advanced(advanced(st, q, a), r, b) == advanced(st, r, a + b),
{
    assert((st.tokens + a) + b =~= st.tokens + (a + b));
}

/// The text ` = ` scans to the equals sign.
proof fn lemma_assigns(src: Seq<char>, st: ScanState)
    requires
        holds(src, st.pos, " = "@),
    ensures
        scan_rest(src, st) == scan_rest(
            src,
            advanced(st, st.pos + 3, seq![mark_token('=', st.line)]),
        ),
{
    reveal_strlit(" = ");
    let p = st.pos;
    lemma_holds_char(src, p, " = "@, 0);
    lemma_holds_char(src, p, " = "@, 1);
    lemma_holds_char(src, p, " = "@, 2);
    lemma_step_space(src, st);
    let s1 = ScanState { pos: p + 1, ..st };
    lemma_mark(src, s1, '=');
    let s2 = advanced(s1, p + 2, seq![mark_token('=', st.line)]);
    lemma_step_space(src, s2);
}

/// The text form of a plain expression, in a text where a word or a
/// number cannot go on after it, scans to the tokens of the expression.
pub proof fn lemma_scan_plain(e: Expression, src: Seq<char>, st: ScanState)
    requires
        is_plain(e),
        holds(src, st.pos, pretty(e)),
        breaks(src, st.pos + pretty(e).len()),
    ensures
        scan_rest(src, st) == scan_rest(
            src,
            advanced(st, st.pos + pretty(e).len(), tokens_of(e, st.line)),
        ),
    decreases e, 0nat,
{
    lemma_parts_are_plain(e);
    match e {
        Expression::Super(s) => {
            lemma_scan_super(s, src, st);
        },
        Expression::Get(g) => {
            lemma_scan_get(g, src, st);
        },
        Expression::Call(c) => {
            lemma_scan_call(c, src, st);
        },
        Expression::Assign(a) => {
            lemma_scan_assign(a, src, st);
        },
        Expression::SetExpr(s) => {
            lemma_scan_setexpr(s, src, st);
        },
        _ => {
            lemma_scan_simple(e, src, st);
        },
    }
}

proof fn lemma_scan_simple(e: Expression, src: Seq<char>, st: ScanState)
    requires
        is_simple(e),
        is_plain(e),
        holds(src, st.pos, pretty(e)),
        breaks(src, st.pos + pretty(e).len()),
    ensures
        scan_rest(src, st) == scan_rest(
            src,
            advanced(st, st.pos + pretty(e).len(), tokens_of(e, st.line)),
        ),
{
    lemma_keywords();
    let p = st.pos;
    let line = st.line;
    match e {
        Expression::Literal(l) => match l.value {
            LiteralTypes::Number(text) => {
                lemma_step_number(src, st, text@);
                assert(st.tokens.push(number_token(text@, line)) =~= st.tokens + tokens_of(
                    e,
                    line,
                ));
            },
            LiteralTypes::Bool(b) => {
                if b {
                    lemma_word(src, st, "true"@);
                } else {
                    lemma_word(src, st, "false"@);
                }
            },
            _ => {
                lemma_word(src, st, "nil"@);
            },
        },
        Expression::This(_) => {
            lemma_word(src, st, "this"@);
        },
        Expression::Variable(v) => {
            lemma_word(src, st, v.name.lexeme@);
        },
        _ => {},
    }
}

proof fn lemma_scan_super(s: Super, src: Seq<char>, st: ScanState)
    requires
        is_plain(Expression::Super(s)),
        holds(src, st.pos, pretty(Expression::Super(s))),
        breaks(src, st.pos + pretty(Expression::Super(s)).len()),
    ensures
        scan_rest(src, st) == scan_rest(
            src,
            advanced(
                st,
                st.pos + pretty(Expression::Super(s)).len(),
                tokens_of(Expression::Super(s), st.line),
            ),
        ),
    decreases s,
{
    let e = Expression::Super(s);
    lemma_keywords();
    lemma_parts_are_plain(e);
    let p = st.pos;
    let line = st.line;
    reveal_strlit("super.");
    reveal_strlit("super");
    let m = s.method.lexeme@;
    lemma_holds_parts(src, p, "super."@, m);
    assert("super."@ =~= "super"@ + seq!['.']);
    lemma_holds_parts(src, p, "super"@, seq!['.']);
    lemma_holds_char(src, p + 5, seq!['.'], 0);
    lemma_holds_char(src, p + 6, m, 0);
    assert(is_word("super"@));
    lemma_word(src, st, "super"@);
    let s1 = advanced(st, p + 5, seq![word_token("super"@, line)]);
    lemma_mark(src, s1, '.');
    let s2 = advanced(s1, p + 6, seq![mark_token('.', line)]);
    lemma_word(src, s2, m);
    lemma_advanced_twice(st, p + 5, seq![word_token("super"@, line)], p + 6, seq![
        mark_token('.', line),
    ]);
    lemma_advanced_twice(
        st,
        p + 6,
        seq![word_token("super"@, line)] + seq![mark_token('.', line)],
        p + 6 + m.len(),
        seq![word_token(m, line)],
    );
    assert(seq![word_token("super"@, line)] + seq![mark_token('.', line)] + seq![
        word_token(m, line),
    ] =~= tokens_of(e, line));
}

proof fn lemma_scan_get(g: Get, src: Seq<char>, st: ScanState)
    requires
        is_plain(Expression::Get(g)),
        holds(src, st.pos, pretty(Expression::Get(g))),
        breaks(src, st.pos + pretty(Expression::Get(g)).len()),
    ensures
        scan_rest(src, st) == scan_rest(
            src,
            advanced(
                st,
                st.pos + pretty(Expression::Get(g)).len(),
                tokens_of(Expression::Get(g), st.line),
            ),
        ),
    decreases g,
{
    let e = Expression::Get(g);
    lemma_keywords();
    lemma_parts_are_plain(e);
    let p = st.pos;
    let line = st.line;
    reveal_strlit(".");
    let o = pretty(*g.object);
    let n = g.name.lexeme@;
    lemma_holds_parts(src, p, o + "."@, n);
    lemma_holds_parts(src, p, o, "."@);
    lemma_holds_char(src, p + o.len(), "."@, 0);
    lemma_holds_char(src, p + o.len() + 1, n, 0);
    lemma_scan_plain(*g.object, src, st);
    let s1 = advanced(st, p + o.len(), tokens_of(*g.object, line));
    lemma_mark(src, s1, '.');
    let s2 = advanced(s1, p + o.len() + 1, seq![mark_token('.', line)]);
    lemma_word(src, s2, n);
    lemma_advanced_twice(st, p + o.len(), tokens_of(*g.object, line), p + o.len() + 1, seq![
        mark_token('.', line),
    ]);
    lemma_advanced_twice(
        st,
        p + o.len() + 1,
        tokens_of(*g.object, line) + seq![mark_token('.', line)],
        p + o.len() + 1 + n.len(),
        seq![word_token(n, line)],
    );
    assert(tokens_of(*g.object, line) + seq![mark_token('.', line)] + seq![
        word_token(n, line),
    ] =~= tokens_of(e, line));
}

proof fn lemma_scan_call(c: Call, src: Seq<char>, st: ScanState)
    requires
        is_plain(Expression::Call(c)),
        holds(src, st.pos, pretty(Expression::Call(c))),
        breaks(src, st.pos + pretty(Expression::Call(c)).len()),
    ensures
        scan_rest(src, st) == scan_rest(
            src,
            advanced(
                st,
                st.pos + pretty(Expression::Call(c)).len(),
                tokens_of(Expression::Call(c), st.line),
            ),
        ),
    decreases c,
{
    let e = Expression::Call(c);
    lemma_keywords();
    lemma_parts_are_plain(e);
    let p = st.pos;
    let line = st.line;
    reveal_strlit("(");
    reveal_strlit(")");
    let f = pretty(*c.callee);
    let a = pretty_list(c.arguments@, 0);
    lemma_holds_parts(src, p, f + "("@ + a, ")"@);
    lemma_holds_parts(src, p, f + "("@, a);
    lemma_holds_parts(src, p, f, "("@);
    lemma_holds_char(src, p + f.len(), "("@, 0);
    lemma_holds_char(src, p + f.len() + 1 + a.len(), ")"@, 0);
    lemma_scan_plain(*c.callee, src, st);
    let s1 = advanced(st, p + f.len(), tokens_of(*c.callee, line));
    lemma_mark(src, s1, '(');
    let s2 = advanced(s1, p + f.len() + 1, seq![mark_token('(', line)]);
    lemma_scan_list(c.arguments@, 0, src, s2);
    let s3 = advanced(s2, p + f.len() + 1 + a.len(), list_tokens(c.arguments@, 0, line));
    lemma_mark(src, s3, ')');
    lemma_advanced_twice(st, p + f.len(), tokens_of(*c.callee, line), p + f.len() + 1, seq![
        mark_token('(', line),
    ]);
    let t2 = tokens_of(*c.callee, line) + seq![mark_token('(', line)];
    lemma_advanced_twice(
        st,
        p + f.len() + 1,
        t2,
        p + f.len() + 1 + a.len(),
        list_tokens(c.arguments@, 0, line),
    );
    let t3 = t2 + list_tokens(c.arguments@, 0, line);
    lemma_advanced_twice(
        st,
        p + f.len() + 1 + a.len(),
        t3,
        p + f.len() + 1 + a.len() + 1,
        seq![mark_token(')', line)],
    );
}

proof fn lemma_scan_assign(a: Assign, src: Seq<char>, st: ScanState)
    requires
        is_plain(Expression::Assign(a)),
        holds(src, st.pos, pretty(Expression::Assign(a))),
        breaks(src, st.pos + pretty(Expression::Assign(a)).len()),
    ensures
        scan_rest(src, st) == scan_rest(
            src,
            advanced(
                st,
                st.pos + pretty(Expression::Assign(a)).len(),
                tokens_of(Expression::Assign(a), st.line),
            ),
        ),
    decreases a,
{
    let e = Expression::Assign(a);
    lemma_keywords();
    lemma_parts_are_plain(e);
    let p = st.pos;
    let line = st.line;
    let n = a.name.lexeme@;
    let v = pretty(*a.value);
    reveal_strlit(" = ");
    lemma_holds_parts(src, p, n + " = "@, v);
    lemma_holds_parts(src, p, n, " = "@);
    lemma_holds_char(src, p + n.len(), " = "@, 0);
    lemma_word(src, st, n);
    let s1 = advanced(st, p + n.len(), seq![word_token(n, line)]);
    lemma_assigns(src, s1);
    let s2 = advanced(s1, p + n.len() + 3, seq![mark_token('=', line)]);
    lemma_scan_plain(*a.value, src, s2);
    lemma_advanced_twice(st, p + n.len(), seq![word_token(n, line)], p + n.len() + 3, seq![
        mark_token('=', line),
    ]);
    let t2 = seq![word_token(n, line)] + seq![mark_token('=', line)];
    lemma_advanced_twice(
        st,
        p + n.len() + 3,
        t2,
        p + n.len() + 3 + v.len(),
        tokens_of(*a.value, line),
    );
    assert(t2 =~= seq![word_token(n, line), mark_token('=', line)]);
}

proof fn lemma_scan_setexpr(s: SetExpr, src: Seq<char>, st: ScanState)
    requires
        is_plain(Expression::SetExpr(s)),
        holds(src, st.pos, pretty(Expression::SetExpr(s))),
        breaks(src, st.pos + pretty(Expression::SetExpr(s)).len()),
    ensures
        scan_rest(src, st) == scan_rest(
            src,
            advanced(
                st,
                st.pos + pretty(Expression::SetExpr(s)).len(),
                tokens_of(Expression::SetExpr(s), st.line),
            ),
        ),
    decreases s,
{
    let e = Expression::SetExpr(s);
    lemma_keywords();
    lemma_parts_are_plain(e);
    let p = st.pos;
    let line = st.line;
    reveal_strlit(".");
    reveal_strlit(" = ");
    let o = pretty(*s.object);
    let n = s.name.lexeme@;
    let v = pretty(*s.value);
    lemma_holds_parts(src, p, o + "."@ + n + " = "@, v);
    lemma_holds_parts(src, p, o + "."@ + n, " = "@);
    lemma_holds_parts(src, p, o + "."@, n);
    lemma_holds_parts(src, p, o, "."@);
    lemma_holds_char(src, p + o.len(), "."@, 0);
    lemma_holds_char(src, p + o.len() + 1, n, 0);
    lemma_holds_char(src, p + o.len() + 1 + n.len(), " = "@, 0);
    lemma_scan_plain(*s.object, src, st);
    let s1 = advanced(st, p + o.len(), tokens_of(*s.object, line));
    lemma_mark(src, s1, '.');
    let s2 = advanced(s1, p + o.len() + 1, seq![mark_token('.', line)]);
    lemma_word(src, s2, n);
    let s3 = advanced(s2, p + o.len() + 1 + n.len(), seq![word_token(n, line)]);
    lemma_assigns(src, s3);
    let s4 = advanced(s3, p + o.len() + 1 + n.len() + 3, seq![mark_token('=', line)]);
    lemma_scan_plain(*s.value, src, s4);
    let t1 = tokens_of(*s.object, line);
    lemma_advanced_twice(st, p + o.len(), t1, p + o.len() + 1, seq![mark_token('.', line)]);
    let t2 = t1 + seq![mark_token('.', line)];
    lemma_advanced_twice(st, p + o.len() + 1, t2, p + o.len() + 1 + n.len(), seq![
        word_token(n, line),
    ]);
    let t3 = t2 + seq![word_token(n, line)];
    lemma_advanced_twice(
        st,
        p + o.len() + 1 + n.len(),
        t3,
        p + o.len() + 1 + n.len() + 3,
        seq![mark_token('=', line)],
    );
    let t4 = t3 + seq![mark_token('=', line)];
    lemma_advanced_twice(
        st,
        p + o.len() + 1 + n.len() + 3,
        t4,
        p + o.len() + 1 + n.len() + 3 + v.len(),
        tokens_of(*s.value, line),
    );
    assert(t4 =~= t1 + seq![
        mark_token('.', line),
        word_token(n, line),
        mark_token('=', line),
    ]);
}

/// The text form of a list of plain expressions, before a closing
/// parenthesis, scans to the tokens of the list.
pub proof fn lemma_scan_list(list: Seq<Expression>, i: int, src: Seq<char>, st: ScanState)
    requires
        0 <= i <= list.len(),
        all_plain(list, i),
        holds(src, st.pos, pretty_list(list, i)),
        st.pos + pretty_list(list, i).len() < src.len(),
        src[st.pos + pretty_list(list, i).len()] == ')',
    ensures
        scan_rest(src, st) == scan_rest(
            src,
            advanced(
                st,
                st.pos + pretty_list(list, i).len(),
                list_tokens(list, i, st.line),
            ),
        ),
    decreases list, list.len() - i,
{
    let p = st.pos;
    let line = st.line;
    if i < list.len() {
        reveal_strlit(", ");
        reveal_strlit("");
        let sep = if i > 0 {
            ", "@
        } else {
            ""@
        };
        let x = pretty(list[i]);
        let rest = pretty_list(list, i + 1);
        lemma_holds_parts(src, p, sep + x, rest);
        lemma_holds_parts(src, p, sep, x);
        let q = p + sep.len() + x.len();
        // What follows the element: the comma of the next, or the
        // closing parenthesis.
        if i + 1 < list.len() {
            let next = (", "@ + pretty(list[i + 1])) + pretty_list(list, i + 2);
            assert(rest == next);
            lemma_holds_char(src, q, rest, 0);
            assert(src[q] == ',');
        } else {
            assert(rest =~= Seq::<char>::empty());
        }
        let s1 = if i > 0 {
            lemma_holds_char(src, p, sep, 0);
            lemma_holds_char(src, p, sep, 1);
            lemma_mark(src, st, ',');
            let after = advanced(st, p + 1, seq![mark_token(',', line)]);
            lemma_step_space(src, after);
            ScanState { pos: p + 2, ..after }
        } else {
            assert(st.tokens + Seq::<TokenView>::empty() =~= st.tokens);
            st
        };
        let head = if i > 0 {
            seq![mark_token(',', line)]
        } else {
            Seq::<TokenView>::empty()
        };
        assert(s1 == advanced(st, p + sep.len(), head));
        lemma_scan_plain(list[i], src, s1);
        let s2 = advanced(s1, q, tokens_of(list[i], line));
        lemma_scan_list(list, i + 1, src, s2);
        lemma_advanced_twice(st, p + sep.len(), head, q, tokens_of(list[i], line));
        lemma_advanced_twice(
            st,
            q,
            head + tokens_of(list[i], line),
            q + rest.len(),
            list_tokens(list, i + 1, line),
        );
    } else {
        assert(st.tokens + Seq::<TokenView>::empty() =~= st.tokens);
    }
}

} // verus!
