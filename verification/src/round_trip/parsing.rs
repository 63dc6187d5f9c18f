//! The tokens of a plain expression parse to the expression.

use vstd::prelude::*;
use crate::expression::{Assign, Call, Expression, ExprView, Get, SetExpr, Super};
use crate::grammar;
use crate::grammar::{Cursor, Level, Parsed};
use crate::round_trip::scanning::mark_token;
use crate::round_trip::text::{lemma_chain_is_plain, lemma_parts_are_plain};
use crate::round_trip::{
    all_plain, is_chain, is_name, is_plain, is_simple, lemma_keywords, list_tokens, tokens_of,
};
use crate::scanner::{keyword_of, word_token};
use crate::tokens::{TokenType, TokenView};

verus! {

/// An expression as the parser numbers it, and the next free identifier.
pub struct Numbered {
    pub view: ExprView,
    pub next: int,
}

/// A list of expressions as the parser numbers them.
pub struct NumberedList {
    pub views: Seq<ExprView>,
    pub next: int,
}

/// The plain expression `e` as it is parsed from its tokens on line
/// `line`, when `first` is the next free identifier.
pub open spec fn renumber(e: Expression, line: int, first: int) -> Numbered
    decreases e,
{
    match e {
        Expression::Literal(l) => Numbered {
            view: ExprView::Literal { id: first, value: l.value@ },
            next: first + 1,
        },
        Expression::This(_) => Numbered {
            view: ExprView::This { id: first, keyword: word_token("this"@, line) },
            next: first + 1,
        },
        Expression::Variable(v) => Numbered {
            view: ExprView::Variable { id: first, name: word_token(v.name.lexeme@, line) },
            next: first + 1,
        },
        Expression::Super(s) => Numbered {
            view: ExprView::Super {
                id: first,
                keyword: word_token("super"@, line),
                method: word_token(s.method.lexeme@, line),
            },
            next: first + 1,
        },
        Expression::Get(g) => {
            let o = renumber(*g.object, line, first);
            Numbered {
                view: ExprView::Get {
                    id: o.next,
                    object: Box::new(o.view),
                    name: word_token(g.name.lexeme@, line),
                },
                next: o.next + 1,
            }
        },
        Expression::Call(c) => {
            let f = renumber(*c.callee, line, first);
            let args = renumber_list(c.arguments@, 0, line, f.next, Seq::empty());
            Numbered {
                view: ExprView::Call {
                    id: args.next,
                    callee: Box::new(f.view),
                    paren: mark_token(')', line),
                    arguments: args.views,
                },
                next: args.next + 1,
            }
        },
        Expression::Assign(a) => {
            let v = renumber(*a.value, line, first + 1);
            Numbered {
                view: ExprView::Assign {
                    id: v.next,
                    name: word_token(a.name.lexeme@, line),
                    value: Box::new(v.view),
                },
                next: v.next + 1,
            }
        },
        Expression::SetExpr(s) => {
            let o = renumber(*s.object, line, first);
            let v = renumber(*s.value, line, o.next + 1);
            Numbered {
                view: ExprView::SetExpr {
                    id: v.next,
                    object: Box::new(o.view),
                    name: word_token(s.name.lexeme@, line),
                    value: Box::new(v.view),
                },
                next: v.next + 1,
            }
        },
        _ => Numbered { view: crate::expression::expr_view(e), next: first },
    }
}

/// The expressions from position `i` on as the parser numbers them,
/// after those in `before`.
pub open spec fn renumber_list(
    list: Seq<Expression>,
    i: int,
    line: int,
    first: int,
    before: Seq<ExprView>,
) -> NumberedList
    decreases list, list.len() - i,
{
    if 0 <= i < list.len() {
        let x = renumber(list[i], line, first);
        renumber_list(list, i + 1, line, x.next, before.push(x.view))
    } else {
        NumberedList { views: before, next: first }
    }
}

/// Whether the tokens `ts` hold `piece` from position `p` on, with at
/// least one more token after it.
pub open spec fn at(ts: Seq<TokenView>, p: int, piece: Seq<TokenView>) -> bool {
    &&& 0 <= p
    &&& p + piece.len() < ts.len()
    &&& same_piece(ts, p, piece)
}

/// Whether `piece` is the part of `ts` that begins at position `p`.
#[verifier::opaque]
pub open spec fn same_piece(ts: Seq<TokenView>, p: int, piece: Seq<TokenView>) -> bool {
    ts.subrange(p, p + piece.len()) == piece
}

/// A token of a piece that is held stands at its place.
pub proof fn lemma_at_token(ts: Seq<TokenView>, p: int, piece: Seq<TokenView>, i: int)
    requires
        at(ts, p, piece),
        0 <= i < piece.len(),
    ensures
        ts[p + i] == piece[i],
{
    reveal(same_piece);
    assert(ts.subrange(p, p + piece.len())[i] == ts[p + i]);
}

/// The parts of a piece that is held are held too.
pub proof fn lemma_at_parts(ts: Seq<TokenView>, p: int, a: Seq<TokenView>, b: Seq<TokenView>)
    requires
        at(ts, p, a + b),
    ensures
        at(ts, p, a),
        at(ts, p + a.len(), b),
{
    let whole = a + b;
    assert(ts.subrange(p, p + a.len()) =~= a) by {
        assert forall|i: int| 0 <= i < a.len() implies ts.subrange(p, p + a.len())[i] == a[i] by {
            lemma_at_token(ts, p, whole, i);
        }
    }
    assert(ts.subrange(p + a.len(), p + a.len() + b.len()) =~= b) by {
        assert forall|i: int| 0 <= i < b.len() implies ts.subrange(
            p + a.len(),
            p + a.len() + b.len(),
        )[i] == b[i] by {
            lemma_at_token(ts, p, whole, a.len() + i);
        }
    }
    reveal(same_piece);
}

/// The cursor after the tokens of `e`, which begin at `c`.
pub open spec fn after(e: Expression, line: int, c: Cursor) -> Cursor {
    Cursor {
        pos: c.pos + tokens_of(e, line).len(),
        next_id: renumber(e, line, c.next_id).next,
    }
}

/// The kinds of token with which a chain begins.
pub open spec fn begins_chain(t: TokenType) -> bool {
    t == TokenType::Number || t == TokenType::True || t == TokenType::False || t
        == TokenType::Nil || t == TokenType::This || t == TokenType::Identifier || t
        == TokenType::Super
}

/// The tokens of a plain expression begin with the first token of a
/// chain; the parser hands out at least one identifier for it.
pub proof fn lemma_first_token(e: Expression, line: int, first: int)
    requires
        is_plain(e),
    ensures
        tokens_of(e, line).len() > 0,
        begins_chain(tokens_of(e, line)[0].token_type),
        renumber(e, line, first).next > first,
    decreases e,
{
    lemma_keywords();
    lemma_parts_are_plain(e);
    let ts = tokens_of(e, line);
    match e {
        Expression::Get(g) => {
            lemma_first_token(*g.object, line, first);
            assert(ts[0] == tokens_of(*g.object, line)[0]);
        },
        Expression::Call(c) => {
            lemma_first_token(*c.callee, line, first);
            lemma_list_next(
                c.arguments@,
                0,
                line,
                renumber(*c.callee, line, first).next,
                Seq::empty(),
            );
            assert(ts[0] == tokens_of(*c.callee, line)[0]);
        },
        Expression::Assign(a) => {
            lemma_first_token(*a.value, line, first + 1);
            assert(ts[0] == word_token(a.name.lexeme@, line));
        },
        Expression::SetExpr(s) => {
            lemma_first_token(*s.object, line, first);
            lemma_first_token(*s.value, line, renumber(*s.object, line, first).next + 1);
            assert(ts[0] == tokens_of(*s.object, line)[0]);
        },
        _ => {
            assert(ts.len() > 0);
        },
    }
}

/// Numbering a list does not go back, and gives as many expressions as
/// there are.
pub proof fn lemma_list_next(
    list: Seq<Expression>,
    i: int,
    line: int,
    first: int,
    before: Seq<ExprView>,
)
    requires
        0 <= i <= list.len(),
        all_plain(list, i),
    ensures
        renumber_list(list, i, line, first, before).next >= first,
        renumber_list(list, i, line, first, before).views.len() == before.len() + list.len() - i,
    decreases list, list.len() - i,
{
    if i < list.len() {
        lemma_first_token(list[i], line, first);
        let x = renumber(list[i], line, first);
        lemma_list_next(list, i + 1, line, x.next, before.push(x.view));
    }
}

/// The kinds of token after which a chain is over and no operator
/// goes on.
pub open spec fn ends_chain(t: TokenType) -> bool {
    t == TokenType::Eof || t == TokenType::RightParen || t == TokenType::Comma || t
        == TokenType::Equal
}

/// The kinds of token after which a plain expression is over.
pub open spec fn ends_plain(t: TokenType) -> bool {
    t == TokenType::Eof || t == TokenType::RightParen || t == TokenType::Comma
}

/// Before a token that is neither `(` nor `.`, a chain is over.
pub proof fn lemma_rest_stops(ts: Seq<TokenView>, c: Cursor, x: ExprView)
    requires
        0 <= c.pos < ts.len(),
        ts[c.pos].token_type != TokenType::LeftParen,
        ts[c.pos].token_type != TokenType::Dot,
    ensures
        grammar::call_rest(ts, c, x) == (Parsed { result: Ok(x), cursor: c }),
{
}

/// A dot and a name after a chain make a property of it.
pub proof fn lemma_rest_property(
    ts: Seq<TokenView>,
    c: Cursor,
    x: ExprView,
    name: Seq<char>,
    line: int,
)
    requires
        0 <= c.pos,
        c.pos + 2 < ts.len(),
        ts[c.pos] == mark_token('.', line),
        ts[c.pos + 1] == word_token(name, line),
        keyword_of(name) is None,
    ensures
        grammar::call_rest(ts, c, x) == grammar::call_rest(
            ts,
            Cursor { pos: c.pos + 2, next_id: c.next_id + 1 },
            ExprView::Get { id: c.next_id, object: Box::new(x), name: word_token(name, line) },
        ),
{
    let c1 = grammar::advance(ts, c);
    assert(c1 == Cursor { pos: c.pos + 1, next_id: c.next_id });
    assert(grammar::check(ts, c, TokenType::Dot));
    assert(!grammar::check(ts, c, TokenType::LeftParen));
    assert(grammar::check(ts, c1, TokenType::Identifier));
    let got = grammar::consume(ts, c1, TokenType::Identifier, "Expect property name after '.'."@);
    assert(got == Parsed {
        result: Ok(word_token(name, line)),
        cursor: Cursor { pos: c.pos + 2, next_id: c.next_id },
    });
}

/// An opening parenthesis after a chain and the call that is read
/// after it make a call of the chain.
pub proof fn lemma_rest_call(ts: Seq<TokenView>, c: Cursor, x: ExprView, node: ExprView, c2: Cursor)
    requires
        0 <= c.pos < c2.pos < ts.len(),
        ts[c.pos].token_type == TokenType::LeftParen,
        grammar::finish_call(ts, Cursor { pos: c.pos + 1, next_id: c.next_id }, x) == (Parsed {
            result: Ok(node),
            cursor: c2,
        }),
    ensures
        grammar::call_rest(ts, c, x) == grammar::call_rest(ts, c2, node),
{
    assert(grammar::advance(ts, c) == Cursor { pos: c.pos + 1, next_id: c.next_id });
    assert(grammar::check(ts, c, TokenType::LeftParen));
}

/// An expression that the call level reads, which begins as a chain
/// does and is followed by no operator, is what every level of binary
/// operators reads.
pub proof fn lemma_levels(ts: Seq<TokenView>, c: Cursor, level: Level, x: ExprView, c2: Cursor)
    requires
        0 <= c.pos < c2.pos < ts.len(),
        begins_chain(ts[c.pos].token_type),
        ends_chain(ts[c2.pos].token_type),
        grammar::call(ts, c) == (Parsed { result: Ok(x), cursor: c2 }),
    ensures
        grammar::binary_level(ts, c, level) == (Parsed { result: Ok(x), cursor: c2 }),
    decreases grammar::level_rank(level),
{
    let goal = Parsed { result: Ok(x), cursor: c2 };
    match level {
        Level::Or => lemma_levels(ts, c, Level::And, x, c2),
        Level::And => lemma_levels(ts, c, Level::Equality, x, c2),
        Level::Equality => lemma_levels(ts, c, Level::Comparison, x, c2),
        Level::Comparison => lemma_levels(ts, c, Level::Term, x, c2),
        Level::Term => lemma_levels(ts, c, Level::Factor, x, c2),
        Level::Factor => {
            assert(grammar::unary(ts, c) == goal);
        },
    }
    assert(grammar::operand(ts, c, level) == goal);
    assert(grammar::binary_rest(ts, c2, level, x) == goal);
}

/// The token of a simple expression is read as the expression.
pub proof fn lemma_parse_simple(e: Expression, ts: Seq<TokenView>, c: Cursor, line: int)
    requires
        is_simple(e),
        at(ts, c.pos, tokens_of(e, line)),
    ensures
        grammar::primary(ts, c) == (Parsed {
            result: Ok(renumber(e, line, c.next_id).view),
            cursor: after(e, line, c),
        }),
        after(e, line, c) == (Cursor { pos: c.pos + 1, next_id: c.next_id + 1 }),
{
    lemma_keywords();
    lemma_at_token(ts, c.pos, tokens_of(e, line), 0);
    let t = ts[c.pos];
    assert(grammar::advance(ts, c) == Cursor { pos: c.pos + 1, next_id: c.next_id });
}

/// `super`, a dot and a name are read as a method of the superclass.
pub proof fn lemma_parse_super(s: Super, ts: Seq<TokenView>, c: Cursor, line: int)
    requires
        is_name(s.method),
        at(ts, c.pos, tokens_of(Expression::Super(s), line)),
    ensures
        grammar::primary(ts, c) == (Parsed {
            result: Ok(renumber(Expression::Super(s), line, c.next_id).view),
            cursor: after(Expression::Super(s), line, c),
        }),
        after(Expression::Super(s), line, c) == (Cursor { pos: c.pos + 3, next_id: c.next_id + 1 }),
{
    lemma_keywords();
    let e = Expression::Super(s);
    lemma_at_token(ts, c.pos, tokens_of(e, line), 0);
    lemma_at_token(ts, c.pos, tokens_of(e, line), 1);
    lemma_at_token(ts, c.pos, tokens_of(e, line), 2);
    let c1 = grammar::advance(ts, c);
    assert(c1 == Cursor { pos: c.pos + 1, next_id: c.next_id });
    assert(grammar::check(ts, c, TokenType::Super));
    let dot = grammar::consume(ts, c1, TokenType::Dot, "Expect '.' after 'super'."@);
    assert(dot.cursor == Cursor { pos: c.pos + 2, next_id: c.next_id });
    let method = grammar::consume(
        ts,
        dot.cursor,
        TokenType::Identifier,
        "Expect superclass method name."@,
    );
    assert(method == Parsed {
        result: Ok(word_token(s.method.lexeme@, line)),
        cursor: Cursor { pos: c.pos + 3, next_id: c.next_id },
    });
}

/// Whether the call level, from `c`, reads the chain `x` up to `c2`
/// and goes on from there.
#[verifier::opaque]
pub open spec fn chain_read(ts: Seq<TokenView>, c: Cursor, x: ExprView, c2: Cursor) -> bool {
    grammar::call(ts, c) == grammar::call_rest(ts, c2, x)
}

/// Whether an expression read from `c` is `x`, and ends at `c2`.
#[verifier::opaque]
pub open spec fn plain_read(ts: Seq<TokenView>, c: Cursor, x: ExprView, c2: Cursor) -> bool {
    grammar::expression(ts, c) == (Parsed { result: Ok(x), cursor: c2 })
}

/// Whether the arguments read from `c`, after those in `before`, are
/// `all` together, and end at `c2`.
#[verifier::opaque]
pub open spec fn list_read(
    ts: Seq<TokenView>,
    c: Cursor,
    before: Seq<ExprView>,
    all: Seq<ExprView>,
    c2: Cursor,
) -> bool {
    grammar::arguments(ts, c, before) == (Parsed { result: Ok(all), cursor: c2 })
}

/// Whether the call of `callee` whose arguments begin at `c` is read
/// as `node`, and ends at `c2`.
#[verifier::opaque]
pub open spec fn call_read(
    ts: Seq<TokenView>,
    c: Cursor,
    callee: ExprView,
    node: ExprView,
    c2: Cursor,
) -> bool {
    grammar::finish_call(ts, c, callee) == (Parsed { result: Ok(node), cursor: c2 })
}

proof fn lemma_step_primary(ts: Seq<TokenView>, c: Cursor, x: ExprView, c2: Cursor)
    requires
        0 <= c.pos < c2.pos < ts.len(),
        grammar::primary(ts, c) == (Parsed { result: Ok(x), cursor: c2 }),
    ensures
        chain_read(ts, c, x, c2),
{
    reveal(chain_read);
}

proof fn lemma_step_property(
    ts: Seq<TokenView>,
    c: Cursor,
    x: ExprView,
    c1: Cursor,
    name: Seq<char>,
    line: int,
)
    requires
        chain_read(ts, c, x, c1),
        0 <= c1.pos,
        c1.pos + 2 < ts.len(),
        ts[c1.pos] == mark_token('.', line),
        ts[c1.pos + 1] == word_token(name, line),
        keyword_of(name) is None,
    ensures
        chain_read(
            ts,
            c,
            ExprView::Get { id: c1.next_id, object: Box::new(x), name: word_token(name, line) },
            Cursor { pos: c1.pos + 2, next_id: c1.next_id + 1 },
        ),
{
    reveal(chain_read);
    lemma_rest_property(ts, c1, x, name, line);
}

proof fn lemma_step_call(
    ts: Seq<TokenView>,
    c: Cursor,
    x: ExprView,
    c1: Cursor,
    node: ExprView,
    c2: Cursor,
)
    requires
        chain_read(ts, c, x, c1),
        0 <= c1.pos < c2.pos < ts.len(),
        ts[c1.pos].token_type == TokenType::LeftParen,
        call_read(ts, Cursor { pos: c1.pos + 1, next_id: c1.next_id }, x, node, c2),
    ensures
        chain_read(ts, c, node, c2),
{
    reveal(chain_read);
    reveal(call_read);
    lemma_rest_call(ts, c1, x, node, c2);
}

proof fn lemma_step_no_arguments(ts: Seq<TokenView>, c: Cursor, callee: ExprView)
    requires
        0 <= c.pos < ts.len(),
        ts[c.pos].token_type == TokenType::RightParen,
    ensures
        call_read(
            ts,
            c,
            callee,
            ExprView::Call {
                id: c.next_id,
                callee: Box::new(callee),
                paren: ts[c.pos],
                arguments: Seq::empty(),
            },
            Cursor { pos: c.pos + 1, next_id: c.next_id + 1 },
        ),
{
    reveal(call_read);
    assert(grammar::check(ts, c, TokenType::RightParen));
    assert(grammar::advance(ts, c) == Cursor { pos: c.pos + 1, next_id: c.next_id });
}

proof fn lemma_step_arguments(
    ts: Seq<TokenView>,
    c: Cursor,
    callee: ExprView,
    all: Seq<ExprView>,
    c2: Cursor,
)
    requires
        0 <= c.pos < ts.len(),
        0 <= c2.pos < ts.len(),
        ts[c.pos].token_type != TokenType::RightParen,
        list_read(ts, c, Seq::empty(), all, c2),
        ts[c2.pos].token_type == TokenType::RightParen,
    ensures
        call_read(
            ts,
            c,
            callee,
            ExprView::Call {
                id: c2.next_id,
                callee: Box::new(callee),
                paren: ts[c2.pos],
                arguments: all,
            },
            Cursor { pos: c2.pos + 1, next_id: c2.next_id + 1 },
        ),
{
    reveal(call_read);
    reveal(list_read);
    assert(!grammar::check(ts, c, TokenType::RightParen));
    assert(grammar::check(ts, c2, TokenType::RightParen));
    assert(grammar::advance(ts, c2) == Cursor { pos: c2.pos + 1, next_id: c2.next_id });
}

proof fn lemma_step_more(
    ts: Seq<TokenView>,
    c: Cursor,
    before: Seq<ExprView>,
    x: ExprView,
    c1: Cursor,
    all: Seq<ExprView>,
    c2: Cursor,
)
    requires
        before.len() < 255,
        plain_read(ts, c, x, c1),
        0 <= c.pos <= c1.pos < ts.len(),
        ts[c1.pos].token_type == TokenType::Comma,
        list_read(ts, Cursor { pos: c1.pos + 1, next_id: c1.next_id }, before.push(x), all, c2),
    ensures
        list_read(ts, c, before, all, c2),
{
    reveal(plain_read);
    reveal(list_read);
    assert(grammar::check(ts, c1, TokenType::Comma));
    assert(grammar::advance(ts, c1) == Cursor { pos: c1.pos + 1, next_id: c1.next_id });
}

proof fn lemma_step_last(
    ts: Seq<TokenView>,
    c: Cursor,
    before: Seq<ExprView>,
    x: ExprView,
    c1: Cursor,
)
    requires
        before.len() < 255,
        plain_read(ts, c, x, c1),
        0 <= c.pos <= c1.pos < ts.len(),
        ts[c1.pos].token_type != TokenType::Comma,
    ensures
        list_read(ts, c, before, before.push(x), c1),
{
    reveal(plain_read);
    reveal(list_read);
    assert(!grammar::check(ts, c1, TokenType::Comma));
}

proof fn lemma_step_chain(ts: Seq<TokenView>, c: Cursor, x: ExprView, c1: Cursor)
    requires
        chain_read(ts, c, x, c1),
        0 <= c.pos < c1.pos < ts.len(),
        begins_chain(ts[c.pos].token_type),
        ends_plain(ts[c1.pos].token_type),
    ensures
        plain_read(ts, c, x, c1),
{
    reveal(chain_read);
    reveal(plain_read);
    lemma_rest_stops(ts, c1, x);
    lemma_levels(ts, c, Level::Or, x, c1);
    assert(!grammar::check(ts, c1, TokenType::Equal));
}

/// The node of an assignment of `value` to the target `target`.
pub open spec fn assign_node(target: ExprView, id: int, value: ExprView) -> ExprView {
    match target {
        ExprView::Get { object, name, .. } => ExprView::SetExpr {
            id,
            object,
            name,
            value: Box::new(value),
        },
        ExprView::Variable { name, .. } => ExprView::Assign { id, name, value: Box::new(value) },
        _ => target,
    }
}

proof fn lemma_step_assign(
    ts: Seq<TokenView>,
    c: Cursor,
    target: ExprView,
    c1: Cursor,
    value: ExprView,
    c2: Cursor,
)
    requires
        chain_read(ts, c, target, c1),
        0 <= c.pos < c1.pos,
        c1.pos + 1 < ts.len(),
        begins_chain(ts[c.pos].token_type),
        ts[c1.pos].token_type == TokenType::Equal,
        target is Get || target is Variable,
        plain_read(ts, Cursor { pos: c1.pos + 1, next_id: c1.next_id }, value, c2),
    ensures
        plain_read(
            ts,
            c,
            assign_node(target, c2.next_id, value),
            Cursor { pos: c2.pos, next_id: c2.next_id + 1 },
        ),
{
    reveal(chain_read);
    reveal(plain_read);
    lemma_rest_stops(ts, c1, target);
    lemma_levels(ts, c, Level::Or, target, c1);
    let c3 = Cursor { pos: c1.pos + 1, next_id: c1.next_id };
    assert(grammar::check(ts, c1, TokenType::Equal));
    assert(grammar::advance(ts, c1) == c3);
    assert(grammar::assignment(ts, c3) == grammar::expression(ts, c3));
}

/// The tokens of a chain are read as the chain, and the call level
/// reads on after them.
pub proof fn lemma_parse_chain(e: Expression, ts: Seq<TokenView>, c: Cursor, line: int)
    requires
        is_chain(e),
        at(ts, c.pos, tokens_of(e, line)),
    ensures
        chain_read(ts, c, renumber(e, line, c.next_id).view, after(e, line, c)),
        c.pos < after(e, line, c).pos < ts.len(),
    decreases e, 0nat,
{
    lemma_chain_is_plain(e);
    lemma_parts_are_plain(e);
    lemma_first_token(e, line, c.next_id);
    match e {
        Expression::Super(s) => {
            lemma_parse_super(s, ts, c, line);
            lemma_step_primary(ts, c, renumber(e, line, c.next_id).view, after(e, line, c));
        },
        Expression::Get(g) => {
            lemma_parse_get(g, ts, c, line);
        },
        Expression::Call(k) => {
            lemma_parse_call(k, ts, c, line);
        },
        _ => {
            lemma_parse_simple(e, ts, c, line);
            lemma_step_primary(ts, c, renumber(e, line, c.next_id).view, after(e, line, c));
        },
    }
}

proof fn lemma_parse_get(g: Get, ts: Seq<TokenView>, c: Cursor, line: int)
    requires
        is_chain(Expression::Get(g)),
        at(ts, c.pos, tokens_of(Expression::Get(g), line)),
    ensures
        chain_read(
            ts,
            c,
            renumber(Expression::Get(g), line, c.next_id).view,
            after(Expression::Get(g), line, c),
        ),
    decreases g,
{
    let e = Expression::Get(g);
    lemma_chain_is_plain(e);
    lemma_parts_are_plain(e);
    let object = tokens_of(*g.object, line);
    let tail = seq![mark_token('.', line), word_token(g.name.lexeme@, line)];
    lemma_at_parts(ts, c.pos, object, tail);
    lemma_parse_chain(*g.object, ts, c, line);
    let c1 = after(*g.object, line, c);
    lemma_at_token(ts, c1.pos, tail, 0);
    lemma_at_token(ts, c1.pos, tail, 1);
    lemma_step_property(
        ts,
        c,
        renumber(*g.object, line, c.next_id).view,
        c1,
        g.name.lexeme@,
        line,
    );
}

/// Where the parts of a call stand among its tokens.
proof fn lemma_call_parts(k: Call, ts: Seq<TokenView>, p: int, line: int)
    requires
        at(ts, p, tokens_of(Expression::Call(k), line)),
    ensures
        at(ts, p, tokens_of(*k.callee, line)),
        ts[p + tokens_of(*k.callee, line).len()] == mark_token('(', line),
        at(
            ts,
            p + tokens_of(*k.callee, line).len() + 1,
            list_tokens(k.arguments@, 0, line) + seq![mark_token(')', line)],
        ),
        tokens_of(Expression::Call(k), line).len() == tokens_of(*k.callee, line).len()
            + list_tokens(k.arguments@, 0, line).len() + 2,
{
    let callee = tokens_of(*k.callee, line);
    let open = seq![mark_token('(', line)];
    let inner = list_tokens(k.arguments@, 0, line);
    let close = seq![mark_token(')', line)];
    assert(tokens_of(Expression::Call(k), line) == callee + open + inner + close);
    assert(callee + open + inner + close =~= callee + (open + (inner + close)));
    lemma_at_parts(ts, p, callee, open + (inner + close));
    lemma_at_parts(ts, p + callee.len(), open, inner + close);
    lemma_at_token(ts, p + callee.len(), open, 0);
}

proof fn lemma_parse_call(k: Call, ts: Seq<TokenView>, c: Cursor, line: int)
    requires
        is_chain(Expression::Call(k)),
        at(ts, c.pos, tokens_of(Expression::Call(k), line)),
    ensures
        chain_read(
            ts,
            c,
            renumber(Expression::Call(k), line, c.next_id).view,
            after(Expression::Call(k), line, c),
        ),
    decreases k,
{
    let e = Expression::Call(k);
    lemma_chain_is_plain(e);
    lemma_parts_are_plain(e);
    let list = k.arguments@;
    let inner = list_tokens(list, 0, line);
    let f = renumber(*k.callee, line, c.next_id);
    let c1 = after(*k.callee, line, c);
    let c2 = Cursor { pos: c1.pos + 1, next_id: c1.next_id };
    lemma_call_parts(k, ts, c.pos, line);
    lemma_parse_chain(*k.callee, ts, c, line);
    lemma_finish_call(list, ts, c2, line, f.view);
    let args = renumber_list(list, 0, line, f.next, Seq::empty());
    let node = ExprView::Call {
        id: args.next,
        callee: Box::new(f.view),
        paren: mark_token(')', line),
        arguments: args.views,
    };
    let c5 = Cursor { pos: c2.pos + inner.len() + 1, next_id: args.next + 1 };
    lemma_step_call(ts, c, f.view, c1, node, c5);
    assert(renumber(e, line, c.next_id) == Numbered { view: node, next: args.next + 1 });
    assert(c5 == after(e, line, c));
}

/// The tokens of an argument list and its closing parenthesis are
/// read as a call.
proof fn lemma_finish_call(
    list: Seq<Expression>,
    ts: Seq<TokenView>,
    c: Cursor,
    line: int,
    callee: ExprView,
)
    requires
        list.len() <= 255,
        all_plain(list, 0),
        at(ts, c.pos, list_tokens(list, 0, line) + seq![mark_token(')', line)]),
    ensures
        call_read(
            ts,
            c,
            callee,
            ExprView::Call {
                id: renumber_list(list, 0, line, c.next_id, Seq::empty()).next,
                callee: Box::new(callee),
                paren: mark_token(')', line),
                arguments: renumber_list(list, 0, line, c.next_id, Seq::empty()).views,
            },
            Cursor {
                pos: c.pos + list_tokens(list, 0, line).len() + 1,
                next_id: renumber_list(list, 0, line, c.next_id, Seq::empty()).next + 1,
            },
        ),
    decreases list, list.len() + 1,
{
    let inner = list_tokens(list, 0, line);
    let close = seq![mark_token(')', line)];
    lemma_at_parts(ts, c.pos, inner, close);
    let args = renumber_list(list, 0, line, c.next_id, Seq::empty());
    let c3 = Cursor { pos: c.pos + inner.len(), next_id: args.next };
    lemma_at_token(ts, c3.pos, close, 0);
    if list.len() == 0 {
        assert(inner =~= Seq::<TokenView>::empty());
        lemma_step_no_arguments(ts, c, callee);
    } else {
        let rest = tokens_of(list[0], line) + list_tokens(list, 1, line);
        assert(inner =~= rest);
        lemma_first_token(list[0], line, c.next_id);
        lemma_at_token(ts, c.pos, rest, 0);
        assert(rest[0] == tokens_of(list[0], line)[0]);
        lemma_parse_list(list, 0, ts, c, line, Seq::empty());
        lemma_step_arguments(ts, c, callee, args.views, c3);
    }
}

/// The tokens of the arguments from position `i` on, before a closing
/// parenthesis, are read as those arguments.
pub proof fn lemma_parse_list(
    list: Seq<Expression>,
    i: int,
    ts: Seq<TokenView>,
    c: Cursor,
    line: int,
    before: Seq<ExprView>,
)
    requires
        0 <= i < list.len() <= 255,
        all_plain(list, i),
        before.len() == i,
        at(ts, c.pos, tokens_of(list[i], line) + list_tokens(list, i + 1, line)),
        ts[c.pos + (tokens_of(list[i], line) + list_tokens(list, i + 1, line)).len()].token_type
            == TokenType::RightParen,
    ensures
        list_read(
            ts,
            c,
            before,
            renumber_list(list, i, line, c.next_id, before).views,
            Cursor {
                pos: c.pos + (tokens_of(list[i], line) + list_tokens(list, i + 1, line)).len(),
                next_id: renumber_list(list, i, line, c.next_id, before).next,
            },
        ),
    decreases list, list.len() - i,
{
    let head = tokens_of(list[i], line);
    let tail = list_tokens(list, i + 1, line);
    lemma_at_parts(ts, c.pos, head, tail);
    let x = renumber(list[i], line, c.next_id);
    let c1 = after(list[i], line, c);
    let whole = renumber_list(list, i, line, c.next_id, before);
    assert(whole == renumber_list(list, i + 1, line, x.next, before.push(x.view)));
    assert(is_plain(list[i]) && all_plain(list, i + 1));
    assert((head + tail).len() == head.len() + tail.len());
    if i + 1 < list.len() {
        let comma = seq![mark_token(',', line)];
        let next = tokens_of(list[i + 1], line) + list_tokens(list, i + 2, line);
        assert(tail =~= comma + next);
        assert(tail.len() == 1 + next.len());
        lemma_at_parts(ts, c1.pos, comma, next);
        lemma_at_token(ts, c1.pos, comma, 0);
        lemma_parse_plain(list[i], ts, c, line);
        let c2 = Cursor { pos: c1.pos + 1, next_id: c1.next_id };
        lemma_parse_list(list, i + 1, ts, c2, line, before.push(x.view));
        let c3 = Cursor { pos: c2.pos + next.len(), next_id: whole.next };
        lemma_step_more(ts, c, before, x.view, c1, whole.views, c3);
    } else {
        assert(tail =~= Seq::<TokenView>::empty());
        lemma_parse_plain(list[i], ts, c, line);
        assert(whole == NumberedList { views: before.push(x.view), next: x.next });
        lemma_step_last(ts, c, before, x.view, c1);
    }
}

/// The tokens of a plain expression, before the end of input, a comma
/// or a closing parenthesis, are read as the expression.
pub proof fn lemma_parse_plain(e: Expression, ts: Seq<TokenView>, c: Cursor, line: int)
    requires
        is_plain(e),
        at(ts, c.pos, tokens_of(e, line)),
        ends_plain(ts[c.pos + tokens_of(e, line).len()].token_type),
    ensures
        plain_read(ts, c, renumber(e, line, c.next_id).view, after(e, line, c)),
        c.pos < after(e, line, c).pos < ts.len(),
    decreases e, 1nat,
{
    lemma_parts_are_plain(e);
    lemma_first_token(e, line, c.next_id);
    lemma_at_token(ts, c.pos, tokens_of(e, line), 0);
    match e {
        Expression::Assign(a) => {
            lemma_parse_assign(a, ts, c, line);
        },
        Expression::SetExpr(s) => {
            lemma_parse_setexpr(s, ts, c, line);
        },
        _ => {
            lemma_parse_chain(e, ts, c, line);
            lemma_step_chain(ts, c, renumber(e, line, c.next_id).view, after(e, line, c));
        },
    }
}

proof fn lemma_parse_assign(a: Assign, ts: Seq<TokenView>, c: Cursor, line: int)
    requires
        is_plain(Expression::Assign(a)),
        at(ts, c.pos, tokens_of(Expression::Assign(a), line)),
        ends_plain(ts[c.pos + tokens_of(Expression::Assign(a), line).len()].token_type),
    ensures
        plain_read(
            ts,
            c,
            renumber(Expression::Assign(a), line, c.next_id).view,
            after(Expression::Assign(a), line, c),
        ),
    decreases a,
{
    let e = Expression::Assign(a);
    lemma_parts_are_plain(e);
    let name = word_token(a.name.lexeme@, line);
    let head = seq![name, mark_token('=', line)];
    let value = tokens_of(*a.value, line);
    lemma_at_parts(ts, c.pos, head, value);
    lemma_at_token(ts, c.pos, head, 0);
    lemma_at_token(ts, c.pos, head, 1);
    let target = ExprView::Variable { id: c.next_id, name };
    let c1 = Cursor { pos: c.pos + 1, next_id: c.next_id + 1 };
    assert(grammar::advance(ts, c) == Cursor { pos: c.pos + 1, next_id: c.next_id });
    assert(grammar::primary(ts, c) == Parsed { result: Ok(target), cursor: c1 });
    lemma_step_primary(ts, c, target, c1);
    let c2 = Cursor { pos: c.pos + 2, next_id: c.next_id + 1 };
    lemma_parse_plain(*a.value, ts, c2, line);
    lemma_step_assign(
        ts,
        c,
        target,
        c1,
        renumber(*a.value, line, c2.next_id).view,
        after(*a.value, line, c2),
    );
}

proof fn lemma_parse_setexpr(s: SetExpr, ts: Seq<TokenView>, c: Cursor, line: int)
    requires
        is_plain(Expression::SetExpr(s)),
        at(ts, c.pos, tokens_of(Expression::SetExpr(s), line)),
        ends_plain(ts[c.pos + tokens_of(Expression::SetExpr(s), line).len()].token_type),
    ensures
        plain_read(
            ts,
            c,
            renumber(Expression::SetExpr(s), line, c.next_id).view,
            after(Expression::SetExpr(s), line, c),
        ),
    decreases s,
{
    let e = Expression::SetExpr(s);
    lemma_parts_are_plain(e);
    let object = tokens_of(*s.object, line);
    let name = word_token(s.name.lexeme@, line);
    let middle = seq![mark_token('.', line), name, mark_token('=', line)];
    let value = tokens_of(*s.value, line);
    assert(tokens_of(e, line) == object + middle + value);
    lemma_at_parts(ts, c.pos, object + middle, value);
    lemma_at_parts(ts, c.pos, object, middle);
    lemma_first_token(*s.object, line, c.next_id);
    lemma_at_token(ts, c.pos, object, 0);
    lemma_parse_chain(*s.object, ts, c, line);
    let o = renumber(*s.object, line, c.next_id);
    let c1 = after(*s.object, line, c);
    lemma_at_token(ts, c1.pos, middle, 0);
    lemma_at_token(ts, c1.pos, middle, 1);
    lemma_at_token(ts, c1.pos, middle, 2);
    lemma_step_property(ts, c, o.view, c1, s.name.lexeme@, line);
    let target = ExprView::Get { id: o.next, object: Box::new(o.view), name };
    let c2 = Cursor { pos: c1.pos + 2, next_id: o.next + 1 };
    let c3 = Cursor { pos: c2.pos + 1, next_id: c2.next_id };
    lemma_parse_plain(*s.value, ts, c3, line);
    lemma_step_assign(
        ts,
        c,
        target,
        c2,
        renumber(*s.value, line, c3.next_id).view,
        after(*s.value, line, c3),
    );
}

} // verus!
