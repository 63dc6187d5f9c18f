//! The grammar, as functions from a token sequence and a position to the
//! syntax tree that starts there. A cursor also carries the identifier
//! that the next expression node receives.

use vstd::prelude::*;
use crate::expression::ExprView;
use crate::stmt::{FunctionView, StmtView};
use crate::text::int_text;
use crate::tokens::{LiteralView, TokenType, TokenView};

verus! {

/// A position in the token sequence and the next free node identifier.
pub struct Cursor {
    pub pos: int,
    pub next_id: int,
}

/// What parsing one construct gave, and where it stopped.
pub struct Parsed<T> {
    pub result: Result<T, Seq<char>>,
    pub cursor: Cursor,
}

/// A token sequence that the grammar can read: it ends in the
/// end-of-input token.
pub open spec fn terminated(tokens: Seq<TokenView>) -> bool {
    tokens.len() > 0 && tokens.last().token_type == TokenType::Eof
}

pub open spec fn at_end(tokens: Seq<TokenView>, c: Cursor) -> bool {
    tokens[c.pos].token_type == TokenType::Eof
}

/// Whether the next token is of kind `t`. The end-of-input token matches nothing.
pub open spec fn check(tokens: Seq<TokenView>, c: Cursor, t: TokenType) -> bool {
    !at_end(tokens, c) && tokens[c.pos].token_type == t
}

/// The cursor one token further, unless it stands at the end of input.
pub open spec fn advance(tokens: Seq<TokenView>, c: Cursor) -> Cursor {
    if at_end(tokens, c) {
        c
    } else {
        Cursor { pos: c.pos + 1, ..c }
    }
}

/// The cursor after one node identifier has been handed out.
pub open spec fn bump(c: Cursor) -> Cursor {
    Cursor { next_id: c.next_id + 1, ..c }
}

/// The diagnostic for `message` at `token`. The end-of-input token is
/// shown as `end`.
pub open spec fn error_at(token: TokenView, message: Seq<char>) -> Seq<char> {
    "[line "@ + int_text(token.line) + "] Error at '"@ + (if token.token_type == TokenType::Eof {
        "end"@
    } else {
        token.lexeme
    }) + "': "@ + message
}

pub open spec fn fail<T>(tokens: Seq<TokenView>, c: Cursor, message: Seq<char>) -> Parsed<T> {
    Parsed { result: Err(error_at(tokens[c.pos], message)), cursor: c }
}

/// Reads one token of kind `t`, or fails with `message` at the token found.
pub open spec fn consume(tokens: Seq<TokenView>, c: Cursor, t: TokenType, message: Seq<char>) -> Parsed<
    TokenView,
> {
    if check(tokens, c, t) {
        Parsed { result: Ok(tokens[c.pos]), cursor: advance(tokens, c) }
    } else {
        fail(tokens, c, message)
    }
}

/// The levels of binary operators, from loosest to tightest.
pub enum Level {
    Or,
    And,
    Equality,
    Comparison,
    Term,
    Factor,
}

pub open spec fn level_rank(level: Level) -> nat {
    match level {
        Level::Or => 18,
        Level::And => 17,
        Level::Equality => 16,
        Level::Comparison => 15,
        Level::Term => 14,
        Level::Factor => 13,
    }
}

/// Whether `t` is an operator of `level`.
pub open spec fn level_operator(level: Level, t: TokenType) -> bool {
    match level {
        Level::Or => t == TokenType::Or,
        Level::And => t == TokenType::And,
        Level::Equality => t == TokenType::BangEqual || t == TokenType::EqualEqual,
        Level::Comparison => t == TokenType::Greater || t == TokenType::GreaterEqual || t
            == TokenType::Less || t == TokenType::LessEqual,
        Level::Term => t == TokenType::Minus || t == TokenType::Plus,
        Level::Factor => t == TokenType::Slash || t == TokenType::Star,
    }
}

/// The node for `left operator right` at `level`: logical for `or` and
/// `and`, binary otherwise.
pub open spec fn level_node(level: Level, id: int, left: ExprView, operator: TokenView, right: ExprView) -> ExprView {
    match level {
        Level::Or | Level::And => ExprView::Logical {
            id,
            left: Box::new(left),
            operator,
            right: Box::new(right),
        },
        _ => ExprView::Binary { id, left: Box::new(left), operator, right: Box::new(right) },
    }
}

/// expression -> assignment
pub open spec fn expression(tokens: Seq<TokenView>, c: Cursor) -> Parsed<ExprView>
    decreases tokens.len() - c.pos, 20nat, 0nat,
{
    assignment(tokens, c)
}

/// assignment -> ( call "." )? IDENTIFIER "=" assignment | logical_or
pub open spec fn assignment(tokens: Seq<TokenView>, c: Cursor) -> Parsed<ExprView>
    decreases tokens.len() - c.pos, 19nat, 0nat,
{
    let target = binary_level(tokens, c, Level::Or);
    match target.result {
        Err(_) => target,
        Ok(expr) => {
            let c1 = target.cursor;
            if c.pos <= c1.pos < tokens.len() && check(tokens, c1, TokenType::Equal) {
                let value = assignment(tokens, advance(tokens, c1));
                match value.result {
                    Err(_) => value,
                    Ok(v) => {
                        let c2 = value.cursor;
                        match expr {
                            ExprView::Variable { id, name } => Parsed {
                                result: Ok(
                                    ExprView::Assign { id: c2.next_id, name, value: Box::new(v) },
                                ),
                                cursor: bump(c2),
                            },
                            ExprView::Get { id, object, name } => Parsed {
                                result: Ok(
                                    ExprView::SetExpr {
                                        id: c2.next_id,
                                        object,
                                        name,
                                        value: Box::new(v),
                                    },
                                ),
                                cursor: bump(c2),
                            },
                            _ => Parsed {
                                result: Err(
                                    "[line "@ + int_text(tokens[c2.pos - 1].line)
                                        + "] Error at '=': Invalid assignment target."@,
                                ),
                                cursor: c2,
                            },
                        }
                    },
                }
            } else {
                target
            }
        },
    }
}

/// What stands on both sides of an operator of `level`.
pub open spec fn operand(tokens: Seq<TokenView>, c: Cursor, level: Level) -> Parsed<ExprView>
    decreases tokens.len() - c.pos, level_rank(level), 0nat,
{
    match level {
        Level::Or => binary_level(tokens, c, Level::And),
        Level::And => binary_level(tokens, c, Level::Equality),
        Level::Equality => binary_level(tokens, c, Level::Comparison),
        Level::Comparison => binary_level(tokens, c, Level::Term),
        Level::Term => binary_level(tokens, c, Level::Factor),
        Level::Factor => unary(tokens, c),
    }
}

/// level -> operand ( operator operand )*, left-associative
pub open spec fn binary_level(tokens: Seq<TokenView>, c: Cursor, level: Level) -> Parsed<ExprView>
    decreases tokens.len() - c.pos, level_rank(level), 2nat,
{
    let first = operand(tokens, c, level);
    match first.result {
        Err(_) => first,
        Ok(left) => if c.pos <= first.cursor.pos < tokens.len() {
            binary_rest(tokens, first.cursor, level, left)
        } else {
            first
        },
    }
}

/// The operators of `level` and their right operands that follow `left`.
pub open spec fn binary_rest(tokens: Seq<TokenView>, c: Cursor, level: Level, left: ExprView) -> Parsed<
    ExprView,
>
    decreases tokens.len() - c.pos, level_rank(level), 1nat,
{
    if 0 <= c.pos < tokens.len() && !at_end(tokens, c) && level_operator(
        level,
        tokens[c.pos].token_type,
    ) {
        let right = operand(tokens, advance(tokens, c), level);
        match right.result {
            Err(_) => right,
            Ok(r) => {
                let c2 = right.cursor;
                if c.pos < c2.pos < tokens.len() {
                    binary_rest(
                        tokens,
                        bump(c2),
                        level,
                        level_node(level, c2.next_id, left, tokens[c.pos], r),
                    )
                } else {
                    right
                }
            },
        }
    } else {
        Parsed { result: Ok(left), cursor: c }
    }
}

/// unary -> ( "!" | "-" ) unary | call
pub open spec fn unary(tokens: Seq<TokenView>, c: Cursor) -> Parsed<ExprView>
    decreases tokens.len() - c.pos, 12nat, 0nat,
{
    if 0 <= c.pos < tokens.len() && (check(tokens, c, TokenType::Bang) || check(
        tokens,
        c,
        TokenType::Minus,
    )) {
        let right = unary(tokens, advance(tokens, c));
        match right.result {
            Err(_) => right,
            Ok(r) => Parsed {
                result: Ok(
                    ExprView::Unary {
                        id: right.cursor.next_id,
                        operator: tokens[c.pos],
                        right: Box::new(r),
                    },
                ),
                cursor: bump(right.cursor),
            },
        }
    } else {
        call(tokens, c)
    }
}

/// call -> primary ( "(" arguments? ")" | "." IDENTIFIER )*
pub open spec fn call(tokens: Seq<TokenView>, c: Cursor) -> Parsed<ExprView>
    decreases tokens.len() - c.pos, 11nat, 1nat,
{
    let first = primary(tokens, c);
    match first.result {
        Err(_) => first,
        Ok(e) => if c.pos <= first.cursor.pos < tokens.len() {
            call_rest(tokens, first.cursor, e)
        } else {
            first
        },
    }
}

/// The argument lists and property names that follow `callee`.
pub open spec fn call_rest(tokens: Seq<TokenView>, c: Cursor, callee: ExprView) -> Parsed<ExprView>
    decreases tokens.len() - c.pos, 11nat, 0nat,
{
    if 0 <= c.pos < tokens.len() && check(tokens, c, TokenType::LeftParen) {
        let done = finish_call(tokens, advance(tokens, c), callee);
        match done.result {
            Err(_) => done,
            Ok(e) => if c.pos < done.cursor.pos < tokens.len() {
                call_rest(tokens, done.cursor, e)
            } else {
                done
            },
        }
    } else if 0 <= c.pos < tokens.len() && check(tokens, c, TokenType::Dot) {
        let c1 = advance(tokens, c);
        let name = consume(tokens, c1, TokenType::Identifier, "Expect property name after '.'."@);
        match name.result {
            Err(e) => Parsed { result: Err(e), cursor: name.cursor },
            Ok(n) => if c.pos < name.cursor.pos < tokens.len() {
                call_rest(
                    tokens,
                    bump(name.cursor),
                    ExprView::Get { id: name.cursor.next_id, object: Box::new(callee), name: n },
                )
            } else {
                Parsed { result: Ok(callee), cursor: c }
            },
        }
    } else {
        Parsed { result: Ok(callee), cursor: c }
    }
}

/// The rest of a call whose opening parenthesis has been read.
pub open spec fn finish_call(tokens: Seq<TokenView>, c: Cursor, callee: ExprView) -> Parsed<ExprView>
    decreases tokens.len() - c.pos, 31nat, 0nat,
{
    let args = if check(tokens, c, TokenType::RightParen) {
        Parsed { result: Ok(Seq::<ExprView>::empty()), cursor: c }
    } else {
        arguments(tokens, c, Seq::empty())
    };
    match args.result {
        Err(e) => Parsed { result: Err(e), cursor: args.cursor },
        Ok(list) => {
            let paren = consume(
                tokens,
                args.cursor,
                TokenType::RightParen,
                "Expect ')' after arguments."@,
            );
            match paren.result {
                Err(e) => Parsed { result: Err(e), cursor: paren.cursor },
                Ok(p) => Parsed {
                    result: Ok(
                        ExprView::Call {
                            id: paren.cursor.next_id,
                            callee: Box::new(callee),
                            paren: p,
                            arguments: list,
                        },
                    ),
                    cursor: bump(paren.cursor),
                },
            }
        },
    }
}

/// arguments -> expression ( "," expression )*, at most 255 of them
pub open spec fn arguments(tokens: Seq<TokenView>, c: Cursor, before: Seq<ExprView>) -> Parsed<
    Seq<ExprView>,
>
    decreases tokens.len() - c.pos, 30nat, 0nat,
{
    if before.len() >= 255 {
        fail(tokens, c, "Can't have more than 255 arguments."@)
    } else {
        let next = expression(tokens, c);
        match next.result {
            Err(e) => Parsed { result: Err(e), cursor: next.cursor },
            Ok(e) => {
                let c1 = next.cursor;
                if c.pos <= c1.pos < tokens.len() && check(tokens, c1, TokenType::Comma) {
                    arguments(tokens, advance(tokens, c1), before.push(e))
                } else {
                    Parsed { result: Ok(before.push(e)), cursor: c1 }
                }
            },
        }
    }
}

/// primary -> "false" | "true" | "nil" | NUMBER | STRING | "(" expression ")"
///          | "this" | "super" "." IDENTIFIER | IDENTIFIER
pub open spec fn primary(tokens: Seq<TokenView>, c: Cursor) -> Parsed<ExprView>
    decreases tokens.len() - c.pos, 10nat, 0nat,
{
    let t = tokens[c.pos];
    let next = advance(tokens, c);
    let leaf = bump(next);
    if !(0 <= c.pos < tokens.len()) {
        fail(tokens, c, "Expect expression."@)
    } else if check(tokens, c, TokenType::False) {
        Parsed {
            result: Ok(ExprView::Literal { id: c.next_id, value: LiteralView::Bool(false) }),
            cursor: leaf,
        }
    } else if check(tokens, c, TokenType::True) {
        Parsed {
            result: Ok(ExprView::Literal { id: c.next_id, value: LiteralView::Bool(true) }),
            cursor: leaf,
        }
    } else if check(tokens, c, TokenType::Nil) {
        Parsed {
            result: Ok(ExprView::Literal { id: c.next_id, value: LiteralView::Nil }),
            cursor: leaf,
        }
    } else if check(tokens, c, TokenType::Number) || check(tokens, c, TokenType::String) {
        Parsed { result: Ok(ExprView::Literal { id: c.next_id, value: t.literal }), cursor: leaf }
    } else if check(tokens, c, TokenType::LeftParen) {
        let inner = expression(tokens, next);
        match inner.result {
            Err(_) => inner,
            Ok(e) => {
                let close = consume(
                    tokens,
                    inner.cursor,
                    TokenType::RightParen,
                    "Expect ')' after expression."@,
                );
                match close.result {
                    Err(m) => Parsed { result: Err(m), cursor: close.cursor },
                    Ok(_) => Parsed {
                        result: Ok(
                            ExprView::Grouping {
                                id: close.cursor.next_id,
                                expression: Box::new(e),
                            },
                        ),
                        cursor: bump(close.cursor),
                    },
                }
            },
        }
    } else if check(tokens, c, TokenType::This) {
        Parsed { result: Ok(ExprView::This { id: c.next_id, keyword: t }), cursor: leaf }
    } else if check(tokens, c, TokenType::Super) {
        let dot = consume(tokens, next, TokenType::Dot, "Expect '.' after 'super'."@);
        match dot.result {
            Err(m) => Parsed { result: Err(m), cursor: dot.cursor },
            Ok(_) => {
                let method = consume(
                    tokens,
                    dot.cursor,
                    TokenType::Identifier,
                    "Expect superclass method name."@,
                );
                match method.result {
                    Err(m) => Parsed { result: Err(m), cursor: method.cursor },
                    Ok(name) => Parsed {
                        result: Ok(
                            ExprView::Super {
                                id: method.cursor.next_id,
                                keyword: t,
                                method: name,
                            },
                        ),
                        cursor: bump(method.cursor),
                    },
                }
            },
        }
    } else if check(tokens, c, TokenType::Identifier) {
        match t.literal {
            LiteralView::String(s) => if s.len() == 0 {
                Parsed { result: Err("Empty identifier"@), cursor: next }
            } else {
                Parsed { result: Ok(ExprView::Variable { id: c.next_id, name: t }), cursor: leaf }
            },
            _ => Parsed { result: Err("Expected identifier"@), cursor: next },
        }
    } else {
        fail(tokens, c, "Expect expression."@)
    }
}

/// Whether `c2` lies strictly after `c` and inside the token sequence.
pub open spec fn moved(tokens: Seq<TokenView>, c: Cursor, c2: Cursor) -> bool {
    c.pos < c2.pos < tokens.len()
}

/// Carries a failure over to a result of another type.
pub open spec fn failed<S, T>(p: Parsed<S>) -> Parsed<T> {
    Parsed {
        result: Err(
            match p.result {
                Err(e) => e,
                Ok(_) => Seq::empty(),
            },
        ),
        cursor: p.cursor,
    }
}

/// Where error recovery resumes: after the next semicolon, or at the next
/// token that can begin a statement.
pub open spec fn synchronize(tokens: Seq<TokenView>, c: Cursor) -> Cursor {
    synchronize_rest(tokens, advance(tokens, c))
}

pub open spec fn starts_statement(t: TokenType) -> bool {
    t == TokenType::Class || t == TokenType::Fun || t == TokenType::Var || t == TokenType::For || t
        == TokenType::If || t == TokenType::While || t == TokenType::Print || t
        == TokenType::Return
}

pub open spec fn synchronize_rest(tokens: Seq<TokenView>, c: Cursor) -> Cursor
    decreases tokens.len() - c.pos,
{
    if !(1 <= c.pos < tokens.len()) || at_end(tokens, c) {
        c
    } else if tokens[c.pos - 1].token_type == TokenType::Semicolon {
        c
    } else if starts_statement(tokens[c.pos].token_type) {
        c
    } else {
        synchronize_rest(tokens, advance(tokens, c))
    }
}

/// declaration -> classDecl | funDecl | varDecl | statement
pub open spec fn declaration(tokens: Seq<TokenView>, c: Cursor) -> Parsed<StmtView>
    decreases tokens.len() - c.pos, 40nat, 0nat,
{
    if !(0 <= c.pos < tokens.len()) {
        fail(tokens, c, "Expect expression."@)
    } else if check(tokens, c, TokenType::Class) {
        class_declaration(tokens, advance(tokens, c))
    } else if check(tokens, c, TokenType::Fun) {
        fun_declaration(tokens, advance(tokens, c), "function"@)
    } else if check(tokens, c, TokenType::Var) {
        var_declaration(tokens, advance(tokens, c))
    } else {
        statement(tokens, c)
    }
}

/// classDecl -> "class" IDENTIFIER ( "<" IDENTIFIER )? "{" function* "}",
/// from the class name on.
pub open spec fn class_declaration(tokens: Seq<TokenView>, c: Cursor) -> Parsed<StmtView>
    decreases tokens.len() - c.pos, 38nat, 0nat,
{
    let name = consume(tokens, c, TokenType::Identifier, "Expect class name."@);
    match name.result {
        Err(_) => failed(name),
        Ok(n) => {
            let parent = superclass(tokens, name.cursor);
            match parent.result {
                Err(_) => failed(parent),
                Ok(sup) => {
                    let open = consume(
                        tokens,
                        parent.cursor,
                        TokenType::LeftBrace,
                        "Expect '{' before class body."@,
                    );
                    match open.result {
                        Err(_) => failed(open),
                        Ok(_) => if moved(tokens, c, open.cursor) {
                            let members = methods(tokens, open.cursor, Seq::empty());
                            match members.result {
                                Err(_) => failed(members),
                                Ok(ms) => {
                                    let close = consume(
                                        tokens,
                                        members.cursor,
                                        TokenType::RightBrace,
                                        "Expect '}' after class body."@,
                                    );
                                    match close.result {
                                        Err(_) => failed(close),
                                        Ok(_) => Parsed {
                                            result: Ok(
                                                StmtView::Class {
                                                    name: n,
                                                    superclass: sup,
                                                    methods: ms,
                                                },
                                            ),
                                            cursor: close.cursor,
                                        },
                                    }
                                },
                            }
                        } else {
                            failed(open)
                        },
                    }
                },
            }
        },
    }
}

/// ( "<" IDENTIFIER )?: the superclass, as a variable reference.
#[verifier::opaque]
pub open spec fn superclass(tokens: Seq<TokenView>, c: Cursor) -> Parsed<Option<ExprView>> {
    if check(tokens, c, TokenType::Less) {
        let name = consume(
            tokens,
            advance(tokens, c),
            TokenType::Identifier,
            "Expect superclass name."@,
        );
        match name.result {
            Err(_) => failed(name),
            Ok(n) => Parsed {
                result: Ok(Some(ExprView::Variable { id: name.cursor.next_id, name: n })),
                cursor: bump(name.cursor),
            },
        }
    } else {
        Parsed { result: Ok(None), cursor: c }
    }
}

/// function*: the methods of a class body, up to its closing brace.
pub open spec fn methods(tokens: Seq<TokenView>, c: Cursor, before: Seq<FunctionView>) -> Parsed<
    Seq<FunctionView>,
>
    decreases tokens.len() - c.pos, 37nat, 0nat,
{
    if !(0 <= c.pos < tokens.len()) || check(tokens, c, TokenType::RightBrace) || at_end(
        tokens,
        c,
    ) {
        Parsed { result: Ok(before), cursor: c }
    } else {
        let method = function(tokens, c, "method"@);
        match method.result {
            Err(_) => failed(method),
            Ok(m) => if moved(tokens, c, method.cursor) {
                methods(tokens, method.cursor, before.push(m))
            } else {
                failed(method)
            },
        }
    }
}

/// funDecl -> "fun" function, from the function name on.
pub open spec fn fun_declaration(tokens: Seq<TokenView>, c: Cursor, kind: Seq<char>) -> Parsed<
    StmtView,
>
    decreases tokens.len() - c.pos, 36nat, 1nat,
{
    let f = function(tokens, c, kind);
    match f.result {
        Err(_) => failed(f),
        Ok(function) => Parsed { result: Ok(StmtView::Function { function }), cursor: f.cursor },
    }
}

/// function -> IDENTIFIER "(" parameters? ")" block
pub open spec fn function(tokens: Seq<TokenView>, c: Cursor, kind: Seq<char>) -> Parsed<
    FunctionView,
>
    decreases tokens.len() - c.pos, 36nat, 0nat,
{
    let name = consume(tokens, c, TokenType::Identifier, "Expect "@ + kind + " name."@);
    match name.result {
        Err(_) => failed(name),
        Ok(n) => {
            let open = consume(
                tokens,
                name.cursor,
                TokenType::LeftParen,
                "Expect '(' after "@ + kind + " name."@,
            );
            match open.result {
                Err(_) => failed(open),
                Ok(_) => {
                    let params = if check(tokens, open.cursor, TokenType::RightParen) {
                        Parsed { result: Ok(Seq::<TokenView>::empty()), cursor: open.cursor }
                    } else {
                        parameters(tokens, open.cursor, Seq::empty())
                    };
                    match params.result {
                        Err(_) => failed(params),
                        Ok(ps) => {
                            let close = consume(
                                tokens,
                                params.cursor,
                                TokenType::RightParen,
                                "Expect ')' after parameters."@,
                            );
                            match close.result {
                                Err(_) => failed(close),
                                Ok(_) => {
                                    let brace = consume(
                                        tokens,
                                        close.cursor,
                                        TokenType::LeftBrace,
                                        "Expect '{' before function body."@,
                                    );
                                    match brace.result {
                                        Err(_) => failed(brace),
                                        Ok(_) => if moved(tokens, c, brace.cursor) {
                                            let body = block(tokens, brace.cursor);
                                            match body.result {
                                                Ok(StmtView::Block { statements }) => Parsed {
                                                    result: Ok(
                                                        FunctionView {
                                                            name: n,
                                                            params: ps,
                                                            body: statements,
                                                        },
                                                    ),
                                                    cursor: body.cursor,
                                                },
                                                _ => failed(body),
                                            }
                                        } else {
                                            failed(brace)
                                        },
                                    }
                                },
                            }
                        },
                    }
                },
            }
        },
    }
}

/// parameters -> IDENTIFIER ( "," IDENTIFIER )*, at most 255 of them
pub open spec fn parameters(tokens: Seq<TokenView>, c: Cursor, before: Seq<TokenView>) -> Parsed<
    Seq<TokenView>,
>
    decreases tokens.len() - c.pos,
{
    if before.len() >= 255 {
        fail(tokens, c, "Can't have more than 255 parameters."@)
    } else {
        let name = consume(tokens, c, TokenType::Identifier, "Expect parameter name."@);
        match name.result {
            Err(_) => failed(name),
            Ok(n) => {
                let c1 = name.cursor;
                if moved(tokens, c, c1) && check(tokens, c1, TokenType::Comma) {
                    parameters(tokens, advance(tokens, c1), before.push(n))
                } else {
                    Parsed { result: Ok(before.push(n)), cursor: c1 }
                }
            },
        }
    }
}

/// varDecl -> "var" IDENTIFIER ( "=" expression )? ";", from the name on.
#[verifier::opaque]
pub open spec fn var_declaration(tokens: Seq<TokenView>, c: Cursor) -> Parsed<StmtView> {
    let name = consume(tokens, c, TokenType::Identifier, "Expect variable name."@);
    match name.result {
        Err(_) => failed(name),
        Ok(n) => {
            let init = if check(tokens, name.cursor, TokenType::Equal) {
                let value = expression(tokens, advance(tokens, name.cursor));
                match value.result {
                    Err(_) => failed(value),
                    Ok(e) => Parsed { result: Ok(Some(e)), cursor: value.cursor },
                }
            } else {
                Parsed { result: Ok(None), cursor: name.cursor }
            };
            match init.result {
                Err(_) => failed(init),
                Ok(initializer) => {
                    let semi = consume(
                        tokens,
                        init.cursor,
                        TokenType::Semicolon,
                        "Expect ';' after variable declaration."@,
                    );
                    match semi.result {
                        Err(_) => failed(semi),
                        Ok(_) => Parsed {
                            result: Ok(StmtView::Var { name: n, initializer }),
                            cursor: semi.cursor,
                        },
                    }
                },
            }
        },
    }
}

/// statement -> forStmt | ifStmt | printStmt | returnStmt | whileStmt
///            | block | exprStmt
pub open spec fn statement(tokens: Seq<TokenView>, c: Cursor) -> Parsed<StmtView>
    decreases tokens.len() - c.pos, 35nat, 0nat,
{
    if !(0 <= c.pos < tokens.len()) {
        fail(tokens, c, "Expect expression."@)
    } else if check(tokens, c, TokenType::For) {
        for_statement(tokens, advance(tokens, c))
    } else if check(tokens, c, TokenType::If) {
        if_statement(tokens, advance(tokens, c))
    } else if check(tokens, c, TokenType::Print) {
        print_statement(tokens, advance(tokens, c))
    } else if check(tokens, c, TokenType::Return) {
        return_statement(tokens, advance(tokens, c))
    } else if check(tokens, c, TokenType::While) {
        while_statement(tokens, advance(tokens, c))
    } else if check(tokens, c, TokenType::LeftBrace) {
        block(tokens, advance(tokens, c))
    } else {
        expression_statement(tokens, c)
    }
}

/// The first clause of a `for`: a variable declaration, an expression
/// statement, or nothing but the semicolon.
#[verifier::opaque]
pub open spec fn for_initializer(tokens: Seq<TokenView>, c: Cursor) -> Parsed<Option<StmtView>> {
    if check(tokens, c, TokenType::Var) {
        let d = var_declaration(tokens, advance(tokens, c));
        match d.result {
            Err(_) => failed(d),
            Ok(s) => Parsed { result: Ok(Some(s)), cursor: d.cursor },
        }
    } else if check(tokens, c, TokenType::Semicolon) {
        Parsed { result: Ok(None), cursor: advance(tokens, c) }
    } else {
        let d = expression_statement(tokens, c);
        match d.result {
            Err(_) => failed(d),
            Ok(s) => Parsed { result: Ok(Some(s)), cursor: d.cursor },
        }
    }
}

/// An expression, unless the next token is of kind `stop`.
#[verifier::opaque]
pub open spec fn optional_expression(tokens: Seq<TokenView>, c: Cursor, stop: TokenType) -> Parsed<
    Option<ExprView>,
> {
    if check(tokens, c, stop) {
        Parsed { result: Ok(None), cursor: c }
    } else {
        let e = expression(tokens, c);
        match e.result {
            Err(_) => failed(e),
            Ok(v) => Parsed { result: Ok(Some(v)), cursor: e.cursor },
        }
    }
}

/// The condition of the loop that a `for` statement stands for: the one
/// written, or `true` as a fresh literal with identifier `id`.
pub open spec fn loop_condition(condition: Option<ExprView>, id: int) -> ExprView {
    match condition {
        Some(e) => e,
        None => ExprView::Literal { id, value: LiteralView::Bool(true) },
    }
}

/// The loop that a `for` statement stands for: the body followed by the
/// increment, under a `while` on the condition, preceded by the
/// initializer in a block.
pub open spec fn for_loop(
    initializer: Option<StmtView>,
    condition: ExprView,
    increment: Option<ExprView>,
    body: StmtView,
) -> StmtView {
    let stepped = match increment {
        Some(e) => StmtView::Block { statements: seq![body, StmtView::Expression { expression: e }] },
        None => body,
    };
    let looped = StmtView::While { condition, body: Box::new(stepped) };
    match initializer {
        Some(i) => StmtView::Block { statements: seq![i, looped] },
        None => looped,
    }
}

/// The three clauses of a `for` statement.
pub struct ForClauses {
    pub initializer: Option<StmtView>,
    pub condition: Option<ExprView>,
    pub increment: Option<ExprView>,
}

/// "(" ( varDecl | exprStmt | ";" ) expression? ";" expression? ")"
#[verifier::opaque]
pub open spec fn for_clauses(tokens: Seq<TokenView>, c: Cursor) -> Parsed<ForClauses> {
    let open = consume(tokens, c, TokenType::LeftParen, "Expect '(' after 'for'."@);
    match open.result {
        Err(_) => failed(open),
        Ok(_) => {
            let init = for_initializer(tokens, open.cursor);
            match init.result {
                Err(_) => failed(init),
                Ok(initializer) => {
                    let cond = optional_expression(tokens, init.cursor, TokenType::Semicolon);
                    match cond.result {
                        Err(_) => failed(cond),
                        Ok(condition) => for_increment(tokens, cond.cursor, initializer, condition),
                    }
                },
            }
        },
    }
}

/// ";" expression? ")": the end of the clauses of a `for` statement.
#[verifier::opaque]
pub open spec fn for_increment(
    tokens: Seq<TokenView>,
    c: Cursor,
    initializer: Option<StmtView>,
    condition: Option<ExprView>,
) -> Parsed<ForClauses> {
    let semi = consume(tokens, c, TokenType::Semicolon, "Expect ';' after loop condition."@);
    match semi.result {
        Err(_) => failed(semi),
        Ok(_) => {
            let inc = optional_expression(tokens, semi.cursor, TokenType::RightParen);
            match inc.result {
                Err(_) => failed(inc),
                Ok(increment) => {
                    let close = consume(
                        tokens,
                        inc.cursor,
                        TokenType::RightParen,
                        "Expect ')' after for clauses."@,
                    );
                    match close.result {
                        Err(_) => failed(close),
                        Ok(_) => Parsed {
                            result: Ok(ForClauses { initializer, condition, increment }),
                            cursor: close.cursor,
                        },
                    }
                },
            }
        },
    }
}

/// forStmt -> "for" "(" ( varDecl | exprStmt | ";" ) expression? ";"
///            expression? ")" statement, from the parenthesis on.
pub open spec fn for_statement(tokens: Seq<TokenView>, c: Cursor) -> Parsed<StmtView>
    decreases tokens.len() - c.pos, 30nat, 0nat,
{
    let head = for_clauses(tokens, c);
    match head.result {
        Err(_) => failed(head),
        Ok(clauses) => if moved(tokens, c, head.cursor) {
            let body = statement(tokens, head.cursor);
            match body.result {
                Err(_) => body,
                Ok(b) => Parsed {
                    result: Ok(
                        for_loop(
                            clauses.initializer,
                            loop_condition(clauses.condition, body.cursor.next_id),
                            clauses.increment,
                            b,
                        ),
                    ),
                    cursor: if clauses.condition is None {
                        bump(body.cursor)
                    } else {
                        body.cursor
                    },
                },
            }
        } else {
            failed(head)
        },
    }
}

/// ifStmt -> "if" "(" expression ")" statement ( "else" statement )?,
/// from the parenthesis on.
pub open spec fn if_statement(tokens: Seq<TokenView>, c: Cursor) -> Parsed<StmtView>
    decreases tokens.len() - c.pos, 30nat, 0nat,
{
    let open = consume(tokens, c, TokenType::LeftParen, "Expect '(' after 'if'."@);
    match open.result {
        Err(_) => failed(open),
        Ok(_) => {
            let cond = expression(tokens, open.cursor);
            match cond.result {
                Err(_) => failed(cond),
                Ok(condition) => {
                    let close = consume(
                        tokens,
                        cond.cursor,
                        TokenType::RightParen,
                        "Expect ')' after condition."@,
                    );
                    match close.result {
                        Err(_) => failed(close),
                        Ok(_) => if moved(tokens, c, close.cursor) {
                            let then = statement(tokens, close.cursor);
                            match then.result {
                                Err(_) => then,
                                Ok(t) => if moved(tokens, c, then.cursor) && check(
                                    tokens,
                                    then.cursor,
                                    TokenType::Else,
                                ) {
                                    let other = statement(tokens, advance(tokens, then.cursor));
                                    match other.result {
                                        Err(_) => other,
                                        Ok(e) => Parsed {
                                            result: Ok(
                                                StmtView::If {
                                                    condition,
                                                    then_branch: Box::new(t),
                                                    else_branch: Some(Box::new(e)),
                                                },
                                            ),
                                            cursor: other.cursor,
                                        },
                                    }
                                } else {
                                    Parsed {
                                        result: Ok(
                                            StmtView::If {
                                                condition,
                                                then_branch: Box::new(t),
                                                else_branch: None,
                                            },
                                        ),
                                        cursor: then.cursor,
                                    }
                                },
                            }
                        } else {
                            failed(close)
                        },
                    }
                },
            }
        },
    }
}

/// printStmt -> "print" expression ";", from the expression on.
#[verifier::opaque]
pub open spec fn print_statement(tokens: Seq<TokenView>, c: Cursor) -> Parsed<StmtView> {
    let value = expression(tokens, c);
    match value.result {
        Err(_) => failed(value),
        Ok(expression) => {
            let semi = consume(
                tokens,
                value.cursor,
                TokenType::Semicolon,
                "Expect ';' after value."@,
            );
            match semi.result {
                Err(_) => failed(semi),
                Ok(_) => Parsed { result: Ok(StmtView::Print { expression }), cursor: semi.cursor },
            }
        },
    }
}

/// returnStmt -> "return" expression? ";", from after the keyword on.
#[verifier::opaque]
pub open spec fn return_statement(tokens: Seq<TokenView>, c: Cursor) -> Parsed<StmtView> {
    let value = optional_expression(tokens, c, TokenType::Semicolon);
    match value.result {
        Err(_) => failed(value),
        Ok(v) => {
            let semi = consume(
                tokens,
                value.cursor,
                TokenType::Semicolon,
                "Expect ';' after return value."@,
            );
            match semi.result {
                Err(_) => failed(semi),
                Ok(_) => Parsed {
                    result: Ok(StmtView::Return { keyword: tokens[c.pos - 1], value: v }),
                    cursor: semi.cursor,
                },
            }
        },
    }
}

/// whileStmt -> "while" "(" expression ")" statement, from the
/// parenthesis on.
pub open spec fn while_statement(tokens: Seq<TokenView>, c: Cursor) -> Parsed<StmtView>
    decreases tokens.len() - c.pos, 30nat, 0nat,
{
    let open = consume(tokens, c, TokenType::LeftParen, "Expect '(' after 'while'."@);
    match open.result {
        Err(_) => failed(open),
        Ok(_) => {
            let cond = expression(tokens, open.cursor);
            match cond.result {
                Err(_) => failed(cond),
                Ok(condition) => {
                    let close = consume(
                        tokens,
                        cond.cursor,
                        TokenType::RightParen,
                        "Expect ')' after condition."@,
                    );
                    match close.result {
                        Err(_) => failed(close),
                        Ok(_) => if moved(tokens, c, close.cursor) {
                            let body = statement(tokens, close.cursor);
                            match body.result {
                                Err(_) => body,
                                Ok(b) => Parsed {
                                    result: Ok(StmtView::While { condition, body: Box::new(b) }),
                                    cursor: body.cursor,
                                },
                            }
                        } else {
                            failed(close)
                        },
                    }
                },
            }
        },
    }
}

/// block -> "{" declaration* "}", from after the opening brace on. A
/// declaration that fails is skipped by error recovery; the block then
/// fails with the last such diagnostic once its closing brace is read.
pub open spec fn block(tokens: Seq<TokenView>, c: Cursor) -> Parsed<StmtView>
    decreases tokens.len() - c.pos, 50nat, 0nat,
{
    block_rest(tokens, c, Seq::empty(), None)
}

pub open spec fn block_rest(
    tokens: Seq<TokenView>,
    c: Cursor,
    before: Seq<StmtView>,
    last_error: Option<Seq<char>>,
) -> Parsed<StmtView>
    decreases tokens.len() - c.pos, 49nat, 0nat,
{
    if 0 <= c.pos < tokens.len() && !at_end(tokens, c) && tokens[c.pos].token_type
        != TokenType::RightBrace {
        let d = declaration(tokens, c);
        match d.result {
            Ok(s) => if moved(tokens, c, d.cursor) {
                block_rest(tokens, d.cursor, before.push(s), last_error)
            } else {
                failed(d)
            },
            Err(e) => {
                let c1 = synchronize(tokens, d.cursor);
                if moved(tokens, c, c1) {
                    block_rest(tokens, c1, before, Some(e))
                } else {
                    d
                }
            },
        }
    } else {
        let close = consume(tokens, c, TokenType::RightBrace, "Expect '}' after block."@);
        match close.result {
            Err(_) => failed(close),
            Ok(_) => Parsed {
                result: match last_error {
                    Some(e) => Err(e),
                    None => Ok(StmtView::Block { statements: before }),
                },
                cursor: close.cursor,
            },
        }
    }
}

/// exprStmt -> expression ";"
#[verifier::opaque]
pub open spec fn expression_statement(tokens: Seq<TokenView>, c: Cursor) -> Parsed<StmtView> {
    let value = expression(tokens, c);
    match value.result {
        Err(_) => failed(value),
        Ok(expression) => {
            let semi = consume(
                tokens,
                value.cursor,
                TokenType::Semicolon,
                "Expect ';' after expression."@,
            );
            match semi.result {
                Err(_) => failed(semi),
                Ok(_) => Parsed {
                    result: Ok(StmtView::Expression { expression }),
                    cursor: semi.cursor,
                },
            }
        },
    }
}

/// What parsing a whole program gives: the statements that parsed, the
/// diagnostics of those that did not, and where parsing stopped.
pub struct Program {
    pub statements: Seq<StmtView>,
    pub errors: Seq<Seq<char>>,
    pub cursor: Cursor,
}

/// program -> declaration* EOF, with error recovery after each
/// declaration that fails.
pub open spec fn program(tokens: Seq<TokenView>, c: Cursor) -> Program {
    program_rest(tokens, Program { statements: Seq::empty(), errors: Seq::empty(), cursor: c })
}

pub open spec fn program_rest(tokens: Seq<TokenView>, so_far: Program) -> Program
    decreases tokens.len() - so_far.cursor.pos,
{
    let c = so_far.cursor;
    if 0 <= c.pos < tokens.len() && !at_end(tokens, c) {
        let d = declaration(tokens, c);
        match d.result {
            Ok(s) => if moved(tokens, c, d.cursor) {
                program_rest(
                    tokens,
                    Program { statements: so_far.statements.push(s), cursor: d.cursor, ..so_far },
                )
            } else {
                so_far
            },
            Err(e) => {
                let c1 = synchronize(tokens, d.cursor);
                if moved(tokens, c, c1) {
                    program_rest(
                        tokens,
                        Program { errors: so_far.errors.push(e), cursor: c1, ..so_far },
                    )
                } else {
                    Program { errors: so_far.errors.push(e), cursor: c1, ..so_far }
                }
            },
        }
    } else {
        so_far
    }
}

} // verus!
