//! The expression compiler, as functions from tokens and a position to
//! the chunk that results: every token kind has a rule that says how
//! it parses at the start of an expression, how after an operand, and
//! how tightly it binds.

use vstd::prelude::*;
use crate::grammar::error_at;
use crate::tokens::{TokenType, TokenView};
use crate::vm::chunk::{ChunkView, OpCode, byte_of};

verus! {

/// How tightly an operator binds, from loosest to tightest.
#[derive(Debug, Clone, Copy, PartialEq, Eq, Structural)]
pub enum Precedence {
    Lowest,
    Assignment,
    Or,
    And,
    Equality,
    Comparison,
    Term,
    Factor,
    Unary,
    Call,
    Primary,
}

pub open spec fn rank(p: Precedence) -> nat {
    match p {
        Precedence::Lowest => 0,
        Precedence::Assignment => 1,
        Precedence::Or => 2,
        Precedence::And => 3,
        Precedence::Equality => 4,
        Precedence::Comparison => 5,
        Precedence::Term => 6,
        Precedence::Factor => 7,
        Precedence::Unary => 8,
        Precedence::Call => 9,
        Precedence::Primary => 10,
    }
}

/// The next tighter precedence. Nothing binds more tightly than a
/// primary expression.
pub open spec fn tighter(p: Precedence) -> Precedence {
    match p {
        Precedence::Lowest => Precedence::Assignment,
        Precedence::Assignment => Precedence::Or,
        Precedence::Or => Precedence::And,
        Precedence::And => Precedence::Equality,
        Precedence::Equality => Precedence::Comparison,
        Precedence::Comparison => Precedence::Term,
        Precedence::Term => Precedence::Factor,
        Precedence::Factor => Precedence::Unary,
        Precedence::Unary => Precedence::Call,
        Precedence::Call => Precedence::Primary,
        Precedence::Primary => Precedence::Primary,
    }
}

/// What a rule does.
#[derive(Debug, Clone, Copy, PartialEq, Eq, Structural)]
pub enum Handler {
    Number,
    Literal,
    Grouping,
    Unary,
    Binary,
}

/// The rule of a token kind: what it does at the start of an
/// expression, what after an operand, and how tightly it binds there.
#[derive(Debug, Clone, Copy, PartialEq, Eq, Structural)]
pub struct ParseRule {
    pub prefix: Option<Handler>,
    pub infix: Option<Handler>,
    pub precedence: Precedence,
}

pub open spec fn binary_rule(precedence: Precedence) -> ParseRule {
    ParseRule { prefix: None, infix: Some(Handler::Binary), precedence }
}

pub open spec fn prefix_rule(handler: Handler) -> ParseRule {
    ParseRule { prefix: Some(handler), infix: None, precedence: Precedence::Lowest }
}

/// The table of rules.
pub open spec fn rule_of(t: TokenType) -> ParseRule {
    match t {
        TokenType::Number => prefix_rule(Handler::Number),
        TokenType::Nil => prefix_rule(Handler::Literal),
        TokenType::True => prefix_rule(Handler::Literal),
        TokenType::False => prefix_rule(Handler::Literal),
        TokenType::LeftParen => prefix_rule(Handler::Grouping),
        TokenType::Minus => ParseRule {
            prefix: Some(Handler::Unary),
            infix: Some(Handler::Binary),
            precedence: Precedence::Term,
        },
        TokenType::Plus => binary_rule(Precedence::Term),
        TokenType::Slash => binary_rule(Precedence::Factor),
        TokenType::Star => binary_rule(Precedence::Factor),
        TokenType::Bang => prefix_rule(Handler::Unary),
        TokenType::BangEqual => binary_rule(Precedence::Equality),
        TokenType::EqualEqual => binary_rule(Precedence::Equality),
        TokenType::Greater => binary_rule(Precedence::Comparison),
        TokenType::GreaterEqual => binary_rule(Precedence::Comparison),
        TokenType::Less => binary_rule(Precedence::Comparison),
        TokenType::LessEqual => binary_rule(Precedence::Comparison),
        _ => ParseRule { prefix: None, infix: None, precedence: Precedence::Lowest },
    }
}

/// The line of a token as a chunk records it.
pub open spec fn line_of(t: TokenView) -> u32 {
    if 0 <= t.line <= 0x7fff_ffff {
        t.line as u32
    } else {
        0
    }
}

pub open spec fn emit(c: ChunkView, op: OpCode, line: u32) -> ChunkView {
    ChunkView { code: c.code.push(byte_of(op)), lines: c.lines.push(line), ..c }
}

pub open spec fn emit_byte(c: ChunkView, byte: u8, line: u32) -> ChunkView {
    ChunkView { code: c.code.push(byte), lines: c.lines.push(line), ..c }
}

/// What a literal keyword emits.
pub open spec fn literal_emit(c: ChunkView, t: TokenType, line: u32) -> ChunkView {
    match t {
        TokenType::Nil => emit(c, OpCode::Nil, line),
        TokenType::True => emit(c, OpCode::True, line),
        TokenType::False => emit(c, OpCode::False, line),
        _ => c,
    }
}

/// What a unary operator emits after its operand.
pub open spec fn unary_emit(c: ChunkView, t: TokenType, line: u32) -> ChunkView {
    match t {
        TokenType::Bang => emit(c, OpCode::Not, line),
        TokenType::Minus => emit(c, OpCode::Negate, line),
        _ => c,
    }
}

/// What a binary operator emits after its operands. The operators that
/// have no instruction of their own are the negation of one that has.
pub open spec fn binary_emit(c: ChunkView, t: TokenType, line: u32) -> ChunkView {
    match t {
        TokenType::BangEqual => emit(emit(c, OpCode::Equal, line), OpCode::Not, line),
        TokenType::EqualEqual => emit(c, OpCode::Equal, line),
        TokenType::Greater => emit(c, OpCode::Greater, line),
        TokenType::GreaterEqual => emit(emit(c, OpCode::Less, line), OpCode::Not, line),
        TokenType::Less => emit(c, OpCode::Less, line),
        TokenType::LessEqual => emit(emit(c, OpCode::Greater, line), OpCode::Not, line),
        TokenType::Plus => emit(c, OpCode::Add, line),
        TokenType::Minus => emit(c, OpCode::Subtract, line),
        TokenType::Star => emit(c, OpCode::Multiply, line),
        TokenType::Slash => emit(c, OpCode::Divide, line),
        _ => c,
    }
}

/// Where compiling has got to: the position of the next token, the
/// chunk so far, and the diagnostic if it has failed.
pub struct Compiled {
    pub error: Option<Seq<char>>,
    pub pos: int,
    pub chunk: ChunkView,
}

pub open spec fn failed(message: Seq<char>, token: TokenView, pos: int, chunk: ChunkView) -> Compiled {
    Compiled { error: Some(error_at(token, message)), pos, chunk }
}

/// What a number emits: its text becomes a constant, and the
/// instruction refers to it. A chunk holds at most 256 constants.
pub open spec fn number(number: TokenView, pos: int, chunk: ChunkView) -> Compiled {
    if chunk.constants.len() >= 256 {
        failed("Too many constants in one chunk."@, number, pos, chunk)
    } else {
        Compiled {
            error: None,
            pos,
            chunk: emit_byte(
                emit(
                    ChunkView { constants: chunk.constants.push(number.lexeme), ..chunk },
                    OpCode::Constant,
                    line_of(number),
                ),
                chunk.constants.len() as u8,
                line_of(number),
            ),
        }
    }
}

/// An expression of operators that bind at least as tightly as
/// `precedence`, from position `pos` on.
pub open spec fn parse_precedence(
    tokens: Seq<TokenView>,
    pos: int,
    chunk: ChunkView,
    precedence: Precedence,
) -> Compiled
    decreases tokens.len() - pos, 1nat,
{
    if !(0 <= pos < tokens.len()) {
        Compiled { error: Some("Expect expression."@), pos, chunk }
    } else if tokens[pos].token_type == TokenType::Eof {
        failed("Expect expression."@, tokens[pos], pos, chunk)
    } else {
        let first = prefix(tokens, pos + 1, chunk, tokens[pos]);
        if first.error is Some || !(pos < first.pos < tokens.len()) {
            first
        } else {
            infix(tokens, first.pos, first.chunk, precedence)
        }
    }
}

/// What the token `operator`, which has just been read, does at the
/// start of an expression.
pub open spec fn prefix(tokens: Seq<TokenView>, pos: int, chunk: ChunkView, operator: TokenView) -> Compiled
    decreases tokens.len() - pos, 3nat,
{
    match rule_of(operator.token_type).prefix {
        Some(Handler::Number) => number(operator, pos, chunk),
        Some(Handler::Literal) => Compiled {
            error: None,
            pos,
            chunk: literal_emit(chunk, operator.token_type, line_of(operator)),
        },
        Some(Handler::Grouping) => {
            let inner = parse_precedence(tokens, pos, chunk, Precedence::Assignment);
            if inner.error is Some || !(0 <= inner.pos < tokens.len()) {
                inner
            } else if tokens[inner.pos].token_type == TokenType::RightParen {
                Compiled { pos: inner.pos + 1, ..inner }
            } else {
                failed("Expect ')' after expression."@, tokens[inner.pos], inner.pos, inner.chunk)
            }
        },
        Some(Handler::Unary) => {
            let operand = parse_precedence(tokens, pos, chunk, Precedence::Unary);
            if operand.error is Some || !(1 <= operand.pos) {
                operand
            } else {
                Compiled {
                    chunk: unary_emit(
                        operand.chunk,
                        operator.token_type,
                        line_of(tokens[operand.pos - 1]),
                    ),
                    ..operand
                }
            }
        },
        _ => failed("Expect expression."@, operator, pos, chunk),
    }
}

/// The operators that follow an operand, as long as they bind at least
/// as tightly as `precedence`, each with its right operand. A right
/// operand takes only operators that bind more tightly than its own,
/// so operators of one precedence group from the left.
pub open spec fn infix(tokens: Seq<TokenView>, pos: int, chunk: ChunkView, precedence: Precedence) -> Compiled
    decreases tokens.len() - pos, 2nat,
{
    if 0 <= pos < tokens.len() && tokens[pos].token_type != TokenType::Eof && rank(precedence)
        <= rank(rule_of(tokens[pos].token_type).precedence) {
        let operator = tokens[pos];
        match rule_of(operator.token_type).infix {
            Some(Handler::Binary) => {
                let right = parse_precedence(
                    tokens,
                    pos + 1,
                    chunk,
                    tighter(rule_of(operator.token_type).precedence),
                );
                if right.error is Some || !(pos < right.pos < tokens.len()) {
                    right
                } else {
                    infix(
                        tokens,
                        right.pos,
                        binary_emit(
                            right.chunk,
                            operator.token_type,
                            line_of(tokens[right.pos - 1]),
                        ),
                        precedence,
                    )
                }
            },
            _ => failed("Expect expression."@, operator, pos + 1, chunk),
        }
    } else {
        Compiled { error: None, pos, chunk }
    }
}

/// The chunk for the expression that the tokens spell, ending in the
/// instruction that returns its value.
pub open spec fn compiled(tokens: Seq<TokenView>) -> Compiled {
    let body = parse_precedence(
        tokens,
        0,
        ChunkView { code: Seq::empty(), constants: Seq::empty(), lines: Seq::empty() },
        Precedence::Assignment,
    );
    if body.error is Some || !(1 <= body.pos <= tokens.len()) {
        body
    } else {
        Compiled { chunk: emit(body.chunk, OpCode::Return, line_of(tokens[body.pos - 1])), ..body }
    }
}

} // verus!
