//! The parser of the bytecode compiler: it reads tokens and writes the
//! chunk as it goes.

use vstd::prelude::*;
use vstd::string::StringExecFns;
use crate::grammar;
use crate::grammar::Cursor;
use crate::text::i32_to_string;
use crate::tokens::{Token, TokenType, TokenView, tokens_view};
use crate::vm::chunk::{Chunk, ChunkView, OpCode};
use crate::vm::pratt;
use crate::vm::pratt::{Compiled, Handler, ParseRule, Precedence};

mod rules;

verus! {

pub struct Parser {
    tokens: Vec<Token>,
    pub chunk: Chunk,
    current: usize,
    current_id: usize,
}

#[derive(Debug)]
pub struct ParserError {
    pub message: String,
}

/// The diagnostic of a result, if it is a failure.
pub open spec fn outcome(r: Result<(), ParserError>) -> Option<Seq<char>> {
    match r {
        Ok(_) => None,
        Err(e) => Some(e.message@),
    }
}

/// The outcome of reading one token.
pub open spec fn token_outcome(r: Result<Token, ParserError>) -> Result<TokenView, Seq<char>> {
    match r {
        Ok(t) => Ok(t@),
        Err(e) => Err(e.message@),
    }
}

impl Parser {
    /// The tokens that this parser reads.
    pub closed spec fn tokens_view(&self) -> Seq<TokenView> {
        tokens_view(self.tokens@)
    }

    /// The position of the next token.
    pub closed spec fn position(&self) -> int {
        self.current as int
    }

    /// The chunk written so far.
    pub closed spec fn written(&self) -> ChunkView {
        self.chunk@
    }

    /// The number of tokens not yet read.
    pub open spec fn remaining(&self) -> nat {
        (self.tokens_view().len() - self.position()) as nat
    }

    /// The position as a cursor of the grammar.
    pub open spec fn cursor(&self) -> Cursor {
        Cursor { pos: self.position(), next_id: 0 }
    }

    /// The invariant: the tokens end in the end-of-input token, the
    /// position lies inside them, and the chunk is well formed.
    pub closed spec fn wf(&self) -> bool {
        &&& grammar::terminated(tokens_view(self.tokens@))
        &&& self.current < self.tokens@.len()
        &&& self.chunk.wf()
    }

    /// A parser at the start of `tokens`, which must end in the
    /// end-of-input token, with an empty chunk.
    pub fn new(tokens: Vec<Token>) -> (r: Self)
        requires
            grammar::terminated(tokens_view(tokens@)),
        ensures
            r.wf(),
            r.tokens_view() == tokens_view(tokens@),
            r.position() == 0,
            r.written() == (ChunkView {
                code: Seq::empty(),
                constants: Seq::empty(),
                lines: Seq::empty(),
            }),
    {
        Parser { tokens, chunk: Chunk::new(), current: 0, current_id: 0 }
    }

    /// Hands over the chunk written.
    pub fn into_chunk(self) -> (r: Chunk)
        requires
            self.wf(),
        ensures
            r.wf(),
            r@ == self.written(),
    {
        self.chunk
    }

    /// The rule of a token kind.
    pub(crate) fn get_rule(&self, token_type: &TokenType) -> (r: ParseRule)
        ensures
            r == pratt::rule_of(*token_type),
    {
        match token_type {
            TokenType::Number => ParseRule {
                prefix: Some(Handler::Number),
                infix: None,
                precedence: Precedence::Lowest,
            },
            TokenType::Nil => ParseRule {
                prefix: Some(Handler::Literal),
                infix: None,
                precedence: Precedence::Lowest,
            },
            TokenType::True => ParseRule {
                prefix: Some(Handler::Literal),
                infix: None,
                precedence: Precedence::Lowest,
            },
            TokenType::False => ParseRule {
                prefix: Some(Handler::Literal),
                infix: None,
                precedence: Precedence::Lowest,
            },
            TokenType::LeftParen => ParseRule {
                prefix: Some(Handler::Grouping),
                infix: None,
                precedence: Precedence::Lowest,
            },
            TokenType::Minus => ParseRule {
                prefix: Some(Handler::Unary),
                infix: Some(Handler::Binary),
                precedence: Precedence::Term,
            },
            TokenType::Plus => ParseRule {
                prefix: None,
                infix: Some(Handler::Binary),
                precedence: Precedence::Term,
            },
            TokenType::Slash => ParseRule {
                prefix: None,
                infix: Some(Handler::Binary),
                precedence: Precedence::Factor,
            },
            TokenType::Star => ParseRule {
                prefix: None,
                infix: Some(Handler::Binary),
                precedence: Precedence::Factor,
            },
            TokenType::Bang => ParseRule {
                prefix: Some(Handler::Unary),
                infix: None,
                precedence: Precedence::Lowest,
            },
            TokenType::BangEqual => ParseRule {
                prefix: None,
                infix: Some(Handler::Binary),
                precedence: Precedence::Equality,
            },
            TokenType::EqualEqual => ParseRule {
                prefix: None,
                infix: Some(Handler::Binary),
                precedence: Precedence::Equality,
            },
            TokenType::Greater => ParseRule {
                prefix: None,
                infix: Some(Handler::Binary),
                precedence: Precedence::Comparison,
            },
            TokenType::GreaterEqual => ParseRule {
                prefix: None,
                infix: Some(Handler::Binary),
                precedence: Precedence::Comparison,
            },
            TokenType::Less => ParseRule {
                prefix: None,
                infix: Some(Handler::Binary),
                precedence: Precedence::Comparison,
            },
            TokenType::LessEqual => ParseRule {
                prefix: None,
                infix: Some(Handler::Binary),
                precedence: Precedence::Comparison,
            },
            _ => ParseRule { prefix: None, infix: None, precedence: Precedence::Lowest },
        }
    }

    /// The line of the token read last, as the chunk records it.
    pub(crate) fn previous_line(&self) -> (r: u32)
        requires
            self.wf(),
            self.position() >= 1,
        ensures
            r == pratt::line_of(self.tokens_view()[self.position() - 1]),
    {
        let line = self.tokens[self.current - 1].line;
        if line >= 0 {
            line as u32
        } else {
            0
        }
    }

    /// Appends the instruction that returns the value of the expression.
    pub fn emit_return(&mut self)
        requires
            old(self).wf(),
            old(self).position() >= 1,
        ensures
            final(self).wf(),
            final(self).tokens_view() == old(self).tokens_view(),
            final(self).position() == old(self).position(),
            final(self).written() == pratt::emit(
                old(self).written(),
                OpCode::Return,
                pratt::line_of(old(self).tokens_view()[old(self).position() - 1]),
            ),
    {
        self.emit_opcode(OpCode::Return);
    }

    /// Adds the text of the number read last to the constants and
    /// appends the instruction that loads it.
    pub(crate) fn emit_constant(&mut self, value: String) -> (r: Result<(), ParserError>)
        requires
            old(self).wf(),
            old(self).position() >= 1,
            value@ == old(self).tokens_view()[old(self).position() - 1].lexeme,
        ensures
            final(self).wf(),
            final(self).tokens_view() == old(self).tokens_view(),
            final(self).position() == old(self).position(),
            (Compiled {
                error: outcome(r),
                pos: final(self).position(),
                chunk: final(self).written(),
            }) == pratt::number(
                old(self).tokens_view()[old(self).position() - 1],
                old(self).position(),
                old(self).written(),
            ),
    {
        if self.chunk.constants.len() >= 256 {
            return Err(self.error_at_previous("Too many constants in one chunk."));
        }
        let constant_index = self.chunk.add_constant(value);
        self.emit_opcode(OpCode::Constant);
        let line = self.previous_line();
        self.chunk.write(constant_index as u8, line);
        Ok(())
    }

    /// Appends an instruction, on the line of the token read last.
    pub(crate) fn emit_opcode(&mut self, opcode: OpCode)
        requires
            old(self).wf(),
            old(self).position() >= 1,
        ensures
            final(self).wf(),
            final(self).tokens_view() == old(self).tokens_view(),
            final(self).position() == old(self).position(),
            final(self).written() == pratt::emit(
                old(self).written(),
                opcode,
                pratt::line_of(old(self).tokens_view()[old(self).position() - 1]),
            ),
    {
        let line = self.previous_line();
        self.chunk.write_op_code(opcode, line);
    }

    /// Appends two instructions, on the line of the token read last.
    pub(crate) fn emit_opcodes_2(&mut self, opcode: OpCode, opcode2: OpCode)
        requires
            old(self).wf(),
            old(self).position() >= 1,
        ensures
            final(self).wf(),
            final(self).tokens_view() == old(self).tokens_view(),
            final(self).position() == old(self).position(),
            final(self).written() == pratt::emit(
                pratt::emit(
                    old(self).written(),
                    opcode,
                    pratt::line_of(old(self).tokens_view()[old(self).position() - 1]),
                ),
                opcode2,
                pratt::line_of(old(self).tokens_view()[old(self).position() - 1]),
            ),
    {
        self.emit_opcode(opcode);
        self.emit_opcode(opcode2);
    }

    /// Reads the next token if it is of one of the kinds in `kinds`.
    pub fn match_token(&mut self, kinds: &[TokenType]) -> (r: bool)
        requires
            old(self).wf(),
        ensures
            final(self).wf(),
            final(self).tokens_view() == old(self).tokens_view(),
            final(self).written() == old(self).written(),
            r == (exists|i: int|
                0 <= i < kinds@.len() && grammar::check(
                    old(self).tokens_view(),
                    old(self).cursor(),
                    #[trigger] kinds@[i],
                )),
            final(self).cursor() == if r {
                grammar::advance(old(self).tokens_view(), old(self).cursor())
            } else {
                old(self).cursor()
            },
    {
        let mut i: usize = 0;
        while i < kinds.len()
            invariant
                i <= kinds@.len(),
                self.wf(),
                *self == *old(self),
                forall|j: int|
                    0 <= j < i ==> !grammar::check(
                        self.tokens_view(),
                        self.cursor(),
                        #[trigger] kinds@[j],
                    ),
            decreases kinds@.len() - i,
        {
            if self.check(&kinds[i]) {
                self.advance();
                return true;
            }
            i = i + 1;
        }
        false
    }

    /// Reads one token of kind `token`, or fails with `message` at the
    /// token found.
    pub fn consume(&mut self, token: TokenType, message: &str) -> (r: Result<Token, ParserError>)
        requires
            old(self).wf(),
        ensures
            final(self).wf(),
            final(self).tokens_view() == old(self).tokens_view(),
            final(self).written() == old(self).written(),
            (grammar::Parsed { result: token_outcome(r), cursor: final(self).cursor() })
                == grammar::consume(old(self).tokens_view(), old(self).cursor(), token, message@),
    {
        self.consume_msg(token, String::from_str(message))
    }

    /// Reads one token of kind `token`, or fails with `message` at the
    /// token found.
    pub fn consume_msg(&mut self, token: TokenType, message: String) -> (r: Result<
        Token,
        ParserError,
    >)
        requires
            old(self).wf(),
        ensures
            final(self).wf(),
            final(self).tokens_view() == old(self).tokens_view(),
            final(self).written() == old(self).written(),
            (grammar::Parsed { result: token_outcome(r), cursor: final(self).cursor() })
                == grammar::consume(old(self).tokens_view(), old(self).cursor(), token, message@),
    {
        if self.check(&token) {
            self.advance();
            Ok(self.previous())
        } else {
            Err(self.error_at(self.current, message.as_str()))
        }
    }

    /// The diagnostic for `message` at the token at position `at`.
    pub(crate) fn error_at(&self, at: usize, message: &str) -> (r: ParserError)
        requires
            self.wf(),
            at < self.tokens_view().len(),
        ensures
            r.message@ == grammar::error_at(self.tokens_view()[at as int], message@),
    {
        let token = &self.tokens[at];
        let mut text = String::from_str("[line ");
        let line = i32_to_string(token.line);
        text.append(line.as_str());
        text.append("] Error at '");
        if token.token_type == TokenType::Eof {
            text.append("end");
        } else {
            text.append(token.lexeme.as_str());
        }
        text.append("': ");
        text.append(message);
        ParserError { message: text }
    }

    /// The diagnostic for `message` at the token read last.
    pub(crate) fn error_at_previous(&self, message: &str) -> (r: ParserError)
        requires
            self.wf(),
            self.position() >= 1,
        ensures
            r.message@ == grammar::error_at(
                self.tokens_view()[self.position() - 1],
                message@,
            ),
    {
        self.error_at(self.current - 1, message)
    }

    /// Moves one token on, unless the parser stands at the end of input.
    pub fn advance(&mut self)
        requires
            old(self).wf(),
        ensures
            final(self).wf(),
            final(self).tokens_view() == old(self).tokens_view(),
            final(self).written() == old(self).written(),
            final(self).cursor() == grammar::advance(old(self).tokens_view(), old(self).cursor()),
    {
        if !self.is_at_end() {
            assert(self.current < self.tokens.len());
            self.current = self.current + 1;
        }
    }

    /// The token read last.
    pub fn previous(&self) -> (r: Token)
        requires
            self.wf(),
            self.position() >= 1,
        ensures
            r@ == self.tokens_view()[self.position() - 1],
    {
        self.tokens[self.current - 1].clone()
    }

    /// The position of the next token.
    pub(crate) fn index(&self) -> (r: usize)
        requires
            self.wf(),
        ensures
            r == self.position(),
            r < self.tokens_view().len(),
    {
        self.current
    }

    /// The kind of the token read last.
    pub(crate) fn previous_type(&self) -> (r: TokenType)
        requires
            self.wf(),
            self.position() >= 1,
        ensures
            r == self.tokens_view()[self.position() - 1].token_type,
    {
        self.tokens[self.current - 1].token_type
    }

    /// The kind of the next token.
    pub(crate) fn current_type(&self) -> (r: TokenType)
        requires
            self.wf(),
        ensures
            r == self.tokens_view()[self.position()].token_type,
            0 <= self.position() < self.tokens_view().len(),
    {
        self.tokens[self.current].token_type
    }

    /// Whether the next token is of kind `token`.
    pub fn check(&self, token: &TokenType) -> (r: bool)
        requires
            self.wf(),
        ensures
            r == grammar::check(self.tokens_view(), self.cursor(), *token),
    {
        if self.is_at_end() {
            false
        } else {
            self.tokens[self.current].token_type == *token
        }
    }

    /// Whether the next token is the end-of-input token.
    pub fn is_at_end(&self) -> (r: bool)
        requires
            self.wf(),
        ensures
            r == grammar::at_end(self.tokens_view(), self.cursor()),
    {
        self.tokens[self.current].token_type == TokenType::Eof
    }
}

/// Whether a precedence binds at most as tightly as another.
pub(crate) fn at_most(a: Precedence, b: Precedence) -> (r: bool)
    ensures
        r == (pratt::rank(a) <= pratt::rank(b)),
{
    level(a) <= level(b)
}

/// The next tighter precedence.
pub(crate) fn tighter(p: Precedence) -> (r: Precedence)
    ensures
        r == pratt::tighter(p),
{
    match p {
        Precedence::Lowest => Precedence::Assignment,
        Precedence::Assignment => Precedence::Or,
        Precedence::Or => Precedence::And,
        Precedence::And => Precedence::Equality,
        Precedence::Equality => Precedence::Comparison,
        Precedence::Comparison => Precedence::Term,
        Precedence::Term => Precedence::Factor,
        Precedence::Factor => Precedence::Unary,
        Precedence::Unary => Precedence::Call,
        Precedence::Call => Precedence::Primary,
        Precedence::Primary => Precedence::Primary,
    }
}

fn level(p: Precedence) -> (r: u8)
    ensures
        r == pratt::rank(p),
{
    match p {
        Precedence::Lowest => 0,
        Precedence::Assignment => 1,
        Precedence::Or => 2,
        Precedence::And => 3,
        Precedence::Equality => 4,
        Precedence::Comparison => 5,
        Precedence::Term => 6,
        Precedence::Factor => 7,
        Precedence::Unary => 8,
        Precedence::Call => 9,
        Precedence::Primary => 10,
    }
}

} // verus!
