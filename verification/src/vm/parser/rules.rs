//! The rules at work: numbers, literals, groupings and operators.

use vstd::prelude::*;
use vstd::string::StringExecFns;
use crate::tokens::TokenType;
use crate::vm::chunk::OpCode;
use crate::vm::parser::{Parser, ParserError, at_most, outcome, tighter};
use crate::vm::pratt;
use crate::vm::pratt::{Compiled, Handler, Precedence};

verus! {

impl Parser {
    /// What this parser has come to, as the compiler's functions state it.
    pub open spec fn compiled(&self, r: Result<(), ParserError>) -> Compiled {
        Compiled { error: outcome(r), pos: self.position(), chunk: self.written() }
    }

    /// Compiles an expression.
    pub fn expression(&mut self) -> (r: Result<(), ParserError>)
        requires
            old(self).wf(),
        ensures
            final(self).wf(),
            final(self).tokens_view() == old(self).tokens_view(),
            old(self).position() <= final(self).position() < final(self).tokens_view().len(),
            r is Ok ==> old(self).position() < final(self).position(),
            final(self).compiled(r) == pratt::parse_precedence(
                old(self).tokens_view(),
                old(self).position(),
                old(self).written(),
                Precedence::Assignment,
            ),
        decreases old(self).remaining(), 2nat,
    {
        self.parse_precedence(Precedence::Assignment)
    }

    /// A number: the token read last.
    fn number(&mut self) -> (r: Result<(), ParserError>)
        requires
            old(self).wf(),
            old(self).position() >= 1,
        ensures
            final(self).wf(),
            final(self).tokens_view() == old(self).tokens_view(),
            final(self).position() == old(self).position(),
            final(self).compiled(r) == pratt::number(
                old(self).tokens_view()[old(self).position() - 1],
                old(self).position(),
                old(self).written(),
            ),
    {
        let value = self.previous().lexeme;
        self.emit_constant(value)
    }

    /// A literal keyword: the token read last.
    fn literal(&mut self)
        requires
            old(self).wf(),
            old(self).position() >= 1,
        ensures
            final(self).wf(),
            final(self).tokens_view() == old(self).tokens_view(),
            final(self).position() == old(self).position(),
            final(self).written() == pratt::literal_emit(
                old(self).written(),
                old(self).tokens_view()[old(self).position() - 1].token_type,
                pratt::line_of(old(self).tokens_view()[old(self).position() - 1]),
            ),
    {
        match self.previous_type() {
            TokenType::Nil => self.emit_opcode(OpCode::Nil),
            TokenType::True => self.emit_opcode(OpCode::True),
            TokenType::False => self.emit_opcode(OpCode::False),
            _ => {},
        }
    }

    /// A grouping, from after its opening parenthesis on.
    fn grouping(&mut self) -> (r: Result<(), ParserError>)
        requires
            old(self).wf(),
            old(self).position() >= 1,
            pratt::rule_of(old(self).tokens_view()[old(self).position() - 1].token_type).prefix
                == Some(Handler::Grouping),
        ensures
            final(self).wf(),
            final(self).tokens_view() == old(self).tokens_view(),
            old(self).position() <= final(self).position(),
            final(self).compiled(r) == pratt::prefix(
                old(self).tokens_view(),
                old(self).position(),
                old(self).written(),
                old(self).tokens_view()[old(self).position() - 1],
            ),
        decreases old(self).remaining(), 3nat,
    {
        match self.expression() {
            Ok(_) => {},
            Err(e) => {
                return Err(e);
            },
        }
        match self.consume(TokenType::RightParen, "Expect ')' after expression.") {
            Ok(_) => Ok(()),
            Err(e) => Err(e),
        }
    }

    /// A unary operator, which is the token read last, and its operand.
    fn unary(&mut self) -> (r: Result<(), ParserError>)
        requires
            old(self).wf(),
            old(self).position() >= 1,
            pratt::rule_of(old(self).tokens_view()[old(self).position() - 1].token_type).prefix
                == Some(Handler::Unary),
        ensures
            final(self).wf(),
            final(self).tokens_view() == old(self).tokens_view(),
            old(self).position() <= final(self).position(),
            final(self).compiled(r) == pratt::prefix(
                old(self).tokens_view(),
                old(self).position(),
                old(self).written(),
                old(self).tokens_view()[old(self).position() - 1],
            ),
        decreases old(self).remaining(), 3nat,
    {
        let operator = self.previous_type();
        match self.parse_precedence(Precedence::Unary) {
            Ok(_) => {},
            Err(e) => {
                return Err(e);
            },
        }
        match operator {
            TokenType::Bang => self.emit_opcode(OpCode::Not),
            TokenType::Minus => self.emit_opcode(OpCode::Negate),
            _ => {},
        }
        Ok(())
    }

    /// What follows a binary operator, which is the token read last:
    /// its right operand, which binds more tightly than the operator,
    /// and then its instructions.
    fn binary(&mut self) -> (r: Result<(), ParserError>)
        requires
            old(self).wf(),
            old(self).position() >= 1,
        ensures
            final(self).wf(),
            final(self).tokens_view() == old(self).tokens_view(),
            old(self).position() <= final(self).position(),
            r is Ok ==> old(self).position() < final(self).position(),
            ({
                let tokens = old(self).tokens_view();
                let operator = tokens[old(self).position() - 1];
                let right = pratt::parse_precedence(
                    tokens,
                    old(self).position(),
                    old(self).written(),
                    pratt::tighter(pratt::rule_of(operator.token_type).precedence),
                );
                final(self).compiled(r) == if right.error is Some {
                    right
                } else {
                    Compiled {
                        chunk: pratt::binary_emit(
                            right.chunk,
                            operator.token_type,
                            pratt::line_of(tokens[right.pos - 1]),
                        ),
                        ..right
                    }
                }
            }),
        decreases old(self).remaining(), 3nat,
    {
        let operator = self.previous_type();
        let precedence = tighter(self.get_rule(&operator).precedence);
        match self.parse_precedence(precedence) {
            Ok(_) => {},
            Err(e) => {
                return Err(e);
            },
        }
        match operator {
            TokenType::BangEqual => self.emit_opcodes_2(OpCode::Equal, OpCode::Not),
            TokenType::EqualEqual => self.emit_opcode(OpCode::Equal),
            TokenType::Greater => self.emit_opcode(OpCode::Greater),
            TokenType::GreaterEqual => self.emit_opcodes_2(OpCode::Less, OpCode::Not),
            TokenType::Less => self.emit_opcode(OpCode::Less),
            TokenType::LessEqual => self.emit_opcodes_2(OpCode::Greater, OpCode::Not),
            TokenType::Plus => self.emit_opcode(OpCode::Add),
            TokenType::Minus => self.emit_opcode(OpCode::Subtract),
            TokenType::Star => self.emit_opcode(OpCode::Multiply),
            TokenType::Slash => self.emit_opcode(OpCode::Divide),
            _ => {},
        }
        Ok(())
    }

    /// What the token read last does at the start of an expression.
    fn prefix(&mut self) -> (r: Result<(), ParserError>)
        requires
            old(self).wf(),
            old(self).position() >= 1,
        ensures
            final(self).wf(),
            final(self).tokens_view() == old(self).tokens_view(),
            old(self).position() <= final(self).position(),
            final(self).compiled(r) == pratt::prefix(
                old(self).tokens_view(),
                old(self).position(),
                old(self).written(),
                old(self).tokens_view()[old(self).position() - 1],
            ),
        decreases old(self).remaining(), 4nat,
    {
        let operator = self.previous_type();
        match self.get_rule(&operator).prefix {
            Some(Handler::Number) => self.number(),
            Some(Handler::Literal) => {
                self.literal();
                Ok(())
            },
            Some(Handler::Grouping) => self.grouping(),
            Some(Handler::Unary) => self.unary(),
            _ => Err(self.error_at_previous("Expect expression.")),
        }
    }

    /// An expression of operators that bind at least as tightly as
    /// `precedence`.
    fn parse_precedence(&mut self, precedence: Precedence) -> (r: Result<(), ParserError>)
        requires
            old(self).wf(),
        ensures
            final(self).wf(),
            final(self).tokens_view() == old(self).tokens_view(),
            old(self).position() <= final(self).position(),
            r is Ok ==> old(self).position() < final(self).position(),
            final(self).compiled(r) == pratt::parse_precedence(
                old(self).tokens_view(),
                old(self).position(),
                old(self).written(),
                precedence,
            ),
        decreases old(self).remaining(), 1nat,
    {
        if self.is_at_end() {
            return Err(self.error_at_current("Expect expression."));
        }
        self.advance();
        match self.prefix() {
            Ok(_) => {},
            Err(e) => {
                return Err(e);
            },
        }
        let ghost tokens = old(self).tokens_view();
        let ghost goal = pratt::parse_precedence(
            tokens,
            old(self).position(),
            old(self).written(),
            precedence,
        );
        let mut result: Result<(), ParserError> = Ok(());
        while result.is_ok() && !self.is_at_end() && at_most(
            precedence,
            self.get_rule(&self.current_type()).precedence,
        )
            invariant
                self.wf(),
                old(self).wf(),
                tokens == self.tokens_view(),
                tokens == old(self).tokens_view(),
                old(self).position() < self.position(),
                goal == if result is Ok {
                    pratt::infix(tokens, self.position(), self.written(), precedence)
                } else {
                    self.compiled(result)
                },
            decreases self.remaining() + if result is Ok { 1nat } else { 0nat },
        {
            self.advance();
            let operator = self.previous_type();
            result = match self.get_rule(&operator).infix {
                Some(Handler::Binary) => self.binary(),
                _ => Err(self.error_at_previous("Expect expression.")),
            };
        }
        result
    }

    /// The diagnostic for `message` at the next token.
    fn error_at_current(&self, message: &str) -> (r: ParserError)
        requires
            self.wf(),
        ensures
            r.message@ == crate::grammar::error_at(
                self.tokens_view()[self.position()],
                message@,
            ),
    {
        let at = self.index();
        self.error_at(at, message)
    }
}

} // verus!
