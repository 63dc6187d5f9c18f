//! Primary expressions.

use vstd::prelude::*;
use vstd::string::StringExecFns;
use crate::expression::{Expression, Grouping, Literal, Super, This, Variable};
use crate::grammar;
use crate::grammar::Parsed;
use crate::parser::{Parser, ParserError, expr_outcome};

use crate::tokens::{LiteralTypes, TokenType};

verus! {

impl Parser {
    pub fn primary(&mut self) -> (r: Result<Expression, ParserError>)
        requires
            old(self).wf(),
        ensures
            final(self).after(old(self), r is Ok),
            (Parsed { result: expr_outcome(r), cursor: final(self).cursor() }) == grammar::primary(
                old(self).tokens_view(),
                old(self).cursor(),
            ),
        decreases old(self).remaining(), 10nat, 0nat,
    {
        if self.check(&TokenType::False) {
            self.advance();
            Ok(Expression::Literal(Literal { id: self.next_id(), value: LiteralTypes::Bool(false) }))
        } else if self.check(&TokenType::True) {
            self.advance();
            Ok(Expression::Literal(Literal { id: self.next_id(), value: LiteralTypes::Bool(true) }))
        } else if self.check(&TokenType::Nil) {
            self.advance();
            Ok(Expression::Literal(Literal { id: self.next_id(), value: LiteralTypes::Nil }))
        } else if self.check(&TokenType::Number) || self.check(&TokenType::String) {
            self.advance();
            let value = self.previous().literal;
            Ok(Expression::Literal(Literal { id: self.next_id(), value }))
        } else if self.check(&TokenType::LeftParen) {
            self.advance();
            let expr = match self.expression() {
                Ok(e) => e,
                Err(e) => {
                    return Err(e);
                },
            };
            match self.consume(TokenType::RightParen, "Expect ')' after expression.") {
                Ok(_) => {},
                Err(e) => {
                    return Err(e);
                },
            }
            Ok(Expression::Grouping(Grouping { id: self.next_id(), expression: Box::new(expr) }))
        } else if self.check(&TokenType::This) {
            self.advance();
            let keyword = self.previous();
            Ok(Expression::This(This { id: self.next_id(), keyword }))
        } else if self.check(&TokenType::Super) {
            self.advance();
            let keyword = self.previous();
            match self.consume(TokenType::Dot, "Expect '.' after 'super'.") {
                Ok(_) => {},
                Err(e) => {
                    return Err(e);
                },
            }
            let method = match self.consume(
                TokenType::Identifier,
                "Expect superclass method name.",
            ) {
                Ok(t) => t,
                Err(e) => {
                    return Err(e);
                },
            };
            Ok(Expression::Super(Super { id: self.next_id(), keyword, method }))
        } else if self.check(&TokenType::Identifier) {
            self.advance();
            let identifier = self.previous();
            let named = match &identifier.literal {
                LiteralTypes::String(s) => Some(s.as_str().unicode_len() == 0),
                _ => None,
            };
            match named {
                Some(true) => Err(ParserError { message: String::from_str("Empty identifier") }),
                Some(false) => Ok(
                    Expression::Variable(Variable { id: self.next_id(), name: identifier }),
                ),
                None => Err(ParserError { message: String::from_str("Expected identifier") }),
            }
        } else {
            Err(self.error_at("Expect expression."))
        }
    }
}

} // verus!
