//! Expressions: assignment, the binary levels, unary operators and calls.

use vstd::prelude::*;
use vstd::string::StringExecFns;
use crate::expression::{Assign, Binary, Expression, Get, Logical, SetExpr, Unary, Variable};
use crate::grammar;
use crate::grammar::{Level, Parsed};
use crate::parser::{Parser, ParserError, expr_outcome, is_level_operator};
use crate::text::i32_to_string;
use crate::tokens::TokenType;

verus! {

impl Parser {
    pub fn expression(&mut self) -> (r: Result<Expression, ParserError>)
        requires
            old(self).wf(),
        ensures
            final(self).after(old(self), r is Ok),
            (Parsed { result: expr_outcome(r), cursor: final(self).cursor() })
                == grammar::expression(old(self).tokens_view(), old(self).cursor()),
        decreases old(self).remaining(), 20nat, 0nat,
    {
        self.assignment()
    }

    pub fn assignment(&mut self) -> (r: Result<Expression, ParserError>)
        requires
            old(self).wf(),
        ensures
            final(self).after(old(self), r is Ok),
            (Parsed { result: expr_outcome(r), cursor: final(self).cursor() })
                == grammar::assignment(old(self).tokens_view(), old(self).cursor()),
        decreases old(self).remaining(), 19nat, 0nat,
    {
        let expr = match self.or() {
            Ok(e) => e,
            Err(e) => {
                return Err(e);
            },
        };
        if self.check(&TokenType::Equal) {
            self.advance();
            let value = match self.assignment() {
                Ok(v) => v,
                Err(e) => {
                    return Err(e);
                },
            };
            match expr {
                Expression::Variable(var) => {
                    return Ok(
                        Expression::Assign(
                            Assign { id: self.next_id(), name: var.name, value: Box::new(value) },
                        ),
                    );
                },
                Expression::Get(get) => {
                    return Ok(
                        Expression::SetExpr(
                            SetExpr {
                                id: self.next_id(),
                                object: get.object,
                                name: get.name,
                                value: Box::new(value),
                            },
                        ),
                    );
                },
                _ => {
                    let mut message = String::from_str("[line ");
                    let line = i32_to_string(self.previous().line);
                    message.append(line.as_str());
                    message.append("] Error at '=': Invalid assignment target.");
                    return Err(ParserError { message });
                },
            }
        }
        Ok(expr)
    }

    pub fn or(&mut self) -> (r: Result<Expression, ParserError>)
        requires
            old(self).wf(),
        ensures
            final(self).after(old(self), r is Ok),
            (Parsed { result: expr_outcome(r), cursor: final(self).cursor() })
                == grammar::binary_level(old(self).tokens_view(), old(self).cursor(), Level::Or),
        decreases old(self).remaining(), 18nat, 3nat,
    {
        self.binary_level(Level::Or)
    }

    pub fn and(&mut self) -> (r: Result<Expression, ParserError>)
        requires
            old(self).wf(),
        ensures
            final(self).after(old(self), r is Ok),
            (Parsed { result: expr_outcome(r), cursor: final(self).cursor() })
                == grammar::binary_level(old(self).tokens_view(), old(self).cursor(), Level::And),
        decreases old(self).remaining(), 17nat, 3nat,
    {
        self.binary_level(Level::And)
    }

    pub fn equality(&mut self) -> (r: Result<Expression, ParserError>)
        requires
            old(self).wf(),
        ensures
            final(self).after(old(self), r is Ok),
            (Parsed { result: expr_outcome(r), cursor: final(self).cursor() })
                == grammar::binary_level(
                old(self).tokens_view(),
                old(self).cursor(),
                Level::Equality,
            ),
        decreases old(self).remaining(), 16nat, 3nat,
    {
        self.binary_level(Level::Equality)
    }

    pub fn comparison(&mut self) -> (r: Result<Expression, ParserError>)
        requires
            old(self).wf(),
        ensures
            final(self).after(old(self), r is Ok),
            (Parsed { result: expr_outcome(r), cursor: final(self).cursor() })
                == grammar::binary_level(
                old(self).tokens_view(),
                old(self).cursor(),
                Level::Comparison,
            ),
        decreases old(self).remaining(), 15nat, 3nat,
    {
        self.binary_level(Level::Comparison)
    }

    pub fn term(&mut self) -> (r: Result<Expression, ParserError>)
        requires
            old(self).wf(),
        ensures
            final(self).after(old(self), r is Ok),
            (Parsed { result: expr_outcome(r), cursor: final(self).cursor() })
                == grammar::binary_level(old(self).tokens_view(), old(self).cursor(), Level::Term),
        decreases old(self).remaining(), 14nat, 3nat,
    {
        self.binary_level(Level::Term)
    }

    pub fn factor(&mut self) -> (r: Result<Expression, ParserError>)
        requires
            old(self).wf(),
        ensures
            final(self).after(old(self), r is Ok),
            (Parsed { result: expr_outcome(r), cursor: final(self).cursor() })
                == grammar::binary_level(
                old(self).tokens_view(),
                old(self).cursor(),
                Level::Factor,
            ),
        decreases old(self).remaining(), 13nat, 3nat,
    {
        self.binary_level(Level::Factor)
    }

    /// What stands on both sides of an operator of `level`: the next
    /// tighter level.
    fn operand(&mut self, level: &Level) -> (r: Result<Expression, ParserError>)
        requires
            old(self).wf(),
        ensures
            final(self).after(old(self), r is Ok),
            (Parsed { result: expr_outcome(r), cursor: final(self).cursor() }) == grammar::operand(
                old(self).tokens_view(),
                old(self).cursor(),
                *level,
            ),
        decreases old(self).remaining(), grammar::level_rank(*level), 0nat,
    {
        match level {
            Level::Or => self.binary_level(Level::And),
            Level::And => self.binary_level(Level::Equality),
            Level::Equality => self.binary_level(Level::Comparison),
            Level::Comparison => self.binary_level(Level::Term),
            Level::Term => self.binary_level(Level::Factor),
            Level::Factor => self.unary(),
        }
    }

    /// One level of left-associative binary operators.
    fn binary_level(&mut self, level: Level) -> (r: Result<Expression, ParserError>)
        requires
            old(self).wf(),
        ensures
            final(self).after(old(self), r is Ok),
            (Parsed { result: expr_outcome(r), cursor: final(self).cursor() })
                == grammar::binary_level(old(self).tokens_view(), old(self).cursor(), level),
        decreases old(self).remaining(), grammar::level_rank(level), 2nat,
    {
        let mut expr = match self.operand(&level) {
            Ok(e) => e,
            Err(e) => {
                return Err(e);
            },
        };
        let ghost goal = grammar::binary_level(old(self).tokens_view(), old(self).cursor(), level);
        loop
            invariant
                self.after(old(self), true),
                old(self).wf(),
                goal == grammar::binary_level(old(self).tokens_view(), old(self).cursor(), level),
                goal == grammar::binary_rest(self.tokens_view(), self.cursor(), level, expr@),
            ensures
                self.after(old(self), true),
                goal == (Parsed { result: Ok(expr@), cursor: self.cursor() }),
            decreases self.remaining(),
        {
            if self.is_at_end() || !is_level_operator(&level, self.current_type()) {
                break ;
            }
            let operator = self.current_token();
            self.advance();
            let right = match self.operand(&level) {
                Ok(e) => e,
                Err(e) => {
                    return Err(e);
                },
            };
            let id = self.next_id();
            expr = match level {
                Level::Or | Level::And => Expression::Logical(
                    Logical { id, left: Box::new(expr), operator, right: Box::new(right) },
                ),
                _ => Expression::Binary(
                    Binary { id, left: Box::new(expr), operator, right: Box::new(right) },
                ),
            };
        }
        Ok(expr)
    }

    pub fn unary(&mut self) -> (r: Result<Expression, ParserError>)
        requires
            old(self).wf(),
        ensures
            final(self).after(old(self), r is Ok),
            (Parsed { result: expr_outcome(r), cursor: final(self).cursor() }) == grammar::unary(
                old(self).tokens_view(),
                old(self).cursor(),
            ),
        decreases old(self).remaining(), 12nat, 0nat,
    {
        if self.check(&TokenType::Bang) || self.check(&TokenType::Minus) {
            let operator = self.current_token();
            self.advance();
            let right = match self.unary() {
                Ok(e) => e,
                Err(e) => {
                    return Err(e);
                },
            };
            Ok(Expression::Unary(Unary { id: self.next_id(), operator, right: Box::new(right) }))
        } else {
            self.call()
        }
    }

    pub fn call(&mut self) -> (r: Result<Expression, ParserError>)
        requires
            old(self).wf(),
        ensures
            final(self).after(old(self), r is Ok),
            (Parsed { result: expr_outcome(r), cursor: final(self).cursor() }) == grammar::call(
                old(self).tokens_view(),
                old(self).cursor(),
            ),
        decreases old(self).remaining(), 11nat, 1nat,
    {
        let mut expr = match self.primary() {
            Ok(e) => e,
            Err(e) => {
                return Err(e);
            },
        };
        let ghost goal = grammar::call(old(self).tokens_view(), old(self).cursor());
        loop
            invariant
                self.after(old(self), true),
                old(self).wf(),
                goal == grammar::call(old(self).tokens_view(), old(self).cursor()),
                goal == grammar::call_rest(self.tokens_view(), self.cursor(), expr@),
            ensures
                self.after(old(self), true),
                goal == (Parsed { result: Ok(expr@), cursor: self.cursor() }),
            decreases self.remaining(),
        {
            if self.check(&TokenType::LeftParen) {
                self.advance();
                expr = match self.finish_call(expr) {
                    Ok(e) => e,
                    Err(e) => {
                        return Err(e);
                    },
                };
            } else if self.check(&TokenType::Dot) {
                self.advance();
                let name = match self.consume(
                    TokenType::Identifier,
                    "Expect property name after '.'.",
                ) {
                    Ok(t) => t,
                    Err(e) => {
                        return Err(e);
                    },
                };
                expr = Expression::Get(Get { id: self.next_id(), object: Box::new(expr), name });
            } else {
                break ;
            }
        }
        Ok(expr)
    }
}

} // verus!
