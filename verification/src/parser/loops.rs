//! `for` statements and what they stand for.

use vstd::prelude::*;
use vstd::string::StringExecFns;
use crate::expression::{Expression, ExprView, Literal};
use crate::grammar;
use crate::grammar::Parsed;
use crate::parser::{Parser, ParserError, stmt_outcome};
use crate::stmt::{
    BlockStmt, ExpressionStmt, Stmt, StmtView, WhileStmt, lemma_block_view, stmts_view,
};
use crate::tokens::{LiteralTypes, TokenType, tokens_view};

verus! {

pub open spec fn option_expr_view(e: Option<Expression>) -> Option<ExprView> {
    match e {
        Some(x) => Some(x@),
        None => None,
    }
}

pub open spec fn option_stmt_view(s: Option<Stmt>) -> Option<StmtView> {
    match s {
        Some(x) => Some(x@),
        None => None,
    }
}

/// The views of the three clauses of a `for` statement.
pub open spec fn clauses_view(
    initializer: Option<Stmt>,
    condition: Option<Expression>,
    increment: Option<Expression>,
) -> grammar::ForClauses {
    grammar::ForClauses {
        initializer: option_stmt_view(initializer),
        condition: option_expr_view(condition),
        increment: option_expr_view(increment),
    }
}

/// Builds the loop that a `for` statement stands for.
fn for_loop(
    initializer: Option<Stmt>,
    condition: Expression,
    increment: Option<Expression>,
    body: Stmt,
) -> (r: Stmt)
    ensures
        r@ == grammar::for_loop(
            option_stmt_view(initializer),
            condition@,
            option_expr_view(increment),
            body@,
        ),
{
    let mut body = body;
    if let Some(increment) = increment {
        let mut statements: Vec<Stmt> = Vec::new();
        let step = Stmt::Expression(ExpressionStmt { expression: Box::new(increment) });
        let ghost first = body;
        statements.push(body);
        statements.push(step);
        let block = BlockStmt { statements };
        proof {
            lemma_block_view(block);
            assert(stmts_view(block.statements@) =~= seq![first@, step@]);
        }
        body = Stmt::Block(block);
    }
    let looped = Stmt::While(WhileStmt { condition: Box::new(condition), body: Box::new(body) });
    if let Some(initializer) = initializer {
        let mut statements: Vec<Stmt> = Vec::new();
        let ghost first = initializer;
        statements.push(initializer);
        statements.push(looped);
        let block = BlockStmt { statements };
        proof {
            lemma_block_view(block);
            assert(stmts_view(block.statements@) =~= seq![first@, looped@]);
        }
        Stmt::Block(block)
    } else {
        looped
    }
}

impl Parser {
    /// The first clause of a `for`.
    pub(crate) fn for_initializer(&mut self) -> (r: Result<Option<Stmt>, ParserError>)
        requires
            old(self).wf(),
        ensures
            final(self).after(old(self), r is Ok),
            (Parsed {
                result: match r {
                    Ok(Some(s)) => Ok(Some(s@)),
                    Ok(None) => Ok(None),
                    Err(e) => Err(e.message@),
                },
                cursor: final(self).cursor(),
            }) == grammar::for_initializer(old(self).tokens_view(), old(self).cursor()),
    {
        proof {
            reveal(grammar::for_initializer);
        }
        if self.check(&TokenType::Var) {
            self.advance();
            match self.var_declaration() {
                Ok(s) => Ok(Some(s)),
                Err(e) => Err(e),
            }
        } else if self.check(&TokenType::Semicolon) {
            self.advance();
            Ok(None)
        } else {
            match self.expression_statement() {
                Ok(s) => Ok(Some(s)),
                Err(e) => Err(e),
            }
        }
    }

    /// An expression, unless the next token is of kind `stop`.
    pub(crate) fn optional_expression(&mut self, stop: TokenType) -> (r: Result<
        Option<Expression>,
        ParserError,
    >)
        requires
            old(self).wf(),
        ensures
            final(self).after(old(self), false),
            (Parsed {
                result: match r {
                    Ok(Some(e)) => Ok(Some(e@)),
                    Ok(None) => Ok(None),
                    Err(e) => Err(e.message@),
                },
                cursor: final(self).cursor(),
            }) == grammar::optional_expression(old(self).tokens_view(), old(self).cursor(), stop),
    {
        proof {
            reveal(grammar::optional_expression);
        }
        if !self.check(&stop) {
            match self.expression() {
                Ok(e) => Ok(Some(e)),
                Err(e) => Err(e),
            }
        } else {
            Ok(None)
        }
    }

    /// The clauses of a `for` statement, from its opening parenthesis to
    /// its closing one.
    fn for_clauses(&mut self) -> (r: Result<
        (Option<Stmt>, Option<Expression>, Option<Expression>),
        ParserError,
    >)
        requires
            old(self).wf(),
        ensures
            final(self).after(old(self), r is Ok),
            r is Ok ==> final(self).cursor().next_id - old(self).cursor().next_id
                < final(self).cursor().pos - old(self).cursor().pos,
            (Parsed {
                result: match r {
                    Ok(c) => Ok(clauses_view(c.0, c.1, c.2)),
                    Err(e) => Err(e.message@),
                },
                cursor: final(self).cursor(),
            }) == grammar::for_clauses(old(self).tokens_view(), old(self).cursor()),
    {
        proof {
            reveal(grammar::for_clauses);
        }
        match self.consume(TokenType::LeftParen, "Expect '(' after 'for'.") {
            Ok(_) => {},
            Err(e) => {
                return Err(e);
            },
        }
        let initializer = match self.for_initializer() {
            Ok(i) => i,
            Err(e) => {
                return Err(e);
            },
        };
        let condition = match self.optional_expression(TokenType::Semicolon) {
            Ok(c) => c,
            Err(e) => {
                return Err(e);
            },
        };
        match self.for_increment() {
            Ok(increment) => Ok((initializer, condition, increment)),
            Err(e) => Err(e),
        }
    }

    /// The end of the clauses of a `for` statement, from the semicolon
    /// after the condition on.
    fn for_increment(&mut self) -> (r: Result<Option<Expression>, ParserError>)
        requires
            old(self).wf(),
        ensures
            final(self).after(old(self), r is Ok),
            forall|initializer: Option<StmtView>, condition: Option<ExprView>|
                (Parsed {
                    result: match r {
                        Ok(i) => Ok(
                            grammar::ForClauses {
                                initializer,
                                condition,
                                increment: option_expr_view(i),
                            },
                        ),
                        Err(e) => Err(e.message@),
                    },
                    cursor: final(self).cursor(),
                }) == #[trigger] grammar::for_increment(
                    old(self).tokens_view(),
                    old(self).cursor(),
                    initializer,
                    condition,
                ),
    {
        proof {
            reveal(grammar::for_increment);
        }
        match self.consume(TokenType::Semicolon, "Expect ';' after loop condition.") {
            Ok(_) => {},
            Err(e) => {
                return Err(e);
            },
        }
        let increment = match self.optional_expression(TokenType::RightParen) {
            Ok(c) => c,
            Err(e) => {
                return Err(e);
            },
        };
        match self.consume(TokenType::RightParen, "Expect ')' after for clauses.") {
            Ok(_) => {},
            Err(e) => {
                return Err(e);
            },
        }
        Ok(increment)
    }

    /// A `for` statement, from its opening parenthesis on. The result is
    /// the loop it stands for, built from `while` and blocks.
    pub fn for_statement(&mut self) -> (r: Result<Stmt, ParserError>)
        requires
            old(self).wf(),
        ensures
            final(self).after(old(self), r is Ok),
            (Parsed { result: stmt_outcome(r), cursor: final(self).cursor() })
                == grammar::for_statement(old(self).tokens_view(), old(self).cursor()),
        decreases old(self).remaining(), 30nat, 0nat,
    {
        let clauses = match self.for_clauses() {
            Ok(c) => c,
            Err(e) => {
                return Err(e);
            },
        };
        let initializer = clauses.0;
        let condition = clauses.1;
        let increment = clauses.2;
        let body = match self.statement() {
            Ok(s) => s,
            Err(e) => {
                return Err(e);
            },
        };
        let condition = match condition {
            Some(c) => c,
            None => Expression::Literal(
                Literal { id: self.next_id(), value: LiteralTypes::Bool(true) },
            ),
        };
        Ok(for_loop(initializer, condition, increment, body))
    }
}

} // verus!
