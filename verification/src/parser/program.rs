//! Whole programs, and recovery after a declaration that fails.

use vstd::prelude::*;
use vstd::string::StringExecFns;
use crate::grammar;
use crate::identifiers::statements::{lemma_program_ids_are_unique, stmts_distinct, stmts_ids};
use crate::identifiers::within;
use crate::parser::{Parser, ParserError};
use crate::stmt::{Stmt, lemma_stmts_view_push, stmts_view};
use crate::tokens::TokenType;

verus! {

impl Parser {
    /// Parses declarations up to the end of input. A declaration that
    /// fails is skipped by error recovery and its diagnostic recorded;
    /// the result is the statements if none failed. No two expression
    /// nodes of the result have the same identifier, and every
    /// identifier lies from the one that was free before up to the one
    /// that is free after.
    pub fn parse(&mut self) -> (r: Result<Vec<Stmt>, ParserError>)
        requires
            old(self).wf(),
        ensures
            final(self).wf(),
            final(self).tokens_view() == old(self).tokens_view(),
            ({
                let p = grammar::program(old(self).tokens_view(), old(self).cursor());
                &&& final(self).cursor() == p.cursor
                &&& final(self).diagnostics() == old(self).diagnostics() + p.errors
                &&& match r {
                    Ok(v) => p.errors.len() == 0 && stmts_view(v@) == p.statements,
                    Err(e) => p.errors.len() > 0 && e.message@ == "Parsing failed with errors."@,
                }
            }),
            r matches Ok(v) ==> stmts_distinct(stmts_view(v@), v@.len()),
            r matches Ok(v) ==> within(
                stmts_ids(stmts_view(v@), v@.len()),
                old(self).cursor().next_id,
                final(self).cursor().next_id,
            ),
            final(self).first() == old(self).first(),
    {
        let mut has_error = false;
        let mut statements: Vec<Stmt> = Vec::new();
        let ghost tokens = old(self).tokens_view();
        let ghost goal = grammar::program(tokens, old(self).cursor());
        let ghost errors: Seq<Seq<char>> = Seq::empty();
        assert(stmts_view(statements@) =~= Seq::empty());
        assert(old(self).diagnostics() + errors =~= old(self).diagnostics());
        while !self.is_at_end()
            invariant
                self.wf(),
                old(self).wf(),
                tokens == old(self).tokens_view(),
                tokens == self.tokens_view(),
                old(self).cursor().pos <= self.cursor().pos,
                self.first() == old(self).first(),
                self.diagnostics() == old(self).diagnostics() + errors,
                has_error == (errors.len() > 0),
                goal == grammar::program(tokens, old(self).cursor()),
                goal == grammar::program_rest(
                    tokens,
                    grammar::Program {
                        statements: stmts_view(statements@),
                        errors,
                        cursor: self.cursor(),
                    },
                ),
            decreases self.remaining(),
        {
            let ghost before = statements@;
            match self.declaration() {
                Ok(stmt) => {
                    statements.push(stmt);
                    proof {
                        lemma_stmts_view_push(before, stmt);
                    }
                },
                Err(err) => {
                    has_error = true;
                    proof {
                        assert((old(self).diagnostics() + errors).push(err.message@) =~= old(
                            self,
                        ).diagnostics() + errors.push(err.message@));
                        errors = errors.push(err.message@);
                    }
                    self.report(err.message);
                    self.synchronize();
                },
            }
        }
        if has_error {
            return Err(ParserError { message: String::from_str("Parsing failed with errors.") });
        }
        proof {
            lemma_program_ids_are_unique(tokens, old(self).cursor());
        }
        Ok(statements)
    }

    /// Skips to where parsing can resume after an error: past the next
    /// semicolon, or to the next token that can begin a statement.
    pub fn synchronize(&mut self)
        requires
            old(self).wf(),
        ensures
            final(self).after(old(self), false),
            final(self).cursor().next_id == old(self).cursor().next_id,
            !grammar::at_end(old(self).tokens_view(), old(self).cursor()) ==> old(
                self,
            ).cursor().pos < final(self).cursor().pos,
            final(self).cursor() == grammar::synchronize(old(self).tokens_view(), old(self).cursor()),
    {
        self.advance();
        while !self.is_at_end()
            invariant
                self.after(old(self), false),
                self.cursor().next_id == old(self).cursor().next_id,
                old(self).wf(),
                !grammar::at_end(old(self).tokens_view(), old(self).cursor()) ==> old(
                    self,
                ).cursor().pos < self.cursor().pos,
                grammar::at_end(self.tokens_view(), self.cursor()) || self.cursor().pos >= 1,
                grammar::synchronize_rest(self.tokens_view(), self.cursor())
                    == grammar::synchronize(old(self).tokens_view(), old(self).cursor()),
            decreases self.remaining(),
        {
            if self.previous_type() == TokenType::Semicolon {
                return ;
            }
            match self.current_type() {
                TokenType::Class
                | TokenType::Fun
                | TokenType::Var
                | TokenType::For
                | TokenType::If
                | TokenType::While
                | TokenType::Print
                | TokenType::Return => {
                    return ;
                },
                _ => self.advance(),
            }
        }
    }
}

} // verus!
