//! Blocks.

use vstd::prelude::*;
use vstd::string::StringExecFns;

use crate::grammar;
use crate::grammar::Parsed;
use crate::parser::{Parser, ParserError, stmt_outcome};
use crate::stmt::{BlockStmt, Stmt, lemma_block_view, lemma_stmts_view_push, stmts_view};
use crate::tokens::{TokenType, tokens_view};

verus! {

/// The text of a diagnostic, if there is one.
pub open spec fn text_view(s: Option<String>) -> Option<Seq<char>> {
    match s {
        Some(t) => Some(t@),
        None => None,
    }
}

impl Parser {
    /// A block, from after its opening brace on.
    pub fn block(&mut self) -> (r: Result<Stmt, ParserError>)
        requires
            old(self).wf(),
        ensures
            final(self).after(old(self), r is Ok),
            r is Ok ==> r->Ok_0 is Block,
            (Parsed { result: stmt_outcome(r), cursor: final(self).cursor() }) == grammar::block(
                old(self).tokens_view(),
                old(self).cursor(),
            ),
        decreases old(self).remaining(), 50nat, 0nat,
    {
        let mut last_error: Option<String> = None;
        let mut statements: Vec<Stmt> = Vec::new();
        let ghost tokens = old(self).tokens_view();
        let ghost goal = grammar::block(tokens, old(self).cursor());
        assert(stmts_view(statements@) =~= Seq::empty());
        while !self.is_at_end() && self.current_type() != TokenType::RightBrace
            invariant
                self.after(old(self), false),
                old(self).wf(),
                tokens == old(self).tokens_view(),
                goal == grammar::block_rest(
                    tokens,
                    self.cursor(),
                    stmts_view(statements@),
                    text_view(last_error),
                ),
            decreases self.remaining(),
        {
            let ghost before = statements@;
            match self.declaration() {
                Ok(stmt) => {
                    statements.push(stmt);
                    proof {
                        lemma_stmts_view_push(before, stmt);
                    }
                },
                Err(err) => {
                    last_error = Some(err.message);
                    self.synchronize();
                },
            }
        }
        match self.consume(TokenType::RightBrace, "Expect '}' after block.") {
            Ok(_) => {},
            Err(e) => {
                return Err(e);
            },
        }
        if let Some(message) = last_error {
            return Err(ParserError { message });
        }
        let block = BlockStmt { statements };
        proof {
            lemma_block_view(block);
        }
        Ok(Stmt::Block(block))
    }
}

} // verus!
