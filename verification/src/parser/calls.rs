//! Calls: the argument list after an opening parenthesis.

use vstd::prelude::*;
use crate::expression::{
    Call, Expression, ExprView, exprs_view, lemma_call_view, lemma_exprs_view_push,
};
use crate::grammar;
use crate::grammar::Parsed;
use crate::parser::{Parser, ParserError, expr_outcome};
use crate::tokens::TokenType;

verus! {

/// The outcome of parsing a list of expressions, as the grammar states it.
pub open spec fn exprs_outcome(r: Result<Vec<Expression>, ParserError>) -> Result<
    Seq<ExprView>,
    Seq<char>,
> {
    match r {
        Ok(v) => Ok(exprs_view(v@)),
        Err(e) => Err(e.message@),
    }
}

impl Parser {
    /// The rest of a call whose opening parenthesis has been read.
    pub fn finish_call(&mut self, callee: Expression) -> (r: Result<Expression, ParserError>)
        requires
            old(self).wf(),
        ensures
            final(self).after(old(self), r is Ok),
            (Parsed { result: expr_outcome(r), cursor: final(self).cursor() })
                == grammar::finish_call(old(self).tokens_view(), old(self).cursor(), callee@),
        decreases old(self).remaining(), 31nat, 0nat,
    {
        let arguments = if self.check(&TokenType::RightParen) {
            let none: Vec<Expression> = Vec::new();
            assert(exprs_view(none@) =~= Seq::<ExprView>::empty());
            none
        } else {
            match self.arguments() {
                Ok(v) => v,
                Err(e) => {
                    return Err(e);
                },
            }
        };
        let paren = match self.consume(TokenType::RightParen, "Expect ')' after arguments.") {
            Ok(t) => t,
            Err(e) => {
                return Err(e);
            },
        };
        let call = Call { id: self.next_id(), callee: Box::new(callee), paren, arguments };
        proof {
            lemma_call_view(call);
        }
        Ok(Expression::Call(call))
    }

    /// One or more arguments, separated by commas; at most 255.
    fn arguments(&mut self) -> (r: Result<Vec<Expression>, ParserError>)
        requires
            old(self).wf(),
        ensures
            final(self).after(old(self), r is Ok),
            (Parsed { result: exprs_outcome(r), cursor: final(self).cursor() })
                == grammar::arguments(old(self).tokens_view(), old(self).cursor(), Seq::empty()),
        decreases old(self).remaining(), 30nat, 1nat,
    {
        let mut arguments: Vec<Expression> = Vec::new();
        let ghost tokens = old(self).tokens_view();
        let ghost goal = grammar::arguments(tokens, old(self).cursor(), Seq::empty());
        assert(exprs_view(arguments@) =~= Seq::<ExprView>::empty());
        loop
            invariant_except_break
                goal == grammar::arguments(tokens, self.cursor(), exprs_view(arguments@)),
            invariant
                self.after(old(self), false),
                old(self).wf(),
                tokens == old(self).tokens_view(),
                goal == grammar::arguments(tokens, old(self).cursor(), Seq::empty()),
            ensures
                self.after(old(self), true),
                goal == (Parsed { result: Ok(exprs_view(arguments@)), cursor: self.cursor() }),
            decreases self.remaining(),
        {
            if arguments.len() >= 255 {
                return Err(self.error_at("Can't have more than 255 arguments."));
            }
            let ghost old_args = arguments@;
            let e = match self.expression() {
                Ok(e) => e,
                Err(e) => {
                    return Err(e);
                },
            };
            arguments.push(e);
            proof {
                lemma_exprs_view_push(old_args, e);
            }
            if !self.check(&TokenType::Comma) {
                break ;
            }
            self.advance();
        }
        Ok(arguments)
    }
}

} // verus!
