//! The parser: recursive descent from tokens to statements.

use vstd::prelude::*;
use vstd::string::StringExecFns;
use crate::expression::{Expression, ExprView};
use crate::grammar;
use crate::grammar::{Cursor, Level, Parsed};
use crate::scanner::strings_view;
use crate::stmt::{Stmt, StmtView};
use crate::text::i32_to_string;
use crate::tokens::{Token, TokenType, TokenView, tokens_view};

mod blocks;
mod calls;
mod loops;
mod program;
mod statements;
mod expressions;
mod primary;

verus! {

/// A parser over one token sequence. The diagnostics of the declarations
/// that `parse` had to skip are collected in order.
pub struct Parser {
    tokens: Vec<Token>,
    current: usize,
    first_id: usize,
    current_id: usize,
    errors: Vec<String>,
}

#[derive(Debug)]
pub struct ParserError {
    pub message: String,
}

/// The outcome of parsing an expression, as the grammar states it.
pub open spec fn expr_outcome(r: Result<Expression, ParserError>) -> Result<ExprView, Seq<char>> {
    match r {
        Ok(e) => Ok(e@),
        Err(e) => Err(e.message@),
    }
}

/// The outcome of parsing a statement, as the grammar states it.
pub open spec fn stmt_outcome(r: Result<Stmt, ParserError>) -> Result<StmtView, Seq<char>> {
    match r {
        Ok(s) => Ok(s@),
        Err(e) => Err(e.message@),
    }
}

/// The outcome of reading one token, as the grammar states it.
pub open spec fn token_outcome(r: Result<Token, ParserError>) -> Result<TokenView, Seq<char>> {
    match r {
        Ok(t) => Ok(t@),
        Err(e) => Err(e.message@),
    }
}

pub(crate) fn is_level_operator(level: &Level, t: TokenType) -> (r: bool)
    ensures
        r == grammar::level_operator(*level, t),
{
    match level {
        Level::Or => t == TokenType::Or,
        Level::And => t == TokenType::And,
        Level::Equality => t == TokenType::BangEqual || t == TokenType::EqualEqual,
        Level::Comparison => t == TokenType::Greater || t == TokenType::GreaterEqual || t
            == TokenType::Less || t == TokenType::LessEqual,
        Level::Term => t == TokenType::Minus || t == TokenType::Plus,
        Level::Factor => t == TokenType::Slash || t == TokenType::Star,
    }
}

impl Parser {
    /// The tokens that this parser reads.
    pub closed spec fn tokens_view(&self) -> Seq<TokenView> {
        tokens_view(self.tokens@)
    }

    /// The position of the next token and the next free node identifier.
    pub closed spec fn cursor(&self) -> Cursor {
        Cursor { pos: self.current as int, next_id: self.current_id as int }
    }

    /// The identifier that this parser gave, or will give, to its first
    /// node.
    pub closed spec fn first(&self) -> int {
        self.first_id as int
    }

    /// The diagnostics collected so far.
    pub closed spec fn diagnostics(&self) -> Seq<Seq<char>> {
        strings_view(self.errors@)
    }

    /// The number of tokens not yet read.
    pub open spec fn remaining(&self) -> nat {
        (self.tokens_view().len() - self.cursor().pos) as nat
    }

    /// The parser's invariant: the tokens end in the end-of-input token,
    /// the position lies inside them, no more identifiers have been
    /// handed out than tokens were read, and there is an identifier
    /// left for every token.
    pub closed spec fn wf(&self) -> bool {
        &&& grammar::terminated(tokens_view(self.tokens@))
        &&& self.current < self.tokens@.len()
        &&& self.first_id <= self.current_id
        &&& self.current_id - self.first_id <= self.current
        &&& self.first_id + self.tokens@.len() <= usize::MAX
    }

    /// How a parser stands after a step that began at `before`: on the
    /// same tokens, not behind, strictly ahead where `ok` holds, and with
    /// no more new identifiers than tokens read.
    pub open spec fn after(&self, before: &Parser, ok: bool) -> bool {
        &&& self.wf()
        &&& self.tokens_view() == before.tokens_view()
        &&& self.first() == before.first()
        &&& self.diagnostics() == before.diagnostics()
        &&& before.cursor().pos <= self.cursor().pos
        &&& ok ==> before.cursor().pos < self.cursor().pos
        &&& self.cursor().next_id - before.cursor().next_id <= self.cursor().pos
            - before.cursor().pos
        &&& before.cursor().next_id <= self.cursor().next_id
    }

    /// A parser at the start of `tokens`, which must end in the
    /// end-of-input token. Its nodes are numbered from 0.
    pub fn new(tokens: Vec<Token>) -> (r: Self)
        requires
            grammar::terminated(tokens_view(tokens@)),
        ensures
            r.wf(),
            r.tokens_view() == tokens_view(tokens@),
            r.cursor() == (Cursor { pos: 0, next_id: 0 }),
            r.first() == 0,
            r.diagnostics() == Seq::<Seq<char>>::empty(),
    {
        let count = tokens.len();
        assert(tokens@.len() == count);
        let r = Parser { tokens, current: 0, first_id: 0, current_id: 0, errors: Vec::new() };
        assert(r.diagnostics() =~= Seq::<Seq<char>>::empty());
        r
    }

    /// A parser at the start of `tokens` whose nodes are numbered from
    /// `first_id`, for a program that joins one whose nodes have the
    /// identifiers below. There must be an identifier left for every
    /// token.
    pub fn continuing(tokens: Vec<Token>, first_id: usize) -> (r: Self)
        requires
            grammar::terminated(tokens_view(tokens@)),
            first_id + tokens@.len() <= usize::MAX,
        ensures
            r.wf(),
            r.tokens_view() == tokens_view(tokens@),
            r.cursor() == (Cursor { pos: 0, next_id: first_id as int }),
            r.first() == first_id,
            r.diagnostics() == Seq::<Seq<char>>::empty(),
    {
        let r = Parser { tokens, current: 0, first_id, current_id: first_id, errors: Vec::new() };
        assert(r.diagnostics() =~= Seq::<Seq<char>>::empty());
        r
    }

    /// The next free node identifier: every node made so far has a
    /// smaller one.
    pub fn next_free_id(&self) -> (r: usize)
        ensures
            r == self.cursor().next_id,
    {
        self.current_id
    }

    /// The diagnostics of the declarations that had to be skipped.
    pub fn errors(&self) -> (r: &Vec<String>)
        ensures
            strings_view(r@) == self.diagnostics(),
    {
        &self.errors
    }

    /// Reads the next token if it is of one of the kinds in `kinds`.
    pub fn match_token(&mut self, kinds: &[TokenType]) -> (r: bool)
        requires
            old(self).wf(),
        ensures
            final(self).after(old(self), r),
            r == (exists|i: int|
                0 <= i < kinds@.len() && grammar::check(
                    old(self).tokens_view(),
                    old(self).cursor(),
                    #[trigger] kinds@[i],
                )),
            final(self).cursor() == if r {
                grammar::advance(old(self).tokens_view(), old(self).cursor())
            } else {
                old(self).cursor()
            },
    {
        let mut i: usize = 0;
        while i < kinds.len()
            invariant
                i <= kinds@.len(),
                self.wf(),
                *self == *old(self),
                forall|j: int|
                    0 <= j < i ==> !grammar::check(
                        self.tokens_view(),
                        self.cursor(),
                        #[trigger] kinds@[j],
                    ),
            decreases kinds@.len() - i,
        {
            if self.check(&kinds[i]) {
                self.advance();
                return true;
            }
            i = i + 1;
        }
        false
    }

    /// Reads one token of kind `token`, or fails with `message` at the
    /// token found.
    pub fn consume(&mut self, token: TokenType, message: &str) -> (r: Result<Token, ParserError>)
        requires
            old(self).wf(),
        ensures
            final(self).after(old(self), r is Ok),
            final(self).cursor().next_id == old(self).cursor().next_id,
            (Parsed { result: token_outcome(r), cursor: final(self).cursor() }) == grammar::consume(
                old(self).tokens_view(),
                old(self).cursor(),
                token,
                message@,
            ),
    {
        self.consume_msg(token, String::from_str(message))
    }

    /// Reads one token of kind `token`, or fails with `message` at the
    /// token found.
    pub fn consume_msg(&mut self, token: TokenType, message: String) -> (r: Result<
        Token,
        ParserError,
    >)
        requires
            old(self).wf(),
        ensures
            final(self).after(old(self), r is Ok),
            final(self).cursor().next_id == old(self).cursor().next_id,
            (Parsed { result: token_outcome(r), cursor: final(self).cursor() }) == grammar::consume(
                old(self).tokens_view(),
                old(self).cursor(),
                token,
                message@,
            ),
    {
        if self.check(&token) {
            self.advance();
            Ok(self.previous())
        } else {
            Err(self.error_at(message.as_str()))
        }
    }

    /// The diagnostic for `message` at the next token.
    pub(crate) fn error_at(&self, message: &str) -> (r: ParserError)
        requires
            self.wf(),
        ensures
            r.message@ == grammar::error_at(self.tokens_view()[self.cursor().pos], message@),
    {
        let token = &self.tokens[self.current];
        let mut text = String::from_str("[line ");
        let line = i32_to_string(token.line);
        text.append(line.as_str());
        text.append("] Error at '");
        if token.token_type == TokenType::Eof {
            text.append("end");
        } else {
            text.append(token.lexeme.as_str());
        }
        text.append("': ");
        text.append(message);
        ParserError { message: text }
    }

    /// Moves one token on, unless the parser stands at the end of input.
    pub fn advance(&mut self)
        requires
            old(self).wf(),
        ensures
            final(self).after(old(self), false),
            final(self).cursor() == grammar::advance(old(self).tokens_view(), old(self).cursor()),
    {
        if !self.is_at_end() {
            assert(self.current < self.tokens.len());
            self.current = self.current + 1;
        }
    }

    /// The token read last.
    pub fn previous(&self) -> (r: Token)
        requires
            self.wf(),
            self.cursor().pos >= 1,
        ensures
            r@ == self.tokens_view()[self.cursor().pos - 1],
    {
        self.tokens[self.current - 1].clone()
    }

    /// The kind of the token read last.
    pub(crate) fn previous_type(&self) -> (r: TokenType)
        requires
            self.wf(),
            self.cursor().pos >= 1,
        ensures
            r == self.tokens_view()[self.cursor().pos - 1].token_type,
    {
        self.tokens[self.current - 1].token_type
    }

    /// Records the diagnostic of a declaration that is skipped.
    pub(crate) fn report(&mut self, message: String)
        requires
            old(self).wf(),
        ensures
            final(self).wf(),
            final(self).tokens_view() == old(self).tokens_view(),
            final(self).cursor() == old(self).cursor(),
            final(self).first() == old(self).first(),
            final(self).diagnostics() == old(self).diagnostics().push(message@),
    {
        self.errors.push(message);
        assert(strings_view(self.errors@) =~= strings_view(old(self).errors@).push(message@));
    }

    /// The kind of the next token.
    pub(crate) fn current_type(&self) -> (r: TokenType)
        requires
            self.wf(),
        ensures
            r == self.tokens_view()[self.cursor().pos].token_type,
    {
        self.tokens[self.current].token_type
    }

    /// The next token.
    pub(crate) fn current_token(&self) -> (r: Token)
        requires
            self.wf(),
        ensures
            r@ == self.tokens_view()[self.cursor().pos],
    {
        self.tokens[self.current].clone()
    }

    /// Whether the next token is of kind `token`.
    pub fn check(&self, token: &TokenType) -> (r: bool)
        requires
            self.wf(),
        ensures
            r == grammar::check(self.tokens_view(), self.cursor(), *token),
    {
        if self.is_at_end() {
            false
        } else {
            self.tokens[self.current].token_type == *token
        }
    }

    /// Whether the next token is the end-of-input token.
    pub fn is_at_end(&self) -> (r: bool)
        requires
            self.wf(),
        ensures
            r == grammar::at_end(self.tokens_view(), self.cursor()),
    {
        self.tokens[self.current].token_type == TokenType::Eof
    }

    /// Hands out the next node identifier. The caller has read a token
    /// for which no identifier was handed out yet.
    pub(crate) fn next_id(&mut self) -> (id: usize)
        requires
            old(self).wf(),
            old(self).cursor().next_id - old(self).first() < old(self).cursor().pos,
        ensures
            final(self).wf(),
            id == old(self).cursor().next_id,
            final(self).cursor() == grammar::bump(old(self).cursor()),
            final(self).first() == old(self).first(),
            final(self).tokens_view() == old(self).tokens_view(),
            final(self).diagnostics() == old(self).diagnostics(),
    {
        let id = self.current_id;
        self.current_id = self.current_id + 1;
        id
    }
}

} // verus!
