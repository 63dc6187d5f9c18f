//! Declarations and statements.

use vstd::prelude::*;
use vstd::string::StringExecFns;
use crate::expression::{Expression, Variable};
use crate::grammar;
use crate::grammar::Parsed;
use crate::parser::{Parser, ParserError, stmt_outcome};
use crate::stmt::{
    ClassStmt, ExpressionStmt, FunctionStmt, IfStmt, PrintStmt, ReturnStmt, Stmt, VarStmt,
    WhileStmt, lemma_block_view, lemma_class_view, lemma_function_view, lemma_functions_view_push,
    lemma_tokens_view_push, functions_view,
};
use crate::tokens::{Token, TokenType, TokenView, tokens_view};

verus! {

impl Parser {
    pub fn declaration(&mut self) -> (r: Result<Stmt, ParserError>)
        requires
            old(self).wf(),
        ensures
            final(self).after(old(self), r is Ok),
            (Parsed { result: stmt_outcome(r), cursor: final(self).cursor() })
                == grammar::declaration(old(self).tokens_view(), old(self).cursor()),
        decreases old(self).remaining(), 40nat, 0nat,
    {
        if self.check(&TokenType::Class) {
            self.advance();
            self.class_declaration()
        } else if self.check(&TokenType::Fun) {
            self.advance();
            self.fun_declaration(String::from_str("function"))
        } else if self.check(&TokenType::Var) {
            self.advance();
            self.var_declaration()
        } else {
            self.statement()
        }
    }

    /// A class declaration, from the class name on.
    pub fn class_declaration(&mut self) -> (r: Result<Stmt, ParserError>)
        requires
            old(self).wf(),
        ensures
            final(self).after(old(self), r is Ok),
            (Parsed { result: stmt_outcome(r), cursor: final(self).cursor() })
                == grammar::class_declaration(old(self).tokens_view(), old(self).cursor()),
        decreases old(self).remaining(), 38nat, 0nat,
    {
        proof {
            reveal(grammar::superclass);
        }
        let name = match self.consume(TokenType::Identifier, "Expect class name.") {
            Ok(t) => t,
            Err(e) => {
                return Err(e);
            },
        };
        let superclass = if self.check(&TokenType::Less) {
            self.advance();
            let parent = match self.consume(TokenType::Identifier, "Expect superclass name.") {
                Ok(t) => t,
                Err(e) => {
                    return Err(e);
                },
            };
            Some(Box::new(Variable { id: self.next_id(), name: parent }))
        } else {
            None
        };
        match self.consume(TokenType::LeftBrace, "Expect '{' before class body.") {
            Ok(_) => {},
            Err(e) => {
                return Err(e);
            },
        }
        let methods = match self.methods() {
            Ok(m) => m,
            Err(e) => {
                return Err(e);
            },
        };
        match self.consume(TokenType::RightBrace, "Expect '}' after class body.") {
            Ok(_) => {},
            Err(e) => {
                return Err(e);
            },
        }
        let class = ClassStmt { name, superclass, methods };
        proof {
            lemma_class_view(class);
        }
        Ok(Stmt::Class(class))
    }

    /// The methods of a class body, up to its closing brace.
    pub(crate) fn methods(&mut self) -> (r: Result<Vec<FunctionStmt>, ParserError>)
        requires
            old(self).wf(),
        ensures
            final(self).after(old(self), false),
            (Parsed {
                result: match r {
                    Ok(v) => Ok(functions_view(v@)),
                    Err(e) => Err(e.message@),
                },
                cursor: final(self).cursor(),
            }) == grammar::methods(old(self).tokens_view(), old(self).cursor(), Seq::empty()),
        decreases old(self).remaining(), 37nat, 1nat,
    {
        let mut methods: Vec<FunctionStmt> = Vec::new();
        let ghost tokens = old(self).tokens_view();
        let ghost goal = grammar::methods(tokens, old(self).cursor(), Seq::empty());
        assert(functions_view(methods@) =~= Seq::empty());
        while !self.check(&TokenType::RightBrace) && !self.is_at_end()
            invariant
                self.after(old(self), false),
                old(self).wf(),
                tokens == old(self).tokens_view(),
                goal == grammar::methods(tokens, old(self).cursor(), Seq::empty()),
                goal == grammar::methods(tokens, self.cursor(), functions_view(methods@)),
            decreases self.remaining(),
        {
            let ghost before = methods@;
            let method = match self.function(String::from_str("method")) {
                Ok(m) => m,
                Err(e) => {
                    return Err(e);
                },
            };
            methods.push(method);
            proof {
                lemma_functions_view_push(before, method);
            }
        }
        Ok(methods)
    }

    /// A function declaration, from the function name on. `kind` names
    /// what is declared in the diagnostics.
    pub fn fun_declaration(&mut self, kind: String) -> (r: Result<Stmt, ParserError>)
        requires
            old(self).wf(),
        ensures
            final(self).after(old(self), r is Ok),
            (Parsed { result: stmt_outcome(r), cursor: final(self).cursor() })
                == grammar::fun_declaration(old(self).tokens_view(), old(self).cursor(), kind@),
        decreases old(self).remaining(), 36nat, 1nat,
    {
        match self.function(kind) {
            Ok(f) => Ok(Stmt::Function(f)),
            Err(e) => Err(e),
        }
    }

    /// A function or method, from its name on.
    pub(crate) fn function(&mut self, kind: String) -> (r: Result<FunctionStmt, ParserError>)
        requires
            old(self).wf(),
        ensures
            final(self).after(old(self), r is Ok),
            (Parsed {
                result: match r {
                    Ok(f) => Ok(f@),
                    Err(e) => Err(e.message@),
                },
                cursor: final(self).cursor(),
            }) == grammar::function(old(self).tokens_view(), old(self).cursor(), kind@),
        decreases old(self).remaining(), 36nat, 0nat,
    {
        let mut expect_name = String::from_str("Expect ");
        expect_name.append(kind.as_str());
        expect_name.append(" name.");
        let name = match self.consume_msg(TokenType::Identifier, expect_name) {
            Ok(t) => t,
            Err(e) => {
                return Err(e);
            },
        };
        let mut expect_paren = String::from_str("Expect '(' after ");
        expect_paren.append(kind.as_str());
        expect_paren.append(" name.");
        match self.consume_msg(TokenType::LeftParen, expect_paren) {
            Ok(_) => {},
            Err(e) => {
                return Err(e);
            },
        }
        let params = if self.check(&TokenType::RightParen) {
            let none: Vec<Token> = Vec::new();
            assert(tokens_view(none@) =~= Seq::<TokenView>::empty());
            none
        } else {
            match self.parameters() {
                Ok(p) => p,
                Err(e) => {
                    return Err(e);
                },
            }
        };
        match self.consume(TokenType::RightParen, "Expect ')' after parameters.") {
            Ok(_) => {},
            Err(e) => {
                return Err(e);
            },
        }
        match self.consume(TokenType::LeftBrace, "Expect '{' before function body.") {
            Ok(_) => {},
            Err(e) => {
                return Err(e);
            },
        }
        let body = match self.block() {
            Ok(Stmt::Block(block)) => block,
            Ok(_) => {
                return Err(
                    ParserError {
                        message: String::from_str("Expected block after function declaration."),
                    },
                );
            },
            Err(e) => {
                return Err(e);
            },
        };
        let function = FunctionStmt { name, params, body: body.statements };
        proof {
            lemma_block_view(body);
            lemma_function_view(function);
        }
        Ok(function)
    }

    /// One or more parameter names, separated by commas; at most 255.
    pub(crate) fn parameters(&mut self) -> (r: Result<Vec<Token>, ParserError>)
        requires
            old(self).wf(),
        ensures
            final(self).after(old(self), r is Ok),
            final(self).cursor().next_id == old(self).cursor().next_id,
            (Parsed {
                result: match r {
                    Ok(v) => Ok(tokens_view(v@)),
                    Err(e) => Err(e.message@),
                },
                cursor: final(self).cursor(),
            }) == grammar::parameters(old(self).tokens_view(), old(self).cursor(), Seq::empty()),
    {
        let mut params: Vec<Token> = Vec::new();
        let ghost tokens = old(self).tokens_view();
        let ghost goal = grammar::parameters(tokens, old(self).cursor(), Seq::empty());
        assert(tokens_view(params@) =~= Seq::empty());
        loop
            invariant_except_break
                goal == grammar::parameters(tokens, self.cursor(), tokens_view(params@)),
            invariant
                self.after(old(self), false),
                self.cursor().next_id == old(self).cursor().next_id,
                old(self).wf(),
                tokens == old(self).tokens_view(),
                goal == grammar::parameters(tokens, old(self).cursor(), Seq::empty()),
            ensures
                self.after(old(self), true),
                goal == (Parsed { result: Ok(tokens_view(params@)), cursor: self.cursor() }),
            decreases self.remaining(),
        {
            if params.len() >= 255 {
                return Err(self.error_at("Can't have more than 255 parameters."));
            }
            let ghost before = params@;
            let name = match self.consume(TokenType::Identifier, "Expect parameter name.") {
                Ok(t) => t,
                Err(e) => {
                    return Err(e);
                },
            };
            params.push(name);
            proof {
                lemma_tokens_view_push(before, name);
            }
            if !self.check(&TokenType::Comma) {
                break ;
            }
            self.advance();
        }
        Ok(params)
    }

    /// A variable declaration, from the variable name on.
    pub fn var_declaration(&mut self) -> (r: Result<Stmt, ParserError>)
        requires
            old(self).wf(),
        ensures
            final(self).after(old(self), r is Ok),
            (Parsed { result: stmt_outcome(r), cursor: final(self).cursor() })
                == grammar::var_declaration(old(self).tokens_view(), old(self).cursor()),
    {
        proof {
            reveal(grammar::var_declaration);
        }
        let name = match self.consume(TokenType::Identifier, "Expect variable name.") {
            Ok(t) => t,
            Err(e) => {
                return Err(e);
            },
        };
        let initializer = if self.check(&TokenType::Equal) {
            self.advance();
            match self.expression() {
                Ok(e) => Some(Box::new(e)),
                Err(e) => {
                    return Err(e);
                },
            }
        } else {
            None
        };
        match self.consume(TokenType::Semicolon, "Expect ';' after variable declaration.") {
            Ok(_) => {},
            Err(e) => {
                return Err(e);
            },
        }
        Ok(Stmt::Var(VarStmt { name, initializer }))
    }

    pub fn statement(&mut self) -> (r: Result<Stmt, ParserError>)
        requires
            old(self).wf(),
        ensures
            final(self).after(old(self), r is Ok),
            (Parsed { result: stmt_outcome(r), cursor: final(self).cursor() })
                == grammar::statement(old(self).tokens_view(), old(self).cursor()),
        decreases old(self).remaining(), 35nat, 0nat,
    {
        if self.check(&TokenType::For) {
            self.advance();
            self.for_statement()
        } else if self.check(&TokenType::If) {
            self.advance();
            self.if_statement()
        } else if self.check(&TokenType::Print) {
            self.advance();
            self.print_statement()
        } else if self.check(&TokenType::Return) {
            self.advance();
            self.return_statement()
        } else if self.check(&TokenType::While) {
            self.advance();
            self.while_statement()
        } else if self.check(&TokenType::LeftBrace) {
            self.advance();
            self.block()
        } else {
            self.expression_statement()
        }
    }

    /// An `if` statement, from its opening parenthesis on. An `else`
    /// belongs to the nearest `if`.
    pub fn if_statement(&mut self) -> (r: Result<Stmt, ParserError>)
        requires
            old(self).wf(),
        ensures
            final(self).after(old(self), r is Ok),
            (Parsed { result: stmt_outcome(r), cursor: final(self).cursor() })
                == grammar::if_statement(old(self).tokens_view(), old(self).cursor()),
        decreases old(self).remaining(), 30nat, 0nat,
    {
        match self.consume(TokenType::LeftParen, "Expect '(' after 'if'.") {
            Ok(_) => {},
            Err(e) => {
                return Err(e);
            },
        }
        let condition = match self.expression() {
            Ok(c) => c,
            Err(e) => {
                return Err(e);
            },
        };
        match self.consume(TokenType::RightParen, "Expect ')' after condition.") {
            Ok(_) => {},
            Err(e) => {
                return Err(e);
            },
        }
        let then_branch = match self.statement() {
            Ok(s) => Box::new(s),
            Err(e) => {
                return Err(e);
            },
        };
        let else_branch = if self.check(&TokenType::Else) {
            self.advance();
            match self.statement() {
                Ok(s) => Some(Box::new(s)),
                Err(e) => {
                    return Err(e);
                },
            }
        } else {
            None
        };
        Ok(Stmt::If(IfStmt { condition: Box::new(condition), then_branch, else_branch }))
    }

    /// A `print` statement, from its expression on.
    pub fn print_statement(&mut self) -> (r: Result<Stmt, ParserError>)
        requires
            old(self).wf(),
        ensures
            final(self).after(old(self), r is Ok),
            (Parsed { result: stmt_outcome(r), cursor: final(self).cursor() })
                == grammar::print_statement(old(self).tokens_view(), old(self).cursor()),
    {
        proof {
            reveal(grammar::print_statement);
        }
        let value = match self.expression() {
            Ok(c) => c,
            Err(e) => {
                return Err(e);
            },
        };
        match self.consume(TokenType::Semicolon, "Expect ';' after value.") {
            Ok(_) => {},
            Err(e) => {
                return Err(e);
            },
        }
        Ok(Stmt::Print(PrintStmt { expression: Box::new(value) }))
    }

    /// A `return` statement, from after its keyword on.
    pub fn return_statement(&mut self) -> (r: Result<Stmt, ParserError>)
        requires
            old(self).wf(),
            old(self).cursor().pos >= 1,
        ensures
            final(self).after(old(self), r is Ok),
            (Parsed { result: stmt_outcome(r), cursor: final(self).cursor() })
                == grammar::return_statement(old(self).tokens_view(), old(self).cursor()),
    {
        proof {
            reveal(grammar::return_statement);
        }
        let keyword = self.previous();
        let value = match self.optional_expression(TokenType::Semicolon) {
            Ok(Some(e)) => Some(Box::new(e)),
            Ok(None) => None,
            Err(e) => {
                return Err(e);
            },
        };
        match self.consume(TokenType::Semicolon, "Expect ';' after return value.") {
            Ok(_) => {},
            Err(e) => {
                return Err(e);
            },
        }
        Ok(Stmt::Return(ReturnStmt { keyword, value }))
    }

    /// A `while` statement, from its opening parenthesis on.
    pub fn while_statement(&mut self) -> (r: Result<Stmt, ParserError>)
        requires
            old(self).wf(),
        ensures
            final(self).after(old(self), r is Ok),
            (Parsed { result: stmt_outcome(r), cursor: final(self).cursor() })
                == grammar::while_statement(old(self).tokens_view(), old(self).cursor()),
        decreases old(self).remaining(), 30nat, 0nat,
    {
        match self.consume(TokenType::LeftParen, "Expect '(' after 'while'.") {
            Ok(_) => {},
            Err(e) => {
                return Err(e);
            },
        }
        let condition = match self.expression() {
            Ok(c) => c,
            Err(e) => {
                return Err(e);
            },
        };
        match self.consume(TokenType::RightParen, "Expect ')' after condition.") {
            Ok(_) => {},
            Err(e) => {
                return Err(e);
            },
        }
        let body = match self.statement() {
            Ok(s) => Box::new(s),
            Err(e) => {
                return Err(e);
            },
        };
        Ok(Stmt::While(WhileStmt { condition: Box::new(condition), body }))
    }

    pub fn expression_statement(&mut self) -> (r: Result<Stmt, ParserError>)
        requires
            old(self).wf(),
        ensures
            final(self).after(old(self), r is Ok),
            (Parsed { result: stmt_outcome(r), cursor: final(self).cursor() })
                == grammar::expression_statement(old(self).tokens_view(), old(self).cursor()),
    {
        proof {
            reveal(grammar::expression_statement);
        }
        let expr = match self.expression() {
            Ok(c) => c,
            Err(e) => {
                return Err(e);
            },
        };
        match self.consume(TokenType::Semicolon, "Expect ';' after expression.") {
            Ok(_) => {},
            Err(e) => {
                return Err(e);
            },
        }
        Ok(Stmt::Expression(ExpressionStmt { expression: Box::new(expr) }))
    }
}

} // verus!
