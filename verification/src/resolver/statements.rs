//! Resolving statements.

use vstd::prelude::*;
use vstd::string::StringExecFns;
use crate::expression::{Expression, Variable};
use crate::interpreter::Interpreter;
use crate::names::str_eq;
use crate::resolution;
use crate::resolution::{ClassType, FunctionType, Resolved};
use crate::resolver::{Resolver, ResolverError, outcome, records_only};
use crate::stmt::{BlockStmt, ClassStmt, FunctionStmt, Stmt};
use crate::tokens::Token;

verus! {

/// The diagnostics gathered so far, as the text of an error if there are any.
pub open spec fn gathered_text(failed: bool, message: String) -> Option<Seq<char>> {
    if failed {
        Some(message@)
    } else {
        None
    }
}

impl<'a> Resolver<'a> {
    /// Resolves a list of statements. A statement that is rejected does
    /// not stop the pass: the result gathers the diagnostics, one per
    /// line. Every scope opened is closed again.
    pub fn resolve_stmts(&mut self, interpreter: &mut Interpreter, statements: &'a Vec<Stmt>) -> (r:
        Result<(), ResolverError>)
        requires
            old(self).wf(),
        ensures
            final(self).wf(),
            records_only(*old(interpreter), *final(interpreter)),
            final(self).depth() == old(self).depth(),
            final(self).kinds() == old(self).kinds(),
            (Resolved { error: outcome(r), state: final(self).state(final(interpreter).locals@) })
                == resolution::resolve_stmts(
                statements@,
                0,
                old(self).state(old(interpreter).locals@),
                None,
            ),
            final(interpreter).locals@ == resolution::resolve_stmts(
                statements@,
                0,
                old(self).state(old(interpreter).locals@),
                None,
            ).state.locals,
        decreases statements, 1nat,
    {
        let mut failed = false;
        let mut message = String::new();
        let ghost goal = resolution::resolve_stmts(
            statements@,
            0,
            old(self).state(old(interpreter).locals@),
            None,
        );
        let mut i: usize = 0;
        while i < statements.len()
            invariant
                i <= statements@.len(),
                self.wf(),
                records_only(*old(interpreter), *interpreter),
                self.depth() == old(self).depth(),
                self.kinds() == old(self).kinds(),
                goal == resolution::resolve_stmts(
                    statements@,
                    i as int,
                    self.state(interpreter.locals@),
                    gathered_text(failed, message),
                ),
            decreases statements@.len() - i,
        {
            match self.resolve_stmt(interpreter, &statements[i]) {
                Ok(_) => {},
                Err(e) => {
                    if failed {
                        message.append("\n");
                        message.append(e.message.as_str());
                    } else {
                        message = e.message;
                        failed = true;
                    }
                },
            }
            i = i + 1;
        }
        if failed {
            return Err(ResolverError { message });
        }
        Ok(())
    }

    /// Resolves one statement. Every scope opened is closed again, also
    /// when the statement is rejected.
    pub fn resolve_stmt(&mut self, interpreter: &mut Interpreter, statement: &'a Stmt) -> (r:
        Result<(), ResolverError>)
        requires
            old(self).wf(),
        ensures
            final(self).wf(),
            records_only(*old(interpreter), *final(interpreter)),
            final(self).depth() == old(self).depth(),
            final(self).kinds() == old(self).kinds(),
            (Resolved { error: outcome(r), state: final(self).state(final(interpreter).locals@) })
                == resolution::resolve_stmt(*statement, old(self).state(old(interpreter).locals@)),
        decreases statement, 0nat,
    {
        match statement {
            Stmt::Expression(expr) => self.resolve_expr(interpreter, &expr.expression),
            Stmt::Print(expr) => self.resolve_expr(interpreter, &expr.expression),
            Stmt::Var(expr) => {
                match self.declare(&expr.name) {
                    Ok(_) => {},
                    Err(e) => {
                        return Err(e);
                    },
                }
                if let Some(init) = &expr.initializer {
                    match self.resolve_expr(interpreter, init) {
                        Ok(_) => {},
                        Err(e) => {
                            return Err(e);
                        },
                    }
                }
                self.define(&expr.name)
            },
            Stmt::Block(expr) => self.resolve_block(interpreter, expr),
            Stmt::If(expr) => {
                match self.resolve_expr(interpreter, &expr.condition) {
                    Ok(_) => {},
                    Err(e) => {
                        return Err(e);
                    },
                }
                match self.resolve_stmt(interpreter, &expr.then_branch) {
                    Ok(_) => {},
                    Err(e) => {
                        return Err(e);
                    },
                }
                if let Some(else_branch) = &expr.else_branch {
                    return self.resolve_stmt(interpreter, else_branch);
                }
                Ok(())
            },
            Stmt::While(expr) => {
                match self.resolve_expr(interpreter, &expr.condition) {
                    Ok(_) => {},
                    Err(e) => {
                        return Err(e);
                    },
                }
                self.resolve_stmt(interpreter, &expr.body)
            },
            Stmt::Return(expr) => {
                let function = self.function_type();
                if function == FunctionType::TopLevel {
                    return self.make_resolve_error(
                        &expr.keyword,
                        "Can't return from top-level code.",
                    );
                }
                if let Some(val) = &expr.value {
                    if function == FunctionType::Initializer {
                        return self.make_resolve_error(
                            &expr.keyword,
                            "Can't return a value from an initializer.",
                        );
                    }
                    return self.resolve_expr(interpreter, val);
                }
                Ok(())
            },
            Stmt::Function(expr) => {
                match self.declare_and_define(&expr.name) {
                    Ok(_) => {},
                    Err(e) => {
                        return Err(e);
                    },
                }
                self.resolve_function(interpreter, expr, FunctionType::Function)
            },
            Stmt::Class(stmt) => {
                let enclosing_class = self.class_type();
                self.set_class_type(ClassType::Class);
                let result = self.resolve_class(interpreter, stmt);
                self.set_class_type(enclosing_class);
                result
            },
        }
    }

    fn declare_and_define(&mut self, token: &'a Token) -> (r: Result<(), ResolverError>)
        requires
            old(self).wf(),
        ensures
            final(self).wf(),
            final(self).depth() == old(self).depth(),
            final(self).kinds() == old(self).kinds(),
            forall|locals: Map<usize, usize>|
                #![trigger final(self).state(locals)]
                #![trigger old(self).state(locals)]
                (Resolved { error: outcome(r), state: final(self).state(locals) })
                    == resolution::declare_and_define(old(self).state(locals), *token),
    {
        match self.declare(token) {
            Ok(_) => {},
            Err(e) => {
                return Err(e);
            },
        }
        self.define(token)
    }

    /// Resolves a class declaration inside the class: its name, its
    /// superclass, and its methods inside the scopes of `super` (if
    /// there is a superclass) and `this`.
    fn resolve_class(&mut self, interpreter: &mut Interpreter, stmt: &'a ClassStmt) -> (r: Result<
        (),
        ResolverError,
    >)
        requires
            old(self).wf(),
        ensures
            final(self).wf(),
            records_only(*old(interpreter), *final(interpreter)),
            final(self).depth() == old(self).depth(),
            final(self).kinds().0 == old(self).kinds().0,
            (Resolved { error: outcome(r), state: final(self).state(final(interpreter).locals@) })
                == resolution::resolve_class(*stmt, old(self).state(old(interpreter).locals@)),
        decreases stmt, 0nat,
    {
        match self.declare_and_define(&stmt.name) {
            Ok(_) => {},
            Err(e) => {
                return Err(e);
            },
        }
        match &stmt.superclass {
            Some(parent) => {
                if str_eq(stmt.name.lexeme.as_str(), parent.name.lexeme.as_str()) {
                    return self.make_resolve_error(
                        &parent.name,
                        "A class can't inherit from itself.",
                    );
                }
                self.set_class_type(ClassType::Subclass);
                let reference = Expression::Variable(
                    Variable { id: parent.id, name: parent.name.clone() },
                );
                match self.resolve_variable(interpreter, &reference, parent) {
                    Ok(_) => {},
                    Err(e) => {
                        return Err(e);
                    },
                }
                self.begin_scope_with("super");
                self.begin_scope_with("this");
                let result = self.resolve_methods(interpreter, &stmt.methods);
                self.end_scope();
                self.end_scope();
                result
            },
            None => {
                self.begin_scope_with("this");
                let result = self.resolve_methods(interpreter, &stmt.methods);
                self.end_scope();
                result
            },
        }
    }

    fn resolve_methods(&mut self, interpreter: &mut Interpreter, methods: &'a Vec<FunctionStmt>) -> (r:
        Result<(), ResolverError>)
        requires
            old(self).wf(),
        ensures
            final(self).wf(),
            records_only(*old(interpreter), *final(interpreter)),
            final(self).depth() == old(self).depth(),
            final(self).kinds() == old(self).kinds(),
            (Resolved { error: outcome(r), state: final(self).state(final(interpreter).locals@) })
                == resolution::resolve_methods(
                methods@,
                0,
                old(self).state(old(interpreter).locals@),
            ),
        decreases methods, 1nat,
    {
        let ghost goal = resolution::resolve_methods(
            methods@,
            0,
            old(self).state(old(interpreter).locals@),
        );
        let mut result: Result<(), ResolverError> = Ok(());
        let mut i: usize = 0;
        while i < methods.len() && result.is_ok()
            invariant
                i <= methods@.len(),
                self.wf(),
                records_only(*old(interpreter), *interpreter),
                self.depth() == old(self).depth(),
                self.kinds() == old(self).kinds(),
                goal == if result is Ok {
                    resolution::resolve_methods(methods@, i as int, self.state(interpreter.locals@))
                } else {
                    Resolved { error: outcome(result), state: self.state(interpreter.locals@) }
                },
            decreases methods@.len() - i + if result is Ok { 1nat } else { 0nat },
        {
            let method = &methods[i];
            let declaration = if str_eq(method.name.lexeme.as_str(), "init") {
                FunctionType::Initializer
            } else {
                FunctionType::Method
            };
            result = self.resolve_function(interpreter, method, declaration);
            if result.is_ok() {
                i = i + 1;
            }
        }
        result
    }

    fn resolve_block(&mut self, interpreter: &mut Interpreter, block: &'a BlockStmt) -> (r: Result<
        (),
        ResolverError,
    >)
        requires
            old(self).wf(),
        ensures
            final(self).wf(),
            records_only(*old(interpreter), *final(interpreter)),
            final(self).depth() == old(self).depth(),
            final(self).kinds() == old(self).kinds(),
            (Resolved { error: outcome(r), state: final(self).state(final(interpreter).locals@) })
                == resolution::resolve_stmt(
                Stmt::Block(*block),
                old(self).state(old(interpreter).locals@),
            ),
        decreases block, 2nat,
    {
        self.begin_scope();
        let result = self.resolve_stmts(interpreter, &block.statements);
        self.end_scope();
        result
    }

    /// Resolves a function of kind `function_type`: parameters and body
    /// in one new scope.
    fn resolve_function(
        &mut self,
        interpreter: &mut Interpreter,
        function: &'a FunctionStmt,
        function_type: FunctionType,
    ) -> (r: Result<(), ResolverError>)
        requires
            old(self).wf(),
        ensures
            final(self).wf(),
            records_only(*old(interpreter), *final(interpreter)),
            final(self).depth() == old(self).depth(),
            final(self).kinds() == old(self).kinds(),
            (Resolved { error: outcome(r), state: final(self).state(final(interpreter).locals@) })
                == resolution::resolve_function(
                *function,
                function_type,
                old(self).state(old(interpreter).locals@),
            ),
        decreases function, 2nat,
    {
        let enclosing_function = self.function_type();
        self.set_function_type(function_type);
        self.begin_scope();
        let result = match self.declare_parameters(&function.params) {
            Ok(_) => self.resolve_stmts(interpreter, &function.body),
            Err(e) => Err(e),
        };
        self.end_scope();
        self.set_function_type(enclosing_function);
        result
    }

    fn declare_parameters(&mut self, params: &'a Vec<Token>) -> (r: Result<(), ResolverError>)
        requires
            old(self).wf(),
        ensures
            final(self).wf(),
            final(self).depth() == old(self).depth(),
            final(self).kinds() == old(self).kinds(),
            forall|locals: Map<usize, usize>|
                #![trigger final(self).state(locals)]
                #![trigger old(self).state(locals)]
                (Resolved { error: outcome(r), state: final(self).state(locals) })
                    == resolution::declare_parameters(params@, 0, old(self).state(locals)),
    {
        let mut result: Result<(), ResolverError> = Ok(());
        let mut i: usize = 0;
        while i < params.len() && result.is_ok()
            invariant
                i <= params@.len(),
                self.wf(),
                self.depth() == old(self).depth(),
                self.kinds() == old(self).kinds(),
                forall|locals: Map<usize, usize>|
                    #![trigger self.state(locals)]
                    #![trigger old(self).state(locals)]
                    resolution::declare_parameters(params@, 0, old(self).state(locals))
                        == if result is Ok {
                        resolution::declare_parameters(params@, i as int, self.state(locals))
                    } else {
                        Resolved { error: outcome(result), state: self.state(locals) }
                    },
            decreases params@.len() - i + if result is Ok { 1nat } else { 0nat },
        {
            result = self.declare_and_define(&params[i]);
            if result.is_ok() {
                i = i + 1;
            }
        }
        result
    }
}

} // verus!
