//! Resolving expressions.

use vstd::prelude::*;
use crate::expression::{Expression, Variable};
use crate::interpreter::Interpreter;
use crate::resolution;
use crate::resolution::{ClassType, Resolved};
use crate::resolver::{Resolver, ResolverError, outcome, records_only};

verus! {

impl<'a> Resolver<'a> {
    /// Resolves a variable reference: rejected inside its own
    /// initializer, recorded with its depth otherwise.
    pub(crate) fn resolve_variable(
        &mut self,
        interpreter: &mut Interpreter,
        expr: &Expression,
        variable: &Variable,
    ) -> (r: Result<(), ResolverError>)
        requires
            old(self).wf(),
            !(*expr is Literal),
            expr.id_spec() == variable.id,
        ensures
            final(self).wf(),
            records_only(*old(interpreter), *final(interpreter)),
            final(self).depth() == old(self).depth(),
            final(self).kinds() == old(self).kinds(),
            (Resolved { error: outcome(r), state: final(self).state(final(interpreter).locals@) })
                == resolution::resolve_variable(
                old(self).state(old(interpreter).locals@),
                *variable,
            ),
    {
        if self.is_being_initialized(variable.name.lexeme.as_str()) {
            return self.make_resolve_error(
                &variable.name,
                "Can't read local variable in its own initializer.",
            );
        }
        self.resolve_local(interpreter, expr, &variable.name)
    }

    /// Resolves the arguments of a call, up to the first that is
    /// rejected.
    fn resolve_exprs(&mut self, interpreter: &mut Interpreter, list: &'a Vec<Expression>) -> (r:
        Result<(), ResolverError>)
        requires
            old(self).wf(),
        ensures
            final(self).wf(),
            records_only(*old(interpreter), *final(interpreter)),
            final(self).depth() == old(self).depth(),
            final(self).kinds() == old(self).kinds(),
            (Resolved { error: outcome(r), state: final(self).state(final(interpreter).locals@) })
                == resolution::resolve_exprs(list@, 0, old(self).state(old(interpreter).locals@)),
        decreases list, 1nat,
    {
        let ghost goal = resolution::resolve_exprs(
            list@,
            0,
            old(self).state(old(interpreter).locals@),
        );
        let mut result: Result<(), ResolverError> = Ok(());
        let mut i: usize = 0;
        while i < list.len() && result.is_ok()
            invariant
                i <= list@.len(),
                self.wf(),
                records_only(*old(interpreter), *interpreter),
                self.depth() == old(self).depth(),
                self.kinds() == old(self).kinds(),
                goal == if result is Ok {
                    resolution::resolve_exprs(list@, i as int, self.state(interpreter.locals@))
                } else {
                    Resolved { error: outcome(result), state: self.state(interpreter.locals@) }
                },
            decreases list@.len() - i + if result is Ok { 1nat } else { 0nat },
        {
            result = self.resolve_expr(interpreter, &list[i]);
            if result.is_ok() {
                i = i + 1;
            }
        }
        result
    }

    pub(crate) fn resolve_expr(&mut self, interpreter: &mut Interpreter, expr: &'a Expression) -> (r:
        Result<(), ResolverError>)
        requires
            old(self).wf(),
        ensures
            final(self).wf(),
            records_only(*old(interpreter), *final(interpreter)),
            final(self).depth() == old(self).depth(),
            final(self).kinds() == old(self).kinds(),
            (Resolved { error: outcome(r), state: final(self).state(final(interpreter).locals@) })
                == resolution::resolve_expr(*expr, old(self).state(old(interpreter).locals@)),
        decreases expr, 0nat,
    {
        match expr {
            Expression::Variable(var) => self.resolve_variable(interpreter, expr, var),
            Expression::Assign(assign) => {
                match self.resolve_expr(interpreter, &assign.value) {
                    Ok(_) => {},
                    Err(e) => {
                        return Err(e);
                    },
                }
                self.resolve_local(interpreter, expr, &assign.name)
            },
            Expression::Binary(binary) => {
                match self.resolve_expr(interpreter, &binary.left) {
                    Ok(_) => {},
                    Err(e) => {
                        return Err(e);
                    },
                }
                self.resolve_expr(interpreter, &binary.right)
            },
            Expression::Call(call) => {
                match self.resolve_expr(interpreter, &call.callee) {
                    Ok(_) => {},
                    Err(e) => {
                        return Err(e);
                    },
                }
                self.resolve_exprs(interpreter, &call.arguments)
            },
            Expression::Get(get) => self.resolve_expr(interpreter, &get.object),
            Expression::Grouping(group) => self.resolve_expr(interpreter, &group.expression),
            Expression::Literal(_) => Ok(()),
            Expression::Logical(logical) => {
                match self.resolve_expr(interpreter, &logical.left) {
                    Ok(_) => {},
                    Err(e) => {
                        return Err(e);
                    },
                }
                self.resolve_expr(interpreter, &logical.right)
            },
            Expression::SetExpr(set) => {
                match self.resolve_expr(interpreter, &set.value) {
                    Ok(_) => {},
                    Err(e) => {
                        return Err(e);
                    },
                }
                self.resolve_expr(interpreter, &set.object)
            },
            Expression::Super(superclass) => {
                let class = self.class_type();
                if class == ClassType::TopLevel {
                    return self.make_resolve_error(
                        &superclass.keyword,
                        "Can't use 'super' outside of a class.",
                    );
                } else if class != ClassType::Subclass {
                    return self.make_resolve_error(
                        &superclass.keyword,
                        "Can't use 'super' in a class with no superclass.",
                    );
                }
                self.resolve_local(interpreter, expr, &superclass.keyword)
            },
            Expression::This(this) => {
                if self.class_type() == ClassType::TopLevel {
                    return self.make_resolve_error(
                        &this.keyword,
                        "Can't use 'this' outside of a class.",
                    );
                }
                self.resolve_local(interpreter, expr, &this.keyword)
            },
            Expression::Unary(unary) => self.resolve_expr(interpreter, &unary.right),
        }
    }
}

} // verus!
