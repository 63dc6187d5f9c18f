//! Starting the evaluation of expressions.

use vstd::prelude::*;
use crate::callable::{Callable, LoxFunction};
use crate::class::{find_method, method_of, undefined_property, undefined_property_error};
use crate::environment::{get_at_spec, undefined_variable, undefined_variable_error};
use crate::expression::{Expression, Super};
use crate::interpreter::calls::{bound_method, store_with_bound};
use crate::interpreter::{
    Action, Frame, Interpreter, Machine, Mode, Registers, begins, fails, goes, lookup_spec,
    settles,
};
use crate::operators::{error_text, literal, literal_spec, runtime_error};
use crate::tokens::Token;
use crate::value::Value;

verus! {

/// The step that reads the variable `name` for the expression `id`.
pub open spec fn reads<'a>(
    before: Machine<'a>,
    name: &'a Token,
    id: usize,
    after: Machine<'a>,
    action: Action<'a>,
) -> bool {
    match lookup_spec(before, name.lexeme@, id) {
        Some(v) => goes(
            before,
            after,
            action,
            Registers { mode: Mode::Deliver(v), ..before.registers },
        ),
        None => fails(before, after, action, undefined_variable(*name)),
    }
}

/// The step that binds `method` to `instance` and has the bound method
/// as its value.
pub open spec fn binds<'a>(
    before: Machine<'a>,
    method: LoxFunction<'a>,
    instance: usize,
    after: Machine<'a>,
    action: Action<'a>,
) -> bool {
    &&& action is Continue
    &&& after.store == store_with_bound(before, method, instance)
    &&& after.registers == (Registers {
        mode: Mode::Deliver(Value::Callable(Callable::Function(bound_method(before, method)))),
        ..before.registers
    })
}

/// The step that evaluates `super.method`: the superclass is the value
/// of `super` at the recorded depth, and the instance that of `this`
/// one scope further in; the result is the superclass's method, bound
/// to the instance.
pub open spec fn supers<'a>(
    before: Machine<'a>,
    s: &'a Super,
    after: Machine<'a>,
    action: Action<'a>,
) -> bool {
    let line = s.keyword.line as int;
    let scopes = before.store.environments;
    let env = before.registers.environment as int;
    if !before.store.locals.contains_key(s.id) {
        fails(before, after, action, error_text("Cannot use 'super' outside of a class."@, line))
    } else {
        let depth = before.store.locals[s.id];
        match get_at_spec(scopes, env, "super"@, depth as nat) {
            None => fails(before, after, action, undefined_variable(s.keyword)),
            Some(class) => {
                let this = if depth >= 1 {
                    get_at_spec(scopes, env, "this"@, (depth - 1) as nat)
                } else {
                    None
                };
                match (this, class) {
                    (Some(Value::Instance(i)), Value::Callable(Callable::Class(c))) => match method_of(
                        before.store.classes,
                        c as int,
                        s.method.lexeme@,
                    ) {
                        Some(m) => binds(before, m, i, after, action),
                        None => fails(before, after, action, undefined_property(s.method)),
                    },
                    _ => fails(
                        before,
                        after,
                        action,
                        error_text("Superclass must be a class."@, line),
                    ),
                }
            },
        }
    }
}

/// The step that starts the evaluation of `e`.
pub open spec fn evaluates<'a>(
    before: Machine<'a>,
    e: &'a Expression,
    after: Machine<'a>,
    action: Action<'a>,
) -> bool {
    match e {
        Expression::Binary(b) => begins(before, after, action, Frame::BinaryLeft(b), &*b.left),
        Expression::Call(c) => begins(before, after, action, Frame::Callee(c), &*c.callee),
        Expression::Get(g) => begins(before, after, action, Frame::GetObject(g), &*g.object),
        Expression::Grouping(g) => goes(
            before,
            after,
            action,
            Registers { mode: Mode::Eval(&*g.expression), ..before.registers },
        ),
        Expression::Literal(l) => settles(before, after, action, literal_spec(l)),
        Expression::Logical(l) => begins(before, after, action, Frame::Logical(l), &*l.left),
        Expression::SetExpr(s) => begins(before, after, action, Frame::SetObject(s), &*s.object),
        Expression::Super(s) => supers(before, s, after, action),
        Expression::This(t) => reads(before, &t.keyword, t.id, after, action),
        Expression::Unary(u) => begins(before, after, action, Frame::Unary(u), &*u.right),
        Expression::Variable(v) => reads(before, &v.name, v.id, after, action),
        Expression::Assign(a) => begins(before, after, action, Frame::Assign(a), &*a.value),
    }
}

impl<'a> Interpreter<'a> {
    /// Reads a variable.
    fn read(&mut self, name: &'a Token, id: usize) -> (action: Action<'a>)
        requires
            old(self).wf(),
        ensures
            final(self).wf(),
            reads(old(self)@, name, id, final(self)@, action),
    {
        match self.lookup_variable(name, id) {
            Ok(v) => self.deliver(v),
            Err(e) => self.fail(e),
        }
    }

    /// Binds `method` to `instance`; the bound method is the value.
    pub(crate) fn deliver_bound(&mut self, method: LoxFunction<'a>, instance: usize) -> (action:
        Action<'a>)
        requires
            old(self).wf(),
        ensures
            final(self).wf(),
            binds(old(self)@, method, instance, final(self)@, action),
    {
        let bound = method.bind(&mut self.environments, &mut self.functions, instance);
        self.deliver(Value::Callable(Callable::Function(bound)))
    }

    /// Evaluates `super.method`.
    fn super_method(&mut self, super_expr: &'a Super) -> (action: Action<'a>)
        requires
            old(self).wf(),
        ensures
            final(self).wf(),
            supers(old(self)@, super_expr, final(self)@, action),
    {
        let depth = match self.locals.get(&super_expr.id) {
            Some(d) => *d,
            None => {
                return self.fail(
                    runtime_error(
                        "Cannot use 'super' outside of a class.",
                        super_expr.keyword.line,
                    ),
                );
            },
        };
        let super_value = match self.environments.get_at(self.environment, "super", depth) {
            Some(v) => v,
            None => {
                return self.fail(undefined_variable_error(&super_expr.keyword));
            },
        };
        let this_value = if depth >= 1 {
            self.environments.get_at(self.environment, "this", depth - 1)
        } else {
            None
        };
        match (this_value, super_value) {
            (Some(Value::Instance(instance)), Value::Callable(Callable::Class(class))) => {
                match find_method(&self.classes, class, super_expr.method.lexeme.as_str()) {
                    Some(method) => self.deliver_bound(method, instance),
                    None => self.fail(undefined_property_error(&super_expr.method)),
                }
            },
            _ => self.fail(runtime_error("Superclass must be a class.", super_expr.keyword.line)),
        }
    }

    /// Starts the evaluation of an expression, as far as one step goes.
    pub(crate) fn expression(&mut self, expression: &'a Expression) -> (action: Action<'a>)
        requires
            old(self).wf(),
        ensures
            final(self).wf(),
            evaluates(old(self)@, expression, final(self)@, action),
    {
        match expression {
            Expression::Binary(binary) => self.evaluate_then(
                &binary.left,
                Frame::BinaryLeft(binary),
            ),
            Expression::Call(call) => self.evaluate_then(&call.callee, Frame::Callee(call)),
            Expression::Get(get) => self.evaluate_then(&get.object, Frame::GetObject(get)),
            Expression::Grouping(grouping) => {
                self.mode = Mode::Eval(&grouping.expression);
                Action::Continue
            },
            Expression::Literal(node) => self.settle(literal(node), Ghost(literal_spec(node))),
            Expression::Logical(logical) => self.evaluate_then(
                &logical.left,
                Frame::Logical(logical),
            ),
            Expression::SetExpr(set) => self.evaluate_then(&set.object, Frame::SetObject(set)),
            Expression::Super(super_expr) => self.super_method(super_expr),
            Expression::This(this) => self.read(&this.keyword, this.id),
            Expression::Unary(unary) => self.evaluate_then(&unary.right, Frame::Unary(unary)),
            Expression::Variable(variable) => self.read(&variable.name, variable.id),
            Expression::Assign(assign) => self.evaluate_then(&assign.value, Frame::Assign(assign)),
        }
    }
}

} // verus!
