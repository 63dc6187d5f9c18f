//! Running statements.

use vstd::prelude::*;
use crate::callable::{Callable, LoxFunction};
use crate::environment::ScopeView;
use crate::interpreter::classes::declares;
use crate::interpreter::{
    Action, Frame, Interpreter, Machine, Mode, Registers, Store, begins, define_spec, goes,
};
use crate::stmt::Stmt;
use crate::value::{InterpreterError, InterpreterResult, Value};

verus! {

/// The scope in which the program that runs was loaded, for a machine
/// that is about to enter a program or a block: the current scope if
/// no frame waits, since then nothing runs yet; the scope noted before
/// otherwise.
pub open spec fn loaded_in(before: Machine) -> usize {
    if before.registers.frames.len() == 0 {
        before.registers.environment
    } else {
        before.store.base
    }
}

/// The step that enters a block of `statements` inside the scope
/// `environment`: a new scope inside it becomes the current one, to
/// give way to the one before when the statements have run.
pub open spec fn enters_block<'a>(
    before: Machine<'a>,
    after: Machine<'a>,
    action: Action<'a>,
    statements: &'a Vec<Stmt>,
    environment: usize,
) -> bool {
    &&& action is Continue
    &&& after.store == (Store {
        base: loaded_in(before),
        environments: before.store.environments.push(
            ScopeView {
                enclosing: if environment < before.store.environments.len() {
                    Some(environment)
                } else {
                    None
                },
                values: Map::empty(),
            },
        ),
        ..before.store
    })
    &&& after.registers == (Registers {
        mode: Mode::Deliver(Value::Nil),
        environment: before.store.environments.len() as usize,
        frames: before.registers.frames.push(Frame::Restore(before.registers.environment)).push(
            Frame::Sequence { statements, next: 0 },
        ),
        ..before.registers
    })
}

/// The step that runs `statement`.
pub open spec fn executes<'a>(
    before: Machine<'a>,
    statement: &'a Stmt,
    after: Machine<'a>,
    action: Action<'a>,
) -> bool {
    let done = Registers { mode: Mode::Deliver(Value::Nil), ..before.registers };
    match statement {
        Stmt::Expression(s) => begins(before, after, action, Frame::Discard, &*s.expression),
        Stmt::Function(f) => {
            let function = LoxFunction {
                id: before.store.functions.len() as usize,
                declaration: f,
                closure: before.registers.environment,
                is_initializer: false,
            };
            &&& action is Continue
            &&& after.registers == done
            &&& after.store == (Store {
                functions: before.store.functions.push(function),
                environments: define_spec(
                    before.store.environments,
                    before.registers.environment,
                    f.name.lexeme@,
                    Value::Callable(Callable::Function(function)),
                ),
                ..before.store
            })
        },
        Stmt::Return(r) => match &r.value {
            Some(e) => begins(before, after, action, Frame::Return, &**e),
            None => goes(
                before,
                after,
                action,
                Registers { mode: Mode::Unwind(Value::Nil), ..before.registers },
            ),
        },
        Stmt::If(i) => begins(before, after, action, Frame::Branch(i), &*i.condition),
        Stmt::Print(p) => begins(before, after, action, Frame::Print, &*p.expression),
        Stmt::Block(b) => enters_block(
            before,
            after,
            action,
            &b.statements,
            before.registers.environment,
        ),
        Stmt::Var(v) => match &v.initializer {
            Some(e) => begins(before, after, action, Frame::Define(&v.name), &**e),
            None => {
                &&& action is Continue
                &&& after.registers == done
                &&& after.store == (Store {
                    environments: define_spec(
                        before.store.environments,
                        before.registers.environment,
                        v.name.lexeme@,
                        Value::Nil,
                    ),
                    ..before.store
                })
            },
        },
        Stmt::While(w) => begins(before, after, action, Frame::LoopTest(w), &*w.condition),
        Stmt::Class(c) => declares(before, c, after, action),
    }
}

impl<'a> Interpreter<'a> {
    /// Loads a program: its statements run, in order, in the current
    /// scope when the machine is stepped. If the program stops on an
    /// error, the scope in which it was loaded is current again.
    pub fn execute(&mut self, statements: &'a Vec<Stmt>) -> (r: Result<
        InterpreterResult<'a>,
        InterpreterError,
    >)
        ensures
            r is Ok,
            r->Ok_0 is Done,
            final(self).store() == (Store { base: loaded_in(old(self)@), ..old(self).store() }),
            final(self).registers() == (Registers {
                mode: Mode::Deliver(Value::Nil),
                frames: old(self).frames@.push(Frame::Sequence { statements, next: 0 }),
                ..old(self).registers()
            }),
            old(self).wf() ==> final(self).wf(),
    {
        if self.frames.len() == 0 {
            self.base = self.environment;
        }
        self.frames.push(Frame::Sequence { statements, next: 0 });
        self.mode = Mode::Deliver(Value::Nil);
        Ok(InterpreterResult::Done)
    }

    /// Loads an expression: it is evaluated in the current scope when
    /// the machine is stepped. If the evaluation stops on an error, the
    /// scope in which it was loaded is current again.
    pub fn evaluate(&mut self, expression: &'a crate::expression::Expression)
        ensures
            final(self).store() == (Store { base: loaded_in(old(self)@), ..old(self).store() }),
            final(self).registers() == (Registers {
                mode: Mode::Eval(expression),
                ..old(self).registers()
            }),
            old(self).wf() ==> final(self).wf(),
    {
        if self.frames.len() == 0 {
            self.base = self.environment;
        }
        self.mode = Mode::Eval(expression);
    }

    /// Enters a block: the statements run in a new scope inside
    /// `environment`, after which the scope that is current now is
    /// current again: when the statements have run, when one of them
    /// returns, and, where no program runs yet, also when one of them
    /// fails. A failure inside a program that runs makes the scope
    /// current in which that program was loaded.
    pub fn execute_block(&mut self, statements: &'a Vec<Stmt>, environment: usize) -> (action:
        Action<'a>)
        requires
            old(self).wf(),
        ensures
            final(self).wf(),
            enters_block(old(self)@, final(self)@, action, statements, environment),
    {
        let previous = self.environment;
        if self.frames.len() == 0 {
            self.base = previous;
        }
        self.environment = self.environments.with_enclosing(environment);
        self.frames.push(Frame::Restore(previous));
        self.frames.push(Frame::Sequence { statements, next: 0 });
        self.deliver(Value::Nil)
    }

    /// Runs one statement, as far as one step goes.
    pub(crate) fn execute_statement(&mut self, statement: &'a Stmt) -> (action: Action<'a>)
        requires
            old(self).wf(),
        ensures
            final(self).wf(),
            executes(old(self)@, statement, final(self)@, action),
    {
        match statement {
            Stmt::Expression(expr_stmt) => self.evaluate_then(
                &expr_stmt.expression,
                Frame::Discard,
            ),
            Stmt::Function(fun_stmt) => {
                let function = self.make_function(fun_stmt, self.environment, false);
                self.environments.define(
                    self.environment,
                    fun_stmt.name.lexeme.as_str(),
                    Value::Callable(Callable::Function(function)),
                );
                self.deliver(Value::Nil)
            },
            Stmt::Return(return_stmt) => {
                if let Some(value) = &return_stmt.value {
                    self.evaluate_then(value, Frame::Return)
                } else {
                    self.mode = Mode::Unwind(Value::Nil);
                    Action::Continue
                }
            },
            Stmt::If(if_stmt) => self.evaluate_then(&if_stmt.condition, Frame::Branch(if_stmt)),
            Stmt::Print(print_stmt) => self.evaluate_then(&print_stmt.expression, Frame::Print),
            Stmt::Block(block_stmt) => self.execute_block(
                &block_stmt.statements,
                self.environment,
            ),
            Stmt::Var(var_stmt) => {
                if let Some(initializer) = &var_stmt.initializer {
                    self.evaluate_then(initializer, Frame::Define(&var_stmt.name))
                } else {
                    self.environments.define(
                        self.environment,
                        var_stmt.name.lexeme.as_str(),
                        Value::Nil,
                    );
                    self.deliver(Value::Nil)
                }
            },
            Stmt::While(while_stmt) => self.evaluate_then(
                &while_stmt.condition,
                Frame::LoopTest(while_stmt),
            ),
            Stmt::Class(class_stmt) => self.declare_class(class_stmt),
        }
    }
}

} // verus!
