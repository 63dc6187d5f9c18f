//! Laws of the machine: a step is determined by the state it starts
//! from, and a logical operator that its left operand decides leaves
//! its right operand alone.

use vstd::prelude::*;
use crate::callable::Callable;
use crate::class::{Instance, LoxClass};
use crate::expression::{Expression, Logical};
use crate::interpreter::calls::invokes;
use crate::interpreter::classes::declares;
use crate::interpreter::continuations::continues;
use crate::interpreter::expressions::evaluates;
use crate::interpreter::statements::executes;
use crate::interpreter::step::{popped, resting, steps};
use crate::interpreter::{Action, Frame, Machine, Mode, Printable, Registers, Store, begins, goes};
use crate::operators::short_circuits;
use crate::stmt::{ClassStmt, Stmt};
use crate::tokens::Token;
use crate::value::Value;

verus! {

/// Whether two values are the same, strings by their text.
pub open spec fn same_value(a: Value, b: Value) -> bool {
    a == b || (a matches Value::String(s) && b matches Value::String(t) && s@ == t@)
}

/// Whether two modes are the same, a value in hand by `same_value`.
pub open spec fn same_mode(a: Mode, b: Mode) -> bool {
    match (a, b) {
        (Mode::Deliver(x), Mode::Deliver(y)) => same_value(x, y),
        _ => a == b,
    }
}

pub open spec fn same_registers(a: Registers, b: Registers) -> bool {
    &&& same_mode(a.mode, b.mode)
    &&& a.environment == b.environment
    &&& a.frames == b.frames
    &&& a.operands == b.operands
}

/// Whether two lists hold the same classes: by name, superclass and
/// methods.
pub open spec fn same_classes(a: Seq<LoxClass>, b: Seq<LoxClass>) -> bool {
    &&& a.len() == b.len()
    &&& forall|i: int|
        0 <= i < a.len() ==> {
            &&& (#[trigger] a[i]).name@ == b[i].name@
            &&& a[i].superclass == b[i].superclass
            &&& a[i].methods.as_map() == b[i].methods.as_map()
        }
}

/// Whether two lists hold the same instances: by class and fields.
pub open spec fn same_instances(a: Seq<Instance>, b: Seq<Instance>) -> bool {
    &&& a.len() == b.len()
    &&& forall|i: int|
        0 <= i < a.len() ==> {
            &&& (#[trigger] a[i]).class == b[i].class
            &&& a[i].fields.as_map() == b[i].fields.as_map()
        }
}

pub open spec fn same_store(a: Store, b: Store) -> bool {
    &&& a.globals == b.globals
    &&& a.base == b.base
    &&& a.locals == b.locals
    &&& a.environments == b.environments
    &&& a.functions == b.functions
    &&& same_classes(a.classes, b.classes)
    &&& same_instances(a.instances, b.instances)
}

/// Whether two actions ask the same of the host.
pub open spec fn same_action(a: Action, b: Action) -> bool {
    match (a, b) {
        (Action::Continue, Action::Continue) => true,
        (Action::Print(Printable::Text(s)), Action::Print(Printable::Text(t))) => s@ == t@,
        (Action::Print(Printable::Number(x)), Action::Print(Printable::Number(y))) => x == y,
        (Action::Ask(r), Action::Ask(s)) => r == s,
        (Action::Finished, Action::Finished) => true,
        (Action::Failed(e), Action::Failed(f)) => e.message@ == f.message@,
        _ => false,
    }
}

/// Whether two steps came to the same: the same action, the same
/// registers and the same store.
pub open spec fn same_outcome(a: Machine, x: Action, b: Machine, y: Action) -> bool {
    &&& same_action(x, y)
    &&& same_registers(a.registers, b.registers)
    &&& same_store(a.store, b.store)
}

pub proof fn lemma_invokes_is_determined<'a>(
    before: Machine<'a>,
    callee: Callable<'a>,
    arguments: Seq<Value<'a>>,
    paren: &'a Token,
    a: Machine<'a>,
    x: Action<'a>,
    b: Machine<'a>,
    y: Action<'a>,
)
    requires
        invokes(before, callee, arguments, paren, a, x),
        invokes(before, callee, arguments, paren, b, y),
    ensures
        same_outcome(a, x, b, y),
{
    match callee {
        Callable::Class(class) => {
            let n = before.store.instances.len() as int;
            assert forall|i: int| 0 <= i < a.store.instances.len() implies {
                &&& (#[trigger] a.store.instances[i]).class == b.store.instances[i].class
                &&& a.store.instances[i].fields.as_map() == b.store.instances[i].fields.as_map()
            } by {
                if i < n {
                    assert(a.store.instances.take(n)[i] == b.store.instances.take(n)[i]);
                }
            }
        },
        _ => {},
    }
}

pub proof fn lemma_declares_is_determined<'a>(
    before: Machine<'a>,
    c: &'a ClassStmt,
    a: Machine<'a>,
    x: Action<'a>,
    b: Machine<'a>,
    y: Action<'a>,
)
    requires
        declares(before, c, a, x),
        declares(before, c, b, y),
    ensures
        same_outcome(a, x, b, y),
{
    let n = before.store.classes.len() as int;
    if a.store.classes.len() == n + 1 && b.store.classes.len() == n + 1 && a.store.classes.take(n)
        == before.store.classes && b.store.classes.take(n) == before.store.classes {
        assert forall|i: int| 0 <= i < n implies a.store.classes[i] == b.store.classes[i] by {
            assert(a.store.classes.take(n)[i] == b.store.classes.take(n)[i]);
        }
    }
}

pub proof fn lemma_executes_is_determined<'a>(
    before: Machine<'a>,
    statement: &'a Stmt,
    a: Machine<'a>,
    x: Action<'a>,
    b: Machine<'a>,
    y: Action<'a>,
)
    requires
        executes(before, statement, a, x),
        executes(before, statement, b, y),
    ensures
        same_outcome(a, x, b, y),
{
    match statement {
        Stmt::Class(c) => {
            lemma_declares_is_determined(before, c, a, x, b, y);
        },
        _ => {},
    }
}

pub proof fn lemma_evaluates_is_determined<'a>(
    before: Machine<'a>,
    e: &'a Expression,
    a: Machine<'a>,
    x: Action<'a>,
    b: Machine<'a>,
    y: Action<'a>,
)
    requires
        evaluates(before, e, a, x),
        evaluates(before, e, b, y),
    ensures
        same_outcome(a, x, b, y),
{
}

pub proof fn lemma_continues_is_determined<'a>(
    before: Machine<'a>,
    frame: Frame<'a>,
    value: Value<'a>,
    a: Machine<'a>,
    x: Action<'a>,
    b: Machine<'a>,
    y: Action<'a>,
)
    requires
        continues(before, frame, value, a, x),
        continues(before, frame, value, b, y),
    ensures
        same_outcome(a, x, b, y),
{
    let r = before.registers;
    match frame {
        Frame::Callee(c) => match value {
            Value::Callable(callee) => {
                if c.arguments@.len() == 0 {
                    lemma_invokes_is_determined(before, callee, Seq::empty(), &c.paren, a, x, b, y);
                }
            },
            _ => {},
        },
        Frame::Arguments { call, callee, base } => {
            let operands = r.operands.push(value);
            if base <= r.operands.len() && operands.len() - base >= call.arguments@.len() {
                lemma_invokes_is_determined(
                    Machine {
                        registers: Registers { operands: operands.subrange(0, base as int), ..r },
                        ..before
                    },
                    callee,
                    operands.subrange(base as int, operands.len() as int),
                    &call.paren,
                    a,
                    x,
                    b,
                    y,
                );
            }
        },
        Frame::SetValue { set, instance } => {},
        _ => {},
    }
}

/// A step is determined by the state it starts from: two steps from one
/// state take the same action and leave the same state. So a program
/// that gets the same answers from its host runs the same way every
/// time.
pub proof fn lemma_step_is_determined<'a>(
    before: Machine<'a>,
    a: Machine<'a>,
    x: Action<'a>,
    b: Machine<'a>,
    y: Action<'a>,
)
    requires
        steps(before, a, x),
        steps(before, b, y),
    ensures
        same_outcome(a, x, b, y),
{
    match before.registers.mode {
        Mode::Exec(statement) => {
            lemma_executes_is_determined(resting(before), statement, a, x, b, y);
        },
        Mode::Eval(expression) => {
            lemma_evaluates_is_determined(resting(before), expression, a, x, b, y);
        },
        Mode::Deliver(value) => {
            if before.registers.frames.len() > 0 {
                lemma_continues_is_determined(
                    popped(before),
                    before.registers.frames.last(),
                    value,
                    a,
                    x,
                    b,
                    y,
                );
            }
        },
        _ => {},
    }
}

/// A logical operator that its left operand decides has that operand as
/// its value, and that is all: the step that receives the left operand
/// drops the operator's frame and begins no evaluation. `false and E`
/// and `true or E` never evaluate `E`.
pub proof fn lemma_short_circuit<'a>(
    before: Machine<'a>,
    operation: &'a Logical,
    left: Value<'a>,
    after: Machine<'a>,
    action: Action<'a>,
)
    requires
        before.registers.mode == Mode::Deliver(left),
        before.registers.frames.len() > 0,
        before.registers.frames.last() == Frame::Logical(operation),
        short_circuits(operation.operator, left),
        steps(before, after, action),
    ensures
        action is Continue,
        after.store == before.store,
        after.registers == (Registers {
            mode: Mode::Deliver(left),
            frames: before.registers.frames.drop_last(),
            ..before.registers
        }),
{
}

/// A logical operator that its left operand does not decide goes on to
/// evaluate its right operand, whose value is the operator's.
pub proof fn lemma_no_short_circuit<'a>(
    before: Machine<'a>,
    operation: &'a Logical,
    left: Value<'a>,
    after: Machine<'a>,
    action: Action<'a>,
)
    requires
        before.registers.mode == Mode::Deliver(left),
        before.registers.frames.len() > 0,
        before.registers.frames.last() == Frame::Logical(operation),
        !short_circuits(operation.operator, left),
        steps(before, after, action),
    ensures
        action is Continue,
        after.store == before.store,
        after.registers == (Registers {
            mode: Mode::Eval(&*operation.right),
            frames: before.registers.frames.drop_last(),
            ..before.registers
        }),
{
}

} // verus!
