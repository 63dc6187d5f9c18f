//! One step of the machine.

use vstd::prelude::*;
use crate::interpreter::continuations::{comes_back, continues};
use crate::interpreter::expressions::evaluates;
use crate::interpreter::statements::executes;
use crate::interpreter::{Action, Frame, Interpreter, Machine, Mode, Registers, goes};
use crate::value::Value;

verus! {

/// The step that goes on returning `value`: the innermost frame is
/// dropped; the end of a block makes the scope before it current again;
/// at the frame that marks the end of a call the return ends. `before`
/// is the state with that frame taken off.
pub open spec fn unwinds<'a>(
    before: Machine<'a>,
    frame: Frame<'a>,
    value: Value<'a>,
    after: Machine<'a>,
    action: Action<'a>,
) -> bool {
    match frame {
        Frame::Call { previous, function } => comes_back(
            before,
            previous,
            function,
            value,
            after,
            action,
        ),
        Frame::Restore(environment) => goes(
            before,
            after,
            action,
            Registers { mode: Mode::Unwind(value), environment, ..before.registers },
        ),
        _ => goes(
            before,
            after,
            action,
            Registers { mode: Mode::Unwind(value), ..before.registers },
        ),
    }
}

/// The state `m` at rest, with its innermost frame taken off.
pub open spec fn popped<'a>(m: Machine<'a>) -> Machine<'a> {
    Machine {
        registers: Registers {
            mode: Mode::Idle,
            frames: m.registers.frames.drop_last(),
            ..m.registers
        },
        ..m
    }
}

/// The state `m` at rest.
pub open spec fn resting<'a>(m: Machine<'a>) -> Machine<'a> {
    Machine { registers: Registers { mode: Mode::Idle, ..m.registers }, ..m }
}

/// One step of the machine, from `before` to `after`, with what the
/// host has to do next. A machine that is idle stays so and says that
/// the program is finished; one that waits for an answer keeps asking.
/// When a value is left and no frame waits for it, the program is
/// finished.
pub open spec fn steps<'a>(before: Machine<'a>, after: Machine<'a>, action: Action<'a>) -> bool {
    match before.registers.mode {
        Mode::Idle => action is Finished && after == before,
        Mode::Await(request) => action == Action::Ask(request) && after == before,
        Mode::Exec(statement) => executes(resting(before), statement, after, action),
        Mode::Eval(expression) => evaluates(resting(before), expression, after, action),
        Mode::Deliver(value) => if before.registers.frames.len() == 0 {
            action is Finished && after == resting(before)
        } else {
            continues(popped(before), before.registers.frames.last(), value, after, action)
        },
        Mode::Unwind(value) => if before.registers.frames.len() == 0 {
            action is Finished && after == resting(before)
        } else {
            unwinds(popped(before), before.registers.frames.last(), value, after, action)
        },
    }
}

impl<'a> Interpreter<'a> {
    /// Takes one step.
    pub fn step(&mut self) -> (action: Action<'a>)
        requires
            old(self).wf(),
        ensures
            final(self).wf(),
            steps(old(self)@, final(self)@, action),
    {
        let mut mode = Mode::Idle;
        std::mem::swap(&mut self.mode, &mut mode);
        match mode {
            Mode::Idle => Action::Finished,
            Mode::Await(request) => {
                self.mode = Mode::Await(request);
                Action::Ask(request)
            },
            Mode::Exec(statement) => self.execute_statement(statement),
            Mode::Eval(expression) => self.expression(expression),
            Mode::Deliver(value) => match self.frames.pop() {
                Some(frame) => self.continue_with(frame, value),
                None => Action::Finished,
            },
            Mode::Unwind(value) => match self.frames.pop() {
                Some(Frame::Call { previous, function }) => self.finish_call(
                    previous,
                    function,
                    value,
                ),
                Some(Frame::Restore(environment)) => {
                    self.environment = environment;
                    self.mode = Mode::Unwind(value);
                    Action::Continue
                },
                Some(_) => {
                    self.mode = Mode::Unwind(value);
                    Action::Continue
                },
                None => Action::Finished,
            },
        }
    }

    /// Gives the machine the number that it has asked for. Nothing
    /// happens if it has asked for none.
    pub fn resume(&mut self, number: u64)
        ensures
            final(self).store() == old(self).store(),
            final(self).registers() == if old(self).mode is Await {
                Registers { mode: Mode::Deliver(Value::Number(number)), ..old(self).registers() }
            } else {
                old(self).registers()
            },
            old(self).wf() ==> final(self).wf(),
    {
        if let Mode::Await(_) = &self.mode {
            self.mode = Mode::Deliver(Value::Number(number));
        }
    }
}

} // verus!
