//! The stack machine that runs a chunk, one instruction at a step.
//! Arithmetic and the reading of a constant's text are asked of the
//! host, as in the evaluator.

use vstd::prelude::*;
use vstd::string::StringExecFns;
use crate::number;
use crate::operators::NumberOp;
use crate::text::{nat_text, u64_to_string};
use crate::vm::chunk::{Chunk, ChunkView, OpCode, op_of};
use crate::vm::compiler::compile;
use crate::vm::pratt;
use crate::scanner::{scan_spec, strings_view};

verus! {

/// A value of the machine. A number is held as its bits.
#[derive(Debug, Clone, Copy, PartialEq)]
pub enum Value {
    Number(u64),
    Bool(bool),
    Nil,
}

#[derive(Debug, Clone, Copy, PartialEq, Eq, Structural)]
pub enum InterpretResult {
    Completed,
    CompileError,
    RuntimeError,
}

/// What the host has to do after a step.
#[derive(Debug, PartialEq)]
pub enum Action {
    /// Nothing: take the next step.
    Continue,
    /// Work out an arithmetic operation and give the result to `resume`.
    Arithmetic(NumberOp, u64, u64),
    /// Read the number that a decimal text denotes and give it to `resume`.
    Parse(String),
    /// Print a value: the chunk has returned it.
    Print(Value),
    /// Nothing more: the chunk has run.
    Done(InterpretResult),
    /// The chunk has failed.
    Failed(String),
}

/// The mathematical value of an action.
pub enum ActionView {
    Continue,
    Arithmetic(NumberOp, u64, u64),
    Parse(Seq<char>),
    Print(Value),
    Done(InterpretResult),
    Failed(Seq<char>),
}

impl View for Action {
    type V = ActionView;

    open spec fn view(&self) -> ActionView {
        match self {
            Action::Continue => ActionView::Continue,
            Action::Arithmetic(op, a, b) => ActionView::Arithmetic(*op, *a, *b),
            Action::Parse(text) => ActionView::Parse(text@),
            Action::Print(v) => ActionView::Print(*v),
            Action::Done(r) => ActionView::Done(*r),
            Action::Failed(m) => ActionView::Failed(m@),
        }
    }
}

/// The first `n` values of a stack as a trace shows them: each text
/// between brackets.
pub open spec fn slots_text(slots: Seq<Seq<char>>, n: int) -> Seq<char>
    decreases n,
{
    if n <= 0 || n > slots.len() {
        Seq::empty()
    } else {
        slots_text(slots, n - 1) + "[ "@ + slots[n - 1] + " ]"@
    }
}

/// The line of a trace that shows the stack, oldest value first, given
/// the texts of its values.
pub open spec fn stack_line(slots: Seq<Seq<char>>) -> Seq<char> {
    "          "@ + slots_text(slots, slots.len() as int) + "\n"@
}

/// The line of a trace that shows a stack whose values have the texts
/// `slots`. The text of a number is the host's.
pub fn stack_trace(slots: &Vec<String>) -> (r: String)
    ensures
        r@ == stack_line(strings_view(slots@)),
{
    let mut output = String::from_str("          ");
    let ghost texts = strings_view(slots@);
    let mut i: usize = 0;
    assert(output@ =~= "          "@ + slots_text(texts, 0));
    while i < slots.len()
        invariant
            i <= slots@.len(),
            texts == strings_view(slots@),
            output@ == "          "@ + slots_text(texts, i as int),
        decreases slots@.len() - i,
    {
        let ghost before = output@;
        output.append("[ ");
        output.append(slots[i].as_str());
        output.append(" ]");
        assert(texts[i as int] == slots@[i as int]@);
        assert(output@ =~= "          "@ + (slots_text(texts, i as int) + "[ "@ + texts[i as int]
            + " ]"@));
        i = i + 1;
    }
    output.append("\n");
    output
}

#[derive(Debug)]
pub struct VirtualMachine {
    pub chunk: Chunk,
    pub ip: usize,
    pub stack: Vec<Value>,
    /// Whether the machine waits for a number from the host.
    pub waiting: bool,
}

/// The state of the machine, apart from its chunk.
pub struct State {
    pub ip: int,
    pub stack: Seq<Value>,
    pub waiting: bool,
}

/// A step's result.
pub struct Stepped {
    pub state: State,
    pub action: ActionView,
}

pub open spec fn is_falsey(v: Value) -> bool {
    match v {
        Value::Nil => true,
        Value::Bool(b) => !b,
        _ => false,
    }
}

pub open spec fn values_equal(a: Value, b: Value) -> bool {
    match (a, b) {
        (Value::Nil, Value::Nil) => true,
        (Value::Bool(x), Value::Bool(y)) => x == y,
        (Value::Number(x), Value::Number(y)) => number::equal_spec(x, y),
        _ => false,
    }
}

/// The state after a failure: the machine stands at the end of its
/// chunk.
pub open spec fn halted(c: ChunkView, s: State) -> State {
    State { ip: c.code.len() as int, waiting: false, ..s }
}

pub open spec fn fail(c: ChunkView, s: State, message: Seq<char>) -> Stepped {
    Stepped { state: halted(c, s), action: ActionView::Failed(message) }
}

pub open spec fn go(s: State) -> Stepped {
    Stepped { state: s, action: ActionView::Continue }
}

/// What an instruction that takes two numbers does with them.
pub open spec fn binary_step(c: ChunkView, s: State, op: OpCode) -> Stepped {
    if s.stack.len() < 2 {
        fail(c, s, "Stack underflow."@)
    } else {
        let b = s.stack[s.stack.len() - 1];
        let a = s.stack[s.stack.len() - 2];
        let rest = s.stack.subrange(0, s.stack.len() - 2);
        match (a, b) {
            (Value::Number(x), Value::Number(y)) => match op {
                OpCode::Greater => go(
                    State { stack: rest.push(Value::Bool(number::less_spec(y, x))), ..s },
                ),
                OpCode::Less => go(
                    State { stack: rest.push(Value::Bool(number::less_spec(x, y))), ..s },
                ),
                OpCode::Add => Stepped {
                    state: State { stack: rest, waiting: true, ..s },
                    action: ActionView::Arithmetic(NumberOp::Add, x, y),
                },
                OpCode::Subtract => Stepped {
                    state: State { stack: rest, waiting: true, ..s },
                    action: ActionView::Arithmetic(NumberOp::Subtract, x, y),
                },
                OpCode::Multiply => Stepped {
                    state: State { stack: rest, waiting: true, ..s },
                    action: ActionView::Arithmetic(NumberOp::Multiply, x, y),
                },
                _ => Stepped {
                    state: State { stack: rest, waiting: true, ..s },
                    action: ActionView::Arithmetic(NumberOp::Divide, x, y),
                },
            },
            _ => fail(c, s, "Operand must be a number."@),
        }
    }
}

/// One step: the instruction at `ip` is fetched and carried out. A
/// machine that waits stays as it is; one that stands at the end of its
/// chunk is done.
pub open spec fn step_spec(c: ChunkView, s: State) -> Stepped {
    if s.waiting {
        go(s)
    } else if !(0 <= s.ip < c.code.len()) {
        Stepped { state: s, action: ActionView::Done(InterpretResult::Completed) }
    } else {
        let at = State { ip: s.ip + 1, ..s };
        let n = s.stack.len() as int;
        match op_of(c.code[s.ip]) {
            None => fail(c, s, "Unknown opcode "@ + nat_text(c.code[s.ip] as nat)),
            Some(OpCode::Return) => if n == 0 {
                Stepped { state: halted(c, s), action: ActionView::Done(InterpretResult::Completed) }
            } else {
                Stepped {
                    state: State { stack: s.stack.drop_last(), ..halted(c, s) },
                    action: ActionView::Print(s.stack.last()),
                }
            },
            Some(OpCode::Nil) => go(State { stack: s.stack.push(Value::Nil), ..at }),
            Some(OpCode::True) => go(State { stack: s.stack.push(Value::Bool(true)), ..at }),
            Some(OpCode::False) => go(State { stack: s.stack.push(Value::Bool(false)), ..at }),
            Some(OpCode::Equal) => if n < 2 {
                fail(c, s, "Stack underflow."@)
            } else {
                go(
                    State {
                        stack: s.stack.subrange(0, n - 2).push(
                            Value::Bool(values_equal(s.stack[n - 2], s.stack[n - 1])),
                        ),
                        ..at
                    },
                )
            },
            Some(OpCode::Not) => if n < 1 {
                fail(c, s, "Stack underflow."@)
            } else {
                go(
                    State {
                        stack: s.stack.drop_last().push(Value::Bool(is_falsey(s.stack.last()))),
                        ..at
                    },
                )
            },
            Some(OpCode::Negate) => if n < 1 {
                fail(c, s, "Stack underflow."@)
            } else {
                match s.stack.last() {
                    Value::Number(x) => go(
                        State {
                            stack: s.stack.drop_last().push(Value::Number(number::negate_spec(x))),
                            ..at
                        },
                    ),
                    _ => fail(c, s, "Operand must be a number."@),
                }
            },
            Some(OpCode::Constant) => if s.ip + 1 < c.code.len() && c.code[s.ip + 1]
                < c.constants.len() {
                Stepped {
                    state: State { ip: s.ip + 2, waiting: true, ..s },
                    action: ActionView::Parse(c.constants[c.code[s.ip + 1] as int]),
                }
            } else {
                fail(c, s, "Unknown constant."@)
            },
            Some(op) => binary_step(c, at, op),
        }
    }
}

impl VirtualMachine {
    pub open spec fn state(&self) -> State {
        State { ip: self.ip as int, stack: self.stack@, waiting: self.waiting }
    }

    /// A machine with an empty chunk.
    pub fn new() -> (r: Self)
        ensures
            r.chunk.wf(),
            r.chunk@.code.len() == 0,
            r.state() == (State { ip: 0, stack: Seq::empty(), waiting: false }),
    {
        Self { chunk: Chunk::new(), ip: 0, stack: Vec::new(), waiting: false }
    }

    /// Compiles `source` and loads the chunk, ready to be stepped. On a
    /// compile error the machine is left as it is.
    pub fn interpret(&mut self, source: String) -> (r: Result<InterpretResult, String>)
        requires
            source@.len() < i32::MAX,
        ensures
            match r {
                Ok(result) => {
                    &&& result == InterpretResult::Completed
                    &&& pratt::compiled(scan_spec(source@)).error is None
                    &&& final(self).chunk@ == pratt::compiled(scan_spec(source@)).chunk
                    &&& final(self).state() == (State {
                        ip: 0,
                        waiting: false,
                        ..old(self).state()
                    })
                },
                Err(message) => {
                    &&& pratt::compiled(scan_spec(source@)).error == Some(message@)
                    &&& final(self).chunk == old(self).chunk
                    &&& final(self).state() == old(self).state()
                },
            },
    {
        match compile(source) {
            Ok(chunk) => {
                self.chunk = chunk;
                self.ip = 0;
                self.waiting = false;
                Ok(InterpretResult::Completed)
            },
            Err(message) => Err(message),
        }
    }

    /// Stops the machine with an error.
    fn fail(&mut self, message: &str) -> (action: Action)
        ensures
            final(self).chunk == old(self).chunk,
            (Stepped { state: final(self).state(), action: action@ }) == fail(
                old(self).chunk@,
                old(self).state(),
                message@,
            ),
    {
        self.ip = self.chunk.code.len();
        self.waiting = false;
        Action::Failed(String::from_str(message))
    }

    /// Carries out an instruction that takes two numbers; the machine
    /// stands after the instruction.
    fn binary_op(&mut self, op: OpCode) -> (action: Action)
        ensures
            final(self).chunk == old(self).chunk,
            (Stepped { state: final(self).state(), action: action@ }) == binary_step(
                old(self).chunk@,
                old(self).state(),
                op,
            ),
    {
        let n = self.stack.len();
        if n < 2 {
            return self.fail("Stack underflow.");
        }
        let b = self.stack[n - 1];
        let a = self.stack[n - 2];
        match (a, b) {
            (Value::Number(x), Value::Number(y)) => {
                self.stack.truncate(n - 2);
                match op {
                    OpCode::Greater => {
                        self.stack.push(Value::Bool(number::greater(x, y)));
                        Action::Continue
                    },
                    OpCode::Less => {
                        self.stack.push(Value::Bool(number::less(x, y)));
                        Action::Continue
                    },
                    OpCode::Add => {
                        self.waiting = true;
                        Action::Arithmetic(NumberOp::Add, x, y)
                    },
                    OpCode::Subtract => {
                        self.waiting = true;
                        Action::Arithmetic(NumberOp::Subtract, x, y)
                    },
                    OpCode::Multiply => {
                        self.waiting = true;
                        Action::Arithmetic(NumberOp::Multiply, x, y)
                    },
                    _ => {
                        self.waiting = true;
                        Action::Arithmetic(NumberOp::Divide, x, y)
                    },
                }
            },
            _ => self.fail("Operand must be a number."),
        }
    }

    /// Takes one step.
    pub fn step(&mut self) -> (action: Action)
        ensures
            final(self).chunk == old(self).chunk,
            (Stepped { state: final(self).state(), action: action@ }) == step_spec(
                old(self).chunk@,
                old(self).state(),
            ),
    {
        if self.waiting {
            return Action::Continue;
        }
        if self.ip >= self.chunk.code.len() {
            return Action::Done(InterpretResult::Completed);
        }
        let instruction = self.chunk.code[self.ip];
        let n = self.stack.len();
        match OpCode::from_byte(instruction) {
            None => {
                let mut message = String::from_str("Unknown opcode ");
                let number = u64_to_string(instruction as u64);
                message.append(number.as_str());
                self.ip = self.chunk.code.len();
                self.waiting = false;
                Action::Failed(message)
            },
            Some(OpCode::Return) => {
                self.ip = self.chunk.code.len();
                match self.stack.pop() {
                    Some(value) => Action::Print(value),
                    None => Action::Done(InterpretResult::Completed),
                }
            },
            Some(OpCode::Nil) => {
                self.ip = self.ip + 1;
                self.stack.push(Value::Nil);
                Action::Continue
            },
            Some(OpCode::True) => {
                self.ip = self.ip + 1;
                self.stack.push(Value::Bool(true));
                Action::Continue
            },
            Some(OpCode::False) => {
                self.ip = self.ip + 1;
                self.stack.push(Value::Bool(false));
                Action::Continue
            },
            Some(OpCode::Equal) => {
                if n < 2 {
                    return self.fail("Stack underflow.");
                }
                let b = self.stack[n - 1];
                let a = self.stack[n - 2];
                self.stack.truncate(n - 2);
                self.stack.push(Value::Bool(values_equal_exec(&a, &b)));
                self.ip = self.ip + 1;
                Action::Continue
            },
            Some(OpCode::Not) => {
                match self.stack.pop() {
                    Some(a) => {
                        self.stack.push(Value::Bool(is_falsey_exec(&a)));
                        self.ip = self.ip + 1;
                        Action::Continue
                    },
                    None => self.fail("Stack underflow."),
                }
            },
            Some(OpCode::Negate) => {
                if n < 1 {
                    return self.fail("Stack underflow.");
                }
                match self.stack[n - 1] {
                    Value::Number(x) => {
                        self.stack.pop();
                        self.stack.push(Value::Number(number::negate(x)));
                        self.ip = self.ip + 1;
                        Action::Continue
                    },
                    _ => self.fail("Operand must be a number."),
                }
            },
            Some(OpCode::Constant) => {
                if self.ip + 1 < self.chunk.code.len() && (self.chunk.code[self.ip + 1] as usize)
                    < self.chunk.constants.len() {
                    let index = self.chunk.code[self.ip + 1] as usize;
                    let text = self.chunk.constants[index].clone();
                    self.ip = self.ip + 2;
                    self.waiting = true;
                    Action::Parse(text)
                } else {
                    self.fail("Unknown constant.")
                }
            },
            Some(op) => {
                self.ip = self.ip + 1;
                self.binary_op(op)
            },
        }
    }

    /// Gives the machine the number that it has asked for: it is pushed.
    /// Nothing happens if the machine has asked for none.
    pub fn resume(&mut self, number: u64)
        ensures
            final(self).chunk == old(self).chunk,
            final(self).state() == if old(self).waiting {
                State {
                    stack: old(self).stack@.push(Value::Number(number)),
                    waiting: false,
                    ..old(self).state()
                }
            } else {
                old(self).state()
            },
    {
        if self.waiting {
            self.stack.push(Value::Number(number));
            self.waiting = false;
        }
    }

    /// Whether the next step fetches an instruction: the machine does
    /// not wait for the host and has not come to the end of its chunk.
    /// A trace shows the stack and the instruction before such a step.
    pub fn fetches(&self) -> (r: bool)
        ensures
            r == (!self.state().waiting && self.state().ip < self.chunk@.code.len()),
    {
        !self.waiting && self.ip < self.chunk.code.len()
    }
}

fn values_equal_exec(a: &Value, b: &Value) -> (r: bool)
    ensures
        r == values_equal(*a, *b),
{
    match (a, b) {
        (Value::Nil, Value::Nil) => true,
        (Value::Bool(a), Value::Bool(b)) => *a == *b,
        (Value::Number(a), Value::Number(b)) => number::equal(*a, *b),
        _ => false,
    }
}

fn is_falsey_exec(value: &Value) -> (r: bool)
    ensures
        r == is_falsey(*value),
{
    match value {
        Value::Nil => true,
        Value::Bool(b) => !*b,
        _ => false,
    }
}

} // verus!
