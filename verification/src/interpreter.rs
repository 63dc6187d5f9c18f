//! The evaluator: a machine that runs a program in small steps. Each
//! step does a bounded amount of work and says what the host has to do
//! before the next one: nothing, print a line, or answer a question
//! about numbers or the time.

use vstd::prelude::*;
use std::collections::HashMap;
use crate::callable::{Callable, LoxBuiltinFunctionClock, LoxDynamicFunction, LoxFunction};
use crate::class::{Instance, LoxClass, classes_wf, instances_wf};
use crate::environment::{
    Environment, ScopeView, bind, get_at_spec, get_spec, undefined_variable,
    undefined_variable_error,
};
use crate::expression::{
    Assign, Binary, Call, Expression, Get, Literal, Logical, SetExpr, Unary,
};
use crate::operators::{Expected, Outcome, Request, agrees, literal, literal_spec};
use crate::stmt::{FunctionStmt, IfStmt, Stmt, WhileStmt};
use crate::tokens::Token;
use crate::value::{InterpreterError, Value};

pub mod calls;
pub mod classes;
pub mod continuations;
pub mod expressions;
pub mod statements;
pub mod step;
pub mod laws;

verus! {

broadcast use vstd::std_specs::hash::group_hash_axioms;

/// What remains to be done when the value under evaluation is known.
#[derive(Debug, Clone, Copy, PartialEq)]
pub enum Frame<'a> {
    /// An expression statement: the value is dropped.
    Discard,
    /// A `print` statement: the value is printed.
    Print,
    /// A `var` statement: the value initializes the variable.
    Define(&'a Token),
    /// A `return` statement: the value is returned.
    Return,
    /// An `if` statement: the value chooses the branch.
    Branch(&'a IfStmt),
    /// A `while` statement: the value is its condition.
    LoopTest(&'a WhileStmt),
    /// A `while` statement whose body is running.
    LoopBody(&'a WhileStmt),
    /// A list of statements of which `next` is the next to run.
    Sequence { statements: &'a Vec<Stmt>, next: usize },
    /// The end of a block: the scope that it names becomes the current
    /// one again.
    Restore(usize),
    /// The end of a call of `function`: the scope `previous` becomes
    /// the current one again.
    Call { previous: usize, function: LoxFunction<'a> },
    /// A unary operator: the value is its operand.
    Unary(&'a Unary),
    /// A binary operator: the value is its left operand.
    BinaryLeft(&'a Binary),
    /// A binary operator: the value is its right operand; the left one
    /// is on top of the operands.
    BinaryRight(&'a Binary),
    /// A logical operator: the value is its left operand.
    Logical(&'a Logical),
    /// An assignment: the value is what is assigned.
    Assign(&'a Assign),
    /// A call: the value is what is called.
    Callee(&'a Call),
    /// A call of `callee`: the value is the next argument; those before
    /// it are the operands from position `base` on.
    Arguments { call: &'a Call, callee: Callable<'a>, base: usize },
    /// A property read: the value is the object.
    GetObject(&'a Get),
    /// A property write: the value is the object.
    SetObject(&'a SetExpr),
    /// A property write on `instance`: the value is what is written.
    SetValue { set: &'a SetExpr, instance: usize },
    /// The end of an initializer: the result of the call is `instance`.
    Construct(usize),
}

/// What the machine does next.
#[derive(Debug, PartialEq)]
pub enum Mode<'a> {
    /// Nothing: no program is running.
    Idle,
    /// Run a statement.
    Exec(&'a Stmt),
    /// Evaluate an expression.
    Eval(&'a Expression),
    /// Hand a value to the innermost frame. A statement that has run
    /// hands over `nil`.
    Deliver(Value<'a>),
    /// Return a value from the innermost call.
    Unwind(Value<'a>),
    /// Wait for the host's answer to a question.
    Await(Request<'a>),
}

/// What is to be printed: a text, or a number in the host's format.
#[derive(Debug, PartialEq)]
pub enum Printable {
    Text(String),
    Number(u64),
}

/// What the host has to do after a step.
#[derive(Debug)]
pub enum Action<'a> {
    /// Nothing: take the next step.
    Continue,
    /// Print a line, then take the next step.
    Print(Printable),
    /// Answer a question with `resume`.
    Ask(Request<'a>),
    /// The program has run to its end.
    Finished,
    /// The program has failed with a runtime error.
    Failed(InterpreterError),
}

/// The evaluator's state.
pub struct Interpreter<'a> {
    /// The index of the global scope.
    pub globals: usize,
    /// The index of the scope in which the program that runs was
    /// loaded: it is current again when the program stops on an error.
    pub base: usize,
    /// For each resolved expression, by identifier, the number of scopes
    /// between the scope of the reference and that of the declaration.
    pub locals: HashMap<usize, usize>,
    /// The index of the current scope.
    pub environment: usize,
    pub environments: Environment<'a>,
    pub classes: Vec<LoxClass<'a>>,
    pub instances: Vec<Instance<'a>>,
    /// Every function value made so far; a function's `id` is its index.
    pub functions: Vec<LoxFunction<'a>>,
    pub mode: Mode<'a>,
    /// The frames, innermost last.
    pub frames: Vec<Frame<'a>>,
    /// Values of operands and arguments that wait for their operator or
    /// call, newest last.
    pub operands: Vec<Value<'a>>,
}

/// The part of the state that says where in the program the machine is.
pub struct Registers<'a> {
    pub mode: Mode<'a>,
    pub environment: usize,
    pub frames: Seq<Frame<'a>>,
    pub operands: Seq<Value<'a>>,
}

/// The part of the state that holds what the program has made.
pub struct Store<'a> {
    pub globals: usize,
    pub base: usize,
    pub locals: Map<usize, usize>,
    pub environments: Seq<ScopeView<'a>>,
    pub classes: Seq<LoxClass<'a>>,
    pub instances: Seq<Instance<'a>>,
    pub functions: Seq<LoxFunction<'a>>,
}

/// The state of the machine.
pub struct Machine<'a> {
    pub registers: Registers<'a>,
    pub store: Store<'a>,
}

impl<'a> View for Interpreter<'a> {
    type V = Machine<'a>;

    open spec fn view(&self) -> Machine<'a> {
        Machine { registers: self.registers(), store: self.store() }
    }
}

/// The scopes with `name` bound to `value` in `scope`; unchanged if
/// `scope` is no scope.
pub open spec fn define_spec<'a>(
    scopes: Seq<ScopeView<'a>>,
    scope: usize,
    name: Seq<char>,
    value: Value<'a>,
) -> Seq<ScopeView<'a>> {
    if scope < scopes.len() {
        bind(scopes, scope as int, name, value)
    } else {
        scopes
    }
}

/// The value of the variable `name` for the expression `id`: read at
/// the recorded depth from the current scope if the expression is
/// resolved, and from the global scope otherwise.
pub open spec fn lookup_spec<'a>(m: Machine<'a>, name: Seq<char>, id: usize) -> Option<Value<'a>> {
    if m.store.locals.contains_key(id) {
        get_at_spec(
            m.store.environments,
            m.registers.environment as int,
            name,
            m.store.locals[id] as nat,
        )
    } else {
        get_spec(m.store.environments, m.store.globals as int, name)
    }
}

/// Whether the step from `before` to `after` went on with an empty
/// action, changed the registers to `registers` and left the store.
pub open spec fn goes<'a>(
    before: Machine<'a>,
    after: Machine<'a>,
    action: Action<'a>,
    registers: Registers<'a>,
) -> bool {
    &&& action is Continue
    &&& after.store == before.store
    &&& after.registers == registers
}

/// Whether the step from `before` to `after` began the evaluation of
/// `expression` with `frame` waiting for its value.
pub open spec fn begins<'a>(
    before: Machine<'a>,
    after: Machine<'a>,
    action: Action<'a>,
    frame: Frame<'a>,
    expression: &'a Expression,
) -> bool {
    goes(
        before,
        after,
        action,
        Registers {
            mode: Mode::Eval(expression),
            frames: before.registers.frames.push(frame),
            ..before.registers
        },
    )
}

/// Whether the step from `before` to `after` failed with `message`.
pub open spec fn fails<'a>(
    before: Machine<'a>,
    after: Machine<'a>,
    action: Action<'a>,
    message: Seq<char>,
) -> bool {
    &&& reports(action, message)
    &&& after.store == before.store
    &&& after.registers == stopped::<'a>(before.store.base)
}

/// Whether the step from `before` to `after` went on as `expected`
/// says: with a value, with a question to the host, or by failing.
pub open spec fn settles<'a>(
    before: Machine<'a>,
    after: Machine<'a>,
    action: Action<'a>,
    expected: Expected<'a>,
) -> bool {
    match expected {
        Expected::Value(v) => goes(
            before,
            after,
            action,
            Registers { mode: Mode::Deliver(v), ..before.registers },
        ),
        Expected::Text(t) => {
            &&& action is Continue
            &&& after.store == before.store
            &&& after.registers.mode matches Mode::Deliver(Value::String(s))
            &&& s@ == t
            &&& after.registers == (Registers { mode: after.registers.mode, ..before.registers })
        },
        Expected::Ask(request) => {
            &&& action == Action::Ask(request)
            &&& after.store == before.store
            &&& after.registers == (Registers { mode: Mode::Await(request), ..before.registers })
        },
        Expected::Fail(m) => fails(before, after, action, m),
    }
}

/// The registers when no program runs and `scope` is the current
/// scope. After an error that is the scope in which the program was
/// loaded, whatever blocks and calls it had entered.
pub open spec fn stopped<'a>(scope: usize) -> Registers<'a> {
    Registers {
        mode: Mode::Idle,
        environment: scope,
        frames: Seq::empty(),
        operands: Seq::empty(),
    }
}

/// Whether `action` reports the error `message`.
pub open spec fn reports(action: Action, message: Seq<char>) -> bool {
    action matches Action::Failed(e) && e.message@ == message
}

impl<'a> Interpreter<'a> {
    pub open spec fn wf(&self) -> bool {
        &&& self.environments.wf()
        &&& classes_wf(self.classes@)
        &&& instances_wf(self.instances@)
    }

    pub open spec fn registers(&self) -> Registers<'a> {
        Registers {
            mode: self.mode,
            environment: self.environment,
            frames: self.frames@,
            operands: self.operands@,
        }
    }

    pub open spec fn store(&self) -> Store<'a> {
        Store {
            globals: self.globals,
            base: self.base,
            locals: self.locals@,
            environments: self.environments@,
            classes: self.classes@,
            instances: self.instances@,
            functions: self.functions@,
        }
    }

    /// An evaluator with no program: the global scope binds `clock`.
    pub fn new() -> (r: Self)
        ensures
            r.wf(),
            r.registers() == stopped::<'a>(0),
            r.store() == (Store {
                globals: 0,
                base: 0,
                locals: Map::empty(),
                environments: seq![
                    ScopeView {
                        enclosing: None,
                        values: map![
                            "clock"@ => Value::Callable(
                                Callable::DynamicFunction(
                                    LoxDynamicFunction { callable: LoxBuiltinFunctionClock {  } },
                                ),
                            )
                        ],
                    },
                ],
                classes: Seq::empty(),
                instances: Seq::empty(),
                functions: Seq::empty(),
            }),
    {
        let mut environments = Environment::new();
        let clock = Value::Callable(
            Callable::DynamicFunction(
                LoxDynamicFunction { callable: LoxBuiltinFunctionClock::new() },
            ),
        );
        environments.define(0, "clock", clock);
        let r = Interpreter {
            globals: 0,
            base: 0,
            locals: HashMap::new(),
            environment: 0,
            environments,
            classes: Vec::new(),
            instances: Vec::new(),
            functions: Vec::new(),
            mode: Mode::Idle,
            frames: Vec::new(),
            operands: Vec::new(),
        };
        assert(r.environments@ =~= seq![
            ScopeView { enclosing: None, values: map!["clock"@ => clock] },
        ]) by {
            assert(Map::<Seq<char>, Value>::empty().insert("clock"@, clock) =~= map![
                "clock"@ => clock
            ]);
        }
        assert(r.registers().frames =~= Seq::empty());
        assert(r.registers().operands =~= Seq::empty());
        assert(r.store().classes =~= Seq::empty());
        assert(r.store().instances =~= Seq::empty());
        assert(r.store().functions =~= Seq::empty());
        r
    }

    /// Records that `expr` resolves `depth` scopes out. Literals resolve
    /// nothing and are not recorded.
    pub fn resolve(&mut self, expr: &Expression, depth: usize)
        ensures
            final(self).locals@ == if *expr is Literal {
                old(self).locals@
            } else {
                old(self).locals@.insert(expr.id_spec(), depth)
            },
            final(self).registers() == old(self).registers(),
            final(self).store() == (Store { locals: final(self).locals@, ..old(self).store() }),
            old(self).wf() ==> final(self).wf(),
    {
        match expr {
            Expression::Literal(_) => {},
            _ => {
                self.locals.insert(expr.id(), depth);
            },
        }
    }

    /// What a literal denotes: its value, or, for a number, the question
    /// to the host that reads it.
    pub fn literal(&self, node: &'a Literal) -> (r: Outcome<'a>)
        ensures
            agrees(r, literal_spec(node)),
    {
        literal(node)
    }

    /// Makes `value` the value that the innermost frame receives.
    pub(crate) fn deliver(&mut self, value: Value<'a>) -> (action: Action<'a>)
        ensures
            goes(
                old(self)@,
                final(self)@,
                action,
                Registers { mode: Mode::Deliver(value), ..old(self).registers() },
            ),
            old(self).wf() ==> final(self).wf(),
    {
        self.mode = Mode::Deliver(value);
        Action::Continue
    }

    /// Stops the program with a runtime error: the frames are dropped
    /// and the scope in which the program was loaded becomes the
    /// current one.
    pub(crate) fn fail(&mut self, error: InterpreterError) -> (action: Action<'a>)
        ensures
            fails(old(self)@, final(self)@, action, error.message@),
            old(self).wf() ==> final(self).wf(),
    {
        self.mode = Mode::Idle;
        self.environment = self.base;
        self.frames = Vec::new();
        self.operands = Vec::new();
        assert(self.registers().frames =~= Seq::empty());
        assert(self.registers().operands =~= Seq::empty());
        Action::Failed(error)
    }

    /// Goes on as an outcome says: with its value, with a question to
    /// the host, or by failing.
    pub(crate) fn settle(
        &mut self,
        outcome: Outcome<'a>,
        Ghost(expected): Ghost<Expected<'a>>,
    ) -> (action: Action<'a>)
        requires
            agrees(outcome, expected),
        ensures
            settles(old(self)@, final(self)@, action, expected),
            old(self).wf() ==> final(self).wf(),
    {
        match outcome {
            Outcome::Value(v) => self.deliver(v),
            Outcome::Ask(request) => {
                self.mode = Mode::Await(request);
                Action::Ask(request)
            },
            Outcome::Fail(e) => self.fail(e),
        }
    }

    /// The value of the variable `name` for the expression `id`.
    pub(crate) fn lookup_variable(&self, name: &Token, id: usize) -> (r: Result<
        Value<'a>,
        InterpreterError,
    >)
        requires
            self.wf(),
        ensures
            match lookup_spec(self@, name.lexeme@, id) {
                Some(v) => r == Ok::<Value, InterpreterError>(v),
                None => r is Err && r->Err_0.message@ == undefined_variable(
                    *name,
                ),
            },
    {
        let found = match self.locals.get(&id) {
            Some(depth) => self.environments.get_at(
                self.environment,
                name.lexeme.as_str(),
                *depth,
            ),
            None => self.environments.get(self.globals, name.lexeme.as_str()),
        };
        match found {
            Some(v) => Ok(v),
            None => Err(undefined_variable_error(name)),
        }
    }

    /// Makes a new function value and enters it in the list of functions.
    pub(crate) fn make_function(
        &mut self,
        declaration: &'a FunctionStmt,
        closure: usize,
        is_initializer: bool,
    ) -> (r: LoxFunction<'a>)
        ensures
            r == (LoxFunction {
                id: old(self).functions@.len() as usize,
                declaration,
                closure,
                is_initializer,
            }),
            final(self).registers() == old(self).registers(),
            final(self).store() == (Store {
                functions: old(self).functions@.push(r),
                ..old(self).store()
            }),
            old(self).wf() ==> final(self).wf(),
    {
        let function = LoxFunction::new(self.functions.len(), declaration, closure, is_initializer);
        self.functions.push(function);
        function
    }

    /// Starts the evaluation of `expression`, after which `frame` goes on.
    pub(crate) fn evaluate_then(&mut self, expression: &'a Expression, frame: Frame<'a>) -> (action:
        Action<'a>)
        ensures
            begins(old(self)@, final(self)@, action, frame, expression),
            old(self).wf() ==> final(self).wf(),
    {
        self.frames.push(frame);
        self.mode = Mode::Eval(expression);
        Action::Continue
    }
}

} // verus!
