//! Static resolution, as functions on the syntax tree: which scope each
//! variable reference resolves to, and which programs are rejected.

use vstd::prelude::*;
use crate::expression::{Expression, Variable};
use crate::stmt::{ClassStmt, FunctionStmt, Stmt};
use crate::text::int_text;
use crate::tokens::Token;

verus! {

/// The kind of function whose body is being resolved.
#[derive(Debug, Clone, Copy, PartialEq, Eq, Structural)]
pub enum FunctionType {
    TopLevel,
    Function,
    Method,
    Initializer,
}

/// The kind of class whose body is being resolved.
#[derive(Debug, Clone, Copy, PartialEq, Eq, Structural)]
pub enum ClassType {
    TopLevel,
    Class,
    Subclass,
}

/// A scope: the names declared in it, each with whether its initializer
/// has been resolved.
pub type Scope = Map<Seq<char>, bool>;

/// What resolution has established so far: the stack of open scopes
/// (innermost last), the scope depth recorded for each expression
/// identifier, and the kinds of the enclosing function and class.
pub struct State {
    pub scopes: Seq<Scope>,
    pub locals: Map<usize, usize>,
    pub function: FunctionType,
    pub class: ClassType,
}

/// The outcome of resolving one construct: the diagnostic if it is
/// rejected, and the state it leaves.
pub struct Resolved {
    pub error: Option<Seq<char>>,
    pub state: State,
}

pub open spec fn accept(state: State) -> Resolved {
    Resolved { error: None, state }
}

/// The diagnostic for `message` at `token`.
pub open spec fn error_at(token: Token, message: Seq<char>) -> Seq<char> {
    "[line "@ + int_text(token.line as int) + "] Error at '"@ + token.lexeme@ + "': "@ + message
}

pub open spec fn reject(state: State, token: Token, message: Seq<char>) -> Resolved {
    Resolved { error: Some(error_at(token, message)), state }
}

pub open spec fn push_scope(state: State, scope: Scope) -> State {
    State { scopes: state.scopes.push(scope), ..state }
}

pub open spec fn pop_scope(state: State) -> State {
    State { scopes: state.scopes.drop_last(), ..state }
}

/// The state with the innermost scope replaced by `scope`.
pub open spec fn with_top(state: State, scope: Scope) -> State {
    State { scopes: state.scopes.update(state.scopes.len() - 1, scope), ..state }
}

/// Declares `name` in the innermost scope, not yet defined. At top level
/// (no open scope) nothing is recorded; a second declaration in one scope
/// is rejected.
pub open spec fn declare(state: State, name: Token) -> Resolved {
    if state.scopes.len() == 0 {
        accept(state)
    } else if state.scopes.last().contains_key(name.lexeme@) {
        reject(state, name, "Already a variable with this name in this scope."@)
    } else {
        accept(with_top(state, state.scopes.last().insert(name.lexeme@, false)))
    }
}

/// Marks `name` as defined in the innermost scope.
pub open spec fn define(state: State, name: Token) -> Resolved {
    if state.scopes.len() == 0 {
        accept(state)
    } else if state.scopes.last().contains_key(name.lexeme@) {
        accept(with_top(state, state.scopes.last().insert(name.lexeme@, true)))
    } else {
        reject(state, name, "Variable not declared in this scope."@)
    }
}

pub open spec fn declare_and_define(state: State, name: Token) -> Resolved {
    let declared = declare(state, name);
    if declared.error is Some {
        declared
    } else {
        define(declared.state, name)
    }
}

/// The index of the innermost scope that declares `name`.
pub open spec fn innermost(scopes: Seq<Scope>, name: Seq<char>) -> Option<int>
    decreases scopes.len(),
{
    if scopes.len() == 0 {
        None
    } else if scopes.last().contains_key(name) {
        Some(scopes.len() - 1)
    } else {
        innermost(scopes.drop_last(), name)
    }
}

/// The number of scopes between the innermost one and the innermost one
/// that declares `name`.
pub open spec fn depth_of(scopes: Seq<Scope>, name: Seq<char>) -> Option<int> {
    match innermost(scopes, name) {
        Some(i) => Some(scopes.len() - 1 - i),
        None => None,
    }
}

/// Records for the expression `id` the depth at which `name` resolves;
/// a name that no open scope declares is global and gets no entry.
pub open spec fn resolve_local(state: State, id: usize, name: Seq<char>) -> State {
    match depth_of(state.scopes, name) {
        Some(d) => State { locals: state.locals.insert(id, d as usize), ..state },
        None => state,
    }
}

pub open spec fn resolve_variable(state: State, v: Variable) -> Resolved {
    if state.scopes.len() > 0 && state.scopes.last().contains_key(v.name.lexeme@)
        && !state.scopes.last()[v.name.lexeme@] {
        reject(state, v.name, "Can't read local variable in its own initializer."@)
    } else {
        accept(resolve_local(state, v.id, v.name.lexeme@))
    }
}

pub open spec fn resolve_expr(e: Expression, state: State) -> Resolved
    decreases e,
{
    match e {
        Expression::Variable(v) => resolve_variable(state, v),
        Expression::Assign(a) => {
            let value = resolve_expr(*a.value, state);
            if value.error is Some {
                value
            } else {
                accept(resolve_local(value.state, a.id, a.name.lexeme@))
            }
        },
        Expression::Binary(b) => {
            let left = resolve_expr(*b.left, state);
            if left.error is Some {
                left
            } else {
                resolve_expr(*b.right, left.state)
            }
        },
        Expression::Call(c) => {
            let callee = resolve_expr(*c.callee, state);
            if callee.error is Some {
                callee
            } else {
                resolve_exprs(c.arguments@, 0, callee.state)
            }
        },
        Expression::Get(g) => resolve_expr(*g.object, state),
        Expression::Grouping(g) => resolve_expr(*g.expression, state),
        Expression::Literal(_) => accept(state),
        Expression::Logical(b) => {
            let left = resolve_expr(*b.left, state);
            if left.error is Some {
                left
            } else {
                resolve_expr(*b.right, left.state)
            }
        },
        Expression::SetExpr(s) => {
            let value = resolve_expr(*s.value, state);
            if value.error is Some {
                value
            } else {
                resolve_expr(*s.object, value.state)
            }
        },
        Expression::Super(s) => {
            if state.class == ClassType::TopLevel {
                reject(state, s.keyword, "Can't use 'super' outside of a class."@)
            } else if state.class != ClassType::Subclass {
                reject(state, s.keyword, "Can't use 'super' in a class with no superclass."@)
            } else {
                accept(resolve_local(state, s.id, s.keyword.lexeme@))
            }
        },
        Expression::This(t) => {
            if state.class == ClassType::TopLevel {
                reject(state, t.keyword, "Can't use 'this' outside of a class."@)
            } else {
                accept(resolve_local(state, t.id, t.keyword.lexeme@))
            }
        },
        Expression::Unary(u) => resolve_expr(*u.right, state),
    }
}

/// Resolves the expressions from position `i` on, up to the first that
/// is rejected.
pub open spec fn resolve_exprs(list: Seq<Expression>, i: int, state: State) -> Resolved
    decreases list, list.len() - i,
{
    if 0 <= i < list.len() {
        let first = resolve_expr(list[i], state);
        if first.error is Some {
            first
        } else {
            resolve_exprs(list, i + 1, first.state)
        }
    } else {
        accept(state)
    }
}

/// Adds a diagnostic to those gathered so far, one per line.
pub open spec fn join(gathered: Option<Seq<char>>, next: Option<Seq<char>>) -> Option<Seq<char>> {
    match (gathered, next) {
        (Some(a), Some(b)) => Some(a + "\n"@ + b),
        (None, Some(b)) => Some(b),
        (_, None) => gathered,
    }
}

pub open spec fn resolve_stmt(s: Stmt, state: State) -> Resolved
    decreases s,
{
    match s {
        Stmt::Expression(e) => resolve_expr(*e.expression, state),
        Stmt::Print(p) => resolve_expr(*p.expression, state),
        Stmt::Var(v) => {
            let declared = declare(state, v.name);
            if declared.error is Some {
                declared
            } else {
                let initialized = match v.initializer {
                    Some(e) => resolve_expr(*e, declared.state),
                    None => declared,
                };
                if initialized.error is Some {
                    initialized
                } else {
                    define(initialized.state, v.name)
                }
            }
        },
        Stmt::Block(b) => {
            let inner = resolve_stmts(b.statements@, 0, push_scope(state, Map::empty()), None);
            Resolved { error: inner.error, state: pop_scope(inner.state) }
        },
        Stmt::If(i) => {
            let condition = resolve_expr(*i.condition, state);
            if condition.error is Some {
                condition
            } else {
                let then = resolve_stmt(*i.then_branch, condition.state);
                if then.error is Some {
                    then
                } else {
                    match i.else_branch {
                        Some(e) => resolve_stmt(*e, then.state),
                        None => then,
                    }
                }
            }
        },
        Stmt::While(w) => {
            let condition = resolve_expr(*w.condition, state);
            if condition.error is Some {
                condition
            } else {
                resolve_stmt(*w.body, condition.state)
            }
        },
        Stmt::Return(r) => {
            if state.function == FunctionType::TopLevel {
                reject(state, r.keyword, "Can't return from top-level code."@)
            } else {
                match r.value {
                    Some(e) => if state.function == FunctionType::Initializer {
                        reject(state, r.keyword, "Can't return a value from an initializer."@)
                    } else {
                        resolve_expr(*e, state)
                    },
                    None => accept(state),
                }
            }
        },
        Stmt::Function(f) => {
            let named = declare_and_define(state, f.name);
            if named.error is Some {
                named
            } else {
                resolve_function(f, FunctionType::Function, named.state)
            }
        },
        Stmt::Class(c) => {
            let body = resolve_class(c, State { class: ClassType::Class, ..state });
            Resolved { error: body.error, state: State { class: state.class, ..body.state } }
        },
    }
}

/// Resolves a class declaration inside the class: its name, its
/// superclass, and its methods in the scope of `this`, which lies in the
/// scope of `super` if there is a superclass.
pub open spec fn resolve_class(c: ClassStmt, state: State) -> Resolved
    decreases c,
{
    let named = declare_and_define(state, c.name);
    if named.error is Some {
        named
    } else {
        match c.superclass {
            Some(parent) => if c.name.lexeme@ == parent.name.lexeme@ {
                reject(named.state, parent.name, "A class can't inherit from itself."@)
            } else {
                let above = resolve_variable(
                    State { class: ClassType::Subclass, ..named.state },
                    *parent,
                );
                if above.error is Some {
                    above
                } else {
                    let inner = resolve_methods(
                        c.methods@,
                        0,
                        push_scope(
                            push_scope(above.state, map!["super"@ => true]),
                            map!["this"@ => true],
                        ),
                    );
                    Resolved { error: inner.error, state: pop_scope(pop_scope(inner.state)) }
                }
            },
            None => {
                let inner = resolve_methods(
                    c.methods@,
                    0,
                    push_scope(named.state, map!["this"@ => true]),
                );
                Resolved { error: inner.error, state: pop_scope(inner.state) }
            },
        }
    }
}

/// Resolves the statements from position `i` on. A statement that is
/// rejected does not stop the pass: the diagnostics are gathered, one
/// per line.
pub open spec fn resolve_stmts(
    list: Seq<Stmt>,
    i: int,
    state: State,
    gathered: Option<Seq<char>>,
) -> Resolved
    decreases list, list.len() - i,
{
    if 0 <= i < list.len() {
        let first = resolve_stmt(list[i], state);
        resolve_stmts(list, i + 1, first.state, join(gathered, first.error))
    } else {
        Resolved { error: gathered, state }
    }
}

/// Declares and defines the parameters from position `i` on, up to the
/// first that is rejected.
pub open spec fn declare_parameters(list: Seq<Token>, i: int, state: State) -> Resolved
    decreases list.len() - i,
{
    if 0 <= i < list.len() {
        let first = declare_and_define(state, list[i]);
        if first.error is Some {
            first
        } else {
            declare_parameters(list, i + 1, first.state)
        }
    } else {
        accept(state)
    }
}

/// Resolves a function of kind `kind`: its parameters and its body share
/// one new scope.
pub open spec fn resolve_function(f: FunctionStmt, kind: FunctionType, state: State) -> Resolved
    decreases f,
{
    let entered = push_scope(State { function: kind, ..state }, Map::empty());
    let params = declare_parameters(f.params@, 0, entered);
    let inner = if params.error is Some {
        params
    } else {
        resolve_stmts(f.body@, 0, params.state, None)
    };
    Resolved {
        error: inner.error,
        state: State { function: state.function, ..pop_scope(inner.state) },
    }
}

/// The kind of a method: an initializer if it is named `init`.
pub open spec fn method_kind(f: FunctionStmt) -> FunctionType {
    if f.name.lexeme@ == "init"@ {
        FunctionType::Initializer
    } else {
        FunctionType::Method
    }
}

/// Resolves the methods from position `i` on, up to the first that is
/// rejected.
pub open spec fn resolve_methods(list: Seq<FunctionStmt>, i: int, state: State) -> Resolved
    decreases list, list.len() - i,
{
    if 0 <= i < list.len() {
        let first = resolve_function(list[i], method_kind(list[i]), state);
        if first.error is Some {
            first
        } else {
            resolve_methods(list, i + 1, first.state)
        }
    } else {
        accept(state)
    }
}

} // verus!
