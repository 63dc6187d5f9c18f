//! Environments: the scopes of a running program, each with its
//! bindings and the scope that encloses it. Scopes are addressed by
//! index and are never removed, so a closure can keep the scope of its
//! declaration for as long as it lives, and all that refer to one scope
//! see the same bindings.

use vstd::prelude::*;
use vstd::string::StringExecFns;
use crate::names::NameMap;
use crate::text::{i32_to_string, int_text};
use crate::tokens::Token;
use crate::value::{InterpreterError, InterpreterResult, Value};

verus! {

/// One scope: its bindings and the index of the scope around it.
#[derive(Debug)]
pub struct Scope<'a> {
    pub enclosing: Option<usize>,
    pub values: NameMap<'a, Value<'a>>,
}

/// The mathematical value of a scope.
pub struct ScopeView<'a> {
    pub enclosing: Option<usize>,
    pub values: Map<Seq<char>, Value<'a>>,
}

/// All scopes. The scope with index 0 is the global one.
#[derive(Debug)]
pub struct Environment<'a> {
    pub scopes: Vec<Scope<'a>>,
}

impl<'a> View for Environment<'a> {
    type V = Seq<ScopeView<'a>>;

    open spec fn view(&self) -> Seq<ScopeView<'a>> {
        Seq::new(
            self.scopes@.len(),
            |i: int|
                ScopeView {
                    enclosing: self.scopes@[i].enclosing,
                    values: self.scopes@[i].values.as_map(),
                },
        )
    }
}

/// The scope reached from `scope` by following `depth` links to the
/// enclosing scope, if the chain is that long.
pub open spec fn ancestor(scopes: Seq<ScopeView>, scope: int, depth: nat) -> Option<int>
    decreases depth,
{
    if !(0 <= scope < scopes.len()) {
        None
    } else if depth == 0 {
        Some(scope)
    } else {
        match scopes[scope].enclosing {
            Some(e) => ancestor(scopes, e as int, (depth - 1) as nat),
            None => None,
        }
    }
}

/// The nearest scope that binds `name`, going outward from `scope`. An
/// enclosing scope always has a smaller index than the scope inside it.
pub open spec fn binding_scope(scopes: Seq<ScopeView>, scope: int, name: Seq<char>) -> Option<int>
    decreases scope,
{
    if !(0 <= scope < scopes.len()) {
        None
    } else if scopes[scope].values.contains_key(name) {
        Some(scope)
    } else {
        match scopes[scope].enclosing {
            Some(e) => if e < scope {
                binding_scope(scopes, e as int, name)
            } else {
                None
            },
            None => None,
        }
    }
}

/// The value of `name` as seen from `scope`: that of the nearest
/// binding, going outward.
pub open spec fn get_spec<'a>(scopes: Seq<ScopeView<'a>>, scope: int, name: Seq<char>) -> Option<
    Value<'a>,
> {
    match binding_scope(scopes, scope, name) {
        Some(s) => Some(scopes[s].values[name]),
        None => None,
    }
}

/// The value of `name` in the scope exactly `depth` links out from
/// `scope`, and in no other.
pub open spec fn get_at_spec<'a>(
    scopes: Seq<ScopeView<'a>>,
    scope: int,
    name: Seq<char>,
    depth: nat,
) -> Option<Value<'a>> {
    match ancestor(scopes, scope, depth) {
        Some(s) => if scopes[s].values.contains_key(name) {
            Some(scopes[s].values[name])
        } else {
            None
        },
        None => None,
    }
}

/// The scopes with `name` bound to `value` in scope `s`.
pub open spec fn bind<'a>(scopes: Seq<ScopeView<'a>>, s: int, name: Seq<char>, value: Value<'a>) -> Seq<
    ScopeView<'a>,
> {
    scopes.update(
        s,
        ScopeView { enclosing: scopes[s].enclosing, values: scopes[s].values.insert(name, value) },
    )
}

/// The text of the error for a name that is not bound.
pub open spec fn undefined_variable(name: Token) -> Seq<char> {
    "Undefined variable '"@ + name.lexeme@ + "'.\n[line "@ + int_text(name.line as int) + "]"@
}

/// Builds the error for a name that is not bound.
pub fn undefined_variable_error(name: &Token) -> (r: InterpreterError)
    ensures
        r.message@ == undefined_variable(*name),
{
    let mut message = String::from_str("Undefined variable '");
    message.append(name.lexeme.as_str());
    message.append("'.\n[line ");
    let line = i32_to_string(name.line);
    message.append(line.as_str());
    message.append("]");
    InterpreterError { message }
}

/// A copy of the bindings of one scope.
fn clone_bindings<'a>(values: &NameMap<'a, Value<'a>>) -> (r: NameMap<'a, Value<'a>>)
    requires
        values.wf(),
    ensures
        r.wf(),
        r.as_map() == values.as_map(),
{
    let mut copy: NameMap<'a, Value<'a>> = NameMap::new();
    let mut i: usize = 0;
    assert(copy.keys@ =~= values.keys@.take(0));
    assert(copy.values@ =~= values.values@.take(0));
    while i < values.keys.len()
        invariant
            i <= values.keys@.len(),
            values.wf(),
            copy.wf(),
            copy.keys@ == values.keys@.take(i as int),
            copy.values@ == values.values@.take(i as int),
        decreases values.keys@.len() - i,
    {
        copy.keys.push(values.keys[i]);
        copy.values.push(values.values[i].clone());
        assert(copy.keys@ =~= values.keys@.take(i + 1));
        assert(copy.values@ =~= values.values@.take(i + 1));
        i = i + 1;
    }
    assert(copy.keys@ =~= values.keys@);
    assert(copy.values@ =~= values.values@);
    assert(copy.as_map() =~= values.as_map());
    copy
}

impl<'a> Environment<'a> {
    /// The invariant: in every scope no name is bound twice.
    pub open spec fn wf(&self) -> bool {
        forall|i: int| 0 <= i < self.scopes@.len() ==> (#[trigger] self.scopes@[i]).values.wf()
    }

    /// The global scope alone, with no bindings.
    pub fn new() -> (r: Self)
        ensures
            r.wf(),
            r@ == seq![ScopeView { enclosing: None, values: Map::empty() }],
    {
        let mut scopes: Vec<Scope<'a>> = Vec::new();
        scopes.push(Scope { enclosing: None, values: NameMap::new() });
        let r = Environment { scopes };
        assert(r@ =~= seq![ScopeView { enclosing: None, values: Map::empty() }]);
        r
    }

    /// A copy of all scopes, with their bindings.
    pub fn deep_clone(&self) -> (r: Self)
        requires
            self.wf(),
        ensures
            r.wf(),
            r@ == self@,
    {
        let mut scopes: Vec<Scope<'a>> = Vec::new();
        let mut i: usize = 0;
        while i < self.scopes.len()
            invariant
                i <= self.scopes@.len(),
                self.wf(),
                scopes@.len() == i,
                forall|j: int| 0 <= j < i ==> (#[trigger] scopes@[j]).values.wf(),
                forall|j: int|
                    0 <= j < i ==> (#[trigger] scopes@[j]).enclosing == self.scopes@[j].enclosing
                        && scopes@[j].values.as_map() == self.scopes@[j].values.as_map(),
            decreases self.scopes@.len() - i,
        {
            let values = clone_bindings(&self.scopes[i].values);
            scopes.push(Scope { enclosing: self.scopes[i].enclosing, values });
            i = i + 1;
        }
        let r = Environment { scopes };
        assert(r@ =~= self@);
        r
    }

    /// Adds an empty scope inside `enclosing` and returns its index. If
    /// `enclosing` is no scope, the new scope has none around it.
    pub fn with_enclosing(&mut self, enclosing: usize) -> (r: usize)
        requires
            old(self).wf(),
        ensures
            final(self).wf(),
            r == old(self)@.len(),
            final(self)@ == old(self)@.push(
                ScopeView {
                    enclosing: if enclosing < old(self)@.len() {
                        Some(enclosing)
                    } else {
                        None
                    },
                    values: Map::empty(),
                },
            ),
    {
        let parent = if enclosing < self.scopes.len() {
            Some(enclosing)
        } else {
            None
        };
        let index = self.scopes.len();
        self.scopes.push(Scope { enclosing: parent, values: NameMap::new() });
        assert(final(self)@ =~= old(self)@.push(
            ScopeView { enclosing: parent, values: Map::empty() },
        ));
        index
    }

    /// Binds `name` to `value` in `scope`, whether or not it was bound
    /// there. Nothing happens if `scope` is no scope.
    pub fn define(&mut self, scope: usize, name: &'a str, value: Value<'a>)
        requires
            old(self).wf(),
        ensures
            final(self).wf(),
            final(self)@ == if scope < old(self)@.len() {
                bind(old(self)@, scope as int, name@, value)
            } else {
                old(self)@
            },
    {
        if scope < self.scopes.len() {
            let mut values = NameMap::new();
            let ghost before = self.scopes@[scope as int];
            let old_scope = &mut self.scopes[scope];
            std::mem::swap(&mut old_scope.values, &mut values);
            values.insert(name, value);
            std::mem::swap(&mut self.scopes[scope].values, &mut values);
            assert(final(self)@ =~= bind(old(self)@, scope as int, name@, value));
        }
    }

    /// The index of the nearest scope that binds `name`, going outward
    /// from `scope`.
    pub fn find(&self, scope: usize, name: &str) -> (r: Option<usize>)
        requires
            self.wf(),
        ensures
            match r {
                Some(s) => binding_scope(self@, scope as int, name@) == Some(s as int) && s
                    < self@.len() && self@[s as int].values.contains_key(name@),
                None => binding_scope(self@, scope as int, name@) is None,
            },
    {
        let mut current = scope;
        loop
            invariant
                self.wf(),
                binding_scope(self@, current as int, name@) == binding_scope(
                    self@,
                    scope as int,
                    name@,
                ),
            decreases current,
        {
            if current >= self.scopes.len() {
                return None;
            }
            if self.scopes[current].values.contains_key(name) {
                return Some(current);
            }
            match self.scopes[current].enclosing {
                Some(e) => {
                    if e < current {
                        current = e;
                    } else {
                        return None;
                    }
                },
                None => {
                    return None;
                },
            }
        }
    }

    /// The value of `name` as seen from `scope`.
    pub fn get(&self, scope: usize, name: &str) -> (r: Option<Value<'a>>)
        requires
            self.wf(),
        ensures
            r == get_spec(self@, scope as int, name@),
    {
        match self.find(scope, name) {
            Some(s) => match self.scopes[s].values.get(name) {
                Some(v) => Some(v.clone()),
                None => None,
            },
            None => None,
        }
    }

    /// Gives `name` the value `value` in the nearest scope that binds
    /// it, going outward from `scope`; an error if none does.
    pub fn assign(&mut self, scope: usize, name: &'a Token, value: Value<'a>) -> (r: Result<
        InterpreterResult<'a>,
        InterpreterError,
    >)
        requires
            old(self).wf(),
        ensures
            final(self).wf(),
            match binding_scope(old(self)@, scope as int, name.lexeme@) {
                Some(s) => r is Ok && r->Ok_0 is Done && final(self)@ == bind(
                    old(self)@,
                    s,
                    name.lexeme@,
                    value,
                ),
                None => r is Err && r->Err_0.message@ == undefined_variable(*name) && final(self)@
                    == old(self)@,
            },
    {
        match self.find(scope, name.lexeme.as_str()) {
            Some(s) => {
                self.define(s, name.lexeme.as_str(), value);
                Ok(InterpreterResult::Done)
            },
            None => Err(undefined_variable_error(name)),
        }
    }

    /// The scope `depth` links out from `scope`.
    pub fn ancestor(&self, scope: usize, depth: usize) -> (r: Option<usize>)
        ensures
            match r {
                Some(s) => ancestor(self@, scope as int, depth as nat) == Some(s as int) && s
                    < self@.len(),
                None => ancestor(self@, scope as int, depth as nat) is None,
            },
    {
        let mut current = scope;
        let mut left = depth;
        loop
            invariant
                ancestor(self@, current as int, left as nat) == ancestor(
                    self@,
                    scope as int,
                    depth as nat,
                ),
            decreases left,
        {
            if current >= self.scopes.len() {
                return None;
            }
            if left == 0 {
                return Some(current);
            }
            match self.scopes[current].enclosing {
                Some(e) => {
                    current = e;
                    left = left - 1;
                },
                None => {
                    return None;
                },
            }
        }
    }

    /// The value of `name` in the scope exactly `depth` links out from
    /// `scope`.
    pub fn get_at(&self, scope: usize, name: &str, depth: usize) -> (r: Option<Value<'a>>)
        requires
            self.wf(),
        ensures
            r == get_at_spec(self@, scope as int, name@, depth as nat),
    {
        match self.ancestor(scope, depth) {
            Some(s) => match self.scopes[s].values.get(name) {
                Some(v) => Some(v.clone()),
                None => None,
            },
            None => None,
        }
    }

    /// Gives `name` the value `value` in the scope exactly `depth`
    /// links out from `scope`; an error if that scope does not bind it.
    pub fn assign_at(&mut self, scope: usize, name: &'a Token, value: Value<'a>, depth: usize) -> (r:
        Result<InterpreterResult<'a>, InterpreterError>)
        requires
            old(self).wf(),
        ensures
            final(self).wf(),
            match ancestor(old(self)@, scope as int, depth as nat) {
                Some(s) if old(self)@[s].values.contains_key(name.lexeme@) => r is Ok && r->Ok_0
                    is Done && final(self)@ == bind(old(self)@, s, name.lexeme@, value),
                _ => r is Err && r->Err_0.message@ == undefined_variable(*name) && final(self)@
                    == old(self)@,
            },
    {
        match self.ancestor(scope, depth) {
            Some(s) => {
                if self.scopes[s].values.contains_key(name.lexeme.as_str()) {
                    self.define(s, name.lexeme.as_str(), value);
                    Ok(InterpreterResult::Done)
                } else {
                    Err(undefined_variable_error(name))
                }
            },
            None => Err(undefined_variable_error(name)),
        }
    }
}

/// Binding a name changes no link between scopes: the chain from any
/// scope is as before.
pub proof fn lemma_bind_keeps_ancestors(
    scopes: Seq<ScopeView>,
    s: int,
    name: Seq<char>,
    value: Value,
    from: int,
    depth: nat,
)
    requires
        0 <= s < scopes.len(),
    ensures
        ancestor(bind(scopes, s, name, value), from, depth) == ancestor(scopes, from, depth),
    decreases depth,
{
    if 0 <= from < scopes.len() && depth > 0 {
        match scopes[from].enclosing {
            Some(e) => {
                lemma_bind_keeps_ancestors(scopes, s, name, value, e as int, (depth - 1) as nat);
            },
            None => {},
        }
    }
}

/// A value bound in a scope is what every reference that resolves to
/// that scope reads, whatever scope the reference stands in.
pub proof fn lemma_get_at_reads_binding(
    scopes: Seq<ScopeView>,
    s: int,
    name: Seq<char>,
    value: Value,
    from: int,
    depth: nat,
)
    requires
        0 <= s < scopes.len(),
        ancestor(scopes, from, depth) == Some(s),
    ensures
        get_at_spec(bind(scopes, s, name, value), from, name, depth) == Some(value),
{
    lemma_bind_keeps_ancestors(scopes, s, name, value, from, depth);
}

/// Two closures that share a scope share its bindings: what one writes
/// through its own chain, the other reads through its own.
pub proof fn lemma_shared_binding(
    scopes: Seq<ScopeView>,
    name: Seq<char>,
    value: Value,
    writer: int,
    writer_depth: nat,
    reader: int,
    reader_depth: nat,
)
    requires
        ancestor(scopes, writer, writer_depth) is Some,
        ancestor(scopes, reader, reader_depth) == ancestor(scopes, writer, writer_depth),
    ensures
        get_at_spec(
            bind(scopes, ancestor(scopes, writer, writer_depth)->0, name, value),
            reader,
            name,
            reader_depth,
        ) == Some(value),
{
    let s = ancestor(scopes, writer, writer_depth)->0;
    lemma_ancestor_is_scope(scopes, writer, writer_depth);
    lemma_get_at_reads_binding(scopes, s, name, value, reader, reader_depth);
}

/// An ancestor is a scope.
pub proof fn lemma_ancestor_is_scope(scopes: Seq<ScopeView>, from: int, depth: nat)
    ensures
        ancestor(scopes, from, depth) matches Some(s) ==> 0 <= s < scopes.len(),
    decreases depth,
{
    if 0 <= from < scopes.len() && depth > 0 {
        match scopes[from].enclosing {
            Some(e) => {
                lemma_ancestor_is_scope(scopes, e as int, (depth - 1) as nat);
            },
            None => {},
        }
    }
}

} // verus!
