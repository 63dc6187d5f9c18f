//! The resolver: a static pass over the syntax tree before evaluation.

use vstd::prelude::*;
use vstd::string::StringExecFns;
use crate::expression::Expression;
use crate::interpreter::{Interpreter, Store};
use crate::names::NameMap;
use crate::resolution;
use crate::resolution::{ClassType, FunctionType, Resolved, Scope, State};
use crate::text::i32_to_string;
use crate::tokens::Token;

mod expressions;
mod statements;

verus! {

#[derive(Debug)]
pub struct ResolverError {
    pub message: String,
}

/// The resolver: the stack of open scopes and the kinds of the enclosing
/// function and class.
pub struct Resolver<'a> {
    scopes: Vec<NameMap<'a, bool>>,
    current_function: FunctionType,
    current_class: ClassType,
}

/// The scopes as mathematical maps, outermost first.
pub open spec fn scopes_view(scopes: Seq<NameMap<bool>>) -> Seq<Scope> {
    Seq::new(scopes.len(), |i: int| scopes[i].as_map())
}

/// Whether the evaluator `after` is the evaluator `before` but for the
/// depths recorded: its registers are the same, its store differs in
/// the recorded depths at most, and it is well-formed if it was.
pub open spec fn records_only(before: Interpreter, after: Interpreter) -> bool {
    &&& after.registers() == before.registers()
    &&& after.store() == (Store { locals: after.locals@, ..before.store() })
    &&& before.wf() ==> after.wf()
}

/// The diagnostic of an outcome, if it is a rejection.
pub open spec fn outcome(r: Result<(), ResolverError>) -> Option<Seq<char>> {
    match r {
        Ok(_) => None,
        Err(e) => Some(e.message@),
    }
}

/// If none of the scopes from `i` on declares `name`, the innermost
/// scope that declares it is among the first `i`.
pub proof fn lemma_innermost_skip(scopes: Seq<Scope>, name: Seq<char>, i: int)
    requires
        0 <= i <= scopes.len(),
        forall|j: int| i <= j < scopes.len() ==> !(#[trigger] scopes[j]).contains_key(name),
    ensures
        resolution::innermost(scopes, name) == resolution::innermost(scopes.take(i), name),
    decreases scopes.len() - i,
{
    if i == scopes.len() {
        assert(scopes.take(i) =~= scopes);
    } else {
        assert(!scopes.last().contains_key(name));
        lemma_innermost_skip(scopes.drop_last(), name, i);
        assert(scopes.drop_last().take(i) =~= scopes.take(i));
    }
}

/// A reference that stands `k` scopes inside the scope that declares its
/// name, with no declaration of that name in between, resolves to depth
/// `k`.
pub proof fn lemma_depth_counts_scopes_between(scopes: Seq<Scope>, name: Seq<char>, k: int)
    requires
        0 <= k < scopes.len(),
        scopes[scopes.len() - 1 - k].contains_key(name),
        forall|j: int|
            scopes.len() - 1 - k < j < scopes.len() ==> !(#[trigger] scopes[j]).contains_key(name),
    ensures
        resolution::depth_of(scopes, name) == Some(k),
{
    let i = scopes.len() - k;
    lemma_innermost_skip(scopes, name, i);
    assert(scopes.take(i).last() == scopes[i - 1]);
}

impl<'a> Resolver<'a> {
    /// The resolver's invariant: every open scope is a well-formed map.
    pub closed spec fn wf(&self) -> bool {
        forall|i: int| 0 <= i < self.scopes@.len() ==> (#[trigger] self.scopes@[i]).wf()
    }

    /// The resolution state, given the depths recorded so far.
    pub closed spec fn state(&self, locals: Map<usize, usize>) -> State {
        State {
            scopes: scopes_view(self.scopes@),
            locals,
            function: self.current_function,
            class: self.current_class,
        }
    }

    /// The state of a resolver holds the depths it is given, as many
    /// scopes as are open, and the kinds of the enclosing function and
    /// class.
    pub proof fn lemma_state_parts(&self, locals: Map<usize, usize>)
        ensures
            self.state(locals).locals == locals,
            self.state(locals).scopes.len() == self.depth(),
            self.state(locals).function == self.kinds().0,
            self.state(locals).class == self.kinds().1,
    {
    }

    /// The number of open scopes.
    pub closed spec fn depth(&self) -> nat {
        self.scopes@.len()
    }

    /// The kinds of the enclosing function and class.
    pub closed spec fn kinds(&self) -> (FunctionType, ClassType) {
        (self.current_function, self.current_class)
    }

    /// A resolver at top level: no open scope, outside any function or
    /// class.
    pub fn new() -> (r: Self)
        ensures
            r.wf(),
            forall|locals: Map<usize, usize>|
                #[trigger] r.state(locals) == (State {
                    scopes: Seq::empty(),
                    locals,
                    function: FunctionType::TopLevel,
                    class: ClassType::TopLevel,
                }),
    {
        let r = Resolver {
            scopes: Vec::new(),
            current_function: FunctionType::TopLevel,
            current_class: ClassType::TopLevel,
        };
        assert(scopes_view(r.scopes@) =~= Seq::empty());
        r
    }

    pub(crate) fn function_type(&self) -> (r: FunctionType)
        ensures
            r == self.kinds().0,
            forall|locals: Map<usize, usize>| r == (#[trigger] self.state(locals)).function,
    {
        self.current_function
    }

    pub(crate) fn class_type(&self) -> (r: ClassType)
        ensures
            r == self.kinds().1,
            forall|locals: Map<usize, usize>| r == (#[trigger] self.state(locals)).class,
    {
        self.current_class
    }

    pub(crate) fn set_function_type(&mut self, kind: FunctionType)
        requires
            old(self).wf(),
        ensures
            final(self).wf(),
            forall|locals: Map<usize, usize>|
                #![trigger final(self).state(locals)]
                #![trigger old(self).state(locals)]
                final(self).state(locals) == (State {
                    function: kind,
                    ..old(self).state(locals)
                }),
            final(self).depth() == old(self).depth(),
            final(self).kinds() == (kind, old(self).kinds().1),
    {
        self.current_function = kind;
    }

    pub(crate) fn set_class_type(&mut self, kind: ClassType)
        requires
            old(self).wf(),
        ensures
            final(self).wf(),
            forall|locals: Map<usize, usize>|
                #![trigger final(self).state(locals)]
                #![trigger old(self).state(locals)]
                final(self).state(locals) == (State {
                    class: kind,
                    ..old(self).state(locals)
                }),
            final(self).depth() == old(self).depth(),
            final(self).kinds() == (old(self).kinds().0, kind),
    {
        self.current_class = kind;
    }

    /// Opens a scope.
    pub(crate) fn begin_scope(&mut self)
        requires
            old(self).wf(),
        ensures
            final(self).wf(),
            forall|locals: Map<usize, usize>|
                #![trigger final(self).state(locals)]
                #![trigger old(self).state(locals)]
                final(self).state(locals) == resolution::push_scope(
                    old(self).state(locals),
                    Map::empty(),
                ),
            final(self).depth() == old(self).depth() + 1,
            final(self).kinds() == old(self).kinds(),
    {
        self.scopes.push(NameMap::new());
        assert(scopes_view(self.scopes@) =~= scopes_view(old(self).scopes@).push(Map::empty()));
    }

    /// Opens a scope in which `name` is declared and defined.
    pub(crate) fn begin_scope_with(&mut self, name: &'a str)
        requires
            old(self).wf(),
        ensures
            final(self).wf(),
            forall|locals: Map<usize, usize>|
                #![trigger final(self).state(locals)]
                #![trigger old(self).state(locals)]
                final(self).state(locals) == resolution::push_scope(
                    old(self).state(locals),
                    map![name@ => true],
                ),
            final(self).depth() == old(self).depth() + 1,
            final(self).kinds() == old(self).kinds(),
    {
        let mut scope: NameMap<'a, bool> = NameMap::new();
        scope.insert(name, true);
        assert(scope.as_map() =~= map![name@ => true]);
        self.scopes.push(scope);
        assert(scopes_view(self.scopes@) =~= scopes_view(old(self).scopes@).push(
            map![name@ => true],
        ));
    }

    /// Closes the innermost scope.
    pub(crate) fn end_scope(&mut self)
        requires
            old(self).wf(),
            old(self).depth() > 0,
        ensures
            final(self).wf(),
            forall|locals: Map<usize, usize>|
                #![trigger final(self).state(locals)]
                #![trigger old(self).state(locals)]
                final(self).state(locals) == resolution::pop_scope(
                    old(self).state(locals),
                ),
            final(self).depth() == old(self).depth() - 1,
            final(self).kinds() == old(self).kinds(),
    {
        self.scopes.pop();
        assert(scopes_view(self.scopes@) =~= scopes_view(old(self).scopes@).drop_last());
    }

    /// Declares `token` in the innermost scope.
    pub(crate) fn declare(&mut self, token: &'a Token) -> (r: Result<(), ResolverError>)
        requires
            old(self).wf(),
        ensures
            final(self).wf(),
            forall|locals: Map<usize, usize>|
                #![trigger final(self).state(locals)]
                #![trigger old(self).state(locals)]
                (Resolved { error: outcome(r), state: final(self).state(locals) })
                    == resolution::declare(old(self).state(locals), *token),
            final(self).depth() == old(self).depth(),
            final(self).kinds() == old(self).kinds(),
    {
        let n = self.scopes.len();
        if n > 0 {
            if self.scopes[n - 1].contains_key(token.lexeme.as_str()) {
                return self.make_resolve_error(
                    token,
                    "Already a variable with this name in this scope.",
                );
            }
            let mut scope = self.scopes.pop().unwrap();
            scope.insert(token.lexeme.as_str(), false);
            self.scopes.push(scope);
            assert(scopes_view(self.scopes@) =~= scopes_view(old(self).scopes@).update(
                n - 1,
                old(self).scopes@[n - 1].as_map().insert(token.lexeme@, false),
            ));
        }
        Ok(())
    }

    /// Marks `token` as defined in the innermost scope.
    pub(crate) fn define(&mut self, token: &'a Token) -> (r: Result<(), ResolverError>)
        requires
            old(self).wf(),
        ensures
            final(self).wf(),
            forall|locals: Map<usize, usize>|
                #![trigger final(self).state(locals)]
                #![trigger old(self).state(locals)]
                (Resolved { error: outcome(r), state: final(self).state(locals) })
                    == resolution::define(old(self).state(locals), *token),
            final(self).depth() == old(self).depth(),
            final(self).kinds() == old(self).kinds(),
    {
        let n = self.scopes.len();
        if n > 0 {
            if !self.scopes[n - 1].contains_key(token.lexeme.as_str()) {
                return self.make_resolve_error(token, "Variable not declared in this scope.");
            }
            let mut scope = self.scopes.pop().unwrap();
            scope.insert(token.lexeme.as_str(), true);
            self.scopes.push(scope);
            assert(scopes_view(self.scopes@) =~= scopes_view(old(self).scopes@).update(
                n - 1,
                old(self).scopes@[n - 1].as_map().insert(token.lexeme@, true),
            ));
        }
        Ok(())
    }

    /// Whether `name` is declared in the innermost scope but not yet
    /// defined.
    pub(crate) fn is_being_initialized(&self, name: &str) -> (r: bool)
        requires
            self.wf(),
        ensures
            forall|locals: Map<usize, usize>|
                r == ({
                    let state = #[trigger] self.state(locals);
                    state.scopes.len() > 0 && state.scopes.last().contains_key(name@)
                        && !state.scopes.last()[name@]
                }),
    {
        let n = self.scopes.len();
        if n == 0 {
            return false;
        }
        match self.scopes[n - 1].get(name) {
            Some(defined) => !*defined,
            None => false,
        }
    }

    /// Records in the evaluator the depth at which `name` resolves for
    /// the expression `expr`, if an open scope declares it.
    pub(crate) fn resolve_local(
        &mut self,
        interpreter: &mut Interpreter,
        expr: &Expression,
        name: &Token,
    ) -> (r: Result<(), ResolverError>)
        requires
            old(self).wf(),
            !(*expr is Literal),
        ensures
            final(self).wf(),
            records_only(*old(interpreter), *final(interpreter)),
            r is Ok,
            final(self).depth() == old(self).depth(),
            final(self).kinds() == old(self).kinds(),
            final(self).state(final(interpreter).locals@) == resolution::resolve_local(
                old(self).state(old(interpreter).locals@),
                expr.id_spec(),
                name.lexeme@,
            ),
    {
        let n = self.scopes.len();
        let mut i = n;
        let ghost views = scopes_view(self.scopes@);
        while i > 0
            invariant
                i <= n,
                n == self.scopes@.len(),
                self.wf(),
                records_only(*old(interpreter), *interpreter),
                *self == *old(self),
                *interpreter == *old(interpreter),
                !(*expr is Literal),
                views == scopes_view(self.scopes@),
                forall|j: int| i <= j < n ==> !(#[trigger] views[j]).contains_key(name.lexeme@),
            decreases i,
        {
            i = i - 1;
            assert(views[i as int] == self.scopes@[i as int].as_map());
            if self.scopes[i].contains_key(name.lexeme.as_str()) {
                proof {
                    lemma_innermost_skip(views, name.lexeme@, i + 1);
                    assert(views.take(i + 1).last() == views[i as int]);
                    assert(views.take(i + 1).len() == i + 1);
                    assert(resolution::innermost(views, name.lexeme@) == Some(i as int));
                }
                interpreter.resolve(expr, n - 1 - i);
                return Ok(());
            }
        }
        proof {
            lemma_innermost_skip(views, name.lexeme@, 0);
        }
        Ok(())
    }

    pub(crate) fn make_resolve_error(&self, token: &Token, message: &str) -> (r: Result<
        (),
        ResolverError,
    >)
        ensures
            outcome(r) == Some(resolution::error_at(*token, message@)),
    {
        let mut text = String::from_str("[line ");
        let line = i32_to_string(token.line);
        text.append(line.as_str());
        text.append("] Error at '");
        text.append(token.lexeme.as_str());
        text.append("': ");
        text.append(message);
        Err(ResolverError { message: text })
    }
}

} // verus!
