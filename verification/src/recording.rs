//! Which entries the resolver makes in the table of depths: only
//! those of the nodes that refer to a name, which are the variables,
//! the assignments, `this` and `super`.

use vstd::prelude::*;
use crate::expression::{Assign, Binary, Call, Expression, Logical, SetExpr};
use crate::resolution::{
    ClassType, FunctionType, State, declare, declare_and_define, declare_parameters, depth_of,
    join, method_kind, push_scope, resolve_class, resolve_expr, resolve_exprs, resolve_function,
    resolve_local, resolve_methods, resolve_stmt, resolve_stmts, resolve_variable,
};
use crate::stmt::{ClassStmt, FunctionStmt, IfStmt, ReturnStmt, Stmt, VarStmt, WhileStmt};
use crate::tokens::Token;

verus! {

/// The identifiers of the nodes of an expression that refer to a name.
pub open spec fn references(e: Expression) -> Set<usize>
    decreases e,
{
    match e {
        Expression::Variable(v) => set![v.id],
        Expression::Assign(a) => references(*a.value).insert(a.id),
        Expression::Binary(b) => references(*b.left).union(references(*b.right)),
        Expression::Call(c) => references(*c.callee).union(list_references(c.arguments@, 0)),
        Expression::Get(g) => references(*g.object),
        Expression::Grouping(g) => references(*g.expression),
        Expression::Literal(_) => Set::empty(),
        Expression::Logical(b) => references(*b.left).union(references(*b.right)),
        Expression::SetExpr(s) => references(*s.value).union(references(*s.object)),
        Expression::Super(s) => set![s.id],
        Expression::This(t) => set![t.id],
        Expression::Unary(u) => references(*u.right),
    }
}

/// Those of the expressions from position `i` on.
pub open spec fn list_references(list: Seq<Expression>, i: int) -> Set<usize>
    decreases list, list.len() - i,
{
    if 0 <= i < list.len() {
        references(list[i]).union(list_references(list, i + 1))
    } else {
        Set::empty()
    }
}

/// Those of an optional expression.
pub open spec fn optional_references(e: Option<Box<Expression>>) -> Set<usize> {
    match e {
        Some(e) => references(*e),
        None => Set::empty(),
    }
}

/// The identifiers of the nodes of a statement that refer to a name.
/// The superclass of a class is such a node.
pub open spec fn stmt_references(s: Stmt) -> Set<usize>
    decreases s,
{
    match s {
        Stmt::Expression(e) => references(*e.expression),
        Stmt::Print(p) => references(*p.expression),
        Stmt::Var(v) => optional_references(v.initializer),
        Stmt::Block(b) => stmts_references(b.statements@, 0),
        Stmt::If(i) => references(*i.condition).union(stmt_references(*i.then_branch)).union(
            match i.else_branch {
                Some(e) => stmt_references(*e),
                None => Set::empty(),
            },
        ),
        Stmt::While(w) => references(*w.condition).union(stmt_references(*w.body)),
        Stmt::Return(r) => optional_references(r.value),
        Stmt::Function(f) => function_references(f),
        Stmt::Class(c) => class_references(c),
    }
}

/// Those of the statements from position `i` on.
pub open spec fn stmts_references(list: Seq<Stmt>, i: int) -> Set<usize>
    decreases list, list.len() - i,
{
    if 0 <= i < list.len() {
        stmt_references(list[i]).union(stmts_references(list, i + 1))
    } else {
        Set::empty()
    }
}

/// Those of the body of a function.
pub open spec fn function_references(f: FunctionStmt) -> Set<usize>
    decreases f,
{
    stmts_references(f.body@, 0)
}

/// Those of the methods from position `i` on.
pub open spec fn methods_references(list: Seq<FunctionStmt>, i: int) -> Set<usize>
    decreases list, list.len() - i,
{
    if 0 <= i < list.len() {
        function_references(list[i]).union(methods_references(list, i + 1))
    } else {
        Set::empty()
    }
}

/// Those of a class: its superclass and those of its methods.
pub open spec fn class_references(c: ClassStmt) -> Set<usize>
    decreases c,
{
    (match c.superclass {
        Some(parent) => set![parent.id],
        None => Set::empty(),
    }).union(methods_references(c.methods@, 0))
}

/// Whether the table `after` is the table `before` but for the entries
/// of `ids`: every other identifier has the entry that it had, or none
/// as before.
#[verifier::opaque]
pub open spec fn touches_only(
    before: Map<usize, usize>,
    after: Map<usize, usize>,
    ids: Set<usize>,
) -> bool {
    forall|id: usize| !ids.contains(id) ==> #[trigger] kept(before, after, id)
}

/// Whether `id` has in `after` the entry that it has in `before`, or
/// none as there.
pub open spec fn kept(before: Map<usize, usize>, after: Map<usize, usize>, id: usize) -> bool {
    &&& after.contains_key(id) == before.contains_key(id)
    &&& before.contains_key(id) ==> after[id] == before[id]
}

/// An identifier outside the set has the entry that it had, or none as
/// before.
pub proof fn lemma_other_entry(
    before: Map<usize, usize>,
    after: Map<usize, usize>,
    ids: Set<usize>,
    id: usize,
)
    requires
        touches_only(before, after, ids),
        !ids.contains(id),
    ensures
        after.contains_key(id) == before.contains_key(id),
        before.contains_key(id) ==> after[id] == before[id],
{
    reveal(touches_only);
    assert(kept(before, after, id));
}

/// A table that stays as it is touches nothing.
pub proof fn lemma_untouched(table: Map<usize, usize>, ids: Set<usize>)
    ensures
        touches_only(table, table, ids),
{
    reveal(touches_only);
}

/// One more entry touches its identifier only.
pub proof fn lemma_entry(table: Map<usize, usize>, id: usize, depth: usize, ids: Set<usize>)
    requires
        ids.contains(id),
    ensures
        touches_only(table, table.insert(id, depth), ids),
{
    reveal(touches_only);
}

/// What two passes touch, one after the other, is what either touches.
pub proof fn lemma_then(
    a: Map<usize, usize>,
    b: Map<usize, usize>,
    c: Map<usize, usize>,
    first: Set<usize>,
    second: Set<usize>,
)
    requires
        touches_only(a, b, first),
        touches_only(b, c, second),
    ensures
        touches_only(a, c, first.union(second)),
{
    reveal(touches_only);
    assert forall|id: usize| !first.union(second).contains(id) implies #[trigger] kept(
        a,
        c,
        id,
    ) by {
        assert(kept(a, b, id));
        assert(kept(b, c, id));
    }
}

/// Two passes that touch the same identifiers.
pub proof fn lemma_then_same(
    a: Map<usize, usize>,
    b: Map<usize, usize>,
    c: Map<usize, usize>,
    ids: Set<usize>,
)
    requires
        touches_only(a, b, ids),
        touches_only(b, c, ids),
    ensures
        touches_only(a, c, ids),
{
    reveal(touches_only);
    assert forall|id: usize| !ids.contains(id) implies #[trigger] kept(a, c, id) by {
        assert(kept(a, b, id));
        assert(kept(b, c, id));
    }
}

/// What touches only some identifiers touches only those of a larger
/// set: one with more on the right.
pub proof fn lemma_more_right(
    a: Map<usize, usize>,
    b: Map<usize, usize>,
    ids: Set<usize>,
    more: Set<usize>,
)
    requires
        touches_only(a, b, ids),
    ensures
        touches_only(a, b, ids.union(more)),
{
    reveal(touches_only);
    assert forall|id: usize| !ids.union(more).contains(id) implies #[trigger] kept(a, b, id) by {
        assert(!ids.contains(id));
    }
}

/// The same with more on the left.
pub proof fn lemma_more_left(
    a: Map<usize, usize>,
    b: Map<usize, usize>,
    ids: Set<usize>,
    more: Set<usize>,
)
    requires
        touches_only(a, b, ids),
    ensures
        touches_only(a, b, more.union(ids)),
{
    reveal(touches_only);
    assert forall|id: usize| !more.union(ids).contains(id) implies #[trigger] kept(a, b, id) by {
        assert(!ids.contains(id));
    }
}

/// The same with one more identifier.
pub proof fn lemma_one_more(
    a: Map<usize, usize>,
    b: Map<usize, usize>,
    ids: Set<usize>,
    id: usize,
)
    requires
        touches_only(a, b, ids),
    ensures
        touches_only(a, b, ids.insert(id)),
{
    reveal(touches_only);
    assert forall|other: usize| !ids.insert(id).contains(other) implies #[trigger] kept(
        a,
        b,
        other,
    ) by {
        assert(!ids.contains(other));
    }
}

/// Declaring parameters records no depth.
pub proof fn lemma_parameters_record_nothing(list: Seq<Token>, i: int, state: State)
    ensures
        declare_parameters(list, i, state).state.locals == state.locals,
    decreases list.len() - i,
{
    if 0 <= i < list.len() {
        let first = declare_and_define(state, list[i]);
        if first.error is None {
            lemma_parameters_record_nothing(list, i + 1, first.state);
        }
    }
}

/// Resolving a reference records at most the entry of its node.
pub proof fn lemma_reference_records(state: State, id: usize, name: Seq<char>, ids: Set<usize>)
    requires
        ids.contains(id),
    ensures
        touches_only(state.locals, resolve_local(state, id, name).locals, ids),
{
    match depth_of(state.scopes, name) {
        Some(d) => {
            lemma_entry(state.locals, id, d as usize, ids);
        },
        None => {
            lemma_untouched(state.locals, ids);
        },
    }
}

/// Resolving an expression records entries of its references only.
pub proof fn lemma_expr_records(e: Expression, state: State)
    ensures
        touches_only(state.locals, resolve_expr(e, state).state.locals, references(e)),
    decreases e, 0nat,
{
    let ids = references(e);
    let table = state.locals;
    match e {
        Expression::Variable(v) => {
            lemma_untouched(table, ids);
            lemma_reference_records(state, v.id, v.name.lexeme@, ids);
        },
        Expression::Assign(a) => {
            lemma_assign_records(a, state);
        },
        Expression::Binary(b) => {
            lemma_binary_records(b, state);
        },
        Expression::Call(c) => {
            lemma_call_records(c, state);
        },
        Expression::Get(g) => {
            lemma_expr_records(*g.object, state);
        },
        Expression::Grouping(g) => {
            lemma_expr_records(*g.expression, state);
        },
        Expression::Literal(_) => {
            lemma_untouched(table, ids);
        },
        Expression::Logical(b) => {
            lemma_logical_records(b, state);
        },
        Expression::SetExpr(s) => {
            lemma_set_records(s, state);
        },
        Expression::Super(s) => {
            lemma_untouched(table, ids);
            lemma_reference_records(state, s.id, s.keyword.lexeme@, ids);
        },
        Expression::This(t) => {
            lemma_untouched(table, ids);
            lemma_reference_records(state, t.id, t.keyword.lexeme@, ids);
        },
        Expression::Unary(u) => {
            lemma_expr_records(*u.right, state);
        },
    }
}

proof fn lemma_assign_records(a: Assign, state: State)
    ensures
        touches_only(
            state.locals,
            resolve_expr(Expression::Assign(a), state).state.locals,
            references(Expression::Assign(a)),
        ),
    decreases a,
{
    let ids = references(Expression::Assign(a));
    let value = resolve_expr(*a.value, state);
    lemma_expr_records(*a.value, state);
    lemma_one_more(state.locals, value.state.locals, references(*a.value), a.id);
    if value.error is None {
        let after = resolve_local(value.state, a.id, a.name.lexeme@);
        lemma_reference_records(value.state, a.id, a.name.lexeme@, ids);
        lemma_then_same(state.locals, value.state.locals, after.locals, ids);
    }
}

proof fn lemma_binary_records(x: Binary, state: State)
    ensures
        touches_only(
            state.locals,
            resolve_expr(Expression::Binary(x), state).state.locals,
            references(Expression::Binary(x)),
        ),
    decreases x,
{
    let one = resolve_expr(*x.left, state);
    lemma_expr_records(*x.left, state);
    if one.error is Some {
        lemma_more_right(
            state.locals,
            one.state.locals,
            references(*x.left),
            references(*x.right),
        );
    } else {
        let two = resolve_expr(*x.right, one.state);
        lemma_expr_records(*x.right, one.state);
        lemma_then(
            state.locals,
            one.state.locals,
            two.state.locals,
            references(*x.left),
            references(*x.right),
        );
    }
}

proof fn lemma_logical_records(x: Logical, state: State)
    ensures
        touches_only(
            state.locals,
            resolve_expr(Expression::Logical(x), state).state.locals,
            references(Expression::Logical(x)),
        ),
    decreases x,
{
    let one = resolve_expr(*x.left, state);
    lemma_expr_records(*x.left, state);
    if one.error is Some {
        lemma_more_right(
            state.locals,
            one.state.locals,
            references(*x.left),
            references(*x.right),
        );
    } else {
        let two = resolve_expr(*x.right, one.state);
        lemma_expr_records(*x.right, one.state);
        lemma_then(
            state.locals,
            one.state.locals,
            two.state.locals,
            references(*x.left),
            references(*x.right),
        );
    }
}

proof fn lemma_set_records(x: SetExpr, state: State)
    ensures
        touches_only(
            state.locals,
            resolve_expr(Expression::SetExpr(x), state).state.locals,
            references(Expression::SetExpr(x)),
        ),
    decreases x,
{
    let one = resolve_expr(*x.value, state);
    lemma_expr_records(*x.value, state);
    if one.error is Some {
        lemma_more_right(
            state.locals,
            one.state.locals,
            references(*x.value),
            references(*x.object),
        );
    } else {
        let two = resolve_expr(*x.object, one.state);
        lemma_expr_records(*x.object, one.state);
        lemma_then(
            state.locals,
            one.state.locals,
            two.state.locals,
            references(*x.value),
            references(*x.object),
        );
    }
}

proof fn lemma_call_records(c: Call, state: State)
    ensures
        touches_only(
            state.locals,
            resolve_expr(Expression::Call(c), state).state.locals,
            references(Expression::Call(c)),
        ),
    decreases c,
{
    let callee = resolve_expr(*c.callee, state);
    let rest = list_references(c.arguments@, 0);
    lemma_expr_records(*c.callee, state);
    if callee.error is Some {
        lemma_more_right(state.locals, callee.state.locals, references(*c.callee), rest);
    } else {
        let all = resolve_exprs(c.arguments@, 0, callee.state);
        lemma_exprs_records(c.arguments@, 0, callee.state);
        lemma_then(
            state.locals,
            callee.state.locals,
            all.state.locals,
            references(*c.callee),
            rest,
        );
    }
}

/// Resolving the expressions from position `i` on records entries of
/// their references only.
pub proof fn lemma_exprs_records(list: Seq<Expression>, i: int, state: State)
    ensures
        touches_only(
            state.locals,
            resolve_exprs(list, i, state).state.locals,
            list_references(list, i),
        ),
    decreases list, list.len() - i,
{
    if 0 <= i < list.len() {
        let first = resolve_expr(list[i], state);
        let rest = list_references(list, i + 1);
        lemma_expr_records(list[i], state);
        if first.error is Some {
            lemma_more_right(state.locals, first.state.locals, references(list[i]), rest);
        } else {
            let all = resolve_exprs(list, i + 1, first.state);
            lemma_exprs_records(list, i + 1, first.state);
            lemma_then(
                state.locals,
                first.state.locals,
                all.state.locals,
                references(list[i]),
                rest,
            );
        }
    } else {
        lemma_untouched(state.locals, list_references(list, i));
    }
}

/// Resolving a statement records entries of its references only.
pub proof fn lemma_stmt_records(s: Stmt, state: State)
    ensures
        touches_only(state.locals, resolve_stmt(s, state).state.locals, stmt_references(s)),
    decreases s, 0nat,
{
    match s {
        Stmt::Expression(e) => {
            lemma_expr_records(*e.expression, state);
        },
        Stmt::Print(p) => {
            lemma_expr_records(*p.expression, state);
        },
        Stmt::Var(v) => {
            lemma_var_records(v, state);
        },
        Stmt::Block(b) => {
            lemma_stmts_records(b.statements@, 0, push_scope(state, Map::empty()), None);
        },
        Stmt::If(i) => {
            lemma_if_records(i, state);
        },
        Stmt::While(w) => {
            lemma_while_records(w, state);
        },
        Stmt::Return(r) => {
            lemma_return_records(r, state);
        },
        Stmt::Function(f) => {
            let named = declare_and_define(state, f.name);
            lemma_untouched(state.locals, stmt_references(s));
            if named.error is None {
                lemma_function_records(f, FunctionType::Function, named.state);
            }
        },
        Stmt::Class(c) => {
            lemma_class_records(c, State { class: ClassType::Class, ..state });
        },
    }
}

proof fn lemma_var_records(v: VarStmt, state: State)
    ensures
        touches_only(
            state.locals,
            resolve_stmt(Stmt::Var(v), state).state.locals,
            stmt_references(Stmt::Var(v)),
        ),
    decreases v,
{
    let declared = declare(state, v.name);
    lemma_untouched(state.locals, stmt_references(Stmt::Var(v)));
    if declared.error is None {
        match v.initializer {
            Some(e) => {
                lemma_expr_records(*e, declared.state);
            },
            None => {},
        }
    }
}

proof fn lemma_return_records(r: ReturnStmt, state: State)
    ensures
        touches_only(
            state.locals,
            resolve_stmt(Stmt::Return(r), state).state.locals,
            stmt_references(Stmt::Return(r)),
        ),
    decreases r,
{
    lemma_untouched(state.locals, stmt_references(Stmt::Return(r)));
    match r.value {
        Some(e) => {
            lemma_expr_records(*e, state);
        },
        None => {},
    }
}

proof fn lemma_if_records(i: IfStmt, state: State)
    ensures
        touches_only(
            state.locals,
            resolve_stmt(Stmt::If(i), state).state.locals,
            stmt_references(Stmt::If(i)),
        ),
    decreases i,
{
    let first = references(*i.condition);
    let second = stmt_references(*i.then_branch);
    let third = match i.else_branch {
        Some(e) => stmt_references(*e),
        None => Set::empty(),
    };
    let condition = resolve_expr(*i.condition, state);
    let then = resolve_stmt(*i.then_branch, condition.state);
    let other = match i.else_branch {
        Some(e) => resolve_stmt(*e, then.state),
        None => then,
    };
    lemma_expr_records(*i.condition, state);
    lemma_stmt_records(*i.then_branch, condition.state);
    match i.else_branch {
        Some(e) => {
            lemma_stmt_records(*e, then.state);
        },
        None => {
            lemma_untouched(then.state.locals, third);
        },
    }
    lemma_three(
        state.locals,
        condition.state.locals,
        then.state.locals,
        other.state.locals,
        first,
        second,
        third,
    );
}

/// What three passes touch, one after the other, is what any of them
/// touches, also where the passes end after the first or the second.
proof fn lemma_three(
    a: Map<usize, usize>,
    b: Map<usize, usize>,
    c: Map<usize, usize>,
    d: Map<usize, usize>,
    first: Set<usize>,
    second: Set<usize>,
    third: Set<usize>,
)
    requires
        touches_only(a, b, first),
        touches_only(b, c, second),
        touches_only(c, d, third),
    ensures
        touches_only(a, b, first.union(second).union(third)),
        touches_only(a, c, first.union(second).union(third)),
        touches_only(a, d, first.union(second).union(third)),
{
    lemma_more_right(a, b, first, second);
    lemma_more_right(a, b, first.union(second), third);
    lemma_then(a, b, c, first, second);
    lemma_more_right(a, c, first.union(second), third);
    lemma_then(a, c, d, first.union(second), third);
}

proof fn lemma_while_records(w: WhileStmt, state: State)
    ensures
        touches_only(
            state.locals,
            resolve_stmt(Stmt::While(w), state).state.locals,
            stmt_references(Stmt::While(w)),
        ),
    decreases w,
{
    let first = references(*w.condition);
    let second = stmt_references(*w.body);
    let condition = resolve_expr(*w.condition, state);
    lemma_expr_records(*w.condition, state);
    if condition.error is Some {
        lemma_more_right(state.locals, condition.state.locals, first, second);
    } else {
        let body = resolve_stmt(*w.body, condition.state);
        lemma_stmt_records(*w.body, condition.state);
        lemma_then(state.locals, condition.state.locals, body.state.locals, first, second);
    }
}

/// Resolving the statements from position `i` on records entries of
/// their references only.
pub proof fn lemma_stmts_records(
    list: Seq<Stmt>,
    i: int,
    state: State,
    gathered: Option<Seq<char>>,
)
    ensures
        touches_only(
            state.locals,
            resolve_stmts(list, i, state, gathered).state.locals,
            stmts_references(list, i),
        ),
    decreases list, list.len() - i,
{
    if 0 <= i < list.len() {
        let first = resolve_stmt(list[i], state);
        let all = resolve_stmts(list, i + 1, first.state, join(gathered, first.error));
        lemma_stmt_records(list[i], state);
        lemma_stmts_records(list, i + 1, first.state, join(gathered, first.error));
        lemma_then(
            state.locals,
            first.state.locals,
            all.state.locals,
            stmt_references(list[i]),
            stmts_references(list, i + 1),
        );
    } else {
        lemma_untouched(state.locals, stmts_references(list, i));
    }
}

/// Resolving a function records entries of the references of its body
/// only.
pub proof fn lemma_function_records(f: FunctionStmt, kind: FunctionType, state: State)
    ensures
        touches_only(
            state.locals,
            resolve_function(f, kind, state).state.locals,
            function_references(f),
        ),
    decreases f,
{
    let entered = push_scope(State { function: kind, ..state }, Map::empty());
    let params = declare_parameters(f.params@, 0, entered);
    lemma_parameters_record_nothing(f.params@, 0, entered);
    lemma_untouched(state.locals, function_references(f));
    if params.error is None {
        lemma_stmts_records(f.body@, 0, params.state, None);
    }
}

/// Resolving the methods from position `i` on records entries of the
/// references of their bodies only.
pub proof fn lemma_methods_records(list: Seq<FunctionStmt>, i: int, state: State)
    ensures
        touches_only(
            state.locals,
            resolve_methods(list, i, state).state.locals,
            methods_references(list, i),
        ),
    decreases list, list.len() - i,
{
    if 0 <= i < list.len() {
        let first = resolve_function(list[i], method_kind(list[i]), state);
        let rest = methods_references(list, i + 1);
        lemma_function_records(list[i], method_kind(list[i]), state);
        if first.error is Some {
            lemma_more_right(state.locals, first.state.locals, function_references(list[i]), rest);
        } else {
            let all = resolve_methods(list, i + 1, first.state);
            lemma_methods_records(list, i + 1, first.state);
            lemma_then(
                state.locals,
                first.state.locals,
                all.state.locals,
                function_references(list[i]),
                rest,
            );
        }
    } else {
        lemma_untouched(state.locals, methods_references(list, i));
    }
}

/// Resolving a class records entries of its superclass and of the
/// references of its methods only.
pub proof fn lemma_class_records(c: ClassStmt, state: State)
    ensures
        touches_only(state.locals, resolve_class(c, state).state.locals, class_references(c)),
    decreases c,
{
    let ids = class_references(c);
    let rest = methods_references(c.methods@, 0);
    let named = declare_and_define(state, c.name);
    lemma_untouched(state.locals, ids);
    if named.error is None {
        match c.superclass {
            Some(parent) => {
                if c.name.lexeme@ != parent.name.lexeme@ {
                    let inside = State { class: ClassType::Subclass, ..named.state };
                    let above = resolve_variable(inside, *parent);
                    let own = set![parent.id];
                    lemma_untouched(state.locals, own);
                    lemma_reference_records(inside, parent.id, parent.name.lexeme@, own);
                    if above.error is Some {
                        lemma_more_right(state.locals, above.state.locals, own, rest);
                    } else {
                        let entered = push_scope(
                            push_scope(above.state, map!["super"@ => true]),
                            map!["this"@ => true],
                        );
                        let inner = resolve_methods(c.methods@, 0, entered);
                        lemma_methods_records(c.methods@, 0, entered);
                        lemma_then(
                            state.locals,
                            above.state.locals,
                            inner.state.locals,
                            own,
                            rest,
                        );
                    }
                }
            },
            None => {
                let entered = push_scope(named.state, map!["this"@ => true]);
                let inner = resolve_methods(c.methods@, 0, entered);
                lemma_methods_records(c.methods@, 0, entered);
                lemma_more_left(state.locals, inner.state.locals, rest, Set::empty());
            },
        }
    }
}

/// Resolving a program records entries of its references only: of the
/// variables, the assignments, `this` and `super`. Every other
/// identifier has the entry that it had before, or none as before.
pub proof fn lemma_only_references_are_recorded(program: Seq<Stmt>, state: State)
    ensures
        touches_only(
            state.locals,
            resolve_stmts(program, 0, state, None).state.locals,
            stmts_references(program, 0),
        ),
{
    lemma_stmts_records(program, 0, state, None);
}

/// Every key of the table after resolving a program was a key before
/// or is the identifier of a reference of the program. In a table that
/// was empty, a node that is no reference has no entry.
pub proof fn lemma_keys_are_references(program: Seq<Stmt>, state: State, id: usize)
    requires
        resolve_stmts(program, 0, state, None).state.locals.contains_key(id),
    ensures
        state.locals.contains_key(id) || stmts_references(program, 0).contains(id),
{
    lemma_only_references_are_recorded(program, state);
    if !stmts_references(program, 0).contains(id) {
        lemma_other_entry(
            state.locals,
            resolve_stmts(program, 0, state, None).state.locals,
            stmts_references(program, 0),
            id,
        );
    }
}

/// The entry of a node is kept by the rest of a program in which no
/// reference has its identifier: what the resolver recorded for one
/// reference, it does not change for another.
pub proof fn lemma_entry_is_kept(program: Seq<Stmt>, i: int, state: State, id: usize)
    requires
        !stmts_references(program, i).contains(id),
    ensures
        kept(state.locals, resolve_stmts(program, i, state, None).state.locals, id),
{
    lemma_stmts_records(program, i, state, None);
    lemma_other_entry(
        state.locals,
        resolve_stmts(program, i, state, None).state.locals,
        stmts_references(program, i),
        id,
    );
}

/// A reference to a name that an open scope declares gets the entry
/// of its depth; one to a name that no open scope declares is global
/// and gets none.
pub proof fn lemma_reference_entry(state: State, id: usize, name: Seq<char>)
    ensures
        resolve_local(state, id, name).locals == match depth_of(state.scopes, name) {
            Some(d) => state.locals.insert(id, d as usize),
            None => state.locals,
        },
{
}

} // verus!
