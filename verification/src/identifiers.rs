//! Expression identifiers: the parser gives every expression node of a
//! program an identifier of its own.

use vstd::prelude::*;
use crate::expression::ExprView;
use crate::grammar;
use crate::grammar::{Cursor, Level, Parsed};

use crate::tokens::{TokenType, TokenView};

pub mod statements;

verus! {

/// The identifiers of the nodes of an expression.
pub open spec fn expr_ids(e: ExprView) -> Set<int>
    decreases e,
{
    match e {
        ExprView::Assign { id, name, value } => expr_ids(*value).insert(id),
        ExprView::Binary { id, left, operator, right } => expr_ids(*left).union(
            expr_ids(*right),
        ).insert(id),
        ExprView::Call { id, callee, paren, arguments } => expr_ids(*callee).union(
            exprs_ids(arguments, arguments.len()),
        ).insert(id),
        ExprView::Get { id, object, name } => expr_ids(*object).insert(id),
        ExprView::Grouping { id, expression } => expr_ids(*expression).insert(id),
        ExprView::Literal { id, value } => set![id],
        ExprView::Logical { id, left, operator, right } => expr_ids(*left).union(
            expr_ids(*right),
        ).insert(id),
        ExprView::SetExpr { id, object, name, value } => expr_ids(*object).union(
            expr_ids(*value),
        ).insert(id),
        ExprView::Super { id, keyword, method } => set![id],
        ExprView::This { id, keyword } => set![id],
        ExprView::Unary { id, operator, right } => expr_ids(*right).insert(id),
        ExprView::Variable { id, name } => set![id],
    }
}

/// The identifiers of the nodes of the first `n` expressions of a list.
pub open spec fn exprs_ids(list: Seq<ExprView>, n: nat) -> Set<int>
    decreases list, n,
{
    if n == 0 || n > list.len() {
        Set::empty()
    } else {
        exprs_ids(list, (n - 1) as nat).union(expr_ids(list[n - 1]))
    }
}

/// Whether no two nodes of an expression have the same identifier.
pub open spec fn distinct(e: ExprView) -> bool
    decreases e,
{
    match e {
        ExprView::Assign { id, name, value } => distinct(*value) && !expr_ids(*value).contains(id),
        ExprView::Binary { id, left, operator, right } => {
            &&& distinct(*left)
            &&& distinct(*right)
            &&& expr_ids(*left).disjoint(expr_ids(*right))
            &&& !expr_ids(*left).contains(id)
            &&& !expr_ids(*right).contains(id)
        },
        ExprView::Call { id, callee, paren, arguments } => {
            &&& distinct(*callee)
            &&& all_distinct(arguments, arguments.len())
            &&& expr_ids(*callee).disjoint(exprs_ids(arguments, arguments.len()))
            &&& !expr_ids(*callee).contains(id)
            &&& !exprs_ids(arguments, arguments.len()).contains(id)
        },
        ExprView::Get { id, object, name } => distinct(*object) && !expr_ids(*object).contains(id),
        ExprView::Grouping { id, expression } => distinct(*expression) && !expr_ids(
            *expression,
        ).contains(id),
        ExprView::Literal { id, value } => true,
        ExprView::Logical { id, left, operator, right } => {
            &&& distinct(*left)
            &&& distinct(*right)
            &&& expr_ids(*left).disjoint(expr_ids(*right))
            &&& !expr_ids(*left).contains(id)
            &&& !expr_ids(*right).contains(id)
        },
        ExprView::SetExpr { id, object, name, value } => {
            &&& distinct(*object)
            &&& distinct(*value)
            &&& expr_ids(*object).disjoint(expr_ids(*value))
            &&& !expr_ids(*object).contains(id)
            &&& !expr_ids(*value).contains(id)
        },
        ExprView::Super { id, keyword, method } => true,
        ExprView::This { id, keyword } => true,
        ExprView::Unary { id, operator, right } => distinct(*right) && !expr_ids(*right).contains(
            id,
        ),
        ExprView::Variable { id, name } => true,
    }
}

/// Whether no two nodes of the first `n` expressions of a list have the
/// same identifier.
pub open spec fn all_distinct(list: Seq<ExprView>, n: nat) -> bool
    decreases list, n,
{
    if n == 0 || n > list.len() {
        true
    } else {
        &&& all_distinct(list, (n - 1) as nat)
        &&& distinct(list[n - 1])
        &&& exprs_ids(list, (n - 1) as nat).disjoint(expr_ids(list[n - 1]))
    }
}

/// Whether every identifier of a set lies from `low` up to, but not
/// including, `high`.
pub open spec fn within(ids: Set<int>, low: int, high: int) -> bool {
    forall|id: int| ids.contains(id) ==> low <= id < high
}

/// Whether the nodes of an expression have identifiers of their own,
/// all from `low` up to, but not including, `high`.
pub open spec fn fresh(e: ExprView, low: int, high: int) -> bool {
    distinct(e) && within(expr_ids(e), low, high)
}

/// Whether the outcome of parsing an expression from `c` is numbered
/// well: the cursor's next identifier has not gone back, and the nodes
/// of the expression have identifiers of their own between the cursor's
/// next identifier before and after.
pub open spec fn numbered(c: Cursor, p: Parsed<ExprView>) -> bool {
    &&& c.next_id <= p.cursor.next_id
    &&& p.result matches Ok(e) ==> fresh(e, c.next_id, p.cursor.next_id)
}

pub proof fn lemma_within_wider(ids: Set<int>, low: int, high: int, lower: int, higher: int)
    requires
        within(ids, low, high),
        lower <= low,
        high <= higher,
    ensures
        within(ids, lower, higher),
{
}

/// A node over one expression, with an identifier above all of its.
pub proof fn lemma_node_over_one(node: ExprView, child: ExprView, low: int, id: int)
    requires
        fresh(child, low, id),
        low <= id,
        match node {
            ExprView::Unary { id: i, right, .. } => i == id && *right == child,
            ExprView::Grouping { id: i, expression } => i == id && *expression == child,
            ExprView::Get { id: i, object, .. } => i == id && *object == child,
            ExprView::Assign { id: i, value, .. } => i == id && *value == child,
            _ => false,
        },
    ensures
        fresh(node, low, id + 1),
{
}

/// A node over two expressions whose identifiers lie apart, with an
/// identifier above all of theirs.
pub proof fn lemma_node_over_two(
    node: ExprView,
    a: ExprView,
    b: ExprView,
    low: int,
    middle: int,
    id: int,
)
    requires
        fresh(a, low, middle),
        fresh(b, middle, id),
        low <= middle <= id,
        match node {
            ExprView::Binary { id: i, left, right, .. } => i == id && *left == a && *right == b,
            ExprView::Logical { id: i, left, right, .. } => i == id && *left == a && *right == b,
            ExprView::SetExpr { id: i, object, value, .. } => i == id && *object == a && *value == b,
            _ => false,
        },
    ensures
        fresh(node, low, id + 1),
{
    assert(expr_ids(a).disjoint(expr_ids(b)));
}

/// A call node over a callee and arguments whose identifiers lie
/// apart, with an identifier above all of theirs.
pub proof fn lemma_call_node(
    id: int,
    callee: ExprView,
    paren: TokenView,
    arguments: Seq<ExprView>,
    low: int,
    middle: int,
)
    requires
        fresh(callee, low, middle),
        all_distinct(arguments, arguments.len()),
        within(exprs_ids(arguments, arguments.len()), middle, id),
        low <= middle <= id,
    ensures
        fresh(ExprView::Call { id, callee: Box::new(callee), paren, arguments }, low, id + 1),
{
    assert(expr_ids(callee).disjoint(exprs_ids(arguments, arguments.len())));
}

pub proof fn lemma_expression(tokens: Seq<TokenView>, c: Cursor)
    ensures
        numbered(c, grammar::expression(tokens, c)),
    decreases tokens.len() - c.pos, 20nat, 0nat,
{
    lemma_assignment(tokens, c);
}

pub proof fn lemma_assignment(tokens: Seq<TokenView>, c: Cursor)
    ensures
        numbered(c, grammar::assignment(tokens, c)),
    decreases tokens.len() - c.pos, 19nat, 0nat,
{
    lemma_binary_level(tokens, c, Level::Or);
    let target = grammar::binary_level(tokens, c, Level::Or);
    if let Ok(expr) = target.result {
        let c1 = target.cursor;
        if c.pos <= c1.pos < tokens.len() && grammar::check(tokens, c1, TokenType::Equal) {
            lemma_assignment(tokens, grammar::advance(tokens, c1));
            let value = grammar::assignment(tokens, grammar::advance(tokens, c1));
            if let Ok(v) = value.result {
                let c2 = value.cursor;
                match expr {
                    ExprView::Variable { id, name } => {
                        let node = ExprView::Assign { id: c2.next_id, name, value: Box::new(v) };
                        lemma_within_wider(expr_ids(v), c1.next_id, c2.next_id, c.next_id, c2.next_id);
                        lemma_node_over_one(node, v, c.next_id, c2.next_id);
                    },
                    ExprView::Get { id, object, name } => {
                        let node = ExprView::SetExpr {
                            id: c2.next_id,
                            object,
                            name,
                            value: Box::new(v),
                        };
                        assert(expr_ids(expr) == expr_ids(*object).insert(id));
                        assert(distinct(expr) ==> distinct(*object));
                        assert forall|x: int| expr_ids(*object).contains(x) implies c.next_id <= x
                            < c1.next_id by {
                            assert(expr_ids(expr).contains(x));
                        }
                        lemma_node_over_two(node, *object, v, c.next_id, c1.next_id, c2.next_id);
                    },
                    _ => {},
                }
            }
        }
    }
}

pub proof fn lemma_operand(tokens: Seq<TokenView>, c: Cursor, level: Level)
    ensures
        numbered(c, grammar::operand(tokens, c, level)),
    decreases tokens.len() - c.pos, grammar::level_rank(level), 0nat,
{
    match level {
        Level::Or => lemma_binary_level(tokens, c, Level::And),
        Level::And => lemma_binary_level(tokens, c, Level::Equality),
        Level::Equality => lemma_binary_level(tokens, c, Level::Comparison),
        Level::Comparison => lemma_binary_level(tokens, c, Level::Term),
        Level::Term => lemma_binary_level(tokens, c, Level::Factor),
        Level::Factor => lemma_unary(tokens, c),
    }
}

pub proof fn lemma_binary_level(tokens: Seq<TokenView>, c: Cursor, level: Level)
    ensures
        numbered(c, grammar::binary_level(tokens, c, level)),
    decreases tokens.len() - c.pos, grammar::level_rank(level), 2nat,
{
    lemma_operand(tokens, c, level);
    let first = grammar::operand(tokens, c, level);
    if let Ok(left) = first.result {
        if c.pos <= first.cursor.pos < tokens.len() {
            lemma_binary_rest(tokens, first.cursor, level, left, c.next_id);
        }
    }
}

pub proof fn lemma_binary_rest(
    tokens: Seq<TokenView>,
    c: Cursor,
    level: Level,
    left: ExprView,
    low: int,
)
    requires
        fresh(left, low, c.next_id),
        low <= c.next_id,
    ensures
        c.next_id <= grammar::binary_rest(tokens, c, level, left).cursor.next_id,
        grammar::binary_rest(tokens, c, level, left).result matches Ok(e) ==> fresh(
            e,
            low,
            grammar::binary_rest(tokens, c, level, left).cursor.next_id,
        ),
    decreases tokens.len() - c.pos, grammar::level_rank(level), 1nat,
{
    if 0 <= c.pos < tokens.len() && !grammar::at_end(tokens, c) && grammar::level_operator(
        level,
        tokens[c.pos].token_type,
    ) {
        lemma_operand(tokens, grammar::advance(tokens, c), level);
        let right = grammar::operand(tokens, grammar::advance(tokens, c), level);
        if let Ok(r) = right.result {
            let c2 = right.cursor;
            if c.pos < c2.pos < tokens.len() {
                let node = grammar::level_node(level, c2.next_id, left, tokens[c.pos], r);
                lemma_node_over_two(node, left, r, low, c.next_id, c2.next_id);
                lemma_binary_rest(tokens, grammar::bump(c2), level, node, low);
            }
        }
    }
}

pub proof fn lemma_unary(tokens: Seq<TokenView>, c: Cursor)
    ensures
        numbered(c, grammar::unary(tokens, c)),
    decreases tokens.len() - c.pos, 12nat, 0nat,
{
    if 0 <= c.pos < tokens.len() && (grammar::check(tokens, c, TokenType::Bang)
        || grammar::check(tokens, c, TokenType::Minus)) {
        lemma_unary(tokens, grammar::advance(tokens, c));
        let right = grammar::unary(tokens, grammar::advance(tokens, c));
        if let Ok(r) = right.result {
            lemma_node_over_one(
                ExprView::Unary {
                    id: right.cursor.next_id,
                    operator: tokens[c.pos],
                    right: Box::new(r),
                },
                r,
                c.next_id,
                right.cursor.next_id,
            );
        }
    } else {
        lemma_call(tokens, c);
    }
}

pub proof fn lemma_call(tokens: Seq<TokenView>, c: Cursor)
    ensures
        numbered(c, grammar::call(tokens, c)),
    decreases tokens.len() - c.pos, 11nat, 1nat,
{
    lemma_primary(tokens, c);
    let first = grammar::primary(tokens, c);
    if let Ok(e) = first.result {
        if c.pos <= first.cursor.pos < tokens.len() {
            lemma_call_rest(tokens, first.cursor, e, c.next_id);
        }
    }
}

pub proof fn lemma_call_rest(tokens: Seq<TokenView>, c: Cursor, callee: ExprView, low: int)
    requires
        fresh(callee, low, c.next_id),
        low <= c.next_id,
    ensures
        c.next_id <= grammar::call_rest(tokens, c, callee).cursor.next_id,
        grammar::call_rest(tokens, c, callee).result matches Ok(e) ==> fresh(
            e,
            low,
            grammar::call_rest(tokens, c, callee).cursor.next_id,
        ),
    decreases tokens.len() - c.pos, 11nat, 0nat,
{
    if 0 <= c.pos < tokens.len() && grammar::check(tokens, c, TokenType::LeftParen) {
        lemma_finish_call(tokens, grammar::advance(tokens, c), callee, low);
        let done = grammar::finish_call(tokens, grammar::advance(tokens, c), callee);
        if let Ok(e) = done.result {
            if c.pos < done.cursor.pos < tokens.len() {
                lemma_call_rest(tokens, done.cursor, e, low);
            }
        }
    } else if 0 <= c.pos < tokens.len() && grammar::check(tokens, c, TokenType::Dot) {
        let c1 = grammar::advance(tokens, c);
        let name = grammar::consume(
            tokens,
            c1,
            TokenType::Identifier,
            "Expect property name after '.'."@,
        );
        if let Ok(n) = name.result {
            if c.pos < name.cursor.pos < tokens.len() {
                let node = ExprView::Get {
                    id: name.cursor.next_id,
                    object: Box::new(callee),
                    name: n,
                };
                lemma_node_over_one(node, callee, low, name.cursor.next_id);
                lemma_call_rest(tokens, grammar::bump(name.cursor), node, low);
            }
        }
    }
}

pub proof fn lemma_finish_call(tokens: Seq<TokenView>, c: Cursor, callee: ExprView, low: int)
    requires
        fresh(callee, low, c.next_id),
        low <= c.next_id,
    ensures
        c.next_id <= grammar::finish_call(tokens, c, callee).cursor.next_id,
        grammar::finish_call(tokens, c, callee).result matches Ok(e) ==> fresh(
            e,
            low,
            grammar::finish_call(tokens, c, callee).cursor.next_id,
        ),
    decreases tokens.len() - c.pos, 31nat, 0nat,
{
    if !grammar::check(tokens, c, TokenType::RightParen) {
        lemma_arguments(tokens, c, Seq::empty(), c.next_id);
    }
    let args = if grammar::check(tokens, c, TokenType::RightParen) {
        Parsed { result: Ok(Seq::<ExprView>::empty()), cursor: c }
    } else {
        grammar::arguments(tokens, c, Seq::empty())
    };
    if let Ok(list) = args.result {
        let paren = grammar::consume(
            tokens,
            args.cursor,
            TokenType::RightParen,
            "Expect ')' after arguments."@,
        );
        if let Ok(p) = paren.result {
            lemma_call_node(paren.cursor.next_id, callee, p, list, low, c.next_id);
        }
    }
}

pub proof fn lemma_arguments(tokens: Seq<TokenView>, c: Cursor, before: Seq<ExprView>, low: int)
    requires
        all_distinct(before, before.len()),
        within(exprs_ids(before, before.len()), low, c.next_id),
        low <= c.next_id,
    ensures
        c.next_id <= grammar::arguments(tokens, c, before).cursor.next_id,
        grammar::arguments(tokens, c, before).result matches Ok(list) ==> {
            &&& all_distinct(list, list.len())
            &&& within(
                exprs_ids(list, list.len()),
                low,
                grammar::arguments(tokens, c, before).cursor.next_id,
            )
        },
    decreases tokens.len() - c.pos, 30nat, 0nat,
{
    if before.len() < 255 {
        lemma_expression(tokens, c);
        let next = grammar::expression(tokens, c);
        if let Ok(e) = next.result {
            let c1 = next.cursor;
            let list = before.push(e);
            lemma_push_ids(before, e);
            if c.pos <= c1.pos < tokens.len() && grammar::check(tokens, c1, TokenType::Comma) {
                lemma_arguments(tokens, grammar::advance(tokens, c1), list, low);
            }
        }
    }
}

/// The identifiers of a list with one more expression at its end.
pub proof fn lemma_push_ids(before: Seq<ExprView>, e: ExprView)
    ensures
        exprs_ids(before.push(e), before.len() + 1) == exprs_ids(before, before.len()).union(
            expr_ids(e),
        ),
        all_distinct(before.push(e), before.len() + 1) == (all_distinct(before, before.len())
            && distinct(e) && exprs_ids(before, before.len()).disjoint(expr_ids(e))),
{
    lemma_prefix_ids(before, e, before.len());
}

pub proof fn lemma_prefix_ids(before: Seq<ExprView>, e: ExprView, n: nat)
    requires
        n <= before.len(),
    ensures
        exprs_ids(before.push(e), n) == exprs_ids(before, n),
        all_distinct(before.push(e), n) == all_distinct(before, n),
    decreases n,
{
    if n > 0 {
        lemma_prefix_ids(before, e, (n - 1) as nat);
        assert(before.push(e)[n - 1] == before[n - 1]);
    }
}

pub proof fn lemma_primary(tokens: Seq<TokenView>, c: Cursor)
    ensures
        numbered(c, grammar::primary(tokens, c)),
    decreases tokens.len() - c.pos, 10nat, 0nat,
{
    if 0 <= c.pos < tokens.len() && grammar::check(tokens, c, TokenType::LeftParen)
        && !grammar::check(tokens, c, TokenType::False) && !grammar::check(
        tokens,
        c,
        TokenType::True,
    ) && !grammar::check(tokens, c, TokenType::Nil) && !grammar::check(
        tokens,
        c,
        TokenType::Number,
    ) && !grammar::check(tokens, c, TokenType::String) {
        lemma_expression(tokens, grammar::advance(tokens, c));
        let inner = grammar::expression(tokens, grammar::advance(tokens, c));
        if let Ok(e) = inner.result {
            let close = grammar::consume(
                tokens,
                inner.cursor,
                TokenType::RightParen,
                "Expect ')' after expression."@,
            );
            lemma_node_over_one(
                ExprView::Grouping { id: close.cursor.next_id, expression: Box::new(e) },
                e,
                c.next_id,
                close.cursor.next_id,
            );
        }
    }
}

} // verus!
