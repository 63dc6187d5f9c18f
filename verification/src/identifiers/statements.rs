//! Identifiers in statements and programs.

use vstd::prelude::*;
use crate::expression::ExprView;
use crate::grammar;
use crate::grammar::{Cursor, ForClauses, Parsed, Program};
use crate::identifiers::{distinct, expr_ids, lemma_expression, within};
use crate::stmt::{FunctionView, StmtView};
use crate::tokens::{TokenType, TokenView};

verus! {

/// The identifiers of the nodes of an expression that may be absent.
pub open spec fn option_ids(e: Option<ExprView>) -> Set<int> {
    match e {
        Some(x) => expr_ids(x),
        None => Set::empty(),
    }
}

/// Whether no two nodes of an expression that may be absent have the
/// same identifier.
pub open spec fn option_distinct(e: Option<ExprView>) -> bool {
    match e {
        Some(x) => distinct(x),
        None => true,
    }
}

/// The identifiers of the expression nodes of a statement.
pub open spec fn stmt_ids(s: StmtView) -> Set<int>
    decreases s,
{
    match s {
        StmtView::Class { name, superclass, methods } => option_ids(superclass).union(
            functions_ids(methods, methods.len()),
        ),
        StmtView::Expression { expression } => expr_ids(expression),
        StmtView::Function { function } => stmts_ids(function.body, function.body.len()),
        StmtView::If { condition, then_branch, else_branch } => expr_ids(condition).union(
            stmt_ids(*then_branch),
        ).union(
            match else_branch {
                Some(e) => stmt_ids(*e),
                None => Set::empty(),
            },
        ),
        StmtView::Print { expression } => expr_ids(expression),
        StmtView::Block { statements } => stmts_ids(statements, statements.len()),
        StmtView::Return { keyword, value } => option_ids(value),
        StmtView::Var { name, initializer } => option_ids(initializer),
        StmtView::While { condition, body } => expr_ids(condition).union(stmt_ids(*body)),
    }
}

/// The identifiers of the expression nodes of the first `n` statements
/// of a list.
pub open spec fn stmts_ids(list: Seq<StmtView>, n: nat) -> Set<int>
    decreases list, n,
{
    if n == 0 || n > list.len() {
        Set::empty()
    } else {
        stmts_ids(list, (n - 1) as nat).union(stmt_ids(list[n - 1]))
    }
}

/// The identifiers of the expression nodes of the first `n` functions
/// of a list.
pub open spec fn functions_ids(list: Seq<FunctionView>, n: nat) -> Set<int>
    decreases list, n,
{
    if n == 0 || n > list.len() {
        Set::empty()
    } else {
        functions_ids(list, (n - 1) as nat).union(
            stmts_ids(list[n - 1].body, list[n - 1].body.len()),
        )
    }
}

/// Whether no two expression nodes of a statement have the same
/// identifier.
pub open spec fn stmt_distinct(s: StmtView) -> bool
    decreases s,
{
    match s {
        StmtView::Class { name, superclass, methods } => {
            &&& functions_distinct(methods, methods.len())
            &&& option_ids(superclass).disjoint(functions_ids(methods, methods.len()))
        },
        StmtView::Expression { expression } => distinct(expression),
        StmtView::Function { function } => stmts_distinct(function.body, function.body.len()),
        StmtView::If { condition, then_branch, else_branch } => {
            &&& distinct(condition)
            &&& stmt_distinct(*then_branch)
            &&& expr_ids(condition).disjoint(stmt_ids(*then_branch))
            &&& match else_branch {
                Some(e) => {
                    &&& stmt_distinct(*e)
                    &&& expr_ids(condition).disjoint(stmt_ids(*e))
                    &&& stmt_ids(*then_branch).disjoint(stmt_ids(*e))
                },
                None => true,
            }
        },
        StmtView::Print { expression } => distinct(expression),
        StmtView::Block { statements } => stmts_distinct(statements, statements.len()),
        StmtView::Return { keyword, value } => option_distinct(value),
        StmtView::Var { name, initializer } => option_distinct(initializer),
        StmtView::While { condition, body } => {
            &&& distinct(condition)
            &&& stmt_distinct(*body)
            &&& expr_ids(condition).disjoint(stmt_ids(*body))
        },
    }
}

/// Whether no two expression nodes of the first `n` statements of a
/// list have the same identifier.
pub open spec fn stmts_distinct(list: Seq<StmtView>, n: nat) -> bool
    decreases list, n,
{
    if n == 0 || n > list.len() {
        true
    } else {
        &&& stmts_distinct(list, (n - 1) as nat)
        &&& stmt_distinct(list[n - 1])
        &&& stmts_ids(list, (n - 1) as nat).disjoint(stmt_ids(list[n - 1]))
    }
}

/// Whether no two expression nodes of the first `n` functions of a
/// list have the same identifier.
pub open spec fn functions_distinct(list: Seq<FunctionView>, n: nat) -> bool
    decreases list, n,
{
    if n == 0 || n > list.len() {
        true
    } else {
        &&& functions_distinct(list, (n - 1) as nat)
        &&& stmts_distinct(list[n - 1].body, list[n - 1].body.len())
        &&& functions_ids(list, (n - 1) as nat).disjoint(
            stmts_ids(list[n - 1].body, list[n - 1].body.len()),
        )
    }
}

/// Whether the expression nodes of a statement have identifiers of
/// their own, all from `low` up to, but not including, `high`.
pub open spec fn fresh_stmt(s: StmtView, low: int, high: int) -> bool {
    stmt_distinct(s) && within(stmt_ids(s), low, high)
}

/// The same of a list of statements.
pub open spec fn fresh_stmts(list: Seq<StmtView>, low: int, high: int) -> bool {
    stmts_distinct(list, list.len()) && within(stmts_ids(list, list.len()), low, high)
}

/// The same of a list of functions.
pub open spec fn fresh_functions(list: Seq<FunctionView>, low: int, high: int) -> bool {
    functions_distinct(list, list.len()) && within(functions_ids(list, list.len()), low, high)
}

/// The same of an expression that may be absent.
pub open spec fn fresh_option(e: Option<ExprView>, low: int, high: int) -> bool {
    option_distinct(e) && within(option_ids(e), low, high)
}

/// Whether the outcome of parsing a statement from `c` is numbered
/// well: the cursor's next identifier has not gone back, and the
/// expression nodes of the statement have identifiers of their own
/// between the cursor's next identifier before and after.
pub open spec fn numbered_stmt(c: Cursor, p: Parsed<StmtView>) -> bool {
    &&& c.next_id <= p.cursor.next_id
    &&& p.result matches Ok(s) ==> fresh_stmt(s, c.next_id, p.cursor.next_id)
}

pub proof fn lemma_stmts_prefix(before: Seq<StmtView>, s: StmtView, n: nat)
    requires
        n <= before.len(),
    ensures
        stmts_ids(before.push(s), n) == stmts_ids(before, n),
        stmts_distinct(before.push(s), n) == stmts_distinct(before, n),
    decreases n,
{
    if n > 0 {
        lemma_stmts_prefix(before, s, (n - 1) as nat);
        assert(before.push(s)[n - 1] == before[n - 1]);
    }
}

/// A list of statements with one more at its end, whose identifiers lie
/// above those of the list.
pub proof fn lemma_stmts_push(before: Seq<StmtView>, s: StmtView, low: int, middle: int, high: int)
    requires
        fresh_stmts(before, low, middle),
        fresh_stmt(s, middle, high),
        low <= middle <= high,
    ensures
        fresh_stmts(before.push(s), low, high),
{
    lemma_stmts_prefix(before, s, before.len());
    assert(before.push(s)[before.len() as int] == s);
    assert(stmts_ids(before, before.len()).disjoint(stmt_ids(s)));
}

pub proof fn lemma_functions_prefix(before: Seq<FunctionView>, f: FunctionView, n: nat)
    requires
        n <= before.len(),
    ensures
        functions_ids(before.push(f), n) == functions_ids(before, n),
        functions_distinct(before.push(f), n) == functions_distinct(before, n),
    decreases n,
{
    if n > 0 {
        lemma_functions_prefix(before, f, (n - 1) as nat);
        assert(before.push(f)[n - 1] == before[n - 1]);
    }
}

pub proof fn lemma_functions_push(
    before: Seq<FunctionView>,
    f: FunctionView,
    low: int,
    middle: int,
    high: int,
)
    requires
        fresh_functions(before, low, middle),
        fresh_stmts(f.body, middle, high),
        low <= middle <= high,
    ensures
        fresh_functions(before.push(f), low, high),
{
    lemma_functions_prefix(before, f, before.len());
    assert(before.push(f)[before.len() as int] == f);
    assert(functions_ids(before, before.len()).disjoint(stmts_ids(f.body, f.body.len())));
}

/// Two statements in a row.
pub proof fn lemma_pair(a: StmtView, b: StmtView, low: int, middle: int, high: int)
    requires
        fresh_stmt(a, low, middle),
        fresh_stmt(b, middle, high),
        low <= middle <= high,
    ensures
        fresh_stmts(seq![a, b], low, high),
{
    reveal_with_fuel(stmts_distinct, 3);
    reveal_with_fuel(stmts_ids, 3);
    let list = seq![a, b];
    assert(list[0] == a && list[1] == b);
    assert(stmts_ids(list, 0) =~= Set::empty());
    assert(stmts_ids(list, 1) =~= stmt_ids(a));
    assert(stmts_distinct(list, 1));
    assert(stmt_ids(a).disjoint(stmt_ids(b)));
}

/// Two statements in a row, of which the second was numbered first.
pub proof fn lemma_pair_reversed(a: StmtView, b: StmtView, low: int, middle: int, high: int)
    requires
        fresh_stmt(a, middle, high),
        fresh_stmt(b, low, middle),
        low <= middle <= high,
    ensures
        fresh_stmts(seq![a, b], low, high),
{
    reveal_with_fuel(stmts_distinct, 3);
    reveal_with_fuel(stmts_ids, 3);
    let list = seq![a, b];
    assert(list[0] == a && list[1] == b);
    assert(stmts_ids(list, 0) =~= Set::empty());
    assert(stmts_ids(list, 1) =~= stmt_ids(a));
    assert(stmts_distinct(list, 1));
    assert(stmt_ids(a).disjoint(stmt_ids(b)));
}

pub proof fn lemma_fresh_stmt_wider(s: StmtView, low: int, high: int, lower: int, higher: int)
    requires
        fresh_stmt(s, low, high),
        lower <= low,
        high <= higher,
    ensures
        fresh_stmt(s, lower, higher),
{
}

pub proof fn lemma_optional_expression(tokens: Seq<TokenView>, c: Cursor, stop: TokenType)
    ensures
        c.next_id <= grammar::optional_expression(tokens, c, stop).cursor.next_id,
        grammar::optional_expression(tokens, c, stop).result matches Ok(e) ==> fresh_option(
            e,
            c.next_id,
            grammar::optional_expression(tokens, c, stop).cursor.next_id,
        ),
{
    reveal(grammar::optional_expression);
    lemma_expression(tokens, c);
}

pub proof fn lemma_expression_statement(tokens: Seq<TokenView>, c: Cursor)
    ensures
        numbered_stmt(c, grammar::expression_statement(tokens, c)),
{
    reveal(grammar::expression_statement);
    lemma_expression(tokens, c);
}

pub proof fn lemma_print_statement(tokens: Seq<TokenView>, c: Cursor)
    ensures
        numbered_stmt(c, grammar::print_statement(tokens, c)),
{
    reveal(grammar::print_statement);
    lemma_expression(tokens, c);
}

pub proof fn lemma_return_statement(tokens: Seq<TokenView>, c: Cursor)
    ensures
        numbered_stmt(c, grammar::return_statement(tokens, c)),
{
    reveal(grammar::return_statement);
    lemma_optional_expression(tokens, c, TokenType::Semicolon);
}

pub proof fn lemma_var_declaration(tokens: Seq<TokenView>, c: Cursor)
    ensures
        numbered_stmt(c, grammar::var_declaration(tokens, c)),
{
    reveal(grammar::var_declaration);
    let name = grammar::consume(tokens, c, TokenType::Identifier, "Expect variable name."@);
    if grammar::check(tokens, name.cursor, TokenType::Equal) {
        lemma_expression(tokens, grammar::advance(tokens, name.cursor));
    }
}

pub proof fn lemma_for_initializer(tokens: Seq<TokenView>, c: Cursor)
    ensures
        c.next_id <= grammar::for_initializer(tokens, c).cursor.next_id,
        grammar::for_initializer(tokens, c).result matches Ok(Some(s)) ==> fresh_stmt(
            s,
            c.next_id,
            grammar::for_initializer(tokens, c).cursor.next_id,
        ),
{
    reveal(grammar::for_initializer);
    if grammar::check(tokens, c, TokenType::Var) {
        lemma_var_declaration(tokens, grammar::advance(tokens, c));
    } else if !grammar::check(tokens, c, TokenType::Semicolon) {
        lemma_expression_statement(tokens, c);
    }
}

/// Whether the clauses of a `for` statement have identifiers of their
/// own: those of the initializer up to `a`, those of the condition
/// from there up to `b`, and those of the increment from there on.
pub open spec fn clauses_split(clauses: ForClauses, low: int, a: int, b: int, high: int) -> bool {
    &&& low <= a <= b <= high
    &&& match clauses.initializer {
        Some(s) => fresh_stmt(s, low, a),
        None => true,
    }
    &&& fresh_option(clauses.condition, a, b)
    &&& fresh_option(clauses.increment, b, high)
}

/// Whether the clauses of a `for` statement have identifiers of their
/// own, in the order of the clauses.
pub open spec fn fresh_clauses(clauses: ForClauses, low: int, high: int) -> bool {
    exists|a: int, b: int| #[trigger] clauses_split(clauses, low, a, b, high)
}

pub proof fn lemma_for_clauses(tokens: Seq<TokenView>, c: Cursor)
    ensures
        c.next_id <= grammar::for_clauses(tokens, c).cursor.next_id,
        grammar::for_clauses(tokens, c).result matches Ok(clauses) ==> fresh_clauses(
            clauses,
            c.next_id,
            grammar::for_clauses(tokens, c).cursor.next_id,
        ),
{
    reveal(grammar::for_clauses);
    reveal(grammar::for_increment);
    let open = grammar::consume(tokens, c, TokenType::LeftParen, "Expect '(' after 'for'."@);
    if open.result is Ok {
        lemma_for_initializer(tokens, open.cursor);
        let init = grammar::for_initializer(tokens, open.cursor);
        if let Ok(initializer) = init.result {
            lemma_optional_expression(tokens, init.cursor, TokenType::Semicolon);
            let cond = grammar::optional_expression(tokens, init.cursor, TokenType::Semicolon);
            if let Ok(condition) = cond.result {
                let semi = grammar::consume(
                    tokens,
                    cond.cursor,
                    TokenType::Semicolon,
                    "Expect ';' after loop condition."@,
                );
                if semi.result is Ok {
                    lemma_optional_expression(tokens, semi.cursor, TokenType::RightParen);
                    let inc = grammar::optional_expression(
                        tokens,
                        semi.cursor,
                        TokenType::RightParen,
                    );
                    if let Ok(increment) = inc.result {
                        let clauses = ForClauses { initializer, condition, increment };
                        assert(clauses_split(
                            clauses,
                            c.next_id,
                            init.cursor.next_id,
                            cond.cursor.next_id,
                            inc.cursor.next_id,
                        ));
                    }
                }
            }
        }
    }
}

/// The loop that a `for` statement stands for has identifiers of its
/// own if its clauses and its body have, in that order, and the
/// identifier `id` of a condition that is supplied comes after them.
pub proof fn lemma_for_loop(clauses: ForClauses, body: StmtView, low: int, middle: int, id: int)
    requires
        fresh_clauses(clauses, low, middle),
        fresh_stmt(body, middle, id),
        low <= middle <= id,
    ensures
        fresh_stmt(
            grammar::for_loop(
                clauses.initializer,
                grammar::loop_condition(clauses.condition, id),
                clauses.increment,
                body,
            ),
            low,
            if clauses.condition is None {
                id + 1
            } else {
                id
            },
        ),
{
    reveal_with_fuel(stmts_distinct, 3);
    reveal_with_fuel(stmts_ids, 3);
    let (a, b) = choose|a: int, b: int| #[trigger] clauses_split(clauses, low, a, b, middle);
    let high = if clauses.condition is None {
        id + 1
    } else {
        id
    };
    let condition = grammar::loop_condition(clauses.condition, id);
    assert(distinct(condition));
    assert(within(expr_ids(condition), a, high));
    let stepped = match clauses.increment {
        Some(e) => StmtView::Block {
            statements: seq![body, StmtView::Expression { expression: e }],
        },
        None => body,
    };
    match clauses.increment {
        Some(e) => {
            let step = StmtView::Expression { expression: e };
            assert(fresh_stmt(step, b, middle));
            lemma_fresh_stmt_wider(body, middle, id, middle, id);
            lemma_pair_reversed(body, step, b, middle, id);
            assert(stepped == StmtView::Block { statements: seq![body, step] });
        },
        None => {},
    }
    assert(stmt_distinct(stepped) && within(stmt_ids(stepped), b, id));
    let looped = StmtView::While { condition, body: Box::new(stepped) };
    assert(expr_ids(condition).disjoint(stmt_ids(stepped))) by {
        match clauses.condition {
            Some(e) => {},
            None => {},
        }
    }
    assert(fresh_stmt(looped, a, high));
    match clauses.initializer {
        Some(i) => {
            lemma_pair(i, looped, low, a, high);
        },
        None => {
            lemma_fresh_stmt_wider(looped, a, high, low, high);
        },
    }
}

pub proof fn lemma_declaration(tokens: Seq<TokenView>, c: Cursor)
    ensures
        numbered_stmt(c, grammar::declaration(tokens, c)),
    decreases tokens.len() - c.pos, 40nat, 0nat,
{
    if 0 <= c.pos < tokens.len() {
        if grammar::check(tokens, c, TokenType::Class) {
            lemma_class_declaration(tokens, grammar::advance(tokens, c));
        } else if grammar::check(tokens, c, TokenType::Fun) {
            lemma_function(tokens, grammar::advance(tokens, c), "function"@);
        } else if grammar::check(tokens, c, TokenType::Var) {
            lemma_var_declaration(tokens, grammar::advance(tokens, c));
        } else {
            lemma_statement(tokens, c);
        }
    }
}

pub proof fn lemma_class_declaration(tokens: Seq<TokenView>, c: Cursor)
    ensures
        numbered_stmt(c, grammar::class_declaration(tokens, c)),
    decreases tokens.len() - c.pos, 38nat, 0nat,
{
    reveal(grammar::superclass);
    let name = grammar::consume(tokens, c, TokenType::Identifier, "Expect class name."@);
    if name.result is Ok {
        let parent = grammar::superclass(tokens, name.cursor);
        if let Ok(sup) = parent.result {
            let open = grammar::consume(
                tokens,
                parent.cursor,
                TokenType::LeftBrace,
                "Expect '{' before class body."@,
            );
            if open.result is Ok && grammar::moved(tokens, c, open.cursor) {
                assert(functions_ids(Seq::<FunctionView>::empty(), 0) =~= Set::empty());
                lemma_methods(tokens, open.cursor, Seq::empty(), open.cursor.next_id);
                let members = grammar::methods(tokens, open.cursor, Seq::empty());
                if let Ok(ms) = members.result {
                    assert(option_ids(sup).disjoint(functions_ids(ms, ms.len())));
                }
            }
        }
    }
}

pub proof fn lemma_methods(tokens: Seq<TokenView>, c: Cursor, before: Seq<FunctionView>, low: int)
    requires
        fresh_functions(before, low, c.next_id),
        low <= c.next_id,
    ensures
        c.next_id <= grammar::methods(tokens, c, before).cursor.next_id,
        grammar::methods(tokens, c, before).result matches Ok(list) ==> fresh_functions(
            list,
            low,
            grammar::methods(tokens, c, before).cursor.next_id,
        ),
    decreases tokens.len() - c.pos, 37nat, 0nat,
{
    if !(!(0 <= c.pos < tokens.len()) || grammar::check(tokens, c, TokenType::RightBrace)
        || grammar::at_end(tokens, c)) {
        lemma_function(tokens, c, "method"@);
        let method = grammar::function(tokens, c, "method"@);
        if let Ok(m) = method.result {
            if grammar::moved(tokens, c, method.cursor) {
                lemma_functions_push(before, m, low, c.next_id, method.cursor.next_id);
                lemma_methods(tokens, method.cursor, before.push(m), low);
            }
        }
    }
}

pub proof fn lemma_function(tokens: Seq<TokenView>, c: Cursor, kind: Seq<char>)
    ensures
        c.next_id <= grammar::function(tokens, c, kind).cursor.next_id,
        grammar::function(tokens, c, kind).result matches Ok(f) ==> fresh_stmts(
            f.body,
            c.next_id,
            grammar::function(tokens, c, kind).cursor.next_id,
        ),
        numbered_stmt(c, grammar::fun_declaration(tokens, c, kind)),
    decreases tokens.len() - c.pos, 36nat, 0nat,
{
    let name = grammar::consume(tokens, c, TokenType::Identifier, "Expect "@ + kind + " name."@);
    if name.result is Ok {
        let open = grammar::consume(
            tokens,
            name.cursor,
            TokenType::LeftParen,
            "Expect '(' after "@ + kind + " name."@,
        );
        if open.result is Ok {
            let params = if grammar::check(tokens, open.cursor, TokenType::RightParen) {
                Parsed { result: Ok(Seq::<TokenView>::empty()), cursor: open.cursor }
            } else {
                grammar::parameters(tokens, open.cursor, Seq::empty())
            };
            lemma_parameters(tokens, open.cursor, Seq::empty());
            if params.result is Ok {
                let close = grammar::consume(
                    tokens,
                    params.cursor,
                    TokenType::RightParen,
                    "Expect ')' after parameters."@,
                );
                if close.result is Ok {
                    let brace = grammar::consume(
                        tokens,
                        close.cursor,
                        TokenType::LeftBrace,
                        "Expect '{' before function body."@,
                    );
                    if brace.result is Ok && grammar::moved(tokens, c, brace.cursor) {
                        lemma_block(tokens, brace.cursor);
                    }
                }
            }
        }
    }
}

pub proof fn lemma_parameters(tokens: Seq<TokenView>, c: Cursor, before: Seq<TokenView>)
    ensures
        grammar::parameters(tokens, c, before).cursor.next_id == c.next_id,
    decreases tokens.len() - c.pos,
{
    if before.len() < 255 {
        let name = grammar::consume(tokens, c, TokenType::Identifier, "Expect parameter name."@);
        if let Ok(n) = name.result {
            let c1 = name.cursor;
            if grammar::moved(tokens, c, c1) && grammar::check(tokens, c1, TokenType::Comma) {
                lemma_parameters(tokens, grammar::advance(tokens, c1), before.push(n));
            }
        }
    }
}

pub proof fn lemma_statement(tokens: Seq<TokenView>, c: Cursor)
    ensures
        numbered_stmt(c, grammar::statement(tokens, c)),
    decreases tokens.len() - c.pos, 35nat, 0nat,
{
    if 0 <= c.pos < tokens.len() {
        if grammar::check(tokens, c, TokenType::For) {
            lemma_for_statement(tokens, grammar::advance(tokens, c));
        } else if grammar::check(tokens, c, TokenType::If) {
            lemma_if_statement(tokens, grammar::advance(tokens, c));
        } else if grammar::check(tokens, c, TokenType::Print) {
            lemma_print_statement(tokens, grammar::advance(tokens, c));
        } else if grammar::check(tokens, c, TokenType::Return) {
            lemma_return_statement(tokens, grammar::advance(tokens, c));
        } else if grammar::check(tokens, c, TokenType::While) {
            lemma_while_statement(tokens, grammar::advance(tokens, c));
        } else if grammar::check(tokens, c, TokenType::LeftBrace) {
            lemma_block(tokens, grammar::advance(tokens, c));
        } else {
            lemma_expression_statement(tokens, c);
        }
    }
}

pub proof fn lemma_for_statement(tokens: Seq<TokenView>, c: Cursor)
    ensures
        numbered_stmt(c, grammar::for_statement(tokens, c)),
    decreases tokens.len() - c.pos, 30nat, 0nat,
{
    lemma_for_clauses(tokens, c);
    let head = grammar::for_clauses(tokens, c);
    if let Ok(clauses) = head.result {
        if grammar::moved(tokens, c, head.cursor) {
            lemma_statement(tokens, head.cursor);
            let body = grammar::statement(tokens, head.cursor);
            if let Ok(b) = body.result {
                lemma_for_loop(clauses, b, c.next_id, head.cursor.next_id, body.cursor.next_id);
            }
        }
    }
}

pub proof fn lemma_if_statement(tokens: Seq<TokenView>, c: Cursor)
    ensures
        numbered_stmt(c, grammar::if_statement(tokens, c)),
    decreases tokens.len() - c.pos, 30nat, 0nat,
{
    let open = grammar::consume(tokens, c, TokenType::LeftParen, "Expect '(' after 'if'."@);
    if open.result is Ok {
        lemma_expression(tokens, open.cursor);
        let cond = grammar::expression(tokens, open.cursor);
        if let Ok(condition) = cond.result {
            let close = grammar::consume(
                tokens,
                cond.cursor,
                TokenType::RightParen,
                "Expect ')' after condition."@,
            );
            if close.result is Ok && grammar::moved(tokens, c, close.cursor) {
                lemma_statement(tokens, close.cursor);
                let then = grammar::statement(tokens, close.cursor);
                if let Ok(t) = then.result {
                    assert(expr_ids(condition).disjoint(stmt_ids(t)));
                    if grammar::moved(tokens, c, then.cursor) && grammar::check(
                        tokens,
                        then.cursor,
                        TokenType::Else,
                    ) {
                        lemma_statement(tokens, grammar::advance(tokens, then.cursor));
                        let other = grammar::statement(
                            tokens,
                            grammar::advance(tokens, then.cursor),
                        );
                        if let Ok(e) = other.result {
                            assert(expr_ids(condition).disjoint(stmt_ids(e)));
                            assert(stmt_ids(t).disjoint(stmt_ids(e)));
                        }
                    }
                }
            }
        }
    }
}

pub proof fn lemma_while_statement(tokens: Seq<TokenView>, c: Cursor)
    ensures
        numbered_stmt(c, grammar::while_statement(tokens, c)),
    decreases tokens.len() - c.pos, 30nat, 0nat,
{
    let open = grammar::consume(tokens, c, TokenType::LeftParen, "Expect '(' after 'while'."@);
    if open.result is Ok {
        lemma_expression(tokens, open.cursor);
        let cond = grammar::expression(tokens, open.cursor);
        if let Ok(condition) = cond.result {
            let close = grammar::consume(
                tokens,
                cond.cursor,
                TokenType::RightParen,
                "Expect ')' after condition."@,
            );
            if close.result is Ok && grammar::moved(tokens, c, close.cursor) {
                lemma_statement(tokens, close.cursor);
                let body = grammar::statement(tokens, close.cursor);
                if let Ok(b) = body.result {
                    assert(expr_ids(condition).disjoint(stmt_ids(b)));
                }
            }
        }
    }
}

pub proof fn lemma_block(tokens: Seq<TokenView>, c: Cursor)
    ensures
        c.next_id <= grammar::block(tokens, c).cursor.next_id,
        grammar::block(tokens, c).result matches Ok(s) ==> s is Block && fresh_stmts(
            s->Block_statements,
            c.next_id,
            grammar::block(tokens, c).cursor.next_id,
        ),
        numbered_stmt(c, grammar::block(tokens, c)),
    decreases tokens.len() - c.pos, 50nat, 0nat,
{
    assert(stmts_ids(Seq::<StmtView>::empty(), 0) =~= Set::empty());
    lemma_block_rest(tokens, c, Seq::empty(), None, c.next_id);
}

pub proof fn lemma_synchronize(tokens: Seq<TokenView>, c: Cursor)
    ensures
        grammar::synchronize(tokens, c).next_id == c.next_id,
{
    lemma_synchronize_rest(tokens, grammar::advance(tokens, c));
}

pub proof fn lemma_synchronize_rest(tokens: Seq<TokenView>, c: Cursor)
    ensures
        grammar::synchronize_rest(tokens, c).next_id == c.next_id,
    decreases tokens.len() - c.pos,
{
    if !(!(1 <= c.pos < tokens.len()) || grammar::at_end(tokens, c)) {
        if tokens[c.pos - 1].token_type != TokenType::Semicolon && !grammar::starts_statement(
            tokens[c.pos].token_type,
        ) {
            lemma_synchronize_rest(tokens, grammar::advance(tokens, c));
        }
    }
}

pub proof fn lemma_block_rest(
    tokens: Seq<TokenView>,
    c: Cursor,
    before: Seq<StmtView>,
    last_error: Option<Seq<char>>,
    low: int,
)
    requires
        fresh_stmts(before, low, c.next_id),
        low <= c.next_id,
    ensures
        c.next_id <= grammar::block_rest(tokens, c, before, last_error).cursor.next_id,
        grammar::block_rest(tokens, c, before, last_error).result matches Ok(s) ==> s is Block
            && fresh_stmts(
            s->Block_statements,
            low,
            grammar::block_rest(tokens, c, before, last_error).cursor.next_id,
        ),
    decreases tokens.len() - c.pos, 49nat, 0nat,
{
    if 0 <= c.pos < tokens.len() && !grammar::at_end(tokens, c) && tokens[c.pos].token_type
        != TokenType::RightBrace {
        lemma_declaration(tokens, c);
        let d = grammar::declaration(tokens, c);
        match d.result {
            Ok(s) => {
                if grammar::moved(tokens, c, d.cursor) {
                    lemma_stmts_push(before, s, low, c.next_id, d.cursor.next_id);
                    lemma_block_rest(tokens, d.cursor, before.push(s), last_error, low);
                }
            },
            Err(e) => {
                lemma_synchronize(tokens, d.cursor);
                let c1 = grammar::synchronize(tokens, d.cursor);
                if grammar::moved(tokens, c, c1) {
                    lemma_block_rest(tokens, c1, before, Some(e), low);
                }
            },
        }
    }
}

/// Every expression node of a program has an identifier of its own: no
/// identifier occurs twice among the statements that parsing a program
/// gives, whether in one statement or in two.
pub proof fn lemma_program_ids_are_unique(tokens: Seq<TokenView>, c: Cursor)
    ensures
        stmts_distinct(
            grammar::program(tokens, c).statements,
            grammar::program(tokens, c).statements.len(),
        ),
        within(
            stmts_ids(
                grammar::program(tokens, c).statements,
                grammar::program(tokens, c).statements.len(),
            ),
            c.next_id,
            grammar::program(tokens, c).cursor.next_id,
        ),
{
    let start = Program { statements: Seq::empty(), errors: Seq::empty(), cursor: c };
    assert(stmts_ids(Seq::<StmtView>::empty(), 0) =~= Set::empty());
    lemma_program_rest(tokens, start, c.next_id);
}

pub proof fn lemma_program_rest(tokens: Seq<TokenView>, so_far: Program, low: int)
    requires
        fresh_stmts(so_far.statements, low, so_far.cursor.next_id),
        low <= so_far.cursor.next_id,
    ensures
        so_far.cursor.next_id <= grammar::program_rest(tokens, so_far).cursor.next_id,
        fresh_stmts(
            grammar::program_rest(tokens, so_far).statements,
            low,
            grammar::program_rest(tokens, so_far).cursor.next_id,
        ),
    decreases tokens.len() - so_far.cursor.pos,
{
    let c = so_far.cursor;
    if 0 <= c.pos < tokens.len() && !grammar::at_end(tokens, c) {
        lemma_declaration(tokens, c);
        let d = grammar::declaration(tokens, c);
        match d.result {
            Ok(s) => {
                if grammar::moved(tokens, c, d.cursor) {
                    lemma_stmts_push(so_far.statements, s, low, c.next_id, d.cursor.next_id);
                    lemma_program_rest(
                        tokens,
                        Program {
                            statements: so_far.statements.push(s),
                            cursor: d.cursor,
                            ..so_far
                        },
                        low,
                    );
                }
            },
            Err(e) => {
                lemma_synchronize(tokens, d.cursor);
                let c1 = grammar::synchronize(tokens, d.cursor);
                if grammar::moved(tokens, c, c1) {
                    lemma_program_rest(
                        tokens,
                        Program { errors: so_far.errors.push(e), cursor: c1, ..so_far },
                        low,
                    );
                }
            },
        }
    }
}

} // verus!
