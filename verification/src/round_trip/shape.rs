//! Expressions without their labels: the identifiers of the nodes and
//! the lines of the tokens.

use vstd::prelude::*;
use crate::expression::{Expression, ExprView, expr_view};
use crate::round_trip::parsing::{renumber, renumber_list};
use crate::round_trip::text::lemma_parts_are_plain;
use crate::round_trip::{all_plain, is_plain, lemma_keywords};
use crate::tokens::TokenView;

verus! {

/// A token without its line.
pub open spec fn bare_token(t: TokenView) -> TokenView {
    TokenView { line: 0, ..t }
}

/// An expression without its labels: every identifier and every line
/// is zero.
pub open spec fn bare(v: ExprView) -> ExprView
    decreases v,
{
    match v {
        ExprView::Assign { id, name, value } => ExprView::Assign {
            id: 0,
            name: bare_token(name),
            value: Box::new(bare(*value)),
        },
        ExprView::Binary { id, left, operator, right } => ExprView::Binary {
            id: 0,
            left: Box::new(bare(*left)),
            operator: bare_token(operator),
            right: Box::new(bare(*right)),
        },
        ExprView::Call { id, callee, paren, arguments } => ExprView::Call {
            id: 0,
            callee: Box::new(bare(*callee)),
            paren: bare_token(paren),
            arguments: Seq::new(
                arguments.len(),
                |i: int|
                    if 0 <= i < arguments.len() {
                        bare(arguments[i])
                    } else {
                        arbitrary()
                    },
            ),
        },
        ExprView::Get { id, object, name } => ExprView::Get {
            id: 0,
            object: Box::new(bare(*object)),
            name: bare_token(name),
        },
        ExprView::Grouping { id, expression } => ExprView::Grouping {
            id: 0,
            expression: Box::new(bare(*expression)),
        },
        ExprView::Literal { id, value } => ExprView::Literal { id: 0, value },
        ExprView::Logical { id, left, operator, right } => ExprView::Logical {
            id: 0,
            left: Box::new(bare(*left)),
            operator: bare_token(operator),
            right: Box::new(bare(*right)),
        },
        ExprView::SetExpr { id, object, name, value } => ExprView::SetExpr {
            id: 0,
            object: Box::new(bare(*object)),
            name: bare_token(name),
            value: Box::new(bare(*value)),
        },
        ExprView::Super { id, keyword, method } => ExprView::Super {
            id: 0,
            keyword: bare_token(keyword),
            method: bare_token(method),
        },
        ExprView::This { id, keyword } => ExprView::This { id: 0, keyword: bare_token(keyword) },
        ExprView::Unary { id, operator, right } => ExprView::Unary {
            id: 0,
            operator: bare_token(operator),
            right: Box::new(bare(*right)),
        },
        ExprView::Variable { id, name } => ExprView::Variable { id: 0, name: bare_token(name) },
    }
}

/// Whether two expressions are the same but for their labels.
pub open spec fn same_but_for_labels(a: ExprView, b: ExprView) -> bool {
    bare(a) == bare(b)
}

/// A plain expression as the parser numbers it is the expression, but
/// for its labels.
pub proof fn lemma_renumbered_is_same(e: Expression, line: int, first: int)
    requires
        is_plain(e),
    ensures
        same_but_for_labels(renumber(e, line, first).view, expr_view(e)),
    decreases e,
{
    lemma_keywords();
    lemma_parts_are_plain(e);
    match e {
        Expression::Get(g) => {
            lemma_renumbered_is_same(*g.object, line, first);
        },
        Expression::Call(c) => {
            lemma_renumbered_is_same(*c.callee, line, first);
            let f = renumber(*c.callee, line, first);
            let list = c.arguments@;
            lemma_list_is_same(list, 0, line, f.next, Seq::empty());
            let read = renumber_list(list, 0, line, f.next, Seq::empty()).views;
            let a = bare(renumber(e, line, first).view);
            let b = bare(expr_view(e));
            assert(a->Call_arguments =~= b->Call_arguments);
        },
        Expression::Assign(a) => {
            lemma_renumbered_is_same(*a.value, line, first + 1);
        },
        Expression::SetExpr(s) => {
            lemma_renumbered_is_same(*s.object, line, first);
            lemma_renumbered_is_same(
                *s.value,
                line,
                renumber(*s.object, line, first).next + 1,
            );
        },
        _ => {},
    }
}

/// The arguments as the parser numbers them are the arguments, but for
/// their labels.
pub proof fn lemma_list_is_same(
    list: Seq<Expression>,
    i: int,
    line: int,
    first: int,
    before: Seq<ExprView>,
)
    requires
        0 <= i <= list.len(),
        all_plain(list, i),
        before.len() == i,
        forall|j: int| 0 <= j < i ==> same_but_for_labels(#[trigger] before[j], expr_view(list[j])),
    ensures
        renumber_list(list, i, line, first, before).views.len() == list.len(),
        forall|j: int|
            0 <= j < list.len() ==> same_but_for_labels(
                #[trigger] renumber_list(list, i, line, first, before).views[j],
                expr_view(list[j]),
            ),
    decreases list, list.len() - i,
{
    if i < list.len() {
        let x = renumber(list[i], line, first);
        lemma_renumbered_is_same(list[i], line, first);
        lemma_list_is_same(list, i + 1, line, x.next, before.push(x.view));
    }
}

} // verus!
