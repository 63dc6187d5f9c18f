//! Expressions. Every node carries an identifier that the parser assigns
//! in creation order.

use vstd::prelude::*;
use crate::tokens::{LiteralTypes, LiteralView, Token, TokenView};

verus! {

#[derive(Debug, PartialEq)]
pub enum Expression {
    Assign(Assign),
    Binary(Binary),
    Call(Call),
    Get(Get),
    Grouping(Grouping),
    Literal(Literal),
    Logical(Logical),
    SetExpr(SetExpr),
    Super(Super),
    This(This),
    Unary(Unary),
    Variable(Variable),
}

#[derive(Debug, PartialEq)]
pub struct Assign {
    pub id: usize,
    pub name: Token,
    pub value: Box<Expression>,
}

#[derive(Debug, PartialEq)]
pub struct Binary {
    pub id: usize,
    pub left: Box<Expression>,
    pub operator: Token,
    pub right: Box<Expression>,
}

#[derive(Debug, PartialEq)]
pub struct Call {
    pub id: usize,
    pub callee: Box<Expression>,
    pub paren: Token,
    pub arguments: Vec<Expression>,
}

#[derive(Debug, PartialEq)]
pub struct Get {
    pub id: usize,
    pub object: Box<Expression>,
    pub name: Token,
}

#[derive(Debug, PartialEq)]
pub struct Grouping {
    pub id: usize,
    pub expression: Box<Expression>,
}

#[derive(Debug, PartialEq)]
pub struct Literal {
    pub id: usize,
    pub value: LiteralTypes,
}

#[derive(Debug, PartialEq)]
pub struct Logical {
    pub id: usize,
    pub left: Box<Expression>,
    pub operator: Token,
    pub right: Box<Expression>,
}

#[derive(Debug, PartialEq)]
pub struct SetExpr {
    pub id: usize,
    pub object: Box<Expression>,
    pub name: Token,
    pub value: Box<Expression>,
}

#[derive(Debug, PartialEq)]
pub struct Super {
    pub id: usize,
    pub keyword: Token,
    pub method: Token,
}

#[derive(Debug, PartialEq)]
pub struct This {
    pub id: usize,
    pub keyword: Token,
}

#[derive(Debug, PartialEq)]
pub struct Unary {
    pub id: usize,
    pub operator: Token,
    pub right: Box<Expression>,
}

#[derive(Debug, PartialEq)]
pub struct Variable {
    pub id: usize,
    pub name: Token,
}

/// The mathematical value of an expression.
#[allow(inconsistent_fields)]
pub enum ExprView {
    Assign { id: int, name: TokenView, value: Box<ExprView> },
    Binary { id: int, left: Box<ExprView>, operator: TokenView, right: Box<ExprView> },
    Call { id: int, callee: Box<ExprView>, paren: TokenView, arguments: Seq<ExprView> },
    Get { id: int, object: Box<ExprView>, name: TokenView },
    Grouping { id: int, expression: Box<ExprView> },
    Literal { id: int, value: LiteralView },
    Logical { id: int, left: Box<ExprView>, operator: TokenView, right: Box<ExprView> },
    SetExpr { id: int, object: Box<ExprView>, name: TokenView, value: Box<ExprView> },
    Super { id: int, keyword: TokenView, method: TokenView },
    This { id: int, keyword: TokenView },
    Unary { id: int, operator: TokenView, right: Box<ExprView> },
    Variable { id: int, name: TokenView },
}

pub open spec fn variable_view(v: Variable) -> ExprView {
    ExprView::Variable { id: v.id as int, name: v.name@ }
}

pub open spec fn expr_view(e: Expression) -> ExprView
    decreases e,
{
    match e {
        Expression::Assign(a) => ExprView::Assign {
            id: a.id as int,
            name: a.name@,
            value: Box::new(expr_view(*a.value)),
        },
        Expression::Binary(b) => ExprView::Binary {
            id: b.id as int,
            left: Box::new(expr_view(*b.left)),
            operator: b.operator@,
            right: Box::new(expr_view(*b.right)),
        },
        Expression::Call(c) => ExprView::Call {
            id: c.id as int,
            callee: Box::new(expr_view(*c.callee)),
            paren: c.paren@,
            arguments: Seq::new(
                c.arguments@.len(),
                |i: int|
                    if 0 <= i < c.arguments@.len() {
                        expr_view(c.arguments@[i])
                    } else {
                        arbitrary()
                    },
            ),
        },
        Expression::Get(g) => ExprView::Get {
            id: g.id as int,
            object: Box::new(expr_view(*g.object)),
            name: g.name@,
        },
        Expression::Grouping(g) => ExprView::Grouping {
            id: g.id as int,
            expression: Box::new(expr_view(*g.expression)),
        },
        Expression::Literal(l) => ExprView::Literal { id: l.id as int, value: l.value@ },
        Expression::Logical(b) => ExprView::Logical {
            id: b.id as int,
            left: Box::new(expr_view(*b.left)),
            operator: b.operator@,
            right: Box::new(expr_view(*b.right)),
        },
        Expression::SetExpr(s) => ExprView::SetExpr {
            id: s.id as int,
            object: Box::new(expr_view(*s.object)),
            name: s.name@,
            value: Box::new(expr_view(*s.value)),
        },
        Expression::Super(s) => ExprView::Super {
            id: s.id as int,
            keyword: s.keyword@,
            method: s.method@,
        },
        Expression::This(t) => ExprView::This { id: t.id as int, keyword: t.keyword@ },
        Expression::Unary(u) => ExprView::Unary {
            id: u.id as int,
            operator: u.operator@,
            right: Box::new(expr_view(*u.right)),
        },
        Expression::Variable(v) => variable_view(v),
    }
}

impl View for Expression {
    type V = ExprView;

    open spec fn view(&self) -> ExprView {
        expr_view(*self)
    }
}

/// The views of a sequence of expressions, in order.
pub open spec fn exprs_view(s: Seq<Expression>) -> Seq<ExprView> {
    Seq::new(s.len(), |i: int| expr_view(s[i]))
}

/// The views of a list with one more expression at its end.
pub proof fn lemma_exprs_view_push(s: Seq<Expression>, e: Expression)
    ensures
        exprs_view(s.push(e)) == exprs_view(s).push(expr_view(e)),
{
    assert(exprs_view(s.push(e)) =~= exprs_view(s).push(expr_view(e)));
}

/// The view of a call lists the views of its arguments.
pub proof fn lemma_call_view(c: Call)
    ensures
        expr_view(Expression::Call(c)) == (ExprView::Call {
            id: c.id as int,
            callee: Box::new(expr_view(*c.callee)),
            paren: c.paren@,
            arguments: exprs_view(c.arguments@),
        }),
{
    assert(expr_view(Expression::Call(c))->Call_arguments =~= exprs_view(c.arguments@));
}

impl Expression {
    /// The identifier of the node at the root of this expression.
    pub open spec fn id_spec(&self) -> usize {
        match self {
            Expression::Assign(e) => e.id,
            Expression::Binary(e) => e.id,
            Expression::Call(e) => e.id,
            Expression::Get(e) => e.id,
            Expression::Grouping(e) => e.id,
            Expression::Literal(e) => e.id,
            Expression::Logical(e) => e.id,
            Expression::SetExpr(e) => e.id,
            Expression::Super(e) => e.id,
            Expression::This(e) => e.id,
            Expression::Unary(e) => e.id,
            Expression::Variable(e) => e.id,
        }
    }

    /// The identifier of the node at the root of this expression.
    pub fn id(&self) -> (r: usize)
        ensures
            r == self.id_spec(),
    {
        match self {
            Expression::Assign(e) => e.id,
            Expression::Binary(e) => e.id,
            Expression::Call(e) => e.id,
            Expression::Get(e) => e.id,
            Expression::Grouping(e) => e.id,
            Expression::Literal(e) => e.id,
            Expression::Logical(e) => e.id,
            Expression::SetExpr(e) => e.id,
            Expression::Super(e) => e.id,
            Expression::This(e) => e.id,
            Expression::Unary(e) => e.id,
            Expression::Variable(e) => e.id,
        }
    }
}

} // verus!
