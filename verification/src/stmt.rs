//! Statements.

use vstd::prelude::*;
use crate::expression::{Expression, ExprView, Variable, expr_view, variable_view};
use crate::tokens::{Token, TokenView, tokens_view};

verus! {

#[derive(Debug, PartialEq)]
pub enum Stmt {
    Class(ClassStmt),
    Expression(ExpressionStmt),
    Function(FunctionStmt),
    If(IfStmt),
    Print(PrintStmt),
    Block(BlockStmt),
    Return(ReturnStmt),
    Var(VarStmt),
    While(WhileStmt),
}

#[derive(Debug, PartialEq)]
pub struct ClassStmt {
    pub name: Token,
    pub superclass: Option<Box<Variable>>,
    pub methods: Vec<FunctionStmt>,
}

#[derive(Debug, PartialEq)]
pub struct ExpressionStmt {
    pub expression: Box<Expression>,
}

#[derive(Debug, PartialEq)]
pub struct FunctionStmt {
    pub name: Token,
    pub params: Vec<Token>,
    pub body: Vec<Stmt>,
}

#[derive(Debug, PartialEq)]
pub struct IfStmt {
    pub condition: Box<Expression>,
    pub then_branch: Box<Stmt>,
    pub else_branch: Option<Box<Stmt>>,
}

#[derive(Debug, PartialEq)]
pub struct PrintStmt {
    pub expression: Box<Expression>,
}

#[derive(Debug, PartialEq)]
pub struct BlockStmt {
    pub statements: Vec<Stmt>,
}

#[derive(Debug, PartialEq)]
pub struct ReturnStmt {
    pub keyword: Token,
    pub value: Option<Box<Expression>>,
}

#[derive(Debug, PartialEq)]
pub struct VarStmt {
    pub name: Token,
    pub initializer: Option<Box<Expression>>,
}

#[derive(Debug, PartialEq)]
pub struct WhileStmt {
    pub condition: Box<Expression>,
    pub body: Box<Stmt>,
}

/// The mathematical value of a function declaration.
pub struct FunctionView {
    pub name: TokenView,
    pub params: Seq<TokenView>,
    pub body: Seq<StmtView>,
}

/// The mathematical value of a statement.
pub enum StmtView {
    Class { name: TokenView, superclass: Option<ExprView>, methods: Seq<FunctionView> },
    Expression { expression: ExprView },
    Function { function: FunctionView },
    If { condition: ExprView, then_branch: Box<StmtView>, else_branch: Option<Box<StmtView>> },
    Print { expression: ExprView },
    Block { statements: Seq<StmtView> },
    Return { keyword: TokenView, value: Option<ExprView> },
    Var { name: TokenView, initializer: Option<ExprView> },
    While { condition: ExprView, body: Box<StmtView> },
}

pub open spec fn function_view(f: FunctionStmt) -> FunctionView
    decreases f,
{
    FunctionView {
        name: f.name@,
        params: tokens_view(f.params@),
        body: Seq::new(
            f.body@.len(),
            |i: int|
                if 0 <= i < f.body@.len() {
                    stmt_view(f.body@[i])
                } else {
                    arbitrary()
                },
        ),
    }
}

pub open spec fn stmt_view(s: Stmt) -> StmtView
    decreases s,
{
    match s {
        Stmt::Class(c) => StmtView::Class {
            name: c.name@,
            superclass: match c.superclass {
                Some(v) => Some(variable_view(*v)),
                None => None,
            },
            methods: Seq::new(
                c.methods@.len(),
                |i: int|
                    if 0 <= i < c.methods@.len() {
                        function_view(c.methods@[i])
                    } else {
                        arbitrary()
                    },
            ),
        },
        Stmt::Expression(e) => StmtView::Expression { expression: expr_view(*e.expression) },
        Stmt::Function(f) => StmtView::Function { function: function_view(f) },
        Stmt::If(i) => StmtView::If {
            condition: expr_view(*i.condition),
            then_branch: Box::new(stmt_view(*i.then_branch)),
            else_branch: match i.else_branch {
                Some(e) => Some(Box::new(stmt_view(*e))),
                None => None,
            },
        },
        Stmt::Print(p) => StmtView::Print { expression: expr_view(*p.expression) },
        Stmt::Block(b) => StmtView::Block {
            statements: Seq::new(
                b.statements@.len(),
                |i: int|
                    if 0 <= i < b.statements@.len() {
                        stmt_view(b.statements@[i])
                    } else {
                        arbitrary()
                    },
            ),
        },
        Stmt::Return(r) => StmtView::Return {
            keyword: r.keyword@,
            value: match r.value {
                Some(e) => Some(expr_view(*e)),
                None => None,
            },
        },
        Stmt::Var(v) => StmtView::Var {
            name: v.name@,
            initializer: match v.initializer {
                Some(e) => Some(expr_view(*e)),
                None => None,
            },
        },
        Stmt::While(w) => StmtView::While {
            condition: expr_view(*w.condition),
            body: Box::new(stmt_view(*w.body)),
        },
    }
}

impl View for Stmt {
    type V = StmtView;

    open spec fn view(&self) -> StmtView {
        stmt_view(*self)
    }
}

impl View for FunctionStmt {
    type V = FunctionView;

    open spec fn view(&self) -> FunctionView {
        function_view(*self)
    }
}

/// The views of a sequence of statements, in order.
pub open spec fn stmts_view(s: Seq<Stmt>) -> Seq<StmtView> {
    Seq::new(s.len(), |i: int| stmt_view(s[i]))
}

/// The views of a sequence of function declarations, in order.
pub open spec fn functions_view(s: Seq<FunctionStmt>) -> Seq<FunctionView> {
    Seq::new(s.len(), |i: int| function_view(s[i]))
}

/// The views of a list with one more statement at its end.
pub proof fn lemma_stmts_view_push(s: Seq<Stmt>, x: Stmt)
    ensures
        stmts_view(s.push(x)) == stmts_view(s).push(stmt_view(x)),
{
    assert(stmts_view(s.push(x)) =~= stmts_view(s).push(stmt_view(x)));
}

/// The views of a list with one more function declaration at its end.
pub proof fn lemma_functions_view_push(s: Seq<FunctionStmt>, x: FunctionStmt)
    ensures
        functions_view(s.push(x)) == functions_view(s).push(function_view(x)),
{
    assert(functions_view(s.push(x)) =~= functions_view(s).push(function_view(x)));
}

/// The views of a list with one more token at its end.
pub proof fn lemma_tokens_view_push(s: Seq<Token>, x: Token)
    ensures
        tokens_view(s.push(x)) == tokens_view(s).push(x@),
{
    assert(tokens_view(s.push(x)) =~= tokens_view(s).push(x@));
}

/// The view of a block lists the views of its statements.
pub proof fn lemma_block_view(b: BlockStmt)
    ensures
        stmt_view(Stmt::Block(b)) == (StmtView::Block { statements: stmts_view(b.statements@) }),
{
    assert(stmt_view(Stmt::Block(b))->Block_statements =~= stmts_view(b.statements@));
}

/// The view of a function declaration lists the views of its
/// parameters and of the statements of its body.
pub proof fn lemma_function_view(f: FunctionStmt)
    ensures
        function_view(f) == (FunctionView {
            name: f.name@,
            params: tokens_view(f.params@),
            body: stmts_view(f.body@),
        }),
{
    assert(function_view(f).body =~= stmts_view(f.body@));
}

/// The view of a class declaration lists the views of its methods.
pub proof fn lemma_class_view(c: ClassStmt)
    ensures
        stmt_view(Stmt::Class(c)) == (StmtView::Class {
            name: c.name@,
            superclass: match c.superclass {
                Some(v) => Some(variable_view(*v)),
                None => None,
            },
            methods: functions_view(c.methods@),
        }),
{
    assert(stmt_view(Stmt::Class(c))->Class_methods =~= functions_view(c.methods@));
}

} // verus!
