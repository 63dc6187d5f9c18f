//! Text forms of expressions, for inspection: a prefix form with
//! parentheses and a postfix form without.

use vstd::prelude::*;
use vstd::string::StringExecFns;
use crate::expression::Expression;
use crate::tokens::LiteralTypes;

verus! {

/// The text of a literal: a string as its contents, a number as it was
/// written.
pub open spec fn literal_text(value: LiteralTypes) -> Seq<char> {
    match value {
        LiteralTypes::String(s) => s@,
        LiteralTypes::Number(n) => n@,
        LiteralTypes::Bool(b) => if b {
            "true"@
        } else {
            "false"@
        },
        LiteralTypes::Nil => "nil"@,
    }
}

fn literal_string(value: &LiteralTypes) -> (r: String)
    ensures
        r@ == literal_text(*value),
{
    match value {
        LiteralTypes::String(s) => s.clone(),
        LiteralTypes::Number(n) => n.clone(),
        LiteralTypes::Bool(b) => String::from_str(
            if *b {
                "true"
            } else {
                "false"
            },
        ),
        LiteralTypes::Nil => String::from_str("nil"),
    }
}

/// The prefix form: an operator comes before its operands, inside
/// parentheses.
pub open spec fn pretty(e: Expression) -> Seq<char>
    decreases e,
{
    match e {
        Expression::Assign(a) => a.name.lexeme@ + " = "@ + pretty(*a.value),
        Expression::Binary(b) => "("@ + b.operator.lexeme@ + " "@ + pretty(*b.left) + " "@ + pretty(
            *b.right,
        ) + ")"@,
        Expression::Call(c) => pretty(*c.callee) + "("@ + pretty_list(c.arguments@, 0) + ")"@,
        Expression::Get(g) => pretty(*g.object) + "."@ + g.name.lexeme@,
        Expression::Grouping(g) => "(group "@ + pretty(*g.expression) + ")"@,
        Expression::Literal(l) => literal_text(l.value),
        Expression::Logical(b) => "("@ + b.operator.lexeme@ + " "@ + pretty(*b.left) + " "@
            + pretty(*b.right) + ")"@,
        Expression::SetExpr(s) => pretty(*s.object) + "."@ + s.name.lexeme@ + " = "@ + pretty(
            *s.value,
        ),
        Expression::Super(s) => "super."@ + s.method.lexeme@,
        Expression::This(_) => "this"@,
        Expression::Unary(u) => "("@ + u.operator.lexeme@ + " "@ + pretty(*u.right) + ")"@,
        Expression::Variable(v) => v.name.lexeme@,
    }
}

/// The prefix forms of the expressions from position `i` on, separated
/// by commas.
pub open spec fn pretty_list(list: Seq<Expression>, i: int) -> Seq<char>
    decreases list, list.len() - i,
{
    if 0 <= i < list.len() {
        (if i > 0 {
            ", "@
        } else {
            ""@
        }) + pretty(list[i]) + pretty_list(list, i + 1)
    } else {
        Seq::empty()
    }
}

fn pretty_arguments(list: &Vec<Expression>) -> (r: String)
    ensures
        r@ == pretty_list(list@, 0),
    decreases list, 1nat,
{
    let mut text = String::new();
    let mut i: usize = 0;
    assert(text@ + pretty_list(list@, 0) =~= pretty_list(list@, 0));
    while i < list.len()
        invariant
            i <= list@.len(),
            text@ + pretty_list(list@, i as int) == pretty_list(list@, 0),
        decreases list@.len() - i,
    {
        let ghost before = text@;
        if i > 0 {
            text.append(", ");
        } else {
            text.append("");
        }
        let argument = pretty_print(&list[i]);
        text.append(argument.as_str());
        assert(text@ + pretty_list(list@, i + 1) =~= before + pretty_list(list@, i as int));
        i = i + 1;
    }
    assert(text@ + Seq::<char>::empty() =~= text@);
    text
}

pub fn pretty_print(expr: &Expression) -> (r: String)
    ensures
        r@ == pretty(*expr),
    decreases expr, 0nat,
{
    match expr {
        Expression::Assign(assign) => {
            let value = pretty_print(&assign.value);
            let mut text = assign.name.lexeme.clone();
            text.append(" = ");
            text.append(value.as_str());
            text
        },
        Expression::Binary(binary) => {
            let left = pretty_print(&binary.left);
            let right = pretty_print(&binary.right);
            let mut text = String::from_str("(");
            text.append(binary.operator.lexeme.as_str());
            text.append(" ");
            text.append(left.as_str());
            text.append(" ");
            text.append(right.as_str());
            text.append(")");
            text
        },
        Expression::Call(call) => {
            let mut text = pretty_print(&call.callee);
            text.append("(");
            let arguments = pretty_arguments(&call.arguments);
            text.append(arguments.as_str());
            text.append(")");
            text
        },
        Expression::Get(get) => {
            let mut text = pretty_print(&get.object);
            text.append(".");
            text.append(get.name.lexeme.as_str());
            text
        },
        Expression::Grouping(grouping) => {
            let inner = pretty_print(&grouping.expression);
            let mut text = String::from_str("(group ");
            text.append(inner.as_str());
            text.append(")");
            text
        },
        Expression::Literal(literal) => literal_string(&literal.value),
        Expression::Logical(logical) => {
            let left = pretty_print(&logical.left);
            let right = pretty_print(&logical.right);
            let mut text = String::from_str("(");
            text.append(logical.operator.lexeme.as_str());
            text.append(" ");
            text.append(left.as_str());
            text.append(" ");
            text.append(right.as_str());
            text.append(")");
            text
        },
        Expression::SetExpr(set) => {
            let value = pretty_print(&set.value);
            let mut text = pretty_print(&set.object);
            text.append(".");
            text.append(set.name.lexeme.as_str());
            text.append(" = ");
            text.append(value.as_str());
            text
        },
        Expression::Super(node) => {
            let mut text = String::from_str("super.");
            text.append(node.method.lexeme.as_str());
            text
        },
        Expression::This(_) => String::from_str("this"),
        Expression::Unary(unary) => {
            let right = pretty_print(&unary.right);
            let mut text = String::from_str("(");
            text.append(unary.operator.lexeme.as_str());
            text.append(" ");
            text.append(right.as_str());
            text.append(")");
            text
        },
        Expression::Variable(variable) => variable.name.lexeme.clone(),
    }
}

/// The postfix form: an operator comes after its operands; groupings
/// leave no trace.
pub open spec fn rpn(e: Expression) -> Seq<char>
    decreases e,
{
    match e {
        Expression::Assign(a) => a.name.lexeme@ + " = "@ + rpn(*a.value),
        Expression::Binary(b) => rpn(*b.left) + " "@ + rpn(*b.right) + " "@ + b.operator.lexeme@,
        Expression::Call(c) => rpn(*c.callee) + "("@ + rpn_list(c.arguments@, 0) + ")"@,
        Expression::Get(g) => rpn(*g.object) + "."@ + g.name.lexeme@,
        Expression::Grouping(g) => rpn(*g.expression),
        Expression::Literal(l) => literal_text(l.value),
        Expression::Logical(b) => rpn(*b.left) + " "@ + rpn(*b.right) + " "@ + b.operator.lexeme@,
        Expression::SetExpr(s) => rpn(*s.object) + "."@ + s.name.lexeme@ + " = "@ + rpn(*s.value),
        Expression::Super(s) => "super."@ + s.method.lexeme@,
        Expression::This(_) => "this"@,
        Expression::Unary(u) => rpn(*u.right) + " "@ + u.operator.lexeme@,
        Expression::Variable(v) => v.name.lexeme@,
    }
}

/// The postfix forms of the expressions from position `i` on,
/// separated by commas.
pub open spec fn rpn_list(list: Seq<Expression>, i: int) -> Seq<char>
    decreases list, list.len() - i,
{
    if 0 <= i < list.len() {
        (if i > 0 {
            ", "@
        } else {
            ""@
        }) + rpn(list[i]) + rpn_list(list, i + 1)
    } else {
        Seq::empty()
    }
}

fn rpn_arguments(list: &Vec<Expression>) -> (r: String)
    ensures
        r@ == rpn_list(list@, 0),
    decreases list, 1nat,
{
    let mut text = String::new();
    let mut i: usize = 0;
    assert(text@ + rpn_list(list@, 0) =~= rpn_list(list@, 0));
    while i < list.len()
        invariant
            i <= list@.len(),
            text@ + rpn_list(list@, i as int) == rpn_list(list@, 0),
        decreases list@.len() - i,
    {
        let ghost before = text@;
        if i > 0 {
            text.append(", ");
        } else {
            text.append("");
        }
        let argument = rpn_print(&list[i]);
        text.append(argument.as_str());
        assert(text@ + rpn_list(list@, i + 1) =~= before + rpn_list(list@, i as int));
        i = i + 1;
    }
    assert(text@ + Seq::<char>::empty() =~= text@);
    text
}

pub fn rpn_print(expr: &Expression) -> (r: String)
    ensures
        r@ == rpn(*expr),
    decreases expr, 0nat,
{
    match expr {
        Expression::Assign(assign) => {
            let value = rpn_print(&assign.value);
            let mut text = assign.name.lexeme.clone();
            text.append(" = ");
            text.append(value.as_str());
            text
        },
        Expression::Binary(binary) => {
            let right = rpn_print(&binary.right);
            let mut text = rpn_print(&binary.left);
            text.append(" ");
            text.append(right.as_str());
            text.append(" ");
            text.append(binary.operator.lexeme.as_str());
            text
        },
        Expression::Call(call) => {
            let mut text = rpn_print(&call.callee);
            text.append("(");
            let arguments = rpn_arguments(&call.arguments);
            text.append(arguments.as_str());
            text.append(")");
            text
        },
        Expression::Get(get) => {
            let mut text = rpn_print(&get.object);
            text.append(".");
            text.append(get.name.lexeme.as_str());
            text
        },
        Expression::Grouping(grouping) => rpn_print(&grouping.expression),
        Expression::Literal(literal) => literal_string(&literal.value),
        Expression::Logical(logical) => {
            let right = rpn_print(&logical.right);
            let mut text = rpn_print(&logical.left);
            text.append(" ");
            text.append(right.as_str());
            text.append(" ");
            text.append(logical.operator.lexeme.as_str());
            text
        },
        Expression::SetExpr(set) => {
            let value = rpn_print(&set.value);
            let mut text = rpn_print(&set.object);
            text.append(".");
            text.append(set.name.lexeme.as_str());
            text.append(" = ");
            text.append(value.as_str());
            text
        },
        Expression::Super(node) => {
            let mut text = String::from_str("super.");
            text.append(node.method.lexeme.as_str());
            text
        },
        Expression::This(_) => String::from_str("this"),
        Expression::Unary(unary) => {
            let mut text = rpn_print(&unary.right);
            text.append(" ");
            text.append(unary.operator.lexeme.as_str());
            text
        },
        Expression::Variable(variable) => variable.name.lexeme.clone(),
    }
}

} // verus!
