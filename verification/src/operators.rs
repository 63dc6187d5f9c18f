//! Literals and operators: what a literal denotes and what an operator
//! makes of its operands. Arithmetic on numbers and the reading of a
//! number's text are asked of the host.

use vstd::prelude::*;
use vstd::string::StringExecFns;
use crate::expression::Literal;
use crate::number;
use crate::text::{i32_to_string, int_text};
use crate::tokens::{LiteralTypes, Token, TokenType};
use crate::value::{InterpreterError, Value, values_equal};

verus! {

#[derive(Debug, Clone, Copy, PartialEq, Eq, Structural)]
pub enum NumberOp {
    Add,
    Subtract,
    Multiply,
    Divide,
}

/// A question to the host. The answer is a number, as bits.
#[derive(Debug, Clone, Copy, PartialEq)]
pub enum Request<'a> {
    /// The result of an arithmetic operation on two numbers.
    Arithmetic(NumberOp, u64, u64),
    /// The number that a decimal text denotes.
    Parse(&'a String),
    /// The wall-clock time in seconds since the epoch.
    Clock,
}

/// What evaluating an operator or a literal comes to.
pub enum Outcome<'a> {
    Value(Value<'a>),
    Ask(Request<'a>),
    Fail(InterpreterError),
}

/// What an outcome has to be. A string that the operation builds is
/// given by its text.
pub enum Expected<'a> {
    Value(Value<'a>),
    Text(Seq<char>),
    Ask(Request<'a>),
    Fail(Seq<char>),
}

/// Whether `outcome` is what `expected` says.
pub open spec fn agrees(outcome: Outcome, expected: Expected) -> bool {
    match expected {
        Expected::Value(w) => outcome matches Outcome::Value(v) && v == w,
        Expected::Text(t) => outcome matches Outcome::Value(Value::String(s)) && s@ == t,
        Expected::Ask(b) => outcome matches Outcome::Ask(a) && a == b,
        Expected::Fail(m) => outcome matches Outcome::Fail(e) && e.message@ == m,
    }
}

/// The text of a runtime error: the message and the line.
pub open spec fn error_text(message: Seq<char>, line: int) -> Seq<char> {
    message + "\n[line "@ + int_text(line) + "]"@
}

/// Builds a runtime error for `message` on `line`.
pub fn runtime_error(message: &str, line: i32) -> (r: InterpreterError)
    ensures
        r.message@ == error_text(message@, line as int),
{
    let mut text = String::from_str(message);
    text.append("\n[line ");
    let number = i32_to_string(line);
    text.append(number.as_str());
    text.append("]");
    InterpreterError { message: text }
}

/// What a literal denotes. A number is read by the host.
pub open spec fn literal_spec<'a>(literal: &'a Literal) -> Expected<'a> {
    match &literal.value {
        LiteralTypes::String(s) => Expected::Text(s@),
        LiteralTypes::Number(text) => Expected::Ask(Request::Parse(text)),
        LiteralTypes::Bool(b) => Expected::Value(Value::Bool(*b)),
        LiteralTypes::Nil => Expected::Value(Value::Nil),
    }
}

pub fn literal<'a>(node: &'a Literal) -> (r: Outcome<'a>)
    ensures
        agrees(r, literal_spec(node)),
{
    match &node.value {
        LiteralTypes::String(value) => Outcome::Value(Value::String(value.clone())),
        LiteralTypes::Number(text) => Outcome::Ask(Request::Parse(text)),
        LiteralTypes::Bool(value) => Outcome::Value(Value::Bool(*value)),
        LiteralTypes::Nil => Outcome::Value(Value::Nil),
    }
}

/// `!` negates truthiness; `-` negates a number and fails on anything
/// else.
pub open spec fn unary_spec<'a>(operator: Token, right: Value<'a>) -> Expected<'a> {
    match operator.token_type {
        TokenType::Bang => Expected::Value(Value::Bool(!crate::value::truthy(right))),
        TokenType::Minus => match right {
            Value::Number(n) => Expected::Value(Value::Number(number::negate_spec(n))),
            _ => Expected::Fail(error_text("Operand must be a number."@, operator.line as int)),
        },
        _ => Expected::Fail(
            error_text("Invalid operator '"@ + operator.lexeme@ + "'."@, operator.line as int),
        ),
    }
}

pub fn unary<'a>(operator: &Token, right: Value<'a>) -> (r: Outcome<'a>)
    ensures
        agrees(r, unary_spec(*operator, right)),
{
    match operator.token_type {
        TokenType::Bang => Outcome::Value(Value::Bool(!right.is_true())),
        TokenType::Minus => match right {
            Value::Number(value) => Outcome::Value(Value::Number(number::negate(value))),
            _ => Outcome::Fail(runtime_error("Operand must be a number.", operator.line)),
        },
        _ => {
            let mut message = String::from_str("Invalid operator '");
            message.append(operator.lexeme.as_str());
            message.append("'.");
            Outcome::Fail(runtime_error(message.as_str(), operator.line))
        },
    }
}

/// The arithmetic that an operator asks of the host, if it is one of
/// `-`, `/`, `*`.
pub open spec fn arithmetic_of(t: TokenType) -> Option<NumberOp> {
    match t {
        TokenType::Minus => Some(NumberOp::Subtract),
        TokenType::Slash => Some(NumberOp::Divide),
        TokenType::Star => Some(NumberOp::Multiply),
        _ => None,
    }
}

/// The comparison that an operator makes of two numbers, if it is one
/// of `>`, `>=`, `<`, `<=`.
pub open spec fn comparison_of(t: TokenType, a: u64, b: u64) -> Option<bool> {
    match t {
        TokenType::Greater => Some(number::less_spec(b, a)),
        TokenType::GreaterEqual => Some(number::less_equal_spec(b, a)),
        TokenType::Less => Some(number::less_spec(a, b)),
        TokenType::LessEqual => Some(number::less_equal_spec(a, b)),
        _ => None,
    }
}

/// What a binary operator makes of its operands. `+` adds two numbers
/// or joins two strings; `-`, `*`, `/` and the comparisons take numbers
/// only; `==` and `!=` take anything.
pub open spec fn binary_spec<'a>(operator: Token, left: Value<'a>, right: Value<'a>) -> Expected<
    'a,
> {
    let t = operator.token_type;
    let line = operator.line as int;
    if t == TokenType::EqualEqual {
        Expected::Value(Value::Bool(values_equal(left, right)))
    } else if t == TokenType::BangEqual {
        Expected::Value(Value::Bool(!values_equal(left, right)))
    } else if t == TokenType::Plus {
        match (left, right) {
            (Value::Number(a), Value::Number(b)) => Expected::Ask(
                Request::Arithmetic(NumberOp::Add, a, b),
            ),
            (Value::String(a), Value::String(b)) => Expected::Text(a@ + b@),
            _ => Expected::Fail(error_text("Operands must be two numbers or two strings."@, line)),
        }
    } else if arithmetic_of(t) is Some {
        match (left, right) {
            (Value::Number(a), Value::Number(b)) => Expected::Ask(
                Request::Arithmetic(arithmetic_of(t)->0, a, b),
            ),
            _ => Expected::Fail(error_text("Operands must be numbers."@, line)),
        }
    } else if t == TokenType::Greater || t == TokenType::GreaterEqual || t == TokenType::Less || t
        == TokenType::LessEqual {
        match (left, right) {
            (Value::Number(a), Value::Number(b)) => Expected::Value(
                Value::Bool(comparison_of(t, a, b)->0),
            ),
            _ => Expected::Fail(error_text("Operands must be numbers."@, line)),
        }
    } else {
        Expected::Fail("Invalid operator."@)
    }
}

fn numbers_expected<'a>(line: i32) -> (r: Outcome<'a>)
    ensures
        agrees(r, Expected::Fail(error_text("Operands must be numbers."@, line as int))),
{
    Outcome::Fail(runtime_error("Operands must be numbers.", line))
}

pub fn binary<'a>(operator: &Token, left: Value<'a>, right: Value<'a>) -> (r: Outcome<'a>)
    ensures
        agrees(r, binary_spec(*operator, left, right)),
{
    let line = operator.line;
    match operator.token_type {
        TokenType::Minus => match (left, right) {
            (Value::Number(a), Value::Number(b)) => Outcome::Ask(
                Request::Arithmetic(NumberOp::Subtract, a, b),
            ),
            _ => numbers_expected(line),
        },
        TokenType::Slash => match (left, right) {
            (Value::Number(a), Value::Number(b)) => Outcome::Ask(
                Request::Arithmetic(NumberOp::Divide, a, b),
            ),
            _ => numbers_expected(line),
        },
        TokenType::Star => match (left, right) {
            (Value::Number(a), Value::Number(b)) => Outcome::Ask(
                Request::Arithmetic(NumberOp::Multiply, a, b),
            ),
            _ => numbers_expected(line),
        },
        TokenType::Plus => match (left, right) {
            (Value::Number(a), Value::Number(b)) => Outcome::Ask(
                Request::Arithmetic(NumberOp::Add, a, b),
            ),
            (Value::String(a), Value::String(b)) => Outcome::Value(
                Value::String(a.concat(b.as_str())),
            ),
            _ => Outcome::Fail(
                runtime_error("Operands must be two numbers or two strings.", line),
            ),
        },
        TokenType::Greater => match (left, right) {
            (Value::Number(a), Value::Number(b)) => Outcome::Value(
                Value::Bool(number::greater(a, b)),
            ),
            _ => numbers_expected(line),
        },
        TokenType::GreaterEqual => match (left, right) {
            (Value::Number(a), Value::Number(b)) => Outcome::Value(
                Value::Bool(number::greater_equal(a, b)),
            ),
            _ => numbers_expected(line),
        },
        TokenType::Less => match (left, right) {
            (Value::Number(a), Value::Number(b)) => Outcome::Value(
                Value::Bool(number::less(a, b)),
            ),
            _ => numbers_expected(line),
        },
        TokenType::LessEqual => match (left, right) {
            (Value::Number(a), Value::Number(b)) => Outcome::Value(
                Value::Bool(number::less_equal(a, b)),
            ),
            _ => numbers_expected(line),
        },
        TokenType::BangEqual => Outcome::Value(Value::Bool(!left.equals(&right))),
        TokenType::EqualEqual => Outcome::Value(Value::Bool(left.equals(&right))),
        _ => Outcome::Fail(InterpreterError { message: String::from_str("Invalid operator.") }),
    }
}

/// Whether a logical operator is decided by its left operand alone:
/// `or` by a truthy one, `and` by a falsey one. The result is then that
/// operand, and the right operand is not evaluated.
pub open spec fn short_circuits(operator: Token, left: Value) -> bool {
    if operator.token_type == TokenType::Or {
        crate::value::truthy(left)
    } else {
        !crate::value::truthy(left)
    }
}

pub fn decides(operator: &Token, left: &Value) -> (r: bool)
    ensures
        r == short_circuits(*operator, *left),
{
    if operator.token_type == TokenType::Or {
        left.is_true()
    } else {
        !left.is_true()
    }
}

} // verus!
