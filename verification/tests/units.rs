use lox::callable::{Callable, LoxBuiltinFunctionClock, LoxDynamicFunction};
use lox::driver::{command, Command};
use lox::environment::Environment;
use lox::expression::{Expression, Literal, Variable};
use lox::interpreter::Interpreter;
use lox::names::{str_eq, NameMap};
use lox::number;
use lox::parser::Parser;
use lox::printer::{pretty_print, rpn_print};
use lox::resolver::Resolver;
use lox::scanner::Scanner;
use lox::stmt::Stmt;
use lox::text::{i32_to_string, u64_to_padded4, u64_to_string, usize_to_string};
use lox::tokens::{LiteralTypes, Token, TokenType};
use lox::value::Value;
use lox::vm::chunk::{Chunk, OpCode};
use lox::vm::compiler::compile;
use lox::vm::virtualmachine::{stack_trace, Action, InterpretResult, VirtualMachine};

fn scan(source: &str) -> Vec<Token> {
    let mut scanner = Scanner::new(source.to_string());
    scanner.scan_tokens().clone()
}

fn kinds(source: &str) -> Vec<TokenType> {
    scan(source).iter().map(|t| t.token_type).collect()
}

fn parse(source: &str) -> Vec<Stmt> {
    Parser::new(scan(source)).parse().unwrap()
}

#[test]
fn decimal_text_of_integers() {
    assert_eq!(u64_to_string(0), "0");
    assert_eq!(u64_to_string(7), "7");
    assert_eq!(u64_to_string(10), "10");
    assert_eq!(u64_to_string(1234567890), "1234567890");
    assert_eq!(u64_to_string(u64::MAX), "18446744073709551615");
    assert_eq!(usize_to_string(255), "255");
    assert_eq!(i32_to_string(0), "0");
    assert_eq!(i32_to_string(42), "42");
    assert_eq!(i32_to_string(-42), "-42");
    assert_eq!(i32_to_string(i32::MAX), "2147483647");
    assert_eq!(i32_to_string(i32::MIN), "-2147483648");
}

#[test]
fn padded_text_of_integers() {
    assert_eq!(u64_to_padded4(0), "0000");
    assert_eq!(u64_to_padded4(7), "0007");
    assert_eq!(u64_to_padded4(42), "0042");
    assert_eq!(u64_to_padded4(123), "0123");
    assert_eq!(u64_to_padded4(9999), "9999");
    assert_eq!(u64_to_padded4(12345), "12345");
}

#[test]
fn text_equality() {
    assert!(str_eq("", ""));
    assert!(str_eq("init", "init"));
    assert!(!str_eq("init", "Init"));
    assert!(!str_eq("in", "init"));
    assert!(str_eq("na\u{ef}ve", "na\u{ef}ve"));
}

#[test]
fn name_map_insert_and_get() {
    let mut map: NameMap<i32> = NameMap::new();
    assert!(!map.contains_key("a"));
    map.insert("a", 1);
    map.insert("b", 2);
    map.insert("a", 3);
    assert_eq!(map.get("a"), Some(&3));
    assert_eq!(map.get("b"), Some(&2));
    assert_eq!(map.get("c"), None);
    assert_eq!(map.keys.len(), 2);
}

#[test]
fn number_comparison_agrees_with_the_host() {
    let samples = [
        0.0,
        -0.0,
        1.0,
        -1.0,
        0.5,
        -0.5,
        1e300,
        -1e300,
        5e-324,
        -5e-324,
        f64::MAX,
        f64::MIN,
        f64::INFINITY,
        f64::NEG_INFINITY,
        f64::NAN,
        -f64::NAN,
        3.0,
        2.9999999999999996,
    ];
    for a in samples {
        for b in samples {
            let (x, y) = (a.to_bits(), b.to_bits());
            assert_eq!(number::equal(x, y), a == b, "{} == {}", a, b);
            assert_eq!(number::less(x, y), a < b, "{} < {}", a, b);
            assert_eq!(number::less_equal(x, y), a <= b, "{} <= {}", a, b);
            assert_eq!(number::greater(x, y), a > b, "{} > {}", a, b);
            assert_eq!(number::greater_equal(x, y), a >= b, "{} >= {}", a, b);
        }
        assert_eq!(number::negate(a.to_bits()), (-a).to_bits());
        assert_eq!(number::nan(a.to_bits()), a.is_nan());
    }
}

#[test]
fn scanner_two_character_operators() {
    assert_eq!(
        kinds("! != = == < <= > >= / //x\n/"),
        vec![
            TokenType::Bang,
            TokenType::BangEqual,
            TokenType::Equal,
            TokenType::EqualEqual,
            TokenType::Less,
            TokenType::LessEqual,
            TokenType::Greater,
            TokenType::GreaterEqual,
            TokenType::Slash,
            TokenType::Slash,
            TokenType::Eof,
        ]
    );
}

#[test]
fn scanner_counts_lines() {
    let tokens = scan("a\n\"x\ny\"\r\n\tb // c\nd");
    let lines: Vec<i32> = tokens.iter().map(|t| t.line).collect();
    assert_eq!(lines, vec![1, 3, 4, 5, 5]);
    assert_eq!(tokens[1].literal, LiteralTypes::String("x\ny".to_string()));
    assert_eq!(tokens[1].lexeme, "\"x\ny\"");
}

#[test]
fn scanner_number_forms() {
    let tokens = scan("1. .5 1.2.3 007");
    let lexemes: Vec<&str> = tokens.iter().map(|t| t.lexeme.as_str()).collect();
    assert_eq!(lexemes, vec!["1", ".", ".", "5", "1.2", ".", "3", "007", ""]);
    assert_eq!(tokens[4].literal, LiteralTypes::Number("1.2".to_string()));
}

#[test]
fn scanner_identifiers_and_keywords() {
    let tokens = scan("_a1 classy class nil_ orchid");
    assert_eq!(
        tokens.iter().map(|t| t.token_type).collect::<Vec<_>>(),
        vec![
            TokenType::Identifier,
            TokenType::Identifier,
            TokenType::Class,
            TokenType::Identifier,
            TokenType::Identifier,
            TokenType::Eof,
        ]
    );
    assert_eq!(tokens[0].literal, LiteralTypes::String("_a1".to_string()));
}

#[test]
fn scanner_reports_and_goes_on() {
    let mut scanner = Scanner::new("a # b\n\"open".to_string());
    let tokens = scanner.scan_tokens().clone();
    assert!(scanner.had_error);
    assert_eq!(
        scanner.errors,
        vec![
            "[line 1] Error : Unexpected character.".to_string(),
            "[line 2] Error : Unterminated string.".to_string(),
        ]
    );
    assert_eq!(tokens.len(), 3);
    assert_eq!(tokens[2].token_type, TokenType::Eof);
    assert_eq!(tokens[2].line, 2);
}

#[test]
fn scanner_empty_source() {
    let tokens = scan("");
    assert_eq!(tokens, vec![Token::new(TokenType::Eof, "".to_string(), LiteralTypes::Nil, 1)]);
}

fn ids(expression: &Expression, out: &mut Vec<usize>) {
    out.push(expression.id());
    match expression {
        Expression::Assign(e) => ids(&e.value, out),
        Expression::Binary(e) => {
            ids(&e.left, out);
            ids(&e.right, out);
        }
        Expression::Call(e) => {
            ids(&e.callee, out);
            for a in &e.arguments {
                ids(a, out);
            }
        }
        Expression::Get(e) => ids(&e.object, out),
        Expression::Grouping(e) => ids(&e.expression, out),
        Expression::Logical(e) => {
            ids(&e.left, out);
            ids(&e.right, out);
        }
        Expression::SetExpr(e) => {
            ids(&e.object, out);
            ids(&e.value, out);
        }
        Expression::Unary(e) => ids(&e.right, out),
        _ => {}
    }
}

fn statement_ids(statement: &Stmt, out: &mut Vec<usize>) {
    match statement {
        Stmt::Expression(s) => ids(&s.expression, out),
        Stmt::Print(s) => ids(&s.expression, out),
        Stmt::Var(s) => {
            if let Some(e) = &s.initializer {
                ids(e, out);
            }
        }
        Stmt::Block(s) => {
            for inner in &s.statements {
                statement_ids(inner, out);
            }
        }
        Stmt::If(s) => {
            ids(&s.condition, out);
            statement_ids(&s.then_branch, out);
            if let Some(e) = &s.else_branch {
                statement_ids(e, out);
            }
        }
        Stmt::While(s) => {
            ids(&s.condition, out);
            statement_ids(&s.body, out);
        }
        Stmt::Return(s) => {
            if let Some(e) = &s.value {
                ids(e, out);
            }
        }
        Stmt::Function(s) => {
            for inner in &s.body {
                statement_ids(inner, out);
            }
        }
        Stmt::Class(s) => {
            if let Some(v) = &s.superclass {
                out.push(v.id);
            }
            for m in &s.methods {
                for inner in &m.body {
                    statement_ids(inner, out);
                }
            }
        }
    }
}

#[test]
fn expression_ids_are_unique() {
    let statements = parse(
        "var a = 1 + 2 * (3 - b.c); a.b.c = f(a, b)(c); for (;;) { x = y = !z; } \
         class A < B { m(p) { return super.m(this.q or p and nil); } } \
         for (var i = 0; i < 3; i = i + 1) print i;",
    );
    let mut all = Vec::new();
    for statement in &statements {
        statement_ids(statement, &mut all);
    }
    let mut sorted = all.clone();
    sorted.sort();
    sorted.dedup();
    assert_eq!(sorted.len(), all.len());
    assert!(all.len() > 30);
}

#[test]
fn for_statement_becomes_a_while_loop() {
    let statements = parse("for (var i = 0; i < 2; i = i + 1) print i;");
    match &statements[0] {
        Stmt::Block(block) => {
            assert!(matches!(block.statements[0], Stmt::Var(_)));
            match &block.statements[1] {
                Stmt::While(looped) => match &*looped.body {
                    Stmt::Block(body) => {
                        assert!(matches!(body.statements[0], Stmt::Print(_)));
                        assert!(matches!(body.statements[1], Stmt::Expression(_)));
                    }
                    _ => panic!("expected a block"),
                },
                _ => panic!("expected a loop"),
            }
        }
        _ => panic!("expected a block"),
    }
    let statements = parse("for (;;) print 1;");
    match &statements[0] {
        Stmt::While(looped) => {
            assert_eq!(
                *looped.condition,
                Expression::Literal(Literal { id: 1, value: LiteralTypes::Bool(true) })
            );
        }
        _ => panic!("expected a loop"),
    }
}

#[test]
fn assignment_targets() {
    let statements = parse("a = 1; a.b = 2; a.b.c = d = 3;");
    assert!(matches!(&statements[0], Stmt::Expression(s) if matches!(*s.expression, Expression::Assign(_))));
    assert!(matches!(&statements[1], Stmt::Expression(s) if matches!(*s.expression, Expression::SetExpr(_))));
    match &statements[2] {
        Stmt::Expression(s) => match &*s.expression {
            Expression::SetExpr(set) => {
                assert!(matches!(*set.object, Expression::Get(_)));
                assert!(matches!(*set.value, Expression::Assign(_)));
            }
            _ => panic!("expected a property write"),
        },
        _ => panic!("expected an expression statement"),
    }
}

#[test]
fn parser_recovers_at_statement_boundaries() {
    let mut parser = Parser::new(scan("var = 1; print 2 var b;"));
    assert!(parser.parse().is_err());
    assert_eq!(
        parser.errors(),
        &vec![
            "[line 1] Error at '=': Expect variable name.".to_string(),
            "[line 1] Error at 'var': Expect ';' after value.".to_string(),
        ]
    );
}

#[test]
fn resolver_records_depths() {
    let statements = parse("var g; { var a; { var b; a; b; g; { a; } } }");
    let mut interpreter = Interpreter::new();
    let mut resolver = Resolver::new();
    resolver.resolve_stmts(&mut interpreter, &statements).unwrap();
    let mut found = Vec::new();
    fn walk(statement: &Stmt, out: &mut Vec<(String, usize)>) {
        match statement {
            Stmt::Block(b) => {
                for s in &b.statements {
                    walk(s, out);
                }
            }
            Stmt::Expression(s) => {
                if let Expression::Variable(Variable { id, name }) = &*s.expression {
                    out.push((name.lexeme.clone(), *id));
                }
            }
            _ => {}
        }
    }
    for statement in &statements {
        walk(statement, &mut found);
    }
    let depths: Vec<(String, Option<usize>)> = found
        .iter()
        .map(|(name, id)| (name.clone(), interpreter.locals.get(id).copied()))
        .collect();
    assert_eq!(
        depths,
        vec![
            ("a".to_string(), Some(1)),
            ("b".to_string(), Some(0)),
            ("g".to_string(), None),
            ("a".to_string(), Some(2)),
        ]
    );
}

#[test]
fn environment_scopes() {
    let mut environments = Environment::new();
    let token = |name: &str| Token::new_identifier(name.to_string(), 3);
    let a = token("a");
    let missing = token("missing");
    environments.define(0, "a", Value::Number(1));
    let inner = environments.with_enclosing(0);
    let innermost = environments.with_enclosing(inner);
    environments.define(inner, "a", Value::Number(2));
    assert_eq!(environments.get(innermost, "a"), Some(Value::Number(2)));
    assert_eq!(environments.get(0, "a"), Some(Value::Number(1)));
    assert_eq!(environments.get_at(innermost, "a", 0), None);
    assert_eq!(environments.get_at(innermost, "a", 1), Some(Value::Number(2)));
    assert_eq!(environments.get_at(innermost, "a", 2), Some(Value::Number(1)));
    assert_eq!(environments.get_at(innermost, "a", 3), None);
    assert!(environments.assign_at(innermost, &a, Value::Number(5), 2).is_ok());
    assert_eq!(environments.get(0, "a"), Some(Value::Number(5)));
    assert_eq!(environments.get(innermost, "a"), Some(Value::Number(2)));
    assert!(environments.assign(innermost, &a, Value::Nil).is_ok());
    assert_eq!(environments.get(inner, "a"), Some(Value::Nil));
    let error = environments.assign(innermost, &missing, Value::Nil).unwrap_err();
    assert_eq!(error.message, "Undefined variable 'missing'.\n[line 3]");
    let error = environments.assign_at(innermost, &a, Value::Nil, 0).unwrap_err();
    assert_eq!(error.message, "Undefined variable 'a'.\n[line 3]");
    assert_eq!(environments.ancestor(innermost, 2), Some(0));
    assert_eq!(environments.ancestor(innermost, 3), None);
}

#[test]
fn values() {
    assert!(Value::Nil.is_nil());
    assert!(!Value::Bool(false).is_nil());
    assert!(!Value::Nil.is_true());
    assert!(!Value::Bool(false).is_true());
    assert!(Value::Bool(true).is_true());
    assert!(Value::Number(0).is_true());
    assert!(Value::String(String::new()).is_true());
    let clock = Callable::DynamicFunction(LoxDynamicFunction {
        callable: LoxBuiltinFunctionClock::new(),
    });
    assert!(Value::Callable(clock).equals(&Value::Callable(clock)));
    assert!(!Value::Callable(clock).equals(&Value::Nil));
    assert!(Value::Instance(1).equals(&Value::Instance(1)));
    assert!(!Value::Instance(1).equals(&Value::Instance(2)));
    assert_eq!(LoxBuiltinFunctionClock::new().arity(), 0);
    assert_eq!(LoxBuiltinFunctionClock::new().to_string(), "<native fn>");
}

#[test]
fn command_line() {
    assert_eq!(command(1), Command::Prompt);
    assert_eq!(command(2), Command::Script);
    assert_eq!(command(3), Command::Misuse);
}

#[test]
fn printers_cover_every_expression() {
    let statements = parse("a.b(1, c)(d).e = !f or g and this.h;");
    match &statements[0] {
        Stmt::Expression(s) => {
            assert_eq!(
                pretty_print(&s.expression),
                "a.b(1, c)(d).e = (or (! f) (and g this.h))"
            );
            assert_eq!(rpn_print(&s.expression), "a.b(1, c)(d).e = f ! g this.h and or");
        }
        _ => panic!("expected an expression statement"),
    }
}

#[test]
fn opcode_bytes() {
    let all = [
        OpCode::Constant,
        OpCode::Add,
        OpCode::Subtract,
        OpCode::Multiply,
        OpCode::Divide,
        OpCode::Negate,
        OpCode::Return,
        OpCode::Nil,
        OpCode::True,
        OpCode::False,
        OpCode::Equal,
        OpCode::Greater,
        OpCode::Less,
        OpCode::Not,
    ];
    for (i, op) in all.iter().enumerate() {
        assert_eq!(op.to_byte() as usize, i);
        assert_eq!(OpCode::from_byte(i as u8), Some(*op));
    }
    assert_eq!(OpCode::from_byte(14), None);
    assert_eq!(OpCode::from_byte(255), None);
}

#[test]
fn compile_emits_comparisons_as_pairs() {
    let code = |source: &str| compile(source.to_string()).unwrap().code;
    let b = |op: OpCode| op.to_byte();
    assert_eq!(
        code("1 != 2"),
        vec![b(OpCode::Constant), 0, b(OpCode::Constant), 1, b(OpCode::Equal), b(OpCode::Not), b(OpCode::Return)]
    );
    assert_eq!(
        code("1 >= 2"),
        vec![b(OpCode::Constant), 0, b(OpCode::Constant), 1, b(OpCode::Less), b(OpCode::Not), b(OpCode::Return)]
    );
    assert_eq!(
        code("1 <= 2"),
        vec![b(OpCode::Constant), 0, b(OpCode::Constant), 1, b(OpCode::Greater), b(OpCode::Not), b(OpCode::Return)]
    );
    assert_eq!(
        code("!(nil == true)"),
        vec![b(OpCode::Nil), b(OpCode::True), b(OpCode::Equal), b(OpCode::Not), b(OpCode::Return)]
    );
    assert_eq!(
        code("-1 + 2 * 3"),
        vec![
            b(OpCode::Constant),
            0,
            b(OpCode::Negate),
            b(OpCode::Constant),
            1,
            b(OpCode::Constant),
            2,
            b(OpCode::Multiply),
            b(OpCode::Add),
            b(OpCode::Return)
        ]
    );
}

#[test]
fn compile_records_constants_and_lines() {
    let chunk = compile("1.5 +\n2".to_string()).unwrap();
    assert_eq!(chunk.constants, vec!["1.5".to_string(), "2".to_string()]);
    assert_eq!(chunk.lines, vec![1, 1, 2, 2, 2, 2]);
    assert_eq!(
        chunk.disassemble("code"),
        "== code ==\n0000 0001 OP_CONSTANT 0000 1.5\n0002 0002 OP_CONSTANT 0001 2\n0004    | OP_ADD\n0005    | OP_RETURN\n"
    );
}

#[test]
fn compile_errors() {
    assert_eq!(
        compile("".to_string()).unwrap_err(),
        "[line 1] Error at 'end': Expect expression."
    );
    assert_eq!(
        compile("(1".to_string()).unwrap_err(),
        "[line 1] Error at 'end': Expect ')' after expression."
    );
    assert_eq!(
        compile("1 + *".to_string()).unwrap_err(),
        "[line 1] Error at '*': Expect expression."
    );
    let mut many = String::from("0");
    for i in 1..257 {
        many.push_str(&format!(" + {}", i));
    }
    assert_eq!(
        compile(many).unwrap_err(),
        "[line 1] Error at '256': Too many constants in one chunk."
    );
}

#[test]
fn disassemble_unknown_opcode() {
    let mut chunk = Chunk::new();
    chunk.write(200, 7);
    chunk.write_op_code(OpCode::Constant, 7);
    assert_eq!(
        chunk.disassemble("x"),
        "== x ==\n0000 0007 Unknown opcode 200\n0001    | OP_CONSTANT ?\n"
    );
}

fn run_vm(source: &str) -> Result<Vec<String>, String> {
    let mut vm = VirtualMachine::new();
    vm.interpret(source.to_string())?;
    let mut printed = Vec::new();
    loop {
        match vm.step() {
            Action::Continue => {}
            Action::Arithmetic(op, a, b) => {
                let (x, y) = (f64::from_bits(a), f64::from_bits(b));
                let z = match op {
                    lox::operators::NumberOp::Add => x + y,
                    lox::operators::NumberOp::Subtract => x - y,
                    lox::operators::NumberOp::Multiply => x * y,
                    lox::operators::NumberOp::Divide => x / y,
                };
                vm.resume(z.to_bits());
            }
            Action::Parse(text) => vm.resume(text.parse::<f64>().unwrap().to_bits()),
            Action::Print(value) => printed.push(match value {
                lox::vm::virtualmachine::Value::Number(bits) => format!("{}", f64::from_bits(bits)),
                lox::vm::virtualmachine::Value::Bool(b) => format!("{}", b),
                lox::vm::virtualmachine::Value::Nil => "nil".to_string(),
            }),
            Action::Done(InterpretResult::Completed) => return Ok(printed),
            Action::Done(_) => return Err("not completed".to_string()),
            Action::Failed(message) => return Err(message),
        }
    }
}

#[test]
fn vm_runs_expressions() {
    assert_eq!(run_vm("1 + 2 * 3").unwrap(), vec!["7"]);
    assert_eq!(run_vm("(1 + 2) * 3").unwrap(), vec!["9"]);
    assert_eq!(run_vm("-(1.5)").unwrap(), vec!["-1.5"]);
    assert_eq!(run_vm("!nil").unwrap(), vec!["true"]);
    assert_eq!(run_vm("1 < 2").unwrap(), vec!["true"]);
    assert_eq!(run_vm("1 >= 2").unwrap(), vec!["false"]);
    assert_eq!(run_vm("nil == false").unwrap(), vec!["false"]);
    assert_eq!(run_vm("1 == 1").unwrap(), vec!["true"]);
    assert_eq!(run_vm("8 / 2 / 2").unwrap(), vec!["2"]);
    assert_eq!(run_vm("1 - 2 - 3").unwrap(), vec!["-4"]);
    assert_eq!(run_vm("1 - 2 * 3 - 4").unwrap(), vec!["-9"]);
    assert_eq!(run_vm("1 < 2 == true").unwrap(), vec!["true"]);
}

#[test]
fn vm_errors() {
    assert_eq!(run_vm("-true").unwrap_err(), "Operand must be a number.");
    assert_eq!(run_vm("1 + nil").unwrap_err(), "Operand must be a number.");
    assert_eq!(run_vm("1 +").unwrap_err(), "[line 1] Error at 'end': Expect expression.");
    let mut vm = VirtualMachine::new();
    vm.chunk.write_op_code(OpCode::Add, 1);
    assert_eq!(vm.step(), Action::Failed("Stack underflow.".to_string()));
    let mut vm = VirtualMachine::new();
    vm.chunk.write(99, 1);
    assert_eq!(vm.step(), Action::Failed("Unknown opcode 99".to_string()));
    assert_eq!(vm.step(), Action::Done(InterpretResult::Completed));
}

#[test]
fn top_level_return_leaves_the_global_scope_current() {
    let statements = parse("{ var a = \"in\"; { return; } } print \"not reached\";");
    let mut interpreter = Interpreter::new();
    interpreter.execute(&statements).unwrap();
    let mut printed = 0;
    loop {
        match interpreter.step() {
            lox::interpreter::Action::Finished => break,
            lox::interpreter::Action::Print(_) => printed += 1,
            lox::interpreter::Action::Failed(error) => panic!("{}", error.message),
            _ => {}
        }
    }
    assert_eq!(printed, 0);
    assert_eq!(interpreter.environment, interpreter.globals);
    assert!(interpreter.frames.is_empty());
}

#[test]
fn environment_deep_clone_is_independent() {
    let mut environments = Environment::new();
    environments.define(0, "a", Value::Number(1));
    let inner = environments.with_enclosing(0);
    environments.define(inner, "b", Value::String("x".to_string()));
    let mut copy = environments.deep_clone();
    copy.define(0, "a", Value::Number(2));
    assert_eq!(environments.get(inner, "a"), Some(Value::Number(1)));
    assert_eq!(copy.get(inner, "a"), Some(Value::Number(2)));
    assert_eq!(copy.get(inner, "b"), Some(Value::String("x".to_string())));
}

#[test]
fn literal_values() {
    let interpreter = Interpreter::new();
    let text = Literal { id: 0, value: LiteralTypes::String("s".to_string()) };
    let number = Literal { id: 1, value: LiteralTypes::Number("1.5".to_string()) };
    let truth = Literal { id: 2, value: LiteralTypes::Bool(true) };
    let nothing = Literal { id: 3, value: LiteralTypes::Nil };
    assert!(matches!(
        interpreter.literal(&text),
        lox::operators::Outcome::Value(Value::String(s)) if s == "s"
    ));
    assert!(matches!(
        interpreter.literal(&number),
        lox::operators::Outcome::Ask(lox::operators::Request::Parse(t)) if t == "1.5"
    ));
    assert!(matches!(
        interpreter.literal(&truth),
        lox::operators::Outcome::Value(Value::Bool(true))
    ));
    assert!(matches!(interpreter.literal(&nothing), lox::operators::Outcome::Value(Value::Nil)));
}

#[test]
fn simple_expressions_read_back() {
    for text in ["12", "3.25", "true", "false", "nil", "this", "name", "_x1"] {
        let statements = parse(&format!("{};", text));
        match &statements[0] {
            Stmt::Expression(s) => {
                let printed = pretty_print(&s.expression);
                assert_eq!(printed, text);
                let again = parse(&format!("{};", printed));
                assert_eq!(again, statements);
            }
            _ => panic!("expected an expression statement"),
        }
    }
}

#[test]
fn plain_expressions_read_back() {
    for text in [
        "a.b",
        "f()",
        "f(1, x)",
        "a.b(c).d",
        "super.m",
        "super.m(1)(2)",
        "x = y",
        "x = y = 3",
        "a.b = f(2)",
        "a.b.c = d.e = this",
        "f(a = 1, g(h.i), nil)",
    ] {
        let statements = parse(&format!("{};", text));
        match &statements[0] {
            Stmt::Expression(s) => {
                let printed = pretty_print(&s.expression);
                assert_eq!(printed, text);
                let again = parse(&format!("{};", printed));
                assert_eq!(again, statements);
            }
            _ => panic!("expected an expression statement"),
        }
    }
}

#[test]
fn other_expressions_do_not_read_back() {
    let statements = parse("1 + 2;");
    match &statements[0] {
        Stmt::Expression(s) => {
            let printed = pretty_print(&s.expression);
            assert_eq!(printed, "(+ 1 2)");
            let mut parser = Parser::new(scan(&format!("{};", printed)));
            assert!(parser.parse().is_err());
        }
        _ => panic!("expected an expression statement"),
    }
}

#[test]
fn compile_groups_operators_from_the_left() {
    let chunk = compile("1 - 2 - 3".to_string()).unwrap();
    let b = |op: OpCode| op.to_byte();
    assert_eq!(
        chunk.code,
        vec![
            b(OpCode::Constant),
            0,
            b(OpCode::Constant),
            1,
            b(OpCode::Subtract),
            b(OpCode::Constant),
            2,
            b(OpCode::Subtract),
            b(OpCode::Return),
        ]
    );
    assert_eq!(chunk.constants, vec!["1".to_string(), "2".to_string(), "3".to_string()]);
    assert_eq!(chunk.lines.len(), chunk.code.len());
}

#[test]
fn scanner_reports_through_its_accessors() {
    let mut scanner = Scanner::new("1 + 2".to_string());
    scanner.scan_tokens();
    assert!(!scanner.failed());
    assert!(scanner.diagnostics().is_empty());
    let mut scanner = Scanner::new("1 # 2 @".to_string());
    scanner.scan_tokens();
    assert!(scanner.failed());
    assert_eq!(scanner.failed(), scanner.had_error);
    assert_eq!(
        scanner.diagnostics(),
        &vec![
            "[line 1] Error : Unexpected character.".to_string(),
            "[line 1] Error : Unexpected character.".to_string(),
        ]
    );
    assert_eq!(scanner.diagnostics(), &scanner.errors);
}

#[test]
fn parser_numbers_on_from_a_given_identifier() {
    let first = Parser::new(scan("a + 1;")).parse().unwrap();
    let mut parser = Parser::continuing(scan("a + 1;"), 40);
    assert_eq!(parser.next_free_id(), 40);
    let second = parser.parse().unwrap();
    assert_eq!(parser.next_free_id(), 43);
    match (&first[0], &second[0]) {
        (Stmt::Expression(x), Stmt::Expression(y)) => {
            assert_eq!(x.expression.id(), 2);
            assert_eq!(y.expression.id(), 42);
        }
        _ => panic!("expected expression statements"),
    }
    let mut fresh = Parser::new(scan("a + 1;"));
    assert_eq!(fresh.next_free_id(), 0);
    fresh.parse().unwrap();
    assert_eq!(fresh.next_free_id(), 3);
}

#[test]
fn stack_trace_shows_each_value_in_brackets() {
    assert_eq!(stack_trace(&vec![]), "          \n");
    assert_eq!(stack_trace(&vec!["1.2".to_string()]), "          [ 1.2 ]\n");
    assert_eq!(
        stack_trace(&vec!["1".to_string(), "true".to_string(), "nil".to_string()]),
        "          [ 1 ][ true ][ nil ]\n"
    );
    let mut vm = VirtualMachine::new();
    assert!(!vm.fetches());
    vm.chunk.write_op_code(OpCode::Nil, 1);
    assert!(vm.fetches());
    vm.step();
    assert!(!vm.fetches());
}

#[test]
fn only_local_references_are_recorded() {
    // Identifiers in order of creation: 1 is 0, 2 is 1, `a` is 2, `g`
    // is 3, the sum is 4, the target `a` as it is first read is 5, 3
    // is 6 and the assignment to `a` is 7.
    let statements = parse("var g = 1; { var a = 2; { print a + g; a = 3; } }");
    let mut interpreter = Interpreter::new();
    let mut resolver = Resolver::new();
    resolver.resolve_stmts(&mut interpreter, &statements).unwrap();
    let mut recorded: Vec<(usize, usize)> =
        interpreter.locals.iter().map(|(id, depth)| (*id, *depth)).collect();
    recorded.sort();
    assert_eq!(recorded, vec![(2, 1), (7, 1)]);
}
