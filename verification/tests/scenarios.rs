use lox::interpreter::{Action, Interpreter, Mode, Printable};
use lox::operators::{NumberOp, Request};
use lox::parser::Parser;
use lox::resolver::Resolver;
use lox::scanner::Scanner;
use lox::driver::{exit_code, static_outcome, Outcome};
use lox::value::{InterpreterError, Value};

// The host's part: arithmetic on numbers, reading and printing them.
fn answer(request: &Request) -> u64 {
    match request {
        Request::Arithmetic(op, a, b) => {
            let x = f64::from_bits(*a);
            let y = f64::from_bits(*b);
            let z = match op {
                NumberOp::Add => x + y,
                NumberOp::Subtract => x - y,
                NumberOp::Multiply => x * y,
                NumberOp::Divide => x / y,
            };
            z.to_bits()
        }
        Request::Parse(text) => text.parse::<f64>().unwrap().to_bits(),
        Request::Clock => 0f64.to_bits(),
    }
}

// Steps the machine to the end of the program. The result is the value
// that was left when no frame waited for it.
fn drive<'a>(
    interpreter: &mut Interpreter<'a>,
    output: &mut String,
) -> Result<Option<Value<'a>>, InterpreterError> {
    let mut last = None;
    loop {
        if interpreter.frames.is_empty() {
            if let Mode::Deliver(value) = &interpreter.mode {
                last = Some(value.clone());
            }
        }
        match interpreter.step() {
            Action::Continue => {}
            Action::Print(Printable::Text(text)) => {
                output.push_str(&text);
                output.push('\n');
            }
            Action::Print(Printable::Number(bits)) => {
                output.push_str(&format!("{}\n", f64::from_bits(bits)));
            }
            Action::Ask(request) => {
                let number = answer(&request);
                interpreter.resume(number);
            }
            Action::Finished => return Ok(last),
            Action::Failed(error) => return Err(error),
        }
    }
}

// Runs a program as the driver does: the outcome, what it printed, and
// the diagnostics.
fn run_program(source: &str) -> (Outcome, String, String) {
    let mut scanner = Scanner::new(source.to_string());
    let tokens = scanner.scan_tokens().clone();
    let mut diagnostics = scanner.errors.join("\n");
    let mut parser = Parser::new(tokens);
    let parsed = parser.parse();
    for error in parser.errors() {
        diagnostics.push_str(error);
        diagnostics.push('\n');
    }
    if static_outcome(scanner.had_error, parsed.is_err(), false) != Outcome::Success {
        return (Outcome::StaticError, String::new(), diagnostics);
    }
    let statements = parsed.unwrap();
    let mut interpreter = Interpreter::new();
    let mut resolver = Resolver::new();
    let resolved = resolver.resolve_stmts(&mut interpreter, &statements);
    if static_outcome(scanner.failed(), false, resolved.is_err()) != Outcome::Success {
        return (Outcome::StaticError, String::new(), resolved.unwrap_err().message);
    }
    interpreter.execute(&statements).unwrap();
    let mut output = String::new();
    match drive(&mut interpreter, &mut output) {
        Ok(_) => (Outcome::Success, output, diagnostics),
        Err(error) => (Outcome::RuntimeError, output, error.message),
    }
}

fn run(source: String) -> Result<String, InterpreterError> {
    let mut scanner = Scanner::new(source);
    let tokens = scanner.scan_tokens().clone();
    assert!(!scanner.had_error);

    let mut parser = Parser::new(tokens);
    let parse_result = parser.parse();
    assert!(parse_result.is_ok());
    let statements = parse_result.unwrap();

    let mut interpreter = Interpreter::new();
    let mut resolver = Resolver::new();
    let resolver_result = resolver.resolve_stmts(&mut interpreter, &statements);
    assert!(resolver_result.is_ok());

    interpreter.execute(&statements).unwrap();
    let mut output = String::new();
    match drive(&mut interpreter, &mut output) {
        Ok(_) => Ok(output),
        Err(err) => Err(err),
    }
}


fn prints(source: &str, expected: &str) {
    let (outcome, output, diagnostics) = run_program(source);
    assert_eq!(outcome, Outcome::Success, "{}", diagnostics);
    assert_eq!(output, expected);
}

fn fails_at_runtime(source: &str, message: &str) {
    let (outcome, _, diagnostics) = run_program(source);
    assert_eq!(outcome, Outcome::RuntimeError);
    assert_eq!(diagnostics, message);
}

fn rejected(source: &str, message: &str) {
    let (outcome, output, diagnostics) = run_program(source);
    assert_eq!(outcome, Outcome::StaticError);
    assert_eq!(output, "");
    assert!(diagnostics.contains(message), "{}", diagnostics);
}

#[test]
fn scenario_arithmetic_precedence() {
    prints("print 1 + 2 * 3 - 4 / 5;", "6.2\n");
}

#[test]
fn scenario_block_shadowing() {
    prints("var a=5; {var a=10; print a;} print a;", "10\n5\n");
}

#[test]
fn scenario_recursive_factorial() {
    prints(
        "fun f(n){ if (n==0) return 1; return n*f(n-1);} print f(5);",
        "120\n",
    );
}

#[test]
fn scenario_counter_closure() {
    prints(
        "fun mk(){var i=0; fun c(){i=i+1; return i;} return c;} var c=mk(); print c(); print c();",
        "1\n2\n",
    );
}

#[test]
fn scenario_method_reads_field() {
    prints(
        "class Cake{ taste(){print \"The \"+this.flavor+\" cake is delicious!\";}} var c=Cake(); c.flavor=\"German chocolate\"; c.taste();",
        "The German chocolate cake is delicious!\n",
    );
}

#[test]
fn scenario_super_call() {
    prints(
        "class A{cook(){print \"fry\";}} class B<A{cook(){super.cook(); print \"glaze\";}} B().cook();",
        "fry\nglaze\n",
    );
}

#[test]
fn scenario_undefined_variable_exits_70() {
    let (outcome, _, diagnostics) = run_program("print a;");
    assert_eq!(exit_code(outcome), 70);
    assert!(diagnostics.contains("Undefined variable 'a'.\n[line 1]"));
}

#[test]
fn scenario_self_inheritance_exits_65() {
    let (outcome, _, diagnostics) = run_program("class X<X{}");
    assert_eq!(exit_code(outcome), 65);
    assert!(diagnostics.contains("A class can't inherit from itself"));
}

#[test]
fn exit_codes() {
    assert_eq!(exit_code(Outcome::Success), 0);
    assert_eq!(exit_code(Outcome::Usage), 64);
    assert_eq!(exit_code(Outcome::StaticError), 65);
    assert_eq!(exit_code(Outcome::RuntimeError), 70);
    assert_eq!(exit_code(Outcome::IoError), 74);
}

#[test]
fn runs_are_repeatable() {
    let source = "var a = 1; fun f(x) { return x + a; } print f(2); print \"s\" + \"t\";";
    assert_eq!(run_program(source), run_program(source));
}

#[test]
fn and_does_not_evaluate_right_operand_of_false() {
    prints(
        "fun loud() { print \"called\"; return true; } print false and loud(); print nil and loud();",
        "false\nnil\n",
    );
}

#[test]
fn or_does_not_evaluate_right_operand_of_true() {
    prints(
        "fun loud() { print \"called\"; return false; } print true or loud(); print 1 or loud();",
        "true\n1\n",
    );
}

#[test]
fn logical_operators_evaluate_right_operand_when_undecided() {
    prints(
        "fun loud() { print \"called\"; return 7; } print true and loud(); print false or loud();",
        "called\n7\ncalled\n7\n",
    );
}

#[test]
fn equality_of_primitives() {
    prints(
        "print nil == nil; print true == true; print 1 == 1; print \"a\" == \"a\"; print 1 == 2; print \"a\" == \"b\";",
        "true\ntrue\ntrue\ntrue\nfalse\nfalse\n",
    );
}

#[test]
fn equality_across_kinds_is_false() {
    prints(
        "print nil == false; print 0 == false; print \"1\" == 1; print nil == 0; print \"\" == nil; print 1 != \"1\";",
        "false\nfalse\nfalse\nfalse\nfalse\ntrue\n",
    );
}

#[test]
fn zero_divided_by_zero_is_not_equal_to_itself() {
    prints("var n = 0 / 0; print n == n; print n != n;", "false\ntrue\n");
}

#[test]
fn negative_zero_equals_zero() {
    prints("print -0 == 0; print -0 < 0; print 0 <= -0;", "true\nfalse\ntrue\n");
}

#[test]
fn callables_and_instances_are_compared_by_identity() {
    prints(
        "fun f() {} var g = f; print f == g; class A { m() {} } var a = A(); var b = A(); print a == a; print a == b; print A == A; print a.m == a.m;",
        "true\ntrue\nfalse\ntrue\nfalse\n",
    );
}

#[test]
fn closures_share_a_binding() {
    prints(
        "var set; var get; { var x = 1; fun s(v) { x = v; } fun g() { return x; } set = s; get = g; } set(42); print get(); set(\"later\"); print get();",
        "42\nlater\n",
    );
}

#[test]
fn resolved_reference_keeps_its_scope() {
    prints(
        "var a = \"global\"; { fun show() { print a; } show(); var a = \"block\"; show(); }",
        "global\nglobal\n",
    );
}

#[test]
fn truthiness() {
    prints(
        "if (0) print \"zero\"; if (\"\") print \"empty\"; if (nil) print \"nil\"; else print \"not nil\"; if (false) print \"false\"; else print \"not false\";",
        "zero\nempty\nnot nil\nnot false\n",
    );
}

#[test]
fn text_forms_of_values() {
    prints(
        "fun f() {} class A {} print nil; print true; print 1.5; print 3; print \"s\"; print f; print A; print A(); print clock;",
        "nil\ntrue\n1.5\n3\ns\n<fn f>\nA\nA instance\n<native fn>\n",
    );
}

#[test]
fn comparison_operators() {
    prints(
        "print 1 < 2; print 2 < 1; print 2 <= 2; print 3 > 2; print 2 >= 3; print -1 < 1; print -2 < -1;",
        "true\nfalse\ntrue\ntrue\nfalse\ntrue\ntrue\n",
    );
}

#[test]
fn unary_operators() {
    prints("print -3; print !true; print !nil; print !0; print --2;", "-3\nfalse\ntrue\nfalse\n2\n");
}

#[test]
fn string_concatenation() {
    prints("print \"a\" + \"b\" + \"c\";", "abc\n");
}

#[test]
fn for_loop_without_clauses_runs_until_return() {
    prints(
        "fun f() { var i = 0; for (;;) { i = i + 1; if (i == 3) return i; } } print f();",
        "3\n",
    );
}

#[test]
fn initializer_returns_the_instance() {
    prints(
        "class P { init(x) { this.x = x; return; } } var p = P(4); print p.x; print p.init(5).x;",
        "4\n5\n",
    );
}

#[test]
fn inherited_initializer_sets_arity() {
    prints(
        "class A { init(a, b) { this.s = a + b; } } class B < A {} print B(1, 2).s;",
        "3\n",
    );
}

#[test]
fn global_redeclaration_overwrites() {
    prints("var a = 1; var a = 2; print a;", "2\n");
}

#[test]
fn error_operand_must_be_a_number() {
    fails_at_runtime("print -\"a\";", "Operand must be a number.\n[line 1]");
}

#[test]
fn error_operands_must_be_numbers() {
    fails_at_runtime("print 1 -\n \"a\";", "Operands must be numbers.\n[line 1]");
    fails_at_runtime("print nil < 1;", "Operands must be numbers.\n[line 1]");
    fails_at_runtime("print 1 * true;", "Operands must be numbers.\n[line 1]");
}

#[test]
fn error_operands_must_be_two_numbers_or_two_strings() {
    fails_at_runtime(
        "print 1 + \"a\";",
        "Operands must be two numbers or two strings.\n[line 1]",
    );
}

#[test]
fn error_can_only_call_functions_and_classes() {
    fails_at_runtime("\n\"f\"();", "Can only call functions and classes.\n[line 2]");
}

#[test]
fn error_arity() {
    fails_at_runtime("fun f(a) {} f(1, 2);", "Expected 1 arguments but got 2.\n[line 1]");
    fails_at_runtime("class A {} A(1);", "Expected 0 arguments but got 1.\n[line 1]");
    fails_at_runtime("clock(1);", "Expected 0 arguments but got 1.\n[line 1]");
}

#[test]
fn error_only_instances_have_properties() {
    fails_at_runtime("print 1.x;", "Only instances have properties.\n[line 1]");
    fails_at_runtime("var s = \"a\"; s.x = 1;", "Only instances have fields.\n[line 1]");
}

#[test]
fn error_undefined_property() {
    fails_at_runtime("class A {} print A().x;", "Undefined property 'x'.\n[line 1]");
    fails_at_runtime(
        "class A {} class B < A { m() { super.n(); } } B().m();",
        "Undefined property 'n'.\n[line 1]",
    );
}

#[test]
fn error_undefined_variable_on_assignment() {
    fails_at_runtime("a = 1;", "Undefined variable 'a'.\n[line 1]");
}

#[test]
fn error_superclass_must_be_a_class() {
    fails_at_runtime("var A = 1;\nclass B < A {}", "Superclass must be a class.\n[line 2]");
}

#[test]
fn runtime_error_keeps_earlier_output() {
    let (outcome, output, _) = run_program("print 1; print a; print 2;");
    assert_eq!(outcome, Outcome::RuntimeError);
    assert_eq!(output, "1\n");
}

#[test]
fn evaluator_is_reused_across_lines() {
    let first = {
        let mut scanner = Scanner::new("var a = 1; fun f() { return a + 1; }".to_string());
        let tokens = scanner.scan_tokens().clone();
        Parser::new(tokens).parse().unwrap()
    };
    let second = {
        let mut scanner = Scanner::new("print b;".to_string());
        let tokens = scanner.scan_tokens().clone();
        Parser::new(tokens).parse().unwrap()
    };
    let third = {
        let mut scanner = Scanner::new("print f();".to_string());
        let tokens = scanner.scan_tokens().clone();
        Parser::new(tokens).parse().unwrap()
    };
    let mut interpreter = Interpreter::new();
    let mut output = String::new();
    for (statements, ok) in [(&first, true), (&second, false), (&third, true)] {
        let mut resolver = Resolver::new();
        resolver.resolve_stmts(&mut interpreter, statements).unwrap();
        interpreter.execute(statements).unwrap();
        assert_eq!(drive(&mut interpreter, &mut output).is_ok(), ok);
    }
    assert_eq!(output, "2\n");
}

#[test]
fn static_error_reading_own_initializer() {
    rejected(
        "{ var a = a; }",
        "[line 1] Error at 'a': Can't read local variable in its own initializer.",
    );
}

#[test]
fn static_error_duplicate_local() {
    rejected(
        "{ var a = 1;\nvar a = 2; }",
        "[line 2] Error at 'a': Already a variable with this name in this scope.",
    );
    rejected(
        "fun f(a, a) {}",
        "[line 1] Error at 'a': Already a variable with this name in this scope.",
    );
}

#[test]
fn static_error_return_at_top_level() {
    rejected("return 1;", "[line 1] Error at 'return': Can't return from top-level code.");
}

#[test]
fn static_error_return_value_from_initializer() {
    rejected(
        "class A { init() { return 1; } }",
        "[line 1] Error at 'return': Can't return a value from an initializer.",
    );
}

#[test]
fn static_error_this_outside_class() {
    rejected("print this;", "[line 1] Error at 'this': Can't use 'this' outside of a class.");
}

#[test]
fn static_error_super_outside_class() {
    rejected(
        "print super.x;",
        "[line 1] Error at 'super': Can't use 'super' outside of a class.",
    );
    rejected(
        "class A { m() { super.m(); } }",
        "[line 1] Error at 'super': Can't use 'super' in a class with no superclass.",
    );
}

#[test]
fn static_errors_are_joined_by_newlines() {
    let (outcome, _, diagnostics) = run_program("return 1;\nprint this;");
    assert_eq!(outcome, Outcome::StaticError);
    assert_eq!(
        diagnostics,
        "[line 1] Error at 'return': Can't return from top-level code.\n[line 2] Error at 'this': Can't use 'this' outside of a class."
    );
}

#[test]
fn static_error_leaves_scopes_balanced() {
    let source = "{ var a = a; }\nvar b = 1;\nvar b = 2;\nprint this;";
    let (_, _, diagnostics) = run_program(source);
    assert_eq!(
        diagnostics,
        "[line 1] Error at 'a': Can't read local variable in its own initializer.\n[line 4] Error at 'this': Can't use 'this' outside of a class."
    );
}

#[test]
fn syntax_error_messages() {
    rejected("print 1", "[line 1] Error at 'end': Expect ';' after value.");
    rejected("1 = 2;", "[line 1] Error at '=': Invalid assignment target.");
    rejected("print ;", "[line 1] Error at ';': Expect expression.");
    rejected("var 1;", "[line 1] Error at '1': Expect variable name.");
    rejected("class A < {}", "[line 1] Error at '{': Expect superclass name.");
    rejected("fun () {}", "[line 1] Error at '(': Expect function name.");
    rejected("class A { 1 }", "[line 1] Error at '1': Expect method name.");
    rejected("for (;;", "[line 1] Error at 'end': Expect expression.");
    rejected("for (;; 1 {", "[line 1] Error at '{': Expect ')' after for clauses.");
    rejected("{ print 1;", "[line 1] Error at 'end': Expect '}' after block.");
    rejected("super.x;\nprint super;", "[line 2] Error at ';': Expect '.' after 'super'.");
}

#[test]
fn syntax_errors_are_all_reported() {
    let (outcome, _, diagnostics) = run_program("print ;\nvar a = 1;\nprint );\nprint a;");
    assert_eq!(outcome, Outcome::StaticError);
    assert_eq!(
        diagnostics,
        "[line 1] Error at ';': Expect expression.\n[line 3] Error at ')': Expect expression.\n"
    );
}

#[test]
fn lexical_errors() {
    rejected("var a = @;", "[line 1] Error : Unexpected character.");
    rejected("\n\nprint \"abc", "[line 3] Error : Unterminated string.");
}

#[test]
fn too_many_arguments() {
    let mut source = String::from("fun f() {} f(");
    for i in 0..256 {
        if i > 0 {
            source.push(',');
        }
        source.push('1');
    }
    source.push_str(");");
    rejected(&source, "[line 1] Error at '1': Can't have more than 255 arguments.");
    let mut source = String::from("fun f(");
    for i in 0..256 {
        if i > 0 {
            source.push(',');
        }
        source.push_str(&format!("x{}", i));
    }
    source.push_str(") {}");
    rejected(&source, "[line 1] Error at 'x255': Can't have more than 255 parameters.");
}

#[test]
fn exactly_255_arguments_are_accepted() {
    let mut source = String::from("fun f(");
    for i in 0..255 {
        if i > 0 {
            source.push(',');
        }
        source.push_str(&format!("x{}", i));
    }
    source.push_str(") { return x254; } print f(");
    for i in 0..255 {
        if i > 0 {
            source.push(',');
        }
        source.push_str(&format!("{}", i));
    }
    source.push_str(");");
    prints(&source, "254\n");
}

#[test]
fn value_left_by_the_program_is_not_printed() {
    let (outcome, output, _) = run_program("1 + 2;");
    assert_eq!(outcome, Outcome::Success);
    assert_eq!(output, "");
    let _ = Value::Nil;
}

// Runs the lines one after the other on one evaluator, as the prompt
// does: the nodes of each line are numbered on from those of the lines
// before it.
fn run_lines(lines: &[&str]) -> Vec<Result<String, String>> {
    let mut programs = Vec::new();
    let mut next_id = 0;
    for line in lines {
        let mut scanner = Scanner::new(line.to_string());
        let tokens = scanner.scan_tokens().clone();
        assert!(!scanner.failed());
        let mut parser = Parser::continuing(tokens, next_id);
        let statements = parser.parse().unwrap();
        assert!(parser.next_free_id() >= next_id);
        next_id = parser.next_free_id();
        programs.push(statements);
    }
    let mut interpreter = Interpreter::new();
    let mut results = Vec::new();
    for statements in &programs {
        let mut resolver = Resolver::new();
        if let Err(error) = resolver.resolve_stmts(&mut interpreter, statements) {
            results.push(Err(error.message));
            continue;
        }
        interpreter.execute(statements).unwrap();
        let mut output = String::new();
        results.push(match drive(&mut interpreter, &mut output) {
            Ok(_) => Ok(output),
            Err(error) => Err(error.message),
        });
    }
    results
}

#[test]
fn depths_of_one_line_are_not_read_for_another() {
    let results = run_lines(&["{ var a = 1; { print a; } }", "var x = 2; print x;"]);
    assert_eq!(results, vec![Ok("1\n".to_string()), Ok("2\n".to_string())]);
}

#[test]
fn functions_of_earlier_lines_keep_their_depths() {
    let results = run_lines(&[
        "fun mk() { var i = 0; fun c() { i = i + 1; return i; } return c; }",
        "var c = mk();",
        "{ var i = 10; { print c(); print i; } }",
        "print c();",
        "print missing;",
        "print c();",
    ]);
    assert_eq!(
        results,
        vec![
            Ok("".to_string()),
            Ok("".to_string()),
            Ok("1\n10\n".to_string()),
            Ok("2\n".to_string()),
            Err("Undefined variable 'missing'.\n[line 1]".to_string()),
            Ok("3\n".to_string()),
        ]
    );
}

#[test]
fn static_error_on_one_line_leaves_the_next_alone() {
    let results = run_lines(&["{ var a = 1; { print a; return; } }", "var x = 2; { print x; }"]);
    assert_eq!(results.len(), 2);
    assert!(results[0].is_err());
    assert_eq!(results[1], Ok("2\n".to_string()));
}

#[test]
fn error_inside_blocks_restores_the_scope_of_the_program() {
    let statements = {
        let source = "var a = 1; { var b = 2; { print a + b; print c; } }";
        let mut scanner = Scanner::new(source.to_string());
        let tokens = scanner.scan_tokens().clone();
        Parser::new(tokens).parse().unwrap()
    };
    let mut interpreter = Interpreter::new();
    let mut resolver = Resolver::new();
    resolver.resolve_stmts(&mut interpreter, &statements).unwrap();
    interpreter.execute(&statements).unwrap();
    let mut output = String::new();
    let error = drive(&mut interpreter, &mut output).unwrap_err();
    assert_eq!(error.message, "Undefined variable 'c'.\n[line 1]");
    assert_eq!(output, "3\n");
    assert_eq!(interpreter.environment, interpreter.globals);
    assert!(interpreter.frames.is_empty());
}

#[test]
fn error_in_a_block_entered_from_a_scope_restores_that_scope() {
    let statements = {
        let mut scanner = Scanner::new("print 1; { print missing; }".to_string());
        let tokens = scanner.scan_tokens().clone();
        Parser::new(tokens).parse().unwrap()
    };
    let mut interpreter = Interpreter::new();
    let globals = interpreter.globals;
    let scope = interpreter.environments.with_enclosing(globals);
    interpreter.environment = scope;
    interpreter.execute_block(&statements, scope);
    let mut output = String::new();
    let error = drive(&mut interpreter, &mut output).unwrap_err();
    assert_eq!(error.message, "Undefined variable 'missing'.\n[line 1]");
    assert_eq!(output, "1\n");
    assert_eq!(interpreter.environment, scope);

    // Without an error the scope is current again as well.
    let statements = {
        let mut scanner = Scanner::new("print 2; { print 3; }".to_string());
        let tokens = scanner.scan_tokens().clone();
        Parser::new(tokens).parse().unwrap()
    };
    interpreter.execute_block(&statements, scope);
    let mut output = String::new();
    drive(&mut interpreter, &mut output).unwrap();
    assert_eq!(output, "2\n3\n");
    assert_eq!(interpreter.environment, scope);
}
