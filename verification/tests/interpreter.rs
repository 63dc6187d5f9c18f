use lox::expression::{Binary, Expression, Literal};
use lox::interpreter::{Action, Interpreter, Mode, Printable};
use lox::operators::{NumberOp, Request};
use lox::parser::Parser;
use lox::resolver::Resolver;
use lox::scanner::Scanner;
use lox::stmt::{PrintStmt, Stmt};
use lox::tokens::{LiteralTypes, Token, TokenType};
use lox::value::{InterpreterError, Value};

// The host's part: arithmetic on numbers, reading and printing them.
fn answer(request: &Request) -> u64 {
    match request {
        Request::Arithmetic(op, a, b) => {
            let x = f64::from_bits(*a);
            let y = f64::from_bits(*b);
            let z = match op {
                NumberOp::Add => x + y,
                NumberOp::Subtract => x - y,
                NumberOp::Multiply => x * y,
                NumberOp::Divide => x / y,
            };
            z.to_bits()
        }
        Request::Parse(text) => text.parse::<f64>().unwrap().to_bits(),
        Request::Clock => 0f64.to_bits(),
    }
}

// Steps the machine to the end of the program. The result is the value
// that was left when no frame waited for it.
fn drive<'a>(
    interpreter: &mut Interpreter<'a>,
    output: &mut String,
) -> Result<Option<Value<'a>>, InterpreterError> {
    let mut last = None;
    loop {
        if interpreter.frames.is_empty() {
            if let Mode::Deliver(value) = &interpreter.mode {
                last = Some(value.clone());
            }
        }
        match interpreter.step() {
            Action::Continue => {}
            Action::Print(Printable::Text(text)) => {
                output.push_str(&text);
                output.push('\n');
            }
            Action::Print(Printable::Number(bits)) => {
                output.push_str(&format!("{}\n", f64::from_bits(bits)));
            }
            Action::Ask(request) => {
                let number = answer(&request);
                interpreter.resume(number);
            }
            Action::Finished => return Ok(last),
            Action::Failed(error) => return Err(error),
        }
    }
}

fn evaluate(expression: &Expression) -> Result<Value<'_>, InterpreterError> {
    let mut interpreter = Interpreter::new();
    interpreter.evaluate(expression);
    let mut output = String::new();
    let value = drive(&mut interpreter, &mut output)?;
    Ok(value.unwrap())
}

fn run(source: String) -> Result<String, InterpreterError> {
    let mut scanner = Scanner::new(source);
    let tokens = scanner.scan_tokens().clone();
    assert!(!scanner.had_error);

    let mut parser = Parser::new(tokens);
    let parse_result = parser.parse();
    assert!(parse_result.is_ok());
    let statements = parse_result.unwrap();

    let mut interpreter = Interpreter::new();
    let mut resolver = Resolver::new();
    let resolver_result = resolver.resolve_stmts(&mut interpreter, &statements);
    assert!(resolver_result.is_ok());

    interpreter.execute(&statements).unwrap();
    let mut output = String::new();
    match drive(&mut interpreter, &mut output) {
        Ok(_) => Ok(output),
        Err(err) => Err(err),
    }
}

#[test]
fn test_interpret_sum() {
    let expression = Expression::Binary(Binary {
        id: 0,
        left: Box::new(Expression::Literal(Literal {
            id: 1,
            value: LiteralTypes::Number("5".to_string()),
        })),
        operator: Token {
            token_type: TokenType::Plus,
            lexeme: "+".to_string(),
            literal: LiteralTypes::Nil,
            line: 1,
        },
        right: Box::new(Expression::Literal(Literal {
            id: 2,
            value: LiteralTypes::Number("3".to_string()),
        })),
    });

    let result = evaluate(&expression).unwrap();
    assert_eq!(result, Value::Number(8.0f64.to_bits()));
}

#[test]
fn test_interpret_subtraction() {
    let expression = Expression::Binary(Binary {
        id: 0,
        left: Box::new(Expression::Literal(Literal {
            id: 1,
            value: LiteralTypes::Number("5".to_string()),
        })),
        operator: Token {
            token_type: TokenType::Minus,
            lexeme: "-".to_string(),
            literal: LiteralTypes::Nil,
            line: 1,
        },
        right: Box::new(Expression::Literal(Literal {
            id: 2,
            value: LiteralTypes::Number("3".to_string()),
        })),
    });

    let result = evaluate(&expression).unwrap();
    assert_eq!(result, Value::Number(2.0f64.to_bits()));
}

#[test]
fn test_interpret_multiplication() {
    let expression = Expression::Binary(Binary {
        id: 0,
        left: Box::new(Expression::Literal(Literal {
            id: 1,
            value: LiteralTypes::Number("5".to_string()),
        })),
        operator: Token {
            token_type: TokenType::Star,
            lexeme: "*".to_string(),
            literal: LiteralTypes::Nil,
            line: 1,
        },
        right: Box::new(Expression::Literal(Literal {
            id: 2,
            value: LiteralTypes::Number("3".to_string()),
        })),
    });

    let result = evaluate(&expression).unwrap();
    assert_eq!(result, Value::Number(15.0f64.to_bits()));
}
#[test]
fn test_interpret_division() {
    let expression = Expression::Binary(Binary {
        id: 0,
        left: Box::new(Expression::Literal(Literal {
            id: 1,
            value: LiteralTypes::Number("6".to_string()),
        })),
        operator: Token {
            token_type: TokenType::Slash,
            lexeme: "/".to_string(),
            literal: LiteralTypes::Nil,
            line: 1,
        },
        right: Box::new(Expression::Literal(Literal {
            id: 2,
            value: LiteralTypes::Number("3".to_string()),
        })),
    });

    let result = evaluate(&expression).unwrap();
    assert_eq!(result, Value::Number(2.0f64.to_bits()));
}
#[test]
fn test_star_before_plus() {
    let expression = Expression::Binary(Binary {
        id: 0,
        left: Box::new(Expression::Binary(Binary {
            id: 1,
            left: Box::new(Expression::Literal(Literal {
                id: 2,
                value: LiteralTypes::Number("5".to_string()),
            })),
            operator: Token {
                token_type: TokenType::Star,
                lexeme: "*".to_string(),
                literal: LiteralTypes::Nil,
                line: 1,
            },
            right: Box::new(Expression::Literal(Literal {
                id: 3,
                value: LiteralTypes::Number("3".to_string()),
            })),
        })),
        operator: Token {
            token_type: TokenType::Plus,
            lexeme: "+".to_string(),
            literal: LiteralTypes::Nil,
            line: 1,
        },
        right: Box::new(Expression::Literal(Literal {
            id: 4,
            value: LiteralTypes::Number("2".to_string()),
        })),
    });

    let result = evaluate(&expression).unwrap();
    assert_eq!(result, Value::Number(17.0f64.to_bits()));
}

#[test]
fn test_print_expression() {
    let expression = Expression::Binary(Binary {
        id: 0,
        left: Box::new(Expression::Literal(Literal {
            id: 1,
            value: LiteralTypes::Number("5".to_string()),
        })),
        operator: Token {
            token_type: TokenType::Plus,
            lexeme: "+".to_string(),
            literal: LiteralTypes::Nil,
            line: 1,
        },
        right: Box::new(Expression::Literal(Literal {
            id: 2,
            value: LiteralTypes::Number("3".to_string()),
        })),
    });

    let print_stmt = Stmt::Print(PrintStmt {
        expression: Box::new(expression),
    });
    let statements = vec![print_stmt];
    let mut interpreter = Interpreter::new();
    interpreter.execute(&statements).unwrap();
    let mut output = String::new();
    drive(&mut interpreter, &mut output).unwrap();
    assert_eq!(output, "8\n");
}

#[test]
fn test_print_multiple_expressions() {
    let source = "
        print \"one\";
        print true;
        print 2 + 1;
        "
    .to_string();

    let result = run(source);
    assert!(result.is_ok());
    assert_eq!(result.unwrap(), "one\ntrue\n3\n");
}

#[test]
fn test_uninitialized_variable() {
    let source = "
        var a;
        print a;
        "
    .to_string();

    let result = run(source);
    assert!(result.is_ok());
    assert_eq!(result.unwrap(), "nil\n");
}

#[test]
fn test_print_variable() {
    let source = "
        var a = 5;
        print a;
        "
    .to_string();

    let result = run(source);
    assert!(result.is_ok());
    assert_eq!(result.unwrap(), "5\n");
}

#[test]
fn print_redefined_variable() {
    let source = "
        var a = 5;
        print a;
        var a = 10;
        print a;
        "
    .to_string();

    let result = run(source);
    assert!(result.is_ok());
    assert_eq!(result.unwrap(), "5\n10\n");
}

#[test]
fn test_error_undefined_variable() {
    let source = "
        print a;
        "
    .to_string();

    let result = run(source);
    assert!(result.is_err());
    assert_eq!(
        result.unwrap_err().message,
        "Undefined variable 'a'.\n[line 2]"
    );
}

#[test]
fn test_expression_from_variables() {
    let source = "
        var a = 5;
        var b = 3;
        print a + b;
        "
    .to_string();

    let result = run(source);
    assert!(result.is_ok());
    assert_eq!(result.unwrap(), "8\n");
}

#[test]
fn test_assignment() {
    let source = "
        var a = 5;
        print a;
        a = 10;
        print a;
        "
    .to_string();

    let result = run(source);
    assert!(result.is_ok());
    assert_eq!(result.unwrap(), "5\n10\n");
}

#[test]
fn test_variable_used_outside_scope() {
    let source = "
        {
            var a = 5;
            print a;
        }
        print a;
        "
    .to_string();

    let result = run(source);
    assert!(result.is_err());
    assert_eq!(
        result.unwrap_err().message,
        "Undefined variable 'a'.\n[line 6]"
    );
}

#[test]
fn test_variable_shadowing() {
    let source = "
        var a = 5;
        {
            var a = 10;
            print a;
        }
        print a;
        "
    .to_string();

    let result = run(source);
    assert!(result.is_ok());
    assert_eq!(result.unwrap(), "10\n5\n");
}

#[test]
fn test_variables_from_inner_scope() {
    let source = "
        var a = 5;
        {
            var b = 10;
            print a + b;
        }
        print a;
        "
    .to_string();

    let result = run(source);
    assert!(result.is_ok());
    assert_eq!(result.unwrap(), "15\n5\n");
}

#[test]
fn test_variables_from_three_scopes() {
    let source = "
        var a = \"global a\";
        var b = \"global b\";
        var c = \"global c\";
        {
            var a = \"outer a\";
            var b = \"outer b\";
            {
                var a = \"inner a\";
                print a;
                print b;
                print c;
            }
            print a;
            print b;
            print c;
        }
        print a;
        print b;
        print c;
        "
    .to_string();

    let result = run(source);
    assert!(result.is_ok());
    assert_eq!(result.unwrap(), "inner a\nouter b\nglobal c\nouter a\nouter b\nglobal c\nglobal a\nglobal b\nglobal c\n");
}

#[test]
fn test_if_statement_true() {
    let source = "
        if (true) {
            print \"True\";
        } else {
            print \"False\";
        }
        "
    .to_string();

    let result = run(source);
    assert!(result.is_ok());
    assert_eq!(result.unwrap(), "True\n");
}

#[test]
fn test_if_statement_false() {
    let source = "
        if (false) {
            print \"True\";
        } else {
            print \"False\";
        }
        "
    .to_string();

    let result = run(source);
    assert!(result.is_ok());
    assert_eq!(result.unwrap(), "False\n");
}

#[test]
fn test_if_statement_expression() {
    let source = "
        if (3 < 2) {
            print \"True\";
        } else {
            print \"False\";
        }
        "
    .to_string();

    let result = run(source);
    assert!(result.is_ok());
    assert_eq!(result.unwrap(), "False\n");
}

#[test]
fn test_if_statement_zero_is_true() {
    let source = "
        if (0) {
            print \"True\";
        } else {
            print \"False\";
        }
        "
    .to_string();

    let result = run(source);
    assert!(result.is_ok());
    assert_eq!(result.unwrap(), "True\n");
}

#[test]
fn test_logical_or() {
    let source = "
        print true or false;
        print false or true;
        print false or false;
        print true or true;
        print 0 or 1;
        print 0 or false;
        "
    .to_string();

    let result = run(source);
    assert!(result.is_ok());
    assert_eq!(result.unwrap(), "true\ntrue\nfalse\ntrue\n0\n0\n");
}

#[test]
fn test_while_statement() {
    let source = "
        var i = 0;
        while (i < 5) {
            print i;
            i = i + 1;
        }
        "
    .to_string();

    let result = run(source);
    assert!(result.is_ok());
    assert_eq!(result.unwrap(), "0\n1\n2\n3\n4\n");
}

#[test]
fn test_for_statement() {
    let source = "
        for (var i = 0; i < 5; i = i + 1) {
            print i;
        }
        "
    .to_string();

    let result = run(source);
    assert!(result.is_ok());
    assert_eq!(result.unwrap(), "0\n1\n2\n3\n4\n");
}

#[test]
fn test_function_definition_and_call() {
    let source = "
        fun greet() {
            print \"Hello, World!\";
        }
        greet();
        "
    .to_string();

    let result = run(source);
    assert!(result.is_ok());
    assert_eq!(result.unwrap(), "Hello, World!\n");
}

#[test]
fn test_function_definition_and_call_with_param() {
    let source = "
        fun greet(name) {
            print \"Hello, \" + name + \"!\";
        }
        greet(\"World\");
        "
    .to_string();

    let result = run(source);
    assert!(result.is_ok());
    assert_eq!(result.unwrap(), "Hello, World!\n");
}

#[test]
fn test_function_definition_and_call_with_return() {
    let source = "
        fun greet() {
            return \"Hello, World!\";
        }
        print greet();
        "
    .to_string();

    let result = run(source);
    assert!(result.is_ok());
    assert_eq!(result.unwrap(), "Hello, World!\n");
}

#[test]
fn test_function_definition_and_call_with_return_from_loop() {
    let source = "
        fun bar() {
            for (var i = 0;; i = i + 1) {
                print i;
                if (i >= 2) return;
            }
        }
        bar();
        "
    .to_string();

    let result = run(source);
    assert!(result.is_ok());
    assert_eq!(result.unwrap(), "0\n1\n2\n");
}

#[test]
fn test_function_definition_and_call_with_multiple_params() {
    let source = "
        fun add(a, b) {
            return a + b;
        }
        print add(5, 3);
        "
    .to_string();

    let result = run(source);
    assert!(result.is_ok());
    assert_eq!(result.unwrap(), "8\n");
}

#[test]
fn test_recursion() {
    let source = "
        fun factorial(n) {
            if (n == 0) {
                return 1;
            }
            return n * factorial(n - 1);
        }
        print factorial(5);
        "
    .to_string();

    let result = run(source);
    assert!(result.is_ok());
    assert_eq!(result.unwrap(), "120\n");
}

#[test]
fn test_fibonacci() {
    let source = "
        fun fib(n) {
            if (n <= 1) return n;
            return fib(n - 2) + fib(n - 1);
        }
        print fib(8);
        "
    .to_string();

    let result = run(source);
    assert!(result.is_ok());
    assert_eq!(result.unwrap(), "21\n");
}

#[test]
fn test_function_object_with_closure() {
    let source = "
        fun makeCounter() {
            var i = 0;
            fun count() {
                i = i + 1;
                return i;
            }
            return count;
        }
        var counter = makeCounter();
        print counter();
        print counter();
        "
    .to_string();

    let result = run(source);
    assert!(result.is_ok());
    assert_eq!(result.unwrap(), "1\n2\n");
}

#[test]
fn test_function_object_with_closure_and_outer_variable() {
    let source = "
        var outerVar = 10;
        fun makeCounter() {
            var i = 0;
            fun count() {
                i = i + 1;
                return i + outerVar;
            }
            return count;
        }
        var counter = makeCounter();
        print counter();
        print counter();
        "
    .to_string();

    let result = run(source);
    assert!(result.is_ok());
    assert_eq!(result.unwrap(), "11\n12\n");
}

#[test]
fn test_class_declaration() {
    let source = "
        class DevonshireCream {
            serveOn() {
                return \"Scones\";
            }
        }
        print DevonshireCream;
        "
    .to_string();

    let result = run(source);
    assert!(result.is_ok());
    assert_eq!(result.unwrap(), "DevonshireCream\n");
}

#[test]
fn test_class_instance() {
    let source = "
        class Bagel {}
        var bagel = Bagel();
        print bagel;
        "
    .to_string();

    let result = run(source);
    assert!(result.is_ok());
    assert_eq!(result.unwrap(), "Bagel instance\n");
}

#[test]
fn test_class_instance_fields() {
    let source = "
        class Bagel {}
        var bagel = Bagel();
        bagel.flavor = \"Sesame\";
        print bagel.flavor;
        "
    .to_string();

    let result = run(source);
    assert!(result.is_ok());
    assert_eq!(result.unwrap(), "Sesame\n");
}

#[test]
fn test_class_method() {
    let source = "
        class Bacon {
            eat() {
                print \"Crunch crunch crunch!\";
            }
        }
        Bacon().eat();
        "
    .to_string();

    let result = run(source);
    assert!(result.is_ok());
    assert_eq!(result.unwrap(), "Crunch crunch crunch!\n");
}

#[test]
fn test_class_instance_print_this() {
    let source = "
        class Egotist {
          speak() {
            print this;
          }
        }

        var method = Egotist().speak;
        method();
        "
    .to_string();

    let result = run(source);
    assert!(result.is_ok());
    assert_eq!(result.unwrap(), "Egotist instance\n");
}

#[test]
fn test_class_instance_field() {
    let source = "
        class Cake {
          taste() {
            var adjective = \"delicious\";
            print \"The \" + this.flavor + \" cake is \" + adjective + \"!\";
          }
        }

        var cake = Cake();
        cake.flavor = \"German chocolate\";
        cake.taste();
        "
    .to_string();

    let result = run(source);
    assert!(result.is_ok());
    assert_eq!(result.unwrap(), "The German chocolate cake is delicious!\n");
}

#[test]
fn test_class_instance_method_closure() {
    let source = "
        class Thing {
          getCallback() {
            fun localFunction() {
              print this;
            }

            return localFunction;
          }
        }

        var callback = Thing().getCallback();
        callback();
        "
    .to_string();

    let result = run(source);
    assert!(result.is_ok());
    assert_eq!(result.unwrap(), "Thing instance\n");
}

#[test]
fn test_class_instance_init() {
    let source = "
        class Foo {
          init() {
            print this;
          }
        }

        var foo = Foo();
        print foo.init();
        "
    .to_string();

    let result = run(source);
    assert!(result.is_ok());
    assert_eq!(
        result.unwrap(),
        "Foo instance\nFoo instance\nFoo instance\n"
    );
}

#[test]
fn test_class_inheritance_method_call() {
    let source = "
        class Doughnut {
          cook() {
            print \"Fry until golden brown.\";
          }
        }

        class BostonCream < Doughnut {}

        BostonCream().cook();
        "
    .to_string();

    let result = run(source);
    assert!(result.is_ok());
    assert_eq!(result.unwrap(), "Fry until golden brown.\n");
}

#[test]
fn test_class_inheritance_superclass_method_call() {
    let source = "
        class Doughnut {
          cook() {
            print \"Fry until golden brown.\";
          }
        }

        class BostonCream < Doughnut {
          cook() {
            super.cook();
            print \"Pipe full of custard and coat with chocolate.\";
          }
        }

        BostonCream().cook();
        "
    .to_string();

    let result = run(source);
    assert!(result.is_ok());
    assert_eq!(
        result.unwrap(),
        "Fry until golden brown.\nPipe full of custard and coat with chocolate.\n"
    );
}
