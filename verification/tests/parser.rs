use lox::expression::{Binary, Expression, Literal};
use lox::parser::Parser;
use lox::scanner::Scanner;
use lox::stmt::{ExpressionStmt, Stmt};
use lox::tokens::{LiteralTypes, Token, TokenType};

#[test]
fn test_parser() {
    let expression = "1 + 2 * 3 - 4 / 5;";

    let four_div_five = Box::new(Expression::Binary(Binary {
        id: 7,
        left: Box::new(Expression::Literal(Literal {
            id: 5,
            value: LiteralTypes::Number("4".to_string()),
        })),
        operator: Token {
            token_type: TokenType::Slash,
            lexeme: "/".to_string(),
            literal: LiteralTypes::Nil,
            line: 1,
        },
        right: Box::new(Expression::Literal(Literal {
            id: 6,
            value: LiteralTypes::Number("5".to_string()),
        })),
    }));
    let two_mul_three = Box::new(Expression::Binary(Binary {
        id: 3,
        left: Box::new(Expression::Literal(Literal {
            id: 1,
            value: LiteralTypes::Number("2".to_string()),
        })),
        operator: Token {
            token_type: TokenType::Star,
            lexeme: "*".to_string(),
            literal: LiteralTypes::Nil,
            line: 1,
        },
        right: Box::new(Expression::Literal(Literal {
            id: 2,
            value: LiteralTypes::Number("3".to_string()),
        })),
    }));
    let reference = Expression::Binary(Binary {
        id: 8,
        left: Box::new(Expression::Binary(Binary {
            id: 4,
            left: Box::new(Expression::Literal(Literal {
                id: 0,
                value: LiteralTypes::Number("1".to_string()),
            })),
            operator: Token {
                token_type: TokenType::Plus,
                lexeme: "+".to_string(),
                literal: LiteralTypes::Nil,
                line: 1,
            },
            right: two_mul_three,
        })),
        operator: Token {
            token_type: TokenType::Minus,
            lexeme: "-".to_string(),
            literal: LiteralTypes::Nil,
            line: 1,
        },
        right: four_div_five,
    });

    let mut scanner = Scanner::new(expression.to_string());
    let tokens = scanner.scan_tokens();
    let mut parser = Parser::new(tokens.clone());
    let statements = parser.parse().unwrap();
    let expression = match &statements[0] {
        Stmt::Expression(ExpressionStmt { expression }) => expression,
        _ => panic!("Expected an expression statement"),
    };
    assert_eq!(**expression, reference);
}
