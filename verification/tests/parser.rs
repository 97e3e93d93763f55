use rustlox::expression::{Expr, Stmt};
use rustlox::parser::{ParseError, Parser};
use rustlox::scanner::{number_lexemes, Scanner};
use rustlox::token::{Token, TokenType, Value};

fn scan(source: &str) -> Vec<Token> {
    let numbers = number_lexemes(source)
        .iter()
        .map(|text| text.parse::<f64>().unwrap().to_bits())
        .collect();
    Scanner::with_numbers(source, numbers).scan_tokens()
}

fn parse(source: &str) -> (Vec<Stmt>, Vec<ParseError>) {
    let tokens = scan(source);
    let mut parser = Parser::new(&tokens);
    let statements = parser.parse();
    (statements, parser.errors())
}

fn statements(source: &str) -> Vec<Stmt> {
    let (statements, errors) = parse(source);
    assert_eq!(Vec::<ParseError>::new(), errors);
    statements
}

fn expression(source: &str) -> Expr {
    let mut parsed = statements(&format!("{};", source));
    assert_eq!(1, parsed.len());
    match parsed.remove(0) {
        Stmt::Expression { expr } => *expr,
        other => panic!("no expression statement: {:?}", other),
    }
}

fn token(ttype: TokenType, lexeme: &str) -> Token {
    Token {
        ttype,
        lexeme: lexeme.to_string(),
        literal: None,
        line: 1,
    }
}

fn number(text: &str) -> Expr {
    Expr::Literal {
        value: Value::Double {
            value: text.parse::<f64>().unwrap().to_bits(),
        },
    }
}

fn variable(name: &str) -> Expr {
    Expr::Variable {
        name: token(TokenType::IDENTIFIER, name),
    }
}

fn binary(left: Expr, ttype: TokenType, lexeme: &str, right: Expr) -> Expr {
    Expr::Binary {
        left: Box::new(left),
        operator: token(ttype, lexeme),
        right: Box::new(right),
    }
}

fn errors(source: &str) -> Vec<ParseError> {
    parse(source).1
}

#[test]
fn factors_bind_tighter_than_terms() {
    assert_eq!(
        binary(
            number("1"),
            TokenType::PLUS,
            "+",
            binary(number("2"), TokenType::STAR, "*", number("3"))
        ),
        expression("1 + 2 * 3")
    );
    assert_eq!(
        binary(
            binary(number("1"), TokenType::STAR, "*", number("2")),
            TokenType::PLUS,
            "+",
            number("3")
        ),
        expression("1 * 2 + 3")
    );
}

#[test]
fn binary_operators_associate_to_the_left() {
    assert_eq!(
        binary(
            binary(number("1"), TokenType::MINUS, "-", number("2")),
            TokenType::MINUS,
            "-",
            number("3")
        ),
        expression("1 - 2 - 3")
    );
    assert_eq!(
        binary(
            binary(number("8"), TokenType::SLASH, "/", number("4")),
            TokenType::SLASH,
            "/",
            number("2")
        ),
        expression("8 / 4 / 2")
    );
}

#[test]
fn the_levels_from_equality_down_to_unary() {
    // a == b < c + d * -e
    let expected = binary(
        variable("a"),
        TokenType::EQUAL_EQUAL,
        "==",
        binary(
            variable("b"),
            TokenType::LESS,
            "<",
            binary(
                variable("c"),
                TokenType::PLUS,
                "+",
                binary(
                    variable("d"),
                    TokenType::STAR,
                    "*",
                    Expr::Unary {
                        operator: token(TokenType::MINUS, "-"),
                        right: Box::new(variable("e")),
                    },
                ),
            ),
        ),
    );
    assert_eq!(expected, expression("a == b < c + d * -e"));
}

#[test]
fn and_binds_tighter_than_or() {
    let expected = Expr::Logical {
        left: Box::new(variable("a")),
        operator: token(TokenType::OR, "or"),
        right: Box::new(Expr::Logical {
            left: Box::new(variable("b")),
            operator: token(TokenType::AND, "and"),
            right: Box::new(variable("c")),
        }),
    };
    assert_eq!(expected, expression("a or b and c"));
}

#[test]
fn grouping_overrides_precedence() {
    assert_eq!(
        binary(
            Expr::Grouping {
                expression: Box::new(binary(number("1"), TokenType::PLUS, "+", number("2")))
            },
            TokenType::STAR,
            "*",
            number("3")
        ),
        expression("(1 + 2) * 3")
    );
}

#[test]
fn assignment_associates_to_the_right() {
    let expected = Expr::Assign {
        name: token(TokenType::IDENTIFIER, "a"),
        value: Box::new(Expr::Assign {
            name: token(TokenType::IDENTIFIER, "b"),
            value: Box::new(number("1")),
        }),
    };
    assert_eq!(expected, expression("a = b = 1"));
}

#[test]
fn only_a_variable_can_be_assigned_to() {
    assert_eq!(
        vec![ParseError {
            message: "Invalid assignment target".to_string(),
            line: 1,
            error_where: " at ';'".to_string(),
        }],
        errors("1 = 2;")
    );
    assert_eq!(1, errors("(a) = 2;").len());
    assert_eq!(1, errors("a + b = 2;").len());
}

#[test]
fn literals() {
    assert_eq!(
        Expr::Literal {
            value: Value::Boolean { value: true }
        },
        expression("true")
    );
    assert_eq!(
        Expr::Literal {
            value: Value::Boolean { value: false }
        },
        expression("false")
    );
    assert_eq!(Expr::Literal { value: Value::Nil }, expression("nil"));
    assert_eq!(
        Expr::Literal {
            value: Value::String {
                value: "a b".to_string()
            }
        },
        expression("\"a b\"")
    );
    assert_eq!(number("12.5"), expression("12.5"));
}

#[test]
fn calls_chain_and_record_their_closing_parenthesis() {
    let inner = Expr::Call {
        callee: Box::new(variable("f")),
        paren: token(TokenType::RIGHT_PAREN, ")"),
        arguments: vec![],
    };
    let expected = Expr::Call {
        callee: Box::new(inner),
        paren: token(TokenType::RIGHT_PAREN, ")"),
        arguments: vec![number("1"), variable("a")],
    };
    assert_eq!(expected, expression("f()(1, a)"));
}

#[test]
fn a_missing_closing_parenthesis_is_reported() {
    assert_eq!(
        vec![ParseError {
            message: "Expect ')' after expression.".to_string(),
            line: 1,
            error_where: " at ';'".to_string(),
        }],
        errors("(1 + 2;")
    );
}

#[test]
fn an_error_at_the_end_says_so() {
    assert_eq!(
        vec![ParseError {
            message: "Expect ';' after value.".to_string(),
            line: 2,
            error_where: " at end ".to_string(),
        }],
        errors("print 1\n")
    );
}

#[test]
fn parsing_goes_on_after_an_error_and_reports_the_next_one_too() {
    let (statements, errors) = parse("var = 1;\nprint 2;\nprint (3;\nprint 4;");
    assert_eq!(
        vec![
            ParseError {
                message: "Expect variable name".to_string(),
                line: 1,
                error_where: " at '='".to_string(),
            },
            ParseError {
                message: "Expect ')' after expression.".to_string(),
                line: 3,
                error_where: " at ';'".to_string(),
            },
        ],
        errors
    );
    assert_eq!(
        vec![
            Stmt::Print {
                expr: Box::new(number("2"))
            },
            Stmt::Print {
                expr: Box::new(Expr::Literal {
                    value: Value::Double {
                        value: 4.0f64.to_bits()
                    }
                })
            },
        ],
        statements
            .into_iter()
            .map(|statement| match statement {
                Stmt::Print { expr } => Stmt::Print { expr },
                other => other,
            })
            .collect::<Vec<Stmt>>()
    );
}

#[test]
fn an_error_in_a_block_leaves_the_rest_of_the_block_standing() {
    let (statements, errors) = parse("{ print ; print 1; }");
    assert_eq!(1, errors.len());
    assert_eq!(
        vec![Stmt::Block {
            statements: vec![Stmt::Print {
                expr: Box::new(number("1"))
            }]
        }],
        statements
    );
}

#[test]
fn variable_declarations() {
    assert_eq!(
        vec![
            Stmt::Var {
                name: token(TokenType::IDENTIFIER, "a"),
                initializer: None,
            },
            Stmt::Var {
                name: token(TokenType::IDENTIFIER, "b"),
                initializer: Some(number("1")),
            },
        ],
        statements("var a; var b = 1;")
    );
}

#[test]
fn function_declarations() {
    assert_eq!(
        vec![Stmt::Function {
            name: token(TokenType::IDENTIFIER, "f"),
            params: vec![
                token(TokenType::IDENTIFIER, "a"),
                token(TokenType::IDENTIFIER, "b")
            ],
            body: vec![Stmt::Print {
                expr: Box::new(variable("a"))
            }],
        }],
        statements("fun f(a, b) { print a; }")
    );
    assert_eq!(
        vec![Stmt::Function {
            name: token(TokenType::IDENTIFIER, "g"),
            params: vec![],
            body: vec![],
        }],
        statements("fun g() {}")
    );
}

#[test]
fn if_and_while() {
    assert_eq!(
        vec![Stmt::If {
            condition: variable("a"),
            then_branch: Box::new(Stmt::Print {
                expr: Box::new(number("1"))
            }),
            else_branch: Some(Box::new(Stmt::Block { statements: vec![] })),
        }],
        statements("if (a) print 1; else {}")
    );
    assert_eq!(
        vec![Stmt::While {
            condition: variable("a"),
            body: Box::new(Stmt::Expression {
                expr: Box::new(variable("b"))
            }),
        }],
        statements("while (a) b;")
    );
}

#[test]
fn an_else_belongs_to_the_nearest_if() {
    let inner = Stmt::If {
        condition: variable("b"),
        then_branch: Box::new(Stmt::Expression {
            expr: Box::new(variable("c")),
        }),
        else_branch: Some(Box::new(Stmt::Expression {
            expr: Box::new(variable("d")),
        })),
    };
    assert_eq!(
        vec![Stmt::If {
            condition: variable("a"),
            then_branch: Box::new(inner),
            else_branch: None,
        }],
        statements("if (a) if (b) c; else d;")
    );
}

#[test]
fn a_for_statement_is_made_of_while_and_blocks() {
    let increment = Expr::Assign {
        name: token(TokenType::IDENTIFIER, "i"),
        value: Box::new(binary(variable("i"), TokenType::PLUS, "+", number("1"))),
    };
    let expected = Stmt::Block {
        statements: vec![
            Stmt::Var {
                name: token(TokenType::IDENTIFIER, "i"),
                initializer: Some(number("0")),
            },
            Stmt::While {
                condition: binary(variable("i"), TokenType::LESS, "<", number("3")),
                body: Box::new(Stmt::Block {
                    statements: vec![
                        Stmt::Print {
                            expr: Box::new(variable("i")),
                        },
                        Stmt::Expression {
                            expr: Box::new(increment),
                        },
                    ],
                }),
            },
        ],
    };
    assert_eq!(
        vec![expected],
        statements("for (var i = 0; i < 3; i = i + 1) print i;")
    );
}

#[test]
fn a_for_statement_without_clauses_loops_on_true() {
    assert_eq!(
        vec![Stmt::While {
            condition: Expr::Literal {
                value: Value::Boolean { value: true }
            },
            body: Box::new(Stmt::Block { statements: vec![] }),
        }],
        statements("for (;;) {}")
    );
}

#[test]
fn a_for_statement_may_start_with_an_expression() {
    assert_eq!(
        vec![Stmt::Block {
            statements: vec![
                Stmt::Expression {
                    expr: Box::new(variable("a")),
                },
                Stmt::While {
                    condition: variable("b"),
                    body: Box::new(Stmt::Expression {
                        expr: Box::new(variable("c")),
                    }),
                },
            ],
        }],
        statements("for (a; b;) c;")
    );
}

fn call_with(count: usize) -> String {
    let arguments: Vec<String> = (0..count).map(|i| format!("a{}", i)).collect();
    format!("f({});", arguments.join(", "))
}

#[test]
fn a_call_can_have_255_arguments() {
    let parsed = statements(&call_with(255));
    match &parsed[0] {
        Stmt::Expression { expr } => match &**expr {
            Expr::Call { arguments, .. } => assert_eq!(255, arguments.len()),
            other => panic!("no call: {:?}", other),
        },
        other => panic!("no expression statement: {:?}", other),
    }
}

#[test]
fn a_call_cannot_have_256_arguments() {
    let errors = errors(&call_with(256));
    assert_eq!(
        vec![ParseError {
            message: "Can't have more than 255 arguments".to_string(),
            line: 1,
            error_where: " at 'a255'".to_string(),
        }],
        errors
    );
}

#[test]
fn a_function_with_256_parameters_is_reported_and_parsed() {
    let parameters: Vec<String> = (0..256).map(|i| format!("p{}", i)).collect();
    let source = format!("fun f({}) {{}}", parameters.join(", "));
    let (statements, errors) = parse(&source);
    assert_eq!(
        vec![ParseError {
            message: "Can't have more than 255 parameters.".to_string(),
            line: 1,
            error_where: " at 'p255'".to_string(),
        }],
        errors
    );
    match &statements[0] {
        Stmt::Function { params, .. } => assert_eq!(256, params.len()),
        other => panic!("no function: {:?}", other),
    }
}

#[test]
fn a_return_statement_is_no_statement_of_the_grammar() {
    assert_eq!(
        vec![ParseError {
            message: "Expect expression.".to_string(),
            line: 1,
            error_where: " at 'return'".to_string(),
        }],
        errors("return 1;")
    );
}

#[test]
fn a_number_without_a_value_is_reported() {
    let tokens = Scanner::new("print 1;").scan_tokens();
    let mut parser = Parser::new(&tokens);
    let statements = parser.parse();
    assert_eq!(0, statements.len());
    assert_eq!(
        vec![ParseError {
            message: "Literal has no value.".to_string(),
            line: 1,
            error_where: " at ';'".to_string(),
        }],
        parser.errors()
    );
}

#[test]
fn tokens_without_an_end_of_file_token_are_parsed_to_their_end() {
    let mut tokens = scan("print a;");
    tokens.pop();
    let mut parser = Parser::new(&tokens);
    assert_eq!(
        vec![Stmt::Print {
            expr: Box::new(variable("a"))
        }],
        parser.parse()
    );
    let none: Vec<Token> = vec![];
    let mut parser = Parser::new(&none);
    assert_eq!(0, parser.parse().len());
    assert_eq!(0, parser.errors().len());
}
