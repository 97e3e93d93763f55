use rustlox::expression::{Expr, ExprVisitor, Stmt, StmtVisitor};
use rustlox::token::{Token, TokenType, Value};

/// Renders expressions in prefix form, fully parenthesised.
struct Printer {
    visits: usize,
}

impl Printer {
    fn parenthesize(&mut self, name: &str, operands: &[&Expr]) -> String {
        let mut text = format!("({}", name);
        for operand in operands {
            text = format!("{} {}", text, operand.accept(self));
        }
        format!("{})", text)
    }
}

impl ExprVisitor<String> for Printer {
    fn visit_assign_expr(&mut self, expr: &Expr) -> String {
        self.visits += 1;
        match expr {
            Expr::Assign { name, value } => {
                self.parenthesize(&format!("= {}", name.lexeme), &[&**value])
            }
            _ => unreachable!(),
        }
    }

    fn visit_binary_expr(&mut self, expr: &Expr) -> String {
        self.visits += 1;
        match expr {
            Expr::Binary {
                left,
                operator,
                right,
            } => self.parenthesize(&operator.lexeme, &[&**left, &**right]),
            _ => unreachable!(),
        }
    }

    fn visit_grouping_expr(&mut self, expr: &Expr) -> String {
        self.visits += 1;
        match expr {
            Expr::Grouping { expression } => self.parenthesize("group", &[&**expression]),
            _ => unreachable!(),
        }
    }

    fn visit_literal_expr(&mut self, expr: &Expr) -> String {
        self.visits += 1;
        match expr {
            Expr::Literal { value } => match value {
                Value::Double { value } => format!("{}", f64::from_bits(*value)),
                other => other.to_string().unwrap(),
            },
            _ => unreachable!(),
        }
    }

    fn visit_unary_expr(&mut self, expr: &Expr) -> String {
        self.visits += 1;
        match expr {
            Expr::Unary { operator, right } => self.parenthesize(&operator.lexeme, &[&**right]),
            _ => unreachable!(),
        }
    }

    fn visit_variable_expr(&mut self, expr: &Expr) -> String {
        self.visits += 1;
        match expr {
            Expr::Variable { name } => name.lexeme.clone(),
            _ => unreachable!(),
        }
    }

    fn visit_logical_expr(&mut self, expr: &Expr) -> String {
        self.visits += 1;
        match expr {
            Expr::Logical {
                left,
                operator,
                right,
            } => self.parenthesize(&operator.lexeme, &[&**left, &**right]),
            _ => unreachable!(),
        }
    }

    fn visit_call_expr(&mut self, expr: &Expr) -> String {
        self.visits += 1;
        match expr {
            Expr::Call {
                callee, arguments, ..
            } => {
                let mut operands: Vec<&Expr> = vec![&**callee];
                for argument in arguments.iter() {
                    operands.push(argument);
                }
                self.parenthesize("call", &operands)
            }
            _ => unreachable!(),
        }
    }
}

/// Names the kind of every statement it is handed.
struct Namer;

impl StmtVisitor<&'static str> for Namer {
    fn visit_expression_stmt(&mut self, _: &Stmt) -> &'static str {
        "expression"
    }

    fn visit_print_stmt(&mut self, _: &Stmt) -> &'static str {
        "print"
    }

    fn visit_variable_stmt(&mut self, _: &Stmt) -> &'static str {
        "var"
    }

    fn visit_block_stmt(&mut self, _: &Stmt) -> &'static str {
        "block"
    }

    fn visit_if_stmt(&mut self, _: &Stmt) -> &'static str {
        "if"
    }

    fn visit_while_stmt(&mut self, _: &Stmt) -> &'static str {
        "while"
    }

    fn visit_function_stmt(&mut self, _: &Stmt) -> &'static str {
        "function"
    }

    fn visit_return_stmt(&mut self, _: &Stmt) -> &'static str {
        "return"
    }
}

fn token(ttype: TokenType, lexeme: &str) -> Token {
    Token {
        ttype,
        lexeme: lexeme.to_string(),
        literal: None,
        line: 1,
    }
}

fn number(value: f64) -> Expr {
    Expr::Literal {
        value: Value::Double {
            value: value.to_bits(),
        },
    }
}

#[test]
fn every_expression_is_handed_to_the_handler_of_its_kind() {
    // -123 * (45.67)
    let expr = Expr::Binary {
        left: Box::new(Expr::Unary {
            operator: token(TokenType::MINUS, "-"),
            right: Box::new(number(123.0)),
        }),
        operator: token(TokenType::STAR, "*"),
        right: Box::new(Expr::Grouping {
            expression: Box::new(number(45.67)),
        }),
    };
    let mut printer = Printer { visits: 0 };
    assert_eq!("(* (- 123) (group 45.67))", expr.accept(&mut printer));
    assert_eq!(5, printer.visits);

    let expr = Expr::Assign {
        name: token(TokenType::IDENTIFIER, "a"),
        value: Box::new(Expr::Logical {
            left: Box::new(Expr::Variable {
                name: token(TokenType::IDENTIFIER, "b"),
            }),
            operator: token(TokenType::OR, "or"),
            right: Box::new(Expr::Call {
                callee: Box::new(Expr::Variable {
                    name: token(TokenType::IDENTIFIER, "f"),
                }),
                paren: token(TokenType::RIGHT_PAREN, ")"),
                arguments: vec![Expr::Literal { value: Value::Nil }],
            }),
        }),
    };
    assert_eq!("(= a (or b (call f Nil)))", expr.accept(&mut printer));
}

#[test]
fn every_statement_is_handed_to_the_handler_of_its_kind() {
    let expr = || Expr::Literal { value: Value::Nil };
    let statements = vec![
        (
            Stmt::Expression {
                expr: Box::new(expr()),
            },
            "expression",
        ),
        (
            Stmt::Print {
                expr: Box::new(expr()),
            },
            "print",
        ),
        (
            Stmt::Var {
                name: token(TokenType::IDENTIFIER, "a"),
                initializer: None,
            },
            "var",
        ),
        (Stmt::Block { statements: vec![] }, "block"),
        (
            Stmt::If {
                condition: expr(),
                then_branch: Box::new(Stmt::Block { statements: vec![] }),
                else_branch: None,
            },
            "if",
        ),
        (
            Stmt::While {
                condition: expr(),
                body: Box::new(Stmt::Block { statements: vec![] }),
            },
            "while",
        ),
        (
            Stmt::Function {
                name: token(TokenType::IDENTIFIER, "f"),
                params: vec![],
                body: vec![],
            },
            "function",
        ),
        (
            Stmt::Return {
                keyword: token(TokenType::RETURN, "return"),
                value: Box::new(expr()),
            },
            "return",
        ),
    ];
    for (statement, name) in statements {
        assert_eq!(name, statement.accept(&mut Namer));
    }
}

#[test]
fn copies_are_equal_to_what_they_copy() {
    let expr = Expr::Call {
        callee: Box::new(Expr::Variable {
            name: token(TokenType::IDENTIFIER, "f"),
        }),
        paren: token(TokenType::RIGHT_PAREN, ")"),
        arguments: vec![number(1.0), Expr::Literal { value: Value::Nil }],
    };
    assert_eq!(expr, expr.duplicate());
    assert_eq!(expr, expr.clone());
    assert!(expr.same(&expr.duplicate()));
    let statement = Stmt::Function {
        name: token(TokenType::IDENTIFIER, "f"),
        params: vec![token(TokenType::IDENTIFIER, "a")],
        body: vec![Stmt::Print {
            expr: Box::new(expr),
        }],
    };
    assert_eq!(statement, statement.duplicate());
    assert!(statement.same(&statement.clone()));
    let other = Stmt::Function {
        name: token(TokenType::IDENTIFIER, "f"),
        params: vec![token(TokenType::IDENTIFIER, "b")],
        body: vec![],
    };
    assert!(!statement.same(&other));
    assert_ne!(statement, other);
}
