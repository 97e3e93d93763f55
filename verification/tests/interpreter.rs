use rustlox::environment::Environment;
use rustlox::expression::{Expr, Stmt};
use rustlox::interpreter::{
    apply_binary, apply_unary, Action, Event, Interpreter, InterpreterError,
    Outcome,
};
use rustlox::number;
use rustlox::run;
use rustlox::scanner::number_lexemes;
use rustlox::text::decimal_text;
use rustlox::token::{Callable, Native, Token, TokenType, Value};

fn numbers(source: &str) -> Vec<u64> {
    number_lexemes(source)
        .iter()
        .map(|text| text.parse::<f64>().unwrap().to_bits())
        .collect()
}

fn arithmetic(operator: TokenType, left: u64, right: u64) -> u64 {
    let a = f64::from_bits(left);
    let b = f64::from_bits(right);
    let result = match operator {
        TokenType::MINUS => a - b,
        TokenType::PLUS => a + b,
        TokenType::SLASH => a / b,
        TokenType::STAR => a * b,
        _ => panic!("no arithmetic operator: {:?}", operator),
    };
    result.to_bits()
}

/// Drives a machine to its end; returns what it printed and how it failed.
fn drive(interpreter: &mut Interpreter) -> (Vec<String>, Option<InterpreterError>) {
    let mut output = vec![];
    let mut event = Event::Resume;
    let mut steps = 0u64;
    loop {
        steps += 1;
        assert!(steps < 10_000_000);
        let action = interpreter.step(event);
        event = Event::Resume;
        match action {
            Action::Continue => {}
            Action::Print { text } => output.push(text),
            Action::PrintNumber { value } => output.push(format!("{}", f64::from_bits(value))),
            Action::Arithmetic {
                operator,
                left,
                right,
            } => {
                event = Event::Number {
                    value: arithmetic(operator, left, right),
                }
            }
            Action::Clock => {
                event = Event::Number {
                    value: 1234.0f64.to_bits(),
                }
            }
            Action::Waiting => panic!("the machine waits though it was answered"),
            Action::Finished => return (output, None),
            Action::Failed { error } => return (output, Some(error)),
        }
    }
}

fn execute(source: &str) -> (Vec<String>, Option<InterpreterError>) {
    let mut outcome = run(source, numbers(source));
    assert_eq!(0, outcome.scan_errors.len());
    assert_eq!(0, outcome.parse_errors.len());
    drive(&mut outcome.interpreter)
}

fn prints(source: &str) -> Vec<String> {
    let (output, error) = execute(source);
    assert_eq!(None, error);
    output
}

fn double(value: f64) -> Value {
    Value::Double {
        value: value.to_bits(),
    }
}

fn token(ttype: TokenType, lexeme: &str) -> Token {
    Token {
        ttype,
        lexeme: lexeme.to_string(),
        literal: None,
        line: 1,
    }
}

#[test]
fn arithmetic_respects_precedence() {
    assert_eq!(vec!["7"], prints("print 1 + 2 * 3;"));
    assert_eq!(vec!["9"], prints("print (1 + 2) * 3;"));
    assert_eq!(vec!["-5"], prints("print 1 - 2 * 3;"));
    assert_eq!(vec!["2.5"], prints("print 10 / 4;"));
    assert_eq!(vec!["1"], prints("print 4 - 2 - 1;"));
}

#[test]
fn one_plus_two_times_three_yields_seven() {
    let source = "1 + 2 * 3;";
    let mut outcome = run(source, numbers(source));
    let statement = Stmt::Expression {
        expr: Box::new(Expr::Binary {
            left: Box::new(Expr::Literal {
                value: double(1.0),
            }),
            operator: token(TokenType::PLUS, "+"),
            right: Box::new(Expr::Binary {
                left: Box::new(Expr::Literal {
                    value: double(2.0),
                }),
                operator: token(TokenType::STAR, "*"),
                right: Box::new(Expr::Literal {
                    value: double(3.0),
                }),
            }),
        }),
    };
    let mut by_hand = Interpreter::new();
    by_hand.interpret(&vec![statement]);
    // Both machines ask for 2 * 3 first and for 1 + 6 second.
    for machine in [&mut outcome.interpreter, &mut by_hand] {
        let mut asked = vec![];
        let mut event = Event::Resume;
        loop {
            match machine.step(event) {
                Action::Arithmetic {
                    operator,
                    left,
                    right,
                } => {
                    asked.push((operator, f64::from_bits(left), f64::from_bits(right)));
                    event = Event::Number {
                        value: arithmetic(operator, left, right),
                    };
                }
                Action::Finished => break,
                Action::Continue => event = Event::Resume,
                other => panic!("unexpected action {:?}", other),
            }
        }
        assert_eq!(
            vec![
                (TokenType::STAR, 2.0, 3.0),
                (TokenType::PLUS, 1.0, 6.0)
            ],
            asked
        );
    }
}

#[test]
fn strings_are_joined_by_plus() {
    assert_eq!(vec!["foobar"], prints("print \"foo\" + \"bar\";"));
    assert_eq!(
        Outcome::Value {
            value: Value::String {
                value: "foobar".to_string()
            }
        },
        apply_binary(
            TokenType::PLUS,
            &Value::String {
                value: "foo".to_string()
            },
            &Value::String {
                value: "bar".to_string()
            }
        )
    );
}

#[test]
fn a_string_minus_a_number_is_a_type_error() {
    let (output, error) = execute("print \"foo\" - 1;");
    assert_eq!(0, output.len());
    assert_eq!(
        Some(InterpreterError::RuntimeError {
            operator: TokenType::MINUS,
            error: "Cannot perform this operation on a string".to_string(),
        }),
        error
    );
}

#[test]
fn mismatched_operands_are_type_errors_that_name_the_operator() {
    let cases = [
        ("1 + true;", TokenType::PLUS, "Cannot perform this with a number and boolean"),
        ("1 < \"a\";", TokenType::LESS, "Cannot perform this with a number and a string"),
        ("1 * nil;", TokenType::STAR, "Cannot perform this with a number and nil"),
        ("1 / clock;", TokenType::SLASH, "Cannot perform this with a number and Callable"),
        ("\"a\" + 1;", TokenType::PLUS, "Cannot add a string and a value that is no string"),
        ("nil + 1;", TokenType::PLUS, "Cannot perform this operation on this type"),
        ("true > false;", TokenType::GREATER, "Cannot perform this operation on this type"),
        ("-\"a\";", TokenType::MINUS, "Operand must be a number."),
    ];
    for (source, operator, message) in cases {
        let (_, error) = execute(source);
        assert_eq!(
            Some(InterpreterError::RuntimeError {
                operator,
                error: message.to_string(),
            }),
            error,
            "{}",
            source
        );
    }
}

#[test]
fn shadowing_does_not_change_the_outer_binding() {
    assert_eq!(
        vec!["2", "1"],
        prints("var a = 1; { var a = 2; print a; } print a;")
    );
}

#[test]
fn assignment_in_a_block_changes_the_outer_binding() {
    assert_eq!(
        vec!["2", "2"],
        prints("var a = 1; { a = 2; print a; } print a;")
    );
}

#[test]
fn a_closure_sees_later_assignments_to_what_it_captured() {
    let source = "
        fun outer() {
            var x = 1;
            fun show() { print x; }
            x = 2;
            show();
            x = x + 1;
            show();
        }
        outer();
    ";
    assert_eq!(vec!["2", "3"], prints(source));
}

#[test]
fn two_closures_share_the_scope_they_captured() {
    let source = "
        var get;
        var bump;
        fun make() {
            var count = 0;
            fun read() { print count; }
            fun add() { count = count + 1; }
            get = read;
            bump = add;
        }
        make();
        bump();
        bump();
        get();
    ";
    assert_eq!(vec!["2"], prints(source));
}

#[test]
fn a_function_finds_itself_by_name() {
    let source = "
        var result = 1;
        fun factorial(n) {
            if (n > 1) {
                result = result * n;
                factorial(n - 1);
            }
        }
        factorial(5);
        print result;
    ";
    assert_eq!(vec!["120"], prints(source));
}

#[test]
fn a_function_in_a_block_finds_itself_by_name() {
    let source = "
        {
            fun count(n) {
                if (n > 0) {
                    print n;
                    count(n - 1);
                }
            }
            count(3);
        }
    ";
    assert_eq!(vec!["3", "2", "1"], prints(source));
}

#[test]
fn reading_an_undefined_variable_fails_at_any_depth() {
    for source in ["print a;", "{ { { print a; } } }", "fun f() { { print a; } } f();"] {
        let (output, error) = execute(source);
        assert_eq!(0, output.len());
        assert_eq!(
            Some(InterpreterError::new_runtime_error(
                TokenType::IDENTIFIER,
                "Undefined variable 'a'".to_string()
            )),
            error
        );
    }
}

#[test]
fn assigning_an_undefined_variable_fails_at_any_depth() {
    for source in ["a = 1;", "{ { a = 1; } }", "fun f() { a = 1; } f();"] {
        let (_, error) = execute(source);
        assert_eq!(
            Some(InterpreterError::new_runtime_error(
                TokenType::IDENTIFIER,
                "Undefined variable 'a'".to_string()
            )),
            error
        );
    }
}

#[test]
fn a_call_with_too_many_arguments_fails_and_names_both_counts() {
    let (output, error) = execute("fun f() { print 1; } f(2);");
    assert_eq!(0, output.len());
    assert_eq!(
        Some(InterpreterError::RuntimeError {
            operator: TokenType::RIGHT_PAREN,
            error: "Expected 0 arguments but got 1.".to_string(),
        }),
        error
    );
}

#[test]
fn a_call_with_too_few_arguments_fails_and_names_both_counts() {
    let (_, error) = execute("fun f(a, b, c) { print a; } f(1);");
    assert_eq!(
        Some(InterpreterError::RuntimeError {
            operator: TokenType::RIGHT_PAREN,
            error: "Expected 3 arguments but got 1.".to_string(),
        }),
        error
    );
}

#[test]
fn only_callables_can_be_called() {
    let (_, error) = execute("var a = 1; a();");
    assert_eq!(
        Some(InterpreterError::RuntimeError {
            operator: TokenType::RIGHT_PAREN,
            error: "Can only call functions and classes.".to_string(),
        }),
        error
    );
}

#[test]
fn and_does_not_evaluate_its_right_operand_after_a_falsy_left_one() {
    assert_eq!(vec!["false"], prints("print false and (1/0);"));
    assert_eq!(vec!["false"], prints("print false and undefined;"));
    assert_eq!(vec!["Nil"], prints("print nil and undefined;"));
}

#[test]
fn or_does_not_evaluate_its_right_operand_after_a_truthy_left_one() {
    assert_eq!(vec!["1"], prints("print 1 or undefined;"));
    assert_eq!(vec!["a"], prints("print \"a\" or undefined;"));
}

#[test]
fn logical_operators_yield_an_operand_not_a_boolean() {
    assert_eq!(vec!["2"], prints("print 1 and 2;"));
    assert_eq!(vec!["2"], prints("print nil or 2;"));
    assert_eq!(vec!["0"], prints("print 0 or 2;"));
    assert_eq!(vec![""], prints("print \"\" or 2;"));
}

#[test]
fn truthiness() {
    let interpreter = Interpreter::new();
    assert!(!interpreter.is_truthy(&Value::Nil));
    assert!(!interpreter.is_truthy(&Value::Boolean { value: false }));
    assert!(interpreter.is_truthy(&Value::Boolean { value: true }));
    assert!(interpreter.is_truthy(&double(0.0)));
    assert!(interpreter.is_truthy(&Value::String {
        value: "".to_string()
    }));
}

#[test]
fn equality_is_structural_and_numbers_compare_as_doubles() {
    let interpreter = Interpreter::new();
    let yes = Value::Boolean { value: true };
    let no = Value::Boolean { value: false };
    assert_eq!(yes, interpreter.is_equal(&double(1.5), &double(1.5)));
    assert_eq!(no, interpreter.is_equal(&double(1.5), &double(2.5)));
    assert_eq!(yes, interpreter.is_equal(&double(0.0), &double(-0.0)));
    assert_eq!(no, interpreter.is_equal(&double(f64::NAN), &double(f64::NAN)));
    assert_eq!(yes, interpreter.is_not_equal(&double(f64::NAN), &double(f64::NAN)));
    assert_eq!(no, interpreter.is_equal(&double(1.0), &Value::Nil));
    assert_eq!(yes, interpreter.is_equal(&Value::Nil, &Value::Nil));
    assert_eq!(
        no,
        interpreter.is_equal(
            &Value::String {
                value: "1".to_string()
            },
            &double(1.0)
        )
    );
    assert_eq!(
        yes,
        interpreter.is_equal(
            &Value::String {
                value: "a".to_string()
            },
            &Value::String {
                value: "a".to_string()
            }
        )
    );
    assert_eq!(no, interpreter.is_not_equal(&yes, &yes));
    assert_eq!(vec!["true", "false", "true"], prints("print 1 == 1; print 1 == \"1\"; print nil != 1;"));
}

#[test]
fn functions_are_equal_to_themselves_only() {
    assert_eq!(
        vec!["true", "false", "true"],
        prints("fun f() {} fun g() {} print f == f; print f == g; print clock == clock;")
    );
}

#[test]
fn comparison_of_bit_patterns_agrees_with_the_doubles() {
    let samples = [
        0.0,
        -0.0,
        1.0,
        -1.0,
        1.5,
        -1.5,
        f64::MIN_POSITIVE,
        -f64::MIN_POSITIVE,
        5e-324,
        -5e-324,
        f64::MAX,
        f64::MIN,
        f64::INFINITY,
        f64::NEG_INFINITY,
        f64::NAN,
        -f64::NAN,
        123.456,
        1e300,
        -1e-300,
    ];
    for a in samples {
        for b in samples {
            assert_eq!(a == b, number::equal(a.to_bits(), b.to_bits()), "{} == {}", a, b);
            assert_eq!(a < b, number::less(a.to_bits(), b.to_bits()), "{} < {}", a, b);
            assert_eq!(
                a <= b,
                number::less_equal(a.to_bits(), b.to_bits()),
                "{} <= {}",
                a,
                b
            );
            assert_eq!(
                a == b,
                Interpreter::values_are_equal(&double(a), &double(b))
            );
        }
        assert_eq!(a.is_nan(), number::nan(a.to_bits()));
        assert_eq!((-a).to_bits(), number::negate(a.to_bits()));
    }
}

#[test]
fn comparisons_yield_booleans() {
    assert_eq!(
        vec!["true", "false", "true", "true", "false", "true"],
        prints("print 1 < 2; print 2 < 1; print 2 <= 2; print 3 > 2; print 2 >= 3; print 3 >= 3;")
    );
}

#[test]
fn unary_operators() {
    assert_eq!(
        vec!["-3", "3", "true", "false", "true"],
        prints("print -3; print --3; print !nil; print !0; print !!true;")
    );
    assert_eq!(
        Outcome::Value {
            value: double(-2.5)
        },
        apply_unary(TokenType::MINUS, &double(2.5))
    );
}

#[test]
fn values_print_as_their_text() {
    assert_eq!(
        vec!["true", "false", "Nil", "text", "<native fn>", "f", "0.5", "100"],
        prints("fun f() {} print true; print false; print nil; print \"text\"; print clock; print f; print 0.5; print 100;")
    );
    assert_eq!(None, double(1.0).to_string());
    assert_eq!(Some("Nil".to_string()), Value::Nil.to_string());
}

#[test]
fn while_loops_run_as_long_as_the_condition_is_truthy() {
    assert_eq!(
        vec!["0", "1", "2"],
        prints("var i = 0; while (i < 3) { print i; i = i + 1; }")
    );
    assert_eq!(0, prints("while (false) print 1;").len());
}

#[test]
fn for_loops_run_like_the_while_loops_they_are_made_of() {
    assert_eq!(
        vec!["0", "1", "2"],
        prints("for (var i = 0; i < 3; i = i + 1) print i;")
    );
    assert_eq!(
        vec!["3", "2", "1"],
        prints("var i = 3; for (; i > 0;) { print i; i = i - 1; }")
    );
}

#[test]
fn the_variable_of_a_for_loop_is_gone_after_the_loop() {
    let (output, error) = execute("for (var i = 0; i < 1; i = i + 1) print i; print i;");
    assert_eq!(vec!["0"], output);
    assert_eq!(
        Some(InterpreterError::new_runtime_error(
            TokenType::IDENTIFIER,
            "Undefined variable 'i'".to_string()
        )),
        error
    );
}

#[test]
fn if_runs_one_branch() {
    assert_eq!(
        vec!["yes", "no", "after"],
        prints("if (1) print \"yes\"; else print \"no\"; if (nil) print \"yes\"; else print \"no\"; if (false) print \"never\"; print \"after\";")
    );
}

#[test]
fn a_variable_without_an_initializer_is_nil() {
    assert_eq!(vec!["Nil"], prints("var a; print a;"));
}

#[test]
fn assignment_is_an_expression_with_the_assigned_value() {
    assert_eq!(vec!["3", "3", "3"], prints("var a; var b; print a = b = 3; print a; print b;"));
}

#[test]
fn a_call_without_a_return_yields_nil() {
    assert_eq!(vec!["Nil"], prints("fun f() {} print f();"));
}

#[test]
fn arguments_are_bound_to_parameters_in_order() {
    assert_eq!(
        vec!["1", "2", "3"],
        prints("fun f(a, b, c) { print a; print b; print c; } f(1, 2, 3);")
    );
}

#[test]
fn arguments_are_evaluated_from_left_to_right_after_the_callee() {
    let source = "
        fun show(x) { print x; }
        fun f(a, b) {}
        f(show(1), show(2));
    ";
    assert_eq!(vec!["1", "2"], prints(source));
}

#[test]
fn a_function_runs_in_the_scope_it_closed_over_not_in_the_callers() {
    let source = "
        var a = \"global\";
        fun show() { print a; }
        {
            var a = \"block\";
            show();
        }
    ";
    assert_eq!(vec!["global"], prints(source));
}

#[test]
fn the_clock_is_asked_of_the_host() {
    assert_eq!(vec!["1234"], prints("print clock();"));
    let (_, error) = execute("clock(1);");
    assert_eq!(
        Some(InterpreterError::RuntimeError {
            operator: TokenType::RIGHT_PAREN,
            error: "Expected 0 arguments but got 1.".to_string(),
        }),
        error
    );
}

#[test]
fn a_return_leaves_the_call_with_its_value() {
    let body = vec![
        Stmt::Block {
            statements: vec![Stmt::Return {
                keyword: token(TokenType::RETURN, "return"),
                value: Box::new(Expr::Variable {
                    name: token(TokenType::IDENTIFIER, "x"),
                }),
            }],
        },
        Stmt::Print {
            expr: Box::new(Expr::Literal {
                value: Value::String {
                    value: "never".to_string(),
                },
            }),
        },
    ];
    let program = vec![
        Stmt::Function {
            name: token(TokenType::IDENTIFIER, "same"),
            params: vec![token(TokenType::IDENTIFIER, "x")],
            body,
        },
        Stmt::Print {
            expr: Box::new(Expr::Call {
                callee: Box::new(Expr::Variable {
                    name: token(TokenType::IDENTIFIER, "same"),
                }),
                paren: token(TokenType::RIGHT_PAREN, ")"),
                arguments: vec![Expr::Literal {
                    value: double(5.0),
                }],
            }),
        },
        Stmt::Print {
            expr: Box::new(Expr::Variable {
                name: token(TokenType::IDENTIFIER, "clock"),
            }),
        },
    ];
    let mut interpreter = Interpreter::new();
    interpreter.interpret(&program);
    let (output, error) = drive(&mut interpreter);
    assert_eq!(None, error);
    assert_eq!(vec!["5", "<native fn>"], output);
    assert_eq!(0, interpreter.environment().current());
}

#[test]
fn a_return_outside_a_function_abandons_the_program() {
    let program = vec![
        Stmt::Return {
            keyword: token(TokenType::RETURN, "return"),
            value: Box::new(Expr::Literal {
                value: double(1.0),
            }),
        },
        Stmt::Print {
            expr: Box::new(Expr::Literal { value: Value::Nil }),
        },
    ];
    let mut interpreter = Interpreter::new();
    interpreter.interpret(&program);
    let (output, error) = drive(&mut interpreter);
    assert_eq!(0, output.len());
    assert_eq!(
        Some(InterpreterError::Return {
            value: double(1.0)
        }),
        error
    );
    assert!(interpreter.is_finished());
}

#[test]
fn a_failure_stops_the_program_and_leaves_every_block() {
    let source = "print 1; { var a = 2; { print a + nil; } } print 3;";
    let mut outcome = run(source, numbers(source));
    let (output, error) = drive(&mut outcome.interpreter);
    assert_eq!(vec!["1"], output);
    assert_eq!(
        Some(InterpreterError::RuntimeError {
            operator: TokenType::PLUS,
            error: "Cannot perform this with a number and nil".to_string(),
        }),
        error
    );
    assert!(outcome.interpreter.is_finished());
    assert_eq!(0, outcome.interpreter.environment().current());
    assert_eq!(Action::Finished, outcome.interpreter.step(Event::Resume));
}

#[test]
fn a_machine_that_waits_goes_on_waiting_until_it_is_handed_a_number() {
    let source = "print 1 + 2;";
    let mut outcome = run(source, numbers(source));
    let mut action = outcome.interpreter.step(Event::Resume);
    while action == Action::Continue {
        action = outcome.interpreter.step(Event::Resume);
    }
    assert_eq!(
        Action::Arithmetic {
            operator: TokenType::PLUS,
            left: 1.0f64.to_bits(),
            right: 2.0f64.to_bits(),
        },
        action
    );
    assert!(outcome.interpreter.is_waiting());
    assert_eq!(Action::Waiting, outcome.interpreter.step(Event::Resume));
    assert_eq!(
        Action::Continue,
        outcome.interpreter.step(Event::Number {
            value: 3.0f64.to_bits()
        })
    );
    assert!(!outcome.interpreter.is_waiting());
    assert_eq!(
        Action::PrintNumber {
            value: 3.0f64.to_bits()
        },
        outcome.interpreter.step(Event::Resume)
    );
}

#[test]
fn a_source_with_a_syntax_error_is_not_run() {
    let source = "print 1; print ;";
    let mut outcome = run(source, numbers(source));
    assert!(outcome.had_error());
    assert_eq!(1, outcome.parse_errors.len());
    assert_eq!("Expect expression.", outcome.parse_errors[0].message);
    assert_eq!(Action::Finished, outcome.interpreter.step(Event::Resume));
}

#[test]
fn a_source_with_a_scan_error_is_not_run() {
    let source = "print 1; @";
    let mut outcome = run(source, numbers(source));
    assert!(outcome.had_error());
    assert_eq!(1, outcome.scan_errors.len());
    assert_eq!(Action::Finished, outcome.interpreter.step(Event::Resume));
}

#[test]
fn a_new_machine_knows_the_clock_and_nothing_else() {
    let interpreter = Interpreter::new();
    assert!(interpreter.is_finished());
    assert_eq!(0, interpreter.global);
    assert_eq!(
        Ok(Value::Callable {
            callable: Callable::NativeFunction {
                arity: 0,
                call: Native::Clock,
                value: "<native fn>".to_string(),
            }
        }),
        interpreter
            .environment()
            .get(token(TokenType::IDENTIFIER, "clock"))
    );
    assert!(interpreter
        .environment()
        .get(token(TokenType::IDENTIFIER, "print"))
        .is_err());
}

#[test]
fn callables_know_their_arity_and_their_name() {
    let clock = Callable::NativeFunction {
        arity: 0,
        call: Native::Clock,
        value: "<native fn>".to_string(),
    };
    assert_eq!(0, clock.arity());
    assert_eq!("<native fn>", clock.value());
    let function = Callable::Function {
        declaration: Box::new(Stmt::Function {
            name: token(TokenType::IDENTIFIER, "add"),
            params: vec![
                token(TokenType::IDENTIFIER, "a"),
                token(TokenType::IDENTIFIER, "b"),
            ],
            body: vec![],
        }),
        closure: 0,
    };
    assert_eq!(2, function.arity());
    assert_eq!("add", function.value());
    let mut interpreter = Interpreter::new();
    assert!(interpreter.can_call(&function));
    let action = function.call(&mut interpreter, &vec![double(1.0), double(2.0)]);
    assert_eq!(Action::Continue, action);
    assert_eq!(1, interpreter.environment().current());
    assert_eq!(
        Ok(double(2.0)),
        interpreter
            .environment()
            .get(token(TokenType::IDENTIFIER, "b"))
    );
}

#[test]
fn numbers_are_written_in_base_ten() {
    assert_eq!("0", decimal_text(0));
    assert_eq!("7", decimal_text(7));
    assert_eq!("10", decimal_text(10));
    assert_eq!("255", decimal_text(255));
    assert_eq!("1234567890", decimal_text(1234567890));
}

#[test]
fn deep_recursion_does_not_exhaust_the_host_stack() {
    let source = "
        var depth = 0;
        fun down(n) {
            if (n > 0) {
                depth = depth + 1;
                down(n - 1);
            }
        }
        down(20000);
        print depth;
    ";
    assert_eq!(vec!["20000"], prints(source));
}

#[test]
fn statements_can_be_scheduled_in_a_scope_of_the_callers_choice() {
    let mut interpreter = Interpreter::new();
    let name = token(TokenType::IDENTIFIER, "a");
    let program = vec![Stmt::Var {
        name: token(TokenType::IDENTIFIER, "a"),
        initializer: Some(Expr::Literal {
            value: double(1.0),
        }),
    }];
    interpreter.interpret(&program);
    let (_, error) = drive(&mut interpreter);
    assert_eq!(None, error);
    let block = vec![
        Stmt::Var {
            name: token(TokenType::IDENTIFIER, "a"),
            initializer: Some(Expr::Literal {
                value: double(2.0),
            }),
        },
        Stmt::Print {
            expr: Box::new(Expr::Variable {
                name: token(TokenType::IDENTIFIER, "a"),
            }),
        },
    ];
    let scope = {
        let mut scopes = Environment::new(None);
        scopes.enter(0)
    };
    assert_eq!(1, scope);
    // The machine has one scope only: a scope that it does not have is not
    // entered, and the statements run where the machine stands.
    interpreter.execute_block(&block, scope);
    let (output, error) = drive(&mut interpreter);
    assert_eq!(None, error);
    assert_eq!(vec!["2"], output);
    assert_eq!(0, interpreter.environment().current());
    assert_eq!(Ok(double(2.0)), interpreter.environment().get(name));
}

#[test]
fn one_statement_and_one_expression_can_be_begun_by_hand() {
    let mut interpreter = Interpreter::new();
    let action = interpreter.evaluate(&Expr::Literal {
        value: Value::Nil,
    });
    assert_eq!(Action::Continue, action);
    let action = interpreter.execute(&Stmt::Print {
        expr: Box::new(Expr::Literal {
            value: Value::Boolean { value: true },
        }),
    });
    assert_eq!(Action::Continue, action);
    let (output, error) = drive(&mut interpreter);
    assert_eq!(None, error);
    assert_eq!(vec!["true"], output);
    let action = interpreter.evaluate(&Expr::Variable {
        name: token(TokenType::IDENTIFIER, "nowhere"),
    });
    assert_eq!(
        Action::Failed {
            error: InterpreterError::new_runtime_error(
                TokenType::IDENTIFIER,
                "Undefined variable 'nowhere'".to_string()
            )
        },
        action
    );
}

#[test]
fn functions_are_values() {
    let source = "
        fun twice(f, x) { f(x); f(x); }
        fun show(x) { print x; }
        var g = twice;
        g(show, \"hi\");
    ";
    assert_eq!(vec!["hi", "hi"], prints(source));
}

#[test]
fn fibonacci_by_name() {
    let source = "
        var result;
        fun fib(n) {
            if (n < 2) {
                result = n;
            } else {
                fib(n - 1);
                var first = result;
                fib(n - 2);
                result = first + result;
            }
        }
        for (var i = 0; i < 10; i = i + 1) {
            fib(i);
            print result;
        }
    ";
    assert_eq!(
        vec!["0", "1", "1", "2", "3", "5", "8", "13", "21", "34"],
        prints(source)
    );
}

#[test]
fn every_call_gets_a_scope_of_its_own() {
    let source = "
        var first;
        var second;
        fun counter(start) {
            var count = start;
            fun next() {
                count = count + 1;
                print count;
            }
            if (start == 0) first = next; else second = next;
        }
        counter(0);
        counter(10);
        first();
        second();
        first();
        second();
    ";
    assert_eq!(vec!["1", "11", "2", "12"], prints(source));
}

#[test]
fn a_block_in_a_loop_starts_afresh_every_time() {
    let source = "
        var i = 0;
        while (i < 3) {
            var seen;
            print seen;
            seen = i;
            i = i + 1;
        }
    ";
    assert_eq!(vec!["Nil", "Nil", "Nil"], prints(source));
}

#[test]
fn a_failure_in_a_function_leaves_the_call_and_stops_the_program() {
    let source = "
        fun f() { { print 1; print nothing; print 2; } }
        f();
        print 3;
    ";
    let mut outcome = run(source, numbers(source));
    let (output, error) = drive(&mut outcome.interpreter);
    assert_eq!(vec!["1"], output);
    assert_eq!(
        Some(InterpreterError::new_runtime_error(
            TokenType::IDENTIFIER,
            "Undefined variable 'nothing'".to_string()
        )),
        error
    );
    assert_eq!(0, outcome.interpreter.environment().current());
}

#[test]
fn division_by_zero_is_the_doubles_affair() {
    assert_eq!(vec!["inf", "-inf", "NaN", "false"], prints("print 1/0; print -1/0; print 0/0; print 0/0 == 0/0;"));
}

#[test]
fn parameters_shadow_what_the_function_closed_over() {
    let source = "
        var a = \"outer\";
        fun f(a) { print a; a = \"changed\"; print a; }
        f(\"inner\");
        print a;
    ";
    assert_eq!(vec!["inner", "changed", "outer"], prints(source));
}
