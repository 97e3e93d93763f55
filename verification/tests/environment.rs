use rustlox::environment::Environment;
use rustlox::interpreter::InterpreterError;
use rustlox::token::{Token, TokenType, Value};

#[test]
fn it_allows_us_to_define_variables() {
    let token = Token {
        ttype: TokenType::IDENTIFIER,
        lexeme: "foo".to_string(),
        literal: None,
        line: 0,
    };

    let mut environment = Environment::new(None);

    environment.define(&token, &Value::Double { value: 10.0f64.to_bits() });

    assert_eq!(
        Ok(Value::Double { value: 10.0f64.to_bits() }),
        environment.get(token)
    );
}

#[test]
fn it_allows_us_to_assign_variables() {
    let token = Token {
        ttype: TokenType::IDENTIFIER,
        lexeme: "foo".to_string(),
        literal: None,
        line: 0,
    };

    let mut environment = Environment::new(None);

    environment.define(&token, &Value::Double { value: 10.0f64.to_bits() });
    let _ = environment.assign(&token, &Value::Double { value: 20.0f64.to_bits() });

    assert_eq!(
        Ok(Value::Double { value: 20.0f64.to_bits() }),
        environment.get(token)
    );
}

#[test]
fn it_returns_an_error_if_attempting_to_get_an_undefined_variable() {
    let token = Token {
        ttype: TokenType::IDENTIFIER,
        lexeme: "foo".to_string(),
        literal: None,
        line: 0,
    };

    let environment = Environment::new(None);

    assert_eq!(
        Err(InterpreterError::new_runtime_error(
            TokenType::IDENTIFIER,
            "Undefined variable 'foo'".to_string()
        )),
        environment.get(token)
    );
}

#[test]
fn it_returns_an_error_if_attempting_to_assign_an_undefined_variable() {
    let token = Token {
        ttype: TokenType::IDENTIFIER,
        lexeme: "foo".to_string(),
        literal: None,
        line: 0,
    };

    let mut environment = Environment::new(None);

    assert_eq!(
        Err(InterpreterError::new_runtime_error(
            TokenType::IDENTIFIER,
            "Undefined variable 'foo'".to_string()
        )),
        environment.assign(&token, &Value::Double { value: 20.0f64.to_bits() })
    );
}

#[test]
fn it_delegates_get_to_the_enclosing_environment_if_not_found() {
    let foo_token = Token {
        ttype: TokenType::IDENTIFIER,
        lexeme: "foo".to_string(),
        literal: None,
        line: 0,
    };

    let bar_token = Token {
        ttype: TokenType::IDENTIFIER,
        lexeme: "bar".to_string(),
        literal: None,
        line: 0,
    };

    let mut parent_environment = Environment::new(None);
    parent_environment.define(&foo_token, &Value::Double { value: 10.0f64.to_bits() });

    let mut environment = Environment::new(Some(Box::new(parent_environment)));
    environment.define(&bar_token, &Value::Double { value: 20.0f64.to_bits() });

    assert_eq!(
        Ok(Value::Double { value: 20.0f64.to_bits() }),
        environment.get(bar_token)
    );

    assert_eq!(
        Ok(Value::Double { value: 10.0f64.to_bits() }),
        environment.get(foo_token)
    );
}

#[test]
fn it_returns_an_error_if_not_found_in_parent_scope() {
    let foo_token = Token {
        ttype: TokenType::IDENTIFIER,
        lexeme: "foo".to_string(),
        literal: None,
        line: 0,
    };

    let bar_token = Token {
        ttype: TokenType::IDENTIFIER,
        lexeme: "bar".to_string(),
        literal: None,
        line: 0,
    };

    let parent_environment = Environment::new(None);

    let mut environment = Environment::new(Some(Box::new(parent_environment)));
    environment.define(&bar_token, &Value::Double { value: 20.0f64.to_bits() });

    assert_eq!(
        Ok(Value::Double { value: 20.0f64.to_bits() }),
        environment.get(bar_token)
    );

    assert_eq!(
        Err(InterpreterError::new_runtime_error(
            TokenType::IDENTIFIER,
            "Undefined variable 'foo'".to_string()
        )),
        environment.get(foo_token)
    );
}

#[test]
fn it_delegates_assign_to_the_enclosing_environment_if_not_found() {
    let foo_token = Token {
        ttype: TokenType::IDENTIFIER,
        lexeme: "foo".to_string(),
        literal: None,
        line: 0,
    };

    let bar_token = Token {
        ttype: TokenType::IDENTIFIER,
        lexeme: "bar".to_string(),
        literal: None,
        line: 0,
    };

    let mut parent_environment = Environment::new(None);
    parent_environment.define(&foo_token, &Value::Double { value: 10.0f64.to_bits() });

    let mut environment = Environment::new(Some(Box::new(parent_environment)));
    environment.define(&bar_token, &Value::Double { value: 20.0f64.to_bits() });

    let _ = environment.assign(&foo_token, &Value::Double { value: 20.0f64.to_bits() });

    assert_eq!(
        Ok(Value::Double { value: 20.0f64.to_bits() }),
        environment.get(foo_token)
    );
}

#[test]
fn assignment_in_an_inner_scope_leaves_the_shadowing_binding_alone() {
    let name = Token {
        ttype: TokenType::IDENTIFIER,
        lexeme: "a".to_string(),
        literal: None,
        line: 1,
    };
    let mut environment = Environment::new(None);
    environment.define(&name, &Value::Double { value: 1.0f64.to_bits() });
    let outer = environment.current();
    let inner = environment.enter(outer);
    environment.define(&name, &Value::Double { value: 2.0f64.to_bits() });
    assert_eq!(
        Ok(Value::Double { value: 2.0f64.to_bits() }),
        environment.get(name.clone())
    );
    assert_eq!(Some(outer), environment.enclosing());
    assert_eq!(inner + 1, environment.len());
    environment.select(outer);
    assert_eq!(
        Ok(Value::Double { value: 1.0f64.to_bits() }),
        environment.get(name)
    );
}

#[test]
fn redefinition_in_one_scope_replaces_the_value() {
    let name = Token {
        ttype: TokenType::IDENTIFIER,
        lexeme: "a".to_string(),
        literal: None,
        line: 1,
    };
    let mut environment = Environment::new(None);
    environment.define(&name, &Value::Nil);
    environment.define(&name, &Value::Boolean { value: true });
    assert_eq!(Ok(Value::Boolean { value: true }), environment.get(name));
}
