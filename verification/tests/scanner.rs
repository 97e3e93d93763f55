use rustlox::scanner::{number_lexemes, ScanError, Scanner};
use rustlox::token::{Token, TokenType, Value};

fn kinds(tokens: &Vec<Token>) -> Vec<TokenType> {
    tokens.iter().map(|token| token.ttype).collect()
}

#[test]
fn the_scan_of_an_empty_source_is_one_end_of_file_token_on_line_one() {
    let tokens = Scanner::new("").scan_tokens();
    assert_eq!(
        vec![Token {
            ttype: TokenType::EOF,
            lexeme: "".to_string(),
            literal: None,
            line: 1,
        }],
        tokens
    );
}

#[test]
fn every_scan_ends_with_exactly_one_end_of_file_token_on_the_last_line() {
    let source = "var a = 1;\n// note\nprint \"x\ny\";\n\n";
    let tokens = Scanner::new(source).scan_tokens();
    let last = tokens.last().unwrap();
    assert_eq!(TokenType::EOF, last.ttype);
    assert_eq!(6, last.line);
    let count = tokens
        .iter()
        .filter(|token| token.ttype == TokenType::EOF)
        .count();
    assert_eq!(1, count);
}

#[test]
fn bang_equal_is_one_token() {
    let tokens = Scanner::new("!=").scan_tokens();
    assert_eq!(vec![TokenType::BANG_EQUAL, TokenType::EOF], kinds(&tokens));
    assert_eq!("!=", tokens[0].lexeme);
}

#[test]
fn the_longer_operator_wins() {
    let tokens = Scanner::new("! != = == < <= > >= !==").scan_tokens();
    assert_eq!(
        vec![
            TokenType::BANG,
            TokenType::BANG_EQUAL,
            TokenType::EQUAL,
            TokenType::EQUAL_EQUAL,
            TokenType::LESS,
            TokenType::LESS_EQUAL,
            TokenType::GREATER,
            TokenType::GREATER_EQUAL,
            TokenType::BANG_EQUAL,
            TokenType::EQUAL,
            TokenType::EOF,
        ],
        kinds(&tokens)
    );
}

#[test]
fn single_character_tokens() {
    let tokens = Scanner::new("(){},.-+;*/").scan_tokens();
    assert_eq!(
        vec![
            TokenType::LEFT_PAREN,
            TokenType::RIGHT_PAREN,
            TokenType::LEFT_BRACE,
            TokenType::RIGHT_BRACE,
            TokenType::COMMA,
            TokenType::DOT,
            TokenType::MINUS,
            TokenType::PLUS,
            TokenType::SEMICOLON,
            TokenType::STAR,
            TokenType::SLASH,
            TokenType::EOF,
        ],
        kinds(&tokens)
    );
}

#[test]
fn a_number_with_a_fraction_is_one_token_with_its_double_value() {
    let tokens =
        Scanner::with_numbers("123.456", vec![123.456f64.to_bits()]).scan_tokens();
    assert_eq!(
        vec![
            Token {
                ttype: TokenType::NUMBER,
                lexeme: "123.456".to_string(),
                literal: Some(Value::Double {
                    value: 123.456f64.to_bits()
                }),
                line: 1,
            },
            Token {
                ttype: TokenType::EOF,
                lexeme: "".to_string(),
                literal: None,
                line: 1,
            },
        ],
        tokens
    );
}

#[test]
fn a_dot_without_a_digit_after_it_is_a_token_of_its_own() {
    let tokens = Scanner::with_numbers("123.", vec![123.0f64.to_bits()]).scan_tokens();
    assert_eq!(
        vec![TokenType::NUMBER, TokenType::DOT, TokenType::EOF],
        kinds(&tokens)
    );
    assert_eq!("123", tokens[0].lexeme);
    assert_eq!(
        Some(Value::Double {
            value: 123.0f64.to_bits()
        }),
        tokens[0].literal
    );
    assert_eq!(".", tokens[1].lexeme);
}

#[test]
fn numbers_take_their_values_in_order_and_go_without_where_none_is_left() {
    let tokens = Scanner::with_numbers("1 2 3", vec![10, 20]).scan_tokens();
    assert_eq!(Some(Value::Double { value: 10 }), tokens[0].literal);
    assert_eq!(Some(Value::Double { value: 20 }), tokens[1].literal);
    assert_eq!(None, tokens[2].literal);
}

#[test]
fn the_numeric_lexemes_of_a_source_are_listed_in_order() {
    assert_eq!(
        vec!["1".to_string(), "2.5".to_string(), "30".to_string()],
        number_lexemes("var a = 1 + 2.5; // 7\nprint a * 30.;")
    );
}

#[test]
fn a_string_literal_holds_the_text_between_its_quotes() {
    let tokens = Scanner::new("\"foo bar\"").scan_tokens();
    assert_eq!(
        Token {
            ttype: TokenType::STRING,
            lexeme: "\"foo bar\"".to_string(),
            literal: Some(Value::String {
                value: "foo bar".to_string()
            }),
            line: 1,
        },
        tokens[0]
    );
}

#[test]
fn a_string_may_run_over_lines_and_counts_them() {
    let tokens = Scanner::new("\"a\nb\" x").scan_tokens();
    assert_eq!(
        vec![TokenType::STRING, TokenType::IDENTIFIER, TokenType::EOF],
        kinds(&tokens)
    );
    assert_eq!(2, tokens[0].line);
    assert_eq!(2, tokens[1].line);
    assert_eq!(
        Some(Value::String {
            value: "a\nb".to_string()
        }),
        tokens[0].literal
    );
}

#[test]
fn an_unterminated_string_is_reported_and_gives_no_token() {
    let mut scanner = Scanner::new("print \"abc\ndef");
    let tokens = scanner.scan_tokens();
    assert_eq!(vec![TokenType::PRINT, TokenType::EOF], kinds(&tokens));
    assert_eq!(
        vec![ScanError {
            line: 2,
            message: "Unterminated string.".to_string(),
        }],
        scanner.errors()
    );
}

#[test]
fn an_unexpected_character_is_reported_and_scanning_goes_on() {
    let mut scanner = Scanner::new("a @ b\n# c");
    let tokens = scanner.scan_tokens();
    assert_eq!(
        vec![
            TokenType::IDENTIFIER,
            TokenType::IDENTIFIER,
            TokenType::IDENTIFIER,
            TokenType::EOF
        ],
        kinds(&tokens)
    );
    assert_eq!(
        vec![
            ScanError {
                line: 1,
                message: "Unexpected character.".to_string(),
            },
            ScanError {
                line: 2,
                message: "Unexpected character.".to_string(),
            },
        ],
        scanner.errors()
    );
}

#[test]
fn a_comment_runs_to_the_end_of_its_line_and_gives_no_token() {
    let tokens = Scanner::new("a // b c\n/ // d").scan_tokens();
    assert_eq!(
        vec![TokenType::IDENTIFIER, TokenType::SLASH, TokenType::EOF],
        kinds(&tokens)
    );
    assert_eq!(2, tokens[1].line);
}

#[test]
fn keywords_are_told_from_identifiers() {
    let source = "and class else false fun for if nil or print return super this true var while";
    let tokens = Scanner::new(source).scan_tokens();
    assert_eq!(
        vec![
            TokenType::AND,
            TokenType::CLASS,
            TokenType::ELSE,
            TokenType::FALSE,
            TokenType::FUN,
            TokenType::FOR,
            TokenType::IF,
            TokenType::NIL,
            TokenType::OR,
            TokenType::PRINT,
            TokenType::RETURN,
            TokenType::SUPER,
            TokenType::THIS,
            TokenType::TRUE,
            TokenType::VAR,
            TokenType::WHILE,
            TokenType::EOF,
        ],
        kinds(&tokens)
    );
    let tokens = Scanner::new("andy _or or_ If x1").scan_tokens();
    assert_eq!(
        vec![
            TokenType::IDENTIFIER,
            TokenType::IDENTIFIER,
            TokenType::IDENTIFIER,
            TokenType::IDENTIFIER,
            TokenType::IDENTIFIER,
            TokenType::EOF,
        ],
        kinds(&tokens)
    );
}

#[test]
fn whitespace_gives_no_token_and_newlines_count_lines() {
    let tokens = Scanner::new(" \t\r\n\n x").scan_tokens();
    assert_eq!(vec![TokenType::IDENTIFIER, TokenType::EOF], kinds(&tokens));
    assert_eq!(3, tokens[0].line);
    assert_eq!(3, tokens[1].line);
}

#[test]
fn scanning_twice_gives_the_same_tokens() {
    let mut scanner = Scanner::new("a = 1;");
    let first = scanner.scan_tokens();
    let second = scanner.scan_tokens();
    assert_eq!(first, second);
}

#[test]
fn token_kinds_render_as_their_names() {
    assert_eq!("LEFT_PAREN", TokenType::LEFT_PAREN.to_string());
    assert_eq!("BANG_EQUAL", TokenType::BANG_EQUAL.to_string());
    assert_eq!("EOF", TokenType::EOF.to_string());
    assert_eq!("WHILE", TokenType::WHILE.to_string());
}
