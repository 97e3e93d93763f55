//! The recursive-descent parser: from tokens to statements, with one token
//! of lookahead. What it produces is what the grammar says.

use vstd::prelude::*;
use vstd::string::StringExecFns;
use crate::expression::{Expr, ExprView, Stmt, StmtView, expr_views, stmt_views};
use crate::grammar;
use crate::grammar::{ParseErrorView, Parsed};
use crate::token::{Token, TokenType, TokenView, Value, ValueView, token_views};

verus! {

/// A syntax error: what was expected, the line, and where on it.
#[derive(Debug, PartialEq)]
pub struct ParseError {
    pub message: String,
    pub line: i64,
    pub error_where: String,
}

impl ParseError {
    pub open spec fn view(&self) -> ParseErrorView {
        ParseErrorView {
            message: self.message@,
            line: self.line as int,
            error_where: self.error_where@,
        }
    }

    /// A copy with the same view.
    pub fn duplicate(&self) -> (copy: ParseError)
        ensures
            copy@ == self@,
    {
        ParseError {
            message: self.message.clone(),
            line: self.line,
            error_where: self.error_where.clone(),
        }
    }
}

/// The views of a sequence of errors, one for one.
pub open spec fn parse_error_views(errors: Seq<ParseError>) -> Seq<ParseErrorView> {
    Seq::new(errors.len(), |i: int| errors[i]@)
}

/// Whether what the parser returned is what the grammar says.
pub open spec fn same_expr(result: Result<Expr, ParseError>, outcome: Result<ExprView, ParseErrorView>) -> bool {
    match (result, outcome) {
        (Ok(expr), Ok(view)) => expr@ == view,
        (Err(error), Err(view)) => error@ == view,
        _ => false,
    }
}

pub open spec fn same_stmt(result: Result<Stmt, ParseError>, outcome: Result<StmtView, ParseErrorView>) -> bool {
    match (result, outcome) {
        (Ok(stmt), Ok(view)) => stmt@ == view,
        (Err(error), Err(view)) => error@ == view,
        _ => false,
    }
}

pub open spec fn same_token(result: Result<Token, ParseError>, outcome: Result<TokenView, ParseErrorView>) -> bool {
    match (result, outcome) {
        (Ok(token), Ok(view)) => token@ == view,
        (Err(error), Err(view)) => error@ == view,
        _ => false,
    }
}

#[derive(Debug)]
pub struct Parser<'a> {
    current: usize,
    tokens: &'a Vec<Token>,
    errors: Vec<ParseError>,
}

impl<'a> Parser<'a> {
    /// The tokens that the parser reads.
    pub closed spec fn input(&self) -> Seq<TokenView> {
        token_views(self.tokens@)
    }

    /// The position of the next token to read.
    pub closed spec fn position(&self) -> int {
        self.current as int
    }

    /// The errors reported so far.
    pub closed spec fn reported(&self) -> Seq<ParseErrorView> {
        parse_error_views(self.errors@)
    }

    pub closed spec fn well_formed(&self) -> bool {
        self.current <= self.tokens.len()
    }

    /// The parser has moved from where `before` stood to `next`, and has
    /// reported nothing.
    pub open spec fn moved(&self, before: &Parser, next: int, progress: bool) -> bool {
        &&& self.well_formed()
        &&& self.input() == before.input()
        &&& self.reported() == before.reported()
        &&& self.position() == next
        &&& before.position() <= next
        &&& progress ==> before.position() < next
    }

    /// The parser has returned the expression, or the error, that the
    /// grammar says, and stands where the grammar says.
    pub open spec fn done(
        &self,
        before: &Parser,
        result: Result<Expr, ParseError>,
        parsed: Parsed<ExprView>,
    ) -> bool {
        same_expr(result, parsed.outcome) && self.moved(before, parsed.next, parsed.outcome is Ok)
    }

    pub fn new(tokens: &'a Vec<Token>) -> (parser: Parser<'a>)
        ensures
            parser.well_formed(),
            parser.input() == token_views(tokens@),
            parser.position() == 0,
            parser.reported() == Seq::<ParseErrorView>::empty(),
    {
        let parser = Parser { current: 0, tokens, errors: Vec::new() };
        assert(parser.reported() =~= Seq::<ParseErrorView>::empty());
        parser
    }

    /// The errors reported so far, in the order in which they were met.
    pub fn errors(&self) -> (errors: Vec<ParseError>)
        ensures
            parse_error_views(errors@) == self.reported(),
    {
        let mut errors: Vec<ParseError> = Vec::new();
        let mut i: usize = 0;
        while i < self.errors.len()
            invariant
                i <= self.errors.len(),
                errors.len() == i,
                forall|j: int| 0 <= j < i ==> errors[j]@ == self.errors[j]@,
            decreases self.errors.len() - i,
        {
            errors.push(self.errors[i].duplicate());
            i += 1;
        }
        assert(parse_error_views(errors@) =~= parse_error_views(self.errors@));
        errors
    }

    /// expression → assignment
    fn expression(&mut self) -> (result: Result<Expr, ParseError>)
        requires
            old(self).well_formed(),
        ensures
            final(self).done(
                old(self),
                result,
                grammar::expression(old(self).input(), old(self).position()),
            ),
        decreases old(self).tokens.len() - old(self).current, 33int,
    {
        self.assignment()
    }

    /// assignment → or ( "=" assignment )?
    fn assignment(&mut self) -> (result: Result<Expr, ParseError>)
        requires
            old(self).well_formed(),
        ensures
            final(self).done(
                old(self),
                result,
                grammar::assignment(old(self).input(), old(self).position()),
            ),
        decreases old(self).tokens.len() - old(self).current, 32int,
    {
        let expr = match self.or() {
            Ok(expr) => expr,
            Err(error) => {
                return Err(error);
            },
        };
        if self.check(TokenType::EQUAL) {
            let _equals = self.advance();
            let value = match self.assignment() {
                Ok(value) => value,
                Err(error) => {
                    return Err(error);
                },
            };
            match expr {
                Expr::Variable { name } => {
                    return Ok(Expr::Assign { name, value: Box::new(value) });
                },
                _ => {
                    return Err(self.current_error("Invalid assignment target"));
                },
            }
        }
        Ok(expr)
    }

    fn or(&mut self) -> (result: Result<Expr, ParseError>)
        requires
            old(self).well_formed(),
        ensures
            final(self).done(
                old(self),
                result,
                grammar::binary(old(self).input(), 0, old(self).position()),
            ),
        decreases old(self).tokens.len() - old(self).current, 31int,
    {
        self.binary(grammar::OR)
    }

    fn and(&mut self) -> (result: Result<Expr, ParseError>)
        requires
            old(self).well_formed(),
        ensures
            final(self).done(
                old(self),
                result,
                grammar::binary(old(self).input(), 1, old(self).position()),
            ),
        decreases old(self).tokens.len() - old(self).current, 28int,
    {
        self.binary(grammar::AND)
    }

    fn equality(&mut self) -> (result: Result<Expr, ParseError>)
        requires
            old(self).well_formed(),
        ensures
            final(self).done(
                old(self),
                result,
                grammar::binary(old(self).input(), 2, old(self).position()),
            ),
        decreases old(self).tokens.len() - old(self).current, 25int,
    {
        self.binary(grammar::EQUALITY)
    }

    fn comparison(&mut self) -> (result: Result<Expr, ParseError>)
        requires
            old(self).well_formed(),
        ensures
            final(self).done(
                old(self),
                result,
                grammar::binary(old(self).input(), 3, old(self).position()),
            ),
        decreases old(self).tokens.len() - old(self).current, 22int,
    {
        self.binary(grammar::COMPARISON)
    }

    fn term(&mut self) -> (result: Result<Expr, ParseError>)
        requires
            old(self).well_formed(),
        ensures
            final(self).done(
                old(self),
                result,
                grammar::binary(old(self).input(), 4, old(self).position()),
            ),
        decreases old(self).tokens.len() - old(self).current, 19int,
    {
        self.binary(grammar::TERM)
    }

    fn factor(&mut self) -> (result: Result<Expr, ParseError>)
        requires
            old(self).well_formed(),
        ensures
            final(self).done(
                old(self),
                result,
                grammar::binary(old(self).input(), 5, old(self).position()),
            ),
        decreases old(self).tokens.len() - old(self).current, 16int,
    {
        self.binary(grammar::FACTOR)
    }

    /// An operand of a binary level: a phrase of the level that binds next
    /// tighter.
    fn operand(&mut self, level: u8) -> (result: Result<Expr, ParseError>)
        requires
            old(self).well_formed(),
            level <= 5,
        ensures
            final(self).done(
                old(self),
                result,
                if level == 5 {
                    grammar::unary(old(self).input(), old(self).position())
                } else {
                    grammar::binary(old(self).input(), level + 1, old(self).position())
                },
            ),
        decreases old(self).tokens.len() - old(self).current, 29 - 3 * level,
    {
        if level == 5 {
            self.unary()
        } else if level == 4 {
            self.factor()
        } else if level == 3 {
            self.term()
        } else if level == 2 {
            self.comparison()
        } else if level == 1 {
            self.equality()
        } else {
            self.and()
        }
    }

    /// One binary level, left-associative: an operand, then as long as an
    /// operator of the level follows, the operator and another operand.
    fn binary(&mut self, level: u8) -> (result: Result<Expr, ParseError>)
        requires
            old(self).well_formed(),
            level <= 5,
        ensures
            final(self).done(
                old(self),
                result,
                grammar::binary(old(self).input(), level as int, old(self).position()),
            ),
        decreases old(self).tokens.len() - old(self).current, 30 - 3 * level,
    {
        let ghost target = grammar::binary(old(self).input(), level as int, old(self).position());
        let mut expr = match self.operand(level) {
            Ok(expr) => expr,
            Err(error) => {
                return Err(error);
            },
        };
        while self.operator_follows(level)
            invariant
                self.well_formed(),
                level <= 5,
                self.input() == old(self).input(),
                self.reported() == old(self).reported(),
                self.tokens.len() == old(self).tokens.len(),
                old(self).current < self.current,
                target == grammar::binary(old(self).input(), level as int, old(self).position()),
                grammar::binary_rest(self.input(), level as int, expr@, self.position()) == target,
            decreases self.tokens.len() - self.current,
        {
            let operator = self.advance();
            let right = match self.operand(level) {
                Ok(right) => right,
                Err(error) => {
                    return Err(error);
                },
            };
            expr = if level <= 1 {
                Expr::Logical { left: Box::new(expr), operator, right: Box::new(right) }
            } else {
                Expr::Binary { left: Box::new(expr), operator, right: Box::new(right) }
            };
        }
        Ok(expr)
    }

    /// unary → ( "!" | "-" ) unary | call
    fn unary(&mut self) -> (result: Result<Expr, ParseError>)
        requires
            old(self).well_formed(),
        ensures
            final(self).done(
                old(self),
                result,
                grammar::unary(old(self).input(), old(self).position()),
            ),
        decreases old(self).tokens.len() - old(self).current, 13int,
    {
        let kinds = vec![TokenType::BANG, TokenType::MINUS];
        proof {
            assert(kinds@ =~= seq![TokenType::BANG, TokenType::MINUS]);
            grammar::check_any_of_two(
                self.input(),
                self.position(),
                TokenType::BANG,
                TokenType::MINUS,
            );
        }
        if self.is_match(kinds) {
            let operator = self.previous();
            return match self.unary() {
                Ok(right) => Ok(Expr::Unary { operator, right: Box::new(right) }),
                Err(error) => Err(error),
            };
        }
        self.call()
    }

    /// call → primary ( "(" arguments? ")" )*
    fn call(&mut self) -> (result: Result<Expr, ParseError>)
        requires
            old(self).well_formed(),
        ensures
            final(self).done(
                old(self),
                result,
                grammar::call(old(self).input(), old(self).position()),
            ),
        decreases old(self).tokens.len() - old(self).current, 12int,
    {
        let ghost target = grammar::call(old(self).input(), old(self).position());
        let mut expr = match self.primary() {
            Ok(expr) => expr,
            Err(error) => {
                return Err(error);
            },
        };
        while self.check(TokenType::LEFT_PAREN)
            invariant
                self.well_formed(),
                self.input() == old(self).input(),
                self.reported() == old(self).reported(),
                self.tokens.len() == old(self).tokens.len(),
                old(self).current < self.current,
                target == grammar::call(old(self).input(), old(self).position()),
                grammar::call_rest(self.input(), expr@, self.position()) == target,
            decreases self.tokens.len() - self.current,
        {
            let _paren = self.advance();
            expr = match self.finish_call(expr) {
                Ok(expr) => expr,
                Err(error) => {
                    return Err(error);
                },
            };
        }
        Ok(expr)
    }

    /// The arguments of a call and its closing parenthesis.
    fn finish_call(&mut self, callee: Expr) -> (result: Result<Expr, ParseError>)
        requires
            old(self).well_formed(),
        ensures
            final(self).done(
                old(self),
                result,
                grammar::finish_call(old(self).input(), callee@, old(self).position()),
            ),
        decreases old(self).tokens.len() - old(self).current, 35int,
    {
        let mut arguments: Vec<Expr> = Vec::new();
        proof {
            assert(expr_views(arguments) =~= Seq::<ExprView>::empty());
        }
        if !self.check(TokenType::RIGHT_PAREN) {
            let ghost list = grammar::arguments_rest(
                old(self).input(),
                Seq::empty(),
                old(self).position(),
            );
            loop
                invariant_except_break
                    grammar::arguments_rest(self.input(), expr_views(arguments), self.position())
                        == list,
                invariant
                    self.well_formed(),
                    self.input() == old(self).input(),
                    self.reported() == old(self).reported(),
                    self.tokens.len() == old(self).tokens.len(),
                    old(self).current <= self.current,
                    !grammar::check(old(self).input(), old(self).position(), TokenType::RIGHT_PAREN),
                    list == grammar::arguments_rest(
                        old(self).input(),
                        Seq::empty(),
                        old(self).position(),
                    ),
                ensures
                    self.well_formed(),
                    self.input() == old(self).input(),
                    self.reported() == old(self).reported(),
                    old(self).current <= self.current,
                    list.outcome == Ok::<Seq<ExprView>, ParseErrorView>(expr_views(arguments)),
                    list.next == self.position(),
                decreases self.tokens.len() - self.current,
            {
                if arguments.len() >= grammar::MAX_ARITY {
                    return Err(self.current_error("Can't have more than 255 arguments"));
                }
                let ghost before = expr_views(arguments);
                let expression = match self.expression() {
                    Ok(expression) => expression,
                    Err(error) => {
                        return Err(error);
                    },
                };
                arguments.push(expression);
                proof {
                    assert(expr_views(arguments) =~= before.push(expression@));
                }
                if !self.check(TokenType::COMMA) {
                    break ;
                }
                let _comma = self.advance();
            }
        }
        match self.consume(TokenType::RIGHT_PAREN, "Expect ')' after arguments.") {
            Ok(paren) => Ok(Expr::Call { callee: Box::new(callee), paren, arguments }),
            Err(error) => Err(error),
        }
    }

    /// primary → "false" | "true" | "nil" | NUMBER | STRING | IDENTIFIER
    ///         | "(" expression ")"
    fn primary(&mut self) -> (result: Result<Expr, ParseError>)
        requires
            old(self).well_formed(),
        ensures
            final(self).done(
                old(self),
                result,
                grammar::primary(old(self).input(), old(self).position()),
            ),
        decreases old(self).tokens.len() - old(self).current, 11int,
    {
        if self.check(TokenType::FALSE) {
            let _ = self.advance();
            let value = Value::Boolean { value: false };
            assert(value@ == (ValueView::Boolean { value: false }));
            return Ok(Expr::Literal { value });
        }
        if self.check(TokenType::TRUE) {
            let _ = self.advance();
            let value = Value::Boolean { value: true };
            assert(value@ == (ValueView::Boolean { value: true }));
            return Ok(Expr::Literal { value });
        }
        if self.check(TokenType::NIL) {
            let _ = self.advance();
            let value = Value::Nil;
            assert(value@ == (ValueView::Nil));
            return Ok(Expr::Literal { value });
        }
        if self.check(TokenType::NUMBER) || self.check(TokenType::STRING) {
            let token = self.advance();
            return match token.literal {
                Some(value) => Ok(Expr::Literal { value }),
                None => Err(self.current_error("Literal has no value.")),
            };
        }
        if self.check(TokenType::IDENTIFIER) {
            let name = self.advance();
            return Ok(Expr::Variable { name });
        }
        if self.check(TokenType::LEFT_PAREN) {
            let _ = self.advance();
            return self.grouping();
        }
        Err(self.current_error("Expect expression."))
    }

    /// The expression inside parentheses and the closing parenthesis.
    fn grouping(&mut self) -> (result: Result<Expr, ParseError>)
        requires
            old(self).well_formed(),
            old(self).position() >= 1,
            grammar::check(old(self).input(), old(self).position() - 1, TokenType::LEFT_PAREN),
        ensures
            final(self).done(
                old(self),
                result,
                grammar::primary(old(self).input(), old(self).position() - 1),
            ),
        decreases old(self).tokens.len() - old(self).current, 34int,
    {
        let expr = match self.expression() {
            Ok(expr) => expr,
            Err(error) => {
                return Err(error);
            },
        };
        match self.consume(TokenType::RIGHT_PAREN, "Expect ')' after expression.") {
            Ok(_) => Ok(Expr::Grouping { expression: Box::new(expr) }),
            Err(error) => Err(error),
        }
    }

    /// Whether an operator of a binary level is the next token.
    fn operator_follows(&self, level: u8) -> (yes: bool)
        requires
            self.well_formed(),
        ensures
            yes == (!grammar::at_end(self.input(), self.position()) && grammar::operator_of(
                level as int,
                grammar::kind_at(self.input(), self.position()),
            )),
            yes ==> self.position() < self.input().len(),
    {
        let kind = self.peek_type();
        if level == 0 {
            matches!(kind, TokenType::OR)
        } else if level == 1 {
            matches!(kind, TokenType::AND)
        } else if level == 2 {
            matches!(kind, TokenType::BANG_EQUAL | TokenType::EQUAL_EQUAL)
        } else if level == 3 {
            matches!(
                kind,
                TokenType::GREATER | TokenType::GREATER_EQUAL | TokenType::LESS
                    | TokenType::LESS_EQUAL
            )
        } else if level == 4 {
            matches!(kind, TokenType::MINUS | TokenType::PLUS)
        } else if level == 5 {
            matches!(kind, TokenType::SLASH | TokenType::STAR)
        } else {
            false
        }
    }

    /// Reads the next token if it is of one of the kinds.
    fn is_match(&mut self, ttypes: Vec<TokenType>) -> (matched: bool)
        requires
            old(self).well_formed(),
        ensures
            final(self).well_formed(),
            final(self).input() == old(self).input(),
            final(self).reported() == old(self).reported(),
            final(self).tokens.len() == old(self).tokens.len(),
            matched == grammar::check_any(old(self).input(), old(self).position(), ttypes@),
            final(self).position() == if matched {
                old(self).position() + 1
            } else {
                old(self).position()
            },
            matched ==> old(self).position() < old(self).input().len(),
    {
        let mut i: usize = 0;
        proof {
            assert(ttypes@.skip(0) =~= ttypes@);
        }
        while i < ttypes.len()
            invariant
                i <= ttypes.len(),
                *self == *old(self),
                self.well_formed(),
                grammar::check_any(self.input(), self.position(), ttypes@) == grammar::check_any(
                    self.input(),
                    self.position(),
                    ttypes@.skip(i as int),
                ),
            decreases ttypes.len() - i,
        {
            proof {
                assert(ttypes@.skip(i as int)[0] == ttypes[i as int]);
                assert(ttypes@.skip(i as int).drop_first() =~= ttypes@.skip(i + 1));
            }
            if self.check(ttypes[i]) {
                let _ = self.advance();
                return true;
            }
            i += 1;
        }
        false
    }

    /// Whether the next token is of a kind. The end of the input is of none.
    fn check(&self, ttype: TokenType) -> (yes: bool)
        requires
            self.well_formed(),
        ensures
            yes == grammar::check(self.input(), self.position(), ttype),
            yes ==> self.position() < self.input().len(),
    {
        if self.is_at_end() {
            return false;
        }
        self.peek_type() == ttype
    }

    fn is_at_end(&self) -> (yes: bool)
        requires
            self.well_formed(),
        ensures
            yes == grammar::at_end(self.input(), self.position()),
    {
        self.peek_type() == TokenType::EOF
    }

    /// The kind of the next token; the end of the input where the tokens
    /// have run out.
    fn peek_type(&self) -> (kind: TokenType)
        requires
            self.well_formed(),
        ensures
            kind == grammar::kind_at(self.input(), self.position()),
    {
        if self.current < self.tokens.len() {
            self.tokens[self.current].ttype
        } else {
            TokenType::EOF
        }
    }

    /// The next token.
    fn peek(&self) -> (token: Token)
        requires
            self.well_formed(),
        ensures
            token@ == grammar::token_at(self.input(), self.position()),
    {
        if self.current < self.tokens.len() {
            self.tokens[self.current].duplicate()
        } else {
            Token { ttype: TokenType::EOF, lexeme: String::new(), literal: None, line: 0 }
        }
    }

    /// The token that was read last.
    fn previous(&self) -> (token: Token)
        requires
            self.well_formed(),
            self.current >= 1,
        ensures
            token@ == self.input()[self.position() - 1],
    {
        self.tokens[self.current - 1].duplicate()
    }

    /// Reads a token of a kind, or fails with a message at the token that
    /// is there instead.
    fn consume(&mut self, ttype: TokenType, message: &str) -> (result: Result<Token, ParseError>)
        requires
            old(self).well_formed(),
        ensures
            same_token(
                result,
                grammar::consume(old(self).input(), old(self).position(), ttype, message@).outcome,
            ),
            final(self).moved(
                old(self),
                grammar::consume(old(self).input(), old(self).position(), ttype, message@).next,
                result is Ok,
            ),
            final(self).tokens.len() == old(self).tokens.len(),
    {
        if self.check(ttype) {
            Ok(self.advance())
        } else {
            Err(self.current_error(message))
        }
    }

    /// The error at the next token.
    fn current_error(&self, message: &str) -> (error: ParseError)
        requires
            self.well_formed(),
        ensures
            error@ == grammar::error_at(self.input(), self.position(), message@),
    {
        self.error(self.peek(), String::from_str(message))
    }

    /// Reads the next token, which is not the end of the input.
    fn advance(&mut self) -> (token: Token)
        requires
            old(self).well_formed(),
            !grammar::at_end(old(self).input(), old(self).position()),
        ensures
            final(self).well_formed(),
            final(self).input() == old(self).input(),
            final(self).reported() == old(self).reported(),
            final(self).tokens.len() == old(self).tokens.len(),
            final(self).position() == old(self).position() + 1,
            old(self).position() < old(self).input().len(),
            token@ == old(self).input()[old(self).position()],
    {
        if !self.is_at_end() {
            self.current += 1;
        }
        self.previous()
    }

    /// The error at a token: on its line, at the end or at its lexeme.
    fn error(&self, token: Token, message: String) -> (error: ParseError)
        ensures
            error@ == grammar::error(token@, message@),
    {
        if token.ttype == TokenType::EOF {
            ParseError { message, line: token.line, error_where: String::from_str(" at end ") }
        } else {
            let mut error_where = String::from_str(" at '");
            error_where.append(token.lexeme.as_str());
            error_where.append("'");
            ParseError { message, line: token.line, error_where }
        }
    }
}

/// A function's name and parameters.
pub struct Signature {
    pub name: Token,
    pub params: Vec<Token>,
}

impl Signature {
    pub open spec fn view(&self) -> grammar::Signature {
        grammar::Signature { name: self.name@, params: token_views(self.params@) }
    }
}

/// The three clauses of a `for` statement, each of which may be missing.
pub struct Clauses {
    pub initializer: Option<Stmt>,
    pub condition: Option<Expr>,
    pub increment: Option<Expr>,
}

pub open spec fn optional_stmt(statement: Option<Stmt>) -> Option<StmtView> {
    match statement {
        Some(s) => Some(s@),
        None => None,
    }
}

pub open spec fn optional_expr(expression: Option<Expr>) -> Option<ExprView> {
    match expression {
        Some(e) => Some(e@),
        None => None,
    }
}

impl Clauses {
    pub open spec fn view(&self) -> grammar::Clauses {
        grammar::Clauses {
            initializer: optional_stmt(self.initializer),
            condition: optional_expr(self.condition),
            increment: optional_expr(self.increment),
        }
    }
}

pub open spec fn same_signature(
    result: Result<Signature, ParseError>,
    outcome: Result<grammar::Signature, ParseErrorView>,
) -> bool {
    match (result, outcome) {
        (Ok(signature), Ok(view)) => signature@ == view,
        (Err(error), Err(view)) => error@ == view,
        _ => false,
    }
}

pub open spec fn same_clauses(
    result: Result<Clauses, ParseError>,
    outcome: Result<grammar::Clauses, ParseErrorView>,
) -> bool {
    match (result, outcome) {
        (Ok(clauses), Ok(view)) => clauses@ == view,
        (Err(error), Err(view)) => error@ == view,
        _ => false,
    }
}

pub open spec fn same_optional_stmt(
    result: Result<Option<Stmt>, ParseError>,
    outcome: Result<Option<StmtView>, ParseErrorView>,
) -> bool {
    match (result, outcome) {
        (Ok(statement), Ok(view)) => optional_stmt(statement) == view,
        (Err(error), Err(view)) => error@ == view,
        _ => false,
    }
}

pub open spec fn same_optional_expr(
    result: Result<Option<Expr>, ParseError>,
    outcome: Result<Option<ExprView>, ParseErrorView>,
) -> bool {
    match (result, outcome) {
        (Ok(expression), Ok(view)) => optional_expr(expression) == view,
        (Err(error), Err(view)) => error@ == view,
        _ => false,
    }
}

pub open spec fn same_stmts(
    result: Result<Vec<Stmt>, ParseError>,
    outcome: Result<Seq<StmtView>, ParseErrorView>,
) -> bool {
    match (result, outcome) {
        (Ok(statements), Ok(view)) => stmt_views(statements) == view,
        (Err(error), Err(view)) => error@ == view,
        _ => false,
    }
}

impl<'a> Parser<'a> {
    /// The parser has moved from where `before` stood to `next`, and has
    /// reported `reports` on the way.
    pub open spec fn arrived(
        &self,
        before: &Parser,
        next: int,
        reports: Seq<ParseErrorView>,
        progress: bool,
    ) -> bool {
        &&& self.well_formed()
        &&& self.input() == before.input()
        &&& self.reported() == before.reported() + reports
        &&& self.position() == next
        &&& before.position() <= next
        &&& progress ==> before.position() < next
    }

    /// The parser has returned the statement, or the error, that the
    /// grammar says, stands where the grammar says and has reported what
    /// the grammar says.
    pub open spec fn stated(
        &self,
        before: &Parser,
        result: Result<Stmt, ParseError>,
        parsed: Parsed<StmtView>,
    ) -> bool {
        same_stmt(result, parsed.outcome) && self.arrived(
            before,
            parsed.next,
            parsed.reports,
            parsed.outcome is Ok,
        )
    }

    /// Parses a program: its declarations up to the end of the input. A
    /// declaration that holds an error is reported and left out.
    pub fn parse(&mut self) -> (statements: Vec<Stmt>)
        requires
            old(self).well_formed(),
        ensures
            final(self).well_formed(),
            final(self).input() == old(self).input(),
            ({
                let parsed = grammar::program(old(self).input(), Seq::empty(), old(self).position());
                &&& parsed.outcome == Ok::<Seq<StmtView>, ParseErrorView>(stmt_views(statements))
                &&& final(self).position() == parsed.next
                &&& final(self).reported() == old(self).reported() + parsed.reports
            }),
    {
        let mut statements: Vec<Stmt> = Vec::new();
        let ghost total = grammar::program(old(self).input(), Seq::empty(), old(self).position());
        proof {
            assert(stmt_views(statements) =~= Seq::<StmtView>::empty());
            assert(old(self).reported() + total.reports =~= self.reported() + total.reports);
        }
        while !self.is_at_end()
            invariant
                self.well_formed(),
                self.input() == old(self).input(),
                self.tokens.len() == old(self).tokens.len(),
                ({
                    let rest = grammar::program(
                        self.input(),
                        stmt_views(statements),
                        self.position(),
                    );
                    &&& rest.outcome == total.outcome
                    &&& rest.next == total.next
                    &&& self.reported() + rest.reports == old(self).reported() + total.reports
                }),
            decreases self.tokens.len() - self.current,
        {
            let ghost before = stmt_views(statements);
            let ghost reported = self.reported();
            let ghost here = self.position();
            let declaration = self.declaration();
            proof {
                let declared = grammar::declaration(self.input(), here);
                let rest = grammar::program(self.input(), before, here);
                let after = grammar::program(
                    self.input(),
                    grammar::extended(before, declared),
                    declared.next,
                );
                assert(reported + (declared.reports + after.reports) =~= (reported
                    + declared.reports) + after.reports);
            }
            match declaration {
                Some(statement) => {
                    statements.push(statement);
                    proof {
                        assert(stmt_views(statements) =~= before.push(statement@));
                    }
                },
                None => {},
            }
        }
        proof {
            let rest = grammar::program(self.input(), stmt_views(statements), self.position());
            assert(self.reported() + rest.reports =~= self.reported());
        }
        statements
    }

    /// declaration → funDecl | varDecl | statement
    fn declaration(&mut self) -> (declaration: Option<Stmt>)
        requires
            old(self).well_formed(),
            !grammar::at_end(old(self).input(), old(self).position()),
        ensures
            optional_stmt(declaration) == grammar::declaration(
                old(self).input(),
                old(self).position(),
            ).statement,
            final(self).arrived(
                old(self),
                grammar::declaration(old(self).input(), old(self).position()).next,
                grammar::declaration(old(self).input(), old(self).position()).reports,
                true,
            ),
        decreases old(self).tokens.len() - old(self).current, 3int,
    {
        let ghost reported = self.reported();
        let parsed = if self.check(TokenType::FUN) {
            let _ = self.advance();
            self.function(String::from_str("function"))
        } else if self.check(TokenType::VAR) {
            let _ = self.advance();
            self.var_declaration()
        } else {
            self.statement()
        };
        match parsed {
            Ok(statement) => Some(statement),
            Err(error) => {
                let ghost so_far = self.reported();
                self.errors.push(error);
                proof {
                    assert(self.reported() =~= so_far.push(error@));
                    let raw = if grammar::check(
                        old(self).input(),
                        old(self).position(),
                        TokenType::FUN,
                    ) {
                        grammar::function(old(self).input(), old(self).position() + 1)
                    } else if grammar::check(
                        old(self).input(),
                        old(self).position(),
                        TokenType::VAR,
                    ) {
                        grammar::var_declaration(old(self).input(), old(self).position() + 1)
                    } else {
                        grammar::statement(old(self).input(), old(self).position())
                    };
                    assert((reported + raw.reports).push(error@) =~= reported + raw.reports.push(
                        error@,
                    ));
                }
                self.synchronize();
                None
            },
        }
    }

    /// Skips to the next place where a statement may start.
    fn synchronize(&mut self)
        requires
            old(self).well_formed(),
        ensures
            final(self).arrived(
                old(self),
                grammar::synchronize(old(self).input(), old(self).position()),
                Seq::empty(),
                !grammar::at_end(old(self).input(), old(self).position()),
            ),
    {
        proof {
            assert(self.reported() + Seq::<ParseErrorView>::empty() =~= self.reported());
        }
        if self.is_at_end() {
            return ;
        }
        let _ = self.advance();
        while !self.is_at_end()
            invariant
                self.well_formed(),
                self.input() == old(self).input(),
                self.reported() == old(self).reported(),
                old(self).current < self.current,
                grammar::skip(self.input(), self.position()) == grammar::synchronize(
                    old(self).input(),
                    old(self).position(),
                ),
            decreases self.tokens.len() - self.current,
        {
            if self.tokens[self.current - 1].ttype == TokenType::SEMICOLON {
                return ;
            }
            match self.peek_type() {
                TokenType::CLASS => {
                    return ;
                },
                TokenType::FUN => {
                    return ;
                },
                TokenType::VAR => {
                    return ;
                },
                TokenType::FOR => {
                    return ;
                },
                TokenType::IF => {
                    return ;
                },
                TokenType::WHILE => {
                    return ;
                },
                TokenType::PRINT => {
                    return ;
                },
                TokenType::RETURN => {
                    return ;
                },
                _ => {
                    let _ = self.advance();
                },
            }
        }
    }

    /// The parameters of a function, after those in `parameters`.
    fn parameters(&mut self, first: Vec<Token>) -> (result: Result<Vec<Token>, ParseError>)
        requires
            old(self).well_formed(),
        ensures
            ({
                let parsed = grammar::parameters_rest(
                    old(self).input(),
                    token_views(first@),
                    old(self).position(),
                );
                &&& match (result, parsed.outcome) {
                    (Ok(all), Ok(view)) => token_views(all@) == view,
                    (Err(error), Err(view)) => error@ == view,
                    _ => false,
                }
                &&& final(self).arrived(old(self), parsed.next, parsed.reports, result is Ok)
            }),
    {
        let ghost given = token_views(first@);
        let mut parameters = first;
        let ghost total = grammar::parameters_rest(old(self).input(), given, old(self).position());
        proof {
            assert(old(self).reported() + total.reports =~= self.reported() + total.reports);
        }
        loop
            invariant
                self.well_formed(),
                self.input() == old(self).input(),
                self.tokens.len() == old(self).tokens.len(),
                old(self).current <= self.current,
                given == token_views(first@),
                total == grammar::parameters_rest(old(self).input(), given, old(self).position()),
                ({
                    let rest = grammar::parameters_rest(
                        self.input(),
                        token_views(parameters@),
                        self.position(),
                    );
                    &&& rest.outcome == total.outcome
                    &&& rest.next == total.next
                    &&& self.reported() + rest.reports == old(self).reported() + total.reports
                }),
            decreases self.tokens.len() - self.current,
        {
            let ghost before = token_views(parameters@);
            let ghost reported = self.reported();
            let ghost here = self.position();
            if parameters.len() >= grammar::MAX_ARITY {
                let error = self.current_error("Can't have more than 255 parameters.");
                self.errors.push(error);
                proof {
                    assert(self.reported() =~= reported.push(error@));
                }
            }
            proof {
                let rest = grammar::parameters_rest(self.input(), before, here);
                let first = if before.len() >= grammar::MAX_ARITY {
                    seq![
                        grammar::error_at(
                            self.input(),
                            here,
                            "Can't have more than 255 parameters."@,
                        ),
                    ]
                } else {
                    Seq::empty()
                };
                assert(self.reported() =~= reported + first);
                if grammar::check(self.input(), here, TokenType::IDENTIFIER) && grammar::check(
                    self.input(),
                    here + 1,
                    TokenType::COMMA,
                ) {
                    let later = grammar::parameters_rest(
                        self.input(),
                        before.push(self.input()[here]),
                        here + 2,
                    );
                    assert(reported + (first + later.reports) =~= (reported + first)
                        + later.reports);
                } else {
                    assert(rest.reports == first);
                }
            }
            match self.consume(TokenType::IDENTIFIER, "Expect parameter name.") {
                Ok(parameter) => {
                    parameters.push(parameter);
                    proof {
                        assert(token_views(parameters@) =~= before.push(parameter@));
                    }
                },
                Err(error) => {
                    return Err(error);
                },
            }
            if !self.check(TokenType::COMMA) {
                return Ok(parameters);
            }
            let _ = self.advance();
        }
    }

    /// A function's name and parameters, up to the brace that opens its
    /// body.
    fn signature(&mut self) -> (result: Result<Signature, ParseError>)
        requires
            old(self).well_formed(),
        ensures
            same_signature(
                result,
                grammar::signature(old(self).input(), old(self).position()).outcome,
            ),
            final(self).arrived(
                old(self),
                grammar::signature(old(self).input(), old(self).position()).next,
                grammar::signature(old(self).input(), old(self).position()).reports,
                result is Ok,
            ),
    {
        proof {
            assert(self.reported() + Seq::<ParseErrorView>::empty() =~= self.reported());
        }
        let name = match self.consume(TokenType::IDENTIFIER, "Expect function name.") {
            Ok(name) => name,
            Err(error) => {
                return Err(error);
            },
        };
        match self.consume(TokenType::LEFT_PAREN, "Expect '(' after function name.") {
            Ok(_) => {},
            Err(error) => {
                return Err(error);
            },
        }
        let params = if self.check(TokenType::RIGHT_PAREN) {
            let none: Vec<Token> = Vec::new();
            proof {
                assert(token_views(none@) =~= Seq::<TokenView>::empty());
            }
            none
        } else {
            let none: Vec<Token> = Vec::new();
            proof {
                assert(token_views(none@) =~= Seq::<TokenView>::empty());
            }
            match self.parameters(none) {
                Ok(params) => params,
                Err(error) => {
                    return Err(error);
                },
            }
        };
        match self.consume(TokenType::RIGHT_PAREN, "Expect ')' after parameters.") {
            Ok(_) => {},
            Err(error) => {
                return Err(error);
            },
        }
        match self.consume(TokenType::LEFT_BRACE, "Expect '{' before function body.") {
            Ok(_) => {},
            Err(error) => {
                return Err(error);
            },
        }
        Ok(Signature { name, params })
    }

    /// funDecl → "fun" IDENTIFIER "(" parameters? ")" block
    fn function(&mut self, _kind: String) -> (result: Result<Stmt, ParseError>)
        requires
            old(self).well_formed(),
        ensures
            final(self).stated(
                old(self),
                result,
                grammar::function(old(self).input(), old(self).position()),
            ),
        decreases old(self).tokens.len() - old(self).current, 5int,
    {
        let ghost reported = self.reported();
        let signature = match self.signature() {
            Ok(signature) => signature,
            Err(error) => {
                return Err(error);
            },
        };
        let ghost head = grammar::signature(old(self).input(), old(self).position());
        let ghost rest = grammar::block_rest(self.input(), Seq::empty(), self.position());
        proof {
            assert(reported + (head.reports + rest.reports) =~= (reported + head.reports)
                + rest.reports);
        }
        match self.block() {
            Ok(body) => Ok(Stmt::Function { name: signature.name, params: signature.params, body }),
            Err(error) => Err(error),
        }
    }

    /// An expression and the semicolon that ends its statement.
    fn terminated(&mut self) -> (result: Result<Expr, ParseError>)
        requires
            old(self).well_formed(),
        ensures
            final(self).done(
                old(self),
                result,
                grammar::terminated(old(self).input(), old(self).position()),
            ),
    {
        let expr = match self.expression() {
            Ok(expr) => expr,
            Err(error) => {
                return Err(error);
            },
        };
        match self.consume(TokenType::SEMICOLON, "Expect ';' after value.") {
            Ok(_) => Ok(expr),
            Err(error) => Err(error),
        }
    }

    /// varDecl → "var" IDENTIFIER ( "=" expression )? ";"
    fn var_declaration(&mut self) -> (result: Result<Stmt, ParseError>)
        requires
            old(self).well_formed(),
        ensures
            final(self).stated(
                old(self),
                result,
                grammar::var_declaration(old(self).input(), old(self).position()),
            ),
    {
        proof {
            assert(self.reported() + Seq::<ParseErrorView>::empty() =~= self.reported());
        }
        let token = match self.consume(TokenType::IDENTIFIER, "Expect variable name") {
            Ok(token) => token,
            Err(error) => {
                return Err(error);
            },
        };
        if self.check(TokenType::EQUAL) {
            let _ = self.advance();
            match self.terminated() {
                Ok(initializer) => Ok(Stmt::Var { name: token, initializer: Some(initializer) }),
                Err(error) => Err(error),
            }
        } else {
            match self.consume(TokenType::SEMICOLON, "Expect ';' after value.") {
                Ok(_) => Ok(Stmt::Var { name: token, initializer: None }),
                Err(error) => Err(error),
            }
        }
    }

    /// statement → forStmt | ifStmt | whileStmt | printStmt | block | exprStmt
    fn statement(&mut self) -> (result: Result<Stmt, ParseError>)
        requires
            old(self).well_formed(),
        ensures
            final(self).stated(
                old(self),
                result,
                grammar::statement(old(self).input(), old(self).position()),
            ),
        decreases old(self).tokens.len() - old(self).current, 2int,
    {
        if self.check(TokenType::FOR) {
            let _ = self.advance();
            self.for_statement()
        } else if self.check(TokenType::IF) {
            let _ = self.advance();
            self.if_statement()
        } else if self.check(TokenType::WHILE) {
            let _ = self.advance();
            self.while_statement()
        } else if self.check(TokenType::PRINT) {
            let _ = self.advance();
            self.print_statement()
        } else if self.check(TokenType::LEFT_BRACE) {
            let _ = self.advance();
            match self.block() {
                Ok(statements) => Ok(Stmt::Block { statements }),
                Err(error) => Err(error),
            }
        } else {
            self.expression_statement()
        }
    }

    /// The declarations of a block and the brace that closes it.
    fn block(&mut self) -> (result: Result<Vec<Stmt>, ParseError>)
        requires
            old(self).well_formed(),
            old(self).position() >= 1,
        ensures
            ({
                let parsed = grammar::block_rest(
                    old(self).input(),
                    Seq::empty(),
                    old(self).position(),
                );
                &&& same_stmts(result, parsed.outcome)
                &&& final(self).arrived(old(self), parsed.next, parsed.reports, result is Ok)
            }),
        decreases old(self).tokens.len() - old(self).current, 4int,
    {
        let mut statements: Vec<Stmt> = Vec::new();
        let ghost total = grammar::block_rest(old(self).input(), Seq::empty(), old(self).position());
        proof {
            assert(stmt_views(statements) =~= Seq::<StmtView>::empty());
            assert(old(self).reported() + total.reports =~= self.reported() + total.reports);
        }
        while !self.check(TokenType::RIGHT_BRACE) && !self.is_at_end()
            invariant
                self.well_formed(),
                self.input() == old(self).input(),
                self.tokens.len() == old(self).tokens.len(),
                old(self).current <= self.current,
                total == grammar::block_rest(old(self).input(), Seq::empty(), old(self).position()),
                ({
                    let rest = grammar::block_rest(
                        self.input(),
                        stmt_views(statements),
                        self.position(),
                    );
                    &&& rest.outcome == total.outcome
                    &&& rest.next == total.next
                    &&& self.reported() + rest.reports == old(self).reported() + total.reports
                }),
            decreases self.tokens.len() - self.current,
        {
            let ghost before = stmt_views(statements);
            let ghost reported = self.reported();
            let ghost here = self.position();
            let declaration = self.declaration();
            proof {
                let declared = grammar::declaration(self.input(), here);
                let after = grammar::block_rest(
                    self.input(),
                    grammar::extended(before, declared),
                    declared.next,
                );
                assert(reported + (declared.reports + after.reports) =~= (reported
                    + declared.reports) + after.reports);
            }
            match declaration {
                Some(statement) => {
                    statements.push(statement);
                    proof {
                        assert(stmt_views(statements) =~= before.push(statement@));
                    }
                },
                None => {},
            }
        }
        let ghost reported = self.reported();
        proof {
            assert(reported + Seq::<ParseErrorView>::empty() =~= reported);
        }
        match self.consume(TokenType::RIGHT_BRACE, "Expect '}' after block.") {
            Ok(_) => Ok(statements),
            Err(error) => Err(error),
        }
    }

    /// exprStmt → expression ";"
    fn expression_statement(&mut self) -> (result: Result<Stmt, ParseError>)
        requires
            old(self).well_formed(),
        ensures
            final(self).stated(
                old(self),
                result,
                grammar::expression_statement(old(self).input(), old(self).position()),
            ),
    {
        proof {
            assert(self.reported() + Seq::<ParseErrorView>::empty() =~= self.reported());
        }
        match self.terminated() {
            Ok(expr) => Ok(Stmt::Expression { expr: Box::new(expr) }),
            Err(error) => Err(error),
        }
    }

    /// printStmt → "print" expression ";"
    fn print_statement(&mut self) -> (result: Result<Stmt, ParseError>)
        requires
            old(self).well_formed(),
        ensures
            final(self).stated(
                old(self),
                result,
                grammar::print_statement(old(self).input(), old(self).position()),
            ),
    {
        proof {
            assert(self.reported() + Seq::<ParseErrorView>::empty() =~= self.reported());
        }
        match self.terminated() {
            Ok(expr) => Ok(Stmt::Print { expr: Box::new(expr) }),
            Err(error) => Err(error),
        }
    }

    /// An expression between parentheses.
    fn condition(&mut self, before: &str, behind: &str) -> (result: Result<Expr, ParseError>)
        requires
            old(self).well_formed(),
        ensures
            final(self).done(
                old(self),
                result,
                grammar::condition(old(self).input(), old(self).position(), before@, behind@),
            ),
    {
        match self.consume(TokenType::LEFT_PAREN, before) {
            Ok(_) => {},
            Err(error) => {
                return Err(error);
            },
        }
        let expr = match self.expression() {
            Ok(expr) => expr,
            Err(error) => {
                return Err(error);
            },
        };
        match self.consume(TokenType::RIGHT_PAREN, behind) {
            Ok(_) => Ok(expr),
            Err(error) => Err(error),
        }
    }

    /// The first clause of a `for` statement, with its semicolon.
    fn for_initializer(&mut self) -> (result: Result<Option<Stmt>, ParseError>)
        requires
            old(self).well_formed(),
        ensures
            same_optional_stmt(
                result,
                grammar::for_initializer(old(self).input(), old(self).position()).outcome,
            ),
            final(self).moved(
                old(self),
                grammar::for_initializer(old(self).input(), old(self).position()).next,
                result is Ok,
            ),
    {
        proof {
            assert(self.reported() + Seq::<ParseErrorView>::empty() =~= self.reported());
        }
        if self.check(TokenType::SEMICOLON) {
            let _ = self.advance();
            Ok(None)
        } else if self.check(TokenType::VAR) {
            let _ = self.advance();
            match self.var_declaration() {
                Ok(statement) => Ok(Some(statement)),
                Err(error) => Err(error),
            }
        } else {
            match self.expression_statement() {
                Ok(statement) => Ok(Some(statement)),
                Err(error) => Err(error),
            }
        }
    }

    /// An expression that may be missing before a token of the kind `end`,
    /// and that token.
    fn optional_clause(&mut self, end: TokenType, message: &str) -> (result: Result<
        Option<Expr>,
        ParseError,
    >)
        requires
            old(self).well_formed(),
        ensures
            same_optional_expr(
                result,
                grammar::optional_clause(
                    old(self).input(),
                    old(self).position(),
                    end,
                    message@,
                ).outcome,
            ),
            final(self).moved(
                old(self),
                grammar::optional_clause(old(self).input(), old(self).position(), end, message@).next,
                result is Ok,
            ),
    {
        let clause = if self.check(end) {
            None
        } else {
            match self.expression() {
                Ok(expr) => Some(expr),
                Err(error) => {
                    return Err(error);
                },
            }
        };
        match self.consume(end, message) {
            Ok(_) => Ok(clause),
            Err(error) => Err(error),
        }
    }

    /// The clauses of a `for` statement between its parentheses.
    fn clauses(&mut self) -> (result: Result<Clauses, ParseError>)
        requires
            old(self).well_formed(),
        ensures
            same_clauses(result, grammar::clauses(old(self).input(), old(self).position()).outcome),
            final(self).moved(
                old(self),
                grammar::clauses(old(self).input(), old(self).position()).next,
                result is Ok,
            ),
    {
        match self.consume(TokenType::LEFT_PAREN, "Expect '(' after 'for'.") {
            Ok(_) => {},
            Err(error) => {
                return Err(error);
            },
        }
        let initializer = match self.for_initializer() {
            Ok(initializer) => initializer,
            Err(error) => {
                return Err(error);
            },
        };
        let condition = match self.optional_clause(
            TokenType::SEMICOLON,
            "Expect ';' after loop condition.",
        ) {
            Ok(condition) => condition,
            Err(error) => {
                return Err(error);
            },
        };
        let increment = match self.optional_clause(
            TokenType::RIGHT_PAREN,
            "Expect ')' after for clauses.",
        ) {
            Ok(increment) => increment,
            Err(error) => {
                return Err(error);
            },
        };
        Ok(Clauses { initializer, condition, increment })
    }

    /// forStmt → "for" "(" ( varDecl | exprStmt | ";" ) expression? ";"
    ///           expression? ")" statement
    ///
    /// The statement is built from `while` and blocks.
    fn for_statement(&mut self) -> (result: Result<Stmt, ParseError>)
        requires
            old(self).well_formed(),
            old(self).position() >= 1,
        ensures
            final(self).stated(
                old(self),
                result,
                grammar::for_statement(old(self).input(), old(self).position()),
            ),
        decreases old(self).tokens.len() - old(self).current, 5int,
    {
        proof {
            assert(self.reported() + Seq::<ParseErrorView>::empty() =~= self.reported());
        }
        let clauses = match self.clauses() {
            Ok(clauses) => clauses,
            Err(error) => {
                return Err(error);
            },
        };
        let body = match self.statement() {
            Ok(body) => body,
            Err(error) => {
                return Err(error);
            },
        };
        Ok(desugar(clauses, body))
    }

    /// whileStmt → "while" "(" expression ")" statement
    fn while_statement(&mut self) -> (result: Result<Stmt, ParseError>)
        requires
            old(self).well_formed(),
            old(self).position() >= 1,
        ensures
            final(self).stated(
                old(self),
                result,
                grammar::while_statement(old(self).input(), old(self).position()),
            ),
        decreases old(self).tokens.len() - old(self).current, 5int,
    {
        proof {
            assert(self.reported() + Seq::<ParseErrorView>::empty() =~= self.reported());
        }
        let condition = match self.condition(
            "Expect '(' after 'while'.",
            "Expect ')' after condition.",
        ) {
            Ok(condition) => condition,
            Err(error) => {
                return Err(error);
            },
        };
        match self.statement() {
            Ok(body) => Ok(Stmt::While { condition, body: Box::new(body) }),
            Err(error) => Err(error),
        }
    }

    /// ifStmt → "if" "(" expression ")" statement ( "else" statement )?
    fn if_statement(&mut self) -> (result: Result<Stmt, ParseError>)
        requires
            old(self).well_formed(),
            old(self).position() >= 1,
        ensures
            final(self).stated(
                old(self),
                result,
                grammar::if_statement(old(self).input(), old(self).position()),
            ),
        decreases old(self).tokens.len() - old(self).current, 5int,
    {
        let ghost reported = self.reported();
        proof {
            assert(reported + Seq::<ParseErrorView>::empty() =~= reported);
        }
        let condition = match self.condition(
            "Expect '(' after 'if'.",
            "Expect ')' after if condition.",
        ) {
            Ok(condition) => condition,
            Err(error) => {
                return Err(error);
            },
        };
        let ghost start = self.position();
        let then_branch = match self.statement() {
            Ok(then_branch) => then_branch,
            Err(error) => {
                return Err(error);
            },
        };
        if self.check(TokenType::ELSE) {
            let _ = self.advance();
            proof {
                let then = grammar::statement(self.input(), start);
                let other = grammar::statement(self.input(), self.position());
                assert(reported + (then.reports + other.reports) =~= (reported + then.reports)
                    + other.reports);
            }
            match self.statement() {
                Ok(else_branch) => Ok(
                    Stmt::If {
                        condition,
                        then_branch: Box::new(then_branch),
                        else_branch: Some(Box::new(else_branch)),
                    },
                ),
                Err(error) => Err(error),
            }
        } else {
            Ok(Stmt::If { condition, then_branch: Box::new(then_branch), else_branch: None })
        }
    }
}

/// Builds a `for` statement from `while` and blocks.
pub fn desugar(clauses: Clauses, body: Stmt) -> (statement: Stmt)
    ensures
        statement@ == grammar::desugar(clauses@, body@),
{
    let mut body = body;
    match clauses.increment {
        Some(increment_expr) => {
            let mut statements: Vec<Stmt> = Vec::new();
            let ghost first = body@;
            statements.push(body);
            statements.push(Stmt::Expression { expr: Box::new(increment_expr) });
            proof {
                assert(stmt_views(statements) =~= seq![
                    first,
                    StmtView::Expression { expr: Box::new(increment_expr@) },
                ]);
            }
            body = Stmt::Block { statements };
            assert(body@ == (StmtView::Block {
                statements: seq![first, StmtView::Expression { expr: Box::new(increment_expr@) }],
            }));
        },
        None => {},
    }
    let ghost stepped = body@;
    let condition = match clauses.condition {
        Some(condition_expr) => condition_expr,
        None => {
            let value = Value::Boolean { value: true };
            assert(value@ == (ValueView::Boolean { value: true }));
            Expr::Literal { value }
        },
    };
    body = Stmt::While { condition, body: Box::new(body) };
    assert(body@ == (StmtView::While { condition: condition@, body: Box::new(stepped) }));
    match clauses.initializer {
        Some(init_stmt) => {
            let mut statements: Vec<Stmt> = Vec::new();
            let ghost looped = body@;
            statements.push(init_stmt);
            statements.push(body);
            proof {
                assert(stmt_views(statements) =~= seq![init_stmt@, looped]);
            }
            body = Stmt::Block { statements };
            assert(body@ == (StmtView::Block { statements: seq![init_stmt@, looped] }));
        },
        None => {},
    }
    body
}

} // verus!
