//! The grammar: what the parser makes of a sequence of tokens, as
//! functions of the tokens and of a position among them.
//!
//! Every function returns the position that it has read up to. Where one
//! part of a phrase follows another, the definition goes on only if the
//! first part ended inside the tokens and not before its own start. That
//! holds of every parse, as `expression_ends_well`, `declaration_moves_on`
//! and their companions prove; it is written out because it is what makes
//! the definitions well founded.

use vstd::prelude::*;
use crate::expression::{ExprView, StmtView};
use crate::token::{TokenType, TokenView, ValueView};

verus! {

/// A syntax error: what was expected, the line, and where on it.
pub struct ParseErrorView {
    pub message: Seq<char>,
    pub line: int,
    pub error_where: Seq<char>,
}

/// What parsing a phrase comes to: the phrase or the error that stopped
/// it, the position read up to, and the errors that were reported on the
/// way without stopping it.
pub struct Parsed<T> {
    pub outcome: Result<T, ParseErrorView>,
    pub next: int,
    pub reports: Seq<ParseErrorView>,
}

/// The most parameters a function, and the most arguments a call, can have.
pub const MAX_ARITY: usize = 255;

/// The token that stands for the end of the input where the tokens run out.
pub open spec fn end_token() -> TokenView {
    TokenView { ttype: TokenType::EOF, lexeme: Seq::empty(), literal: None, line: 0 }
}

pub open spec fn token_at(tokens: Seq<TokenView>, pos: int) -> TokenView {
    if 0 <= pos < tokens.len() {
        tokens[pos]
    } else {
        end_token()
    }
}

pub open spec fn kind_at(tokens: Seq<TokenView>, pos: int) -> TokenType {
    token_at(tokens, pos).ttype
}

pub open spec fn at_end(tokens: Seq<TokenView>, pos: int) -> bool {
    kind_at(tokens, pos) == TokenType::EOF
}

/// Whether the token at `pos` is of a kind. The end of the input is of none.
pub open spec fn check(tokens: Seq<TokenView>, pos: int, ttype: TokenType) -> bool {
    !at_end(tokens, pos) && kind_at(tokens, pos) == ttype
}

/// Whether the token at `pos` is of one of the kinds.
pub open spec fn check_any(tokens: Seq<TokenView>, pos: int, kinds: Seq<TokenType>) -> bool
    decreases kinds.len(),
{
    kinds.len() > 0 && (check(tokens, pos, kinds[0]) || check_any(tokens, pos, kinds.drop_first()))
}

/// Being of one of two kinds is being of the one or of the other.
pub proof fn check_any_of_two(tokens: Seq<TokenView>, pos: int, first: TokenType, second: TokenType)
    ensures
        check_any(tokens, pos, seq![first, second]) == (check(tokens, pos, first) || check(
            tokens,
            pos,
            second,
        )),
{
    let kinds = seq![first, second];
    let rest = seq![second];
    assert(kinds.drop_first() =~= rest);
    assert(rest.drop_first().len() == 0);
    assert(!check_any(tokens, pos, rest.drop_first()));
    assert(rest[0] == second);
    assert(check_any(tokens, pos, rest) == check(tokens, pos, second));
    assert(kinds[0] == first);
}

/// The error at a token: on its line, at the end or at its lexeme.
pub open spec fn error(token: TokenView, message: Seq<char>) -> ParseErrorView {
    if token.ttype == TokenType::EOF {
        ParseErrorView { message, line: token.line, error_where: " at end "@ }
    } else {
        ParseErrorView { message, line: token.line, error_where: " at '"@ + token.lexeme + "'"@ }
    }
}

pub open spec fn error_at(tokens: Seq<TokenView>, pos: int, message: Seq<char>) -> ParseErrorView {
    error(token_at(tokens, pos), message)
}

pub open spec fn fails<T>(tokens: Seq<TokenView>, pos: int, message: Seq<char>) -> Parsed<T> {
    Parsed { outcome: Err(error_at(tokens, pos, message)), next: pos, reports: Seq::empty() }
}

pub open spec fn succeeds<T>(value: T, next: int) -> Parsed<T> {
    Parsed { outcome: Ok(value), next, reports: Seq::empty() }
}

/// One part of a phrase ended where the next can start.
pub open spec fn follows(tokens: Seq<TokenView>, from: int, to: int) -> bool {
    from <= to <= tokens.len()
}

/// What is returned where a part did not end where the next can start.
pub open spec fn stuck<T>(tokens: Seq<TokenView>, pos: int) -> Parsed<T> {
    fails(tokens, pos, "No progress."@)
}

/// Reads a token of a kind, or fails with a message at the token that is
/// there instead.
pub open spec fn consume(
    tokens: Seq<TokenView>,
    pos: int,
    ttype: TokenType,
    message: Seq<char>,
) -> Parsed<TokenView> {
    if check(tokens, pos, ttype) {
        succeeds(tokens[pos], pos + 1)
    } else {
        fails(tokens, pos, message)
    }
}

/// The binary levels, from the loosest to the tightest: `or`, `and`,
/// equality, comparison, term, factor.
pub const OR: u8 = 0;

pub const AND: u8 = 1;

pub const EQUALITY: u8 = 2;

pub const COMPARISON: u8 = 3;

pub const TERM: u8 = 4;

pub const FACTOR: u8 = 5;

/// Whether a token kind is an operator of a binary level.
pub open spec fn operator_of(level: int, ttype: TokenType) -> bool {
    if level == 0 {
        ttype == TokenType::OR
    } else if level == 1 {
        ttype == TokenType::AND
    } else if level == 2 {
        ttype == TokenType::BANG_EQUAL || ttype == TokenType::EQUAL_EQUAL
    } else if level == 3 {
        ttype == TokenType::GREATER || ttype == TokenType::GREATER_EQUAL || ttype
            == TokenType::LESS || ttype == TokenType::LESS_EQUAL
    } else if level == 4 {
        ttype == TokenType::MINUS || ttype == TokenType::PLUS
    } else if level == 5 {
        ttype == TokenType::SLASH || ttype == TokenType::STAR
    } else {
        false
    }
}

/// The node that a binary level makes of two operands: a short-circuiting
/// one for `or` and `and`, a binary one otherwise.
pub open spec fn combine(level: int, left: ExprView, operator: TokenView, right: ExprView) -> ExprView {
    if level <= 1 {
        ExprView::Logical { left: Box::new(left), operator, right: Box::new(right) }
    } else {
        ExprView::Binary { left: Box::new(left), operator, right: Box::new(right) }
    }
}

pub open spec fn literal(value: ValueView) -> ExprView {
    ExprView::Literal { value }
}

/// expression → assignment
pub open spec fn expression(tokens: Seq<TokenView>, pos: int) -> Parsed<ExprView>
    decreases tokens.len() - pos, 10int,
{
    if follows(tokens, 0, pos) {
        assignment(tokens, pos)
    } else {
        stuck(tokens, pos)
    }
}

/// assignment → or ( "=" assignment )?
///
/// Right-associative; only a variable can stand on the left.
pub open spec fn assignment(tokens: Seq<TokenView>, pos: int) -> Parsed<ExprView>
    decreases tokens.len() - pos, 9int,
{
    if !follows(tokens, 0, pos) {
        stuck(tokens, pos)
    } else {
        let target = binary(tokens, 0, pos);
        match target.outcome {
            Err(_) => target,
            Ok(expr) => if !check(tokens, target.next, TokenType::EQUAL) {
                target
            } else if !follows(tokens, pos, target.next) {
                stuck(tokens, target.next)
            } else {
                let value = assignment(tokens, target.next + 1);
                match value.outcome {
                    Err(_) => value,
                    Ok(assigned) => match expr {
                        ExprView::Variable { name } => succeeds(
                            ExprView::Assign { name, value: Box::new(assigned) },
                            value.next,
                        ),
                        _ => fails(tokens, value.next, "Invalid assignment target"@),
                    },
                }
            },
        }
    }
}

/// One binary level: an operand of the next tighter level, then any number
/// of operators of this level, each with another such operand, folded into
/// a tree that deepens to the left.
pub open spec fn binary(tokens: Seq<TokenView>, level: int, pos: int) -> Parsed<ExprView>
    decreases tokens.len() - pos, 8 - level,
{
    if !follows(tokens, 0, pos) || level < 0 || level > 5 {
        stuck(tokens, pos)
    } else {
        let first = if level == 5 {
            unary(tokens, pos)
        } else {
            binary(tokens, level + 1, pos)
        };
        match first.outcome {
            Err(_) => first,
            Ok(left) => if pos < first.next <= tokens.len() {
                binary_rest(tokens, level, left, first.next)
            } else {
                stuck(tokens, first.next)
            },
        }
    }
}

/// The operators of a binary level that follow an operand, with their
/// operands.
pub open spec fn binary_rest(
    tokens: Seq<TokenView>,
    level: int,
    left: ExprView,
    pos: int,
) -> Parsed<ExprView>
    decreases tokens.len() - pos, 0int,
{
    if !follows(tokens, 0, pos) || level < 0 || level > 5 {
        stuck(tokens, pos)
    } else if !at_end(tokens, pos) && operator_of(level, kind_at(tokens, pos)) {
        let operand = if level == 5 {
            unary(tokens, pos + 1)
        } else {
            binary(tokens, level + 1, pos + 1)
        };
        match operand.outcome {
            Err(_) => operand,
            Ok(right) => if pos < operand.next <= tokens.len() {
                binary_rest(tokens, level, combine(level, left, tokens[pos], right), operand.next)
            } else {
                stuck(tokens, operand.next)
            },
        }
    } else {
        succeeds(left, pos)
    }
}

/// unary → ( "!" | "-" ) unary | call
pub open spec fn unary(tokens: Seq<TokenView>, pos: int) -> Parsed<ExprView>
    decreases tokens.len() - pos, 2int,
{
    if !follows(tokens, 0, pos) {
        stuck(tokens, pos)
    } else if check(tokens, pos, TokenType::BANG) || check(tokens, pos, TokenType::MINUS) {
        let operand = unary(tokens, pos + 1);
        match operand.outcome {
            Err(_) => operand,
            Ok(right) => succeeds(
                ExprView::Unary { operator: tokens[pos], right: Box::new(right) },
                operand.next,
            ),
        }
    } else {
        call(tokens, pos)
    }
}

/// call → primary ( "(" arguments? ")" )*
pub open spec fn call(tokens: Seq<TokenView>, pos: int) -> Parsed<ExprView>
    decreases tokens.len() - pos, 1int,
{
    if !follows(tokens, 0, pos) {
        stuck(tokens, pos)
    } else {
        let callee = primary(tokens, pos);
        match callee.outcome {
            Err(_) => callee,
            Ok(expr) => if pos < callee.next <= tokens.len() {
                call_rest(tokens, expr, callee.next)
            } else {
                stuck(tokens, callee.next)
            },
        }
    }
}

/// The argument lists that follow a callee, each making a call of what
/// stands before it.
pub open spec fn call_rest(tokens: Seq<TokenView>, callee: ExprView, pos: int) -> Parsed<ExprView>
    decreases tokens.len() - pos, 0int,
{
    if !follows(tokens, 0, pos) {
        stuck(tokens, pos)
    } else if check(tokens, pos, TokenType::LEFT_PAREN) {
        let made = finish_call(tokens, callee, pos + 1);
        match made.outcome {
            Err(_) => made,
            Ok(expr) => if pos < made.next <= tokens.len() {
                call_rest(tokens, expr, made.next)
            } else {
                stuck(tokens, made.next)
            },
        }
    } else {
        succeeds(callee, pos)
    }
}

/// The arguments of a call and its closing parenthesis, after the opening
/// one.
pub open spec fn finish_call(tokens: Seq<TokenView>, callee: ExprView, pos: int) -> Parsed<ExprView>
    decreases tokens.len() - pos, 12int,
{
    if !follows(tokens, 0, pos) {
        stuck(tokens, pos)
    } else {
        let list = if check(tokens, pos, TokenType::RIGHT_PAREN) {
            succeeds(Seq::<ExprView>::empty(), pos)
        } else {
            arguments_rest(tokens, Seq::empty(), pos)
        };
        match list.outcome {
            Err(e) => Parsed { outcome: Err(e), next: list.next, reports: Seq::empty() },
            Ok(arguments) => {
                let paren = consume(
                    tokens,
                    list.next,
                    TokenType::RIGHT_PAREN,
                    "Expect ')' after arguments."@,
                );
                match paren.outcome {
                    Err(e) => Parsed { outcome: Err(e), next: paren.next, reports: Seq::empty() },
                    Ok(token) => succeeds(
                        ExprView::Call { callee: Box::new(callee), paren: token, arguments },
                        paren.next,
                    ),
                }
            },
        }
    }
}

/// The arguments of a call from `pos` on, after those in `before`.
pub open spec fn arguments_rest(
    tokens: Seq<TokenView>,
    before: Seq<ExprView>,
    pos: int,
) -> Parsed<Seq<ExprView>>
    decreases tokens.len() - pos, 11int,
{
    if !follows(tokens, 0, pos) {
        stuck(tokens, pos)
    } else if before.len() >= MAX_ARITY {
        fails(tokens, pos, "Can't have more than 255 arguments"@)
    } else {
        let argument = expression(tokens, pos);
        match argument.outcome {
            Err(e) => Parsed { outcome: Err(e), next: argument.next, reports: Seq::empty() },
            Ok(expr) => if !check(tokens, argument.next, TokenType::COMMA) {
                succeeds(before.push(expr), argument.next)
            } else if pos <= argument.next < tokens.len() {
                arguments_rest(tokens, before.push(expr), argument.next + 1)
            } else {
                stuck(tokens, argument.next)
            },
        }
    }
}

/// primary → "false" | "true" | "nil" | NUMBER | STRING | IDENTIFIER
///         | "(" expression ")"
pub open spec fn primary(tokens: Seq<TokenView>, pos: int) -> Parsed<ExprView>
    decreases tokens.len() - pos, 0int,
{
    if !follows(tokens, 0, pos) {
        stuck(tokens, pos)
    } else if check(tokens, pos, TokenType::FALSE) {
        succeeds(literal(ValueView::Boolean { value: false }), pos + 1)
    } else if check(tokens, pos, TokenType::TRUE) {
        succeeds(literal(ValueView::Boolean { value: true }), pos + 1)
    } else if check(tokens, pos, TokenType::NIL) {
        succeeds(literal(ValueView::Nil), pos + 1)
    } else if check(tokens, pos, TokenType::NUMBER) || check(tokens, pos, TokenType::STRING) {
        match tokens[pos].literal {
            Some(value) => succeeds(literal(value), pos + 1),
            None => fails(tokens, pos + 1, "Literal has no value."@),
        }
    } else if check(tokens, pos, TokenType::IDENTIFIER) {
        succeeds(ExprView::Variable { name: tokens[pos] }, pos + 1)
    } else if check(tokens, pos, TokenType::LEFT_PAREN) {
        let inner = expression(tokens, pos + 1);
        match inner.outcome {
            Err(_) => inner,
            Ok(expr) => {
                let paren = consume(
                    tokens,
                    inner.next,
                    TokenType::RIGHT_PAREN,
                    "Expect ')' after expression."@,
                );
                match paren.outcome {
                    Err(e) => Parsed { outcome: Err(e), next: paren.next, reports: Seq::empty() },
                    Ok(_) => succeeds(
                        ExprView::Grouping { expression: Box::new(expr) },
                        paren.next,
                    ),
                }
            },
        }
    } else {
        fails(tokens, pos, "Expect expression."@)
    }
}

/// The failure of a phrase whose part failed, where the part reports
/// nothing.
pub open spec fn after<A, B>(part: Parsed<A>) -> Parsed<B> {
    Parsed { outcome: Err(part.outcome->Err_0), next: part.next, reports: Seq::empty() }
}

/// Whether a statement can start with a token of this kind.
pub open spec fn starts_statement(ttype: TokenType) -> bool {
    ttype == TokenType::CLASS || ttype == TokenType::FUN || ttype == TokenType::VAR || ttype
        == TokenType::FOR || ttype == TokenType::IF || ttype == TokenType::WHILE || ttype
        == TokenType::PRINT || ttype == TokenType::RETURN
}

/// The first position at or after `pos` where a statement may start: after
/// a semicolon, at a token that starts a statement, or at the end.
pub open spec fn skip(tokens: Seq<TokenView>, pos: int) -> int
    decreases tokens.len() - pos,
{
    if pos < 1 || pos >= tokens.len() || at_end(tokens, pos) {
        pos
    } else if kind_at(tokens, pos - 1) == TokenType::SEMICOLON {
        pos
    } else if starts_statement(kind_at(tokens, pos)) {
        pos
    } else {
        skip(tokens, pos + 1)
    }
}

/// Where parsing resumes after an error at `pos`: the offending token is
/// dropped, and so is what follows it up to the next place where a
/// statement may start.
pub open spec fn synchronize(tokens: Seq<TokenView>, pos: int) -> int {
    if at_end(tokens, pos) || pos < 0 {
        pos
    } else {
        skip(tokens, pos + 1)
    }
}

/// An expression between parentheses, as `if` and `while` have it.
pub open spec fn condition(
    tokens: Seq<TokenView>,
    pos: int,
    before: Seq<char>,
    behind: Seq<char>,
) -> Parsed<ExprView> {
    let open = consume(tokens, pos, TokenType::LEFT_PAREN, before);
    if open.outcome is Err {
        after(open)
    } else {
        let expr = expression(tokens, open.next);
        if expr.outcome is Err {
            after(expr)
        } else {
            let close = consume(tokens, expr.next, TokenType::RIGHT_PAREN, behind);
            if close.outcome is Err {
                after(close)
            } else {
                succeeds(expr.outcome->Ok_0, close.next)
            }
        }
    }
}

/// An expression and the semicolon that ends its statement.
pub open spec fn terminated(tokens: Seq<TokenView>, pos: int) -> Parsed<ExprView> {
    let expr = expression(tokens, pos);
    if expr.outcome is Err {
        after(expr)
    } else {
        let semicolon = consume(tokens, expr.next, TokenType::SEMICOLON, "Expect ';' after value."@);
        if semicolon.outcome is Err {
            after(semicolon)
        } else {
            succeeds(expr.outcome->Ok_0, semicolon.next)
        }
    }
}

/// exprStmt → expression ";"
pub open spec fn expression_statement(tokens: Seq<TokenView>, pos: int) -> Parsed<StmtView> {
    let expr = terminated(tokens, pos);
    match expr.outcome {
        Err(_) => after(expr),
        Ok(e) => succeeds(StmtView::Expression { expr: Box::new(e) }, expr.next),
    }
}

/// printStmt → "print" expression ";", after the keyword.
pub open spec fn print_statement(tokens: Seq<TokenView>, pos: int) -> Parsed<StmtView> {
    let expr = terminated(tokens, pos);
    match expr.outcome {
        Err(_) => after(expr),
        Ok(e) => succeeds(StmtView::Print { expr: Box::new(e) }, expr.next),
    }
}

/// varDecl → "var" IDENTIFIER ( "=" expression )? ";", after the keyword.
pub open spec fn var_declaration(tokens: Seq<TokenView>, pos: int) -> Parsed<StmtView> {
    let name = consume(tokens, pos, TokenType::IDENTIFIER, "Expect variable name"@);
    match name.outcome {
        Err(_) => after(name),
        Ok(token) => if check(tokens, name.next, TokenType::EQUAL) {
            let value = terminated(tokens, name.next + 1);
            match value.outcome {
                Err(_) => after(value),
                Ok(e) => succeeds(StmtView::Var { name: token, initializer: Some(e) }, value.next),
            }
        } else {
            let semicolon = consume(
                tokens,
                name.next,
                TokenType::SEMICOLON,
                "Expect ';' after value."@,
            );
            match semicolon.outcome {
                Err(_) => after(semicolon),
                Ok(_) => succeeds(StmtView::Var { name: token, initializer: None }, semicolon.next),
            }
        },
    }
}

/// The parameters of a function from `pos` on, after those in `before`. A
/// parameter beyond the limit is reported and parsed all the same.
pub open spec fn parameters_rest(
    tokens: Seq<TokenView>,
    before: Seq<TokenView>,
    pos: int,
) -> Parsed<Seq<TokenView>>
    decreases tokens.len() - pos,
{
    let reports = if before.len() >= MAX_ARITY {
        seq![error_at(tokens, pos, "Can't have more than 255 parameters."@)]
    } else {
        Seq::empty()
    };
    let name = consume(tokens, pos, TokenType::IDENTIFIER, "Expect parameter name."@);
    match name.outcome {
        Err(e) => Parsed { outcome: Err(e), next: name.next, reports },
        Ok(token) => if check(tokens, pos + 1, TokenType::COMMA) {
            let rest = parameters_rest(tokens, before.push(token), pos + 2);
            Parsed { outcome: rest.outcome, next: rest.next, reports: reports + rest.reports }
        } else {
            Parsed { outcome: Ok(before.push(token)), next: pos + 1, reports }
        },
    }
}

/// A function's name and parameters, up to the brace that opens its body.
pub struct Signature {
    pub name: TokenView,
    pub params: Seq<TokenView>,
}

pub open spec fn signature(tokens: Seq<TokenView>, pos: int) -> Parsed<Signature> {
    let name = consume(tokens, pos, TokenType::IDENTIFIER, "Expect function name."@);
    if name.outcome is Err {
        after(name)
    } else {
        let open = consume(
            tokens,
            name.next,
            TokenType::LEFT_PAREN,
            "Expect '(' after function name."@,
        );
        if open.outcome is Err {
            after(open)
        } else {
            let params = if check(tokens, open.next, TokenType::RIGHT_PAREN) {
                succeeds(Seq::<TokenView>::empty(), open.next)
            } else {
                parameters_rest(tokens, Seq::empty(), open.next)
            };
            if params.outcome is Err {
                Parsed {
                    outcome: Err(params.outcome->Err_0),
                    next: params.next,
                    reports: params.reports,
                }
            } else {
                let close = consume(
                    tokens,
                    params.next,
                    TokenType::RIGHT_PAREN,
                    "Expect ')' after parameters."@,
                );
                if close.outcome is Err {
                    Parsed {
                        outcome: Err(close.outcome->Err_0),
                        next: close.next,
                        reports: params.reports,
                    }
                } else {
                    let brace = consume(
                        tokens,
                        close.next,
                        TokenType::LEFT_BRACE,
                        "Expect '{' before function body."@,
                    );
                    if brace.outcome is Err {
                        Parsed {
                            outcome: Err(brace.outcome->Err_0),
                            next: brace.next,
                            reports: params.reports,
                        }
                    } else {
                        Parsed {
                            outcome: Ok(
                                Signature {
                                    name: name.outcome->Ok_0,
                                    params: params.outcome->Ok_0,
                                },
                            ),
                            next: brace.next,
                            reports: params.reports,
                        }
                    }
                }
            }
        }
    }
}

/// The three clauses of a `for` statement, each of which may be missing.
pub struct Clauses {
    pub initializer: Option<StmtView>,
    pub condition: Option<ExprView>,
    pub increment: Option<ExprView>,
}

/// The first clause of a `for` statement, with its semicolon.
pub open spec fn for_initializer(tokens: Seq<TokenView>, pos: int) -> Parsed<Option<StmtView>> {
    if check(tokens, pos, TokenType::SEMICOLON) {
        succeeds(None, pos + 1)
    } else {
        let statement = if check(tokens, pos, TokenType::VAR) {
            var_declaration(tokens, pos + 1)
        } else {
            expression_statement(tokens, pos)
        };
        match statement.outcome {
            Err(_) => after(statement),
            Ok(s) => succeeds(Some(s), statement.next),
        }
    }
}

/// An expression that may be missing before a token of the kind `end`,
/// and that token.
pub open spec fn optional_clause(
    tokens: Seq<TokenView>,
    pos: int,
    end: TokenType,
    message: Seq<char>,
) -> Parsed<Option<ExprView>> {
    let clause = if check(tokens, pos, end) {
        succeeds(None, pos)
    } else {
        let expr = expression(tokens, pos);
        match expr.outcome {
            Err(_) => after(expr),
            Ok(e) => succeeds(Some(e), expr.next),
        }
    };
    if clause.outcome is Err {
        clause
    } else {
        let close = consume(tokens, clause.next, end, message);
        if close.outcome is Err {
            after(close)
        } else {
            succeeds(clause.outcome->Ok_0, close.next)
        }
    }
}

/// The clauses of a `for` statement between its parentheses, after the
/// keyword.
pub open spec fn clauses(tokens: Seq<TokenView>, pos: int) -> Parsed<Clauses> {
    let open = consume(tokens, pos, TokenType::LEFT_PAREN, "Expect '(' after 'for'."@);
    if open.outcome is Err {
        after(open)
    } else {
        let initializer = for_initializer(tokens, open.next);
        if initializer.outcome is Err {
            after(initializer)
        } else {
            let condition = optional_clause(
                tokens,
                initializer.next,
                TokenType::SEMICOLON,
                "Expect ';' after loop condition."@,
            );
            if condition.outcome is Err {
                after(condition)
            } else {
                let increment = optional_clause(
                    tokens,
                    condition.next,
                    TokenType::RIGHT_PAREN,
                    "Expect ')' after for clauses."@,
                );
                if increment.outcome is Err {
                    after(increment)
                } else {
                    succeeds(
                        Clauses {
                            initializer: initializer.outcome->Ok_0,
                            condition: condition.outcome->Ok_0,
                            increment: increment.outcome->Ok_0,
                        },
                        increment.next,
                    )
                }
            }
        }
    }
}

/// A `for` statement in terms of `while`: the body, followed by the
/// increment if there is one, is the body of a loop on the condition, which
/// is `true` where there is none; the initializer, if there is one, stands
/// before the loop in a block of its own.
pub open spec fn desugar(clauses: Clauses, body: StmtView) -> StmtView {
    let stepped = match clauses.increment {
        Some(increment) => StmtView::Block {
            statements: seq![body, StmtView::Expression { expr: Box::new(increment) }],
        },
        None => body,
    };
    let condition = match clauses.condition {
        Some(condition) => condition,
        None => literal(ValueView::Boolean { value: true }),
    };
    let looped = StmtView::While { condition, body: Box::new(stepped) };
    match clauses.initializer {
        Some(initializer) => StmtView::Block { statements: seq![initializer, looped] },
        None => looped,
    }
}

/// What a declaration comes to: a statement, or none where it held an
/// error; where parsing goes on; and what was reported.
pub struct Declared {
    pub statement: Option<StmtView>,
    pub next: int,
    pub reports: Seq<ParseErrorView>,
}

/// The statements that a list has after a declaration.
pub open spec fn extended(before: Seq<StmtView>, declared: Declared) -> Seq<StmtView> {
    match declared.statement {
        Some(statement) => before.push(statement),
        None => before,
    }
}

/// declaration → funDecl | varDecl | statement
///
/// A declaration that holds an error is reported and dropped, and parsing
/// resumes at the next place where a statement may start.
pub open spec fn declaration(tokens: Seq<TokenView>, pos: int) -> Declared
    decreases tokens.len() - pos, 3int,
{
    let parsed = if !follows(tokens, 0, pos) {
        stuck(tokens, pos)
    } else if check(tokens, pos, TokenType::FUN) {
        function(tokens, pos + 1)
    } else if check(tokens, pos, TokenType::VAR) {
        var_declaration(tokens, pos + 1)
    } else {
        statement(tokens, pos)
    };
    match parsed.outcome {
        Ok(statement) => Declared {
            statement: Some(statement),
            next: parsed.next,
            reports: parsed.reports,
        },
        Err(error) => Declared {
            statement: None,
            next: synchronize(tokens, parsed.next),
            reports: parsed.reports.push(error),
        },
    }
}

/// funDecl → "fun" IDENTIFIER "(" parameters? ")" block, after the keyword.
pub open spec fn function(tokens: Seq<TokenView>, pos: int) -> Parsed<StmtView>
    decreases tokens.len() - pos, 5int,
{
    if !follows(tokens, 0, pos) {
        stuck(tokens, pos)
    } else {
        let head = signature(tokens, pos);
        match head.outcome {
            Err(error) => Parsed { outcome: Err(error), next: head.next, reports: head.reports },
            Ok(signature) => if pos < head.next <= tokens.len() {
                let body = block_rest(tokens, Seq::empty(), head.next);
                Parsed {
                    outcome: match body.outcome {
                        Ok(statements) => Ok(
                            StmtView::Function {
                                name: signature.name,
                                params: signature.params,
                                body: statements,
                            },
                        ),
                        Err(error) => Err(error),
                    },
                    next: body.next,
                    reports: head.reports + body.reports,
                }
            } else {
                stuck(tokens, head.next)
            },
        }
    }
}

/// statement → forStmt | ifStmt | whileStmt | printStmt | block | exprStmt
pub open spec fn statement(tokens: Seq<TokenView>, pos: int) -> Parsed<StmtView>
    decreases tokens.len() - pos, 2int,
{
    if !follows(tokens, 0, pos) {
        stuck(tokens, pos)
    } else if check(tokens, pos, TokenType::FOR) {
        for_statement(tokens, pos + 1)
    } else if check(tokens, pos, TokenType::IF) {
        if_statement(tokens, pos + 1)
    } else if check(tokens, pos, TokenType::WHILE) {
        while_statement(tokens, pos + 1)
    } else if check(tokens, pos, TokenType::PRINT) {
        print_statement(tokens, pos + 1)
    } else if check(tokens, pos, TokenType::LEFT_BRACE) {
        let body = block_rest(tokens, Seq::empty(), pos + 1);
        Parsed {
            outcome: match body.outcome {
                Ok(statements) => Ok(StmtView::Block { statements }),
                Err(error) => Err(error),
            },
            next: body.next,
            reports: body.reports,
        }
    } else {
        expression_statement(tokens, pos)
    }
}

/// The declarations of a block from `pos` on, after those in `before`, and
/// the brace that closes the block.
pub open spec fn block_rest(
    tokens: Seq<TokenView>,
    before: Seq<StmtView>,
    pos: int,
) -> Parsed<Seq<StmtView>>
    decreases tokens.len() - pos, 4int,
{
    if !follows(tokens, 0, pos) {
        stuck(tokens, pos)
    } else if check(tokens, pos, TokenType::RIGHT_BRACE) || at_end(tokens, pos) {
        let close = consume(tokens, pos, TokenType::RIGHT_BRACE, "Expect '}' after block."@);
        match close.outcome {
            Err(_) => after(close),
            Ok(_) => succeeds(before, close.next),
        }
    } else {
        let declared = declaration(tokens, pos);
        if pos < declared.next <= tokens.len() {
            let rest = block_rest(tokens, extended(before, declared), declared.next);
            Parsed {
                outcome: rest.outcome,
                next: rest.next,
                reports: declared.reports + rest.reports,
            }
        } else {
            stuck(tokens, declared.next)
        }
    }
}

/// forStmt → "for" "(" ( varDecl | exprStmt | ";" ) expression? ";"
///           expression? ")" statement, after the keyword.
pub open spec fn for_statement(tokens: Seq<TokenView>, pos: int) -> Parsed<StmtView>
    decreases tokens.len() - pos, 5int,
{
    if !follows(tokens, 0, pos) {
        stuck(tokens, pos)
    } else {
        let head = clauses(tokens, pos);
        match head.outcome {
            Err(_) => after(head),
            Ok(clauses) => if pos < head.next <= tokens.len() {
                let body = statement(tokens, head.next);
                Parsed {
                    outcome: match body.outcome {
                        Ok(statement) => Ok(desugar(clauses, statement)),
                        Err(error) => Err(error),
                    },
                    next: body.next,
                    reports: body.reports,
                }
            } else {
                stuck(tokens, head.next)
            },
        }
    }
}

/// whileStmt → "while" "(" expression ")" statement, after the keyword.
pub open spec fn while_statement(tokens: Seq<TokenView>, pos: int) -> Parsed<StmtView>
    decreases tokens.len() - pos, 5int,
{
    if !follows(tokens, 0, pos) {
        stuck(tokens, pos)
    } else {
        let head = condition(
            tokens,
            pos,
            "Expect '(' after 'while'."@,
            "Expect ')' after condition."@,
        );
        match head.outcome {
            Err(_) => after(head),
            Ok(condition) => if pos < head.next <= tokens.len() {
                let body = statement(tokens, head.next);
                Parsed {
                    outcome: match body.outcome {
                        Ok(statement) => Ok(
                            StmtView::While { condition, body: Box::new(statement) },
                        ),
                        Err(error) => Err(error),
                    },
                    next: body.next,
                    reports: body.reports,
                }
            } else {
                stuck(tokens, head.next)
            },
        }
    }
}

/// ifStmt → "if" "(" expression ")" statement ( "else" statement )?, after
/// the keyword.
pub open spec fn if_statement(tokens: Seq<TokenView>, pos: int) -> Parsed<StmtView>
    decreases tokens.len() - pos, 5int,
{
    if !follows(tokens, 0, pos) {
        stuck(tokens, pos)
    } else {
        let head = condition(
            tokens,
            pos,
            "Expect '(' after 'if'."@,
            "Expect ')' after if condition."@,
        );
        match head.outcome {
            Err(_) => after(head),
            Ok(condition) => if pos < head.next <= tokens.len() {
                let then = statement(tokens, head.next);
                match then.outcome {
                    Err(error) => Parsed {
                        outcome: Err(error),
                        next: then.next,
                        reports: then.reports,
                    },
                    Ok(then_branch) => if !check(tokens, then.next, TokenType::ELSE) {
                        Parsed {
                            outcome: Ok(
                                StmtView::If {
                                    condition,
                                    then_branch: Box::new(then_branch),
                                    else_branch: None,
                                },
                            ),
                            next: then.next,
                            reports: then.reports,
                        }
                    } else if head.next <= then.next < tokens.len() {
                        let other = statement(tokens, then.next + 1);
                        Parsed {
                            outcome: match other.outcome {
                                Ok(else_branch) => Ok(
                                    StmtView::If {
                                        condition,
                                        then_branch: Box::new(then_branch),
                                        else_branch: Some(Box::new(else_branch)),
                                    },
                                ),
                                Err(error) => Err(error),
                            },
                            next: other.next,
                            reports: then.reports + other.reports,
                        }
                    } else {
                        stuck(tokens, then.next)
                    },
                }
            } else {
                stuck(tokens, head.next)
            },
        }
    }
}

/// program → declaration* EOF
///
/// The declarations from `pos` on, after those in `before`.
pub open spec fn program(tokens: Seq<TokenView>, before: Seq<StmtView>, pos: int) -> Parsed<
    Seq<StmtView>,
>
    decreases tokens.len() - pos,
{
    if !follows(tokens, 0, pos) || at_end(tokens, pos) {
        succeeds(before, pos)
    } else {
        let declared = declaration(tokens, pos);
        if pos < declared.next <= tokens.len() {
            let rest = program(tokens, extended(before, declared), declared.next);
            Parsed {
                outcome: rest.outcome,
                next: rest.next,
                reports: declared.reports + rest.reports,
            }
        } else {
            Parsed { outcome: Ok(before), next: declared.next, reports: declared.reports }
        }
    }
}

/// A parse has ended inside the tokens and not before where it began.
pub open spec fn ends_inside<T>(parsed: Parsed<T>, tokens: Seq<TokenView>, pos: int) -> bool {
    pos <= parsed.next <= tokens.len()
}

/// A parse has ended inside the tokens, not before where it began, and
/// after where it began if it succeeded.
pub open spec fn ends_well<T>(parsed: Parsed<T>, tokens: Seq<TokenView>, pos: int) -> bool {
    ends_inside(parsed, tokens, pos) && (parsed.outcome is Ok ==> pos < parsed.next)
}

/// Every expression that is parsed ends inside the tokens, and an
/// expression that is parsed with success has read at least one token. So
/// has every other phrase of the expression grammar.
pub proof fn expression_ends_well(tokens: Seq<TokenView>, pos: int)
    requires
        0 <= pos <= tokens.len(),
    ensures
        ends_well(expression(tokens, pos), tokens, pos),
    decreases tokens.len() - pos, 10int,
{
    assignment_ends_well(tokens, pos);
}

pub proof fn assignment_ends_well(tokens: Seq<TokenView>, pos: int)
    requires
        0 <= pos <= tokens.len(),
    ensures
        ends_well(assignment(tokens, pos), tokens, pos),
    decreases tokens.len() - pos, 9int,
{
    binary_ends_well(tokens, 0, pos);
    let target = binary(tokens, 0, pos);
    if target.outcome is Ok && check(tokens, target.next, TokenType::EQUAL) {
        assignment_ends_well(tokens, target.next + 1);
    }
}

pub proof fn binary_ends_well(tokens: Seq<TokenView>, level: int, pos: int)
    requires
        0 <= pos <= tokens.len(),
        0 <= level <= 5,
    ensures
        ends_well(binary(tokens, level, pos), tokens, pos),
    decreases tokens.len() - pos, 8 - level,
{
    if level == 5 {
        unary_ends_well(tokens, pos);
    } else {
        binary_ends_well(tokens, level + 1, pos);
    }
    let first = if level == 5 {
        unary(tokens, pos)
    } else {
        binary(tokens, level + 1, pos)
    };
    if first.outcome is Ok {
        binary_rest_ends_inside(tokens, level, first.outcome->Ok_0, first.next);
    }
}

pub proof fn binary_rest_ends_inside(tokens: Seq<TokenView>, level: int, left: ExprView, pos: int)
    requires
        0 <= pos <= tokens.len(),
        0 <= level <= 5,
    ensures
        ends_inside(binary_rest(tokens, level, left, pos), tokens, pos),
    decreases tokens.len() - pos, 0int,
{
    if !at_end(tokens, pos) && operator_of(level, kind_at(tokens, pos)) {
        if level == 5 {
            unary_ends_well(tokens, pos + 1);
        } else {
            binary_ends_well(tokens, level + 1, pos + 1);
        }
        let operand = if level == 5 {
            unary(tokens, pos + 1)
        } else {
            binary(tokens, level + 1, pos + 1)
        };
        if operand.outcome is Ok {
            binary_rest_ends_inside(
                tokens,
                level,
                combine(level, left, tokens[pos], operand.outcome->Ok_0),
                operand.next,
            );
        }
    }
}

pub proof fn unary_ends_well(tokens: Seq<TokenView>, pos: int)
    requires
        0 <= pos <= tokens.len(),
    ensures
        ends_well(unary(tokens, pos), tokens, pos),
    decreases tokens.len() - pos, 2int,
{
    if check(tokens, pos, TokenType::BANG) || check(tokens, pos, TokenType::MINUS) {
        unary_ends_well(tokens, pos + 1);
    } else {
        call_ends_well(tokens, pos);
    }
}

pub proof fn call_ends_well(tokens: Seq<TokenView>, pos: int)
    requires
        0 <= pos <= tokens.len(),
    ensures
        ends_well(call(tokens, pos), tokens, pos),
    decreases tokens.len() - pos, 1int,
{
    primary_ends_well(tokens, pos);
    let callee = primary(tokens, pos);
    if callee.outcome is Ok {
        call_rest_ends_inside(tokens, callee.outcome->Ok_0, callee.next);
    }
}

pub proof fn call_rest_ends_inside(tokens: Seq<TokenView>, callee: ExprView, pos: int)
    requires
        0 <= pos <= tokens.len(),
    ensures
        ends_inside(call_rest(tokens, callee, pos), tokens, pos),
    decreases tokens.len() - pos, 0int,
{
    if check(tokens, pos, TokenType::LEFT_PAREN) {
        finish_call_ends_well(tokens, callee, pos + 1);
        let made = finish_call(tokens, callee, pos + 1);
        if made.outcome is Ok {
            call_rest_ends_inside(tokens, made.outcome->Ok_0, made.next);
        }
    }
}

pub proof fn finish_call_ends_well(tokens: Seq<TokenView>, callee: ExprView, pos: int)
    requires
        0 <= pos <= tokens.len(),
    ensures
        ends_well(finish_call(tokens, callee, pos), tokens, pos),
    decreases tokens.len() - pos, 12int,
{
    if !check(tokens, pos, TokenType::RIGHT_PAREN) {
        arguments_rest_ends_well(tokens, Seq::empty(), pos);
    }
}

pub proof fn arguments_rest_ends_well(tokens: Seq<TokenView>, before: Seq<ExprView>, pos: int)
    requires
        0 <= pos <= tokens.len(),
    ensures
        ends_well(arguments_rest(tokens, before, pos), tokens, pos),
    decreases tokens.len() - pos, 11int,
{
    if before.len() < MAX_ARITY {
        expression_ends_well(tokens, pos);
        let argument = expression(tokens, pos);
        if argument.outcome is Ok && check(tokens, argument.next, TokenType::COMMA) {
            arguments_rest_ends_well(
                tokens,
                before.push(argument.outcome->Ok_0),
                argument.next + 1,
            );
        }
    }
}

pub proof fn primary_ends_well(tokens: Seq<TokenView>, pos: int)
    requires
        0 <= pos <= tokens.len(),
    ensures
        ends_well(primary(tokens, pos), tokens, pos),
    decreases tokens.len() - pos, 0int,
{
    if check(tokens, pos, TokenType::LEFT_PAREN) {
        expression_ends_well(tokens, pos + 1);
    }
}

/// A condition, a terminated expression and the statements that are made
/// of one expression end well.
pub proof fn simple_statements_end_well(
    tokens: Seq<TokenView>,
    pos: int,
    before: Seq<char>,
    behind: Seq<char>,
)
    requires
        0 <= pos <= tokens.len(),
    ensures
        ends_well(condition(tokens, pos, before, behind), tokens, pos),
        ends_well(terminated(tokens, pos), tokens, pos),
        ends_well(expression_statement(tokens, pos), tokens, pos),
        ends_well(print_statement(tokens, pos), tokens, pos),
        ends_well(var_declaration(tokens, pos), tokens, pos),
        condition(tokens, pos, before, behind).reports.len() == 0,
        terminated(tokens, pos).reports.len() == 0,
        expression_statement(tokens, pos).reports.len() == 0,
        print_statement(tokens, pos).reports.len() == 0,
        var_declaration(tokens, pos).reports.len() == 0,
{
    expression_ends_well(tokens, pos);
    if pos < tokens.len() {
        expression_ends_well(tokens, pos + 1);
        if pos + 1 < tokens.len() {
            expression_ends_well(tokens, pos + 2);
        }
    }
}

pub proof fn parameters_rest_ends_well(tokens: Seq<TokenView>, before: Seq<TokenView>, pos: int)
    requires
        0 <= pos <= tokens.len(),
    ensures
        ends_well(parameters_rest(tokens, before, pos), tokens, pos),
    decreases tokens.len() - pos,
{
    if check(tokens, pos, TokenType::IDENTIFIER) && check(tokens, pos + 1, TokenType::COMMA) {
        parameters_rest_ends_well(tokens, before.push(tokens[pos]), pos + 2);
    }
}

pub proof fn signature_ends_well(tokens: Seq<TokenView>, pos: int)
    requires
        0 <= pos <= tokens.len(),
    ensures
        ends_well(signature(tokens, pos), tokens, pos),
{
    if pos + 2 <= tokens.len() {
        parameters_rest_ends_well(tokens, Seq::empty(), pos + 2);
    }
}

pub proof fn optional_clause_ends_well(
    tokens: Seq<TokenView>,
    pos: int,
    end: TokenType,
    message: Seq<char>,
)
    requires
        0 <= pos <= tokens.len(),
    ensures
        ends_well(optional_clause(tokens, pos, end, message), tokens, pos),
        optional_clause(tokens, pos, end, message).reports.len() == 0,
{
    expression_ends_well(tokens, pos);
}

pub proof fn clauses_end_well(tokens: Seq<TokenView>, pos: int)
    requires
        0 <= pos <= tokens.len(),
    ensures
        ends_well(clauses(tokens, pos), tokens, pos),
        clauses(tokens, pos).reports.len() == 0,
{
    let open = consume(tokens, pos, TokenType::LEFT_PAREN, "Expect '(' after 'for'."@);
    if open.outcome is Ok {
        let message = "Expect ';' after value."@;
        simple_statements_end_well(tokens, open.next, message, message);
        if open.next < tokens.len() {
            simple_statements_end_well(tokens, open.next + 1, message, message);
        }
        let initializer = for_initializer(tokens, open.next);
        if initializer.outcome is Ok {
            optional_clause_ends_well(
                tokens,
                initializer.next,
                TokenType::SEMICOLON,
                "Expect ';' after loop condition."@,
            );
            let condition = optional_clause(
                tokens,
                initializer.next,
                TokenType::SEMICOLON,
                "Expect ';' after loop condition."@,
            );
            if condition.outcome is Ok {
                optional_clause_ends_well(
                    tokens,
                    condition.next,
                    TokenType::RIGHT_PAREN,
                    "Expect ')' after for clauses."@,
                );
            }
        }
    }
}

/// Skipping to the next place where a statement may start ends inside the
/// tokens and not before where it began.
pub proof fn skip_ends_inside(tokens: Seq<TokenView>, pos: int)
    requires
        0 <= pos <= tokens.len(),
    ensures
        pos <= skip(tokens, pos) <= tokens.len(),
    decreases tokens.len() - pos,
{
    if !(pos < 1 || pos >= tokens.len() || at_end(tokens, pos)) && kind_at(tokens, pos - 1)
        != TokenType::SEMICOLON && !starts_statement(kind_at(tokens, pos)) {
        skip_ends_inside(tokens, pos + 1);
    }
}

/// Every declaration that does not start at the end of the input reads at
/// least one token, whether it is parsed with success or dropped for an
/// error; so every program and every block is parsed to its end.
pub proof fn declaration_moves_on(tokens: Seq<TokenView>, pos: int)
    requires
        0 <= pos <= tokens.len(),
    ensures
        pos <= declaration(tokens, pos).next <= tokens.len(),
        !at_end(tokens, pos) ==> pos < declaration(tokens, pos).next,
    decreases tokens.len() - pos, 3int,
{
    let message = "Expect ';' after value."@;
    let parsed = if check(tokens, pos, TokenType::FUN) {
        function_ends_well(tokens, pos + 1);
        function(tokens, pos + 1)
    } else if check(tokens, pos, TokenType::VAR) {
        simple_statements_end_well(tokens, pos + 1, message, message);
        var_declaration(tokens, pos + 1)
    } else {
        statement_ends_well(tokens, pos);
        statement(tokens, pos)
    };
    if parsed.outcome is Err {
        if !at_end(tokens, parsed.next) {
            skip_ends_inside(tokens, parsed.next + 1);
        }
    }
}

pub proof fn function_ends_well(tokens: Seq<TokenView>, pos: int)
    requires
        0 <= pos <= tokens.len(),
    ensures
        ends_well(function(tokens, pos), tokens, pos),
    decreases tokens.len() - pos, 5int,
{
    signature_ends_well(tokens, pos);
    let head = signature(tokens, pos);
    if head.outcome is Ok {
        block_rest_ends_well(tokens, Seq::empty(), head.next);
    }
}

pub proof fn statement_ends_well(tokens: Seq<TokenView>, pos: int)
    requires
        0 <= pos <= tokens.len(),
    ensures
        ends_well(statement(tokens, pos), tokens, pos),
    decreases tokens.len() - pos, 2int,
{
    let message = "Expect ';' after value."@;
    if check(tokens, pos, TokenType::FOR) {
        for_statement_ends_well(tokens, pos + 1);
    } else if check(tokens, pos, TokenType::IF) {
        if_statement_ends_well(tokens, pos + 1);
    } else if check(tokens, pos, TokenType::WHILE) {
        while_statement_ends_well(tokens, pos + 1);
    } else if check(tokens, pos, TokenType::PRINT) {
        simple_statements_end_well(tokens, pos + 1, message, message);
    } else if check(tokens, pos, TokenType::LEFT_BRACE) {
        block_rest_ends_well(tokens, Seq::empty(), pos + 1);
    } else {
        simple_statements_end_well(tokens, pos, message, message);
    }
}

pub proof fn block_rest_ends_well(tokens: Seq<TokenView>, before: Seq<StmtView>, pos: int)
    requires
        0 <= pos <= tokens.len(),
    ensures
        ends_well(block_rest(tokens, before, pos), tokens, pos),
    decreases tokens.len() - pos, 4int,
{
    if !(check(tokens, pos, TokenType::RIGHT_BRACE) || at_end(tokens, pos)) {
        declaration_moves_on(tokens, pos);
        let declared = declaration(tokens, pos);
        block_rest_ends_well(tokens, extended(before, declared), declared.next);
    }
}

pub proof fn for_statement_ends_well(tokens: Seq<TokenView>, pos: int)
    requires
        0 <= pos <= tokens.len(),
    ensures
        ends_well(for_statement(tokens, pos), tokens, pos),
    decreases tokens.len() - pos, 5int,
{
    clauses_end_well(tokens, pos);
    let head = clauses(tokens, pos);
    if head.outcome is Ok {
        statement_ends_well(tokens, head.next);
    }
}

pub proof fn while_statement_ends_well(tokens: Seq<TokenView>, pos: int)
    requires
        0 <= pos <= tokens.len(),
    ensures
        ends_well(while_statement(tokens, pos), tokens, pos),
    decreases tokens.len() - pos, 5int,
{
    let before = "Expect '(' after 'while'."@;
    let behind = "Expect ')' after condition."@;
    simple_statements_end_well(tokens, pos, before, behind);
    let head = condition(tokens, pos, before, behind);
    if head.outcome is Ok {
        statement_ends_well(tokens, head.next);
    }
}

pub proof fn if_statement_ends_well(tokens: Seq<TokenView>, pos: int)
    requires
        0 <= pos <= tokens.len(),
    ensures
        ends_well(if_statement(tokens, pos), tokens, pos),
    decreases tokens.len() - pos, 5int,
{
    let before = "Expect '(' after 'if'."@;
    let behind = "Expect ')' after if condition."@;
    simple_statements_end_well(tokens, pos, before, behind);
    let head = condition(tokens, pos, before, behind);
    if head.outcome is Ok {
        statement_ends_well(tokens, head.next);
        let then = statement(tokens, head.next);
        if then.outcome is Ok && check(tokens, then.next, TokenType::ELSE) {
            statement_ends_well(tokens, then.next + 1);
        }
    }
}

/// A program is parsed to the end of the input: parsing stops only at the
/// end-of-file token or where the tokens run out, and always yields the
/// statements that it could parse.
pub proof fn a_program_is_parsed_to_its_end(tokens: Seq<TokenView>, before: Seq<StmtView>, pos: int)
    requires
        0 <= pos <= tokens.len(),
    ensures
        program(tokens, before, pos).outcome is Ok,
        pos <= program(tokens, before, pos).next <= tokens.len(),
        at_end(tokens, program(tokens, before, pos).next),
    decreases tokens.len() - pos,
{
    if !at_end(tokens, pos) {
        declaration_moves_on(tokens, pos);
        let declared = declaration(tokens, pos);
        a_program_is_parsed_to_its_end(tokens, extended(before, declared), declared.next);
    }
}

} // verus!
