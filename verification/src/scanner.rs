//! The lexical scanner: one pass, left to right, from characters to tokens.
//!
//! What the scanner produces is defined by `scan`, a function of the
//! source's characters and of the values that the host supplies for the
//! numeric literals, in the order in which they occur.

use vstd::prelude::*;
use vstd::string::StringExecFns;
use crate::text::{characters, string_of};
use crate::token::{Token, TokenType, TokenView, Value, ValueView, duplicate_tokens, token_views};

verus! {

/// A lexical error: the line it was met on and what was wrong.
#[derive(Debug, PartialEq)]
pub struct ScanError {
    pub line: i64,
    pub message: String,
}

pub struct ScanErrorView {
    pub line: int,
    pub message: Seq<char>,
}

impl ScanError {
    pub open spec fn view(&self) -> ScanErrorView {
        ScanErrorView { line: self.line as int, message: self.message@ }
    }
}

/// The views of a sequence of errors, one for one.
pub open spec fn scan_error_views(errors: Seq<ScanError>) -> Seq<ScanErrorView> {
    Seq::new(errors.len(), |i: int| errors[i]@)
}

pub open spec fn is_digit(c: char) -> bool {
    '0' <= c <= '9'
}

pub open spec fn is_alpha(c: char) -> bool {
    ('a' <= c <= 'z') || ('A' <= c <= 'Z') || c == '_'
}

pub open spec fn is_alpha_numeric(c: char) -> bool {
    is_digit(c) || is_alpha(c)
}

/// The keyword table.
pub open spec fn keyword(text: Seq<char>) -> Option<TokenType> {
    if text == "and"@ {
        Some(TokenType::AND)
    } else if text == "class"@ {
        Some(TokenType::CLASS)
    } else if text == "else"@ {
        Some(TokenType::ELSE)
    } else if text == "false"@ {
        Some(TokenType::FALSE)
    } else if text == "for"@ {
        Some(TokenType::FOR)
    } else if text == "fun"@ {
        Some(TokenType::FUN)
    } else if text == "if"@ {
        Some(TokenType::IF)
    } else if text == "nil"@ {
        Some(TokenType::NIL)
    } else if text == "or"@ {
        Some(TokenType::OR)
    } else if text == "print"@ {
        Some(TokenType::PRINT)
    } else if text == "return"@ {
        Some(TokenType::RETURN)
    } else if text == "super"@ {
        Some(TokenType::SUPER)
    } else if text == "this"@ {
        Some(TokenType::THIS)
    } else if text == "true"@ {
        Some(TokenType::TRUE)
    } else if text == "var"@ {
        Some(TokenType::VAR)
    } else if text == "while"@ {
        Some(TokenType::WHILE)
    } else {
        None
    }
}

/// The line counter after one more newline. It stops at the largest value
/// that a token can carry.
pub open spec fn next_line(line: int) -> int {
    if line < i64::MAX {
        line + 1
    } else {
        line
    }
}

/// The line counter after the characters `src[from..to]`, when it stood at
/// `line` before them: one step for every newline among them.
pub open spec fn line_after(src: Seq<char>, from: int, to: int, line: int) -> int
    decreases to - from,
{
    if to <= from {
        line
    } else if src[to - 1] == '\n' {
        next_line(line_after(src, from, to - 1, line))
    } else {
        line_after(src, from, to - 1, line)
    }
}

/// The first position at or after `pos` that holds no digit.
pub open spec fn digits_end(src: Seq<char>, pos: int) -> int
    decreases src.len() - pos,
{
    if 0 <= pos < src.len() && is_digit(src[pos]) {
        digits_end(src, pos + 1)
    } else {
        pos
    }
}

/// The first position at or after `pos` that holds no letter, digit or
/// underscore.
pub open spec fn word_end(src: Seq<char>, pos: int) -> int
    decreases src.len() - pos,
{
    if 0 <= pos < src.len() && is_alpha_numeric(src[pos]) {
        word_end(src, pos + 1)
    } else {
        pos
    }
}

/// The first position at or after `pos` that holds a newline, or the end of
/// the source.
pub open spec fn comment_end(src: Seq<char>, pos: int) -> int
    decreases src.len() - pos,
{
    if 0 <= pos < src.len() && src[pos] != '\n' {
        comment_end(src, pos + 1)
    } else {
        pos
    }
}

/// The first position at or after `pos` that holds a double quote, or the
/// end of the source.
pub open spec fn string_end(src: Seq<char>, pos: int) -> int
    decreases src.len() - pos,
{
    if 0 <= pos < src.len() && src[pos] != '"' {
        string_end(src, pos + 1)
    } else {
        pos
    }
}

/// Where the numeric literal that starts at `pos` ends: after its digits,
/// and after a dot and more digits if a digit follows the dot.
pub open spec fn number_end(src: Seq<char>, pos: int) -> int {
    let whole = digits_end(src, pos);
    if 0 <= whole && whole + 1 < src.len() && src[whole] == '.' && is_digit(src[whole + 1]) {
        digits_end(src, whole + 1)
    } else {
        whole
    }
}

/// What one lexeme contributes.
pub enum LexemeKind {
    /// Whitespace, a newline or a comment.
    Skip,
    /// A token without a literal value.
    Plain(TokenType),
    /// A string literal.
    Text,
    /// A numeric literal.
    Number,
    /// A string that the source ends in the middle of.
    Unterminated,
    /// A character that starts no lexeme.
    Unexpected,
}

/// One lexeme: where it ends, the line counter after it, what it is.
pub struct Lexeme {
    pub end: int,
    pub line: int,
    pub kind: LexemeKind,
}

/// The token kind of `first`, or of `first` and `second` together where the
/// character after `first` is `=`: the longer token wins.
pub open spec fn one_or_two(
    src: Seq<char>,
    pos: int,
    line: int,
    first: TokenType,
    second: TokenType,
) -> Lexeme {
    if pos + 1 < src.len() && src[pos + 1] == '=' {
        Lexeme { end: pos + 2, line, kind: LexemeKind::Plain(second) }
    } else {
        Lexeme { end: pos + 1, line, kind: LexemeKind::Plain(first) }
    }
}

pub open spec fn single(pos: int, line: int, ttype: TokenType) -> Lexeme {
    Lexeme { end: pos + 1, line, kind: LexemeKind::Plain(ttype) }
}

/// The lexeme that starts at `pos`, a position inside the source.
pub open spec fn lexeme_at(src: Seq<char>, pos: int, line: int) -> Lexeme {
    let c = src[pos];
    if c == '(' {
        single(pos, line, TokenType::LEFT_PAREN)
    } else if c == ')' {
        single(pos, line, TokenType::RIGHT_PAREN)
    } else if c == '{' {
        single(pos, line, TokenType::LEFT_BRACE)
    } else if c == '}' {
        single(pos, line, TokenType::RIGHT_BRACE)
    } else if c == ',' {
        single(pos, line, TokenType::COMMA)
    } else if c == '.' {
        single(pos, line, TokenType::DOT)
    } else if c == '-' {
        single(pos, line, TokenType::MINUS)
    } else if c == '+' {
        single(pos, line, TokenType::PLUS)
    } else if c == ';' {
        single(pos, line, TokenType::SEMICOLON)
    } else if c == '*' {
        single(pos, line, TokenType::STAR)
    } else if c == '!' {
        one_or_two(src, pos, line, TokenType::BANG, TokenType::BANG_EQUAL)
    } else if c == '=' {
        one_or_two(src, pos, line, TokenType::EQUAL, TokenType::EQUAL_EQUAL)
    } else if c == '<' {
        one_or_two(src, pos, line, TokenType::LESS, TokenType::LESS_EQUAL)
    } else if c == '>' {
        one_or_two(src, pos, line, TokenType::GREATER, TokenType::GREATER_EQUAL)
    } else if c == '/' {
        if pos + 1 < src.len() && src[pos + 1] == '/' {
            Lexeme { end: comment_end(src, pos + 2), line, kind: LexemeKind::Skip }
        } else {
            single(pos, line, TokenType::SLASH)
        }
    } else if c == ' ' || c == '\r' || c == '\t' {
        Lexeme { end: pos + 1, line, kind: LexemeKind::Skip }
    } else if c == '\n' {
        Lexeme { end: pos + 1, line: next_line(line), kind: LexemeKind::Skip }
    } else if c == '"' {
        let close = string_end(src, pos + 1);
        if close < src.len() {
            Lexeme {
                end: close + 1,
                line: line_after(src, pos + 1, close, line),
                kind: LexemeKind::Text,
            }
        } else {
            Lexeme {
                end: close,
                line: line_after(src, pos + 1, close, line),
                kind: LexemeKind::Unterminated,
            }
        }
    } else if is_digit(c) {
        Lexeme { end: number_end(src, pos), line, kind: LexemeKind::Number }
    } else if is_alpha(c) {
        let end = word_end(src, pos);
        let ttype = match keyword(src.subrange(pos, end)) {
            Some(k) => k,
            None => TokenType::IDENTIFIER,
        };
        Lexeme { end, line, kind: LexemeKind::Plain(ttype) }
    } else {
        Lexeme { end: pos + 1, line, kind: LexemeKind::Unexpected }
    }
}

/// The token that a lexeme adds, if it adds one. A numeric literal takes
/// its value from `numbers[used]`; where the host supplied no such value the
/// token has no literal.
pub open spec fn token_of(
    src: Seq<char>,
    pos: int,
    lexeme: Lexeme,
    numbers: Seq<u64>,
    used: int,
) -> Option<TokenView> {
    let text = src.subrange(pos, lexeme.end);
    match lexeme.kind {
        LexemeKind::Plain(ttype) => Some(
            TokenView { ttype, lexeme: text, literal: None, line: lexeme.line },
        ),
        LexemeKind::Text => Some(
            TokenView {
                ttype: TokenType::STRING,
                lexeme: text,
                literal: Some(
                    ValueView::String { value: src.subrange(pos + 1, lexeme.end - 1) },
                ),
                line: lexeme.line,
            },
        ),
        LexemeKind::Number => Some(
            TokenView {
                ttype: TokenType::NUMBER,
                lexeme: text,
                literal: if 0 <= used < numbers.len() {
                    Some(ValueView::Double { value: numbers[used] })
                } else {
                    None
                },
                line: lexeme.line,
            },
        ),
        _ => None,
    }
}

/// The error that a lexeme adds, if it adds one.
pub open spec fn error_of(lexeme: Lexeme) -> Option<ScanErrorView> {
    match lexeme.kind {
        LexemeKind::Unterminated => Some(
            ScanErrorView { line: lexeme.line, message: "Unterminated string."@ },
        ),
        LexemeKind::Unexpected => Some(
            ScanErrorView { line: lexeme.line, message: "Unexpected character."@ },
        ),
        _ => None,
    }
}

/// How many of the host's numbers have been used after a lexeme.
pub open spec fn used_after(lexeme: Lexeme, numbers: Seq<u64>, used: int) -> int {
    if lexeme.kind is Number && used < numbers.len() {
        used + 1
    } else {
        used
    }
}

/// The result of a scan: the tokens, and the errors met on the way.
pub struct Scan {
    pub tokens: Seq<TokenView>,
    pub errors: Seq<ScanErrorView>,
}

/// The token that ends every scan.
pub open spec fn end_of_file(line: int) -> TokenView {
    TokenView { ttype: TokenType::EOF, lexeme: Seq::empty(), literal: None, line }
}

/// Every lexeme ends after the position it starts at, and inside the source.
pub proof fn lexeme_advances(src: Seq<char>, pos: int, line: int)
    requires
        0 <= pos < src.len(),
    ensures
        pos < lexeme_at(src, pos, line).end <= src.len(),
{
    span_bounds(src, pos);
    span_bounds(src, pos + 1);
    if pos + 2 <= src.len() {
        span_bounds(src, pos + 2);
    }
    let whole = digits_end(src, pos);
    if whole + 1 <= src.len() {
        span_bounds(src, whole + 1);
    }
}

/// The four kinds of span end at or after their start, inside the source.
pub proof fn span_bounds(src: Seq<char>, pos: int)
    requires
        0 <= pos <= src.len(),
    ensures
        pos <= digits_end(src, pos) <= src.len(),
        pos <= word_end(src, pos) <= src.len(),
        pos <= comment_end(src, pos) <= src.len(),
        pos <= string_end(src, pos) <= src.len(),
    decreases src.len() - pos,
{
    if pos < src.len() {
        span_bounds(src, pos + 1);
    }
}

/// The scan of the source from `pos` on, with the line counter at `line`
/// and `used` of the host's numbers taken: the tokens in source order, then
/// the end-of-file token on the line that the counter has reached.
pub open spec fn scan_from(src: Seq<char>, pos: int, line: int, numbers: Seq<u64>, used: int) -> Scan
    decreases src.len() - pos,
{
    if 0 <= pos < src.len() {
        let lexeme = lexeme_at(src, pos, line);
        proof {
            lexeme_advances(src, pos, line);
        }
        let rest = scan_from(src, lexeme.end, lexeme.line, numbers, used_after(lexeme, numbers, used));
        Scan {
            tokens: match token_of(src, pos, lexeme, numbers, used) {
                Some(token) => seq![token] + rest.tokens,
                None => rest.tokens,
            },
            errors: match error_of(lexeme) {
                Some(error) => seq![error] + rest.errors,
                None => rest.errors,
            },
        }
    } else {
        Scan { tokens: seq![end_of_file(line)], errors: Seq::empty() }
    }
}

/// The scan of a whole source: from its first character, on line 1.
pub open spec fn scan(src: Seq<char>, numbers: Seq<u64>) -> Scan {
    scan_from(src, 0, 1, numbers, 0)
}

/// The lexemes of the numeric literals among the first `upto` tokens, in
/// order.
pub open spec fn number_texts(tokens: Seq<TokenView>, upto: int) -> Seq<Seq<char>>
    decreases upto,
{
    if upto <= 0 {
        Seq::empty()
    } else if tokens[upto - 1].ttype == TokenType::NUMBER {
        number_texts(tokens, upto - 1).push(tokens[upto - 1].lexeme)
    } else {
        number_texts(tokens, upto - 1)
    }
}

/// The views of a sequence of strings, one for one.
pub open spec fn texts(strings: Seq<String>) -> Seq<Seq<char>> {
    Seq::new(strings.len(), |i: int| strings[i]@)
}

/// The lexemes of the numeric literals of a source, in the order in which
/// they occur: what the host is to read as doubles and hand to
/// `Scanner::with_numbers`.
pub fn number_lexemes(source: &str) -> (lexemes: Vec<String>)
    ensures
        texts(lexemes@) == number_texts(
            scan(source@, Seq::empty()).tokens,
            scan(source@, Seq::empty()).tokens.len() as int,
        ),
{
    let mut scanner = Scanner::new(source);
    let tokens = scanner.scan_tokens();
    let mut lexemes: Vec<String> = Vec::new();
    let mut i: usize = 0;
    proof {
        assert(texts(lexemes@) =~= Seq::<Seq<char>>::empty());
    }
    while i < tokens.len()
        invariant
            i <= tokens.len(),
            texts(lexemes@) == number_texts(token_views(tokens@), i as int),
        decreases tokens.len() - i,
    {
        if tokens[i].ttype == TokenType::NUMBER {
            let ghost before = texts(lexemes@);
            lexemes.push(tokens[i].lexeme.clone());
            proof {
                assert(texts(lexemes@) =~= before.push(tokens[i as int].lexeme@));
                assert(token_views(tokens@)[i as int] == tokens[i as int]@);
            }
        } else {
            proof {
                assert(token_views(tokens@)[i as int] == tokens[i as int]@);
            }
        }
        i += 1;
    }
    lexemes
}

pub struct Scanner {
    source: Vec<char>,
    numbers: Vec<u64>,
    used: usize,
    start: usize,
    current: usize,
    line: i64,
    tokens: Vec<Token>,
    errors: Vec<ScanError>,
}

impl Scanner {
    /// The characters that the scanner reads.
    pub closed spec fn text(&self) -> Seq<char> {
        self.source@
    }

    /// The values that the host supplied for the numeric literals.
    pub closed spec fn number_values(&self) -> Seq<u64> {
        self.numbers@
    }

    /// The errors of the last scan.
    pub closed spec fn reported(&self) -> Seq<ScanErrorView> {
        scan_error_views(self.errors@)
    }

    spec fn well_formed(&self) -> bool {
        &&& self.start <= self.current <= self.source.len()
        &&& 1 <= self.line
        &&& self.used <= self.numbers.len()
    }

    /// What is still to come equals the scan from here; what has been
    /// collected, followed by it, is the whole scan.
    spec fn collected(&self, total: Scan) -> bool {
        let rest = scan_from(
            self.source@,
            self.current as int,
            self.line as int,
            self.numbers@,
            self.used as int,
        );
        &&& token_views(self.tokens@) + rest.tokens == total.tokens
        &&& scan_error_views(self.errors@) + rest.errors == total.errors
    }

    /// A scanner for `source` that has no values for numeric literals: it
    /// gives each NUMBER token its lexeme and no literal.
    pub fn new(source: &str) -> (scanner: Scanner)
        ensures
            scanner.text() == source@,
            scanner.number_values() == Seq::<u64>::empty(),
    {
        Scanner {
            source: characters(source),
            numbers: Vec::new(),
            used: 0,
            start: 0,
            current: 0,
            line: 1,
            tokens: Vec::new(),
            errors: Vec::new(),
        }
    }

    /// A scanner for `source` that gives the numeric literals the values
    /// `numbers`, in the order in which the literals occur: the bit patterns
    /// of the doubles that the host read them as.
    pub fn with_numbers(source: &str, numbers: Vec<u64>) -> (scanner: Scanner)
        ensures
            scanner.text() == source@,
            scanner.number_values() == numbers@,
    {
        Scanner {
            source: characters(source),
            numbers,
            used: 0,
            start: 0,
            current: 0,
            line: 1,
            tokens: Vec::new(),
            errors: Vec::new(),
        }
    }

    /// Scans the whole source and returns its tokens. The last token, and no
    /// other, is the end-of-file token; its line is the line counter after
    /// the whole source.
    pub fn scan_tokens(&mut self) -> (tokens: Vec<Token>)
        ensures
            final(self).text() == old(self).text(),
            final(self).number_values() == old(self).number_values(),
            token_views(tokens@) == scan(old(self).text(), old(self).number_values()).tokens,
            final(self).reported() == scan(old(self).text(), old(self).number_values()).errors,
            tokens.len() >= 1,
            tokens[tokens.len() - 1]@ == end_of_file(
                line_after(old(self).text(), 0, old(self).text().len() as int, 1),
            ),
            forall|i: int| 0 <= i < tokens.len() - 1 ==> tokens[i].ttype != TokenType::EOF,
    {
        self.start = 0;
        self.current = 0;
        self.line = 1;
        self.used = 0;
        self.tokens = Vec::new();
        self.errors = Vec::new();
        let ghost total = scan(self.source@, self.numbers@);
        proof {
            assert(token_views(self.tokens@) + total.tokens =~= total.tokens);
            assert(scan_error_views(self.errors@) + total.errors =~= total.errors);
        }
        loop
            invariant
                self.well_formed(),
                self.collected(total),
                self.source@ == old(self).source@,
                self.numbers@ == old(self).numbers@,
            ensures
                self.well_formed(),
                self.collected(total),
                self.source@ == old(self).source@,
                self.numbers@ == old(self).numbers@,
                self.current >= self.source.len(),
            decreases self.source.len() - self.current,
        {
            if self.is_at_end() {
                break ;
            }
            self.start = self.current;
            let ghost before = *self;
            proof {
                lexeme_advances(self.source@, self.current as int, self.line as int);
            }
            self.scan_token();
            proof {
                let src = self.source@;
                let lexeme = lexeme_at(src, before.current as int, before.line as int);
                let rest = scan_from(
                    src,
                    self.current as int,
                    self.line as int,
                    self.numbers@,
                    self.used as int,
                );
                let here = scan_from(
                    src,
                    before.current as int,
                    before.line as int,
                    before.numbers@,
                    before.used as int,
                );
                match token_of(src, before.current as int, lexeme, self.numbers@, before.used as int) {
                    Some(token) => {
                        assert(token_views(self.tokens@) =~= token_views(before.tokens@).push(token));
                        assert(token_views(self.tokens@) + rest.tokens =~= token_views(
                            before.tokens@,
                        ) + here.tokens);
                    },
                    None => {
                        assert(token_views(self.tokens@) =~= token_views(before.tokens@));
                    },
                }
                match error_of(lexeme) {
                    Some(error) => {
                        assert(scan_error_views(self.errors@) =~= scan_error_views(
                            before.errors@,
                        ).push(error));
                        assert(scan_error_views(self.errors@) + rest.errors =~= scan_error_views(
                            before.errors@,
                        ) + here.errors);
                    },
                    None => {
                        assert(scan_error_views(self.errors@) =~= scan_error_views(before.errors@));
                    },
                }
            }
        }
        let ghost collected = token_views(self.tokens@);
        self.tokens.push(
            Token { ttype: TokenType::EOF, lexeme: String::new(), literal: None, line: self.line },
        );
        proof {
            assert(token_views(self.tokens@) =~= collected.push(end_of_file(self.line as int)));
            assert(token_views(self.tokens@) =~= total.tokens);
            assert(scan_error_views(self.errors@) =~= total.errors);
            scan_ends_with_end_of_file(self.source@, 0, 1, self.numbers@, 0);
            let last = self.tokens.len() - 1;
            assert(token_views(self.tokens@)[last] == self.tokens[last]@);
            assert forall|i: int| 0 <= i < self.tokens.len() - 1 implies self.tokens[i].ttype
                != TokenType::EOF by {
                assert(token_views(self.tokens@)[i] == self.tokens[i]@);
            }
        }
        let tokens = duplicate_tokens(&self.tokens);
        proof {
            assert(token_views(tokens@).len() == tokens.len());
            let last = tokens.len() - 1;
            assert(token_views(tokens@)[last] == tokens[last]@);
            assert forall|i: int| 0 <= i < tokens.len() - 1 implies tokens[i].ttype
                != TokenType::EOF by {
                assert(token_views(tokens@)[i] == tokens[i]@);
            }
        }
        tokens
    }

    /// The errors that the last scan met, in source order.
    pub fn errors(&self) -> (errors: Vec<ScanError>)
        ensures
            scan_error_views(errors@) == self.reported(),
    {
        let mut errors: Vec<ScanError> = Vec::new();
        let mut i: usize = 0;
        while i < self.errors.len()
            invariant
                i <= self.errors.len(),
                errors.len() == i,
                forall|j: int| 0 <= j < i ==> errors[j]@ == self.errors[j]@,
            decreases self.errors.len() - i,
        {
            errors.push(
                ScanError { line: self.errors[i].line, message: self.errors[i].message.clone() },
            );
            i += 1;
        }
        assert(scan_error_views(errors@) =~= scan_error_views(self.errors@));
        errors
    }

    /// Scans the lexeme that starts at the current position.
    fn scan_token(&mut self)
        requires
            old(self).well_formed(),
            old(self).start == old(self).current,
            old(self).current < old(self).source.len(),
        ensures
            final(self).well_formed(),
            final(self).source@ == old(self).source@,
            final(self).numbers@ == old(self).numbers@,
            final(self).start == old(self).start,
            ({
                let src = old(self).source@;
                let pos = old(self).current as int;
                let lexeme = lexeme_at(src, pos, old(self).line as int);
                &&& final(self).current == lexeme.end
                &&& final(self).line == lexeme.line
                &&& final(self).used == used_after(lexeme, old(self).numbers@, old(self).used as int)
                &&& token_views(final(self).tokens@) == match token_of(
                    src,
                    pos,
                    lexeme,
                    old(self).numbers@,
                    old(self).used as int,
                ) {
                    Some(token) => token_views(old(self).tokens@).push(token),
                    None => token_views(old(self).tokens@),
                }
                &&& scan_error_views(final(self).errors@) == match error_of(lexeme) {
                    Some(error) => scan_error_views(old(self).errors@).push(error),
                    None => scan_error_views(old(self).errors@),
                }
            }),
    {
        let c = self.advance();
        if c == '(' {
            self.add_token_no_literal(TokenType::LEFT_PAREN);
        } else if c == ')' {
            self.add_token_no_literal(TokenType::RIGHT_PAREN);
        } else if c == '{' {
            self.add_token_no_literal(TokenType::LEFT_BRACE);
        } else if c == '}' {
            self.add_token_no_literal(TokenType::RIGHT_BRACE);
        } else if c == ',' {
            self.add_token_no_literal(TokenType::COMMA);
        } else if c == '.' {
            self.add_token_no_literal(TokenType::DOT);
        } else if c == '-' {
            self.add_token_no_literal(TokenType::MINUS);
        } else if c == '+' {
            self.add_token_no_literal(TokenType::PLUS);
        } else if c == ';' {
            self.add_token_no_literal(TokenType::SEMICOLON);
        } else if c == '*' {
            self.add_token_no_literal(TokenType::STAR);
        } else if c == '!' {
            if self.is_match('=') {
                self.add_token_no_literal(TokenType::BANG_EQUAL);
            } else {
                self.add_token_no_literal(TokenType::BANG);
            }
        } else if c == '=' {
            if self.is_match('=') {
                self.add_token_no_literal(TokenType::EQUAL_EQUAL);
            } else {
                self.add_token_no_literal(TokenType::EQUAL);
            }
        } else if c == '<' {
            if self.is_match('=') {
                self.add_token_no_literal(TokenType::LESS_EQUAL);
            } else {
                self.add_token_no_literal(TokenType::LESS);
            }
        } else if c == '>' {
            if self.is_match('=') {
                self.add_token_no_literal(TokenType::GREATER_EQUAL);
            } else {
                self.add_token_no_literal(TokenType::GREATER);
            }
        } else if c == '/' {
            if self.is_match('/') {
                while self.peek() != '\n' && !self.is_at_end()
                    invariant
                        self.well_formed(),
                        self.source@ == old(self).source@,
                        self.numbers@ == old(self).numbers@,
                        self.start == old(self).start,
                        self.line == old(self).line,
                        self.used == old(self).used,
                        self.tokens@ == old(self).tokens@,
                        self.errors@ == old(self).errors@,
                        old(self).current + 2 <= self.current,
                        comment_end(self.source@, self.current as int) == comment_end(
                            old(self).source@,
                            old(self).current + 2,
                        ),
                    decreases self.source.len() - self.current,
                {
                    self.advance();
                }
            } else {
                self.add_token_no_literal(TokenType::SLASH);
            }
        } else if c == ' ' || c == '\r' || c == '\t' {
        } else if c == '\n' {
            self.next_line();
        } else if c == '"' {
            self.string();
        } else if Self::is_digit(c) {
            self.number();
        } else if Self::is_alpha(c) {
            self.identifier();
        } else {
            self.report("Unexpected character.");
        }
    }

    /// Scans the rest of a string literal, whose opening quote has just been
    /// read. The literal may run over several lines.
    fn string(&mut self)
        requires
            old(self).well_formed(),
            old(self).current == old(self).start + 1,
            old(self).source[old(self).start as int] == '"',
        ensures
            final(self).well_formed(),
            final(self).source@ == old(self).source@,
            final(self).numbers@ == old(self).numbers@,
            final(self).start == old(self).start,
            final(self).used == old(self).used,
            ({
                let src = old(self).source@;
                let pos = old(self).start as int;
                let lexeme = lexeme_at(src, pos, old(self).line as int);
                &&& final(self).current == lexeme.end
                &&& final(self).line == lexeme.line
                &&& token_views(final(self).tokens@) == match token_of(
                    src,
                    pos,
                    lexeme,
                    old(self).numbers@,
                    old(self).used as int,
                ) {
                    Some(token) => token_views(old(self).tokens@).push(token),
                    None => token_views(old(self).tokens@),
                }
                &&& scan_error_views(final(self).errors@) == match error_of(lexeme) {
                    Some(error) => scan_error_views(old(self).errors@).push(error),
                    None => scan_error_views(old(self).errors@),
                }
            }),
    {
        while self.peek() != '"' && !self.is_at_end()
            invariant
                self.well_formed(),
                self.source@ == old(self).source@,
                self.numbers@ == old(self).numbers@,
                self.start == old(self).start,
                self.used == old(self).used,
                self.tokens@ == old(self).tokens@,
                self.errors@ == old(self).errors@,
                old(self).start + 1 <= self.current,
                string_end(self.source@, self.current as int) == string_end(
                    old(self).source@,
                    old(self).start + 1,
                ),
                self.line == line_after(
                    self.source@,
                    old(self).start + 1,
                    self.current as int,
                    old(self).line as int,
                ),
            decreases self.source.len() - self.current,
        {
            if self.peek() == '\n' {
                self.next_line();
            }
            self.advance();
        }
        if self.is_at_end() {
            self.report("Unterminated string.");
            return ;
        }
        // The closing quote.
        self.advance();
        let value = string_of(&self.source, self.start + 1, self.current - 1);
        self.add_token(TokenType::STRING, Some(Value::String { value }));
    }

    /// Scans the rest of a numeric literal, whose first digit has just been
    /// read.
    fn number(&mut self)
        requires
            old(self).well_formed(),
            old(self).current == old(self).start + 1,
            is_digit(old(self).source[old(self).start as int]),
        ensures
            final(self).well_formed(),
            final(self).source@ == old(self).source@,
            final(self).numbers@ == old(self).numbers@,
            final(self).start == old(self).start,
            final(self).line == old(self).line,
            final(self).errors@ == old(self).errors@,
            final(self).current == number_end(old(self).source@, old(self).start as int),
            final(self).used == used_after(
                lexeme_at(old(self).source@, old(self).start as int, old(self).line as int),
                old(self).numbers@,
                old(self).used as int,
            ),
            token_views(final(self).tokens@) == token_views(old(self).tokens@).push(
                token_of(
                    old(self).source@,
                    old(self).start as int,
                    lexeme_at(old(self).source@, old(self).start as int, old(self).line as int),
                    old(self).numbers@,
                    old(self).used as int,
                )->0,
            ),
    {
        self.digits();
        if self.peek() == '.' && Self::is_digit(self.peek_next()) {
            self.advance();
            self.digits();
        }
        let literal = if self.used < self.numbers.len() {
            let value = self.numbers[self.used];
            self.used = self.used + 1;
            Some(Value::Double { value })
        } else {
            None
        };
        self.add_token(TokenType::NUMBER, literal);
    }

    /// Reads digits as long as there are any.
    fn digits(&mut self)
        requires
            old(self).well_formed(),
        ensures
            final(self).well_formed(),
            *final(self) == (Scanner {
                current: final(self).current,
                ..*old(self)
            }),
            final(self).current == digits_end(old(self).source@, old(self).current as int),
    {
        while Self::is_digit(self.peek())
            invariant
                self.well_formed(),
                *self == (Scanner { current: self.current, ..*old(self) }),
                old(self).current <= self.current,
                digits_end(self.source@, self.current as int) == digits_end(
                    old(self).source@,
                    old(self).current as int,
                ),
            decreases self.source.len() - self.current,
        {
            self.advance();
        }
    }

    /// Scans the rest of an identifier or keyword, whose first character has
    /// just been read.
    fn identifier(&mut self)
        requires
            old(self).well_formed(),
            old(self).current == old(self).start + 1,
            is_alpha(old(self).source[old(self).start as int]),
        ensures
            final(self).well_formed(),
            final(self).source@ == old(self).source@,
            final(self).numbers@ == old(self).numbers@,
            final(self).start == old(self).start,
            final(self).line == old(self).line,
            final(self).used == old(self).used,
            final(self).errors@ == old(self).errors@,
            final(self).current == word_end(old(self).source@, old(self).start as int),
            token_views(final(self).tokens@) == token_views(old(self).tokens@).push(
                token_of(
                    old(self).source@,
                    old(self).start as int,
                    lexeme_at(old(self).source@, old(self).start as int, old(self).line as int),
                    old(self).numbers@,
                    old(self).used as int,
                )->0,
            ),
    {
        while Self::is_alpha_numeric(self.peek())
            invariant
                self.well_formed(),
                *self == (Scanner { current: self.current, ..*old(self) }),
                old(self).current <= self.current,
                word_end(self.source@, self.current as int) == word_end(
                    old(self).source@,
                    old(self).start as int,
                ),
            decreases self.source.len() - self.current,
        {
            self.advance();
        }
        let text = self.current_string();
        match keyword_of(&text) {
            Some(keyword) => self.add_token_no_literal(keyword),
            None => self.add_token_no_literal(TokenType::IDENTIFIER),
        }
    }

    fn add_token_no_literal(&mut self, ttype: TokenType)
        requires
            old(self).well_formed(),
        ensures
            final(self).well_formed(),
            *final(self) == (Scanner { tokens: final(self).tokens, ..*old(self) }),
            token_views(final(self).tokens@) == token_views(old(self).tokens@).push(
                TokenView {
                    ttype,
                    lexeme: old(self).source@.subrange(
                        old(self).start as int,
                        old(self).current as int,
                    ),
                    literal: None,
                    line: old(self).line as int,
                },
            ),
    {
        self.add_token(ttype, None)
    }

    /// Adds a token whose lexeme is the text from `start` to `current`.
    fn add_token(&mut self, ttype: TokenType, literal: Option<Value>)
        requires
            old(self).well_formed(),
        ensures
            final(self).well_formed(),
            *final(self) == (Scanner { tokens: final(self).tokens, ..*old(self) }),
            token_views(final(self).tokens@) == token_views(old(self).tokens@).push(
                TokenView {
                    ttype,
                    lexeme: old(self).source@.subrange(
                        old(self).start as int,
                        old(self).current as int,
                    ),
                    literal: match literal {
                        Some(value) => Some(value@),
                        None => None,
                    },
                    line: old(self).line as int,
                },
            ),
    {
        let lexeme = self.current_string();
        let token = Token { ttype, lexeme, literal, line: self.line };
        let ghost before = token_views(self.tokens@);
        self.tokens.push(token);
        assert(token_views(self.tokens@) =~= before.push(token@));
    }

    /// Records an error on the current line.
    fn report(&mut self, message: &str)
        requires
            old(self).well_formed(),
        ensures
            final(self).well_formed(),
            *final(self) == (Scanner { errors: final(self).errors, ..*old(self) }),
            scan_error_views(final(self).errors@) == scan_error_views(old(self).errors@).push(
                ScanErrorView { line: old(self).line as int, message: message@ },
            ),
    {
        let error = ScanError { line: self.line, message: String::from_str(message) };
        let ghost before = scan_error_views(self.errors@);
        self.errors.push(error);
        assert(scan_error_views(self.errors@) =~= before.push(error@));
    }

    /// Counts one more line.
    fn next_line(&mut self)
        requires
            old(self).well_formed(),
        ensures
            final(self).well_formed(),
            *final(self) == (Scanner { line: final(self).line, ..*old(self) }),
            final(self).line == next_line(old(self).line as int),
    {
        if self.line < i64::MAX {
            self.line = self.line + 1;
        }
    }

    /// Reads the current character.
    fn advance(&mut self) -> (c: char)
        requires
            old(self).well_formed(),
            old(self).current < old(self).source.len(),
        ensures
            final(self).well_formed(),
            *final(self) == (Scanner { current: final(self).current, ..*old(self) }),
            final(self).current == old(self).current + 1,
            c == old(self).source[old(self).current as int],
    {
        let current_char = self.current_char();
        self.current += 1;
        current_char
    }

    /// Reads the current character if it is the expected one.
    fn is_match(&mut self, expected: char) -> (matched: bool)
        requires
            old(self).well_formed(),
        ensures
            final(self).well_formed(),
            *final(self) == (Scanner { current: final(self).current, ..*old(self) }),
            matched == (old(self).current < old(self).source.len() && old(self).source[old(
                self,
            ).current as int] == expected),
            final(self).current == if matched {
                old(self).current + 1
            } else {
                old(self).current as int
            },
    {
        if self.is_at_end() {
            return false;
        }
        if expected != self.current_char() {
            return false;
        }
        self.current += 1;
        true
    }

    fn is_at_end(&self) -> (at_end: bool)
        ensures
            at_end == (self.current >= self.source.len()),
    {
        self.current >= self.source.len()
    }

    /// The current character, or `'\0'` at the end of the source.
    fn peek(&self) -> (c: char)
        ensures
            c == if self.current < self.source.len() {
                self.source[self.current as int]
            } else {
                '\0'
            },
    {
        if self.is_at_end() {
            '\0'
        } else {
            self.current_char()
        }
    }

    /// The character after the current one, or `'\0'` where there is none.
    fn peek_next(&self) -> (c: char)
        requires
            self.well_formed(),
        ensures
            c == if self.current + 1 < self.source.len() {
                self.source[self.current + 1]
            } else {
                '\0'
            },
    {
        if self.current >= self.source.len() || self.current + 1 >= self.source.len() {
            '\0'
        } else {
            self.source[self.current + 1]
        }
    }

    /// The text of the lexeme read so far.
    fn current_string(&self) -> (text: String)
        requires
            self.well_formed(),
        ensures
            text@ == self.source@.subrange(self.start as int, self.current as int),
    {
        string_of(&self.source, self.start, self.current)
    }

    fn current_char(&self) -> (c: char)
        requires
            self.current < self.source.len(),
        ensures
            c == self.source[self.current as int],
    {
        self.source[self.current]
    }

    fn is_alpha_numeric(c: char) -> (r: bool)
        ensures
            r == is_alpha_numeric(c),
    {
        Self::is_digit(c) || Self::is_alpha(c)
    }

    fn is_digit(c: char) -> (r: bool)
        ensures
            r == is_digit(c),
    {
        c >= '0' && c <= '9'
    }

    fn is_alpha(c: char) -> (r: bool)
        ensures
            r == is_alpha(c),
    {
        (c >= 'a' && c <= 'z') || (c >= 'A' && c <= 'Z') || c == '_'
    }
}

/// Looks a word up in the keyword table.
pub fn keyword_of(text: &String) -> (found: Option<TokenType>)
    ensures
        found == keyword(text@),
{
    if *text == String::from_str("and") {
        Some(TokenType::AND)
    } else if *text == String::from_str("class") {
        Some(TokenType::CLASS)
    } else if *text == String::from_str("else") {
        Some(TokenType::ELSE)
    } else if *text == String::from_str("false") {
        Some(TokenType::FALSE)
    } else if *text == String::from_str("for") {
        Some(TokenType::FOR)
    } else if *text == String::from_str("fun") {
        Some(TokenType::FUN)
    } else if *text == String::from_str("if") {
        Some(TokenType::IF)
    } else if *text == String::from_str("nil") {
        Some(TokenType::NIL)
    } else if *text == String::from_str("or") {
        Some(TokenType::OR)
    } else if *text == String::from_str("print") {
        Some(TokenType::PRINT)
    } else if *text == String::from_str("return") {
        Some(TokenType::RETURN)
    } else if *text == String::from_str("super") {
        Some(TokenType::SUPER)
    } else if *text == String::from_str("this") {
        Some(TokenType::THIS)
    } else if *text == String::from_str("true") {
        Some(TokenType::TRUE)
    } else if *text == String::from_str("var") {
        Some(TokenType::VAR)
    } else if *text == String::from_str("while") {
        Some(TokenType::WHILE)
    } else {
        None
    }
}

/// The line counter after `src[a..c]` is the counter after `src[b..c]`,
/// started from the counter after `src[a..b]`.
pub proof fn line_after_splits(src: Seq<char>, a: int, b: int, c: int, line: int)
    requires
        a <= b <= c,
    ensures
        line_after(src, a, c, line) == line_after(src, b, c, line_after(src, a, b, line)),
    decreases c - b,
{
    if b < c {
        line_after_splits(src, a, b, c - 1, line);
    }
}

/// Characters that are no newline leave the line counter alone.
pub proof fn line_after_without_newline(src: Seq<char>, from: int, to: int, line: int)
    requires
        forall|i: int| from <= i < to ==> src[i] != '\n',
    ensures
        line_after(src, from, to, line) == line,
    decreases to - from,
{
    if from < to {
        line_after_without_newline(src, from, to - 1, line);
    }
}

/// What lies inside a span of digits, of a word or of a comment.
pub proof fn span_contents(src: Seq<char>, pos: int)
    requires
        0 <= pos <= src.len(),
    ensures
        forall|i: int| pos <= i < digits_end(src, pos) ==> is_digit(#[trigger] src[i]),
        forall|i: int| pos <= i < word_end(src, pos) ==> is_alpha_numeric(#[trigger] src[i]),
        forall|i: int| pos <= i < comment_end(src, pos) ==> #[trigger] src[i] != '\n',
    decreases src.len() - pos,
{
    if pos < src.len() {
        span_contents(src, pos + 1);
    }
}

/// The line counter after a lexeme is the counter before it, moved over the
/// lexeme's characters.
pub proof fn lexeme_counts_lines(src: Seq<char>, pos: int, line: int)
    requires
        0 <= pos < src.len(),
    ensures
        lexeme_at(src, pos, line).line == line_after(src, pos, lexeme_at(src, pos, line).end, line),
{
    let lexeme = lexeme_at(src, pos, line);
    let c = src[pos];
    lexeme_advances(src, pos, line);
    span_bounds(src, pos);
    span_bounds(src, pos + 1);
    span_contents(src, pos);
    span_contents(src, pos + 1);
    if c == '"' {
        let close = string_end(src, pos + 1);
        line_after_splits(src, pos, pos + 1, close, line);
        assert(line_after(src, pos, pos + 1, line) == line) by {
            line_after_without_newline(src, pos, pos + 1, line);
        }
        if close < src.len() {
            string_end_is_quote(src, pos + 1);
            line_after_splits(src, pos, close, close + 1, line);
            assert(line_after(src, close, close + 1, line_after(src, pos, close, line))
                == line_after(src, pos, close, line)) by {
                line_after_without_newline(src, close, close + 1, line_after(src, pos, close, line));
            }
        }
    } else if c == '\n' {
        assert(line_after(src, pos, pos, line) == line);
    } else if c == '/' && pos + 1 < src.len() && src[pos + 1] == '/' {
        span_bounds(src, pos + 2);
        span_contents(src, pos + 2);
        line_after_without_newline(src, pos, lexeme.end, line);
    } else if is_digit(c) {
        let whole = digits_end(src, pos);
        if whole + 1 < src.len() && src[whole] == '.' && is_digit(src[whole + 1]) {
            span_bounds(src, whole + 1);
            span_contents(src, whole + 1);
        }
        line_after_without_newline(src, pos, lexeme.end, line);
    } else {
        line_after_without_newline(src, pos, lexeme.end, line);
    }
}

/// A string span that ends inside the source ends at a double quote.
pub proof fn string_end_is_quote(src: Seq<char>, pos: int)
    requires
        0 <= pos <= src.len(),
        string_end(src, pos) < src.len(),
    ensures
        src[string_end(src, pos)] == '"',
    decreases src.len() - pos,
{
    if pos < src.len() && src[pos] != '"' {
        string_end_is_quote(src, pos + 1);
    }
}

/// No word of the keyword table is the end-of-file kind.
pub proof fn keywords_are_not_end_of_file(text: Seq<char>)
    ensures
        keyword(text) != Some(TokenType::EOF),
{
}

/// Every scan ends with exactly one end-of-file token, and that token's
/// line is the line counter after the whole source.
pub proof fn scan_ends_with_end_of_file(
    src: Seq<char>,
    pos: int,
    line: int,
    numbers: Seq<u64>,
    used: int,
)
    requires
        0 <= pos <= src.len(),
    ensures
        ({
            let tokens = scan_from(src, pos, line, numbers, used).tokens;
            &&& tokens.len() >= 1
            &&& tokens[tokens.len() - 1] == end_of_file(line_after(src, pos, src.len() as int, line))
            &&& forall|i: int| 0 <= i < tokens.len() - 1 ==> tokens[i].ttype != TokenType::EOF
        }),
    decreases src.len() - pos,
{
    if pos < src.len() {
        let lexeme = lexeme_at(src, pos, line);
        lexeme_advances(src, pos, line);
        lexeme_counts_lines(src, pos, line);
        line_after_splits(src, pos, lexeme.end, src.len() as int, line);
        scan_ends_with_end_of_file(src, lexeme.end, lexeme.line, numbers, used_after(lexeme, numbers, used));
        let rest = scan_from(src, lexeme.end, lexeme.line, numbers, used_after(lexeme, numbers, used));
        let tokens = scan_from(src, pos, line, numbers, used).tokens;
        match token_of(src, pos, lexeme, numbers, used) {
            Some(token) => {
                assert(token.ttype != TokenType::EOF) by {
                    keywords_are_not_end_of_file(src.subrange(pos, lexeme.end));
                }
                assert(tokens =~= seq![token] + rest.tokens);
                assert forall|i: int| 0 <= i < tokens.len() - 1 implies tokens[i].ttype
                    != TokenType::EOF by {
                    if i > 0 {
                        assert(tokens[i] == rest.tokens[i - 1]);
                    }
                }
            },
            None => {},
        }
    } else {
        assert(line_after(src, pos, src.len() as int, line) == line);
    }
}

/// Every scan of a whole source ends with exactly one end-of-file token,
/// and that token's line is the line counter after the whole source: one
/// more than the number of newlines.
pub proof fn every_scan_ends_with_one_end_of_file_token(src: Seq<char>, numbers: Seq<u64>)
    ensures
        ({
            let tokens = scan(src, numbers).tokens;
            &&& tokens.len() >= 1
            &&& tokens.last() == end_of_file(line_after(src, 0, src.len() as int, 1))
            &&& forall|i: int| 0 <= i < tokens.len() - 1 ==> tokens[i].ttype != TokenType::EOF
        }),
{
    scan_ends_with_end_of_file(src, 0, 1, numbers, 0);
}

/// The longer token wins: where `=` follows `!`, `=`, `<` or `>`, the two
/// characters are one token, never two.
pub proof fn two_characters_make_one_token(src: Seq<char>, pos: int, line: int)
    requires
        0 <= pos,
        pos + 1 < src.len(),
        src[pos] == '!' || src[pos] == '=' || src[pos] == '<' || src[pos] == '>',
        src[pos + 1] == '=',
    ensures
        lexeme_at(src, pos, line).end == pos + 2,
        lexeme_at(src, pos, line).kind == LexemeKind::Plain(
            if src[pos] == '!' {
                TokenType::BANG_EQUAL
            } else if src[pos] == '=' {
                TokenType::EQUAL_EQUAL
            } else if src[pos] == '<' {
                TokenType::LESS_EQUAL
            } else {
                TokenType::GREATER_EQUAL
            },
        ),
{
}

/// A numeric literal takes a dot only with a digit after it: digits, a dot
/// and a digit are one literal up to the end of the digits that follow;
/// a dot with no digit after it is left for the next token.
pub proof fn a_number_takes_a_dot_only_before_a_digit(src: Seq<char>, pos: int, line: int)
    requires
        0 <= pos < src.len(),
        is_digit(src[pos]),
    ensures
        lexeme_at(src, pos, line).kind is Number,
        ({
            let whole = digits_end(src, pos);
            let fraction = whole + 1 < src.len() && src[whole] == '.' && is_digit(src[whole + 1]);
            &&& pos < whole <= src.len()
            &&& fraction ==> lexeme_at(src, pos, line).end == digits_end(src, whole + 1) && whole
                + 1 < lexeme_at(src, pos, line).end
            &&& !fraction ==> lexeme_at(src, pos, line).end == whole
        }),
{
    span_bounds(src, pos);
    span_bounds(src, pos + 1);
    let whole = digits_end(src, pos);
    if whole + 1 < src.len() {
        span_bounds(src, whole + 1);
        span_bounds(src, whole + 2);
    }
}

} // verus!
