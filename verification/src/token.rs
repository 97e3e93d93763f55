//! The vocabulary that every stage shares: token kinds, tokens, runtime
//! values and callables, each with the mathematical view that the contracts
//! speak of.

use vstd::prelude::*;
use vstd::string::StringExecFns;
use crate::expression::{Stmt, StmtView};
use crate::interpreter::{Action, Interpreter};
use crate::number;
use crate::semantics::{callable_here, calls};

verus! {

/// The closed set of token kinds.
#[derive(Copy, Clone, Debug, PartialEq, Eq, Structural)]
pub enum TokenType {
    // Single-character tokens.
    LEFT_PAREN,
    RIGHT_PAREN,
    LEFT_BRACE,
    RIGHT_BRACE,
    COMMA,
    DOT,
    MINUS,
    PLUS,
    SEMICOLON,
    SLASH,
    STAR,
    // One or two character tokens.
    BANG,
    BANG_EQUAL,
    EQUAL,
    EQUAL_EQUAL,
    GREATER,
    GREATER_EQUAL,
    LESS,
    LESS_EQUAL,
    // Literals.
    IDENTIFIER,
    STRING,
    NUMBER,
    // Keywords.
    AND,
    CLASS,
    ELSE,
    FALSE,
    FUN,
    FOR,
    IF,
    NIL,
    OR,
    PRINT,
    RETURN,
    SUPER,
    THIS,
    TRUE,
    VAR,
    WHILE,
    EOF,
}

impl TokenType {
    /// The kind's name, as it is spelled in the enumeration.
    pub open spec fn name(self) -> Seq<char> {
        match self {
            TokenType::LEFT_PAREN => "LEFT_PAREN"@,
            TokenType::RIGHT_PAREN => "RIGHT_PAREN"@,
            TokenType::LEFT_BRACE => "LEFT_BRACE"@,
            TokenType::RIGHT_BRACE => "RIGHT_BRACE"@,
            TokenType::COMMA => "COMMA"@,
            TokenType::DOT => "DOT"@,
            TokenType::MINUS => "MINUS"@,
            TokenType::PLUS => "PLUS"@,
            TokenType::SEMICOLON => "SEMICOLON"@,
            TokenType::SLASH => "SLASH"@,
            TokenType::STAR => "STAR"@,
            TokenType::BANG => "BANG"@,
            TokenType::BANG_EQUAL => "BANG_EQUAL"@,
            TokenType::EQUAL => "EQUAL"@,
            TokenType::EQUAL_EQUAL => "EQUAL_EQUAL"@,
            TokenType::GREATER => "GREATER"@,
            TokenType::GREATER_EQUAL => "GREATER_EQUAL"@,
            TokenType::LESS => "LESS"@,
            TokenType::LESS_EQUAL => "LESS_EQUAL"@,
            TokenType::IDENTIFIER => "IDENTIFIER"@,
            TokenType::STRING => "STRING"@,
            TokenType::NUMBER => "NUMBER"@,
            TokenType::AND => "AND"@,
            TokenType::CLASS => "CLASS"@,
            TokenType::ELSE => "ELSE"@,
            TokenType::FALSE => "FALSE"@,
            TokenType::FUN => "FUN"@,
            TokenType::FOR => "FOR"@,
            TokenType::IF => "IF"@,
            TokenType::NIL => "NIL"@,
            TokenType::OR => "OR"@,
            TokenType::PRINT => "PRINT"@,
            TokenType::RETURN => "RETURN"@,
            TokenType::SUPER => "SUPER"@,
            TokenType::THIS => "THIS"@,
            TokenType::TRUE => "TRUE"@,
            TokenType::VAR => "VAR"@,
            TokenType::WHILE => "WHILE"@,
            TokenType::EOF => "EOF"@,
        }
    }

    /// The kind's textual rendering.
    pub fn to_string(&self) -> (text: String)
        ensures
            text@ == self.name(),
    {
        let name: &str = match self {
            TokenType::LEFT_PAREN => "LEFT_PAREN",
            TokenType::RIGHT_PAREN => "RIGHT_PAREN",
            TokenType::LEFT_BRACE => "LEFT_BRACE",
            TokenType::RIGHT_BRACE => "RIGHT_BRACE",
            TokenType::COMMA => "COMMA",
            TokenType::DOT => "DOT",
            TokenType::MINUS => "MINUS",
            TokenType::PLUS => "PLUS",
            TokenType::SEMICOLON => "SEMICOLON",
            TokenType::SLASH => "SLASH",
            TokenType::STAR => "STAR",
            TokenType::BANG => "BANG",
            TokenType::BANG_EQUAL => "BANG_EQUAL",
            TokenType::EQUAL => "EQUAL",
            TokenType::EQUAL_EQUAL => "EQUAL_EQUAL",
            TokenType::GREATER => "GREATER",
            TokenType::GREATER_EQUAL => "GREATER_EQUAL",
            TokenType::LESS => "LESS",
            TokenType::LESS_EQUAL => "LESS_EQUAL",
            TokenType::IDENTIFIER => "IDENTIFIER",
            TokenType::STRING => "STRING",
            TokenType::NUMBER => "NUMBER",
            TokenType::AND => "AND",
            TokenType::CLASS => "CLASS",
            TokenType::ELSE => "ELSE",
            TokenType::FALSE => "FALSE",
            TokenType::FUN => "FUN",
            TokenType::FOR => "FOR",
            TokenType::IF => "IF",
            TokenType::NIL => "NIL",
            TokenType::OR => "OR",
            TokenType::PRINT => "PRINT",
            TokenType::RETURN => "RETURN",
            TokenType::SUPER => "SUPER",
            TokenType::THIS => "THIS",
            TokenType::TRUE => "TRUE",
            TokenType::VAR => "VAR",
            TokenType::WHILE => "WHILE",
            TokenType::EOF => "EOF",
        };
        String::from_str(name)
    }
}

/// The functions that the host provides to every program.
#[derive(Copy, Clone, Debug, PartialEq, Eq, Structural)]
pub enum Native {
    /// Milliseconds since the Unix epoch, as a number.
    Clock,
}

/// Something that a call expression can invoke.
#[derive(Debug, PartialEq)]
pub enum Callable {
    NativeFunction { arity: usize, call: Native, value: String },
    /// A user-defined function: its declaration (a `Stmt::Function`) and the
    /// scope that was current where the declaration ran.
    Function { declaration: Box<Stmt>, closure: usize },
}

/// The runtime value domain. A `Double` holds its IEEE-754 bit pattern.
#[allow(inconsistent_fields)]
#[derive(Debug)]
pub enum Value {
    Boolean { value: bool },
    Double { value: u64 },
    String { value: String },
    Nil,
    Callable { callable: Callable },
}

#[derive(Debug, PartialEq)]
pub struct Token {
    pub ttype: TokenType,
    pub lexeme: String,
    pub literal: Option<Value>,
    pub line: i64,
}

pub enum CallableView {
    NativeFunction { arity: nat, call: Native, value: Seq<char> },
    Function { declaration: Box<StmtView>, closure: nat },
}

#[allow(inconsistent_fields)]
pub enum ValueView {
    Boolean { value: bool },
    Double { value: u64 },
    String { value: Seq<char> },
    Nil,
    Callable { callable: CallableView },
}

pub struct TokenView {
    pub ttype: TokenType,
    pub lexeme: Seq<char>,
    pub literal: Option<ValueView>,
    pub line: int,
}

impl Callable {
    pub open spec fn view(&self) -> CallableView
        decreases self,
    {
        match self {
            Callable::NativeFunction { arity, call, value } => CallableView::NativeFunction {
                arity: *arity as nat,
                call: *call,
                value: value@,
            },
            Callable::Function { declaration, closure } => CallableView::Function {
                declaration: Box::new(declaration@),
                closure: *closure as nat,
            },
        }
    }
}

impl Value {
    pub open spec fn view(&self) -> ValueView
        decreases self,
    {
        match self {
            Value::Boolean { value } => ValueView::Boolean { value: *value },
            Value::Double { value } => ValueView::Double { value: *value },
            Value::String { value } => ValueView::String { value: value@ },
            Value::Nil => ValueView::Nil,
            Value::Callable { callable } => ValueView::Callable { callable: callable@ },
        }
    }
}

impl Token {
    pub open spec fn view(&self) -> TokenView
        decreases self,
    {
        TokenView {
            ttype: self.ttype,
            lexeme: self.lexeme@,
            literal: match self.literal {
                Some(value) => Some(value@),
                None => None,
            },
            line: self.line as int,
        }
    }
}

/// The views of a sequence of tokens, one for one.
pub open spec fn token_views(tokens: Seq<Token>) -> Seq<TokenView>
    decreases tokens,
{
    Seq::new(
        tokens.len(),
        |i: int|
            if 0 <= i < tokens.len() {
                tokens[i]@
            } else {
                arbitrary()
            },
    )
}

/// The views of a sequence of values, one for one.
pub open spec fn value_views(values: Seq<Value>) -> Seq<ValueView> {
    Seq::new(values.len(), |i: int| values[i]@)
}

impl CallableView {
    /// The number of arguments that a call must pass.
    pub open spec fn arity(self) -> nat {
        match self {
            CallableView::NativeFunction { arity, .. } => arity,
            CallableView::Function { declaration, .. } => match *declaration {
                StmtView::Function { params, .. } => params.len(),
                _ => 0,
            },
        }
    }

    /// The text that stands for the callable when it is printed.
    pub open spec fn value(self) -> Seq<char> {
        match self {
            CallableView::NativeFunction { value, .. } => value,
            CallableView::Function { declaration, .. } => match *declaration {
                StmtView::Function { name, .. } => name.lexeme,
                _ => Seq::empty(),
            },
        }
    }
}

impl ValueView {
    /// `Nil` and `false` are falsy; every other value is truthy.
    pub open spec fn truthy(self) -> bool {
        match self {
            ValueView::Boolean { value } => value,
            ValueView::Nil => false,
            _ => true,
        }
    }

    /// Equality of two values: different variants are never equal, numbers
    /// compare as IEEE-754 doubles, everything else structurally.
    pub open spec fn equals(self, other: ValueView) -> bool {
        match (self, other) {
            (ValueView::Double { value: a }, ValueView::Double { value: b }) => number::same_number(
                a,
                b,
            ),
            (ValueView::Double { .. }, _) => false,
            (_, ValueView::Double { .. }) => false,
            _ => self == other,
        }
    }

    /// The text that a value prints as, where the library can render it: a
    /// number's digits are the host's to produce.
    pub open spec fn text(self) -> Option<Seq<char>> {
        match self {
            ValueView::Boolean { value } => Some(
                if value {
                    "true"@
                } else {
                    "false"@
                },
            ),
            ValueView::Double { .. } => None,
            ValueView::String { value } => Some(value),
            ValueView::Nil => Some("Nil"@),
            ValueView::Callable { callable } => Some(callable.value()),
        }
    }
}

impl Callable {
    /// The number of arguments that a call must pass: the parameter count of
    /// the declaration, or what a native function declares.
    pub fn arity(&self) -> (count: usize)
        ensures
            count == self@.arity(),
    {
        match self {
            Callable::NativeFunction { arity, .. } => *arity,
            Callable::Function { declaration, .. } => match &**declaration {
                Stmt::Function { params, .. } => params.len(),
                _ => 0,
            },
        }
    }

    /// The text that stands for the callable when it is printed: a native
    /// function's label, a user-defined function's name.
    pub fn value(&self) -> (text: String)
        ensures
            text@ == self@.value(),
    {
        match self {
            Callable::NativeFunction { value, .. } => value.clone(),
            Callable::Function { declaration, .. } => match &**declaration {
                Stmt::Function { name, .. } => name.lexeme.clone(),
                _ => String::new(),
            },
        }
    }

    /// Calls the callable with as many values as it has parameters. A
    /// native function's value is asked of the host; a function's body is
    /// scheduled in a new scope inside the one that the function closed
    /// over, with the parameters bound to the values.
    pub fn call(&self, interpreter: &mut Interpreter, values: &Vec<Value>) -> (action: Action)
        requires
            old(interpreter).well_formed(),
            callable_here(self@, old(interpreter)@.scopes),
            values.len() == self@.arity(),
        ensures
            final(interpreter).well_formed(),
            calls(old(interpreter)@, self@, value_views(values@), final(interpreter)@, action@),
    {
        interpreter.call_function(self, values)
    }

    /// A copy with the same view.
    pub fn duplicate(&self) -> (copy: Callable)
        ensures
            copy@ == self@,
        decreases self,
    {
        match self {
            Callable::NativeFunction { arity, call, value } => Callable::NativeFunction {
                arity: *arity,
                call: *call,
                value: value.clone(),
            },
            Callable::Function { declaration, closure } => Callable::Function {
                declaration: Box::new(declaration.duplicate()),
                closure: *closure,
            },
        }
    }
}

impl Value {
    /// A copy with the same view.
    pub fn duplicate(&self) -> (copy: Value)
        ensures
            copy@ == self@,
        decreases self,
    {
        match self {
            Value::Boolean { value } => Value::Boolean { value: *value },
            Value::Double { value } => Value::Double { value: *value },
            Value::String { value } => Value::String { value: value.clone() },
            Value::Nil => Value::Nil,
            Value::Callable { callable } => Value::Callable { callable: callable.duplicate() },
        }
    }

    /// The text that the value prints as, or `None` for a number, whose
    /// digits the host produces from the bit pattern.
    pub fn to_string(&self) -> (text: Option<String>)
        ensures
            match text {
                Some(t) => self@.text() == Some(t@),
                None => self@.text().is_none(),
            },
    {
        match self {
            Value::Boolean { value } => {
                if *value {
                    Some(String::from_str("true"))
                } else {
                    Some(String::from_str("false"))
                }
            },
            Value::Double { .. } => None,
            Value::String { value } => Some(value.clone()),
            Value::Nil => Some(String::from_str("Nil")),
            Value::Callable { callable } => Some(callable.value()),
        }
    }
}

impl Token {
    /// A copy with the same view.
    pub fn duplicate(&self) -> (copy: Token)
        ensures
            copy@ == self@,
        decreases self,
    {
        Token {
            ttype: self.ttype,
            lexeme: self.lexeme.clone(),
            literal: match &self.literal {
                Some(value) => Some(value.duplicate()),
                None => None,
            },
            line: self.line,
        }
    }
}

impl Callable {
    /// Whether two callables have the same view.
    pub fn same(&self, other: &Callable) -> (equal: bool)
        ensures
            equal == (self@ == other@),
        decreases self,
    {
        match (self, other) {
            (
                Callable::NativeFunction { arity: a1, call: c1, value: v1 },
                Callable::NativeFunction { arity: a2, call: c2, value: v2 },
            ) => *a1 == *a2 && *c1 == *c2 && *v1 == *v2,
            (
                Callable::Function { declaration: d1, closure: c1 },
                Callable::Function { declaration: d2, closure: c2 },
            ) => *c1 == *c2 && d1.same(d2),
            _ => false,
        }
    }
}

impl Value {
    /// Whether two values have the same view: numbers by their bit
    /// patterns, everything else structurally.
    pub fn same(&self, other: &Value) -> (equal: bool)
        ensures
            equal == (self@ == other@),
        decreases self,
    {
        match (self, other) {
            (Value::Boolean { value: a }, Value::Boolean { value: b }) => *a == *b,
            (Value::Double { value: a }, Value::Double { value: b }) => *a == *b,
            (Value::String { value: a }, Value::String { value: b }) => *a == *b,
            (Value::Nil, Value::Nil) => true,
            (Value::Callable { callable: a }, Value::Callable { callable: b }) => a.same(b),
            _ => false,
        }
    }
}

impl Token {
    /// Whether two tokens have the same view.
    pub fn same(&self, other: &Token) -> (equal: bool)
        ensures
            equal == (self@ == other@),
        decreases self,
    {
        let literals = match (&self.literal, &other.literal) {
            (Some(a), Some(b)) => a.same(b),
            (None, None) => true,
            _ => false,
        };
        literals && self.ttype == other.ttype && self.lexeme == other.lexeme && self.line
            == other.line
    }
}

/// Whether two lists of tokens have the same views.
pub fn same_tokens(left: &Vec<Token>, right: &Vec<Token>) -> (equal: bool)
    ensures
        equal == (token_views(left@) == token_views(right@)),
    decreases left,
{
    if left.len() != right.len() {
        assert(token_views(left@).len() != token_views(right@).len());
        return false;
    }
    let mut i: usize = 0;
    while i < left.len()
        invariant
            i <= left.len(),
            left.len() == right.len(),
            forall|j: int| 0 <= j < i ==> left[j]@ == right[j]@,
        decreases left.len() - i,
    {
        if !left[i].same(&right[i]) {
            assert(token_views(left@)[i as int] != token_views(right@)[i as int]);
            return false;
        }
        i += 1;
    }
    assert(token_views(left@) =~= token_views(right@));
    true
}

impl PartialEq for Value {
    /// `==` on values is the language's equality: numbers compare as
    /// IEEE-754 doubles, everything else structurally.
    fn eq(&self, other: &Self) -> (equal: bool) {
        Interpreter::values_are_equal(self, other)
    }
}

impl vstd::std_specs::cmp::PartialEqSpecImpl for Value {
    open spec fn obeys_eq_spec() -> bool {
        true
    }

    open spec fn eq_spec(&self, other: &Self) -> bool {
        self@.equals(other@)
    }
}

impl Clone for Callable {
    fn clone(&self) -> (copy: Self)
        ensures
            copy@ == self@,
    {
        self.duplicate()
    }
}

impl Clone for Value {
    fn clone(&self) -> (copy: Self)
        ensures
            copy@ == self@,
    {
        self.duplicate()
    }
}

impl Clone for Token {
    fn clone(&self) -> (copy: Self)
        ensures
            copy@ == self@,
    {
        self.duplicate()
    }
}

/// Copies a list of tokens, one for one.
pub fn duplicate_tokens(tokens: &Vec<Token>) -> (copy: Vec<Token>)
    ensures
        token_views(copy@) == token_views(tokens@),
    decreases tokens,
{
    let mut copy: Vec<Token> = Vec::new();
    let mut i: usize = 0;
    while i < tokens.len()
        invariant
            i <= tokens.len(),
            copy.len() == i,
            forall|j: int| 0 <= j < i ==> copy[j]@ == tokens[j]@,
        decreases tokens.len() - i,
    {
        copy.push(tokens[i].duplicate());
        i += 1;
    }
    assert(token_views(copy@) =~= token_views(tokens@));
    copy
}

} // verus!
