//! The evaluator: a machine that walks the syntax tree one step at a time
//! and asks the host for the work that it cannot do itself.
//!
//! The walk is depth first and left to right, as a recursive evaluator's
//! would be, but what is still to do is kept on a stack of the machine's
//! own: a program may nest and recurse as deep as memory allows, a program
//! that never ends never hangs a call of the library, and the library needs
//! neither an output stream nor a clock nor floating-point arithmetic.
//!
//! The host calls `step` until the machine is finished or has failed. Each
//! step returns an action. `Continue` asks for nothing. `Print` and
//! `PrintNumber` ask for a line of output. `Arithmetic` and `Clock` ask for
//! a number, which the host hands to the next step as `Event::Number`.
//! What every step does is stated in the module `semantics`.

use vstd::prelude::*;
use vstd::string::StringExecFns;
use crate::environment::Environment;
use crate::expression::{
    Expr,
    ExprView,
    ExprVisitor,
    Stmt,
    StmtView,
    StmtVisitor,
    duplicate_statements,
    expr_views,
    stmt_views,
};
use crate::number;
use crate::text::decimal_text;
use crate::semantics::{abandons, arguments, argument_for, argument_tasks, arity_message, asks, below, below_arguments, begins, binds, boundary, callable_here, calls, concludes, invokes, runs, runtime_error, selects, settles, starts, steps, top, unwinds, unwound};
use crate::token::{Callable, CallableView, Native, Token, TokenType, TokenView, Value, ValueView, token_views, value_views};

verus! {

/// What stops an evaluation: a runtime failure, or the signal by which a
/// `return` statement unwinds to the call that it belongs to.
#[derive(Debug, PartialEq)]
pub enum InterpreterError {
    RuntimeError { operator: TokenType, error: String },
    Return { value: Value },
}

pub enum InterpreterErrorView {
    RuntimeError { operator: TokenType, error: Seq<char> },
    Return { value: ValueView },
}

pub type StatementResult = Result<(), InterpreterError>;

pub type ExpressionResult = Result<Value, InterpreterError>;

impl InterpreterError {
    pub open spec fn view(&self) -> InterpreterErrorView {
        match self {
            InterpreterError::RuntimeError { operator, error } => InterpreterErrorView::RuntimeError {
                operator: *operator,
                error: error@,
            },
            InterpreterError::Return { value } => InterpreterErrorView::Return { value: value@ },
        }
    }

    pub fn new_runtime_error(operator: TokenType, error: String) -> (failure: Self)
        ensures
            failure@ == (InterpreterErrorView::RuntimeError { operator, error: error@ }),
    {
        Self::RuntimeError { operator, error }
    }

    /// A copy with the same view.
    pub fn duplicate(&self) -> (copy: Self)
        ensures
            copy@ == self@,
    {
        match self {
            InterpreterError::RuntimeError { operator, error } => InterpreterError::RuntimeError {
                operator: *operator,
                error: error.clone(),
            },
            InterpreterError::Return { value } => InterpreterError::Return {
                value: value.duplicate(),
            },
        }
    }
}

/// The failure of reading or assigning a name that no scope defines.
pub open spec fn undefined_variable(name: TokenView) -> InterpreterErrorView {
    InterpreterErrorView::RuntimeError {
        operator: name.ttype,
        error: "Undefined variable '"@ + name.lexeme + "'"@,
    }
}

/// Builds the failure of reading or assigning an undefined name.
pub fn undefined_variable_error(operator: TokenType, lexeme: &String) -> (failure: InterpreterError)
    ensures
        failure@ == (InterpreterErrorView::RuntimeError {
            operator,
            error: "Undefined variable '"@ + lexeme@ + "'"@,
        }),
{
    let mut error = String::from_str("Undefined variable '");
    error.append(lexeme.as_str());
    error.append("'");
    InterpreterError::new_runtime_error(operator, error)
}

/// What the machine asks of the host, or reports to it, after a step.
#[derive(Debug, PartialEq)]
pub enum Action {
    /// Nothing: the next step may follow.
    Continue,
    /// Write this line to the output.
    Print { text: String },
    /// Write this number, given by its bit pattern, to the output.
    PrintNumber { value: u64 },
    /// Compute `left operator right` on doubles, for `+ - * /`, and hand the
    /// result to the next step.
    Arithmetic { operator: TokenType, left: u64, right: u64 },
    /// Read the clock and hand the milliseconds since the Unix epoch, as a
    /// double, to the next step.
    Clock,
    /// The machine still waits for the number that it asked for.
    Waiting,
    /// Nothing is left to do.
    Finished,
    /// The program has failed and was abandoned.
    Failed { error: InterpreterError },
}

pub enum ActionView {
    Continue,
    Print { text: Seq<char> },
    PrintNumber { value: u64 },
    Arithmetic { operator: TokenType, left: u64, right: u64 },
    Clock,
    Waiting,
    Finished,
    Failed { error: InterpreterErrorView },
}

impl Action {
    pub open spec fn view(&self) -> ActionView {
        match self {
            Action::Continue => ActionView::Continue,
            Action::Print { text } => ActionView::Print { text: text@ },
            Action::PrintNumber { value } => ActionView::PrintNumber { value: *value },
            Action::Arithmetic { operator, left, right } => ActionView::Arithmetic {
                operator: *operator,
                left: *left,
                right: *right,
            },
            Action::Clock => ActionView::Clock,
            Action::Waiting => ActionView::Waiting,
            Action::Finished => ActionView::Finished,
            Action::Failed { error } => ActionView::Failed { error: error@ },
        }
    }
}

/// What the host hands to a step.
#[derive(Copy, Clone, Debug, PartialEq, Eq, Structural)]
pub enum Event {
    /// Nothing: go on.
    Resume,
    /// The number that the last action asked for, as a bit pattern.
    Number { value: u64 },
}

/// What applying an operator to its operands comes to.
#[derive(Debug, PartialEq)]
pub enum Outcome {
    /// The operator's value.
    Value { value: Value },
    /// The value is the host's to compute: a sum, difference, product or
    /// quotient of two doubles.
    Ask { operator: TokenType, left: u64, right: u64 },
    /// The operands do not fit the operator.
    Failure { error: InterpreterError },
}

pub enum OutcomeView {
    Value { value: ValueView },
    Ask { operator: TokenType, left: u64, right: u64 },
    Failure { error: InterpreterErrorView },
}

impl Outcome {
    pub open spec fn view(&self) -> OutcomeView {
        match self {
            Outcome::Value { value } => OutcomeView::Value { value: value@ },
            Outcome::Ask { operator, left, right } => OutcomeView::Ask {
                operator: *operator,
                left: *left,
                right: *right,
            },
            Outcome::Failure { error } => OutcomeView::Failure { error: error@ },
        }
    }
}

/// A runtime failure at an operator.
pub open spec fn failure(operator: TokenType, message: Seq<char>) -> OutcomeView {
    OutcomeView::Failure { error: InterpreterErrorView::RuntimeError { operator, error: message } }
}

pub open spec fn boolean(value: bool) -> OutcomeView {
    OutcomeView::Value { value: ValueView::Boolean { value } }
}

/// A unary operator applied to a value: `-` negates a number and fails on
/// anything else, `!` negates the value's truthiness.
pub open spec fn unary_outcome(operator: TokenType, right: ValueView) -> OutcomeView {
    match operator {
        TokenType::MINUS => match right {
            ValueView::Double { value } => OutcomeView::Value {
                value: ValueView::Double { value: number::negated(value) },
            },
            _ => failure(operator, "Operand must be a number."@),
        },
        TokenType::BANG => boolean(!right.truthy()),
        _ => failure(operator, "Unknown unary operator."@),
    }
}

/// A binary operator applied to two numbers.
pub open spec fn numeric_outcome(operator: TokenType, left: u64, right: u64) -> OutcomeView {
    match operator {
        TokenType::MINUS | TokenType::PLUS | TokenType::SLASH | TokenType::STAR => OutcomeView::Ask {
            operator,
            left,
            right,
        },
        TokenType::GREATER => boolean(number::less_than(right, left)),
        TokenType::GREATER_EQUAL => boolean(number::at_most(right, left)),
        TokenType::LESS => boolean(number::less_than(left, right)),
        TokenType::LESS_EQUAL => boolean(number::at_most(left, right)),
        _ => failure(operator, "Cannot perform this operation on a number"@),
    }
}

/// A binary operator applied to two values. `==` and `!=` compare any two
/// values. Arithmetic and comparison want two numbers. `+` also joins two
/// strings. Everything else is a failure that names the operator.
pub open spec fn binary_outcome(operator: TokenType, left: ValueView, right: ValueView) -> OutcomeView {
    if operator == TokenType::EQUAL_EQUAL {
        boolean(left.equals(right))
    } else if operator == TokenType::BANG_EQUAL {
        boolean(!left.equals(right))
    } else {
        match left {
            ValueView::Double { value: a } => match right {
                ValueView::Double { value: b } => numeric_outcome(operator, a, b),
                ValueView::Boolean { .. } => failure(
                    operator,
                    "Cannot perform this with a number and boolean"@,
                ),
                ValueView::String { .. } => failure(
                    operator,
                    "Cannot perform this with a number and a string"@,
                ),
                ValueView::Nil => failure(operator, "Cannot perform this with a number and nil"@),
                ValueView::Callable { .. } => failure(
                    operator,
                    "Cannot perform this with a number and Callable"@,
                ),
            },
            ValueView::String { value: a } => if operator == TokenType::PLUS {
                match right {
                    ValueView::String { value: b } => OutcomeView::Value {
                        value: ValueView::String { value: a + b },
                    },
                    _ => failure(operator, "Cannot add a string and a value that is no string"@),
                }
            } else {
                failure(operator, "Cannot perform this operation on a string"@)
            },
            _ => failure(operator, "Cannot perform this operation on this type"@),
        }
    }
}

fn fail_at(operator: TokenType, message: &str) -> (outcome: Outcome)
    ensures
        outcome@ == failure(operator, message@),
{
    Outcome::Failure {
        error: InterpreterError::new_runtime_error(operator, String::from_str(message)),
    }
}

/// Whether a value counts as true: all but `Nil` and `false` do.
pub fn truthy(value: &Value) -> (yes: bool)
    ensures
        yes == value@.truthy(),
{
    match value {
        Value::Boolean { value } => *value,
        Value::Nil => false,
        _ => true,
    }
}

/// Applies a unary operator to the value of its operand.
pub fn apply_unary(operator: TokenType, right: &Value) -> (outcome: Outcome)
    ensures
        outcome@ == unary_outcome(operator, right@),
{
    match operator {
        TokenType::MINUS => match right {
            Value::Double { value } => Outcome::Value {
                value: Value::Double { value: number::negate(*value) },
            },
            _ => fail_at(operator, "Operand must be a number."),
        },
        TokenType::BANG => Outcome::Value { value: Value::Boolean { value: !truthy(right) } },
        _ => fail_at(operator, "Unknown unary operator."),
    }
}

/// Applies a binary operator to the values of its operands.
pub fn apply_binary(operator: TokenType, left: &Value, right: &Value) -> (outcome: Outcome)
    ensures
        outcome@ == binary_outcome(operator, left@, right@),
{
    match operator {
        TokenType::EQUAL_EQUAL => {
            return Outcome::Value { value: Value::Boolean { value: Interpreter::values_are_equal(left, right) } };
        },
        TokenType::BANG_EQUAL => {
            return Outcome::Value {
                value: Value::Boolean { value: !Interpreter::values_are_equal(left, right) },
            };
        },
        _ => {},
    }
    match left {
        Value::Double { value: left_value } => match right {
            Value::Double { value: right_value } => {
                let a: u64 = *left_value;
                let b: u64 = *right_value;
                match operator {
                    TokenType::MINUS | TokenType::PLUS | TokenType::SLASH | TokenType::STAR => {
                        Outcome::Ask { operator, left: a, right: b }
                    },
                    TokenType::GREATER => Outcome::Value {
                        value: Value::Boolean { value: number::less(b, a) },
                    },
                    TokenType::GREATER_EQUAL => Outcome::Value {
                        value: Value::Boolean { value: number::less_equal(b, a) },
                    },
                    TokenType::LESS => Outcome::Value {
                        value: Value::Boolean { value: number::less(a, b) },
                    },
                    TokenType::LESS_EQUAL => Outcome::Value {
                        value: Value::Boolean { value: number::less_equal(a, b) },
                    },
                    _ => fail_at(operator, "Cannot perform this operation on a number"),
                }
            },
            Value::Boolean { .. } => fail_at(
                operator,
                "Cannot perform this with a number and boolean",
            ),
            Value::String { .. } => fail_at(
                operator,
                "Cannot perform this with a number and a string",
            ),
            Value::Nil => fail_at(operator, "Cannot perform this with a number and nil"),
            Value::Callable { .. } => fail_at(
                operator,
                "Cannot perform this with a number and Callable",
            ),
        },
        Value::String { value: left_value } => match operator {
            TokenType::PLUS => match right {
                Value::String { value: right_value } => {
                    let mut joined = left_value.clone();
                    joined.append(right_value.as_str());
                    Outcome::Value { value: Value::String { value: joined } }
                },
                _ => fail_at(operator, "Cannot add a string and a value that is no string"),
            },
            _ => fail_at(operator, "Cannot perform this operation on a string"),
        },
        _ => fail_at(operator, "Cannot perform this operation on this type"),
    }
}

/// One piece of pending work. The machine keeps its work on a stack and
/// takes the piece on top with every step.
pub enum Task {
    /// Run a statement.
    Execute { statement: Stmt },
    /// Evaluate an expression and leave its value on the operand stack.
    Evaluate { expression: Expr },
    /// Run the statements from `next` on, in order.
    Statements { statements: Vec<Stmt>, next: usize },
    /// Leave a block: make `environment` the current scope again.
    Restore { environment: usize },
    /// The end of a function's body: make `environment`, the caller's
    /// scope, current again; the call's value is `Nil`, or what a `return`
    /// that unwinds to here carries.
    Boundary { environment: usize },
    /// Drop the value on top of the operand stack.
    Discard,
    /// Print the value on top of the operand stack.
    Print,
    /// Bind the name to the value on top of the operand stack.
    Define { name: Token },
    /// Run one of the branches, by the value on top of the operand stack.
    Branch { then_branch: Stmt, else_branch: Option<Stmt> },
    /// Run the body and test the condition again, or leave the loop, by
    /// the value on top of the operand stack.
    Loop { condition: Expr, body: Stmt },
    /// Unwind to the nearest call with the value on top of the operand stack.
    Return,
    /// Apply a unary operator to the value on top of the operand stack.
    Unary { operator: Token },
    /// Apply a binary operator to the two values on top of the operand stack.
    Binary { operator: Token },
    /// Keep the left operand's value or evaluate the right operand.
    Logical { operator: Token, right: Expr },
    /// Assign the value on top of the operand stack to the name.
    Assign { name: Token },
    /// Call the value below the `count` arguments on the operand stack.
    Invoke { paren: Token, count: usize },
}

pub enum TaskView {
    Execute { statement: StmtView },
    Evaluate { expression: ExprView },
    Statements { statements: Seq<StmtView>, next: nat },
    Restore { environment: nat },
    Boundary { environment: nat },
    Discard,
    Print,
    Define { name: TokenView },
    Branch { then_branch: StmtView, else_branch: Option<StmtView> },
    Loop { condition: ExprView, body: StmtView },
    Return,
    Unary { operator: TokenView },
    Binary { operator: TokenView },
    Logical { operator: TokenView, right: ExprView },
    Assign { name: TokenView },
    Invoke { paren: TokenView, count: nat },
}

impl Task {
    pub open spec fn view(&self) -> TaskView {
        match self {
            Task::Execute { statement } => TaskView::Execute { statement: statement@ },
            Task::Evaluate { expression } => TaskView::Evaluate { expression: expression@ },
            Task::Statements { statements, next } => TaskView::Statements {
                statements: stmt_views(*statements),
                next: *next as nat,
            },
            Task::Restore { environment } => TaskView::Restore { environment: *environment as nat },
            Task::Boundary { environment } => TaskView::Boundary {
                environment: *environment as nat,
            },
            Task::Discard => TaskView::Discard,
            Task::Print => TaskView::Print,
            Task::Define { name } => TaskView::Define { name: name@ },
            Task::Branch { then_branch, else_branch } => TaskView::Branch {
                then_branch: then_branch@,
                else_branch: match else_branch {
                    Some(s) => Some(s@),
                    None => None,
                },
            },
            Task::Loop { condition, body } => TaskView::Loop { condition: condition@, body: body@ },
            Task::Return => TaskView::Return,
            Task::Unary { operator } => TaskView::Unary { operator: operator@ },
            Task::Binary { operator } => TaskView::Binary { operator: operator@ },
            Task::Logical { operator, right } => TaskView::Logical {
                operator: operator@,
                right: right@,
            },
            Task::Assign { name } => TaskView::Assign { name: name@ },
            Task::Invoke { paren, count } => TaskView::Invoke { paren: paren@, count: *count as nat },
        }
    }
}

/// The machine's state, as the contracts see it: the work stack (its top is
/// its last element), the operand stack, the scopes, whether the machine
/// waits for a number from the host, and the global scope's index.
pub struct Machine {
    pub tasks: Seq<TaskView>,
    pub operands: Seq<ValueView>,
    pub scopes: Environment,
    pub waiting: bool,
    pub global: nat,
}

/// The views of a stack of tasks, one for one.
pub open spec fn task_views(tasks: Seq<Task>) -> Seq<TaskView> {
    Seq::new(tasks.len(), |i: int| tasks[i]@)
}

/// The evaluator. It holds the scopes, a stack of pending work and a stack
/// of operand values, and does one piece of work with every step.
pub struct Interpreter {
    /// The index of the global scope.
    pub global: usize,
    environment: Environment,
    work: Vec<Task>,
    values: Vec<Value>,
    waiting: bool,
}

/// The value that stands for the host's clock.
pub open spec fn clock_value() -> ValueView {
    ValueView::Callable {
        callable: CallableView::NativeFunction {
            arity: 0,
            call: Native::Clock,
            value: "<native fn>"@,
        },
    }
}

impl Interpreter {
    pub closed spec fn view(&self) -> Machine {
        Machine {
            tasks: task_views(self.work@),
            operands: value_views(self.values@),
            scopes: self.environment,
            waiting: self.waiting,
            global: self.global as nat,
        }
    }

    /// The scopes are well formed.
    pub open spec fn well_formed(&self) -> bool {
        self@.scopes.well_formed()
    }

    /// A machine without work, with one scope, the global one, in which
    /// `clock` is bound to the host's clock and nothing else is bound.
    pub fn new() -> (interpreter: Interpreter)
        ensures
            interpreter.well_formed(),
            interpreter@.tasks == Seq::<TaskView>::empty(),
            interpreter@.operands == Seq::<ValueView>::empty(),
            !interpreter@.waiting,
            interpreter@.global == 0,
            interpreter@.scopes.size() == 1,
            interpreter@.scopes.cursor() == 0,
            interpreter@.scopes.parent(0) is None,
            forall|k: Seq<char>| #[trigger]
                interpreter@.scopes.local(0, k) == if k == "clock"@ {
                    Some(clock_value())
                } else {
                    None
                },
    {
        let mut environment = Environment::new(None);
        // Native function definitions
        let name = Token {
            ttype: TokenType::IDENTIFIER,
            lexeme: String::from_str("clock"),
            literal: None,
            line: 0,
        };
        let clock = Value::Callable {
            callable: Callable::NativeFunction {
                arity: 0,
                call: Native::Clock,
                value: String::from_str("<native fn>"),
            },
        };
        environment.define(&name, &clock);
        let interpreter = Interpreter {
            global: 0,
            environment,
            work: Vec::new(),
            values: Vec::new(),
            waiting: false,
        };
        assert(interpreter@.tasks =~= Seq::<TaskView>::empty());
        assert(interpreter@.operands =~= Seq::<ValueView>::empty());
        interpreter
    }

    /// The scopes, for reading.
    pub fn environment(&self) -> (scopes: &Environment)
        ensures
            *scopes == self@.scopes,
    {
        &self.environment
    }

    /// Whether nothing is left to do and the machine waits for nothing.
    pub fn is_finished(&self) -> (done: bool)
        ensures
            done == (self@.tasks.len() == 0 && !self@.waiting),
    {
        self.work.len() == 0 && !self.waiting
    }

    /// Whether the machine waits for a number from the host.
    pub fn is_waiting(&self) -> (waiting: bool)
        ensures
            waiting == self@.waiting,
    {
        self.waiting
    }

    fn push_task(&mut self, task: Task)
        ensures
            final(self)@ == (Machine { tasks: old(self)@.tasks.push(task@), ..old(self)@ }),
    {
        self.work.push(task);
        assert(task_views(self.work@) =~= task_views(old(self).work@).push(task@));
    }

    fn push_value(&mut self, value: Value)
        ensures
            final(self)@ == (Machine { operands: old(self)@.operands.push(value@), ..old(self)@ }),
    {
        self.values.push(value);
        assert(value_views(self.values@) =~= value_views(old(self).values@).push(value@));
    }

    /// Takes the value on top of the operands; `Nil` where there is none.
    fn pop_value(&mut self) -> (value: Value)
        ensures
            value@ == top(old(self)@.operands),
            final(self)@ == (Machine { operands: below(old(self)@.operands), ..old(self)@ }),
    {
        match self.values.pop() {
            Some(value) => {
                assert(value_views(self.values@) =~= value_views(old(self).values@).drop_last());
                value
            },
            None => Value::Nil,
        }
    }

    /// Makes a scope current, if it is one.
    fn select(&mut self, scope: usize)
        requires
            old(self).well_formed(),
        ensures
            final(self)@.tasks == old(self)@.tasks,
            final(self)@.operands == old(self)@.operands,
            final(self)@.waiting == old(self)@.waiting,
            final(self)@.global == old(self)@.global,
            selects(old(self)@.scopes, final(self)@.scopes, scope as nat),
    {
        if scope < self.environment.len() {
            self.environment.select(scope);
        }
    }

    /// Abandons the program: drops all work and all operands and leaves
    /// every block and call.
    fn abandon(&mut self, error: InterpreterError) -> (action: Action)
        requires
            old(self).well_formed(),
        ensures
            abandons(old(self)@, final(self)@, action@, error@),
    {
        loop
            invariant
                self.well_formed(),
                self@.scopes.same_scopes(&old(self)@.scopes),
                self@.global == old(self)@.global,
                unwound(self@.tasks, self@.scopes.cursor(), self@.scopes.size()) == unwound(
                    old(self)@.tasks,
                    old(self)@.scopes.cursor(),
                    old(self)@.scopes.size(),
                ),
            ensures
                self.well_formed(),
                self@.scopes.same_scopes(&old(self)@.scopes),
                self@.global == old(self)@.global,
                self@.tasks.len() == 0,
                self@.scopes.cursor() == unwound(
                    old(self)@.tasks,
                    old(self)@.scopes.cursor(),
                    old(self)@.scopes.size(),
                ),
            decreases self.work.len(),
        {
            let ghost before = self@;
            match self.work.pop() {
                Some(task) => {
                    assert(task_views(self.work@) =~= before.tasks.drop_last());
                    assert(task@ == before.tasks.last());
                    match task {
                        Task::Restore { environment } => {
                            self.select(environment);
                        },
                        Task::Boundary { environment } => {
                            self.select(environment);
                        },
                        _ => {},
                    }
                },
                None => {
                    break ;
                },
            }
        }
        self.values = Vec::new();
        self.waiting = false;
        assert(self@.tasks =~= Seq::<TaskView>::empty());
        assert(self@.operands =~= Seq::<ValueView>::empty());
        Action::Failed { error }
    }
}

impl Interpreter {
    /// Takes the first step of evaluating an expression.
    pub fn evaluate(&mut self, expr: &Expr) -> (action: Action)
        requires
            old(self).well_formed(),
        ensures
            final(self).well_formed(),
            begins(old(self)@, expr@, final(self)@, action@),
    {
        expr.accept(self)
    }
}

impl ExprVisitor<Action> for Interpreter {
    open spec fn ready_for_expr(&self) -> bool {
        self.well_formed()
    }

    open spec fn visited_expr(&self, before: &Self, expr: &Expr, result: &Action) -> bool {
        begins(before@, expr@, self@, result@)
    }

    /// A binary expression: the left operand is evaluated first, then the
    /// right one, then the operator is applied to their values.
    fn visit_binary_expr(&mut self, expr: &Expr) -> (action: Action) {
        match expr {
            Expr::Binary { left, operator, right } => {
                self.push_task(Task::Binary { operator: operator.duplicate() });
                self.push_task(Task::Evaluate { expression: right.duplicate() });
                self.push_task(Task::Evaluate { expression: left.duplicate() });
                Action::Continue
            },
            _ => Action::Continue,
        }
    }

    /// A grouping: its value is that of the expression inside.
    fn visit_grouping_expr(&mut self, expr: &Expr) -> (action: Action) {
        match expr {
            Expr::Grouping { expression } => {
                self.push_task(Task::Evaluate { expression: expression.duplicate() });
                Action::Continue
            },
            _ => Action::Continue,
        }
    }

    /// A literal: its value is the one it holds.
    fn visit_literal_expr(&mut self, expr: &Expr) -> (action: Action) {
        match expr {
            Expr::Literal { value } => {
                self.push_value(value.duplicate());
                Action::Continue
            },
            _ => Action::Continue,
        }
    }

    /// A unary expression: the operand is evaluated, then the operator is
    /// applied to its value.
    fn visit_unary_expr(&mut self, expr: &Expr) -> (action: Action) {
        match expr {
            Expr::Unary { operator, right } => {
                self.push_task(Task::Unary { operator: operator.duplicate() });
                self.push_task(Task::Evaluate { expression: right.duplicate() });
                Action::Continue
            },
            _ => Action::Continue,
        }
    }

    /// A variable: its value is looked up from the current scope outwards;
    /// a name that no scope binds abandons the program.
    fn visit_variable_expr(&mut self, expr: &Expr) -> (action: Action) {
        match expr {
            Expr::Variable { name } => {
                match self.environment.get(name.duplicate()) {
                    Ok(value) => {
                        self.push_value(value);
                        Action::Continue
                    },
                    Err(error) => self.abandon(error),
                }
            },
            _ => Action::Continue,
        }
    }

    /// An assignment: the value is evaluated, then assigned.
    fn visit_assign_expr(&mut self, expr: &Expr) -> (action: Action) {
        match expr {
            Expr::Assign { name, value } => {
                self.push_task(Task::Assign { name: name.duplicate() });
                self.push_task(Task::Evaluate { expression: value.duplicate() });
                Action::Continue
            },
            _ => Action::Continue,
        }
    }

    /// `and` and `or`: the left operand is evaluated first; whether the
    /// right one is evaluated at all is decided by the left one's value.
    fn visit_logical_expr(&mut self, expr: &Expr) -> (action: Action) {
        match expr {
            Expr::Logical { left, operator, right } => {
                self.push_task(
                    Task::Logical { operator: operator.duplicate(), right: right.duplicate() },
                );
                self.push_task(Task::Evaluate { expression: left.duplicate() });
                Action::Continue
            },
            _ => Action::Continue,
        }
    }

    /// A call: the callee is evaluated first, then the arguments from left
    /// to right, then the callee's value is called with theirs.
    fn visit_call_expr(&mut self, expr: &Expr) -> (action: Action) {
        match expr {
            Expr::Call { callee, paren, arguments } => {
                self.push_task(Task::Invoke { paren: paren.duplicate(), count: arguments.len() });
                let ghost base = self@;
                let ghost all = argument_tasks(expr_views(*arguments));
                let mut i: usize = arguments.len();
                while i > 0
                    invariant
                        i <= arguments.len(),
                        all == argument_tasks(expr_views(*arguments)),
                        self@ == (Machine {
                            tasks: base.tasks + all.take(arguments.len() - i),
                            ..base
                        }),
                    decreases i,
                {
                    i -= 1;
                    let ghost before = self@.tasks;
                    self.push_task(Task::Evaluate { expression: arguments[i].duplicate() });
                    proof {
                        let k = arguments.len() - i - 1;
                        assert(all[k] == (TaskView::Evaluate { expression: arguments[i as int]@ }));
                        assert(base.tasks + all.take(k + 1) =~= (base.tasks + all.take(k)).push(
                            all[k],
                        ));
                    }
                }
                proof {
                    assert(all.take(arguments.len() as int) =~= all);
                }
                self.push_task(Task::Evaluate { expression: callee.duplicate() });
                Action::Continue
            },
            _ => Action::Continue,
        }
    }
}

impl Interpreter {
    /// Schedules a program: its statements run in order, after whatever
    /// work is pending already.
    pub fn interpret(&mut self, statements: &Vec<Stmt>)
        requires
            old(self).well_formed(),
        ensures
            final(self).well_formed(),
            settles(
                old(self)@,
                final(self)@,
                old(self)@.tasks.push(
                    TaskView::Statements { statements: stmt_views(*statements), next: 0 },
                ),
                old(self)@.operands,
            ),
    {
        self.push_task(Task::Statements { statements: duplicate_statements(statements), next: 0 });
    }

    /// Takes the first step of running a statement.
    pub fn execute(&mut self, stmt: &Stmt) -> (action: Action)
        requires
            old(self).well_formed(),
        ensures
            final(self).well_formed(),
            starts(old(self)@, stmt@, final(self)@, action@),
    {
        stmt.accept(self)
    }

    /// Schedules statements to run in a scope, and the return to the scope
    /// that is current now after the last of them.
    pub fn execute_block(&mut self, statements: &Vec<Stmt>, environment: usize)
        requires
            old(self).well_formed(),
        ensures
            final(self).well_formed(),
            final(self)@.tasks == old(self)@.tasks.push(
                TaskView::Restore { environment: old(self)@.scopes.cursor() },
            ).push(TaskView::Statements { statements: stmt_views(*statements), next: 0 }),
            final(self)@.operands == old(self)@.operands,
            selects(old(self)@.scopes, final(self)@.scopes, environment as nat),
            final(self)@.waiting == old(self)@.waiting,
            final(self)@.global == old(self)@.global,
    {
        let previous = self.environment.current();
        self.push_task(Task::Restore { environment: previous });
        self.push_task(Task::Statements { statements: duplicate_statements(statements), next: 0 });
        self.select(environment);
    }
}

impl StmtVisitor<Action> for Interpreter {
    open spec fn ready_for_stmt(&self) -> bool {
        self.well_formed()
    }

    open spec fn visited_stmt(&self, before: &Self, stmt: &Stmt, result: &Action) -> bool {
        starts(before@, stmt@, self@, result@)
    }

    /// An expression statement: the expression is evaluated and its value
    /// dropped.
    fn visit_expression_stmt(&mut self, stmt: &Stmt) -> (action: Action) {
        match stmt {
            Stmt::Expression { expr } => {
                self.push_task(Task::Discard);
                self.push_task(Task::Evaluate { expression: expr.duplicate() });
                Action::Continue
            },
            _ => Action::Continue,
        }
    }

    /// A print statement: the expression is evaluated and its value printed.
    fn visit_print_stmt(&mut self, stmt: &Stmt) -> (action: Action) {
        match stmt {
            Stmt::Print { expr } => {
                self.push_task(Task::Print);
                self.push_task(Task::Evaluate { expression: expr.duplicate() });
                Action::Continue
            },
            _ => Action::Continue,
        }
    }

    /// A variable declaration: the name is bound in the current scope, to
    /// the initializer's value or to `Nil`.
    fn visit_variable_stmt(&mut self, stmt: &Stmt) -> (action: Action) {
        match stmt {
            Stmt::Var { name, initializer } => {
                match initializer {
                    Some(initializer_expression) => {
                        self.push_task(Task::Define { name: name.duplicate() });
                        self.push_task(
                            Task::Evaluate { expression: initializer_expression.duplicate() },
                        );
                    },
                    None => {
                        self.environment.define(name, &Value::Nil);
                        proof {
                            assert(binds(
                                old(self)@,
                                self@,
                                ActionView::Continue,
                                old(self)@.scopes.cursor() as int,
                                name@.lexeme,
                                ValueView::Nil,
                                old(self)@.operands,
                            ));
                        }
                    },
                }
                Action::Continue
            },
            _ => Action::Continue,
        }
    }

    /// A block: its statements run in a new scope inside the current one,
    /// and the current scope is current again after them.
    fn visit_block_stmt(&mut self, stmt: &Stmt) -> (action: Action) {
        match stmt {
            Stmt::Block { statements } => {
                let previous = self.environment.current();
                proof {
                    self.environment.structure();
                }
                self.push_task(Task::Restore { environment: previous });
                self.push_task(
                    Task::Statements { statements: duplicate_statements(statements), next: 0 },
                );
                self.environment.enter(previous);
                Action::Continue
            },
            _ => Action::Continue,
        }
    }

    /// An `if` statement: the condition is evaluated, then one branch runs.
    fn visit_if_stmt(&mut self, stmt: &Stmt) -> (action: Action) {
        match stmt {
            Stmt::If { condition, then_branch, else_branch } => {
                let otherwise = match else_branch {
                    Some(else_stmt) => Some(else_stmt.duplicate()),
                    None => None,
                };
                self.push_task(
                    Task::Branch { then_branch: then_branch.duplicate(), else_branch: otherwise },
                );
                self.push_task(Task::Evaluate { expression: condition.duplicate() });
                Action::Continue
            },
            _ => Action::Continue,
        }
    }

    /// A `while` statement: the condition is evaluated; as long as its
    /// value is truthy the body runs and the condition is evaluated again.
    fn visit_while_stmt(&mut self, stmt: &Stmt) -> (action: Action) {
        match stmt {
            Stmt::While { condition, body } => {
                self.push_task(
                    Task::Loop { condition: condition.duplicate(), body: body.duplicate() },
                );
                self.push_task(Task::Evaluate { expression: condition.duplicate() });
                Action::Continue
            },
            _ => Action::Continue,
        }
    }

    /// A function declaration: the name is bound, in the current scope, to
    /// a function that closes over the current scope.
    fn visit_function_stmt(&mut self, stmt: &Stmt) -> (action: Action) {
        match stmt {
            Stmt::Function { name, .. } => {
                let function = Value::Callable {
                    callable: Callable::Function {
                        declaration: Box::new(stmt.duplicate()),
                        closure: self.environment.current(),
                    },
                };
                self.environment.define(name, &function);
                proof {
                    assert(self@.tasks == old(self)@.tasks);
                    assert(self@.operands == old(self)@.operands);
                    assert(stmt@ is Function);
                    assert(stmt@->Function_name == name@);
                    assert(function@ == (ValueView::Callable {
                        callable: CallableView::Function {
                            declaration: Box::new(stmt@),
                            closure: old(self)@.scopes.cursor(),
                        },
                    }));
                    assert(binds(
                        old(self)@,
                        self@,
                        ActionView::Continue,
                        old(self)@.scopes.cursor() as int,
                        name@.lexeme,
                        function@,
                        old(self)@.operands,
                    ));
                }
                Action::Continue
            },
            _ => Action::Continue,
        }
    }

    /// A `return` statement: the value is evaluated, then the call that the
    /// statement belongs to is left with it.
    fn visit_return_stmt(&mut self, stmt: &Stmt) -> (action: Action) {
        match stmt {
            Stmt::Return { value, .. } => {
                self.push_task(Task::Return);
                self.push_task(Task::Evaluate { expression: value.duplicate() });
                Action::Continue
            },
            _ => Action::Continue,
        }
    }
}

/// Builds the failure of a call with the wrong number of arguments.
pub fn arity_error(operator: TokenType, expected: usize, got: usize) -> (failure: InterpreterError)
    ensures
        failure@ == runtime_error(operator, arity_message(expected as nat, got as nat)),
{
    let mut error = String::from_str("Expected ");
    error.append(decimal_text(expected).as_str());
    error.append(" arguments but got ");
    error.append(decimal_text(got).as_str());
    error.append(".");
    InterpreterError::new_runtime_error(operator, error)
}

/// Builds the failure of calling what cannot be called.
pub fn not_callable_error(operator: TokenType) -> (failure: InterpreterError)
    ensures
        failure@ == runtime_error(operator, "Can only call functions and classes."@),
{
    InterpreterError::new_runtime_error(
        operator,
        String::from_str("Can only call functions and classes."),
    )
}

impl Interpreter {
    /// Whether two values are equal: different variants never are, numbers
    /// compare as IEEE-754 doubles, everything else structurally.
    pub fn values_are_equal(left: &Value, right: &Value) -> (equal: bool)
        ensures
            equal == left@.equals(right@),
    {
        match (left, right) {
            (Value::Double { value: a }, Value::Double { value: b }) => number::equal(*a, *b),
            (Value::Double { .. }, _) => false,
            (_, Value::Double { .. }) => false,
            _ => left.same(right),
        }
    }

    /// Whether a value counts as true.
    pub fn is_truthy(&self, val: &Value) -> (yes: bool)
        ensures
            yes == val@.truthy(),
    {
        truthy(val)
    }

    /// The value of `left == right`.
    pub fn is_equal(&self, left: &Value, right: &Value) -> (value: Value)
        ensures
            value@ == (ValueView::Boolean { value: left@.equals(right@) }),
    {
        Value::Boolean { value: Self::values_are_equal(left, right) }
    }

    /// The value of `left != right`.
    pub fn is_not_equal(&self, left: &Value, right: &Value) -> (value: Value)
        ensures
            value@ == (ValueView::Boolean { value: !left@.equals(right@) }),
    {
        Value::Boolean { value: !Self::values_are_equal(left, right) }
    }

    /// Whether a callable can be called in the machine's scopes.
    pub fn can_call(&self, callable: &Callable) -> (yes: bool)
        ensures
            yes == callable_here(callable@, self@.scopes),
    {
        match callable {
            Callable::NativeFunction { .. } => true,
            Callable::Function { declaration, closure } => {
                let declared = match &**declaration {
                    Stmt::Function { .. } => true,
                    _ => false,
                };
                declared && *closure < self.environment.len()
            },
        }
    }

    /// Calls a callable with as many values as it has parameters.
    pub fn call_function(&mut self, callable: &Callable, values: &Vec<Value>) -> (action: Action)
        requires
            old(self).well_formed(),
            callable_here(callable@, old(self)@.scopes),
            values.len() == callable@.arity(),
        ensures
            final(self).well_formed(),
            calls(old(self)@, callable@, value_views(values@), final(self)@, action@),
    {
        match callable {
            Callable::NativeFunction { call, .. } => match call {
                Native::Clock => {
                    self.waiting = true;
                    Action::Clock
                },
            },
            Callable::Function { declaration, closure } => match &**declaration {
                Stmt::Function { params, body, .. } => {
                    let previous = self.environment.current();
                    let scope = self.environment.enter(*closure);
                    let ghost names = token_views(params@);
                    let ghost given = value_views(values@);
                    let mut i: usize = 0;
                    while i < params.len()
                        invariant
                            i <= params.len(),
                            params.len() == values.len(),
                            names == token_views(params@),
                            given == value_views(values@),
                            scope == old(self)@.scopes.size(),
                            self.environment.well_formed(),
                            self.environment.size() == scope + 1,
                            self.environment.cursor() == scope,
                            self.environment.parent(scope as int) == Some(*closure as nat),
                            forall|s: int|
                                0 <= s < scope ==> self.environment.parent(s) == old(
                                    self,
                                )@.scopes.parent(s),
                            forall|s: int, k: Seq<char>|
                                0 <= s < scope ==> self.environment.local(s, k) == old(
                                    self,
                                )@.scopes.local(s, k),
                            forall|k: Seq<char>| #[trigger]
                                self.environment.local(scope as int, k) == argument_for(
                                    names,
                                    given,
                                    k,
                                    i as int,
                                ),
                            self.work == old(self).work,
                            self.values == old(self).values,
                            self.waiting == old(self).waiting,
                            self.global == old(self).global,
                        decreases params.len() - i,
                    {
                        let ghost before = self.environment;
                        self.environment.define(&params[i], &values[i]);
                        proof {
                            assert(names[i as int].lexeme == params[i as int].lexeme@);
                            assert(given[i as int] == values[i as int]@);
                            assert forall|k: Seq<char>| #[trigger]
                                self.environment.local(scope as int, k) == argument_for(
                                    names,
                                    given,
                                    k,
                                    i + 1,
                                ) by {
                                assert(before.local(scope as int, k) == argument_for(
                                    names,
                                    given,
                                    k,
                                    i as int,
                                ));
                            }
                        }
                        i += 1;
                    }
                    self.push_task(Task::Boundary { environment: previous });
                    self.push_task(
                        Task::Statements { statements: duplicate_statements(body), next: 0 },
                    );
                    Action::Continue
                },
                _ => Action::Continue,
            },
        }
    }

    /// Runs the statement at `next` and schedules the ones after it.
    fn run_statements(&mut self, statements: Vec<Stmt>, next: usize) -> (action: Action)
        requires
            old(self).well_formed(),
        ensures
            final(self).well_formed(),
            runs(
                old(self)@,
                TaskView::Statements { statements: stmt_views(statements), next: next as nat },
                final(self)@,
                action@,
            ),
    {
        if next < statements.len() {
            let statement = statements[next].duplicate();
            self.push_task(Task::Statements { statements, next: next + 1 });
            self.push_task(Task::Execute { statement });
        }
        Action::Continue
    }

    /// Hands the value on top of the operands to the host for printing.
    fn print(&mut self) -> (action: Action)
        requires
            old(self).well_formed(),
        ensures
            final(self).well_formed(),
            runs(old(self)@, TaskView::Print, final(self)@, action@),
    {
        let value = self.pop_value();
        match value.to_string() {
            Some(text) => Action::Print { text },
            None => match value {
                Value::Double { value } => Action::PrintNumber { value },
                _ => Action::Continue,
            },
        }
    }

    /// Keeps the left operand's value, or schedules the right operand.
    fn logical(&mut self, operator: Token, right: Expr) -> (action: Action)
        requires
            old(self).well_formed(),
        ensures
            final(self).well_formed(),
            runs(
                old(self)@,
                TaskView::Logical { operator: operator@, right: right@ },
                final(self)@,
                action@,
            ),
    {
        let left = self.pop_value();
        let keep = if operator.ttype == TokenType::OR {
            truthy(&left)
        } else {
            !truthy(&left)
        };
        if keep {
            self.push_value(left);
        } else {
            self.push_task(Task::Evaluate { expression: right });
        }
        Action::Continue
    }

    /// Runs a branch of an `if`, by the condition's value.
    fn branch(&mut self, then_branch: Stmt, else_branch: Option<Stmt>) -> (action: Action)
        requires
            old(self).well_formed(),
        ensures
            final(self).well_formed(),
            runs(
                old(self)@,
                (Task::Branch { then_branch, else_branch })@,
                final(self)@,
                action@,
            ),
    {
        let value = self.pop_value();
        if truthy(&value) {
            self.push_task(Task::Execute { statement: then_branch });
        } else {
            match else_branch {
                Some(statement) => {
                    self.push_task(Task::Execute { statement });
                },
                None => {},
            }
        }
        Action::Continue
    }

    /// Runs a loop's body once more, or leaves the loop, by the condition's
    /// value.
    fn repeat(&mut self, condition: Expr, body: Stmt) -> (action: Action)
        requires
            old(self).well_formed(),
        ensures
            final(self).well_formed(),
            runs(
                old(self)@,
                TaskView::Loop { condition: condition@, body: body@ },
                final(self)@,
                action@,
            ),
    {
        let value = self.pop_value();
        if truthy(&value) {
            let again = condition.duplicate();
            let statement = body.duplicate();
            self.push_task(Task::Loop { condition, body });
            self.push_task(Task::Evaluate { expression: again });
            self.push_task(Task::Execute { statement });
        }
        Action::Continue
    }

    /// Acts on the outcome of an operator.
    fn conclude(&mut self, outcome: Outcome) -> (action: Action)
        requires
            old(self).well_formed(),
        ensures
            final(self).well_formed(),
            concludes(old(self)@, final(self)@, action@, outcome@, old(self)@.operands),
    {
        match outcome {
            Outcome::Value { value } => {
                self.push_value(value);
                Action::Continue
            },
            Outcome::Ask { operator, left, right } => {
                self.waiting = true;
                Action::Arithmetic { operator, left, right }
            },
            Outcome::Failure { error } => self.abandon(error),
        }
    }

    /// Assigns the value on top of the operands to a name; the value stays.
    fn assign(&mut self, name: Token) -> (action: Action)
        requires
            old(self).well_formed(),
        ensures
            final(self).well_formed(),
            runs(old(self)@, TaskView::Assign { name: name@ }, final(self)@, action@),
    {
        let value = self.pop_value();
        match self.environment.assign(&name, &value) {
            Ok(assigned) => {
                self.push_value(assigned);
                Action::Continue
            },
            Err(error) => self.abandon(error),
        }
    }

    /// Leaves the nearest call with a value.
    fn unwind(&mut self, value: Value) -> (action: Action)
        requires
            old(self).well_formed(),
        ensures
            final(self).well_formed(),
            unwinds(old(self)@, value@, final(self)@, action@),
    {
        let mut i: usize = self.work.len();
        proof {
            assert(self@.tasks.take(i as int) =~= self@.tasks);
        }
        while i > 0 && !is_boundary(&self.work[i - 1])
            invariant
                i <= self.work.len(),
                *self == *old(self),
                boundary(self@.tasks) == boundary(self@.tasks.take(i as int)),
            decreases i,
        {
            proof {
                assert(self@.tasks.take(i as int).drop_last() =~= self@.tasks.take(i - 1));
            }
            i -= 1;
        }
        if i == 0 {
            self.abandon(InterpreterError::Return { value })
        } else {
            let environment = match &self.work[i - 1] {
                Task::Boundary { environment } => *environment,
                _ => 0,
            };
            proof {
                assert(self@.tasks.take(i as int).last() == self@.tasks[i - 1]);
            }
            self.work.truncate(i - 1);
            proof {
                assert(task_views(self.work@) =~= old(self)@.tasks.take(i - 1));
            }
            self.select(environment);
            self.push_value(value);
            Action::Continue
        }
    }

    /// Calls the value below `count` arguments on the operands.
    fn invoke(&mut self, paren: Token, count: usize) -> (action: Action)
        requires
            old(self).well_formed(),
        ensures
            final(self).well_formed(),
            invokes(old(self)@, paren@, count as nat, final(self)@, action@),
    {
        let mut values: Vec<Value> = Vec::new();
        let mut k: usize = 0;
        proof {
            assert(arguments(self@.operands, count as nat) + value_views(values@) =~= arguments(
                self@.operands,
                count as nat,
            ));
        }
        while k < count
            invariant
                k <= count,
                values.len() == k,
                self@ == (Machine { operands: self@.operands, ..old(self)@ }),
                arguments(old(self)@.operands, count as nat) == arguments(
                    self@.operands,
                    (count - k) as nat,
                ) + value_views(values@),
                below_arguments(old(self)@.operands, count as nat) == below_arguments(
                    self@.operands,
                    (count - k) as nat,
                ),
            decreases count - k,
        {
            let ghost before = self@.operands;
            let ghost taken = value_views(values@);
            let value = self.pop_value();
            values.insert(0, value);
            proof {
                assert(value_views(values@) =~= seq![top(before)] + taken);
                assert(arguments(before, (count - k) as nat) + taken =~= arguments(
                    below(before),
                    (count - k - 1) as nat,
                ) + value_views(values@));
            }
            k += 1;
        }
        proof {
            assert(arguments(self@.operands, 0) + value_views(values@) =~= value_views(values@));
        }
        let callee = self.pop_value();
        match callee {
            Value::Callable { callable } => {
                if !self.can_call(&callable) {
                    self.abandon(not_callable_error(paren.ttype))
                } else if callable.arity() != count {
                    self.abandon(arity_error(paren.ttype, callable.arity(), count))
                } else {
                    self.call_function(&callable, &values)
                }
            },
            _ => self.abandon(not_callable_error(paren.ttype)),
        }
    }

    /// Runs a piece of work that has been taken off the work stack.
    fn run(&mut self, task: Task) -> (action: Action)
        requires
            old(self).well_formed(),
        ensures
            final(self).well_formed(),
            runs(old(self)@, task@, final(self)@, action@),
    {
        match task {
            Task::Execute { statement } => self.execute(&statement),
            Task::Evaluate { expression } => self.evaluate(&expression),
            Task::Statements { statements, next } => self.run_statements(statements, next),
            Task::Restore { environment } => {
                self.select(environment);
                Action::Continue
            },
            Task::Boundary { environment } => {
                self.select(environment);
                self.push_value(Value::Nil);
                Action::Continue
            },
            Task::Discard => {
                let _ = self.pop_value();
                Action::Continue
            },
            Task::Print => self.print(),
            Task::Define { name } => {
                let value = self.pop_value();
                self.environment.define(&name, &value);
                Action::Continue
            },
            Task::Branch { then_branch, else_branch } => self.branch(then_branch, else_branch),
            Task::Loop { condition, body } => self.repeat(condition, body),
            Task::Return => {
                let value = self.pop_value();
                self.unwind(value)
            },
            Task::Unary { operator } => {
                let right = self.pop_value();
                self.conclude(apply_unary(operator.ttype, &right))
            },
            Task::Binary { operator } => {
                let right = self.pop_value();
                let left = self.pop_value();
                self.conclude(apply_binary(operator.ttype, &left, &right))
            },
            Task::Logical { operator, right } => self.logical(operator, right),
            Task::Assign { name } => self.assign(name),
            Task::Invoke { paren, count } => self.invoke(paren, count),
        }
    }

    /// Does one step: takes the host's answer to the last action, or the
    /// piece of work on top of the work stack, and says what the host is to
    /// do before the next step.
    pub fn step(&mut self, event: Event) -> (action: Action)
        requires
            old(self).well_formed(),
        ensures
            final(self).well_formed(),
            steps(old(self)@, event, final(self)@, action@),
    {
        if self.waiting {
            match event {
                Event::Number { value } => {
                    self.waiting = false;
                    self.push_value(Value::Double { value });
                    Action::Continue
                },
                Event::Resume => Action::Waiting,
            }
        } else {
            match self.work.pop() {
                Some(task) => {
                    proof {
                        assert(task_views(self.work@) =~= old(self)@.tasks.drop_last());
                        assert(task@ == old(self)@.tasks.last());
                    }
                    self.run(task)
                },
                None => Action::Finished,
            }
        }
    }
}

/// Whether a piece of work is a call boundary.
fn is_boundary(task: &Task) -> (yes: bool)
    ensures
        yes == (task@ is Boundary),
{
    match task {
        Task::Boundary { .. } => true,
        _ => false,
    }
}

/// Arithmetic and comparison want two numbers: with a left operand that is
/// a number and a right operand that is none, every operator but `==` and
/// `!=` fails, and the failure names the operator.
pub proof fn a_number_and_no_number_is_a_failure(operator: TokenType, left: u64, right: ValueView)
    requires
        operator != TokenType::EQUAL_EQUAL,
        operator != TokenType::BANG_EQUAL,
        !(right is Double),
    ensures
        binary_outcome(operator, ValueView::Double { value: left }, right) is Failure,
        binary_outcome(
            operator,
            ValueView::Double { value: left },
            right,
        )->error->RuntimeError_operator == operator,
{
}

/// `+` is the only operator that strings have besides `==` and `!=`, and
/// it joins two strings: every other operator on a string, and `+` with a
/// value that is no string, fails, and the failure names the operator.
pub proof fn strings_can_only_be_joined(operator: TokenType, left: Seq<char>, right: ValueView)
    requires
        operator != TokenType::EQUAL_EQUAL,
        operator != TokenType::BANG_EQUAL,
    ensures
        match binary_outcome(operator, ValueView::String { value: left }, right) {
            OutcomeView::Value { value } => {
                &&& operator == TokenType::PLUS
                &&& right is String
                &&& value == (ValueView::String { value: left + right->String_value })
            },
            OutcomeView::Ask { .. } => false,
            OutcomeView::Failure { error } => {
                &&& operator != TokenType::PLUS || !(right is String)
                &&& error is RuntimeError
                &&& error->operator == operator
            },
        },
{
}

/// `==` and `!=` never fail, whatever the operands, and are each other's
/// negation.
pub proof fn equality_is_defined_on_all_values(left: ValueView, right: ValueView)
    ensures
        binary_outcome(TokenType::EQUAL_EQUAL, left, right) == boolean(left.equals(right)),
        binary_outcome(TokenType::BANG_EQUAL, left, right) == boolean(!left.equals(right)),
        !(left is Double) || !(right is Double) ==> left.equals(right) == (left == right),
{
}

} // verus!
