//! What one step of the machine does, stated over its state as the
//! contracts see it: for every piece of work, the work and the operands
//! that it leaves behind, what it does to the scopes, and the action that
//! the host is handed.

use vstd::prelude::*;
use crate::environment::Environment;
use crate::expression::{ExprView, StmtView};
use crate::interpreter::{
    ActionView,
    Event,
    InterpreterErrorView,
    Machine,
    OutcomeView,
    TaskView,
    binary_outcome,
    unary_outcome,
    undefined_variable,
};
use crate::text::decimal;
use crate::token::{CallableView, Native, TokenType, TokenView, ValueView};

verus! {

/// The value on top of an operand stack and the stack below it. A stack
/// that holds nothing yields `Nil`.
pub open spec fn top(operands: Seq<ValueView>) -> ValueView {
    if operands.len() > 0 {
        operands.last()
    } else {
        ValueView::Nil
    }
}

pub open spec fn below(operands: Seq<ValueView>) -> Seq<ValueView> {
    if operands.len() > 0 {
        operands.drop_last()
    } else {
        operands
    }
}

/// The `count` values on top of an operand stack, bottom first.
pub open spec fn arguments(operands: Seq<ValueView>, count: nat) -> Seq<ValueView>
    decreases count,
{
    if count == 0 {
        Seq::empty()
    } else {
        arguments(below(operands), (count - 1) as nat).push(top(operands))
    }
}

/// The operand stack below its `count` topmost values.
pub open spec fn below_arguments(operands: Seq<ValueView>, count: nat) -> Seq<ValueView>
    decreases count,
{
    if count == 0 {
        operands
    } else {
        below_arguments(below(operands), (count - 1) as nat)
    }
}

/// The scope that is current after every block and call on the work stack
/// has been left: the one that the lowest `Restore` or `Boundary` names.
pub open spec fn unwound(tasks: Seq<TaskView>, cursor: nat, size: nat) -> nat
    decreases tasks.len(),
{
    if tasks.len() == 0 {
        cursor
    } else {
        let next = match tasks.last() {
            TaskView::Restore { environment } => if environment < size {
                environment
            } else {
                cursor
            },
            TaskView::Boundary { environment } => if environment < size {
                environment
            } else {
                cursor
            },
            _ => cursor,
        };
        unwound(tasks.drop_last(), next, size)
    }
}

/// The index of the topmost call boundary on the work stack.
pub open spec fn boundary(tasks: Seq<TaskView>) -> Option<int>
    decreases tasks.len(),
{
    if tasks.len() == 0 {
        None
    } else if tasks.last() is Boundary {
        Some(tasks.len() - 1)
    } else {
        boundary(tasks.drop_last())
    }
}

/// The tasks that evaluate a call's arguments: pushed last to first, so
/// that the first argument is evaluated first.
pub open spec fn argument_tasks(arguments: Seq<ExprView>) -> Seq<TaskView> {
    Seq::new(
        arguments.len(),
        |i: int| TaskView::Evaluate { expression: arguments[arguments.len() - 1 - i] },
    )
}

/// The value that a call binds to a name: that of the last of the first
/// `upto` parameters that has this name.
pub open spec fn argument_for(
    params: Seq<TokenView>,
    values: Seq<ValueView>,
    name: Seq<char>,
    upto: int,
) -> Option<ValueView>
    decreases upto,
{
    if upto <= 0 {
        None
    } else if params[upto - 1].lexeme == name {
        Some(values[upto - 1])
    } else {
        argument_for(params, values, name, upto - 1)
    }
}

/// The message of a call with the wrong number of arguments.
pub open spec fn arity_message(expected: nat, got: nat) -> Seq<char> {
    "Expected "@ + decimal(expected) + " arguments but got "@ + decimal(got) + "."@
}

pub open spec fn runtime_error(operator: TokenType, message: Seq<char>) -> InterpreterErrorView {
    InterpreterErrorView::RuntimeError { operator, error: message }
}

/// Nothing changes but the work and the operands.
pub open spec fn settles(
    pre: Machine,
    post: Machine,
    tasks: Seq<TaskView>,
    operands: Seq<ValueView>,
) -> bool {
    &&& post.tasks == tasks
    &&& post.operands == operands
    &&& post.scopes.well_formed()
    &&& post.scopes.same_bindings(&pre.scopes)
    &&& post.waiting == pre.waiting
    &&& post.global == pre.global
}

/// The step settles and the next one may follow.
pub open spec fn proceeds(
    pre: Machine,
    post: Machine,
    action: ActionView,
    tasks: Seq<TaskView>,
    operands: Seq<ValueView>,
) -> bool {
    settles(pre, post, tasks, operands) && action == ActionView::Continue
}

/// One binding is set, and the work and the operands are as given.
pub open spec fn binds(
    pre: Machine,
    post: Machine,
    action: ActionView,
    scope: int,
    name: Seq<char>,
    value: ValueView,
    operands: Seq<ValueView>,
) -> bool {
    &&& post.tasks == pre.tasks
    &&& post.operands == operands
    &&& post.scopes.well_formed()
    &&& post.scopes.binds(&pre.scopes, scope, name, value)
    &&& post.waiting == pre.waiting
    &&& post.global == pre.global
    &&& action == ActionView::Continue
}

/// The cursor moves to `scope` where that is a scope, and stays where it
/// is otherwise; no binding changes.
pub open spec fn selects(pre: Environment, post: Environment, scope: nat) -> bool {
    &&& post.well_formed()
    &&& post.same_scopes(&pre)
    &&& post.cursor() == if scope < pre.size() {
        scope
    } else {
        pre.cursor()
    }
}

/// A new, empty scope inside `parent` is made and is the current one.
pub open spec fn enters(pre: Environment, post: Environment, parent: nat) -> bool {
    &&& post.well_formed()
    &&& post.size() == pre.size() + 1
    &&& post.cursor() == pre.size()
    &&& post.parent(pre.size() as int) == Some(parent)
    &&& forall|s: int| 0 <= s < pre.size() ==> post.parent(s) == pre.parent(s)
    &&& forall|s: int, k: Seq<char>| 0 <= s < pre.size() ==> post.local(s, k) == pre.local(s, k)
}

/// The program is abandoned: all work and all operands are dropped, every
/// block and call is left, and the host is told why.
pub open spec fn abandons(
    pre: Machine,
    post: Machine,
    action: ActionView,
    error: InterpreterErrorView,
) -> bool {
    &&& post.tasks == Seq::<TaskView>::empty()
    &&& post.operands == Seq::<ValueView>::empty()
    &&& post.scopes.well_formed()
    &&& post.scopes.same_scopes(&pre.scopes)
    &&& post.scopes.cursor() == unwound(pre.tasks, pre.scopes.cursor(), pre.scopes.size())
    &&& !post.waiting
    &&& post.global == pre.global
    &&& action == ActionView::Failed { error }
}

/// The machine asks the host for a number and waits for it.
pub open spec fn asks(
    pre: Machine,
    post: Machine,
    action: ActionView,
    request: ActionView,
    operands: Seq<ValueView>,
) -> bool {
    &&& post.tasks == pre.tasks
    &&& post.operands == operands
    &&& post.scopes.well_formed()
    &&& post.scopes.same_bindings(&pre.scopes)
    &&& post.waiting
    &&& post.global == pre.global
    &&& action == request
}

/// What an operator's outcome does to the machine: its value goes on the
/// operands, its question goes to the host, its failure abandons the
/// program.
pub open spec fn concludes(
    pre: Machine,
    post: Machine,
    action: ActionView,
    outcome: OutcomeView,
    operands: Seq<ValueView>,
) -> bool {
    match outcome {
        OutcomeView::Value { value } => proceeds(pre, post, action, pre.tasks, operands.push(value)),
        OutcomeView::Ask { operator, left, right } => asks(
            pre,
            post,
            action,
            ActionView::Arithmetic { operator, left, right },
            operands,
        ),
        OutcomeView::Failure { error } => abandons(pre, post, action, error),
    }
}

/// The first step of evaluating an expression: a literal's or a variable's
/// value goes on the operands; every other kind schedules its operands and,
/// below them, the work that combines their values.
pub open spec fn begins(pre: Machine, expr: ExprView, post: Machine, action: ActionView) -> bool {
    match expr {
        ExprView::Literal { value } => proceeds(
            pre,
            post,
            action,
            pre.tasks,
            pre.operands.push(value),
        ),
        ExprView::Grouping { expression } => proceeds(
            pre,
            post,
            action,
            pre.tasks.push(TaskView::Evaluate { expression: *expression }),
            pre.operands,
        ),
        ExprView::Unary { operator, right } => proceeds(
            pre,
            post,
            action,
            pre.tasks.push(TaskView::Unary { operator }).push(
                TaskView::Evaluate { expression: *right },
            ),
            pre.operands,
        ),
        ExprView::Binary { left, operator, right } => proceeds(
            pre,
            post,
            action,
            pre.tasks.push(TaskView::Binary { operator }).push(
                TaskView::Evaluate { expression: *right },
            ).push(TaskView::Evaluate { expression: *left }),
            pre.operands,
        ),
        ExprView::Logical { left, operator, right } => proceeds(
            pre,
            post,
            action,
            pre.tasks.push(TaskView::Logical { operator, right: *right }).push(
                TaskView::Evaluate { expression: *left },
            ),
            pre.operands,
        ),
        ExprView::Assign { name, value } => proceeds(
            pre,
            post,
            action,
            pre.tasks.push(TaskView::Assign { name }).push(
                TaskView::Evaluate { expression: *value },
            ),
            pre.operands,
        ),
        ExprView::Variable { name } => match pre.scopes.lookup(
            pre.scopes.cursor() as int,
            name.lexeme,
        ) {
            Some(value) => proceeds(pre, post, action, pre.tasks, pre.operands.push(value)),
            None => abandons(pre, post, action, undefined_variable(name)),
        },
        ExprView::Call { callee, paren, arguments } => proceeds(
            pre,
            post,
            action,
            (pre.tasks.push(TaskView::Invoke { paren, count: arguments.len() }) + argument_tasks(
                arguments,
            )).push(TaskView::Evaluate { expression: *callee }),
            pre.operands,
        ),
    }
}

/// The first step of running a statement.
pub open spec fn starts(pre: Machine, stmt: StmtView, post: Machine, action: ActionView) -> bool {
    match stmt {
        StmtView::Expression { expr } => proceeds(
            pre,
            post,
            action,
            pre.tasks.push(TaskView::Discard).push(TaskView::Evaluate { expression: *expr }),
            pre.operands,
        ),
        StmtView::Print { expr } => proceeds(
            pre,
            post,
            action,
            pre.tasks.push(TaskView::Print).push(TaskView::Evaluate { expression: *expr }),
            pre.operands,
        ),
        StmtView::Var { name, initializer } => match initializer {
            Some(expression) => proceeds(
                pre,
                post,
                action,
                pre.tasks.push(TaskView::Define { name }).push(TaskView::Evaluate { expression }),
                pre.operands,
            ),
            None => binds(
                pre,
                post,
                action,
                pre.scopes.cursor() as int,
                name.lexeme,
                ValueView::Nil,
                pre.operands,
            ),
        },
        StmtView::Block { statements } => {
            &&& post.tasks == pre.tasks.push(
                TaskView::Restore { environment: pre.scopes.cursor() },
            ).push(TaskView::Statements { statements, next: 0 })
            &&& post.operands == pre.operands
            &&& enters(pre.scopes, post.scopes, pre.scopes.cursor())
            &&& post.waiting == pre.waiting
            &&& post.global == pre.global
            &&& action == ActionView::Continue
        },
        StmtView::If { condition, then_branch, else_branch } => proceeds(
            pre,
            post,
            action,
            pre.tasks.push(
                TaskView::Branch {
                    then_branch: *then_branch,
                    else_branch: match else_branch {
                        Some(s) => Some(*s),
                        None => None,
                    },
                },
            ).push(TaskView::Evaluate { expression: condition }),
            pre.operands,
        ),
        StmtView::While { condition, body } => proceeds(
            pre,
            post,
            action,
            pre.tasks.push(TaskView::Loop { condition, body: *body }).push(
                TaskView::Evaluate { expression: condition },
            ),
            pre.operands,
        ),
        StmtView::Function { name, .. } => binds(
            pre,
            post,
            action,
            pre.scopes.cursor() as int,
            name.lexeme,
            ValueView::Callable {
                callable: CallableView::Function {
                    declaration: Box::new(stmt),
                    closure: pre.scopes.cursor(),
                },
            },
            pre.operands,
        ),
        StmtView::Return { value, .. } => proceeds(
            pre,
            post,
            action,
            pre.tasks.push(TaskView::Return).push(TaskView::Evaluate { expression: *value }),
            pre.operands,
        ),
    }
}

/// A `return` with `value`: the work above the nearest call boundary is
/// dropped, the caller's scope is current again, and the value is the
/// call's. Outside any call the program is abandoned with the signal.
pub open spec fn unwinds(pre: Machine, value: ValueView, post: Machine, action: ActionView) -> bool {
    match boundary(pre.tasks) {
        Some(i) => {
            &&& post.tasks == pre.tasks.take(i)
            &&& post.operands == pre.operands.push(value)
            &&& selects(pre.scopes, post.scopes, pre.tasks[i]->Boundary_environment)
            &&& post.waiting == pre.waiting
            &&& post.global == pre.global
            &&& action == ActionView::Continue
        },
        None => abandons(pre, post, action, InterpreterErrorView::Return { value }),
    }
}

/// Whether a callable can be called in these scopes: a function holds a
/// function declaration and closes over one of the scopes.
pub open spec fn callable_here(callable: CallableView, scopes: Environment) -> bool {
    match callable {
        CallableView::NativeFunction { .. } => true,
        CallableView::Function { declaration, closure } => *declaration is Function && closure
            < scopes.size(),
    }
}

/// The call of a callable with as many values as it has parameters. A
/// native function's value is asked of the host. A function gets a new
/// scope inside the one it closed over, with its parameters bound to the
/// values, and its body is scheduled above a call boundary.
pub open spec fn calls(
    pre: Machine,
    callable: CallableView,
    values: Seq<ValueView>,
    post: Machine,
    action: ActionView,
) -> bool {
    match callable {
        CallableView::NativeFunction { call, .. } => match call {
            Native::Clock => asks(pre, post, action, ActionView::Clock, pre.operands),
        },
        CallableView::Function { declaration, closure } => match *declaration {
            StmtView::Function { params, body, .. } => {
                let scope = pre.scopes.size() as int;
                &&& post.tasks == pre.tasks.push(
                    TaskView::Boundary { environment: pre.scopes.cursor() },
                ).push(TaskView::Statements { statements: body, next: 0 })
                &&& post.operands == pre.operands
                &&& post.scopes.well_formed()
                &&& post.scopes.size() == pre.scopes.size() + 1
                &&& post.scopes.cursor() == pre.scopes.size()
                &&& post.scopes.parent(scope) == Some(closure)
                &&& forall|s: int| 0 <= s < scope ==> post.scopes.parent(s) == pre.scopes.parent(s)
                &&& forall|s: int, k: Seq<char>|
                    0 <= s < scope ==> post.scopes.local(s, k) == pre.scopes.local(s, k)
                &&& forall|k: Seq<char>| #[trigger]
                    post.scopes.local(scope, k) == argument_for(
                        params,
                        values,
                        k,
                        params.len() as int,
                    )
                &&& post.waiting == pre.waiting
                &&& post.global == pre.global
                &&& action == ActionView::Continue
            },
            _ => false,
        },
    }
}

/// The call of the value below `count` arguments on the operands. It fails
/// where the value is no callable that can be called here, and where the
/// callable's arity is not `count`.
pub open spec fn invokes(
    pre: Machine,
    paren: TokenView,
    count: nat,
    post: Machine,
    action: ActionView,
) -> bool {
    let values = arguments(pre.operands, count);
    let rest = below_arguments(pre.operands, count);
    let cleared = Machine { operands: below(rest), ..pre };
    match top(rest) {
        ValueView::Callable { callable } => if !callable_here(callable, pre.scopes) {
            abandons(
                pre,
                post,
                action,
                runtime_error(paren.ttype, "Can only call functions and classes."@),
            )
        } else if callable.arity() != count {
            abandons(
                pre,
                post,
                action,
                runtime_error(paren.ttype, arity_message(callable.arity(), count)),
            )
        } else {
            calls(cleared, callable, values, post, action)
        },
        _ => abandons(
            pre,
            post,
            action,
            runtime_error(paren.ttype, "Can only call functions and classes."@),
        ),
    }
}

/// What a piece of work does once it has been taken off the work stack:
/// `pre` is the machine without it.
pub open spec fn runs(pre: Machine, task: TaskView, post: Machine, action: ActionView) -> bool {
    let value = top(pre.operands);
    let rest = below(pre.operands);
    match task {
        TaskView::Execute { statement } => starts(pre, statement, post, action),
        TaskView::Evaluate { expression } => begins(pre, expression, post, action),
        TaskView::Statements { statements, next } => if next < statements.len() {
            proceeds(
                pre,
                post,
                action,
                pre.tasks.push(TaskView::Statements { statements, next: next + 1 }).push(
                    TaskView::Execute { statement: statements[next as int] },
                ),
                pre.operands,
            )
        } else {
            proceeds(pre, post, action, pre.tasks, pre.operands)
        },
        TaskView::Restore { environment } => {
            &&& post.tasks == pre.tasks
            &&& post.operands == pre.operands
            &&& selects(pre.scopes, post.scopes, environment)
            &&& post.waiting == pre.waiting
            &&& post.global == pre.global
            &&& action == ActionView::Continue
        },
        TaskView::Boundary { environment } => {
            &&& post.tasks == pre.tasks
            &&& post.operands == pre.operands.push(ValueView::Nil)
            &&& selects(pre.scopes, post.scopes, environment)
            &&& post.waiting == pre.waiting
            &&& post.global == pre.global
            &&& action == ActionView::Continue
        },
        TaskView::Discard => proceeds(pre, post, action, pre.tasks, rest),
        TaskView::Print => {
            &&& settles(pre, post, pre.tasks, rest)
            &&& action == match value.text() {
                Some(text) => ActionView::Print { text },
                None => ActionView::PrintNumber { value: value->Double_value },
            }
        },
        TaskView::Define { name } => binds(
            pre,
            post,
            action,
            pre.scopes.cursor() as int,
            name.lexeme,
            value,
            rest,
        ),
        TaskView::Branch { then_branch, else_branch } => if value.truthy() {
            proceeds(
                pre,
                post,
                action,
                pre.tasks.push(TaskView::Execute { statement: then_branch }),
                rest,
            )
        } else {
            match else_branch {
                Some(statement) => proceeds(
                    pre,
                    post,
                    action,
                    pre.tasks.push(TaskView::Execute { statement }),
                    rest,
                ),
                None => proceeds(pre, post, action, pre.tasks, rest),
            }
        },
        TaskView::Loop { condition, body } => if value.truthy() {
            proceeds(
                pre,
                post,
                action,
                pre.tasks.push(TaskView::Loop { condition, body }).push(
                    TaskView::Evaluate { expression: condition },
                ).push(TaskView::Execute { statement: body }),
                rest,
            )
        } else {
            proceeds(pre, post, action, pre.tasks, rest)
        },
        TaskView::Return => unwinds(Machine { operands: rest, ..pre }, value, post, action),
        TaskView::Unary { operator } => concludes(
            pre,
            post,
            action,
            unary_outcome(operator.ttype, value),
            rest,
        ),
        TaskView::Binary { operator } => concludes(
            pre,
            post,
            action,
            binary_outcome(operator.ttype, top(rest), value),
            below(rest),
        ),
        TaskView::Logical { operator, right } => if (if operator.ttype == TokenType::OR {
            value.truthy()
        } else {
            !value.truthy()
        }) {
            proceeds(pre, post, action, pre.tasks, rest.push(value))
        } else {
            proceeds(
                pre,
                post,
                action,
                pre.tasks.push(TaskView::Evaluate { expression: right }),
                rest,
            )
        },
        TaskView::Assign { name } => match pre.scopes.holder(
            pre.scopes.cursor() as int,
            name.lexeme,
        ) {
            Some(scope) => binds(pre, post, action, scope, name.lexeme, value, rest.push(value)),
            None => abandons(pre, post, action, undefined_variable(name)),
        },
        TaskView::Invoke { paren, count } => invokes(pre, paren, count, post, action),
    }
}

/// One step. A machine that waits takes the host's number as the value it
/// asked for, and goes on waiting where it is handed none. A machine
/// without work is finished. Every other machine takes the piece of work
/// on top of the stack and runs it.
pub open spec fn steps(pre: Machine, event: Event, post: Machine, action: ActionView) -> bool {
    if pre.waiting {
        match event {
            Event::Number { value } => {
                &&& post.tasks == pre.tasks
                &&& post.operands == pre.operands.push(ValueView::Double { value })
                &&& post.scopes.well_formed()
                &&& post.scopes.same_bindings(&pre.scopes)
                &&& !post.waiting
                &&& post.global == pre.global
                &&& action == ActionView::Continue
            },
            Event::Resume => settles(pre, post, pre.tasks, pre.operands) && action
                == ActionView::Waiting,
        }
    } else if pre.tasks.len() == 0 {
        settles(pre, post, pre.tasks, pre.operands) && action == ActionView::Finished
    } else {
        runs(Machine { tasks: pre.tasks.drop_last(), ..pre }, pre.tasks.last(), post, action)
    }
}

/// Reading a variable that no scope binds abandons the program with the
/// undefined-variable failure, whatever scope is current; nothing is put
/// on the operands in its place.
pub proof fn reading_an_unbound_name_fails(
    pre: Machine,
    name: TokenView,
    post: Machine,
    action: ActionView,
)
    requires
        forall|s: int| pre.scopes.local(s, name.lexeme) is None,
        begins(pre, ExprView::Variable { name }, post, action),
    ensures
        action == (ActionView::Failed { error: undefined_variable(name) }),
        post.tasks.len() == 0,
        post.operands.len() == 0,
{
    pre.scopes.unbound_names_resolve_nowhere(pre.scopes.cursor() as int, name.lexeme);
}

/// Assigning to a variable that no scope binds abandons the program with
/// the undefined-variable failure, whatever scope is current, and binds
/// nothing.
pub proof fn assigning_an_unbound_name_fails(
    pre: Machine,
    name: TokenView,
    post: Machine,
    action: ActionView,
)
    requires
        forall|s: int| pre.scopes.local(s, name.lexeme) is None,
        runs(pre, TaskView::Assign { name }, post, action),
    ensures
        action == (ActionView::Failed { error: undefined_variable(name) }),
        post.scopes.same_scopes(&pre.scopes),
{
    pre.scopes.unbound_names_resolve_nowhere(pre.scopes.cursor() as int, name.lexeme);
}

/// A call whose argument count is not the callable's arity abandons the
/// program with a failure that names both counts: no argument is dropped
/// and none is made up, because the callable is never entered.
pub proof fn a_call_with_the_wrong_number_of_arguments_fails(
    pre: Machine,
    paren: TokenView,
    count: nat,
    post: Machine,
    action: ActionView,
)
    requires
        top(below_arguments(pre.operands, count)) is Callable,
        callable_here(top(below_arguments(pre.operands, count))->callable, pre.scopes),
        top(below_arguments(pre.operands, count))->callable.arity() != count,
        invokes(pre, paren, count, post, action),
    ensures
        action == (ActionView::Failed {
            error: runtime_error(
                paren.ttype,
                arity_message(top(below_arguments(pre.operands, count))->callable.arity(), count),
            ),
        }),
        post.tasks.len() == 0,
        post.scopes.same_scopes(&pre.scopes),
{
}

/// Short circuit: where the left operand of `and` is falsy, or that of
/// `or` truthy, the right operand is never scheduled, and the expression's
/// value is the left operand's own value.
pub proof fn the_right_operand_is_skipped(
    pre: Machine,
    operator: TokenView,
    right: ExprView,
    post: Machine,
    action: ActionView,
)
    requires
        pre.operands.len() > 0,
        if operator.ttype == TokenType::OR {
            pre.operands.last().truthy()
        } else {
            !pre.operands.last().truthy()
        },
        runs(pre, TaskView::Logical { operator, right }, post, action),
    ensures
        post.tasks == pre.tasks,
        post.operands == pre.operands,
        action == ActionView::Continue,
{
    assert(pre.operands.drop_last().push(pre.operands.last()) =~= pre.operands);
}

/// Where the left operand does not decide, the right operand is evaluated
/// in its place.
pub proof fn the_right_operand_is_evaluated(
    pre: Machine,
    operator: TokenView,
    right: ExprView,
    post: Machine,
    action: ActionView,
)
    requires
        pre.operands.len() > 0,
        if operator.ttype == TokenType::OR {
            !pre.operands.last().truthy()
        } else {
            pre.operands.last().truthy()
        },
        runs(pre, TaskView::Logical { operator, right }, post, action),
    ensures
        post.tasks == pre.tasks.push(TaskView::Evaluate { expression: right }),
        post.operands == pre.operands.drop_last(),
{
}

/// A function finds itself by name: once its declaration has run, the name
/// means, in the scope that the function closed over, the function itself.
pub proof fn a_declared_function_is_bound_where_it_closes(
    pre: Machine,
    declaration: StmtView,
    post: Machine,
    action: ActionView,
)
    requires
        declaration is Function,
        starts(pre, declaration, post, action),
    ensures
        post.scopes.lookup(post.scopes.cursor() as int, declaration->Function_name.lexeme) == Some(
            ValueView::Callable {
                callable: CallableView::Function {
                    declaration: Box::new(declaration),
                    closure: post.scopes.cursor(),
                },
            },
        ),
{
}

/// A call runs in a new scope inside the one that the function closed
/// over: in the body, a name that is no parameter means what it means in
/// that scope, whatever scope the call was made from.
pub proof fn a_body_resolves_names_through_the_closure(
    pre: Machine,
    callable: CallableView,
    values: Seq<ValueView>,
    post: Machine,
    action: ActionView,
    name: Seq<char>,
)
    requires
        pre.scopes.well_formed(),
        callable is Function,
        callable_here(callable, pre.scopes),
        calls(pre, callable, values, post, action),
        argument_for(
            callable->declaration->Function_params,
            values,
            name,
            callable->declaration->Function_params.len() as int,
        ) is None,
    ensures
        post.scopes.lookup(post.scopes.cursor() as int, name) == pre.scopes.lookup(
            callable->closure as int,
            name,
        ),
{
    let scope = pre.scopes.size() as int;
    let closure = callable->closure as int;
    assert(post.scopes.local(scope, name) is None);
    same_meaning_in_older_scopes(pre.scopes, post.scopes, closure, name);
}

/// Scopes that were there before a scope was added mean what they meant.
pub proof fn same_meaning_in_older_scopes(
    pre: Environment,
    post: Environment,
    scope: int,
    name: Seq<char>,
)
    requires
        pre.well_formed(),
        scope < pre.size(),
        forall|s: int| 0 <= s < pre.size() ==> post.parent(s) == pre.parent(s),
        forall|s: int, k: Seq<char>| 0 <= s < pre.size() ==> post.local(s, k) == pre.local(s, k),
    ensures
        post.holder(scope, name) == pre.holder(scope, name),
        post.lookup(scope, name) == pre.lookup(scope, name),
    decreases scope,
{
    pre.structure();
    pre.holder_lies_outwards(scope, name);
    if scope >= 0 && pre.local(scope, name) is None {
        match pre.parent(scope) {
            Some(outer) => {
                same_meaning_in_older_scopes(pre, post, outer as int, name);
            },
            None => {},
        }
    }
}

/// Whether a piece of work names a scope to go back to.
pub open spec fn leaves_a_scope(task: TaskView) -> bool {
    task is Restore || task is Boundary
}

/// Guaranteed release: when a program is abandoned, the scope that was
/// current before its outermost block or call was entered is current
/// again, however deep in blocks and calls the failure struck.
pub proof fn a_failure_leaves_every_block_and_call(
    tasks: Seq<TaskView>,
    cursor: nat,
    size: nat,
    outermost: int,
)
    requires
        0 <= outermost < tasks.len(),
        leaves_a_scope(tasks[outermost]),
        forall|i: int| 0 <= i < outermost ==> !leaves_a_scope(tasks[i]),
        match tasks[outermost] {
            TaskView::Restore { environment } => environment < size,
            TaskView::Boundary { environment } => environment < size,
            _ => false,
        },
    ensures
        unwound(tasks, cursor, size) == match tasks[outermost] {
            TaskView::Restore { environment } => environment,
            TaskView::Boundary { environment } => environment,
            _ => cursor,
        },
    decreases tasks.len(),
{
    let rest = tasks.drop_last();
    let next = match tasks.last() {
        TaskView::Restore { environment } => if environment < size {
            environment
        } else {
            cursor
        },
        TaskView::Boundary { environment } => if environment < size {
            environment
        } else {
            cursor
        },
        _ => cursor,
    };
    if outermost == tasks.len() - 1 {
        work_that_leaves_no_scope_keeps_the_cursor(rest, next, size);
    } else {
        assert(rest[outermost] == tasks[outermost]);
        assert forall|i: int| 0 <= i < outermost implies !leaves_a_scope(rest[i]) by {
            assert(rest[i] == tasks[i]);
        }
        a_failure_leaves_every_block_and_call(rest, next, size, outermost);
    }
}

/// Work that was scheduled outside any block or call leaves the current
/// scope alone when it is abandoned.
pub proof fn work_that_leaves_no_scope_keeps_the_cursor(
    tasks: Seq<TaskView>,
    cursor: nat,
    size: nat,
)
    requires
        forall|i: int| 0 <= i < tasks.len() ==> !leaves_a_scope(tasks[i]),
    ensures
        unwound(tasks, cursor, size) == cursor,
    decreases tasks.len(),
{
    if tasks.len() > 0 {
        let rest = tasks.drop_last();
        assert(!leaves_a_scope(tasks[tasks.len() - 1]));
        assert forall|i: int| 0 <= i < rest.len() implies !leaves_a_scope(rest[i]) by {
            assert(rest[i] == tasks[i]);
        }
        work_that_leaves_no_scope_keeps_the_cursor(rest, cursor, size);
    }
}

} // verus!
