//! The syntax tree: expressions and statements, their views, and the
//! protocol by which a visitor is handed each node by its kind.

use vstd::prelude::*;
use crate::token::{Token, TokenView, Value, ValueView, duplicate_tokens, same_tokens, token_views};

verus! {

#[allow(inconsistent_fields)]
#[derive(Debug, PartialEq)]
pub enum Expr {
    Assign { name: Token, value: Box<Expr> },
    Binary { left: Box<Expr>, operator: Token, right: Box<Expr> },
    Grouping { expression: Box<Expr> },
    Literal { value: Value },
    Logical { left: Box<Expr>, operator: Token, right: Box<Expr> },
    Unary { operator: Token, right: Box<Expr> },
    Variable { name: Token },
    Call { callee: Box<Expr>, paren: Token, arguments: Vec<Expr> },
}

#[allow(inconsistent_fields)]
#[derive(Debug, PartialEq)]
pub enum Stmt {
    Block { statements: Vec<Stmt> },
    Expression { expr: Box<Expr> },
    Print { expr: Box<Expr> },
    Var { name: Token, initializer: Option<Expr> },
    Function { name: Token, params: Vec<Token>, body: Vec<Stmt> },
    If { condition: Expr, then_branch: Box<Stmt>, else_branch: Option<Box<Stmt>> },
    While { condition: Expr, body: Box<Stmt> },
    Return { keyword: Token, value: Box<Expr> },
}

#[allow(inconsistent_fields)]
pub enum ExprView {
    Assign { name: TokenView, value: Box<ExprView> },
    Binary { left: Box<ExprView>, operator: TokenView, right: Box<ExprView> },
    Grouping { expression: Box<ExprView> },
    Literal { value: ValueView },
    Logical { left: Box<ExprView>, operator: TokenView, right: Box<ExprView> },
    Unary { operator: TokenView, right: Box<ExprView> },
    Variable { name: TokenView },
    Call { callee: Box<ExprView>, paren: TokenView, arguments: Seq<ExprView> },
}

#[allow(inconsistent_fields)]
pub enum StmtView {
    Block { statements: Seq<StmtView> },
    Expression { expr: Box<ExprView> },
    Print { expr: Box<ExprView> },
    Var { name: TokenView, initializer: Option<ExprView> },
    Function { name: TokenView, params: Seq<TokenView>, body: Seq<StmtView> },
    If { condition: ExprView, then_branch: Box<StmtView>, else_branch: Option<Box<StmtView>> },
    While { condition: ExprView, body: Box<StmtView> },
    Return { keyword: TokenView, value: Box<ExprView> },
}

/// The views of a list of expressions, one for one.
pub open spec fn expr_views(exprs: Vec<Expr>) -> Seq<ExprView>
    decreases exprs,
{
    Seq::new(
        exprs.len() as nat,
        |i: int|
            if 0 <= i < exprs.len() {
                exprs[i]@
            } else {
                arbitrary()
            },
    )
}

/// The views of a list of statements, one for one.
pub open spec fn stmt_views(stmts: Vec<Stmt>) -> Seq<StmtView>
    decreases stmts,
{
    Seq::new(
        stmts.len() as nat,
        |i: int|
            if 0 <= i < stmts.len() {
                stmts[i]@
            } else {
                arbitrary()
            },
    )
}

impl Expr {
    pub open spec fn view(&self) -> ExprView
        decreases self,
    {
        match self {
            Expr::Assign { name, value } => ExprView::Assign {
                name: name@,
                value: Box::new(value@),
            },
            Expr::Binary { left, operator, right } => ExprView::Binary {
                left: Box::new(left@),
                operator: operator@,
                right: Box::new(right@),
            },
            Expr::Grouping { expression } => ExprView::Grouping {
                expression: Box::new(expression@),
            },
            Expr::Literal { value } => ExprView::Literal { value: value@ },
            Expr::Logical { left, operator, right } => ExprView::Logical {
                left: Box::new(left@),
                operator: operator@,
                right: Box::new(right@),
            },
            Expr::Unary { operator, right } => ExprView::Unary {
                operator: operator@,
                right: Box::new(right@),
            },
            Expr::Variable { name } => ExprView::Variable { name: name@ },
            Expr::Call { callee, paren, arguments } => ExprView::Call {
                callee: Box::new(callee@),
                paren: paren@,
                arguments: expr_views(*arguments),
            },
        }
    }
}

impl Stmt {
    pub open spec fn view(&self) -> StmtView
        decreases self,
    {
        match self {
            Stmt::Block { statements } => StmtView::Block { statements: stmt_views(*statements) },
            Stmt::Expression { expr } => StmtView::Expression { expr: Box::new(expr@) },
            Stmt::Print { expr } => StmtView::Print { expr: Box::new(expr@) },
            Stmt::Var { name, initializer } => StmtView::Var {
                name: name@,
                initializer: match initializer {
                    Some(e) => Some(e@),
                    None => None,
                },
            },
            Stmt::Function { name, params, body } => StmtView::Function {
                name: name@,
                params: token_views(params@),
                body: stmt_views(*body),
            },
            Stmt::If { condition, then_branch, else_branch } => StmtView::If {
                condition: condition@,
                then_branch: Box::new(then_branch@),
                else_branch: match else_branch {
                    Some(s) => Some(Box::new(s@)),
                    None => None,
                },
            },
            Stmt::While { condition, body } => StmtView::While {
                condition: condition@,
                body: Box::new(body@),
            },
            Stmt::Return { keyword, value } => StmtView::Return {
                keyword: keyword@,
                value: Box::new(value@),
            },
        }
    }
}

impl Expr {
    /// A copy with the same view.
    pub fn duplicate(&self) -> (copy: Expr)
        ensures
            copy@ == self@,
        decreases self,
    {
        match self {
            Expr::Assign { name, value } => Expr::Assign {
                name: name.duplicate(),
                value: Box::new(value.duplicate()),
            },
            Expr::Binary { left, operator, right } => Expr::Binary {
                left: Box::new(left.duplicate()),
                operator: operator.duplicate(),
                right: Box::new(right.duplicate()),
            },
            Expr::Grouping { expression } => Expr::Grouping {
                expression: Box::new(expression.duplicate()),
            },
            Expr::Literal { value } => Expr::Literal { value: value.duplicate() },
            Expr::Logical { left, operator, right } => Expr::Logical {
                left: Box::new(left.duplicate()),
                operator: operator.duplicate(),
                right: Box::new(right.duplicate()),
            },
            Expr::Unary { operator, right } => Expr::Unary {
                operator: operator.duplicate(),
                right: Box::new(right.duplicate()),
            },
            Expr::Variable { name } => Expr::Variable { name: name.duplicate() },
            Expr::Call { callee, paren, arguments } => {
                let mut copies: Vec<Expr> = Vec::new();
                let mut i: usize = 0;
                while i < arguments.len()
                    invariant
                        i <= arguments.len(),
                        copies.len() == i,
                        forall|j: int| 0 <= j < i ==> copies[j]@ == arguments[j]@,
                        decreases_to!(self => arguments),
                    decreases arguments.len() - i,
                {
                    copies.push(arguments[i].duplicate());
                    i += 1;
                }
                assert(expr_views(copies) =~= expr_views(*arguments));
                Expr::Call {
                    callee: Box::new(callee.duplicate()),
                    paren: paren.duplicate(),
                    arguments: copies,
                }
            },
        }
    }
}

/// Whether two lists of expressions have the same views.
pub fn same_expressions(left: &Vec<Expr>, right: &Vec<Expr>) -> (equal: bool)
    ensures
        equal == (expr_views(*left) == expr_views(*right)),
    decreases left,
{
    if left.len() != right.len() {
        assert(expr_views(*left).len() != expr_views(*right).len());
        return false;
    }
    let mut i: usize = 0;
    while i < left.len()
        invariant
            i <= left.len(),
            left.len() == right.len(),
            forall|j: int| 0 <= j < i ==> left[j]@ == right[j]@,
        decreases left.len() - i,
    {
        if !left[i].same(&right[i]) {
            assert(expr_views(*left)[i as int] != expr_views(*right)[i as int]);
            return false;
        }
        i += 1;
    }
    assert(expr_views(*left) =~= expr_views(*right));
    true
}

/// Whether two lists of statements have the same views.
pub fn same_statements(left: &Vec<Stmt>, right: &Vec<Stmt>) -> (equal: bool)
    ensures
        equal == (stmt_views(*left) == stmt_views(*right)),
    decreases left,
{
    if left.len() != right.len() {
        assert(stmt_views(*left).len() != stmt_views(*right).len());
        return false;
    }
    let mut i: usize = 0;
    while i < left.len()
        invariant
            i <= left.len(),
            left.len() == right.len(),
            forall|j: int| 0 <= j < i ==> left[j]@ == right[j]@,
        decreases left.len() - i,
    {
        if !left[i].same(&right[i]) {
            assert(stmt_views(*left)[i as int] != stmt_views(*right)[i as int]);
            return false;
        }
        i += 1;
    }
    assert(stmt_views(*left) =~= stmt_views(*right));
    true
}

impl Expr {
    /// Whether two expressions have the same view.
    pub fn same(&self, other: &Expr) -> (equal: bool)
        ensures
            equal == (self@ == other@),
        decreases self,
    {
        match (self, other) {
            (Expr::Assign { name: n1, value: v1 }, Expr::Assign { name: n2, value: v2 }) => {
                n1.same(n2) && v1.same(v2)
            },
            (
                Expr::Binary { left: l1, operator: o1, right: r1 },
                Expr::Binary { left: l2, operator: o2, right: r2 },
            ) => l1.same(l2) && o1.same(o2) && r1.same(r2),
            (Expr::Grouping { expression: e1 }, Expr::Grouping { expression: e2 }) => e1.same(e2),
            (Expr::Literal { value: v1 }, Expr::Literal { value: v2 }) => v1.same(v2),
            (
                Expr::Logical { left: l1, operator: o1, right: r1 },
                Expr::Logical { left: l2, operator: o2, right: r2 },
            ) => l1.same(l2) && o1.same(o2) && r1.same(r2),
            (Expr::Unary { operator: o1, right: r1 }, Expr::Unary { operator: o2, right: r2 }) => {
                o1.same(o2) && r1.same(r2)
            },
            (Expr::Variable { name: n1 }, Expr::Variable { name: n2 }) => n1.same(n2),
            (
                Expr::Call { callee: c1, paren: t1, arguments: a1 },
                Expr::Call { callee: c2, paren: t2, arguments: a2 },
            ) => c1.same(c2) && t1.same(t2) && same_expressions(a1, a2),
            _ => false,
        }
    }
}

impl Stmt {
    /// Whether two statements have the same view.
    pub fn same(&self, other: &Stmt) -> (equal: bool)
        ensures
            equal == (self@ == other@),
        decreases self,
    {
        match (self, other) {
            (Stmt::Block { statements: s1 }, Stmt::Block { statements: s2 }) => same_statements(
                s1,
                s2,
            ),
            (Stmt::Expression { expr: e1 }, Stmt::Expression { expr: e2 }) => e1.same(e2),
            (Stmt::Print { expr: e1 }, Stmt::Print { expr: e2 }) => e1.same(e2),
            (Stmt::Var { name: n1, initializer: i1 }, Stmt::Var { name: n2, initializer: i2 }) => {
                let initializers = match (i1, i2) {
                    (Some(a), Some(b)) => a.same(b),
                    (None, None) => true,
                    _ => false,
                };
                initializers && n1.same(n2)
            },
            (
                Stmt::Function { name: n1, params: q1, body: b1 },
                Stmt::Function { name: n2, params: q2, body: b2 },
            ) => n1.same(n2) && same_tokens(q1, q2) && same_statements(b1, b2),
            (
                Stmt::If { condition: c1, then_branch: t1, else_branch: e1 },
                Stmt::If { condition: c2, then_branch: t2, else_branch: e2 },
            ) => {
                let others = match (e1, e2) {
                    (Some(a), Some(b)) => a.same(b),
                    (None, None) => true,
                    _ => false,
                };
                others && c1.same(c2) && t1.same(t2)
            },
            (Stmt::While { condition: c1, body: b1 }, Stmt::While { condition: c2, body: b2 }) => {
                c1.same(c2) && b1.same(b2)
            },
            (Stmt::Return { keyword: k1, value: v1 }, Stmt::Return { keyword: k2, value: v2 }) => {
                k1.same(k2) && v1.same(v2)
            },
            _ => false,
        }
    }
}

impl Clone for Expr {
    fn clone(&self) -> (copy: Self)
        ensures
            copy@ == self@,
    {
        self.duplicate()
    }
}

impl Clone for Stmt {
    fn clone(&self) -> (copy: Self)
        ensures
            copy@ == self@,
    {
        self.duplicate()
    }
}

/// Copies a list of statements, one for one.
pub fn duplicate_statements(statements: &Vec<Stmt>) -> (copy: Vec<Stmt>)
    ensures
        stmt_views(copy) == stmt_views(*statements),
    decreases statements,
{
    let mut copy: Vec<Stmt> = Vec::new();
    let mut i: usize = 0;
    while i < statements.len()
        invariant
            i <= statements.len(),
            copy.len() == i,
            forall|j: int| 0 <= j < i ==> copy[j]@ == statements[j]@,
        decreases statements.len() - i,
    {
        copy.push(statements[i].duplicate());
        i += 1;
    }
    assert(stmt_views(copy) =~= stmt_views(*statements));
    copy
}

impl Stmt {
    /// A copy with the same view.
    pub fn duplicate(&self) -> (copy: Stmt)
        ensures
            copy@ == self@,
        decreases self,
    {
        match self {
            Stmt::Block { statements } => Stmt::Block {
                statements: duplicate_statements(statements),
            },
            Stmt::Expression { expr } => Stmt::Expression { expr: Box::new(expr.duplicate()) },
            Stmt::Print { expr } => Stmt::Print { expr: Box::new(expr.duplicate()) },
            Stmt::Var { name, initializer } => Stmt::Var {
                name: name.duplicate(),
                initializer: match initializer {
                    Some(e) => Some(e.duplicate()),
                    None => None,
                },
            },
            Stmt::Function { name, params, body } => Stmt::Function {
                name: name.duplicate(),
                params: duplicate_tokens(params),
                body: duplicate_statements(body),
            },
            Stmt::If { condition, then_branch, else_branch } => Stmt::If {
                condition: condition.duplicate(),
                then_branch: Box::new(then_branch.duplicate()),
                else_branch: match else_branch {
                    Some(s) => Some(Box::new(s.duplicate())),
                    None => None,
                },
            },
            Stmt::While { condition, body } => Stmt::While {
                condition: condition.duplicate(),
                body: Box::new(body.duplicate()),
            },
            Stmt::Return { keyword, value } => Stmt::Return {
                keyword: keyword.duplicate(),
                value: Box::new(value.duplicate()),
            },
        }
    }
}

/// A consumer of expressions: one handler for every kind of node. The
/// handler of a kind is only ever handed nodes of that kind.
pub trait ExprVisitor<A>: Sized {
    /// What the visitor asks for before it is handed a node: nothing,
    /// unless the visitor says otherwise.
    open spec fn ready_for_expr(&self) -> bool {
        true
    }

    /// What a visit comes to: how the visitor after the visit and the
    /// result relate to the visitor before it and to the node. Nothing is
    /// promised unless the visitor says otherwise.
    open spec fn visited_expr(&self, before: &Self, expr: &Expr, result: &A) -> bool {
        true
    }

    fn visit_assign_expr(&mut self, expr: &Expr) -> (result: A)
        requires
            old(self).ready_for_expr(),
            expr is Assign,
        ensures
            final(self).ready_for_expr(),
            final(self).visited_expr(old(self), expr, &result),
    ;

    fn visit_binary_expr(&mut self, expr: &Expr) -> (result: A)
        requires
            old(self).ready_for_expr(),
            expr is Binary,
        ensures
            final(self).ready_for_expr(),
            final(self).visited_expr(old(self), expr, &result),
    ;

    fn visit_grouping_expr(&mut self, expr: &Expr) -> (result: A)
        requires
            old(self).ready_for_expr(),
            expr is Grouping,
        ensures
            final(self).ready_for_expr(),
            final(self).visited_expr(old(self), expr, &result),
    ;

    fn visit_literal_expr(&mut self, expr: &Expr) -> (result: A)
        requires
            old(self).ready_for_expr(),
            expr is Literal,
        ensures
            final(self).ready_for_expr(),
            final(self).visited_expr(old(self), expr, &result),
    ;

    fn visit_unary_expr(&mut self, expr: &Expr) -> (result: A)
        requires
            old(self).ready_for_expr(),
            expr is Unary,
        ensures
            final(self).ready_for_expr(),
            final(self).visited_expr(old(self), expr, &result),
    ;

    fn visit_variable_expr(&mut self, expr: &Expr) -> (result: A)
        requires
            old(self).ready_for_expr(),
            expr is Variable,
        ensures
            final(self).ready_for_expr(),
            final(self).visited_expr(old(self), expr, &result),
    ;

    fn visit_logical_expr(&mut self, expr: &Expr) -> (result: A)
        requires
            old(self).ready_for_expr(),
            expr is Logical,
        ensures
            final(self).ready_for_expr(),
            final(self).visited_expr(old(self), expr, &result),
    ;

    fn visit_call_expr(&mut self, expr: &Expr) -> (result: A)
        requires
            old(self).ready_for_expr(),
            expr is Call,
        ensures
            final(self).ready_for_expr(),
            final(self).visited_expr(old(self), expr, &result),
    ;
}

/// A consumer of statements: one handler for every kind of node. The
/// handler of a kind is only ever handed nodes of that kind.
pub trait StmtVisitor<A>: Sized {
    /// What the visitor asks for before it is handed a node: nothing,
    /// unless the visitor says otherwise.
    open spec fn ready_for_stmt(&self) -> bool {
        true
    }

    /// What a visit comes to: how the visitor after the visit and the
    /// result relate to the visitor before it and to the node. Nothing is
    /// promised unless the visitor says otherwise.
    open spec fn visited_stmt(&self, before: &Self, stmt: &Stmt, result: &A) -> bool {
        true
    }

    fn visit_expression_stmt(&mut self, stmt: &Stmt) -> (result: A)
        requires
            old(self).ready_for_stmt(),
            stmt is Expression,
        ensures
            final(self).ready_for_stmt(),
            final(self).visited_stmt(old(self), stmt, &result),
    ;

    fn visit_print_stmt(&mut self, stmt: &Stmt) -> (result: A)
        requires
            old(self).ready_for_stmt(),
            stmt is Print,
        ensures
            final(self).ready_for_stmt(),
            final(self).visited_stmt(old(self), stmt, &result),
    ;

    fn visit_variable_stmt(&mut self, stmt: &Stmt) -> (result: A)
        requires
            old(self).ready_for_stmt(),
            stmt is Var,
        ensures
            final(self).ready_for_stmt(),
            final(self).visited_stmt(old(self), stmt, &result),
    ;

    fn visit_block_stmt(&mut self, stmt: &Stmt) -> (result: A)
        requires
            old(self).ready_for_stmt(),
            stmt is Block,
        ensures
            final(self).ready_for_stmt(),
            final(self).visited_stmt(old(self), stmt, &result),
    ;

    fn visit_if_stmt(&mut self, stmt: &Stmt) -> (result: A)
        requires
            old(self).ready_for_stmt(),
            stmt is If,
        ensures
            final(self).ready_for_stmt(),
            final(self).visited_stmt(old(self), stmt, &result),
    ;

    fn visit_while_stmt(&mut self, stmt: &Stmt) -> (result: A)
        requires
            old(self).ready_for_stmt(),
            stmt is While,
        ensures
            final(self).ready_for_stmt(),
            final(self).visited_stmt(old(self), stmt, &result),
    ;

    fn visit_function_stmt(&mut self, stmt: &Stmt) -> (result: A)
        requires
            old(self).ready_for_stmt(),
            stmt is Function,
        ensures
            final(self).ready_for_stmt(),
            final(self).visited_stmt(old(self), stmt, &result),
    ;

    fn visit_return_stmt(&mut self, stmt: &Stmt) -> (result: A)
        requires
            old(self).ready_for_stmt(),
            stmt is Return,
        ensures
            final(self).ready_for_stmt(),
            final(self).visited_stmt(old(self), stmt, &result),
    ;
}

impl Expr {
    /// Hands the node to the visitor's handler for its kind and returns
    /// what the handler returns.
    pub fn accept<A, V: ExprVisitor<A>>(&self, visitor: &mut V) -> (result: A)
        requires
            old(visitor).ready_for_expr(),
        ensures
            final(visitor).ready_for_expr(),
            final(visitor).visited_expr(old(visitor), self, &result),
    {
        match self {
            Expr::Assign { .. } => visitor.visit_assign_expr(self),
            Expr::Binary { .. } => visitor.visit_binary_expr(self),
            Expr::Grouping { .. } => visitor.visit_grouping_expr(self),
            Expr::Literal { .. } => visitor.visit_literal_expr(self),
            Expr::Unary { .. } => visitor.visit_unary_expr(self),
            Expr::Variable { .. } => visitor.visit_variable_expr(self),
            Expr::Logical { .. } => visitor.visit_logical_expr(self),
            Expr::Call { .. } => visitor.visit_call_expr(self),
        }
    }
}

impl Stmt {
    /// Hands the node to the visitor's handler for its kind and returns
    /// what the handler returns.
    pub fn accept<A, V: StmtVisitor<A>>(&self, visitor: &mut V) -> (result: A)
        requires
            old(visitor).ready_for_stmt(),
        ensures
            final(visitor).ready_for_stmt(),
            final(visitor).visited_stmt(old(visitor), self, &result),
    {
        match self {
            Stmt::Expression { .. } => visitor.visit_expression_stmt(self),
            Stmt::Print { .. } => visitor.visit_print_stmt(self),
            Stmt::Var { .. } => visitor.visit_variable_stmt(self),
            Stmt::Block { .. } => visitor.visit_block_stmt(self),
            Stmt::If { .. } => visitor.visit_if_stmt(self),
            Stmt::While { .. } => visitor.visit_while_stmt(self),
            Stmt::Function { .. } => visitor.visit_function_stmt(self),
            Stmt::Return { .. } => visitor.visit_return_stmt(self),
        }
    }
}

} // verus!
