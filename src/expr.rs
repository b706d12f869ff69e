use vstd::prelude::*;
use crate::scanner::TokenType;

verus! {

/// Expression nodes. `Variable` and `Assign` carry a reference id that is
/// unique to their syntactic occurrence.
#[derive(Debug)]
pub enum Expr {
    Nil,
    Number(i64),
    String(String),
    Boolean(bool),
    Binary { left: Box<Expr>, operator: TokenType, right: Box<Expr> },
    Call { callee: Box<Expr>, arguments: ExprList },
    Assign { id: usize, name: String, value: Box<Expr> },
    Grouping { expression: Box<Expr> },
    Logical { left: Box<Expr>, operator: TokenType, right: Box<Expr> },
    Unary { operator: TokenType, right: Box<Expr> },
    Variable { id: usize, name: String },
}

/// A list of expressions (call arguments), first element outermost.
#[derive(Debug)]
pub enum ExprList {
    Empty,
    Cons(Box<Expr>, Box<ExprList>),
}

/// Statement nodes. A `for` loop has no node of its own: the parser
/// rewrites it into a block around a `While`.
#[allow(inconsistent_fields)]
#[derive(Debug)]
pub enum Stmt {
    Block { statements: StmtList },
    Expression { expression: Expr },
    If { condition: Expr, then_branch: Box<Stmt>, else_branch: Option<Box<Stmt>> },
    Function { name: String, parameters: NameList, body: StmtList },
    Print { expression: Expr },
    Return { value: Option<Expr> },
    Var { name: String, initializer: Option<Expr> },
    While { condition: Expr, body: Box<Stmt> },
}

/// A list of statements, first element outermost.
#[derive(Debug)]
pub enum StmtList {
    Empty,
    Cons(Box<Stmt>, Box<StmtList>),
}

/// A list of names (function parameters), first element outermost.
#[derive(Debug)]
pub enum NameList {
    Empty,
    Cons(String, Box<NameList>),
}

impl NameList {
    pub open spec fn len(self) -> nat
        decreases self,
    {
        match self {
            NameList::Empty => 0,
            NameList::Cons(_, t) => 1 + t.len(),
        }
    }
}

/// A copy of a list of names.
pub fn copy_names(v: &NameList) -> (r: NameList)
    ensures
        r == *v,
    decreases v,
{
    match v {
        NameList::Empty => NameList::Empty,
        NameList::Cons(h, t) => NameList::Cons(h.clone(), Box::new(copy_names(t))),
    }
}

/// A deep copy of an expression.
pub fn copy_expr(e: &Expr) -> (r: Expr)
    ensures
        r == *e,
    decreases e,
{
    match e {
        Expr::Nil => Expr::Nil,
        Expr::Number(n) => Expr::Number(*n),
        Expr::String(s) => Expr::String(s.clone()),
        Expr::Boolean(b) => Expr::Boolean(*b),
        Expr::Binary { left, operator, right } => Expr::Binary {
            left: Box::new(copy_expr(left)),
            operator: *operator,
            right: Box::new(copy_expr(right)),
        },
        Expr::Call { callee, arguments } => Expr::Call {
            callee: Box::new(copy_expr(callee)),
            arguments: copy_exprs(arguments),
        },
        Expr::Assign { id, name, value } => Expr::Assign {
            id: *id,
            name: name.clone(),
            value: Box::new(copy_expr(value)),
        },
        Expr::Grouping { expression } => Expr::Grouping {
            expression: Box::new(copy_expr(expression)),
        },
        Expr::Logical { left, operator, right } => Expr::Logical {
            left: Box::new(copy_expr(left)),
            operator: *operator,
            right: Box::new(copy_expr(right)),
        },
        Expr::Unary { operator, right } => Expr::Unary {
            operator: *operator,
            right: Box::new(copy_expr(right)),
        },
        Expr::Variable { id, name } => Expr::Variable { id: *id, name: name.clone() },
    }
}

/// A deep copy of an expression list.
pub fn copy_exprs(l: &ExprList) -> (r: ExprList)
    ensures
        r == *l,
    decreases l,
{
    match l {
        ExprList::Empty => ExprList::Empty,
        ExprList::Cons(h, t) => ExprList::Cons(Box::new(copy_expr(h)), Box::new(copy_exprs(t))),
    }
}

/// A deep copy of a statement.
pub fn copy_stmt(s: &Stmt) -> (r: Stmt)
    ensures
        r == *s,
    decreases s,
{
    match s {
        Stmt::Block { statements } => Stmt::Block { statements: copy_stmts(statements) },
        Stmt::Expression { expression } => Stmt::Expression { expression: copy_expr(expression) },
        Stmt::If { condition, then_branch, else_branch } => {
            let c = copy_expr(condition);
            let t = copy_stmt(then_branch);
            let e = match else_branch {
                Some(b) => Some(Box::new(copy_stmt(b))),
                None => None,
            };
            Stmt::If { condition: c, then_branch: Box::new(t), else_branch: e }
        },
        Stmt::Function { name, parameters, body } => Stmt::Function {
            name: name.clone(),
            parameters: copy_names(parameters),
            body: copy_stmts(body),
        },
        Stmt::Print { expression } => Stmt::Print { expression: copy_expr(expression) },
        Stmt::Return { value } => {
            let v = match value {
                Some(e) => Some(copy_expr(e)),
                None => None,
            };
            Stmt::Return { value: v }
        },
        Stmt::Var { name, initializer } => {
            let v = match initializer {
                Some(e) => Some(copy_expr(e)),
                None => None,
            };
            Stmt::Var { name: name.clone(), initializer: v }
        },
        Stmt::While { condition, body } => Stmt::While {
            condition: copy_expr(condition),
            body: Box::new(copy_stmt(body)),
        },
    }
}

/// A deep copy of a statement list.
pub fn copy_stmts(l: &StmtList) -> (r: StmtList)
    ensures
        r == *l,
    decreases l,
{
    match l {
        StmtList::Empty => StmtList::Empty,
        StmtList::Cons(h, t) => StmtList::Cons(Box::new(copy_stmt(h)), Box::new(copy_stmts(t))),
    }
}

} // verus!
