use vstd::prelude::*;
use std::collections::HashMap;
use crate::callable::{clock_millis, extends, lemma_extends_refl, Clock, RloxFunction};
use crate::environment::{
    ancestor, frame_define, frame_lookup, lemma_define_then_lookup, frames_view, lemma_ancestor, read_at, runtime_error, write_at, Environment, Frame,
};
use crate::error::{RloxError, RuntimeErrorKind};
use crate::expr::{copy_names, copy_stmts, Expr, ExprList, NameList, Stmt, StmtList};
use crate::scanner::TokenType;

verus! {

broadcast use {vstd::std_specs::hash::group_hash_axioms, crate::callable::lemma_extends_trans};

/// Runtime values. A function is a handle into the interpreter's table
/// of function values; two functions are equal only when they are the
/// same handle.
#[derive(Debug)]
pub enum Value {
    Str(String),
    Number(i64),
    Bool(bool),
    Nil,
    Func(usize),
    Native(Clock),
}

/// The mathematical model of a value.
pub enum Val {
    Str(Seq<char>),
    Number(i64),
    Bool(bool),
    Nil,
    Func(usize),
    Native,
}

impl View for Value {
    type V = Val;

    open spec fn view(&self) -> Val {
        match self {
            Value::Str(s) => Val::Str(s@),
            Value::Number(n) => Val::Number(*n),
            Value::Bool(b) => Val::Bool(*b),
            Value::Nil => Val::Nil,
            Value::Func(i) => Val::Func(*i),
            Value::Native(_) => Val::Native,
        }
    }
}

/// A copy of a value.
pub fn copy_value(v: &Value) -> (r: Value)
    ensures
        r@ == v@,
{
    match v {
        Value::Str(s) => Value::Str(s.clone()),
        Value::Number(n) => Value::Number(*n),
        Value::Bool(b) => Value::Bool(*b),
        Value::Nil => Value::Nil,
        Value::Func(i) => Value::Func(*i),
        Value::Native(_) => Value::Native(Clock {}),
    }
}

/// Only `false` and `nil` are falsy.
pub open spec fn truthy(v: Val) -> bool {
    match v {
        Val::Bool(b) => b,
        Val::Nil => false,
        _ => true,
    }
}

/// Same-type equality; values of different types are never equal.
pub open spec fn values_equal(a: Val, b: Val) -> bool {
    match (a, b) {
        (Val::Str(x), Val::Str(y)) => x == y,
        (Val::Number(x), Val::Number(y)) => x == y,
        (Val::Bool(x), Val::Bool(y)) => x == y,
        (Val::Nil, Val::Nil) => true,
        (Val::Func(i), Val::Func(j)) => i == j,
        (Val::Native, Val::Native) => true,
        _ => false,
    }
}

pub open spec fn digit_char(d: nat) -> char {
    if d == 0 { '0' }
    else if d == 1 { '1' }
    else if d == 2 { '2' }
    else if d == 3 { '3' }
    else if d == 4 { '4' }
    else if d == 5 { '5' }
    else if d == 6 { '6' }
    else if d == 7 { '7' }
    else if d == 8 { '8' }
    else { '9' }
}

/// The decimal digits of `n`, most significant first.
pub open spec fn digits(n: nat) -> Seq<char>
    decreases n,
{
    if n < 10 {
        seq![digit_char(n)]
    } else {
        digits(n / 10).push(digit_char(n % 10))
    }
}

/// The decimal text of an integer: a minus sign for negatives, no
/// fractional part.
pub open spec fn number_text(n: int) -> Seq<char> {
    if n < 0 {
        seq!['-'] + digits((-n) as nat)
    } else {
        digits(n as nat)
    }
}

/// The printed form of a value.
pub open spec fn display(v: Val) -> Seq<char> {
    match v {
        Val::Str(s) => s,
        Val::Number(n) => number_text(n as int),
        Val::Bool(b) => if b { "true"@ } else { "false"@ },
        Val::Nil => "nil"@,
        Val::Func(_) => "<fn>"@,
        Val::Native => "<native fn>"@,
    }
}

pub open spec fn in_i64(n: int) -> bool {
    i64::MIN <= n <= i64::MAX
}

pub open spec fn number_result(n: int) -> Result<Val, RuntimeErrorKind> {
    if in_i64(n) {
        Ok(Val::Number(n as i64))
    } else {
        Err(RuntimeErrorKind::ArithmeticOutOfRange)
    }
}

/// What a binary operator gives on two values.
pub open spec fn binary_value(op: TokenType, l: Val, r: Val) -> Result<Val, RuntimeErrorKind> {
    match (l, r) {
        (Val::Number(a), Val::Number(b)) => match op {
            TokenType::Plus => number_result(a + b),
            TokenType::Minus => number_result(a - b),
            TokenType::Star => number_result(a * b),
            TokenType::Slash => if b != 0 && a % b == 0 {
                number_result(a / b)
            } else {
                Err(RuntimeErrorKind::ArithmeticOutOfRange)
            },
            TokenType::Greater => Ok(Val::Bool(a > b)),
            TokenType::GreaterEqual => Ok(Val::Bool(a >= b)),
            TokenType::Less => Ok(Val::Bool(a < b)),
            TokenType::LessEqual => Ok(Val::Bool(a <= b)),
            TokenType::EqualEqual => Ok(Val::Bool(a == b)),
            TokenType::BangEqual => Ok(Val::Bool(a != b)),
            _ => Err(RuntimeErrorKind::OperandsMustBeNumbers),
        },
        _ => match op {
            TokenType::EqualEqual => Ok(Val::Bool(values_equal(l, r))),
            TokenType::BangEqual => Ok(Val::Bool(!values_equal(l, r))),
            TokenType::Plus => match (l, r) {
                (Val::Str(a), Val::Str(b)) => Ok(Val::Str(a + b)),
                _ => Err(RuntimeErrorKind::OperandsMustBeNumbersOrStrings),
            },
            _ => Err(RuntimeErrorKind::OperandsMustBeNumbers),
        },
    }
}

/// What a unary operator gives on a value.
pub open spec fn unary_value(op: TokenType, v: Val) -> Result<Val, RuntimeErrorKind> {
    match op {
        TokenType::Minus => match v {
            Val::Number(n) => number_result(-n),
            _ => Err(RuntimeErrorKind::OperandMustBeNumber),
        },
        _ => Ok(Val::Bool(!truthy(v))),
    }
}

/// A non-local exit from evaluation: an error, or a `return` on its way
/// to the call that it ends.
#[derive(Debug)]
pub enum Unwind {
    Error(RloxError),
    Return(Value),
}

/// The model of a non-local exit.
pub enum Exit {
    Error(RloxError),
    Return(Val),
}

impl View for Unwind {
    type V = Exit;

    open spec fn view(&self) -> Exit {
        match self {
            Unwind::Error(e) => Exit::Error(*e),
            Unwind::Return(v) => Exit::Return(v@),
        }
    }
}

pub open spec fn value_result(r: Result<Value, Unwind>) -> Result<Val, Exit> {
    match r {
        Ok(v) => Ok(v@),
        Err(u) => Err(u@),
    }
}

pub open spec fn unit_result(r: Result<(), Unwind>) -> Result<(), Exit> {
    match r {
        Ok(_) => Ok(()),
        Err(u) => Err(u@),
    }
}

/// The mathematical model of the interpreter.
pub struct State {
    pub frames: Seq<Frame>,
    pub environment: usize,
    pub functions: Seq<RloxFunction>,
    pub locals: Map<usize, usize>,
    pub output: Seq<Seq<char>>,
    pub ticks: nat,
}

/// The tree-walking evaluator. Frames live in a store indexed by
/// position; frame 0 holds the globals.
pub struct Interpreter {
    pub frames: Vec<Environment>,
    pub environment: usize,
    pub functions: Vec<RloxFunction>,
    pub locals: HashMap<usize, usize>,
    pub output: Vec<String>,
    pub clock_log: Ghost<Seq<i64>>,
}

impl View for Interpreter {
    type V = State;

    open spec fn view(&self) -> State {
        State {
            frames: frames_view(self.frames@),
            environment: self.environment,
            functions: self.functions@,
            locals: self.locals@,
            output: self.output@.map_values(|s: String| s@),
            ticks: self.clock_log@.len(),
        }
    }
}

pub open spec fn budget_error() -> Exit {
    Exit::Error(runtime_error(RuntimeErrorKind::BudgetExhausted, None))
}

pub open spec fn rt(kind: RuntimeErrorKind) -> Exit {
    Exit::Error(runtime_error(kind, None))
}

/// The value of a variable occurrence: through the depth table when the
/// resolver recorded one, by name in the globals otherwise.
pub open spec fn variable_value(st: State, id: usize, name: String) -> Result<Val, RloxError> {
    if st.locals.contains_key(id) {
        read_at(st.frames, st.environment as int, st.locals[id] as nat, name)
    } else {
        read_at(st.frames, 0, 0, name)
    }
}

pub open spec fn assigned_state(st: State, id: usize, name: String, v: Val) -> Result<State, RloxError> {
    let w = if st.locals.contains_key(id) {
        write_at(st.frames, st.environment as int, st.locals[id] as nat, name, v)
    } else {
        write_at(st.frames, 0, 0, name, v)
    };
    match w {
        Ok(fr) => Ok(State { frames: fr, ..st }),
        Err(e) => Err(e),
    }
}

pub open spec fn defined_state(st: State, name: String, v: Val) -> Result<State, RloxError> {
    if st.environment < st.frames.len() {
        Ok(State {
            frames: st.frames.update(st.environment as int, frame_define(st.frames[st.environment as int], name@, v)),
            ..st
        })
    } else {
        Err(runtime_error(RuntimeErrorKind::InvalidScope, Some(name)))
    }
}

/// The state after a block or call that began with `mark` frames and
/// `fmark` functions: the enclosing frame is current again, and the
/// frames the block created are dropped when no function value created
/// since can refer to them.
pub open spec fn leave_scope(st: State, env: usize, mark: nat, fmark: nat) -> State {
    State {
        environment: env,
        frames: if st.functions.len() == fmark && mark <= st.frames.len() {
            st.frames.subrange(0, mark as int)
        } else {
            st.frames
        },
        ..st
    }
}

/// A frame with each parameter bound, in order, to the argument at its
/// position.
pub open spec fn bind_parameters(fr: Frame, params: NameList, args: Seq<Val>, i: int) -> Frame
    decreases params,
{
    match params {
        NameList::Empty => fr,
        NameList::Cons(h, t) => bind_parameters(frame_define(fr, h@, args[i]), *t, args, i + 1),
    }
}

/// Running `stmts` in the new frame `fr`, which becomes the current one
/// for the duration.
pub open spec fn exec_block(st: State, stmts: StmtList, fr: Frame, fuel: nat, o: Seq<i64>) -> (State, Result<(), Exit>)
    decreases fuel, 1nat,
{
    let mark = st.frames.len();
    let s1 = State { frames: st.frames.push(fr), environment: mark as usize, ..st };
    let (s2, r) = exec_list(s1, stmts, fuel, o);
    (leave_scope(s2, st.environment, mark, st.functions.len()), r)
}

/// Evaluation of an expression with `fuel` levels of nesting left, where
/// `o` gives the readings of the clock in order.
pub open spec fn eval(st: State, e: Expr, fuel: nat, o: Seq<i64>) -> (State, Result<Val, Exit>)
    decreases fuel, 0nat,
{
    if fuel == 0 {
        (st, Err(budget_error()))
    } else {
        let f = (fuel - 1) as nat;
        match e {
            Expr::Nil => (st, Ok(Val::Nil)),
            Expr::Number(n) => (st, Ok(Val::Number(n))),
            Expr::String(s) => (st, Ok(Val::Str(s@))),
            Expr::Boolean(b) => (st, Ok(Val::Bool(b))),
            Expr::Grouping { expression } => eval(st, *expression, f, o),
            Expr::Unary { operator, right } => {
                let (s1, r1) = eval(st, *right, f, o);
                match r1 {
                    Err(u) => (s1, Err(u)),
                    Ok(v) => match unary_value(operator, v) {
                        Ok(w) => (s1, Ok(w)),
                        Err(k) => (s1, Err(rt(k))),
                    },
                }
            },
            Expr::Binary { left, operator, right } => {
                let (s1, r1) = eval(st, *left, f, o);
                match r1 {
                    Err(u) => (s1, Err(u)),
                    Ok(a) => {
                        let (s2, r2) = eval(s1, *right, f, o);
                        match r2 {
                            Err(u) => (s2, Err(u)),
                            Ok(b) => match binary_value(operator, a, b) {
                                Ok(w) => (s2, Ok(w)),
                                Err(k) => (s2, Err(rt(k))),
                            },
                        }
                    },
                }
            },
            Expr::Logical { left, operator, right } => {
                let (s1, r1) = eval(st, *left, f, o);
                match r1 {
                    Err(u) => (s1, Err(u)),
                    Ok(a) => if (operator == TokenType::Or) == truthy(a) {
                        (s1, Ok(a))
                    } else {
                        eval(s1, *right, f, o)
                    },
                }
            },
            Expr::Variable { id, name } => match variable_value(st, id, name) {
                Ok(v) => (st, Ok(v)),
                Err(err) => (st, Err(Exit::Error(err))),
            },
            Expr::Assign { id, name, value } => {
                let (s1, r1) = eval(st, *value, f, o);
                match r1 {
                    Err(u) => (s1, Err(u)),
                    Ok(v) => match assigned_state(s1, id, name, v) {
                        Ok(s2) => (s2, Ok(v)),
                        Err(err) => (s1, Err(Exit::Error(err))),
                    },
                }
            },
            Expr::Call { callee, arguments } => {
                let (s1, r1) = eval(st, *callee, f, o);
                match r1 {
                    Err(u) => (s1, Err(u)),
                    Ok(c) => {
                        let (s2, r2) = eval_args(s1, arguments, f, o);
                        match r2 {
                            Err(u) => (s2, Err(u)),
                            Ok(args) => call_value(s2, c, args, f, o),
                        }
                    },
                }
            },
        }
    }
}

/// Evaluation of call arguments, left to right.
pub open spec fn eval_args(st: State, l: ExprList, fuel: nat, o: Seq<i64>) -> (State, Result<Seq<Val>, Exit>)
    decreases fuel, 0nat,
{
    if fuel == 0 {
        (st, Err(budget_error()))
    } else {
        let f = (fuel - 1) as nat;
        match l {
            ExprList::Empty => (st, Ok(Seq::empty())),
            ExprList::Cons(h, t) => {
                let (s1, r1) = eval(st, *h, f, o);
                match r1 {
                    Err(u) => (s1, Err(u)),
                    Ok(v) => {
                        let (s2, r2) = eval_args(s1, *t, f, o);
                        match r2 {
                            Err(u) => (s2, Err(u)),
                            Ok(vs) => (s2, Ok(seq![v] + vs)),
                        }
                    },
                }
            },
        }
    }
}

/// A call of `c` on `args`.
pub open spec fn call_value(st: State, c: Val, args: Seq<Val>, fuel: nat, o: Seq<i64>) -> (State, Result<Val, Exit>)
    decreases fuel, 2nat,
{
    match c {
        Val::Native => if args.len() != 0 {
            (st, Err(rt(RuntimeErrorKind::ArityMismatch)))
        } else {
            let t = if st.ticks < o.len() { o[st.ticks as int] } else { 0 };
            (State { ticks: st.ticks + 1, ..st }, Ok(Val::Number(t)))
        },
        Val::Func(i) => if i >= st.functions.len() {
            (st, Err(rt(RuntimeErrorKind::NotCallable)))
        } else if args.len() != st.functions[i as int].parameters.len() {
            (st, Err(rt(RuntimeErrorKind::ArityMismatch)))
        } else {
            let fun = st.functions[i as int];
            let fr = bind_parameters(
                Frame { enclosing: Some(fun.closure), bindings: Seq::empty() },
                fun.parameters,
                args,
                0,
            );
            let (s1, r) = exec_block(st, fun.body, fr, fuel, o);
            match r {
                Ok(_) => (s1, Ok(Val::Nil)),
                Err(Exit::Return(v)) => (s1, Ok(v)),
                Err(u) => (s1, Err(u)),
            }
        },
        _ => (st, Err(rt(RuntimeErrorKind::NotCallable))),
    }
}

/// Execution of a statement.
pub open spec fn exec(st: State, s: Stmt, fuel: nat, o: Seq<i64>) -> (State, Result<(), Exit>)
    decreases fuel, 0nat,
{
    if fuel == 0 {
        (st, Err(budget_error()))
    } else {
        let f = (fuel - 1) as nat;
        match s {
            Stmt::Expression { expression } => {
                let (s1, r1) = eval(st, expression, f, o);
                match r1 {
                    Err(u) => (s1, Err(u)),
                    Ok(_) => (s1, Ok(())),
                }
            },
            Stmt::Print { expression } => {
                let (s1, r1) = eval(st, expression, f, o);
                match r1 {
                    Err(u) => (s1, Err(u)),
                    Ok(v) => (State { output: s1.output.push(display(v)), ..s1 }, Ok(())),
                }
            },
            Stmt::Var { name, initializer } => {
                let (s1, r1) = match initializer {
                    Some(e) => eval(st, e, f, o),
                    None => (st, Ok(Val::Nil)),
                };
                match r1 {
                    Err(u) => (s1, Err(u)),
                    Ok(v) => match defined_state(s1, name, v) {
                        Ok(s2) => (s2, Ok(())),
                        Err(err) => (s1, Err(Exit::Error(err))),
                    },
                }
            },
            Stmt::Block { statements } => exec_block(
                st,
                statements,
                Frame { enclosing: Some(st.environment), bindings: Seq::empty() },
                f,
                o,
            ),
            Stmt::If { condition, then_branch, else_branch } => {
                let (s1, r1) = eval(st, condition, f, o);
                match r1 {
                    Err(u) => (s1, Err(u)),
                    Ok(v) => if truthy(v) {
                        exec(s1, *then_branch, f, o)
                    } else {
                        match else_branch {
                            Some(b) => exec(s1, *b, f, o),
                            None => (s1, Ok(())),
                        }
                    },
                }
            },
            Stmt::While { condition, body } => exec_while(st, condition, *body, f, o),
            Stmt::Function { name, parameters, body } => {
                let fun = RloxFunction { parameters, body, closure: st.environment };
                let s1 = State { functions: st.functions.push(fun), ..st };
                match defined_state(s1, name, Val::Func(st.functions.len() as usize)) {
                    Ok(s2) => (s2, Ok(())),
                    Err(err) => (s1, Err(Exit::Error(err))),
                }
            },
            Stmt::Return { value } => {
                let (s1, r1) = match value {
                    Some(e) => eval(st, e, f, o),
                    None => (st, Ok(Val::Nil)),
                };
                match r1 {
                    Err(u) => (s1, Err(u)),
                    Ok(v) => (s1, Err(Exit::Return(v))),
                }
            },
        }
    }
}

/// A `while` loop: each round spends one level of fuel.
pub open spec fn exec_while(st: State, c: Expr, body: Stmt, fuel: nat, o: Seq<i64>) -> (State, Result<(), Exit>)
    decreases fuel, 0nat,
{
    if fuel == 0 {
        (st, Err(budget_error()))
    } else {
        let f = (fuel - 1) as nat;
        let (s1, r1) = eval(st, c, f, o);
        match r1 {
            Err(u) => (s1, Err(u)),
            Ok(v) => if !truthy(v) {
                (s1, Ok(()))
            } else {
                let (s2, r2) = exec(s1, body, f, o);
                match r2 {
                    Err(u) => (s2, Err(u)),
                    Ok(_) => exec_while(s2, c, body, f, o),
                }
            },
        }
    }
}

/// A statement list in order, stopping at the first exit; each statement
/// spends one level of fuel.
pub open spec fn exec_list(st: State, l: StmtList, fuel: nat, o: Seq<i64>) -> (State, Result<(), Exit>)
    decreases fuel, 0nat,
{
    if fuel == 0 {
        (st, Err(budget_error()))
    } else {
        let f = (fuel - 1) as nat;
        match l {
            StmtList::Empty => (st, Ok(())),
            StmtList::Cons(h, t) => {
                let (s1, r1) = exec(st, *h, f, o);
                match r1 {
                    Err(u) => (s1, Err(u)),
                    Ok(_) => exec_list(s1, *t, f, o),
                }
            },
        }
    }
}


/// Relies on String::push: the character is appended.
#[verifier::external_body]
pub(crate) fn push_char(s: &mut String, c: char)
    ensures
        final(s)@ == old(s)@.push(c),
{
    s.push(c);
}

fn digit_of(d: u64) -> (c: char)
    requires
        d < 10,
    ensures
        c == digit_char(d as nat),
{
    if d == 0 { '0' }
    else if d == 1 { '1' }
    else if d == 2 { '2' }
    else if d == 3 { '3' }
    else if d == 4 { '4' }
    else if d == 5 { '5' }
    else if d == 6 { '6' }
    else if d == 7 { '7' }
    else if d == 8 { '8' }
    else { '9' }
}

fn push_digits(s: &mut String, m: u64)
    ensures
        final(s)@ == old(s)@ + digits(m as nat),
    decreases m,
{
    if m >= 10 {
        push_digits(s, m / 10);
    }
    push_char(s, digit_of(m % 10));
    proof {
        if m >= 10 {
            assert(final(s)@ =~= old(s)@ + digits(m as nat));
        } else {
            assert(final(s)@ =~= old(s)@ + digits(m as nat));
        }
    }
}

/// The decimal text of `n`.
pub fn number_to_string(n: i64) -> (r: String)
    ensures
        r@ == number_text(n as int),
{
    let mut s = String::new();
    if n < 0 {
        push_char(&mut s, '-');
        let m: u64 = if n == i64::MIN { 9223372036854775808u64 } else { (-n) as u64 };
        push_digits(&mut s, m);
        assert(s@ =~= seq!['-'] + digits((-n) as nat));
    } else {
        push_digits(&mut s, n as u64);
        assert(s@ =~= digits(n as nat));
    }
    s
}

/// Only `false` and `nil` are falsy.
pub fn is_truthy(v: &Value) -> (r: bool)
    ensures
        r == truthy(v@),
{
    match v {
        Value::Bool(b) => *b,
        Value::Nil => false,
        _ => true,
    }
}

/// Same-type equality, with no coercion between types.
pub fn is_equal(a: &Value, b: &Value) -> (r: bool)
    ensures
        r == values_equal(a@, b@),
{
    match (a, b) {
        (Value::Str(x), Value::Str(y)) => *x == *y,
        (Value::Number(x), Value::Number(y)) => *x == *y,
        (Value::Bool(x), Value::Bool(y)) => *x == *y,
        (Value::Nil, Value::Nil) => true,
        (Value::Func(i), Value::Func(j)) => *i == *j,
        (Value::Native(_), Value::Native(_)) => true,
        _ => false,
    }
}

fn number_value(r: Option<i64>) -> (v: Result<Value, RuntimeErrorKind>)
    ensures
        match v {
            Ok(w) => r is Some && w == Value::Number(r->0),
            Err(k) => r is None && k == RuntimeErrorKind::ArithmeticOutOfRange,
        },
{
    match r {
        Some(n) => Ok(Value::Number(n)),
        None => Err(RuntimeErrorKind::ArithmeticOutOfRange),
    }
}

/// A binary operator applied to two values.
pub fn binary_op(op: TokenType, l: &Value, r: &Value) -> (res: Result<Value, RuntimeErrorKind>)
    ensures
        match res {
            Ok(v) => binary_value(op, l@, r@) == Ok::<Val, RuntimeErrorKind>(v@),
            Err(k) => binary_value(op, l@, r@) == Err::<Val, RuntimeErrorKind>(k),
        },
{
    match (l, r) {
        (Value::Number(a), Value::Number(b)) => {
            let a = *a;
            let b = *b;
            match op {
                TokenType::Plus => number_value(a.checked_add(b)),
                TokenType::Minus => number_value(a.checked_sub(b)),
                TokenType::Star => number_value(a.checked_mul(b)),
                TokenType::Slash => {
                    if b == 0 {
                        return Err(RuntimeErrorKind::ArithmeticOutOfRange);
                    }
                    match a.checked_rem_euclid(b) {
                        Some(m) => if m == 0 {
                            number_value(a.checked_div_euclid(b))
                        } else {
                            Err(RuntimeErrorKind::ArithmeticOutOfRange)
                        },
                        None => Err(RuntimeErrorKind::ArithmeticOutOfRange),
                    }
                },
                TokenType::Greater => Ok(Value::Bool(a > b)),
                TokenType::GreaterEqual => Ok(Value::Bool(a >= b)),
                TokenType::Less => Ok(Value::Bool(a < b)),
                TokenType::LessEqual => Ok(Value::Bool(a <= b)),
                TokenType::EqualEqual => Ok(Value::Bool(a == b)),
                TokenType::BangEqual => Ok(Value::Bool(a != b)),
                _ => Err(RuntimeErrorKind::OperandsMustBeNumbers),
            }
        },
        _ => match op {
            TokenType::EqualEqual => Ok(Value::Bool(is_equal(l, r))),
            TokenType::BangEqual => Ok(Value::Bool(!is_equal(l, r))),
            TokenType::Plus => match (l, r) {
                (Value::Str(a), Value::Str(b)) => Ok(Value::Str(a.clone().concat(b.as_str()))),
                _ => Err(RuntimeErrorKind::OperandsMustBeNumbersOrStrings),
            },
            _ => Err(RuntimeErrorKind::OperandsMustBeNumbers),
        },
    }
}

/// A unary operator applied to a value.
pub fn unary_op(op: TokenType, v: &Value) -> (res: Result<Value, RuntimeErrorKind>)
    ensures
        match res {
            Ok(w) => unary_value(op, v@) == Ok::<Val, RuntimeErrorKind>(w@),
            Err(k) => unary_value(op, v@) == Err::<Val, RuntimeErrorKind>(k),
        },
{
    match op {
        TokenType::Minus => match v {
            Value::Number(n) => number_value(0i64.checked_sub(*n)),
            _ => Err(RuntimeErrorKind::OperandMustBeNumber),
        },
        _ => Ok(Value::Bool(!is_truthy(v))),
    }
}


pub open spec fn values_view(v: Seq<Value>) -> Seq<Val> {
    v.map_values(|x: Value| x@)
}

pub open spec fn args_result(r: Result<Vec<Value>, Unwind>) -> Result<Seq<Val>, Exit> {
    match r {
        Ok(v) => Ok(values_view(v@)),
        Err(u) => Err(u@),
    }
}

/// The state of a fresh interpreter: one global frame that binds `clock`.
pub open spec fn initial_state() -> State {
    State {
        frames: seq![Frame { enclosing: None, bindings: seq![("clock"@, Val::Native)] }],
        environment: 0,
        functions: Seq::empty(),
        locals: Map::empty(),
        output: Seq::empty(),
        ticks: 0,
    }
}

fn budget_exhausted() -> (u: Unwind)
    ensures
        u@ == budget_error(),
{
    Unwind::Error(RloxError::RuntimeError { kind: RuntimeErrorKind::BudgetExhausted, lexeme: None })
}

fn runtime_unwind(kind: RuntimeErrorKind) -> (u: Unwind)
    ensures
        u@ == rt(kind),
{
    Unwind::Error(RloxError::RuntimeError { kind, lexeme: None })
}

/// Whether the list has exactly `n` names.
fn has_length(params: &NameList, n: usize) -> (r: bool)
    ensures
        r == (params.len() == n),
    decreases params,
{
    match params {
        NameList::Empty => n == 0,
        NameList::Cons(_, t) => n > 0 && has_length(t, n - 1),
    }
}

/// Binds the parameters, in order, to the arguments from position `i` on.
fn bind_arguments(env: &mut Environment, params: &NameList, args: &Vec<Value>, i: usize)
    requires
        i + params.len() == args.len(),
    ensures
        final(env)@ == bind_parameters(old(env)@, *params, values_view(args@), i as int),
    decreases params,
{
    match params {
        NameList::Empty => {},
        NameList::Cons(h, t) => {
            env.define(h, copy_value(&args[i]));
            bind_arguments(env, t, args, i + 1);
        },
    }
}

impl Interpreter {
    /// A fresh interpreter whose globals hold the `clock` native.
    pub fn new() -> (r: Interpreter)
        ensures
            r@ == initial_state(),
    {
        let mut globals = Environment::global();
        let name = String::from_str("clock");
        proof {
            assert(globals@.bindings =~= Seq::<(Seq<char>, Val)>::empty());
        }
        globals.define(&name, Value::Native(Clock {}));
        let mut frames: Vec<Environment> = Vec::new();
        frames.push(globals);
        let r = Interpreter {
            frames,
            environment: 0,
            functions: Vec::new(),
            locals: HashMap::new(),
            output: Vec::new(),
            clock_log: Ghost(Seq::empty()),
        };
        proof {
            assert(r@.frames[0].bindings =~= seq![("clock"@, Val::Native)]);
            assert(r@.frames =~= initial_state().frames);
            assert(r@.output =~= Seq::<Seq<char>>::empty());
        }
        r
    }

    fn variable_value(&self, id: usize, name: &String) -> (r: Result<Value, RloxError>)
        ensures
            match r {
                Ok(v) => variable_value(self@, id, *name) == Ok::<Val, RloxError>(v@),
                Err(e) => variable_value(self@, id, *name) == Err::<Val, RloxError>(e),
            },
    {
        match self.locals.get(&id) {
            Some(d) => Environment::get_at(&self.frames, self.environment, *d, name),
            None => Environment::get_at(&self.frames, 0, 0, name),
        }
    }

    fn assign_variable(&mut self, id: usize, name: &String, v: Value) -> (r: Result<(), RloxError>)
        ensures
            match assigned_state(old(self)@, id, *name, v@) {
                Ok(s) => r is Ok && final(self)@ == s,
                Err(e) => r == Err::<(), RloxError>(e) && final(self)@ == old(self)@,
            },
            final(self).clock_log@ == old(self).clock_log@,
    {
        let depth: Option<usize> = match self.locals.get(&id) {
            Some(d) => Some(*d),
            None => None,
        };
        match depth {
            Some(d) => Environment::assign_at(&mut self.frames, self.environment, d, name, v),
            None => Environment::assign_at(&mut self.frames, 0, 0, name, v),
        }
    }

    fn define_variable(&mut self, name: &String, v: Value) -> (r: Result<(), RloxError>)
        ensures
            match defined_state(old(self)@, *name, v@) {
                Ok(s) => r is Ok && final(self)@ == s,
                Err(e) => r == Err::<(), RloxError>(e) && final(self)@ == old(self)@,
            },
            final(self).clock_log@ == old(self).clock_log@,
    {
        let k = self.environment;
        if k < self.frames.len() {
            let ghost fr = self@.frames;
            self.frames[k].define(name, v);
            assert(self@.frames =~= fr.update(k as int, frame_define(fr[k as int], name@, v@)));
            Ok(())
        } else {
            Err(RloxError::RuntimeError { kind: RuntimeErrorKind::InvalidScope, lexeme: Some(name.clone()) })
        }
    }

    fn leave_scope(&mut self, env: usize, mark: usize, fmark: usize)
        ensures
            final(self)@ == leave_scope(old(self)@, env, mark as nat, fmark as nat),
            final(self).clock_log@ == old(self).clock_log@,
    {
        self.environment = env;
        if self.functions.len() == fmark && mark <= self.frames.len() {
            let ghost fr = self.frames@;
            self.frames.truncate(mark);
            assert(frames_view(self.frames@) =~= frames_view(fr).subrange(0, mark as int));
        }
    }

    /// Evaluates an expression with `fuel` levels of nesting available.
    fn evaluate(&mut self, e: &Expr, fuel: u64) -> (r: Result<Value, Unwind>)
        ensures
            extends(final(self).clock_log@, old(self).clock_log@),
            forall|o: Seq<i64>|
                #[trigger] extends(o, final(self).clock_log@) ==> eval(old(self)@, *e, fuel as nat, o)
                    == (final(self)@, value_result(r)),
        decreases fuel, 0nat,
    {
        proof {
            lemma_extends_refl(self.clock_log@);
        }
        if fuel == 0 {
            return Err(budget_exhausted());
        }
        let f = fuel - 1;
        match e {
            Expr::Nil => Ok(Value::Nil),
            Expr::Number(n) => Ok(Value::Number(*n)),
            Expr::String(s) => Ok(Value::Str(s.clone())),
            Expr::Boolean(b) => Ok(Value::Bool(*b)),
            Expr::Grouping { expression } => self.evaluate(expression, f),
            Expr::Unary { operator, right } => {
                let v = match self.evaluate(right, f) {
                    Ok(v) => v,
                    Err(u) => return Err(u),
                };
                match unary_op(*operator, &v) {
                    Ok(w) => Ok(w),
                    Err(k) => Err(runtime_unwind(k)),
                }
            },
            Expr::Binary { left, operator, right } => {
                let a = match self.evaluate(left, f) {
                    Ok(v) => v,
                    Err(u) => return Err(u),
                };
                let b = match self.evaluate(right, f) {
                    Ok(v) => v,
                    Err(u) => return Err(u),
                };
                match binary_op(*operator, &a, &b) {
                    Ok(w) => Ok(w),
                    Err(k) => Err(runtime_unwind(k)),
                }
            },
            Expr::Logical { left, operator, right } => {
                let a = match self.evaluate(left, f) {
                    Ok(v) => v,
                    Err(u) => return Err(u),
                };
                let is_or = match operator {
                    TokenType::Or => true,
                    _ => false,
                };
                if is_or == is_truthy(&a) {
                    Ok(a)
                } else {
                    self.evaluate(right, f)
                }
            },
            Expr::Variable { id, name } => match self.variable_value(*id, name) {
                Ok(v) => Ok(v),
                Err(err) => Err(Unwind::Error(err)),
            },
            Expr::Assign { id, name, value } => {
                let v = match self.evaluate(value, f) {
                    Ok(v) => v,
                    Err(u) => return Err(u),
                };
                match self.assign_variable(*id, name, copy_value(&v)) {
                    Ok(()) => Ok(v),
                    Err(err) => Err(Unwind::Error(err)),
                }
            },
            Expr::Call { callee, arguments } => {
                let c = match self.evaluate(callee, f) {
                    Ok(v) => v,
                    Err(u) => return Err(u),
                };
                let args = match self.evaluate_args(arguments, f) {
                    Ok(a) => a,
                    Err(u) => return Err(u),
                };
                self.call_value(&c, args, f)
            },
        }
    }

    /// Evaluates call arguments left to right.
    fn evaluate_args(&mut self, l: &ExprList, fuel: u64) -> (r: Result<Vec<Value>, Unwind>)
        ensures
            extends(final(self).clock_log@, old(self).clock_log@),
            forall|o: Seq<i64>|
                #[trigger] extends(o, final(self).clock_log@) ==> eval_args(old(self)@, *l, fuel as nat, o)
                    == (final(self)@, args_result(r)),
        decreases fuel, 0nat,
    {
        proof {
            lemma_extends_refl(self.clock_log@);
        }
        if fuel == 0 {
            return Err(budget_exhausted());
        }
        let f = fuel - 1;
        match l {
            ExprList::Empty => {
                let v: Vec<Value> = Vec::new();
                assert(values_view(v@) =~= Seq::<Val>::empty());
                Ok(v)
            },
            ExprList::Cons(h, t) => {
                let v = match self.evaluate(h, f) {
                    Ok(v) => v,
                    Err(u) => return Err(u),
                };
                let mut vs = match self.evaluate_args(t, f) {
                    Ok(vs) => vs,
                    Err(u) => return Err(u),
                };
                let ghost rest = vs@;
                let ghost hv = v@;
                vs.insert(0, v);
                assert(values_view(vs@) =~= seq![hv] + values_view(rest));
                Ok(vs)
            },
        }
    }

    /// Calls a value on evaluated arguments.
    fn call_value(&mut self, c: &Value, args: Vec<Value>, fuel: u64) -> (r: Result<Value, Unwind>)
        ensures
            extends(final(self).clock_log@, old(self).clock_log@),
            forall|o: Seq<i64>|
                #[trigger] extends(o, final(self).clock_log@) ==> call_value(
                    old(self)@,
                    c@,
                    values_view(args@),
                    fuel as nat,
                    o,
                ) == (final(self)@, value_result(r)),
        decreases fuel, 2nat,
    {
        proof {
            lemma_extends_refl(self.clock_log@);
        }
        match c {
            Value::Native(_) => {
                if args.len() != 0 {
                    return Err(runtime_unwind(RuntimeErrorKind::ArityMismatch));
                }
                let t = clock_millis();
                let ghost before = self.clock_log@;
                self.clock_log = Ghost(self.clock_log@.push(t));
                proof {
                    assert(self.clock_log@.subrange(0, before.len() as int) =~= before);
                    assert forall|o: Seq<i64>| extends(o, self.clock_log@) implies o[before.len() as int] == t by {
                        assert(o.subrange(0, self.clock_log@.len() as int)[before.len() as int] == t);
                    }
                }
                Ok(Value::Number(t))
            },
            Value::Func(i) => {
                let i = *i;
                if i >= self.functions.len() {
                    return Err(runtime_unwind(RuntimeErrorKind::NotCallable));
                }
                if !has_length(&self.functions[i].parameters, args.len()) {
                    return Err(runtime_unwind(RuntimeErrorKind::ArityMismatch));
                }
                let params = copy_names(&self.functions[i].parameters);
                let body = copy_stmts(&self.functions[i].body);
                let mut env = Environment::new(self.functions[i].closure);
                bind_arguments(&mut env, &params, &args, 0);
                match self.execute_block(&body, env, fuel) {
                    Ok(()) => Ok(Value::Nil),
                    Err(Unwind::Return(v)) => Ok(v),
                    Err(u) => Err(u),
                }
            },
            _ => Err(runtime_unwind(RuntimeErrorKind::NotCallable)),
        }
    }

    /// Runs `statements` in the new frame `new_env`, which is current for
    /// the duration; the previous frame is current again on every exit.
    pub fn execute_block(&mut self, statements: &StmtList, new_env: Environment, fuel: u64) -> (r: Result<(), Unwind>)
        ensures
            extends(final(self).clock_log@, old(self).clock_log@),
            forall|o: Seq<i64>|
                #[trigger] extends(o, final(self).clock_log@) ==> exec_block(old(self)@, *statements, new_env@, fuel as nat, o)
                    == (final(self)@, unit_result(r)),
        decreases fuel, 1nat,
    {
        let mark = self.frames.len();
        let fmark = self.functions.len();
        let prev = self.environment;
        let ghost fr = self.frames@;
        self.frames.push(new_env);
        self.environment = mark;
        proof {
            assert(frames_view(self.frames@) =~= frames_view(fr).push(new_env@));
        }
        let r = self.execute_list(statements, fuel);
        self.leave_scope(prev, mark, fmark);
        r
    }

    /// Runs a statement list in order, stopping at the first exit.
    fn execute_list(&mut self, l: &StmtList, fuel: u64) -> (r: Result<(), Unwind>)
        ensures
            extends(final(self).clock_log@, old(self).clock_log@),
            forall|o: Seq<i64>|
                #[trigger] extends(o, final(self).clock_log@) ==> exec_list(old(self)@, *l, fuel as nat, o)
                    == (final(self)@, unit_result(r)),
        decreases fuel, 0nat,
    {
        let ghost s0 = self@;
        let ghost l0 = self.clock_log@;
        proof {
            lemma_extends_refl(self.clock_log@);
        }
        let mut cur: &StmtList = l;
        let mut f: u64 = fuel;
        loop
            invariant
                f <= fuel,
                s0 == old(self)@,
                l0 == old(self).clock_log@,
                extends(self.clock_log@, l0),
                forall|o: Seq<i64>|
                    #[trigger] extends(o, self.clock_log@) ==> exec_list(s0, *l, fuel as nat, o)
                        == exec_list(self@, *cur, f as nat, o),
            decreases f,
        {
            if f == 0 {
                return Err(budget_exhausted());
            }
            match cur {
                StmtList::Empty => {
                    return Ok(());
                },
                StmtList::Cons(h, t) => {
                            match self.execute(h, f - 1) {
                        Ok(()) => {},
                        Err(u) => {
                            return Err(u);
                        },
                    }
                    cur = t;
                    f = f - 1;
                },
            }
        }
    }

    /// Executes one statement.
    fn execute(&mut self, s: &Stmt, fuel: u64) -> (r: Result<(), Unwind>)
        ensures
            extends(final(self).clock_log@, old(self).clock_log@),
            forall|o: Seq<i64>|
                #[trigger] extends(o, final(self).clock_log@) ==> exec(old(self)@, *s, fuel as nat, o)
                    == (final(self)@, unit_result(r)),
        decreases fuel, 0nat,
    {
        proof {
            lemma_extends_refl(self.clock_log@);
        }
        if fuel == 0 {
            return Err(budget_exhausted());
        }
        let f = fuel - 1;
        match s {
            Stmt::Expression { expression } => match self.evaluate(expression, f) {
                Ok(_) => Ok(()),
                Err(u) => Err(u),
            },
            Stmt::Print { expression } => {
                let v = match self.evaluate(expression, f) {
                    Ok(v) => v,
                    Err(u) => return Err(u),
                };
                let ghost out = self.output@;
                self.output.push(Interpreter::stringify(&v));
                assert(self.output@.map_values(|t: String| t@) =~= out.map_values(|t: String| t@).push(display(v@)));
                Ok(())
            },
            Stmt::Var { name, initializer } => {
                let v = match initializer {
                    Some(e) => match self.evaluate(e, f) {
                        Ok(v) => v,
                        Err(u) => return Err(u),
                    },
                    None => Value::Nil,
                };
                match self.define_variable(name, v) {
                    Ok(()) => Ok(()),
                    Err(err) => Err(Unwind::Error(err)),
                }
            },
            Stmt::Block { statements } => {
                let env = Environment::new(self.environment);
                self.execute_block(statements, env, f)
            },
            Stmt::If { condition, then_branch, else_branch } => {
                let v = match self.evaluate(condition, f) {
                    Ok(v) => v,
                    Err(u) => return Err(u),
                };
                if is_truthy(&v) {
                    self.execute(then_branch, f)
                } else {
                    match else_branch {
                        Some(b) => self.execute(b, f),
                        None => Ok(()),
                    }
                }
            },
            Stmt::While { condition, body } => self.execute_while(condition, body, f),
            Stmt::Function { name, parameters, body } => {
                let handle = self.functions.len();
                let fun = RloxFunction::new(copy_names(parameters), copy_stmts(body), self.environment);
                self.functions.push(fun);
                match self.define_variable(name, Value::Func(handle)) {
                    Ok(()) => Ok(()),
                    Err(err) => Err(Unwind::Error(err)),
                }
            },
            Stmt::Return { value } => {
                let v = match value {
                    Some(e) => match self.evaluate(e, f) {
                        Ok(v) => v,
                        Err(u) => return Err(u),
                    },
                    None => Value::Nil,
                };
                Err(Unwind::Return(v))
            },
        }
    }

    /// The printed form of a value.
    pub fn stringify(value: &Value) -> (r: String)
        ensures
            r@ == display(value@),
    {
        match value {
            Value::Str(s) => s.clone(),
            Value::Number(n) => number_to_string(*n),
            Value::Bool(b) => if *b {
                String::from_str("true")
            } else {
                String::from_str("false")
            },
            Value::Nil => String::from_str("nil"),
            Value::Func(_) => String::from_str("<fn>"),
            Value::Native(_) => String::from_str("<native fn>"),
        }
    }

    /// Runs a `while` loop; each round spends one level of fuel.
    fn execute_while(&mut self, c: &Expr, body: &Stmt, fuel: u64) -> (r: Result<(), Unwind>)
        ensures
            extends(final(self).clock_log@, old(self).clock_log@),
            forall|o: Seq<i64>|
                #[trigger] extends(o, final(self).clock_log@) ==> exec_while(old(self)@, *c, *body, fuel as nat, o)
                    == (final(self)@, unit_result(r)),
        decreases fuel, 0nat,
    {
        let ghost s0 = self@;
        let ghost l0 = self.clock_log@;
        proof {
            lemma_extends_refl(self.clock_log@);
        }
        let mut f: u64 = fuel;
        loop
            invariant
                f <= fuel,
                s0 == old(self)@,
                l0 == old(self).clock_log@,
                extends(self.clock_log@, l0),
                forall|o: Seq<i64>|
                    #[trigger] extends(o, self.clock_log@) ==> exec_while(s0, *c, *body, fuel as nat, o)
                        == exec_while(self@, *c, *body, f as nat, o),
            decreases f,
        {
            if f == 0 {
                return Err(budget_exhausted());
            }
            let v = match self.evaluate(c, f - 1) {
                Ok(v) => v,
                Err(u) => return Err(u),
            };
            if !is_truthy(&v) {
                return Ok(());
            }
            match self.execute(body, f - 1) {
                Ok(()) => {},
                Err(u) => return Err(u),
            }
            f = f - 1;
        }
    }
}


/// The nesting budget of a top-level run: each statement, expression,
/// call and loop round spends one level of it.
pub const STEP_BUDGET: u64 = 18446744073709551615;

/// A top-level run: the statements in order; a `return` that reaches the
/// top level is an error.
pub open spec fn run(st: State, l: StmtList, o: Seq<i64>) -> (State, Result<(), RloxError>) {
    let (s1, r) = exec_list(st, l, STEP_BUDGET as nat, o);
    (s1, match r {
        Ok(_) => Ok(()),
        Err(Exit::Error(e)) => Err(e),
        Err(Exit::Return(_)) => Err(runtime_error(RuntimeErrorKind::ReturnOutsideFunction, None)),
    })
}

/// The depth table after adding the entries in order; a later entry for
/// the same id wins.
pub open spec fn with_entries(m: Map<usize, usize>, e: Seq<(usize, usize)>) -> Map<usize, usize>
    decreases e.len(),
{
    if e.len() == 0 {
        m
    } else {
        with_entries(m, e.drop_last()).insert(e.last().0, e.last().1)
    }
}

impl Interpreter {
    /// Runs a program's statements in order against the current state.
    pub fn interpret(&mut self, statements: &StmtList) -> (r: Result<(), RloxError>)
        ensures
            extends(final(self).clock_log@, old(self).clock_log@),
            forall|o: Seq<i64>|
                #[trigger] extends(o, final(self).clock_log@) ==> run(old(self)@, *statements, o) == (final(self)@, r),
    {
        match self.execute_list(statements, STEP_BUDGET) {
            Ok(()) => Ok(()),
            Err(Unwind::Error(e)) => Err(e),
            Err(Unwind::Return(_)) => Err(RloxError::RuntimeError {
                kind: RuntimeErrorKind::ReturnOutsideFunction,
                lexeme: None,
            }),
        }
    }

    /// Adds resolved depths, in order, to the depth table.
    pub fn add_scopes(&mut self, scopes: &Vec<(usize, usize)>)
        ensures
            final(self)@ == (State { locals: with_entries(old(self)@.locals, scopes@), ..old(self)@ }),
            final(self).clock_log@ == old(self).clock_log@,
    {
        let mut i: usize = 0;
        while i < scopes.len()
            invariant
                i <= scopes.len(),
                self@ == (State { locals: with_entries(old(self)@.locals, scopes@.subrange(0, i as int)), ..old(self)@ }),
                self.clock_log@ == old(self).clock_log@,
            decreases scopes.len() - i,
        {
            let (k, v) = scopes[i];
            self.locals.insert(k, v);
            assert(scopes@.subrange(0, i + 1).drop_last() =~= scopes@.subrange(0, i as int));
            i = i + 1;
        }
        assert(scopes@.subrange(0, i as int) =~= scopes@);
    }

    /// Hands out the printed lines collected so far and clears them.
    pub fn take_output(&mut self) -> (r: Vec<String>)
        ensures
            r@.map_values(|t: String| t@) == old(self)@.output,
            final(self)@ == (State { output: Seq::empty(), ..old(self)@ }),
            final(self).clock_log@ == old(self).clock_log@,
    {
        let mut out: Vec<String> = Vec::new();
        std::mem::swap(&mut out, &mut self.output);
        assert(self@.output =~= Seq::<Seq<char>>::empty());
        out
    }
}


/// A literal as an expression.
pub open spec fn is_literal(e: Expr) -> bool {
    e is Nil || e is Number || e is String || e is Boolean
}

/// Shadowing: `{ var x = <literal>; }` binds `x` only in the block's own
/// frame. Afterwards the frame that was current is current again and
/// every frame that existed before, an outer `x` included, is unchanged.
pub proof fn lemma_inner_declaration_leaves_outer_frames(st: State, name: String, init: Expr, fuel: nat, o: Seq<i64>)
    requires
        st.environment < st.frames.len(),
        st.frames.len() < usize::MAX,
        fuel >= 4,
        is_literal(init),
    ensures
        ({
            let block = Stmt::Block {
                statements: StmtList::Cons(
                    Box::new(Stmt::Var { name, initializer: Some(init) }),
                    Box::new(StmtList::Empty),
                ),
            };
            let (s1, r) = exec(st, block, fuel, o);
            r is Ok && s1.environment == st.environment && s1.frames == st.frames
        }),
{
    let var = Stmt::Var { name, initializer: Some(init) };
    let l = StmtList::Cons(Box::new(var), Box::new(StmtList::Empty));
    let f = (fuel - 1) as nat;
    let mark = st.frames.len();
    let fr = Frame { enclosing: Some(st.environment), bindings: Seq::empty() };
    let s1 = State { frames: st.frames.push(fr), environment: mark as usize, ..st };
    let (s2, r2) = exec_list(s1, l, f, o);
    let (sv, rv) = exec(s1, var, (f - 1) as nat, o);
    assert(eval(s1, init, (f - 2) as nat, o) == (s1, Ok::<Val, Exit>(match init {
        Expr::Nil => Val::Nil,
        Expr::Number(n) => Val::Number(n),
        Expr::String(t) => Val::Str(t@),
        Expr::Boolean(b) => Val::Bool(b),
        _ => Val::Nil,
    })));
    assert(rv is Ok);
    assert(sv.frames == s1.frames.update(mark as int, frame_define(fr, name@, eval(s1, init, (f - 2) as nat, o).1->Ok_0)));
    assert(exec_list(sv, StmtList::Empty, (f - 1) as nat, o) == (sv, Ok::<(), Exit>(())));
    assert(s2 == sv && r2 is Ok);
    assert(sv.frames.subrange(0, mark as int) =~= st.frames);
    let block = Stmt::Block { statements: l };
    assert(exec_block(st, l, fr, f, o) == (leave_scope(s2, st.environment, mark, st.functions.len()), r2));
    assert(exec(st, block, fuel, o) == exec_block(st, l, fr, f, o));
}

/// Shadowing with a write: in `{ var x = <literal>; x = <literal>; }`,
/// where the resolver gave the assignment depth 0, both the declaration
/// and the assignment act on the block's own frame; afterwards every
/// frame that existed before, an outer `x` included, is unchanged.
pub proof fn lemma_inner_assignment_leaves_outer_frames(
    st: State,
    name: String,
    init: Expr,
    id: usize,
    value: Expr,
    fuel: nat,
    o: Seq<i64>,
)
    requires
        st.environment < st.frames.len(),
        st.frames.len() < usize::MAX,
        fuel >= 6,
        is_literal(init),
        is_literal(value),
        st.locals.contains_key(id),
        st.locals[id] == 0,
    ensures
        ({
            let block = Stmt::Block {
                statements: StmtList::Cons(
                    Box::new(Stmt::Var { name, initializer: Some(init) }),
                    Box::new(StmtList::Cons(
                        Box::new(Stmt::Expression {
                            expression: Expr::Assign { id, name, value: Box::new(value) },
                        }),
                        Box::new(StmtList::Empty),
                    )),
                ),
            };
            let (s1, r) = exec(st, block, fuel, o);
            r is Ok && s1.environment == st.environment && s1.frames == st.frames
        }),
{
    let var = Stmt::Var { name, initializer: Some(init) };
    let asg = Stmt::Expression { expression: Expr::Assign { id, name, value: Box::new(value) } };
    let tail = StmtList::Cons(Box::new(asg), Box::new(StmtList::Empty));
    let l = StmtList::Cons(Box::new(var), Box::new(tail));
    let f = (fuel - 1) as nat;
    let mark = st.frames.len();
    let fr = Frame { enclosing: Some(st.environment), bindings: Seq::empty() };
    let s1 = State { frames: st.frames.push(fr), environment: mark as usize, ..st };
    let lit = |e: Expr| match e {
        Expr::Nil => Val::Nil,
        Expr::Number(n) => Val::Number(n),
        Expr::String(t) => Val::Str(t@),
        Expr::Boolean(b) => Val::Bool(b),
        _ => Val::Nil,
    };
    let v1 = lit(init);
    assert(eval(s1, init, (f - 2) as nat, o) == (s1, Ok::<Val, Exit>(v1)));
    let (sv, rv) = exec(s1, var, (f - 1) as nat, o);
    let fr1 = frame_define(fr, name@, v1);
    assert(rv is Ok);
    assert(sv == State { frames: s1.frames.update(mark as int, fr1), ..s1 });
    lemma_define_then_lookup(fr, name@, v1);
    let v2 = lit(value);
    let fa = (f - 2) as nat;
    assert(eval(sv, value, (fa - 2) as nat, o) == (sv, Ok::<Val, Exit>(v2)));
    assert(ancestor(sv.frames, mark as int, 0) == Some(mark as int));
    assert(frame_lookup(sv.frames[mark as int], name@) is Some);
    let sa = State { frames: sv.frames.update(mark as int, frame_define(sv.frames[mark as int], name@, v2)), ..sv };
    assert(assigned_state(sv, id, name, v2) == Ok::<State, RloxError>(sa));
    assert(eval(sv, Expr::Assign { id, name, value: Box::new(value) }, (fa - 1) as nat, o) == (sa, Ok::<Val, Exit>(v2)));
    assert(exec(sv, asg, fa, o) == (sa, Ok::<(), Exit>(())));
    assert(exec_list(sa, StmtList::Empty, fa, o) == (sa, Ok::<(), Exit>(())));
    assert(exec_list(sv, tail, (f - 1) as nat, o) == (sa, Ok::<(), Exit>(())));
    assert(exec_list(s1, l, f, o) == (sa, Ok::<(), Exit>(())));
    assert(sa.frames.subrange(0, mark as int) =~= st.frames);
    let block = Stmt::Block { statements: l };
    assert(exec_block(st, l, fr, f, o) == (leave_scope(sa, st.environment, mark, st.functions.len()), Ok::<(), Exit>(())));
    assert(exec(st, block, fuel, o) == exec_block(st, l, fr, f, o));
}

/// A declaration binds in the current frame only: once its initializer
/// (or `nil`) has a value, the current frame maps the name to it,
/// replacing an earlier binding there, and every other frame, each
/// enclosing one included, is as the initializer left it.
pub proof fn lemma_var_binds_in_current_frame(st: State, name: String, init: Option<Expr>, fuel: nat, o: Seq<i64>)
    requires
        fuel >= 2,
        ({
            let (s1, r1) = match init {
                Some(e) => eval(st, e, (fuel - 1) as nat, o),
                None => (st, Ok(Val::Nil)),
            };
            r1 is Ok && s1.environment < s1.frames.len()
        }),
    ensures
        ({
            let (s1, r1) = match init {
                Some(e) => eval(st, e, (fuel - 1) as nat, o),
                None => (st, Ok(Val::Nil)),
            };
            let v = r1->Ok_0;
            let k = s1.environment as int;
            let (s2, r2) = exec(st, Stmt::Var { name, initializer: init }, fuel, o);
            &&& r2 is Ok
            &&& s2.frames == s1.frames.update(k, frame_define(s1.frames[k], name@, v))
            &&& frame_lookup(s2.frames[k], name@) == Some(v)
            &&& forall|j: int| 0 <= j < s1.frames.len() && j != k ==> #[trigger] s2.frames[j] == s1.frames[j]
        }),
{
    let (s1, r1) = match init {
        Some(e) => eval(st, e, (fuel - 1) as nat, o),
        None => (st, Ok(Val::Nil)),
    };
    let k = s1.environment as int;
    lemma_define_then_lookup(s1.frames[k], name@, r1->Ok_0);
}

/// Calls check before they run: calling anything but a function or a
/// native is a type error, and calling a function with the wrong number
/// of arguments is an arity error; in both cases no body runs and the
/// state is unchanged.
pub proof fn lemma_call_checks(st: State, c: Val, args: Seq<Val>, fuel: nat, o: Seq<i64>)
    ensures
        !(c is Func) && !(c is Native) ==> call_value(st, c, args, fuel, o)
            == (st, Err::<Val, Exit>(rt(RuntimeErrorKind::NotCallable))),
        c is Native && args.len() != 0 ==> call_value(st, c, args, fuel, o)
            == (st, Err::<Val, Exit>(rt(RuntimeErrorKind::ArityMismatch))),
        c matches Val::Func(i) && i < st.functions.len() && args.len() != st.functions[i as int].parameters.len()
            ==> call_value(st, c, args, fuel, o) == (st, Err::<Val, Exit>(rt(RuntimeErrorKind::ArityMismatch))),
{
}

/// Closures capture by reference: declaring a function records the
/// current frame itself as the function's closure, and binds the name to
/// the new function value, so later reads and writes through that frame
/// are what the function sees.
pub proof fn lemma_function_captures_current_frame(
    st: State,
    name: String,
    parameters: NameList,
    body: StmtList,
    fuel: nat,
    o: Seq<i64>,
)
    requires
        st.environment < st.frames.len(),
        st.functions.len() < usize::MAX,
        fuel >= 1,
    ensures
        ({
            let (s1, r) = exec(st, Stmt::Function { name, parameters, body }, fuel, o);
            &&& r is Ok
            &&& s1.functions.len() == st.functions.len() + 1
            &&& s1.functions.last().closure == st.environment
            &&& s1.environment == st.environment
            &&& frame_lookup(s1.frames[st.environment as int], name@) == Some(Val::Func(st.functions.len() as usize))
        }),
{
    let k = st.environment as int;
    lemma_define_then_lookup(st.frames[k], name@, Val::Func(st.functions.len() as usize));
}


/// Neither the frame store nor the function table shrinks from `a` to `b`.
pub open spec fn grows(a: State, b: State) -> bool {
    b.frames.len() >= a.frames.len() && b.functions.len() >= a.functions.len()
}

proof fn lemma_grows_eval(st: State, e: Expr, fuel: nat, o: Seq<i64>)
    ensures
        grows(st, eval(st, e, fuel, o).0),
    decreases fuel, 0nat,
{
    if fuel > 0 {
        let f = (fuel - 1) as nat;
        match e {
            Expr::Grouping { expression } => lemma_grows_eval(st, *expression, f, o),
            Expr::Unary { right, .. } => lemma_grows_eval(st, *right, f, o),
            Expr::Binary { left, right, .. } => {
                lemma_grows_eval(st, *left, f, o);
                lemma_grows_eval(eval(st, *left, f, o).0, *right, f, o);
            },
            Expr::Logical { left, right, .. } => {
                lemma_grows_eval(st, *left, f, o);
                lemma_grows_eval(eval(st, *left, f, o).0, *right, f, o);
            },
            Expr::Assign { id, name, value } => {
                lemma_grows_eval(st, *value, f, o);
                let (s1, r1) = eval(st, *value, f, o);
                if let Ok(v) = r1 {
                    if let Ok(s2) = assigned_state(s1, id, name, v) {
                        let w = if s1.locals.contains_key(id) {
                            write_at(s1.frames, s1.environment as int, s1.locals[id] as nat, name, v)
                        } else {
                            write_at(s1.frames, 0, 0, name, v)
                        };
                        if s1.locals.contains_key(id) {
                            lemma_ancestor(s1.frames, s1.environment as int, s1.locals[id] as nat);
                        } else {
                            lemma_ancestor(s1.frames, 0, 0);
                        }
                        assert(w->Ok_0.len() == s1.frames.len());
                    }
                }
            },
            Expr::Call { callee, arguments } => {
                lemma_grows_eval(st, *callee, f, o);
                let s1 = eval(st, *callee, f, o).0;
                lemma_grows_args(s1, arguments, f, o);
                let (s2, r2) = eval_args(s1, arguments, f, o);
                if let (Ok(c), Ok(args)) = (eval(st, *callee, f, o).1, r2) {
                    lemma_grows_call(s2, c, args, f, o);
                }
            },
            _ => {},
        }
    }
}

proof fn lemma_grows_args(st: State, l: ExprList, fuel: nat, o: Seq<i64>)
    ensures
        grows(st, eval_args(st, l, fuel, o).0),
    decreases fuel, 0nat,
{
    if fuel > 0 {
        let f = (fuel - 1) as nat;
        if let ExprList::Cons(h, t) = l {
            lemma_grows_eval(st, *h, f, o);
            lemma_grows_args(eval(st, *h, f, o).0, *t, f, o);
        }
    }
}

proof fn lemma_grows_call(st: State, c: Val, args: Seq<Val>, fuel: nat, o: Seq<i64>)
    ensures
        grows(st, call_value(st, c, args, fuel, o).0),
        c is Func && call_value(st, c, args, fuel, o).0.functions.len() > st.functions.len()
            ==> call_value(st, c, args, fuel, o).0.frames.len() > st.frames.len(),
    decreases fuel, 2nat,
{
    if let Val::Func(i) = c {
        if i < st.functions.len() && args.len() == st.functions[i as int].parameters.len() {
            let fun = st.functions[i as int];
            let fr = bind_parameters(
                Frame { enclosing: Some(fun.closure), bindings: Seq::empty() },
                fun.parameters,
                args,
                0,
            );
            lemma_grows_block(st, fun.body, fr, fuel, o);
        }
    }
}

proof fn lemma_grows_block(st: State, stmts: StmtList, fr: Frame, fuel: nat, o: Seq<i64>)
    ensures
        grows(st, exec_block(st, stmts, fr, fuel, o).0),
        exec_block(st, stmts, fr, fuel, o).0.functions.len() > st.functions.len()
            ==> exec_block(st, stmts, fr, fuel, o).0.frames.len() > st.frames.len(),
    decreases fuel, 1nat,
{
    let mark = st.frames.len();
    let s1 = State { frames: st.frames.push(fr), environment: mark as usize, ..st };
    lemma_grows_list(s1, stmts, fuel, o);
}

proof fn lemma_grows_list(st: State, l: StmtList, fuel: nat, o: Seq<i64>)
    ensures
        grows(st, exec_list(st, l, fuel, o).0),
    decreases fuel, 0nat,
{
    if fuel > 0 {
        let f = (fuel - 1) as nat;
        if let StmtList::Cons(h, t) = l {
            lemma_grows_exec(st, *h, f, o);
            lemma_grows_list(exec(st, *h, f, o).0, *t, f, o);
        }
    }
}

proof fn lemma_grows_while(st: State, c: Expr, body: Stmt, fuel: nat, o: Seq<i64>)
    ensures
        grows(st, exec_while(st, c, body, fuel, o).0),
    decreases fuel, 0nat,
{
    if fuel > 0 {
        let f = (fuel - 1) as nat;
        lemma_grows_eval(st, c, f, o);
        let s1 = eval(st, c, f, o).0;
        lemma_grows_exec(s1, body, f, o);
        lemma_grows_while(exec(s1, body, f, o).0, c, body, f, o);
    }
}

proof fn lemma_grows_exec(st: State, s: Stmt, fuel: nat, o: Seq<i64>)
    ensures
        grows(st, exec(st, s, fuel, o).0),
    decreases fuel, 0nat,
{
    if fuel > 0 {
        let f = (fuel - 1) as nat;
        match s {
            Stmt::Expression { expression } => lemma_grows_eval(st, expression, f, o),
            Stmt::Print { expression } => lemma_grows_eval(st, expression, f, o),
            Stmt::Var { initializer, .. } => {
                if let Some(e) = initializer {
                    lemma_grows_eval(st, e, f, o);
                }
            },
            Stmt::Return { value } => {
                if let Some(e) = value {
                    lemma_grows_eval(st, e, f, o);
                }
            },
            Stmt::Block { statements } => lemma_grows_block(
                st,
                statements,
                Frame { enclosing: Some(st.environment), bindings: Seq::empty() },
                f,
                o,
            ),
            Stmt::If { condition, then_branch, else_branch } => {
                lemma_grows_eval(st, condition, f, o);
                let s1 = eval(st, condition, f, o).0;
                lemma_grows_exec(s1, *then_branch, f, o);
                if let Some(b) = else_branch {
                    lemma_grows_exec(s1, *b, f, o);
                }
            },
            Stmt::While { condition, body } => lemma_grows_while(st, condition, *body, f, o),
            Stmt::Function { .. } => {},
        }
    }
}

/// Separate invocations do not share state: a call that creates a
/// function value keeps its own frame, so the store ends up larger than
/// before the call and the next call's frame, which goes at the end of
/// the store, is a different one. A call that creates none leaves the
/// store no smaller than it found it.
pub proof fn lemma_call_keeps_captured_frame(st: State, i: usize, args: Seq<Val>, fuel: nat, o: Seq<i64>)
    ensures
        ({
            let (s1, _) = call_value(st, Val::Func(i), args, fuel, o);
            &&& s1.frames.len() >= st.frames.len()
            &&& s1.functions.len() >= st.functions.len()
            &&& s1.functions.len() > st.functions.len() ==> s1.frames.len() > st.frames.len()
        }),
{
    lemma_grows_call(st, Val::Func(i), args, fuel, o);
}

} // verus!
