use vstd::prelude::*;
use crate::error::{copy_error, ParseErrorKind, RloxError};
use crate::expr::{Expr, ExprList, NameList, Stmt, StmtList};
use crate::scanner::{copy_token, Literal, Token, TokenType};

verus! {

/// Recursive-descent parser over a finished token sequence. Every
/// variable occurrence gets the next reference id.
pub struct Parser {
    pub tokens: Vec<Token>,
    pub current: usize,
    pub next_id: usize,
    /// Every error found, in order; parsing resumes after each at the
    /// next statement boundary.
    pub errors: Vec<RloxError>,
}

/// The nesting budget of a parse: each grammar step spends one level.
pub const PARSE_BUDGET: u64 = 18446744073709551615;

/// A token sequence the parser accepts: it ends with the end-of-input
/// marker.
pub open spec fn well_formed(toks: Seq<Token>) -> bool {
    toks.len() > 0 && toks.last().token_type == TokenType::Eof
}

pub open spec fn kind_at(toks: Seq<Token>, p: int) -> TokenType {
    if 0 <= p < toks.len() {
        toks[p].token_type
    } else {
        TokenType::Eof
    }
}

pub open spec fn perr(toks: Seq<Token>, p: int, kind: ParseErrorKind) -> RloxError {
    RloxError::ParseError { current: p as usize, token: toks[p], kind }
}

/// The token kinds that begin a primary expression.
pub open spec fn starts_primary(t: TokenType) -> bool {
    match t {
        TokenType::False | TokenType::True | TokenType::Nil | TokenType::String | TokenType::Number
        | TokenType::Identifier | TokenType::LeftParen => true,
        _ => false,
    }
}

/// The position after the token at `p`; the end marker is never passed.
pub open spec fn next_pos(toks: Seq<Token>, p: int) -> int {
    if kind_at(toks, p) == TokenType::Eof { p } else { p + 1 }
}

pub open spec fn starts_statement(t: TokenType) -> bool {
    match t {
        TokenType::Class | TokenType::Fun | TokenType::Var | TokenType::For | TokenType::If
        | TokenType::While | TokenType::Print | TokenType::Return => true,
        _ => false,
    }
}

/// The first statement boundary at or after `p`: just past a `;`, at a
/// token that starts a statement, or at the end.
pub open spec fn sync_from(toks: Seq<Token>, p: int) -> int
    decreases toks.len() - p,
{
    if p < 1 || p + 1 >= toks.len() || kind_at(toks, p) == TokenType::Eof {
        p
    } else if kind_at(toks, p - 1) == TokenType::Semicolon || starts_statement(kind_at(toks, p)) {
        p
    } else {
        sync_from(toks, p + 1)
    }
}

/// Where parsing resumes after an error at `p`.
pub open spec fn synchronize(toks: Seq<Token>, p: int) -> int {
    sync_from(toks, next_pos(toks, p))
}

pub open spec fn error_pos(e: RloxError, p: int) -> int {
    match e {
        RloxError::ParseError { current, .. } => current as int,
        _ => p,
    }
}

/// Where parsing resumes after the error `e` in a declaration that began
/// at `p`.
pub open spec fn resume(toks: Seq<Token>, e: RloxError, p: int) -> int {
    let q = error_pos(e, p);
    if 0 <= q < toks.len() {
        synchronize(toks, q)
    } else {
        toks.len() - 1
    }
}

/// Binary operator levels, tightest first: factor, term, comparison,
/// equality, `and`, `or`.
pub open spec fn level_op(level: nat, t: TokenType) -> bool {
    match t {
        TokenType::Slash | TokenType::Star => level == 0,
        TokenType::Minus | TokenType::Plus => level == 1,
        TokenType::Greater | TokenType::GreaterEqual | TokenType::Less | TokenType::LessEqual => level == 2,
        TokenType::BangEqual | TokenType::EqualEqual => level == 3,
        TokenType::And => level == 4,
        TokenType::Or => level == 5,
        _ => false,
    }
}

pub open spec fn combine(level: nat, l: Expr, op: TokenType, r: Expr) -> Expr {
    if level >= 4 {
        Expr::Logical { left: Box::new(l), operator: op, right: Box::new(r) }
    } else {
        Expr::Binary { left: Box::new(l), operator: op, right: Box::new(r) }
    }
}

pub type PResult<T> = Result<(T, int, nat), RloxError>;

pub open spec fn too_deep<T>(toks: Seq<Token>, p: int) -> PResult<T> {
    Err(perr(toks, p, ParseErrorKind::TooDeep))
}

pub open spec fn expression(toks: Seq<Token>, p: int, id: nat, fuel: nat) -> PResult<Expr>
    decreases fuel, 2nat,
{
    assignment(toks, p, id, fuel)
}

pub open spec fn assignment(toks: Seq<Token>, p: int, id: nat, fuel: nat) -> PResult<Expr>
    decreases fuel, 1nat,
{
    if fuel == 0 {
        too_deep(toks, p)
    } else {
        let f = (fuel - 1) as nat;
        match binary(5, toks, p, id, f) {
            Err(e) => Err(e),
            Ok((e, p1, id1)) => if kind_at(toks, p1) == TokenType::Equal {
                match assignment(toks, p1 + 1, id1, f) {
                    Err(err) => Err(err),
                    Ok((v, p3, id3)) => match e {
                        Expr::Variable { id, name } => Ok((Expr::Assign { id, name, value: Box::new(v) }, p3, id3)),
                        _ => Err(RloxError::ParseError {
                            current: p3 as usize,
                            token: toks[p1],
                            kind: ParseErrorKind::InvalidAssignmentTarget,
                        }),
                    },
                }
            } else {
                Ok((e, p1, id1))
            },
        }
    }
}

pub open spec fn binary(level: nat, toks: Seq<Token>, p: int, id: nat, fuel: nat) -> PResult<Expr>
    decreases fuel, 0nat,
{
    if fuel == 0 {
        too_deep(toks, p)
    } else {
        let f = (fuel - 1) as nat;
        let lhs = if level == 0 { unary(toks, p, id, f) } else { binary((level - 1) as nat, toks, p, id, f) };
        match lhs {
            Err(e) => Err(e),
            Ok((e, p1, id1)) => binary_rest(level, e, toks, p1, id1, f),
        }
    }
}

pub open spec fn binary_rest(level: nat, lhs: Expr, toks: Seq<Token>, p: int, id: nat, fuel: nat) -> PResult<Expr>
    decreases fuel, 0nat,
{
    if fuel == 0 {
        too_deep(toks, p)
    } else {
        let f = (fuel - 1) as nat;
        let op = kind_at(toks, p);
        if level_op(level, op) {
            let rhs = if level == 0 { unary(toks, p + 1, id, f) } else { binary((level - 1) as nat, toks, p + 1, id, f) };
            match rhs {
                Err(e) => Err(e),
                Ok((r, p2, id2)) => binary_rest(level, combine(level, lhs, op, r), toks, p2, id2, f),
            }
        } else {
            Ok((lhs, p, id))
        }
    }
}

pub open spec fn unary(toks: Seq<Token>, p: int, id: nat, fuel: nat) -> PResult<Expr>
    decreases fuel, 0nat,
{
    if fuel == 0 {
        too_deep(toks, p)
    } else {
        let f = (fuel - 1) as nat;
        let op = kind_at(toks, p);
        if op == TokenType::Bang || op == TokenType::Minus {
            match unary(toks, p + 1, id, f) {
                Err(e) => Err(e),
                Ok((r, p2, id2)) => Ok((Expr::Unary { operator: op, right: Box::new(r) }, p2, id2)),
            }
        } else {
            match primary(toks, p, id, f) {
                Err(e) => Err(e),
                Ok((e, p1, id1)) => call_rest(e, toks, p1, id1, f),
            }
        }
    }
}

pub open spec fn call_rest(callee: Expr, toks: Seq<Token>, p: int, id: nat, fuel: nat) -> PResult<Expr>
    decreases fuel, 0nat,
{
    if fuel == 0 {
        too_deep(toks, p)
    } else {
        let f = (fuel - 1) as nat;
        if kind_at(toks, p) == TokenType::LeftParen {
            let args = if kind_at(toks, p + 1) == TokenType::RightParen {
                Ok((ExprList::Empty, p + 2, id))
            } else {
                arguments(toks, p + 1, id, 0, f)
            };
            match args {
                Err(e) => Err(e),
                Ok((a, p2, id2)) => call_rest(Expr::Call { callee: Box::new(callee), arguments: a }, toks, p2, id2, f),
            }
        } else {
            Ok((callee, p, id))
        }
    }
}

/// Call arguments from `p` through the closing parenthesis; `count` of
/// them came before.
pub open spec fn arguments(toks: Seq<Token>, p: int, id: nat, count: nat, fuel: nat) -> PResult<ExprList>
    decreases fuel, 0nat,
{
    if fuel == 0 {
        too_deep(toks, p)
    } else if count >= 255 {
        Err(perr(toks, p, ParseErrorKind::TooManyArguments))
    } else {
        let f = (fuel - 1) as nat;
        match expression(toks, p, id, f) {
            Err(e) => Err(e),
            Ok((e, p1, id1)) => if kind_at(toks, p1) == TokenType::Comma {
                match arguments(toks, p1 + 1, id1, count + 1, f) {
                    Err(err) => Err(err),
                    Ok((rest, p2, id2)) => Ok((ExprList::Cons(Box::new(e), Box::new(rest)), p2, id2)),
                }
            } else if kind_at(toks, p1) == TokenType::RightParen {
                Ok((ExprList::Cons(Box::new(e), Box::new(ExprList::Empty)), p1 + 1, id1))
            } else {
                Err(perr(toks, p1, ParseErrorKind::Expected(TokenType::RightParen)))
            },
        }
    }
}

pub open spec fn primary(toks: Seq<Token>, p: int, id: nat, fuel: nat) -> PResult<Expr>
    decreases fuel, 0nat,
{
    if fuel == 0 {
        too_deep(toks, p)
    } else {
        let f = (fuel - 1) as nat;
        match kind_at(toks, p) {
            TokenType::False => Ok((Expr::Boolean(false), p + 1, id)),
            TokenType::True => Ok((Expr::Boolean(true), p + 1, id)),
            TokenType::Nil => Ok((Expr::Nil, p + 1, id)),
            TokenType::String => match toks[p].literal {
                Some(Literal::Str(s)) => Ok((Expr::String(s), p + 1, id)),
                _ => Err(perr(toks, p, ParseErrorKind::ExpectExpression)),
            },
            TokenType::Number => match toks[p].literal {
                Some(Literal::Number(n)) => Ok((Expr::Number(n), p + 1, id)),
                _ => Err(perr(toks, p, ParseErrorKind::ExpectExpression)),
            },
            TokenType::Identifier => if id >= usize::MAX {
                Err(perr(toks, p, ParseErrorKind::ReferenceIdsExhausted))
            } else {
                Ok((Expr::Variable { id: id as usize, name: toks[p].lexeme }, p + 1, id + 1))
            },
            TokenType::LeftParen => match expression(toks, p + 1, id, f) {
                Err(e) => Err(e),
                Ok((e, p1, id1)) => if kind_at(toks, p1) == TokenType::RightParen {
                    Ok((Expr::Grouping { expression: Box::new(e) }, p1 + 1, id1))
                } else {
                    Err(perr(toks, p1, ParseErrorKind::Expected(TokenType::RightParen)))
                },
            },
            _ => Err(perr(toks, p, ParseErrorKind::ExpectExpression)),
        }
    }
}

/// `p` holds a token of kind `t`: the position after it, or the error.
pub open spec fn expect(toks: Seq<Token>, p: int, t: TokenType) -> Result<int, RloxError> {
    if kind_at(toks, p) == t {
        Ok(next_pos(toks, p))
    } else {
        Err(perr(toks, p, ParseErrorKind::Expected(t)))
    }
}

/// An expression followed by `;`.
pub open spec fn terminated(toks: Seq<Token>, p: int, id: nat, fuel: nat) -> PResult<Expr>
    decreases fuel, 3nat,
{
    match expression(toks, p, id, fuel) {
        Err(e) => Err(e),
        Ok((e, p1, id1)) => match expect(toks, p1, TokenType::Semicolon) {
            Err(err) => Err(err),
            Ok(p2) => Ok((e, p2, id1)),
        },
    }
}

pub open spec fn declaration(toks: Seq<Token>, p: int, id: nat, fuel: nat) -> PResult<Stmt>
    decreases fuel, 4nat,
{
    if fuel == 0 {
        too_deep(toks, p)
    } else {
        let f = (fuel - 1) as nat;
        match kind_at(toks, p) {
            TokenType::Fun => function(toks, p + 1, id, f),
            TokenType::Var => var_declaration(toks, p + 1, id, f),
            _ => statement(toks, p, id, f),
        }
    }
}

pub open spec fn var_declaration(toks: Seq<Token>, p: int, id: nat, fuel: nat) -> PResult<Stmt>
    decreases fuel, 4nat,
{
    if kind_at(toks, p) != TokenType::Identifier {
        Err(perr(toks, p, ParseErrorKind::Expected(TokenType::Identifier)))
    } else {
        let name = toks[p].lexeme;
        if kind_at(toks, p + 1) == TokenType::Equal {
            match terminated(toks, p + 2, id, fuel) {
                Err(e) => Err(e),
                Ok((e, p2, id2)) => Ok((Stmt::Var { name, initializer: Some(e) }, p2, id2)),
            }
        } else {
            match expect(toks, p + 1, TokenType::Semicolon) {
                Err(e) => Err(e),
                Ok(p2) => Ok((Stmt::Var { name, initializer: None }, p2, id)),
            }
        }
    }
}

pub open spec fn statement(toks: Seq<Token>, p: int, id: nat, fuel: nat) -> PResult<Stmt>
    decreases fuel, 4nat,
{
    if fuel == 0 {
        too_deep(toks, p)
    } else {
        let f = (fuel - 1) as nat;
        match kind_at(toks, p) {
            TokenType::If => if_statement(toks, p + 1, id, f),
            TokenType::For => for_statement(toks, p + 1, id, f),
            TokenType::While => match expect(toks, p + 1, TokenType::LeftParen) {
                Err(e) => Err(e),
                Ok(p1) => match expression(toks, p1, id, f) {
                    Err(e) => Err(e),
                    Ok((c, p2, id2)) => match expect(toks, p2, TokenType::RightParen) {
                        Err(e) => Err(e),
                        Ok(p3) => match statement(toks, p3, id2, f) {
                            Err(e) => Err(e),
                            Ok((b, p4, id4)) => Ok((Stmt::While { condition: c, body: Box::new(b) }, p4, id4)),
                        },
                    },
                },
            },
            TokenType::Print => match terminated(toks, p + 1, id, f) {
                Err(e) => Err(e),
                Ok((e, p1, id1)) => Ok((Stmt::Print { expression: e }, p1, id1)),
            },
            TokenType::Return => if kind_at(toks, p + 1) == TokenType::Semicolon {
                Ok((Stmt::Return { value: None }, p + 2, id))
            } else {
                match terminated(toks, p + 1, id, f) {
                    Err(e) => Err(e),
                    Ok((e, p1, id1)) => Ok((Stmt::Return { value: Some(e) }, p1, id1)),
                }
            },
            TokenType::LeftBrace => match block(toks, p + 1, id, f) {
                Err(e) => Err(e),
                Ok((l, p1, id1)) => Ok((Stmt::Block { statements: l }, p1, id1)),
            },
            _ => match terminated(toks, p, id, f) {
                Err(e) => Err(e),
                Ok((e, p1, id1)) => Ok((Stmt::Expression { expression: e }, p1, id1)),
            },
        }
    }
}

pub open spec fn if_statement(toks: Seq<Token>, p: int, id: nat, fuel: nat) -> PResult<Stmt>
    decreases fuel, 4nat,
{
    if fuel == 0 {
        too_deep(toks, p)
    } else {
        let f = (fuel - 1) as nat;
        match expect(toks, p, TokenType::LeftParen) {
            Err(e) => Err(e),
            Ok(p1) => match expression(toks, p1, id, f) {
                Err(e) => Err(e),
                Ok((c, p2, id2)) => match expect(toks, p2, TokenType::RightParen) {
                    Err(e) => Err(e),
                    Ok(p3) => match statement(toks, p3, id2, f) {
                        Err(e) => Err(e),
                        Ok((t, p4, id4)) => if kind_at(toks, p4) == TokenType::Else {
                            match statement(toks, p4 + 1, id4, f) {
                                Err(e) => Err(e),
                                Ok((e, p5, id5)) => Ok((
                                    Stmt::If { condition: c, then_branch: Box::new(t), else_branch: Some(Box::new(e)) },
                                    p5,
                                    id5,
                                )),
                            }
                        } else {
                            Ok((Stmt::If { condition: c, then_branch: Box::new(t), else_branch: None }, p4, id4))
                        },
                    },
                },
            },
        }
    }
}

/// The two-element statement list.
pub open spec fn pair(a: Stmt, b: Stmt) -> StmtList {
    StmtList::Cons(Box::new(a), Box::new(StmtList::Cons(Box::new(b), Box::new(StmtList::Empty))))
}

/// A `for` loop rewritten as a `while` loop: the increment runs after the
/// body, a missing condition is `true`, and the initializer runs once in
/// a block around the loop.
pub open spec fn desugar_for(init: Option<Stmt>, cond: Option<Expr>, inc: Option<Expr>, body: Stmt) -> Stmt {
    let body1 = match inc {
        Some(i) => Stmt::Block { statements: pair(body, Stmt::Expression { expression: i }) },
        None => body,
    };
    let c = match cond {
        Some(c) => c,
        None => Expr::Boolean(true),
    };
    let w = Stmt::While { condition: c, body: Box::new(body1) };
    match init {
        Some(s) => Stmt::Block { statements: pair(s, w) },
        None => w,
    }
}

pub open spec fn for_statement(toks: Seq<Token>, p: int, id: nat, fuel: nat) -> PResult<Stmt>
    decreases fuel, 4nat,
{
    if fuel == 0 {
        too_deep(toks, p)
    } else {
        let f = (fuel - 1) as nat;
        match expect(toks, p, TokenType::LeftParen) {
            Err(e) => Err(e),
            Ok(q) => {
                let init: PResult<Option<Stmt>> = if kind_at(toks, q) == TokenType::Semicolon {
                    Ok((None, q + 1, id))
                } else if kind_at(toks, q) == TokenType::Var {
                    match var_declaration(toks, q + 1, id, f) {
                        Err(e) => Err(e),
                        Ok((s, q1, id1)) => Ok((Some(s), q1, id1)),
                    }
                } else {
                    match terminated(toks, q, id, f) {
                        Err(e) => Err(e),
                        Ok((e, q1, id1)) => Ok((Some(Stmt::Expression { expression: e }), q1, id1)),
                    }
                };
                match init {
                    Err(e) => Err(e),
                    Ok((init, q1, id1)) => {
                        let cond: PResult<Option<Expr>> = if kind_at(toks, q1) != TokenType::Semicolon {
                            match expression(toks, q1, id1, f) {
                                Err(e) => Err(e),
                                Ok((c, q2, id2)) => Ok((Some(c), q2, id2)),
                            }
                        } else {
                            Ok((None, q1, id1))
                        };
                        match cond {
                            Err(e) => Err(e),
                            Ok((cond, q2, id2)) => match expect(toks, q2, TokenType::Semicolon) {
                                Err(e) => Err(e),
                                Ok(q3) => {
                                    let inc: PResult<Option<Expr>> = if kind_at(toks, q3) != TokenType::RightParen {
                                        match expression(toks, q3, id2, f) {
                                            Err(e) => Err(e),
                                            Ok((i, q4, id4)) => Ok((Some(i), q4, id4)),
                                        }
                                    } else {
                                        Ok((None, q3, id2))
                                    };
                                    match inc {
                                        Err(e) => Err(e),
                                        Ok((inc, q4, id4)) => match expect(toks, q4, TokenType::RightParen) {
                                            Err(e) => Err(e),
                                            Ok(q5) => match statement(toks, q5, id4, f) {
                                                Err(e) => Err(e),
                                                Ok((b, q6, id6)) => Ok((desugar_for(init, cond, inc, b), q6, id6)),
                                            },
                                        },
                                    }
                                },
                            },
                        }
                    },
                }
            },
        }
    }
}

/// Declarations up to the closing brace, which is consumed.
pub open spec fn block(toks: Seq<Token>, p: int, id: nat, fuel: nat) -> PResult<StmtList>
    decreases fuel, 4nat,
{
    if fuel == 0 {
        too_deep(toks, p)
    } else {
        let f = (fuel - 1) as nat;
        if kind_at(toks, p) == TokenType::RightBrace {
            Ok((StmtList::Empty, p + 1, id))
        } else if kind_at(toks, p) == TokenType::Eof {
            Err(perr(toks, p, ParseErrorKind::Expected(TokenType::RightBrace)))
        } else {
            match declaration(toks, p, id, f) {
                Err(e) => Err(e),
                Ok((s, p1, id1)) => match block(toks, p1, id1, f) {
                    Err(e) => Err(e),
                    Ok((rest, p2, id2)) => Ok((StmtList::Cons(Box::new(s), Box::new(rest)), p2, id2)),
                },
            }
        }
    }
}

/// Parameter names from `p` through the closing parenthesis; `count`
/// of them came before.
pub open spec fn parameters(toks: Seq<Token>, p: int, count: nat, fuel: nat) -> Result<(NameList, int), RloxError>
    decreases fuel,
{
    if fuel == 0 {
        Err(perr(toks, p, ParseErrorKind::TooDeep))
    } else if count >= 255 {
        Err(perr(toks, p, ParseErrorKind::TooManyParameters))
    } else if kind_at(toks, p) != TokenType::Identifier {
        Err(perr(toks, p, ParseErrorKind::Expected(TokenType::Identifier)))
    } else {
        let name = toks[p].lexeme;
        if kind_at(toks, p + 1) == TokenType::Comma {
            match parameters(toks, p + 2, count + 1, (fuel - 1) as nat) {
                Err(e) => Err(e),
                Ok((rest, p2)) => Ok((NameList::Cons(name, Box::new(rest)), p2)),
            }
        } else if kind_at(toks, p + 1) == TokenType::RightParen {
            Ok((NameList::Cons(name, Box::new(NameList::Empty)), p + 2))
        } else {
            Err(perr(toks, p + 1, ParseErrorKind::Expected(TokenType::RightParen)))
        }
    }
}

pub open spec fn function(toks: Seq<Token>, p: int, id: nat, fuel: nat) -> PResult<Stmt>
    decreases fuel, 4nat,
{
    if fuel == 0 {
        too_deep(toks, p)
    } else {
        let f = (fuel - 1) as nat;
        if kind_at(toks, p) != TokenType::Identifier {
            Err(perr(toks, p, ParseErrorKind::Expected(TokenType::Identifier)))
        } else {
            let name = toks[p].lexeme;
            match expect(toks, p + 1, TokenType::LeftParen) {
                Err(e) => Err(e),
                Ok(p1) => {
                    let params = if kind_at(toks, p1) == TokenType::RightParen {
                        Ok((NameList::Empty, p1 + 1))
                    } else {
                        parameters(toks, p1, 0, f)
                    };
                    match params {
                        Err(e) => Err(e),
                        Ok((names, p2)) => match expect(toks, p2, TokenType::LeftBrace) {
                            Err(e) => Err(e),
                            Ok(p3) => match block(toks, p3, id, f) {
                                Err(e) => Err(e),
                                Ok((body, p4, id4)) => Ok((Stmt::Function { name, parameters: names, body }, p4, id4)),
                            },
                        },
                    }
                },
            }
        }
    }
}

/// A whole program from `p`: the statements parsed, every error in
/// order, and the next free reference id. After an error, parsing
/// resumes at the next statement boundary.
pub open spec fn program(toks: Seq<Token>, p: int, id: nat, fuel: nat) -> (StmtList, Seq<RloxError>, nat)
    decreases fuel,
{
    if fuel == 0 {
        (StmtList::Empty, seq![perr(toks, p, ParseErrorKind::TooDeep)], id)
    } else if kind_at(toks, p) == TokenType::Eof {
        (StmtList::Empty, Seq::empty(), id)
    } else {
        let f = (fuel - 1) as nat;
        match declaration(toks, p, id, f) {
            Ok((s, p1, id1)) => {
                let (rest, errs, id2) = program(toks, p1, id1, f);
                (StmtList::Cons(Box::new(s), Box::new(rest)), errs, id2)
            },
            Err(e) => {
                let (rest, errs, id2) = program(toks, resume(toks, e, p), id, f);
                (rest, seq![e] + errs, id2)
            },
        }
    }
}


/// The precedence levels, loosest last: each binary operator belongs to
/// exactly one level; `*` and `/` bind tightest, then `+` and `-`, the
/// comparisons, the equalities, `and`, and `or` loosest.
pub proof fn lemma_precedence_levels(t: TokenType, a: nat, b: nat)
    ensures
        level_op(a, t) && level_op(b, t) ==> a == b,
        level_op(0, TokenType::Star) && level_op(0, TokenType::Slash),
        level_op(1, TokenType::Plus) && level_op(1, TokenType::Minus),
        level_op(2, TokenType::Less) && level_op(2, TokenType::LessEqual),
        level_op(2, TokenType::Greater) && level_op(2, TokenType::GreaterEqual),
        level_op(3, TokenType::EqualEqual) && level_op(3, TokenType::BangEqual),
        level_op(4, TokenType::And) && level_op(5, TokenType::Or),
        !level_op(a, TokenType::Equal),
{
}

/// A level keeps combining only operators of its own level: at any other
/// token it hands back what it has, leaving that token for a looser
/// level.
pub proof fn lemma_level_stops_at_other_operators(level: nat, lhs: Expr, toks: Seq<Token>, p: int, id: nat, fuel: nat)
    requires
        fuel > 0,
        !level_op(level, kind_at(toks, p)),
    ensures
        binary_rest(level, lhs, toks, p, id, fuel) == Ok::<(Expr, int, nat), RloxError>((lhs, p, id)),
{
}

/// A call takes at most 255 arguments: asking for one more is a parse
/// error at that argument.
pub proof fn lemma_argument_cap(toks: Seq<Token>, p: int, id: nat, fuel: nat)
    requires
        fuel > 0,
    ensures
        arguments(toks, p, id, 255, fuel) == Err::<(ExprList, int, nat), RloxError>(
            perr(toks, p, ParseErrorKind::TooManyArguments),
        ),
{
}

/// A function declares at most 255 parameters: one more is a parse error
/// at that parameter.
pub proof fn lemma_parameter_cap(toks: Seq<Token>, p: int, fuel: nat)
    requires
        fuel > 0,
    ensures
        parameters(toks, p, 255, fuel) == Err::<(NameList, int), RloxError>(
            perr(toks, p, ParseErrorKind::TooManyParameters),
        ),
{
}

/// Only a variable can be assigned: when the left side of `=` parses to
/// anything else, the assignment is a parse error naming the `=`.
pub proof fn lemma_invalid_assignment_target(toks: Seq<Token>, p: int, id: nat, fuel: nat)
    requires
        fuel > 0,
        binary(5, toks, p, id, (fuel - 1) as nat) is Ok,
        !(binary(5, toks, p, id, (fuel - 1) as nat)->Ok_0.0 is Variable),
        kind_at(toks, binary(5, toks, p, id, (fuel - 1) as nat)->Ok_0.1) == TokenType::Equal,
        ({
            let (_, p1, id1) = binary(5, toks, p, id, (fuel - 1) as nat)->Ok_0;
            assignment(toks, p1 + 1, id1, (fuel - 1) as nat) is Ok
        }),
    ensures
        ({
            let (_, p1, id1) = binary(5, toks, p, id, (fuel - 1) as nat)->Ok_0;
            let (_, p3, _) = assignment(toks, p1 + 1, id1, (fuel - 1) as nat)->Ok_0;
            assignment(toks, p, id, fuel) == Err::<(Expr, int, nat), RloxError>(RloxError::ParseError {
                current: p3 as usize,
                token: toks[p1],
                kind: ParseErrorKind::InvalidAssignmentTarget,
            })
        }),
{
}

/// The exec result `r`, with the parser left at `cur` and `id`, is the
/// grammar's result `s`.
pub open spec fn parsed<T>(r: Result<T, RloxError>, cur: usize, id: usize, s: PResult<T>) -> bool {
    match r {
        Ok(v) => s == Ok::<(T, int, nat), RloxError>((v, cur as int, id as nat)),
        Err(e) => s == Err::<(T, int, nat), RloxError>(e),
    }
}

/// Whether the tokens end with the end-of-input marker, as `parse` needs.
pub fn well_formed_tokens(tokens: &Vec<Token>) -> (r: bool)
    ensures
        r == well_formed(tokens@),
{
    tokens.len() > 0 && tokens[tokens.len() - 1].token_type == TokenType::Eof
}

impl Parser {
    pub open spec fn inv(&self) -> bool {
        well_formed(self.tokens@) && self.current < self.tokens.len()
    }

    /// A parser at the start of `tokens`, whose first reference id is
    /// `first_id`.
    pub fn new(tokens: Vec<Token>, first_id: usize) -> (r: Parser)
        ensures
            r.tokens@ == tokens@,
            r.current == 0,
            r.next_id == first_id,
            r.errors@.len() == 0,
    {
        Parser { tokens, current: 0, next_id: first_id, errors: Vec::new() }
    }

    fn peek_kind(&self) -> (t: TokenType)
        requires
            self.inv(),
        ensures
            t == kind_at(self.tokens@, self.current as int),
    {
        self.tokens[self.current].token_type
    }

    fn advance(&mut self)
        requires
            old(self).inv(),
        ensures
            final(self).inv(),
            final(self).tokens@ == old(self).tokens@,
            final(self).next_id == old(self).next_id,
            final(self).current as int == next_pos(old(self).tokens@, old(self).current as int),
    {
        if self.tokens[self.current].token_type != TokenType::Eof {
            self.current = self.current + 1;
        }
    }

    fn error_here(&self, kind: ParseErrorKind) -> (e: RloxError)
        requires
            self.inv(),
        ensures
            e == perr(self.tokens@, self.current as int, kind),
    {
        RloxError::ParseError { current: self.current, token: copy_token(&self.tokens[self.current]), kind }
    }

    fn expect(&mut self, t: TokenType) -> (r: Result<(), RloxError>)
        requires
            old(self).inv(),
        ensures
            final(self).inv(),
            final(self).tokens@ == old(self).tokens@,
            final(self).next_id == old(self).next_id,
            match expect(old(self).tokens@, old(self).current as int, t) {
                Ok(p) => r is Ok && final(self).current as int == p,
                Err(e) => r == Err::<(), RloxError>(e),
            },
    {
        if self.peek_kind() == t {
            self.advance();
            Ok(())
        } else {
            Err(self.error_here(ParseErrorKind::Expected(t)))
        }
    }

    fn expression(&mut self, fuel: u64) -> (r: Result<Expr, RloxError>)
        requires
            old(self).inv(),
        ensures
            final(self).inv(),
            final(self).tokens@ == old(self).tokens@,
            parsed(r, final(self).current, final(self).next_id, expression(old(self).tokens@, old(self).current as int, old(self).next_id as nat, fuel as nat)),
        decreases fuel, 2nat,
    {
        self.assignment(fuel)
    }

    fn assignment(&mut self, fuel: u64) -> (r: Result<Expr, RloxError>)
        requires
            old(self).inv(),
        ensures
            final(self).inv(),
            final(self).tokens@ == old(self).tokens@,
            parsed(r, final(self).current, final(self).next_id, assignment(old(self).tokens@, old(self).current as int, old(self).next_id as nat, fuel as nat)),
        decreases fuel, 1nat,
    {
        if fuel == 0 {
            return Err(self.error_here(ParseErrorKind::TooDeep));
        }
        let e = match self.binary(5, fuel - 1) {
            Ok(e) => e,
            Err(err) => return Err(err),
        };
        if self.peek_kind() == TokenType::Equal {
            let equals = copy_token(&self.tokens[self.current]);
            self.advance();
            let v = match self.assignment(fuel - 1) {
                Ok(v) => v,
                Err(err) => return Err(err),
            };
            match e {
                Expr::Variable { id, name } => Ok(Expr::Assign { id, name, value: Box::new(v) }),
                _ => Err(RloxError::ParseError {
                    current: self.current,
                    token: equals,
                    kind: ParseErrorKind::InvalidAssignmentTarget,
                }),
            }
        } else {
            Ok(e)
        }
    }

    fn is_level_op(level: u8, t: TokenType) -> (r: bool)
        ensures
            r == level_op(level as nat, t),
    {
        match t {
            TokenType::Slash | TokenType::Star => level == 0,
            TokenType::Minus | TokenType::Plus => level == 1,
            TokenType::Greater | TokenType::GreaterEqual | TokenType::Less | TokenType::LessEqual => level == 2,
            TokenType::BangEqual | TokenType::EqualEqual => level == 3,
            TokenType::And => level == 4,
            TokenType::Or => level == 5,
            _ => false,
        }
    }

    fn binary(&mut self, level: u8, fuel: u64) -> (r: Result<Expr, RloxError>)
        requires
            old(self).inv(),
            level <= 5,
        ensures
            final(self).inv(),
            final(self).tokens@ == old(self).tokens@,
            parsed(r, final(self).current, final(self).next_id, binary(level as nat, old(self).tokens@, old(self).current as int, old(self).next_id as nat, fuel as nat)),
        decreases fuel, 0nat,
    {
        if fuel == 0 {
            return Err(self.error_here(ParseErrorKind::TooDeep));
        }
        let lhs = if level == 0 {
            self.unary(fuel - 1)
        } else {
            self.binary(level - 1, fuel - 1)
        };
        match lhs {
            Ok(e) => self.binary_rest(level, e, fuel - 1),
            Err(err) => Err(err),
        }
    }

    fn binary_rest(&mut self, level: u8, lhs: Expr, fuel: u64) -> (r: Result<Expr, RloxError>)
        requires
            old(self).inv(),
            level <= 5,
        ensures
            final(self).inv(),
            final(self).tokens@ == old(self).tokens@,
            parsed(r, final(self).current, final(self).next_id, binary_rest(level as nat, lhs, old(self).tokens@, old(self).current as int, old(self).next_id as nat, fuel as nat)),
        decreases fuel, 0nat,
    {
        if fuel == 0 {
            return Err(self.error_here(ParseErrorKind::TooDeep));
        }
        let op = self.peek_kind();
        if Parser::is_level_op(level, op) {
            self.advance();
            let rhs = if level == 0 {
                self.unary(fuel - 1)
            } else {
                self.binary(level - 1, fuel - 1)
            };
            match rhs {
                Ok(r) => {
                    let combined = if level >= 4 {
                        Expr::Logical { left: Box::new(lhs), operator: op, right: Box::new(r) }
                    } else {
                        Expr::Binary { left: Box::new(lhs), operator: op, right: Box::new(r) }
                    };
                    self.binary_rest(level, combined, fuel - 1)
                },
                Err(err) => Err(err),
            }
        } else {
            Ok(lhs)
        }
    }

    fn unary(&mut self, fuel: u64) -> (r: Result<Expr, RloxError>)
        requires
            old(self).inv(),
        ensures
            final(self).inv(),
            final(self).tokens@ == old(self).tokens@,
            parsed(r, final(self).current, final(self).next_id, unary(old(self).tokens@, old(self).current as int, old(self).next_id as nat, fuel as nat)),
        decreases fuel, 0nat,
    {
        if fuel == 0 {
            return Err(self.error_here(ParseErrorKind::TooDeep));
        }
        let op = self.peek_kind();
        if op == TokenType::Bang || op == TokenType::Minus {
            self.advance();
            match self.unary(fuel - 1) {
                Ok(r) => Ok(Expr::Unary { operator: op, right: Box::new(r) }),
                Err(err) => Err(err),
            }
        } else {
            match self.primary(fuel - 1) {
                Ok(e) => self.call_rest(e, fuel - 1),
                Err(err) => Err(err),
            }
        }
    }

    fn call_rest(&mut self, callee: Expr, fuel: u64) -> (r: Result<Expr, RloxError>)
        requires
            old(self).inv(),
        ensures
            final(self).inv(),
            final(self).tokens@ == old(self).tokens@,
            parsed(r, final(self).current, final(self).next_id, call_rest(callee, old(self).tokens@, old(self).current as int, old(self).next_id as nat, fuel as nat)),
        decreases fuel, 0nat,
    {
        if fuel == 0 {
            return Err(self.error_here(ParseErrorKind::TooDeep));
        }
        if self.peek_kind() == TokenType::LeftParen {
            self.advance();
            let args = if self.peek_kind() == TokenType::RightParen {
                self.advance();
                ExprList::Empty
            } else {
                match self.arguments(0, fuel - 1) {
                    Ok(a) => a,
                    Err(err) => return Err(err),
                }
            };
            self.call_rest(Expr::Call { callee: Box::new(callee), arguments: args }, fuel - 1)
        } else {
            Ok(callee)
        }
    }

    fn arguments(&mut self, count: usize, fuel: u64) -> (r: Result<ExprList, RloxError>)
        requires
            old(self).inv(),
            count <= 255,
        ensures
            final(self).inv(),
            final(self).tokens@ == old(self).tokens@,
            parsed(r, final(self).current, final(self).next_id, arguments(old(self).tokens@, old(self).current as int, old(self).next_id as nat, count as nat, fuel as nat)),
        decreases fuel, 0nat,
    {
        if fuel == 0 {
            return Err(self.error_here(ParseErrorKind::TooDeep));
        }
        if count >= 255 {
            return Err(self.error_here(ParseErrorKind::TooManyArguments));
        }
        let e = match self.expression(fuel - 1) {
            Ok(e) => e,
            Err(err) => return Err(err),
        };
        if self.peek_kind() == TokenType::Comma {
            self.advance();
            match self.arguments(count + 1, fuel - 1) {
                Ok(rest) => Ok(ExprList::Cons(Box::new(e), Box::new(rest))),
                Err(err) => Err(err),
            }
        } else if self.peek_kind() == TokenType::RightParen {
            self.advance();
            Ok(ExprList::Cons(Box::new(e), Box::new(ExprList::Empty)))
        } else {
            Err(self.error_here(ParseErrorKind::Expected(TokenType::RightParen)))
        }
    }

    fn primary(&mut self, fuel: u64) -> (r: Result<Expr, RloxError>)
        requires
            old(self).inv(),
        ensures
            final(self).inv(),
            final(self).tokens@ == old(self).tokens@,
            parsed(r, final(self).current, final(self).next_id, primary(old(self).tokens@, old(self).current as int, old(self).next_id as nat, fuel as nat)),
            fuel > 0 && !starts_primary(kind_at(old(self).tokens@, old(self).current as int)) ==> r is Err
                && r == Err::<Expr, RloxError>(perr(old(self).tokens@, old(self).current as int, ParseErrorKind::ExpectExpression)),
            r is Err && kind_at(old(self).tokens@, old(self).current as int) != TokenType::LeftParen
                ==> final(self).current == old(self).current && final(self).next_id == old(self).next_id,
        decreases fuel, 0nat,
    {
        if fuel == 0 {
            return Err(self.error_here(ParseErrorKind::TooDeep));
        }
        let p = self.current;
        match self.peek_kind() {
            TokenType::False => {
                self.advance();
                Ok(Expr::Boolean(false))
            },
            TokenType::True => {
                self.advance();
                Ok(Expr::Boolean(true))
            },
            TokenType::Nil => {
                self.advance();
                Ok(Expr::Nil)
            },
            TokenType::String => {
                let v = match &self.tokens[p].literal {
                    Some(Literal::Str(s)) => s.clone(),
                    _ => return Err(self.error_here(ParseErrorKind::ExpectExpression)),
                };
                self.advance();
                Ok(Expr::String(v))
            },
            TokenType::Number => {
                let v = match &self.tokens[p].literal {
                    Some(Literal::Number(n)) => *n,
                    _ => return Err(self.error_here(ParseErrorKind::ExpectExpression)),
                };
                self.advance();
                Ok(Expr::Number(v))
            },
            TokenType::Identifier => {
                if self.next_id == usize::MAX {
                    return Err(self.error_here(ParseErrorKind::ReferenceIdsExhausted));
                }
                let id = self.next_id;
                self.next_id = id + 1;
                let name = self.tokens[p].lexeme.clone();
                self.advance();
                Ok(Expr::Variable { id, name })
            },
            TokenType::LeftParen => {
                self.advance();
                let e = match self.expression(fuel - 1) {
                    Ok(e) => e,
                    Err(err) => return Err(err),
                };
                if self.peek_kind() == TokenType::RightParen {
                    self.advance();
                    Ok(Expr::Grouping { expression: Box::new(e) })
                } else {
                    Err(self.error_here(ParseErrorKind::Expected(TokenType::RightParen)))
                }
            },
            _ => Err(self.error_here(ParseErrorKind::ExpectExpression)),
        }
    }

    fn terminated(&mut self, fuel: u64) -> (r: Result<Expr, RloxError>)
        requires
            old(self).inv(),
        ensures
            final(self).inv(),
            final(self).tokens@ == old(self).tokens@,
            parsed(r, final(self).current, final(self).next_id, terminated(old(self).tokens@, old(self).current as int, old(self).next_id as nat, fuel as nat)),
        decreases fuel, 3nat,
    {
        let e = match self.expression(fuel) {
            Ok(e) => e,
            Err(err) => return Err(err),
        };
        match self.expect(TokenType::Semicolon) {
            Ok(()) => Ok(e),
            Err(err) => Err(err),
        }
    }

    fn declaration(&mut self, fuel: u64) -> (r: Result<Stmt, RloxError>)
        requires
            old(self).inv(),
        ensures
            final(self).inv(),
            final(self).tokens@ == old(self).tokens@,
            parsed(r, final(self).current, final(self).next_id, declaration(old(self).tokens@, old(self).current as int, old(self).next_id as nat, fuel as nat)),
        decreases fuel, 4nat,
    {
        if fuel == 0 {
            return Err(self.error_here(ParseErrorKind::TooDeep));
        }
        match self.peek_kind() {
            TokenType::Fun => {
                self.advance();
                self.function(fuel - 1)
            },
            TokenType::Var => {
                self.advance();
                self.var_declaration(fuel - 1)
            },
            _ => self.statement(fuel - 1),
        }
    }

    fn var_declaration(&mut self, fuel: u64) -> (r: Result<Stmt, RloxError>)
        requires
            old(self).inv(),
        ensures
            final(self).inv(),
            final(self).tokens@ == old(self).tokens@,
            parsed(r, final(self).current, final(self).next_id, var_declaration(old(self).tokens@, old(self).current as int, old(self).next_id as nat, fuel as nat)),
        decreases fuel, 4nat,
    {
        if self.peek_kind() != TokenType::Identifier {
            return Err(self.error_here(ParseErrorKind::Expected(TokenType::Identifier)));
        }
        let name = self.tokens[self.current].lexeme.clone();
        self.advance();
        if self.peek_kind() == TokenType::Equal {
            self.advance();
            match self.terminated(fuel) {
                Ok(e) => Ok(Stmt::Var { name, initializer: Some(e) }),
                Err(err) => Err(err),
            }
        } else {
            match self.expect(TokenType::Semicolon) {
                Ok(()) => Ok(Stmt::Var { name, initializer: None }),
                Err(err) => Err(err),
            }
        }
    }

    fn statement(&mut self, fuel: u64) -> (r: Result<Stmt, RloxError>)
        requires
            old(self).inv(),
        ensures
            final(self).inv(),
            final(self).tokens@ == old(self).tokens@,
            parsed(r, final(self).current, final(self).next_id, statement(old(self).tokens@, old(self).current as int, old(self).next_id as nat, fuel as nat)),
        decreases fuel, 4nat,
    {
        if fuel == 0 {
            return Err(self.error_here(ParseErrorKind::TooDeep));
        }
        let f = fuel - 1;
        match self.peek_kind() {
            TokenType::If => {
                self.advance();
                self.if_statement(f)
            },
            TokenType::For => {
                self.advance();
                self.for_statement(f)
            },
            TokenType::While => {
                self.advance();
                match self.expect(TokenType::LeftParen) {
                    Ok(()) => {},
                    Err(err) => return Err(err),
                }
                let c = match self.expression(f) {
                    Ok(e) => e,
                    Err(err) => return Err(err),
                };
                match self.expect(TokenType::RightParen) {
                    Ok(()) => {},
                    Err(err) => return Err(err),
                }
                match self.statement(f) {
                    Ok(b) => Ok(Stmt::While { condition: c, body: Box::new(b) }),
                    Err(err) => Err(err),
                }
            },
            TokenType::Print => {
                self.advance();
                match self.terminated(f) {
                    Ok(e) => Ok(Stmt::Print { expression: e }),
                    Err(err) => Err(err),
                }
            },
            TokenType::Return => {
                self.advance();
                if self.peek_kind() == TokenType::Semicolon {
                    self.advance();
                    Ok(Stmt::Return { value: None })
                } else {
                    match self.terminated(f) {
                        Ok(e) => Ok(Stmt::Return { value: Some(e) }),
                        Err(err) => Err(err),
                    }
                }
            },
            TokenType::LeftBrace => {
                self.advance();
                match self.block(f) {
                    Ok(l) => Ok(Stmt::Block { statements: l }),
                    Err(err) => Err(err),
                }
            },
            _ => match self.terminated(f) {
                Ok(e) => Ok(Stmt::Expression { expression: e }),
                Err(err) => Err(err),
            },
        }
    }

    fn if_statement(&mut self, fuel: u64) -> (r: Result<Stmt, RloxError>)
        requires
            old(self).inv(),
        ensures
            final(self).inv(),
            final(self).tokens@ == old(self).tokens@,
            parsed(r, final(self).current, final(self).next_id, if_statement(old(self).tokens@, old(self).current as int, old(self).next_id as nat, fuel as nat)),
        decreases fuel, 4nat,
    {
        if fuel == 0 {
            return Err(self.error_here(ParseErrorKind::TooDeep));
        }
        let f = fuel - 1;
        match self.expect(TokenType::LeftParen) {
            Ok(()) => {},
            Err(err) => return Err(err),
        }
        let c = match self.expression(f) {
            Ok(e) => e,
            Err(err) => return Err(err),
        };
        match self.expect(TokenType::RightParen) {
            Ok(()) => {},
            Err(err) => return Err(err),
        }
        let t = match self.statement(f) {
            Ok(s) => s,
            Err(err) => return Err(err),
        };
        if self.peek_kind() == TokenType::Else {
            self.advance();
            match self.statement(f) {
                Ok(e) => Ok(Stmt::If { condition: c, then_branch: Box::new(t), else_branch: Some(Box::new(e)) }),
                Err(err) => Err(err),
            }
        } else {
            Ok(Stmt::If { condition: c, then_branch: Box::new(t), else_branch: None })
        }
    }

    fn for_statement(&mut self, fuel: u64) -> (r: Result<Stmt, RloxError>)
        requires
            old(self).inv(),
        ensures
            final(self).inv(),
            final(self).tokens@ == old(self).tokens@,
            parsed(r, final(self).current, final(self).next_id, for_statement(old(self).tokens@, old(self).current as int, old(self).next_id as nat, fuel as nat)),
        decreases fuel, 4nat,
    {
        if fuel == 0 {
            return Err(self.error_here(ParseErrorKind::TooDeep));
        }
        let f = fuel - 1;
        match self.expect(TokenType::LeftParen) {
            Ok(()) => {},
            Err(err) => return Err(err),
        }
        let init: Option<Stmt> = if self.peek_kind() == TokenType::Semicolon {
            self.advance();
            None
        } else if self.peek_kind() == TokenType::Var {
            self.advance();
            match self.var_declaration(f) {
                Ok(s) => Some(s),
                Err(err) => return Err(err),
            }
        } else {
            match self.terminated(f) {
                Ok(e) => Some(Stmt::Expression { expression: e }),
                Err(err) => return Err(err),
            }
        };
        let cond: Option<Expr> = if self.peek_kind() != TokenType::Semicolon {
            match self.expression(f) {
                Ok(c) => Some(c),
                Err(err) => return Err(err),
            }
        } else {
            None
        };
        match self.expect(TokenType::Semicolon) {
            Ok(()) => {},
            Err(err) => return Err(err),
        }
        let inc: Option<Expr> = if self.peek_kind() != TokenType::RightParen {
            match self.expression(f) {
                Ok(i) => Some(i),
                Err(err) => return Err(err),
            }
        } else {
            None
        };
        match self.expect(TokenType::RightParen) {
            Ok(()) => {},
            Err(err) => return Err(err),
        }
        let body = match self.statement(f) {
            Ok(b) => b,
            Err(err) => return Err(err),
        };
        let body1 = match inc {
            Some(i) => Stmt::Block {
                statements: StmtList::Cons(
                    Box::new(body),
                    Box::new(StmtList::Cons(Box::new(Stmt::Expression { expression: i }), Box::new(StmtList::Empty))),
                ),
            },
            None => body,
        };
        let c = match cond {
            Some(c) => c,
            None => Expr::Boolean(true),
        };
        let w = Stmt::While { condition: c, body: Box::new(body1) };
        match init {
            Some(s) => Ok(Stmt::Block {
                statements: StmtList::Cons(Box::new(s), Box::new(StmtList::Cons(Box::new(w), Box::new(StmtList::Empty)))),
            }),
            None => Ok(w),
        }
    }

    fn block(&mut self, fuel: u64) -> (r: Result<StmtList, RloxError>)
        requires
            old(self).inv(),
        ensures
            final(self).inv(),
            final(self).tokens@ == old(self).tokens@,
            parsed(r, final(self).current, final(self).next_id, block(old(self).tokens@, old(self).current as int, old(self).next_id as nat, fuel as nat)),
        decreases fuel, 4nat,
    {
        if fuel == 0 {
            return Err(self.error_here(ParseErrorKind::TooDeep));
        }
        let k = self.peek_kind();
        if k == TokenType::RightBrace {
            self.advance();
            Ok(StmtList::Empty)
        } else if k == TokenType::Eof {
            Err(self.error_here(ParseErrorKind::Expected(TokenType::RightBrace)))
        } else {
            let s = match self.declaration(fuel - 1) {
                Ok(s) => s,
                Err(err) => return Err(err),
            };
            match self.block(fuel - 1) {
                Ok(rest) => Ok(StmtList::Cons(Box::new(s), Box::new(rest))),
                Err(err) => Err(err),
            }
        }
    }

    fn parameters(&mut self, count: usize, fuel: u64) -> (r: Result<NameList, RloxError>)
        requires
            old(self).inv(),
            count <= 255,
        ensures
            final(self).inv(),
            final(self).tokens@ == old(self).tokens@,
            final(self).next_id == old(self).next_id,
            match r {
                Ok(v) => parameters(old(self).tokens@, old(self).current as int, count as nat, fuel as nat)
                    == Ok::<(NameList, int), RloxError>((v, final(self).current as int)),
                Err(e) => parameters(old(self).tokens@, old(self).current as int, count as nat, fuel as nat)
                    == Err::<(NameList, int), RloxError>(e),
            },
        decreases fuel,
    {
        if fuel == 0 {
            return Err(self.error_here(ParseErrorKind::TooDeep));
        }
        if count >= 255 {
            return Err(self.error_here(ParseErrorKind::TooManyParameters));
        }
        if self.peek_kind() != TokenType::Identifier {
            return Err(self.error_here(ParseErrorKind::Expected(TokenType::Identifier)));
        }
        let name = self.tokens[self.current].lexeme.clone();
        self.advance();
        if self.peek_kind() == TokenType::Comma {
            self.advance();
            match self.parameters(count + 1, fuel - 1) {
                Ok(rest) => Ok(NameList::Cons(name, Box::new(rest))),
                Err(err) => Err(err),
            }
        } else if self.peek_kind() == TokenType::RightParen {
            self.advance();
            Ok(NameList::Cons(name, Box::new(NameList::Empty)))
        } else {
            Err(self.error_here(ParseErrorKind::Expected(TokenType::RightParen)))
        }
    }

    fn function(&mut self, fuel: u64) -> (r: Result<Stmt, RloxError>)
        requires
            old(self).inv(),
        ensures
            final(self).inv(),
            final(self).tokens@ == old(self).tokens@,
            parsed(r, final(self).current, final(self).next_id, function(old(self).tokens@, old(self).current as int, old(self).next_id as nat, fuel as nat)),
        decreases fuel, 4nat,
    {
        if fuel == 0 {
            return Err(self.error_here(ParseErrorKind::TooDeep));
        }
        let f = fuel - 1;
        if self.peek_kind() != TokenType::Identifier {
            return Err(self.error_here(ParseErrorKind::Expected(TokenType::Identifier)));
        }
        let name = self.tokens[self.current].lexeme.clone();
        self.advance();
        match self.expect(TokenType::LeftParen) {
            Ok(()) => {},
            Err(err) => return Err(err),
        }
        let names = if self.peek_kind() == TokenType::RightParen {
            self.advance();
            NameList::Empty
        } else {
            match self.parameters(0, f) {
                Ok(n) => n,
                Err(err) => return Err(err),
            }
        };
        match self.expect(TokenType::LeftBrace) {
            Ok(()) => {},
            Err(err) => return Err(err),
        }
        match self.block(f) {
            Ok(body) => Ok(Stmt::Function { name, parameters: names, body }),
            Err(err) => Err(err),
        }
    }

    fn sync_from(&mut self)
        requires
            old(self).inv(),
        ensures
            final(self).inv(),
            final(self).tokens@ == old(self).tokens@,
            final(self).next_id == old(self).next_id,
            final(self).current as int == sync_from(old(self).tokens@, old(self).current as int),
    {
        loop
            invariant
                self.inv(),
                self.tokens@ == old(self).tokens@,
                self.next_id == old(self).next_id,
                sync_from(old(self).tokens@, old(self).current as int) == sync_from(self.tokens@, self.current as int),
            decreases self.tokens.len() - self.current,
        {
            let p = self.current;
            if p < 1 || p + 1 >= self.tokens.len() || self.tokens[p].token_type == TokenType::Eof {
                return;
            }
            let k = self.tokens[p].token_type;
            let starts = match k {
                TokenType::Class | TokenType::Fun | TokenType::Var | TokenType::For | TokenType::If
                | TokenType::While | TokenType::Print | TokenType::Return => true,
                _ => false,
            };
            if self.tokens[p - 1].token_type == TokenType::Semicolon || starts {
                return;
            }
            self.current = p + 1;
        }
    }

    fn program(&mut self, fuel: u64) -> (r: (StmtList, Vec<RloxError>))
        requires
            old(self).inv(),
        ensures
            final(self).inv(),
            final(self).tokens@ == old(self).tokens@,
            program(old(self).tokens@, old(self).current as int, old(self).next_id as nat, fuel as nat)
                == (r.0, r.1@, final(self).next_id as nat),
        decreases fuel,
    {
        if fuel == 0 {
            let mut errs: Vec<RloxError> = Vec::new();
            errs.push(self.error_here(ParseErrorKind::TooDeep));
            assert(errs@ =~= seq![perr(self.tokens@, self.current as int, ParseErrorKind::TooDeep)]);
            return (StmtList::Empty, errs);
        }
        if self.peek_kind() == TokenType::Eof {
            let errs: Vec<RloxError> = Vec::new();
            assert(errs@ =~= Seq::<RloxError>::empty());
            return (StmtList::Empty, errs);
        }
        let start = self.current;
        let saved_id = self.next_id;
        match self.declaration(fuel - 1) {
            Ok(s) => {
                let (rest, errs) = self.program(fuel - 1);
                (StmtList::Cons(Box::new(s), Box::new(rest)), errs)
            },
            Err(e) => {
                let q = match &e {
                    RloxError::ParseError { current, .. } => *current,
                    _ => start,
                };
                if q < self.tokens.len() {
                    self.current = q;
                    self.advance();
                    self.sync_from();
                } else {
                    self.current = self.tokens.len() - 1;
                }
                self.next_id = saved_id;
                let (rest, mut errs) = self.program(fuel - 1);
                let ghost tail = errs@;
                errs.insert(0, e);
                assert(errs@ =~= seq![e] + tail);
                (rest, errs)
            },
        }
    }

    /// Parses the whole token sequence. Every error found is kept in
    /// `errors`; the result is the first one, if any.
    pub fn parse(&mut self) -> (r: Result<StmtList, RloxError>)
        requires
            old(self).inv(),
        ensures
            final(self).inv(),
            final(self).tokens@ == old(self).tokens@,
            ({
                let (l, errs, id) = program(old(self).tokens@, old(self).current as int, old(self).next_id as nat, PARSE_BUDGET as nat);
                &&& final(self).errors@ == errs
                &&& final(self).next_id == id
                &&& match r {
                    Ok(s) => errs.len() == 0 && s == l,
                    Err(e) => errs.len() > 0 && e == errs[0],
                }
            }),
    {
        let (l, errs) = self.program(PARSE_BUDGET);
        if errs.len() == 0 {
            self.errors = errs;
            Ok(l)
        } else {
            let first = copy_error(&errs[0]);
            self.errors = errs;
            Err(first)
        }
    }
}

} // verus!
