use vstd::prelude::*;
use crate::scanner::{copy_token, Token, TokenType};

verus! {

/// What a parse error expected or found wrong.
#[derive(Clone, Copy, Debug, PartialEq, Eq, Structural)]
pub enum ParseErrorKind {
    /// No expression starts at the token.
    ExpectExpression,
    /// The token of this kind was required here.
    Expected(TokenType),
    /// The left side of `=` is not a variable.
    InvalidAssignmentTarget,
    /// A call lists more than 255 arguments.
    TooManyArguments,
    /// A function declares more than 255 parameters.
    TooManyParameters,
    /// The program nests deeper than the parser's budget.
    TooDeep,
    /// No reference id is left for another variable occurrence.
    ReferenceIdsExhausted,
}

/// What the resolver rejected.
#[derive(Clone, Copy, Debug, PartialEq, Eq, Structural)]
pub enum ResolveErrorKind {
    /// A local variable read in its own initializer.
    OwnInitializer,
    /// A `return` outside any function body.
    TopLevelReturn,
}

/// What went wrong while a program ran.
#[derive(Clone, Copy, Debug, PartialEq, Eq, Structural)]
pub enum RuntimeErrorKind {
    /// No binding of the name where it was looked up.
    UndefinedVariable,
    /// A unary operator needs a number.
    OperandMustBeNumber,
    /// A binary operator needs two numbers.
    OperandsMustBeNumbers,
    /// `+` needs two numbers or two strings.
    OperandsMustBeNumbersOrStrings,
    /// An arithmetic result is not an integer in the 64-bit range
    /// (overflow, division by zero, a division with a remainder).
    ArithmeticOutOfRange,
    /// Only functions can be called.
    NotCallable,
    /// The number of arguments differs from the number of parameters.
    ArityMismatch,
    /// A resolved depth leads outside the live scope chain.
    InvalidScope,
    /// The evaluation budget ran out.
    BudgetExhausted,
    /// A `return` reached the top level.
    ReturnOutsideFunction,
}

/// Errors of every stage, as structured values for the caller to report.
#[derive(Debug)]
pub enum RloxError {
    ScanError { character: char, line: usize },
    UnterminatedStringError { line: usize },
    ParseError { current: usize, token: Token, kind: ParseErrorKind },
    ResolveError { kind: ResolveErrorKind, name: Option<String> },
    RuntimeError { kind: RuntimeErrorKind, lexeme: Option<String> },
}

/// A copy of an error.
pub fn copy_error(e: &RloxError) -> (r: RloxError)
    ensures
        r == *e,
{
    match e {
        RloxError::ScanError { character, line } => RloxError::ScanError { character: *character, line: *line },
        RloxError::UnterminatedStringError { line } => RloxError::UnterminatedStringError { line: *line },
        RloxError::ParseError { current, token, kind } => RloxError::ParseError {
            current: *current,
            token: copy_token(token),
            kind: *kind,
        },
        RloxError::ResolveError { kind, name } => RloxError::ResolveError {
            kind: *kind,
            name: match name {
                Some(n) => Some(n.clone()),
                None => None,
            },
        },
        RloxError::RuntimeError { kind, lexeme } => RloxError::RuntimeError {
            kind: *kind,
            lexeme: match lexeme {
                Some(n) => Some(n.clone()),
                None => None,
            },
        },
    }
}

} // verus!
