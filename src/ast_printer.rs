use vstd::prelude::*;
use crate::expr::{Expr, ExprList};
use crate::interpreter::{number_text, number_to_string};
use crate::scanner::TokenType;

verus! {

/// Prints expressions in a fully parenthesized prefix form, such as
/// `(* (grouping (+ 1 2)) 3)`.
#[derive(Debug)]
pub struct AstPrinter {}

/// The source spelling of an operator.
pub open spec fn operator_text(op: TokenType) -> Seq<char> {
    match op {
        TokenType::Minus => "-"@,
        TokenType::Plus => "+"@,
        TokenType::Slash => "/"@,
        TokenType::Star => "*"@,
        TokenType::Bang => "!"@,
        TokenType::BangEqual => "!="@,
        TokenType::EqualEqual => "=="@,
        TokenType::Greater => ">"@,
        TokenType::GreaterEqual => ">="@,
        TokenType::Less => "<"@,
        TokenType::LessEqual => "<="@,
        TokenType::And => "and"@,
        TokenType::Or => "or"@,
        _ => "?"@,
    }
}

/// The printed form of an expression.
pub open spec fn printed(e: Expr) -> Seq<char>
    decreases e,
{
    match e {
        Expr::Nil => "nil"@,
        Expr::Number(n) => number_text(n as int),
        Expr::String(s) => s@,
        Expr::Boolean(b) => if b { "true"@ } else { "false"@ },
        Expr::Binary { left, operator, right } => "("@ + operator_text(operator) + " "@ + printed(*left) + " "@ + printed(*right) + ")"@,
        Expr::Logical { left, operator, right } => "("@ + operator_text(operator) + " "@ + printed(*left) + " "@ + printed(*right) + ")"@,
        Expr::Unary { operator, right } => "("@ + operator_text(operator) + " "@ + printed(*right) + ")"@,
        Expr::Grouping { expression } => "(grouping "@ + printed(*expression) + ")"@,
        Expr::Variable { name, .. } => name@,
        Expr::Assign { name, value, .. } => "(= "@ + name@ + " "@ + printed(*value) + ")"@,
        Expr::Call { callee, arguments } => "(call "@ + printed(*callee) + printed_args(arguments) + ")"@,
    }
}

/// Each argument preceded by a space.
pub open spec fn printed_args(l: ExprList) -> Seq<char>
    decreases l,
{
    match l {
        ExprList::Empty => Seq::empty(),
        ExprList::Cons(h, t) => " "@ + printed(*h) + printed_args(*t),
    }
}

fn operator_str(op: TokenType) -> (r: &'static str)
    ensures
        r@ == operator_text(op),
{
    match op {
        TokenType::Minus => "-",
        TokenType::Plus => "+",
        TokenType::Slash => "/",
        TokenType::Star => "*",
        TokenType::Bang => "!",
        TokenType::BangEqual => "!=",
        TokenType::EqualEqual => "==",
        TokenType::Greater => ">",
        TokenType::GreaterEqual => ">=",
        TokenType::Less => "<",
        TokenType::LessEqual => "<=",
        TokenType::And => "and",
        TokenType::Or => "or",
        _ => "?",
    }
}

impl AstPrinter {
    /// The printed form of `expr`.
    pub fn print(&self, expr: &Expr) -> (r: String)
        ensures
            r@ == printed(*expr),
    {
        let mut out = String::new();
        AstPrinter::write_expr(&mut out, expr);
        assert(out@ =~= printed(*expr));
        out
    }

    fn write_expr(out: &mut String, e: &Expr)
        ensures
            final(out)@ == old(out)@ + printed(*e),
        decreases e, 1nat,
    {
        let ghost start = out@;
        match e {
            Expr::Nil => out.append("nil"),
            Expr::Number(n) => out.append(number_to_string(*n).as_str()),
            Expr::String(s) => out.append(s.as_str()),
            Expr::Boolean(b) => if *b {
                out.append("true")
            } else {
                out.append("false")
            },
            Expr::Binary { .. } | Expr::Logical { .. } => {
                AstPrinter::write_pair(out, e);
            },
            Expr::Unary { operator, right } => {
                out.append("(");
                out.append(operator_str(*operator));
                out.append(" ");
                AstPrinter::write_expr(out, right);
                out.append(")");
                assert(out@ =~= start + printed(*e));
            },
            Expr::Grouping { expression } => {
                out.append("(grouping ");
                AstPrinter::write_expr(out, expression);
                out.append(")");
                assert(out@ =~= start + printed(*e));
            },
            Expr::Variable { name, .. } => out.append(name.as_str()),
            Expr::Assign { name, value, .. } => {
                out.append("(= ");
                out.append(name.as_str());
                out.append(" ");
                AstPrinter::write_expr(out, value);
                out.append(")");
                assert(out@ =~= start + printed(*e));
            },
            Expr::Call { callee, arguments } => {
                out.append("(call ");
                AstPrinter::write_expr(out, callee);
                AstPrinter::write_args(out, arguments);
                out.append(")");
                assert(out@ =~= start + printed(*e));
            },
        }
    }

    fn write_pair(out: &mut String, e: &Expr)
        requires
            e is Binary || e is Logical,
        ensures
            final(out)@ == old(out)@ + printed(*e),
        decreases e, 0nat,
    {
        let ghost start = out@;
        let (left, operator, right) = match e {
            Expr::Binary { left, operator, right } => (left, operator, right),
            Expr::Logical { left, operator, right } => (left, operator, right),
            _ => {
                return;
            },
        };
        out.append("(");
        out.append(operator_str(*operator));
        out.append(" ");
        AstPrinter::write_expr(out, left);
        out.append(" ");
        AstPrinter::write_expr(out, right);
        out.append(")");
        assert(out@ =~= start + printed(*e));
    }

    fn write_args(out: &mut String, l: &ExprList)
        ensures
            final(out)@ == old(out)@ + printed_args(*l),
        decreases l, 0nat,
    {
        let ghost start = out@;
        match l {
            ExprList::Empty => {},
            ExprList::Cons(h, t) => {
                out.append(" ");
                AstPrinter::write_expr(out, h);
                AstPrinter::write_args(out, t);
            },
        }
        assert(out@ =~= start + printed_args(*l));
    }
}

} // verus!
