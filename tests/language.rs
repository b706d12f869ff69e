use rlox::ast_generator::ast_generator;
use rlox::ast_printer::AstPrinter;
use rlox::error::{ParseErrorKind, ResolveErrorKind, RloxError, RuntimeErrorKind};
use rlox::expr::{Stmt, StmtList};
use rlox::interpreter::{Interpreter, Value};
use rlox::parser::Parser;
use rlox::resolver::Resolver;
use rlox::scanner::{Scanner, TokenType};

fn parse_source(source: &str, first_id: usize) -> Result<(StmtList, usize), RloxError> {
    let tokens = Scanner::default().scan_tokens(source.to_string())?;
    let mut parser = Parser::new(tokens, first_id);
    let statements = parser.parse()?;
    Ok((statements, parser.next_id))
}

/// Scans, parses, resolves and runs `source`; the printed lines and the
/// outcome.
fn run(source: &str) -> (Vec<String>, Result<(), RloxError>) {
    let statements = match parse_source(source, 0) {
        Ok((s, _)) => s,
        Err(e) => return (vec![], Err(e)),
    };
    let mut resolver = Resolver::new(Interpreter::new());
    if let Err(e) = resolver.resolve(&statements) {
        return (vec![], Err(e));
    }
    let mut interpreter = resolver.interpreter;
    let result = interpreter.interpret(&statements);
    (interpreter.take_output(), result)
}

fn lines(v: &[&str]) -> Vec<String> {
    v.iter().map(|s| s.to_string()).collect()
}

fn runtime_kind(r: &Result<(), RloxError>) -> Option<RuntimeErrorKind> {
    match r {
        Err(RloxError::RuntimeError { kind, .. }) => Some(*kind),
        _ => None,
    }
}

fn resolve_kind(r: &Result<(), RloxError>) -> Option<ResolveErrorKind> {
    match r {
        Err(RloxError::ResolveError { kind, .. }) => Some(*kind),
        _ => None,
    }
}

fn parse_kind(r: &Result<(), RloxError>) -> Option<ParseErrorKind> {
    match r {
        Err(RloxError::ParseError { kind, .. }) => Some(*kind),
        _ => None,
    }
}

#[test]
fn block_shadowing_prints_inner_then_outer() {
    let (out, r) = run("var a = 1; { var a = 2; print a; } print a;");
    assert!(r.is_ok());
    assert_eq!(out, lines(&["2", "1"]));
}

#[test]
fn make_counter_closures_are_independent() {
    let src = "fun makeCounter() { var count = 0; fun counter() { count = count + 1; return count; } return counter; }
               var a = makeCounter(); var b = makeCounter();
               print a(); print a(); print b(); print a(); print b();";
    let (out, r) = run(src);
    assert!(r.is_ok());
    assert_eq!(out, lines(&["1", "2", "1", "3", "2"]));
}

#[test]
fn grouping_then_multiply() {
    let (out, r) = run("print (1 + 2) * 3;");
    assert!(r.is_ok());
    assert_eq!(out, lines(&["9"]));
    let (out, r) = run("print 1 + 2 * 3;");
    assert!(r.is_ok());
    assert_eq!(out, lines(&["7"]));
}

#[test]
fn call_with_too_few_arguments_is_arity_error() {
    let (out, r) = run("fun add(a, b) { return a + b; } print 0; add(1); print 1;");
    assert_eq!(out, lines(&["0"]));
    assert_eq!(runtime_kind(&r), Some(RuntimeErrorKind::ArityMismatch));
}

#[test]
fn call_of_undeclared_name_is_undefined_variable() {
    let (_, r) = run("missing();");
    match r {
        Err(RloxError::RuntimeError { kind, lexeme }) => {
            assert_eq!(kind, RuntimeErrorKind::UndefinedVariable);
            assert_eq!(lexeme, Some("missing".to_string()));
        }
        _ => panic!("expected an undefined-variable error"),
    }
}

#[test]
fn for_loop_counts_to_three() {
    let (out, r) = run("for (var i = 0; i < 3; i = i + 1) print i;");
    assert!(r.is_ok());
    assert_eq!(out, lines(&["0", "1", "2"]));
}

#[test]
fn for_loop_matches_while_form() {
    let (a, ra) = run("for (var i = 0; i < 3; i = i + 1) print i;");
    let (b, rb) = run("{ var i = 0; while (i < 3) { print i; i = i + 1; } }");
    assert!(ra.is_ok() && rb.is_ok());
    assert_eq!(a, b);
}

#[test]
fn for_loop_without_condition_runs_until_return() {
    let (out, r) = run("fun f() { for (var i = 0; ; i = i + 1) { if (i == 3) return i; } } print f();");
    assert!(r.is_ok());
    assert_eq!(out, lines(&["3"]));
}

#[test]
fn own_initializer_rejected_before_running() {
    let (out, r) = run("print 1; { var a = a; }");
    assert!(out.is_empty());
    assert_eq!(resolve_kind(&r), Some(ResolveErrorKind::OwnInitializer));
    let (out, r) = run("print 1; fun f() { { { var b = b; } } }");
    assert!(out.is_empty());
    assert_eq!(resolve_kind(&r), Some(ResolveErrorKind::OwnInitializer));
}

#[test]
fn top_level_return_rejected_before_running() {
    let (out, r) = run("print 1; return 2;");
    assert!(out.is_empty());
    assert_eq!(resolve_kind(&r), Some(ResolveErrorKind::TopLevelReturn));
    let (out, r) = run("print 1; { return; }");
    assert!(out.is_empty());
    assert_eq!(resolve_kind(&r), Some(ResolveErrorKind::TopLevelReturn));
}

#[test]
fn inner_declaration_leaves_outer_binding() {
    let (out, r) = run("var x = \"outer\"; { var x = \"inner\"; x = \"changed\"; print x; } print x;");
    assert!(r.is_ok());
    assert_eq!(out, lines(&["changed", "outer"]));
}

#[test]
fn closure_sees_later_mutation() {
    let src = "fun outer() { var x = 1; fun get() { return x; } x = 2; return get; } print outer()();";
    let (out, r) = run(src);
    assert!(r.is_ok());
    assert_eq!(out, lines(&["2"]));
}

#[test]
fn closures_share_their_defining_frame() {
    let src = "var inc; var get;
               fun make() { var n = 10; fun i() { n = n + 1; } fun g() { return n; } inc = i; get = g; }
               make(); inc(); inc(); print get();";
    let (out, r) = run(src);
    assert!(r.is_ok());
    assert_eq!(out, lines(&["12"]));
}

#[test]
fn truthiness_of_zero_empty_and_nil() {
    let (out, r) = run("if (0) print \"zero\"; if (\"\") print \"empty\"; if (nil) print \"nil\"; else print \"falsy\"; if (false) print 1; else print 2;");
    assert!(r.is_ok());
    assert_eq!(out, lines(&["zero", "empty", "falsy", "2"]));
}

#[test]
fn logical_operators_yield_operands() {
    let (out, r) = run("print nil or \"x\"; print 1 and 2; print false and 1; print 1 or boom;");
    assert!(r.is_ok());
    assert_eq!(out, lines(&["x", "2", "false", "1"]));
}

#[test]
fn equality_without_coercion() {
    let (out, r) = run("print 1 == \"1\"; print nil == nil; print \"a\" == \"a\"; print true != false; print nil == false;");
    assert!(r.is_ok());
    assert_eq!(out, lines(&["false", "true", "true", "true", "false"]));
}

#[test]
fn operand_type_errors() {
    assert_eq!(runtime_kind(&run("print 1 + \"a\";").1), Some(RuntimeErrorKind::OperandsMustBeNumbersOrStrings));
    assert_eq!(runtime_kind(&run("print -\"a\";").1), Some(RuntimeErrorKind::OperandMustBeNumber));
    assert_eq!(runtime_kind(&run("print 1 < \"a\";").1), Some(RuntimeErrorKind::OperandsMustBeNumbers));
    assert_eq!(runtime_kind(&run("var x = 1; x();").1), Some(RuntimeErrorKind::NotCallable));
}

#[test]
fn arithmetic_results() {
    let (out, r) = run("print \"ab\" + \"cd\"; print -5 - 7; print 6 / 3; print !nil; print 10 - 2 - 3; print 2 + 3 * 4;");
    assert!(r.is_ok());
    assert_eq!(out, lines(&["abcd", "-12", "2", "true", "5", "14"]));
}

#[test]
fn arithmetic_out_of_range() {
    assert_eq!(runtime_kind(&run("print 9223372036854775807 + 1;").1), Some(RuntimeErrorKind::ArithmeticOutOfRange));
    assert_eq!(runtime_kind(&run("print 7 / 2;").1), Some(RuntimeErrorKind::ArithmeticOutOfRange));
    assert_eq!(runtime_kind(&run("print 1 / 0;").1), Some(RuntimeErrorKind::ArithmeticOutOfRange));
}

#[test]
fn recursion_computes_fibonacci() {
    let (out, r) = run("fun fib(n) { if (n < 2) return n; return fib(n - 1) + fib(n - 2); } print fib(15);");
    assert!(r.is_ok());
    assert_eq!(out, lines(&["610"]));
}

#[test]
fn functions_print_as_placeholders() {
    let (out, r) = run("fun f() {} print f; print clock; print f();");
    assert!(r.is_ok());
    assert_eq!(out, lines(&["<fn>", "<native fn>", "nil"]));
}

#[test]
fn clock_is_a_number_and_takes_no_arguments() {
    let (out, r) = run("print clock() > 0;");
    assert!(r.is_ok());
    assert_eq!(out, lines(&["true"]));
    assert_eq!(runtime_kind(&run("clock(1);").1), Some(RuntimeErrorKind::ArityMismatch));
}

#[test]
fn parse_errors() {
    assert_eq!(parse_kind(&run("print 1").1), Some(ParseErrorKind::Expected(TokenType::Semicolon)));
    assert_eq!(parse_kind(&run("1 = 2;").1), Some(ParseErrorKind::InvalidAssignmentTarget));
    assert_eq!(parse_kind(&run("print ;").1), Some(ParseErrorKind::ExpectExpression));
    assert_eq!(parse_kind(&run("{ print 1;").1), Some(ParseErrorKind::Expected(TokenType::RightBrace)));
}

#[test]
fn parser_collects_errors_after_synchronizing() {
    let tokens = Scanner::default().scan_tokens("print ; var = 1; print 2;".to_string()).ok().unwrap();
    let mut parser = Parser::new(tokens, 0);
    assert!(parser.parse().is_err());
    assert_eq!(parser.errors.len(), 2);
}

#[test]
fn too_many_arguments_is_a_parse_error() {
    let args: Vec<String> = (0..256).map(|i| i.to_string()).collect();
    let src = format!("f({});", args.join(", "));
    assert_eq!(parse_kind(&run(&src).1), Some(ParseErrorKind::TooManyArguments));
    let args: Vec<String> = (0..255).map(|i| i.to_string()).collect();
    let src = format!("fun f() {{}} f({});", args.join(", "));
    assert_eq!(runtime_kind(&run(&src).1), Some(RuntimeErrorKind::ArityMismatch));
}

#[test]
fn scan_errors() {
    assert!(matches!(run("@").1, Err(RloxError::ScanError { character: '@', .. })));
    assert!(matches!(run("\"abc").1, Err(RloxError::UnterminatedStringError { .. })));
    assert!(matches!(run("print 1.5;").1, Err(RloxError::ScanError { character: '.', .. })));
}

#[test]
fn scanner_ends_with_eof_and_skips_comments() {
    let tokens = Scanner::default().scan_tokens("var x = 10; // note\nprint x;".to_string()).ok().unwrap();
    let kinds: Vec<TokenType> = tokens.iter().map(|t| t.token_type).collect();
    assert_eq!(
        kinds,
        vec![
            TokenType::Var, TokenType::Identifier, TokenType::Equal, TokenType::Number, TokenType::Semicolon,
            TokenType::Print, TokenType::Identifier, TokenType::Semicolon, TokenType::Eof
        ]
    );
    assert_eq!(tokens[1].lexeme, "x");
    assert_eq!(tokens[5].line, 2);
}

#[test]
fn resolver_records_scope_distance() {
    let (statements, _) = parse_source("{ var a = 1; { { print a; } } }", 0).ok().unwrap();
    let mut resolver = Resolver::new(Interpreter::new());
    assert!(resolver.resolve(&statements).is_ok());
    assert_eq!(resolver.interpreter.locals.get(&0), Some(&2));
}

#[test]
fn global_references_get_no_depth() {
    let (statements, _) = parse_source("var a = 1; print a; { print a; }", 0).ok().unwrap();
    let mut resolver = Resolver::new(Interpreter::new());
    assert!(resolver.resolve(&statements).is_ok());
    assert!(resolver.interpreter.locals.is_empty());
}

#[test]
fn session_keeps_definitions_between_runs() {
    let mut interpreter = Interpreter::new();
    let (first, next) = parse_source("fun twice(x) { return x * 2; } var y = 4;", 0).ok().unwrap();
    let mut resolver = Resolver::new(interpreter);
    assert!(resolver.resolve(&first).is_ok());
    interpreter = resolver.interpreter;
    assert!(interpreter.interpret(&first).is_ok());
    let (second, _) = parse_source("print twice(y);", next).ok().unwrap();
    let mut resolver = Resolver::new(interpreter);
    assert!(resolver.resolve(&second).is_ok());
    interpreter = resolver.interpreter;
    assert!(interpreter.interpret(&second).is_ok());
    assert_eq!(interpreter.take_output(), lines(&["8"]));
}

#[test]
fn ast_printer_parenthesizes() {
    let (statements, _) = parse_source("-1 * (2 + x) == !true or f(1, 2);", 0).ok().unwrap();
    let expr = match statements {
        StmtList::Cons(s, _) => match *s {
            Stmt::Expression { expression } => expression,
            _ => panic!("expected an expression statement"),
        },
        StmtList::Empty => panic!("no statement"),
    };
    assert_eq!(
        AstPrinter {}.print(&expr),
        "(or (== (* (- 1) (grouping (+ 2 x))) (! true)) (call f 1 2))"
    );
}

#[test]
fn stringify_numbers_and_text() {
    assert_eq!(Interpreter::stringify(&Value::Number(-9223372036854775808)), "-9223372036854775808");
    assert_eq!(Interpreter::stringify(&Value::Number(1234)), "1234");
    assert_eq!(Interpreter::stringify(&Value::Str("hi".to_string())), "hi");
    assert_eq!(Interpreter::stringify(&Value::Bool(false)), "false");
    assert_eq!(Interpreter::stringify(&Value::Nil), "nil");
}

#[test]
fn ast_generator_writes_both_modules() {
    let files = ast_generator("out").unwrap();
    assert_eq!(files.len(), 2);
    assert_eq!(files[0].0, "out/expr.rs");
    assert_eq!(files[1].0, "out/stmt.rs");
    assert!(files[0].1.starts_with("use crate::scanner::*;\n\n\n#[derive(Debug, PartialEq)]\npub enum Expr {\n\tNumber(f64),\n"));
    assert!(files[0].1.contains("\tBinary{\n\t left: Box<Expr>,\n\t operator: Token,\n\t right: Box<Expr>,\n\t},\n\n"));
    assert!(files[1].1.starts_with("use crate::expr::*;\nuse std::rc::Rc;\n"));
    assert!(files[1].1.contains("\tIf{\n\t condition: Expr,\n\t then_branch: Box<Stmt>,\n\t else_branch: Option<Box<Stmt>>,\n\t},\n\n"));
    assert!(files[1].1.ends_with("}\n\n"));
}

#[test]
fn empty_program_does_nothing() {
    let (out, r) = run("");
    assert!(r.is_ok());
    assert!(out.is_empty());
    let (out, r) = run("// only a comment");
    assert!(r.is_ok());
    assert!(out.is_empty());
}

#[test]
fn parameter_count_limit() {
    let params: Vec<String> = (0..255).map(|i| format!("p{}", i)).collect();
    let src = format!("fun f({}) {{ return p254; }} print 1;", params.join(", "));
    let (out, r) = run(&src);
    assert!(r.is_ok());
    assert_eq!(out, lines(&["1"]));
    let params: Vec<String> = (0..256).map(|i| format!("p{}", i)).collect();
    let src = format!("fun f({}) {{}}", params.join(", "));
    assert_eq!(parse_kind(&run(&src).1), Some(ParseErrorKind::TooManyParameters));
}

#[test]
fn strings_may_span_lines() {
    let tokens = Scanner::default().scan_tokens("print \"a\nb\";\nprint 1;".to_string()).ok().unwrap();
    assert_eq!(tokens[1].token_type, TokenType::String);
    assert_eq!(tokens[1].lexeme, "\"a\nb\"");
    assert_eq!(tokens[1].line, 2);
    assert_eq!(tokens[3].line, 3);
    let (out, r) = run("print \"a\nb\";");
    assert!(r.is_ok());
    assert_eq!(out, lines(&["a\nb"]));
    assert!(matches!(run("\n\"open").1, Err(RloxError::UnterminatedStringError { line: 2 })));
}

#[test]
fn assignment_to_undeclared_global_fails() {
    assert_eq!(runtime_kind(&run("y = 1;").1), Some(RuntimeErrorKind::UndefinedVariable));
    let (out, r) = run("var y; print y; y = 3; print y;");
    assert!(r.is_ok());
    assert_eq!(out, lines(&["nil", "3"]));
}

#[test]
fn reused_resolver_starts_fresh() {
    let (first, next) = parse_source("fun f() { { var a = a; } }", 0).ok().unwrap();
    let mut resolver = Resolver::new(Interpreter::new());
    assert!(matches!(resolver.resolve(&first), Err(RloxError::ResolveError { kind: ResolveErrorKind::OwnInitializer, .. })));
    let (second, _) = parse_source("return 1;", next).ok().unwrap();
    assert!(matches!(resolver.resolve(&second), Err(RloxError::ResolveError { kind: ResolveErrorKind::TopLevelReturn, .. })));
    assert!(resolver.interpreter.locals.is_empty());
}
