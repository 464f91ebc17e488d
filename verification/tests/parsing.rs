//! Parser tests: the grammar scenarios and one input for each parse error
//! kind.

use rhai::ast::{Expr, Program, Stmt};
use rhai::error::{ParseError, ParseErrorType};
use rhai::parser::compile_str;

fn compile(s: &str) -> Result<Program, ParseError> {
    compile_str(s)
}

fn error_of(s: &str) -> ParseError {
    match compile(s) {
        Err(e) => e,
        Ok(_) => panic!("{s:?} should not parse"),
    }
}

#[test]
fn let_and_modulo_expression_parses() {
    let p = compile("let x = 10.0; x % 4.0").unwrap();
    assert_eq!(p.statements.len(), 2);
    let lets = p
        .statements
        .iter()
        .filter(|s| matches!(s, Stmt::Let(_, _)))
        .count();
    assert_eq!(lets, 1, "exactly one let-bound variable");
    assert!(matches!(
        &p.statements[0],
        Stmt::Let(n, Some(Expr::NumberLiteral(v))) if n == "x" && v == "10.0"
    ));
    assert!(matches!(&p.statements[1], Stmt::ExprStmt(Expr::Binary(_, _, _))));
}

#[test]
fn for_without_variable_is_variable_expected() {
    let e = error_of("for in [1,2,3] { }");
    assert_eq!(*e.error_type(), ParseErrorType::VariableExpected);
}

#[test]
fn duplicate_fn_parameter() {
    let e = error_of("fn f(a, a) { a }");
    assert_eq!(
        *e.error_type(),
        ParseErrorType::FnDuplicateParam("f".to_string(), "a".to_string())
    );
}

#[test]
fn assignment_to_declared_constant() {
    let e = error_of("const x = 100; x = 5;");
    assert_eq!(
        *e.error_type(),
        ParseErrorType::AssignmentToConstant("x".to_string())
    );
}

#[test]
fn unclosed_parenthesis() {
    let e = error_of("(1 + 2");
    match e.error_type() {
        ParseErrorType::MissingRightParen(ctx) => assert_eq!(ctx, "expression"),
        other => panic!("expected missing right paren, got {other:?}"),
    }
    assert!(e.position().is_eof());
}

#[test]
fn lex_error_is_wrapped_as_bad_input() {
    let e = error_of("let $");
    match e.error_type() {
        ParseErrorType::BadInput(msg) => assert_eq!(msg, "Unexpected '$'"),
        other => panic!("expected bad input, got {other:?}"),
    }
    assert_eq!(e.position(), rhai::position::Position::new(1, 5));
}

#[test]
fn premature_end_of_input() {
    let e = error_of("let x = ");
    assert_eq!(*e.error_type(), ParseErrorType::UnexpectedEOF);
    assert!(e.position().is_eof());
}

#[test]
fn unknown_operator() {
    let e = error_of("1 ^ 2;");
    assert_eq!(
        *e.error_type(),
        ParseErrorType::UnknownOperator("^".to_string())
    );
}

#[test]
fn missing_left_brace() {
    let e = error_of("if true 1;");
    assert_eq!(*e.error_type(), ParseErrorType::MissingLeftBrace);
}

#[test]
fn missing_right_brace() {
    let e = error_of("if true { 1;");
    assert_eq!(
        *e.error_type(),
        ParseErrorType::MissingRightBrace("block".to_string())
    );
}

#[test]
fn missing_right_bracket() {
    let e = error_of("let a = [1, 2");
    assert_eq!(
        *e.error_type(),
        ParseErrorType::MissingRightBracket("array literal".to_string())
    );
    let e2 = error_of("a[1");
    assert_eq!(
        *e2.error_type(),
        ParseErrorType::MissingRightBracket("index expression".to_string())
    );
}

#[test]
fn missing_comma_in_lists() {
    let e = error_of("f(1 2);");
    assert_eq!(
        *e.error_type(),
        ParseErrorType::MissingComma("f".to_string())
    );
    let e2 = error_of("let a = [1 2];");
    assert_eq!(
        *e2.error_type(),
        ParseErrorType::MissingComma("array literal".to_string())
    );
}

#[test]
fn missing_semicolon_between_statements() {
    let e = error_of("let x = 1 let y = 2;");
    assert_eq!(
        *e.error_type(),
        ParseErrorType::MissingSemicolon("statement".to_string())
    );
}

#[test]
fn malformed_call_and_index_expressions() {
    let e = error_of("f(;);");
    assert_eq!(
        *e.error_type(),
        ParseErrorType::MalformedCallExpr("f".to_string())
    );
    let e2 = error_of("a[;];");
    assert_eq!(
        *e2.error_type(),
        ParseErrorType::MalformedIndexExpr(String::new())
    );
}

#[test]
fn forbidden_constant_expression() {
    let e = error_of("const x = 1 + 2;");
    assert_eq!(
        *e.error_type(),
        ParseErrorType::ForbiddenConstantExpr("x".to_string())
    );
    let e2 = error_of("const y;");
    assert_eq!(
        *e2.error_type(),
        ParseErrorType::ForbiddenConstantExpr("y".to_string())
    );
    assert!(compile("const z = -1.5;").is_ok());
}

#[test]
fn expression_expected() {
    let e = error_of("1 + ;");
    assert_eq!(
        *e.error_type(),
        ParseErrorType::ExprExpected("a value".to_string())
    );
}

#[test]
fn for_missing_in_keyword() {
    let e = error_of("for x [1] { }");
    assert_eq!(*e.error_type(), ParseErrorType::MissingIn);
}

#[test]
fn nested_fn_definition_is_rejected() {
    let e = error_of("fn f() { fn g() { } }");
    assert_eq!(*e.error_type(), ParseErrorType::WrongFnDefinition);
    let e2 = error_of("if true { fn g() { } }");
    assert_eq!(*e2.error_type(), ParseErrorType::WrongFnDefinition);
}

#[test]
fn fn_declaration_errors() {
    let e = error_of("fn () { }");
    assert_eq!(*e.error_type(), ParseErrorType::FnMissingName);
    let e2 = error_of("fn f { }");
    assert_eq!(
        *e2.error_type(),
        ParseErrorType::FnMissingParams("f".to_string())
    );
    let e3 = error_of("fn f()");
    assert_eq!(
        *e3.error_type(),
        ParseErrorType::FnMissingBody("f".to_string())
    );
}

#[test]
fn assignment_target_validation() {
    let e = error_of("1 = 2;");
    assert_eq!(*e.error_type(), ParseErrorType::AssignmentToInvalidLHS);
    let e2 = error_of("f()[0] = 5;");
    assert_eq!(*e2.error_type(), ParseErrorType::AssignmentToCopy);
    assert!(compile("let a = [1]; a[0] = 5;").is_ok());
    assert!(compile("let x = 1; x = 2;").is_ok());
}

#[test]
fn shadowing_lifts_constness() {
    assert!(compile("const x = 1; let x = 2; x = 3;").is_ok());
    let e = error_of("let x = 1; const x = 2; x = 3;");
    assert_eq!(
        *e.error_type(),
        ParseErrorType::AssignmentToConstant("x".to_string())
    );
}

#[test]
fn break_only_inside_loops() {
    let e = error_of("break;");
    assert_eq!(*e.error_type(), ParseErrorType::LoopBreak);
    let e2 = error_of("fn f() { break; }");
    assert_eq!(*e2.error_type(), ParseErrorType::LoopBreak);
    assert!(compile("loop { break; }").is_ok());
    assert!(compile("while true { if true { break; } }").is_ok());
}

#[test]
fn block_scope_ends_at_closing_brace() {
    // The inner `const` goes out of scope with its block, so the later
    // assignment targets the outer `let` binding.
    assert!(compile("let x = 1; if true { const x = 2; } x = 3;").is_ok());
}

#[test]
fn full_constructs_parse() {
    let p = compile(
        "import \"util\";\n\
         fn mean(a, b) { return (a + b) / 2; }\n\
         let total = 0;\n\
         for v in [1, 2, 3] { total = total + v; }\n\
         while total > 0 { total = total - 1; }\n\
         if total == 0 { total = 42; } else if total < 0 { total = 1; } else { total = 2; }",
    )
    .unwrap();
    assert_eq!(p.functions.len(), 1);
    assert_eq!(p.functions[0].name, "mean");
    assert_eq!(p.functions[0].params, vec!["a".to_string(), "b".to_string()]);
    assert!(matches!(&p.statements[0], Stmt::Import(path) if path == "util"));
}

#[test]
fn precedence_and_unary() {
    let p = compile("1 + 2 * 3").unwrap();
    match &p.statements[0] {
        Stmt::ExprStmt(Expr::Binary(op, l, r)) => {
            assert_eq!(format!("{op:?}"), "Add");
            assert!(matches!(&**l, Expr::NumberLiteral(v) if v == "1"));
            assert!(matches!(&**r, Expr::Binary(_, _, _)));
        }
        other => panic!("unexpected shape {other:?}"),
    }
    let q = compile("let a = -x + !b;").unwrap();
    assert!(matches!(&q.statements[0], Stmt::Let(_, Some(Expr::Binary(_, _, _)))));
}
