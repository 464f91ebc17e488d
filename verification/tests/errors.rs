//! Rendering and accessor tests for the error taxonomy.

use rhai::error::{LexError, ParseErrorType};
use rhai::fn_basic::{get_fn_name, FnPtr};
use rhai::position::Position;

#[test]
fn eof_position_always_renders_no_more_input_clause() {
    let e = ParseErrorType::UnexpectedEOF.into_err_eof();
    assert_eq!(
        e.message(),
        "Script is incomplete at the end of the script but there is no more input"
    );
    let e2 = ParseErrorType::MissingRightParen("expression".to_string()).into_err_eof();
    assert_eq!(
        e2.message(),
        "Expecting ')' for expression at the end of the script but there is no more input"
    );
}

#[test]
fn none_position_renders_no_suffix() {
    let e = ParseErrorType::VariableExpected.into_err(Position::none());
    assert_eq!(e.message(), "Expecting name of a variable");
}

#[test]
fn concrete_position_renders_exact_line_and_column() {
    let e = ParseErrorType::VariableExpected.into_err(Position::new(3, 17));
    assert_eq!(e.message(), "Expecting name of a variable (3:17)");
    let e2 = ParseErrorType::MissingLeftBrace.into_err(Position::new(120, 1));
    assert_eq!(e2.message(), "Expecting '{' (120:1)");
}

#[test]
fn empty_context_renders_bare_description() {
    let cases = [
        (
            ParseErrorType::AssignmentToConstant(String::new()),
            "Cannot assign to a constant variable.",
        ),
        (
            ParseErrorType::MalformedCallExpr(String::new()),
            "Invalid expression in function call arguments",
        ),
        (
            ParseErrorType::MalformedIndexExpr(String::new()),
            "Invalid index in indexing expression",
        ),
        (ParseErrorType::UnknownOperator(String::new()), "Unknown operator"),
        (ParseErrorType::MissingRightParen(String::new()), "Expecting ')'"),
        (ParseErrorType::MissingRightBrace(String::new()), "Expecting '}'"),
        (ParseErrorType::MissingRightBracket(String::new()), "Expecting ']'"),
        (ParseErrorType::MissingComma(String::new()), "Expecting ','"),
        (ParseErrorType::MissingSemicolon(String::new()), "Expecting ';'"),
        (ParseErrorType::ForbiddenConstantExpr(String::new()), "Expecting a constant"),
        (ParseErrorType::ExprExpected(String::new()), "Expecting an expression"),
        (
            ParseErrorType::FnMissingParams(String::new()),
            "Expecting parameters in function declaration",
        ),
        (
            ParseErrorType::FnDuplicateParam(String::new(), String::new()),
            "Duplicated parameters in function declaration",
        ),
        (
            ParseErrorType::FnMissingBody(String::new()),
            "Expecting body statement block for function declaration",
        ),
    ];
    for (kind, want) in cases {
        let e = kind.into_err(Position::none());
        assert_eq!(e.desc(), want, "bare description");
        assert_eq!(e.message(), want, "empty context interpolates nothing");
    }
}

#[test]
fn nonempty_context_appears_verbatim() {
    let e = ParseErrorType::AssignmentToConstant("my_var".to_string()).into_err(Position::none());
    assert_eq!(e.message(), "Cannot assign to constant 'my_var'");
    let f = ParseErrorType::FnDuplicateParam("f".to_string(), "a".to_string())
        .into_err(Position::none());
    assert_eq!(f.message(), "Duplicated parameter 'a' for function 'f'");
    let p = ParseErrorType::FnMissingParams("runner".to_string()).into_err(Position::none());
    assert_eq!(p.message(), "Expecting parameters for function 'runner'");
    let x = ParseErrorType::ExprExpected("a value".to_string()).into_err(Position::none());
    assert_eq!(x.message(), "Expecting a value expression");
    let u = ParseErrorType::UnknownOperator("^".to_string()).into_err(Position::none());
    assert_eq!(u.message(), "Unknown operator: '^'");
    let k = ParseErrorType::ForbiddenConstantExpr("x".to_string()).into_err(Position::none());
    assert_eq!(k.message(), "Expecting a constant to assign to 'x'");
    let b = ParseErrorType::MissingRightBrace("block".to_string()).into_err(Position::none());
    assert_eq!(b.message(), "Expecting '}' for block");
    let r = ParseErrorType::MissingRightBracket("index expression".to_string())
        .into_err(Position::none());
    assert_eq!(r.message(), "Expecting ']' for index expression");
    let m = ParseErrorType::MissingComma("args".to_string()).into_err(Position::none());
    assert_eq!(m.message(), "Expecting ',' for args");
    let sc = ParseErrorType::MissingSemicolon("statement".to_string()).into_err(Position::none());
    assert_eq!(sc.message(), "Expecting ';' for statement");
    let fb = ParseErrorType::FnMissingBody("runner".to_string()).into_err(Position::none());
    assert_eq!(fb.message(), "Expecting body statement block for function 'runner'");
    let mc = ParseErrorType::MalformedCallExpr("broken argument".to_string())
        .into_err(Position::none());
    assert_eq!(mc.message(), "broken argument");
}

#[test]
fn error_type_and_position_accessors() {
    let e = ParseErrorType::LoopBreak.into_err(Position::new(2, 9));
    assert_eq!(
        *e.error_type(),
        ParseErrorType::LoopBreak,
        "accessor must return the original kind"
    );
    assert_eq!(e.position(), Position::new(2, 9));
    let z = ParseErrorType::UnexpectedEOF.into_err_eof();
    assert!(z.position().is_eof());
    assert!(!z.position().is_none());
    assert!(!Position::new(1, 1).is_eof());
    assert!(Position::none().is_none());
}

#[test]
fn lex_error_messages() {
    assert_eq!(LexError::UnexpectedChar('$').message(), "Unexpected '$'");
    assert_eq!(
        LexError::MalformedNumber("1.2.3".to_string()).message(),
        "Invalid number: '1.2.3'"
    );
    assert_eq!(
        LexError::MalformedEscapeSequence("q".to_string()).message(),
        "Invalid escape sequence: 'q'"
    );
    assert_eq!(
        LexError::MalformedChar("ab".to_string()).message(),
        "Invalid character: 'ab'"
    );
    assert_eq!(
        LexError::MalformedIdentifier("___".to_string()).message(),
        "Variable name is not in a legal format: '___'"
    );
    assert_eq!(
        LexError::UnterminatedString.message(),
        "Open string is not terminated"
    );
}

#[test]
fn bad_input_carries_its_own_message() {
    let e = ParseErrorType::BadInput("Unexpected '$'".to_string()).into_err(Position::new(1, 5));
    assert_eq!(e.message(), "Unexpected '$' (1:5)");
    assert_eq!(e.desc(), "Unexpected '$'");
}

#[test]
fn fn_ptr_name_round_trip() {
    let mut f = FnPtr::new("calc".to_string());
    assert_eq!(get_fn_name(&mut f), "calc");
    assert_eq!(f.get_fn_name(), "calc");
}
