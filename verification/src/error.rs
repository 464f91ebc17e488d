//! The error taxonomy of the parsing pipeline: lexical errors, parse error
//! kinds, and the unified carrier pairing a kind with a position.
//!
//! Every kind owns a short description, and the full message interpolates the
//! contextual payload (when one is present and non-empty) and then appends a
//! position suffix with a three-way branch: a concrete position renders as
//! ` (line:col)`, the no-position sentinel adds nothing, and the end-of-input
//! sentinel adds a trailing clause saying the input ended too early.

use vstd::prelude::*;
use vstd::string::StringExecFns;

use crate::position::Position;
use crate::render::{dec_digits, u32_to_string};

verus! {

/// Error when tokenizing the script text.
#[derive(Debug, Eq, PartialEq, Hash, Clone)]
pub enum LexError {
    /// An unexpected character was encountered when tokenizing the script text.
    UnexpectedChar(char),
    /// A string literal is not terminated before a new-line or the end of input.
    UnterminatedString,
    /// A string/character escape sequence is in an invalid format.
    MalformedEscapeSequence(String),
    /// A numeric literal is in an invalid format.
    MalformedNumber(String),
    /// A character literal is in an invalid format.
    MalformedChar(String),
    /// An identifier is in an invalid format.
    MalformedIdentifier(String),
}

impl LexError {
    /// The rendered diagnostic text for this lexical error.
    pub open spec fn spec_message(self) -> Seq<char> {
        match self {
            LexError::UnexpectedChar(c) => "Unexpected '"@ + seq![c] + "'"@,
            LexError::MalformedEscapeSequence(s) => "Invalid escape sequence: '"@ + s@ + "'"@,
            LexError::MalformedNumber(s) => "Invalid number: '"@ + s@ + "'"@,
            LexError::MalformedChar(s) => "Invalid character: '"@ + s@ + "'"@,
            LexError::MalformedIdentifier(s) => "Variable name is not in a legal format: '"@
                + s@ + "'"@,
            LexError::UnterminatedString => "Open string is not terminated"@,
        }
    }

    /// Render this lexical error as human-readable text.
    pub fn message(&self) -> (r: String)
        ensures
            r@ == self.spec_message(),
    {
        match self {
            LexError::UnexpectedChar(c) => {
                let mut m = String::from_str("Unexpected '");
                crate::render::push_char(&mut m, *c);
                m.append("'");
                m
            },
            LexError::MalformedEscapeSequence(s) => {
                let mut m = String::from_str("Invalid escape sequence: '");
                m.append(s.as_str());
                m.append("'");
                proof {
                    assert(m@ =~= self.spec_message());
                }
                m
            },
            LexError::MalformedNumber(s) => {
                let mut m = String::from_str("Invalid number: '");
                m.append(s.as_str());
                m.append("'");
                proof {
                    assert(m@ =~= self.spec_message());
                }
                m
            },
            LexError::MalformedChar(s) => {
                let mut m = String::from_str("Invalid character: '");
                m.append(s.as_str());
                m.append("'");
                proof {
                    assert(m@ =~= self.spec_message());
                }
                m
            },
            LexError::MalformedIdentifier(s) => {
                let mut m = String::from_str("Variable name is not in a legal format: '");
                m.append(s.as_str());
                m.append("'");
                proof {
                    assert(m@ =~= self.spec_message());
                }
                m
            },
            LexError::UnterminatedString => String::from_str("Open string is not terminated"),
        }
    }
}

/// Type of error encountered when parsing a script.
#[derive(Debug, PartialEq, Clone)]
pub enum ParseErrorType {
    /// Error in the script text. Wrapped value is the error message.
    BadInput(String),
    /// The script ends prematurely.
    UnexpectedEOF,
    /// An unknown operator is encountered. Wrapped value is the operator.
    UnknownOperator(String),
    /// An open `(` is missing the corresponding closing `)`.
    MissingRightParen(String),
    /// Expecting `{` but not finding one.
    MissingLeftBrace,
    /// An open `{` is missing the corresponding closing `}`.
    MissingRightBrace(String),
    /// An open `[` is missing the corresponding closing `]`.
    MissingRightBracket(String),
    /// A list of expressions is missing the separating `,`.
    MissingComma(String),
    /// A statement is missing the ending `;`.
    MissingSemicolon(String),
    /// An expression in function call arguments `()` has a syntax error.
    MalformedCallExpr(String),
    /// An expression in indexing brackets `[]` has a syntax error.
    MalformedIndexExpr(String),
    /// Invalid expression assigned to constant.
    ForbiddenConstantExpr(String),
    /// Missing a variable name after the `let`, `const` or `for` keywords.
    VariableExpected,
    /// Missing an expression.
    ExprExpected(String),
    /// A `for` statement is missing the `in` keyword.
    MissingIn,
    /// Defining a function `fn` in an inappropriate place, such as inside
    /// another function or a block.
    WrongFnDefinition,
    /// Missing a function name after the `fn` keyword.
    FnMissingName,
    /// A function definition is missing the parameters list. Wrapped value is
    /// the function name.
    FnMissingParams(String),
    /// A function definition has duplicated parameters. Wrapped values are the
    /// function name and the parameter name.
    FnDuplicateParam(String, String),
    /// A function definition is missing the body. Wrapped value is the
    /// function name.
    FnMissingBody(String),
    /// Assignment to an inappropriate left-hand-side expression.
    AssignmentToInvalidLHS,
    /// Assignment to a copy of a value.
    AssignmentToCopy,
    /// Assignment to a constant variable.
    AssignmentToConstant(String),
    /// Break statement not inside a loop.
    LoopBreak,
}

impl ParseErrorType {
    /// Make a `ParseError` using the current type and position.
    pub fn into_err(self, pos: Position) -> (r: ParseError)
        ensures
            r.0 == self,
            r.1 == pos,
    {
        ParseError(self, pos)
    }

    /// Make a `ParseError` using the current type and the end-of-input position.
    pub fn into_err_eof(self) -> (r: ParseError)
        ensures
            r.0 == self,
            r.1 == Position::Eof,
    {
        ParseError(self, Position::eof())
    }

    /// The short description of this kind, independent of any context payload.
    pub open spec fn spec_desc(self) -> Seq<char> {
        match self {
            ParseErrorType::BadInput(p) => p@,
            ParseErrorType::UnexpectedEOF => "Script is incomplete"@,
            ParseErrorType::UnknownOperator(_) => "Unknown operator"@,
            ParseErrorType::MissingRightParen(_) => "Expecting ')'"@,
            ParseErrorType::MissingLeftBrace => "Expecting '{'"@,
            ParseErrorType::MissingRightBrace(_) => "Expecting '}'"@,
            ParseErrorType::MissingRightBracket(_) => "Expecting ']'"@,
            ParseErrorType::MissingComma(_) => "Expecting ','"@,
            ParseErrorType::MissingSemicolon(_) => "Expecting ';'"@,
            ParseErrorType::MalformedCallExpr(_) => "Invalid expression in function call arguments"@,
            ParseErrorType::MalformedIndexExpr(_) => "Invalid index in indexing expression"@,
            ParseErrorType::ForbiddenConstantExpr(_) => "Expecting a constant"@,
            ParseErrorType::MissingIn => "Expecting 'in'"@,
            ParseErrorType::VariableExpected => "Expecting name of a variable"@,
            ParseErrorType::ExprExpected(_) => "Expecting an expression"@,
            ParseErrorType::FnMissingName => "Expecting name in function declaration"@,
            ParseErrorType::FnMissingParams(_) => "Expecting parameters in function declaration"@,
            ParseErrorType::FnDuplicateParam(_, _) => "Duplicated parameters in function declaration"@,
            ParseErrorType::FnMissingBody(_) => "Expecting body statement block for function declaration"@,
            ParseErrorType::WrongFnDefinition => "Function definitions must be at global level and cannot be inside a block or another function"@,
            ParseErrorType::AssignmentToInvalidLHS => "Cannot assign to this expression"@,
            ParseErrorType::AssignmentToCopy => "Cannot assign to this expression because it will only be changing a copy of the value"@,
            ParseErrorType::AssignmentToConstant(_) => "Cannot assign to a constant variable."@,
            ParseErrorType::LoopBreak => "Break statement should only be used inside a loop"@,
        }
    }

    /// The message body for this kind: the description, with the context
    /// payload interpolated when the kind carries one. An empty payload is
    /// never interpolated: the body is then exactly the bare description.
    pub open spec fn spec_base(self) -> Seq<char> {
        match self {
            ParseErrorType::BadInput(s) => s@,
            ParseErrorType::MalformedCallExpr(s) => if s@.len() == 0 {
                self.spec_desc()
            } else {
                s@
            },
            ParseErrorType::MalformedIndexExpr(s) => if s@.len() == 0 {
                self.spec_desc()
            } else {
                s@
            },
            ParseErrorType::ForbiddenConstantExpr(s) => if s@.len() == 0 {
                self.spec_desc()
            } else {
                "Expecting a constant to assign to '"@ + s@ + "'"@
            },
            ParseErrorType::UnknownOperator(s) => if s@.len() == 0 {
                self.spec_desc()
            } else {
                "Unknown operator"@ + ": '"@ + s@ + "'"@
            },
            ParseErrorType::ExprExpected(s) => if s@.len() == 0 {
                self.spec_desc()
            } else {
                "Expecting "@ + s@ + " expression"@
            },
            ParseErrorType::FnMissingParams(s) => if s@.len() == 0 {
                self.spec_desc()
            } else {
                "Expecting parameters for function '"@ + s@ + "'"@
            },
            ParseErrorType::FnMissingBody(s) => if s@.len() == 0 {
                self.spec_desc()
            } else {
                "Expecting body statement block for function '"@ + s@ + "'"@
            },
            ParseErrorType::FnDuplicateParam(s, arg) => if s@.len() == 0 && arg@.len() == 0 {
                self.spec_desc()
            } else {
                "Duplicated parameter '"@ + arg@ + "' for function '"@ + s@ + "'"@
            },
            ParseErrorType::MissingRightParen(s) => if s@.len() == 0 {
                self.spec_desc()
            } else {
                self.spec_desc() + " for "@ + s@
            },
            ParseErrorType::MissingRightBrace(s) => if s@.len() == 0 {
                self.spec_desc()
            } else {
                self.spec_desc() + " for "@ + s@
            },
            ParseErrorType::MissingRightBracket(s) => if s@.len() == 0 {
                self.spec_desc()
            } else {
                self.spec_desc() + " for "@ + s@
            },
            ParseErrorType::MissingSemicolon(s) => if s@.len() == 0 {
                self.spec_desc()
            } else {
                self.spec_desc() + " for "@ + s@
            },
            ParseErrorType::MissingComma(s) => if s@.len() == 0 {
                self.spec_desc()
            } else {
                self.spec_desc() + " for "@ + s@
            },
            ParseErrorType::AssignmentToConstant(s) => if s@.len() == 0 {
                self.spec_desc()
            } else {
                "Cannot assign to constant '"@ + s@ + "'"@
            },
            _ => self.spec_desc(),
        }
    }
}

/// Error when parsing a script: a kind paired with the position at which it
/// was raised. Immutable once constructed.
#[derive(Debug, PartialEq, Clone)]
pub struct ParseError(pub ParseErrorType, pub Position);

impl ParseError {
    /// Get the kind of parse error.
    pub fn error_type(&self) -> (r: &ParseErrorType)
        ensures
            *r == self.0,
    {
        &self.0
    }

    /// Get the location in the script of the error.
    pub fn position(&self) -> (r: Position)
        ensures
            r == self.1,
    {
        self.1
    }

    /// The short description of the error kind, without interpolated context.
    pub fn desc<'a>(&'a self) -> (r: &'a str)
        ensures
            r@ == self.0.spec_desc(),
    {
        match &self.0 {
            ParseErrorType::BadInput(p) => p.as_str(),
            ParseErrorType::UnexpectedEOF => "Script is incomplete",
            ParseErrorType::UnknownOperator(_) => "Unknown operator",
            ParseErrorType::MissingRightParen(_) => "Expecting ')'",
            ParseErrorType::MissingLeftBrace => "Expecting '{'",
            ParseErrorType::MissingRightBrace(_) => "Expecting '}'",
            ParseErrorType::MissingRightBracket(_) => "Expecting ']'",
            ParseErrorType::MissingComma(_) => "Expecting ','",
            ParseErrorType::MissingSemicolon(_) => "Expecting ';'",
            ParseErrorType::MalformedCallExpr(_) => "Invalid expression in function call arguments",
            ParseErrorType::MalformedIndexExpr(_) => "Invalid index in indexing expression",
            ParseErrorType::ForbiddenConstantExpr(_) => "Expecting a constant",
            ParseErrorType::MissingIn => "Expecting 'in'",
            ParseErrorType::VariableExpected => "Expecting name of a variable",
            ParseErrorType::ExprExpected(_) => "Expecting an expression",
            ParseErrorType::FnMissingName => "Expecting name in function declaration",
            ParseErrorType::FnMissingParams(_) => "Expecting parameters in function declaration",
            ParseErrorType::FnDuplicateParam(_, _) => "Duplicated parameters in function declaration",
            ParseErrorType::FnMissingBody(_) => "Expecting body statement block for function declaration",
            ParseErrorType::WrongFnDefinition => "Function definitions must be at global level and cannot be inside a block or another function",
            ParseErrorType::AssignmentToInvalidLHS => "Cannot assign to this expression",
            ParseErrorType::AssignmentToCopy => "Cannot assign to this expression because it will only be changing a copy of the value",
            ParseErrorType::AssignmentToConstant(_) => "Cannot assign to a constant variable.",
            ParseErrorType::LoopBreak => "Break statement should only be used inside a loop",
        }
    }

    /// The full rendered message: the message body, then the position suffix.
    /// A concrete position appends ` (line:col)`; the no-position sentinel
    /// appends nothing; the end-of-input sentinel appends a clause saying the
    /// input ended before the script was complete.
    pub open spec fn spec_message(self) -> Seq<char> {
        match self.1 {
            Position::At { line, col } => self.0.spec_base() + " ("@ + dec_digits(line as nat)
                + ":"@ + dec_digits(col as nat) + ")"@,
            Position::Eof => self.0.spec_base()
                + " at the end of the script but there is no more input"@,
            Position::NoPos => self.0.spec_base(),
        }
    }

    /// Render the message body, without the position suffix.
    fn base_message(&self) -> (r: String)
        ensures
            r@ == self.0.spec_base(),
    {
        let r = match &self.0 {
            ParseErrorType::BadInput(s) => s.clone(),
            ParseErrorType::MalformedCallExpr(s) => {
                if s.as_str().is_empty() {
                    String::from_str("Invalid expression in function call arguments")
                } else {
                    s.clone()
                }
            },
            ParseErrorType::MalformedIndexExpr(s) => {
                if s.as_str().is_empty() {
                    String::from_str("Invalid index in indexing expression")
                } else {
                    s.clone()
                }
            },
            ParseErrorType::ForbiddenConstantExpr(s) => {
                if s.as_str().is_empty() {
                    String::from_str("Expecting a constant")
                } else {
                    let mut m = String::from_str("Expecting a constant to assign to '");
                    m.append(s.as_str());
                    m.append("'");
                    m
                }
            },
            ParseErrorType::UnknownOperator(s) => {
                if s.as_str().is_empty() {
                    String::from_str("Unknown operator")
                } else {
                    let mut m = String::from_str("Unknown operator");
                    m.append(": '");
                    m.append(s.as_str());
                    m.append("'");
                    m
                }
            },
            ParseErrorType::ExprExpected(s) => {
                if s.as_str().is_empty() {
                    String::from_str("Expecting an expression")
                } else {
                    let mut m = String::from_str("Expecting ");
                    m.append(s.as_str());
                    m.append(" expression");
                    m
                }
            },
            ParseErrorType::FnMissingParams(s) => {
                if s.as_str().is_empty() {
                    String::from_str("Expecting parameters in function declaration")
                } else {
                    let mut m = String::from_str("Expecting parameters for function '");
                    m.append(s.as_str());
                    m.append("'");
                    m
                }
            },
            ParseErrorType::FnMissingBody(s) => {
                if s.as_str().is_empty() {
                    String::from_str("Expecting body statement block for function declaration")
                } else {
                    let mut m = String::from_str("Expecting body statement block for function '");
                    m.append(s.as_str());
                    m.append("'");
                    m
                }
            },
            ParseErrorType::FnDuplicateParam(s, arg) => {
                if s.as_str().is_empty() && arg.as_str().is_empty() {
                    String::from_str("Duplicated parameters in function declaration")
                } else {
                    let mut m = String::from_str("Duplicated parameter '");
                    m.append(arg.as_str());
                    m.append("' for function '");
                    m.append(s.as_str());
                    m.append("'");
                    m
                }
            },
            ParseErrorType::MissingRightParen(s) => {
                if s.as_str().is_empty() {
                    String::from_str("Expecting ')'")
                } else {
                    let mut m = String::from_str("Expecting ')'");
                    m.append(" for ");
                    m.append(s.as_str());
                    m
                }
            },
            ParseErrorType::MissingRightBrace(s) => {
                if s.as_str().is_empty() {
                    String::from_str("Expecting '}'")
                } else {
                    let mut m = String::from_str("Expecting '}'");
                    m.append(" for ");
                    m.append(s.as_str());
                    m
                }
            },
            ParseErrorType::MissingRightBracket(s) => {
                if s.as_str().is_empty() {
                    String::from_str("Expecting ']'")
                } else {
                    let mut m = String::from_str("Expecting ']'");
                    m.append(" for ");
                    m.append(s.as_str());
                    m
                }
            },
            ParseErrorType::MissingSemicolon(s) => {
                if s.as_str().is_empty() {
                    String::from_str("Expecting ';'")
                } else {
                    let mut m = String::from_str("Expecting ';'");
                    m.append(" for ");
                    m.append(s.as_str());
                    m
                }
            },
            ParseErrorType::MissingComma(s) => {
                if s.as_str().is_empty() {
                    String::from_str("Expecting ','")
                } else {
                    let mut m = String::from_str("Expecting ','");
                    m.append(" for ");
                    m.append(s.as_str());
                    m
                }
            },
            ParseErrorType::AssignmentToConstant(s) => {
                if s.as_str().is_empty() {
                    String::from_str("Cannot assign to a constant variable.")
                } else {
                    let mut m = String::from_str("Cannot assign to constant '");
                    m.append(s.as_str());
                    m.append("'");
                    m
                }
            },
            _ => String::from_str(self.desc()),
        };
        proof {
            assert(r@ =~= self.0.spec_base());
        }
        r
    }

    /// Render the full human-readable message for this error.
    pub fn message(&self) -> (r: String)
        ensures
            r@ == self.spec_message(),
    {
        let mut m = self.base_message();
        match self.1 {
            Position::At { line, col } => {
                m.append(" (");
                let ln = u32_to_string(line);
                m.append(ln.as_str());
                m.append(":");
                let cl = u32_to_string(col);
                m.append(cl.as_str());
                m.append(")");
            },
            Position::Eof => {
                m.append(" at the end of the script but there is no more input");
            },
            Position::NoPos => {},
        }
        proof {
            assert(m@ =~= self.spec_message());
        }
        m
    }
}

/// Rendering law for the position suffix: a message rendered with the
/// end-of-input sentinel always ends with the "no more input" clause, one
/// rendered with the no-position sentinel carries no suffix at all, and one
/// rendered with a concrete position carries exactly that line and column.
pub proof fn lemma_position_rendering(e: ParseError)
    ensures
        e.1 is Eof ==> e.spec_message() == e.0.spec_base()
            + " at the end of the script but there is no more input"@,
        e.1 is NoPos ==> e.spec_message() == e.0.spec_base(),
        e.1 matches (Position::At { line, col }) ==> e.spec_message() == e.0.spec_base() + " ("@
            + dec_digits(line as nat) + ":"@ + dec_digits(col as nat) + ")"@,
{
}

/// Interpolation law for empty context payloads: whatever the variant, when
/// every context string it carries is empty, the message body is exactly the
/// bare description, with nothing interpolated.
pub proof fn lemma_empty_context_rendering(s: String, t: String)
    requires
        s@.len() == 0,
        t@.len() == 0,
    ensures
        ParseErrorType::BadInput(s).spec_base() == ParseErrorType::BadInput(s).spec_desc(),
        ParseErrorType::UnknownOperator(s).spec_base() == ParseErrorType::UnknownOperator(
            s,
        ).spec_desc(),
        ParseErrorType::MissingRightParen(s).spec_base() == ParseErrorType::MissingRightParen(
            s,
        ).spec_desc(),
        ParseErrorType::MissingRightBrace(s).spec_base() == ParseErrorType::MissingRightBrace(
            s,
        ).spec_desc(),
        ParseErrorType::MissingRightBracket(s).spec_base() == ParseErrorType::MissingRightBracket(
            s,
        ).spec_desc(),
        ParseErrorType::MissingComma(s).spec_base() == ParseErrorType::MissingComma(
            s,
        ).spec_desc(),
        ParseErrorType::MissingSemicolon(s).spec_base() == ParseErrorType::MissingSemicolon(
            s,
        ).spec_desc(),
        ParseErrorType::MalformedCallExpr(s).spec_base() == ParseErrorType::MalformedCallExpr(
            s,
        ).spec_desc(),
        ParseErrorType::MalformedIndexExpr(s).spec_base() == ParseErrorType::MalformedIndexExpr(
            s,
        ).spec_desc(),
        ParseErrorType::ForbiddenConstantExpr(s).spec_base()
            == ParseErrorType::ForbiddenConstantExpr(s).spec_desc(),
        ParseErrorType::ExprExpected(s).spec_base() == ParseErrorType::ExprExpected(
            s,
        ).spec_desc(),
        ParseErrorType::FnMissingParams(s).spec_base() == ParseErrorType::FnMissingParams(
            s,
        ).spec_desc(),
        ParseErrorType::FnDuplicateParam(s, t).spec_base() == ParseErrorType::FnDuplicateParam(
            s,
            t,
        ).spec_desc(),
        ParseErrorType::FnMissingBody(s).spec_base() == ParseErrorType::FnMissingBody(
            s,
        ).spec_desc(),
        ParseErrorType::AssignmentToConstant(s).spec_base()
            == ParseErrorType::AssignmentToConstant(s).spec_desc(),
{
}

/// Interpolation law for non-empty context payloads: the carried name appears
/// verbatim in the message body, in the place its variant's template fixes.
pub proof fn lemma_context_name_rendering(s: String, t: String)
    requires
        s@.len() > 0,
        t@.len() > 0,
    ensures
        ParseErrorType::AssignmentToConstant(s).spec_base() == "Cannot assign to constant '"@
            + s@ + "'"@,
        ParseErrorType::UnknownOperator(s).spec_base() == "Unknown operator"@ + ": '"@ + s@
            + "'"@,
        ParseErrorType::ForbiddenConstantExpr(s).spec_base()
            == "Expecting a constant to assign to '"@ + s@ + "'"@,
        ParseErrorType::ExprExpected(s).spec_base() == "Expecting "@ + s@ + " expression"@,
        ParseErrorType::FnMissingParams(s).spec_base() == "Expecting parameters for function '"@
            + s@ + "'"@,
        ParseErrorType::FnMissingBody(s).spec_base()
            == "Expecting body statement block for function '"@ + s@ + "'"@,
        ParseErrorType::FnDuplicateParam(s, t).spec_base() == "Duplicated parameter '"@ + t@
            + "' for function '"@ + s@ + "'"@,
        ParseErrorType::MissingRightParen(s).spec_base() == ParseErrorType::MissingRightParen(
            s,
        ).spec_desc() + " for "@ + s@,
        ParseErrorType::MissingRightBrace(s).spec_base() == ParseErrorType::MissingRightBrace(
            s,
        ).spec_desc() + " for "@ + s@,
        ParseErrorType::MissingRightBracket(s).spec_base() == ParseErrorType::MissingRightBracket(
            s,
        ).spec_desc() + " for "@ + s@,
        ParseErrorType::MissingComma(s).spec_base() == ParseErrorType::MissingComma(
            s,
        ).spec_desc() + " for "@ + s@,
        ParseErrorType::MissingSemicolon(s).spec_base() == ParseErrorType::MissingSemicolon(
            s,
        ).spec_desc() + " for "@ + s@,
        ParseErrorType::MalformedCallExpr(s).spec_base() == s@,
        ParseErrorType::MalformedIndexExpr(s).spec_base() == s@,
        ParseErrorType::BadInput(s).spec_base() == s@,
{
}

} // verus!
