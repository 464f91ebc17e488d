//! The structured program representation produced by the parser, and the
//! structural legality rules the parser enforces: `break` only inside loops,
//! assignable left-hand sides, function parameters free of duplicates, and
//! function definitions only at the top level (which the shape of `Program`
//! makes impossible to violate).

use vstd::prelude::*;

verus! {

/// A unary operator.
#[derive(Debug, Clone, Copy, PartialEq, Eq, Structural)]
pub enum UnaryOp {
    Negate,
    Not,
}

/// A binary operator with a registered precedence.
#[derive(Debug, Clone, Copy, PartialEq, Eq, Structural)]
pub enum BinaryOp {
    Add,
    Subtract,
    Multiply,
    Divide,
    Modulo,
    Equals,
    NotEquals,
    LessThan,
    LessThanEqual,
    GreaterThan,
    GreaterThanEqual,
    And,
    Or,
}

/// An expression.
#[derive(Debug, PartialEq)]
pub enum Expr {
    /// A numeric literal, carried as its validated lexeme.
    NumberLiteral(String),
    StringLiteral(String),
    CharLiteral(char),
    BoolLiteral(bool),
    /// A variable reference.
    Variable(String),
    /// An array literal.
    Array(Vec<Expr>),
    Unary(UnaryOp, Box<Expr>),
    Binary(BinaryOp, Box<Expr>, Box<Expr>),
    /// A call of a named function.
    Call(String, Vec<Expr>),
    /// An indexing expression `base[index]`.
    Index(Box<Expr>, Box<Expr>),
}

/// A statement.
#[derive(Debug, PartialEq)]
pub enum Stmt {
    /// `let name;` or `let name = expr;`
    Let(String, Option<Expr>),
    /// `const name = expr;`
    Const(String, Expr),
    /// `lhs = rhs;`
    Assign(Expr, Expr),
    /// An expression evaluated for its value or effect.
    ExprStmt(Expr),
    /// `if cond { .. }` with an optional `else` block.
    If(Expr, Vec<Stmt>, Option<Vec<Stmt>>),
    While(Expr, Vec<Stmt>),
    Loop(Vec<Stmt>),
    /// `for name in expr { .. }`
    For(String, Expr, Vec<Stmt>),
    Break,
    Return(Option<Expr>),
    /// `import "path";`
    Import(String),
}

/// A function definition. Definitions live only at the top level of a
/// `Program`, never inside statements, so they cannot nest.
#[derive(Debug, PartialEq)]
pub struct FnDef {
    pub name: String,
    pub params: Vec<String>,
    pub body: Vec<Stmt>,
}

/// A parsed program: top-level statements plus top-level function definitions.
#[derive(Debug, PartialEq)]
pub struct Program {
    pub statements: Vec<Stmt>,
    pub functions: Vec<FnDef>,
}

/// An expression shape that denotes an assignable storage location: a plain
/// variable, or an index into a plain variable.
pub open spec fn is_lvalue(e: Expr) -> bool {
    match e {
        Expr::Variable(_) => true,
        Expr::Index(base, _) => *base matches Expr::Variable(_),
        _ => false,
    }
}

/// Structural legality of one statement. `in_loop` says whether the
/// statement sits lexically inside a loop body.
pub open spec fn stmt_wf(s: Stmt, in_loop: bool) -> bool
    decreases s,
{
    match s {
        Stmt::Break => in_loop,
        Stmt::Assign(lhs, _) => is_lvalue(lhs),
        Stmt::If(_, body, tail) => {
            &&& (forall|k: int| 0 <= k < body@.len() ==> stmt_wf(#[trigger] body@[k], in_loop))
            &&& (tail matches Some(e) ==> forall|k: int|
                0 <= k < e@.len() ==> stmt_wf(#[trigger] e@[k], in_loop))
        },
        Stmt::While(_, body) => forall|k: int|
            0 <= k < body@.len() ==> stmt_wf(#[trigger] body@[k], true),
        Stmt::Loop(body) => forall|k: int|
            0 <= k < body@.len() ==> stmt_wf(#[trigger] body@[k], true),
        Stmt::For(_, _, body) => forall|k: int|
            0 <= k < body@.len() ==> stmt_wf(#[trigger] body@[k], true),
        _ => true,
    }
}

/// No two parameters carry the same name.
pub open spec fn params_distinct(s: Seq<String>) -> bool {
    forall|a: int, b: int| 0 <= a < b < s.len() ==> s[a]@ != s[b]@
}

/// Structural legality of a function definition: distinct parameter names,
/// and a body legal outside of any loop.
pub open spec fn fn_wf(f: FnDef) -> bool {
    &&& params_distinct(f.params@)
    &&& (forall|k: int| 0 <= k < f.body@.len() ==> stmt_wf(#[trigger] f.body@[k], false))
}

/// Structural legality of a whole program, as the parser guarantees it.
pub open spec fn program_wf(p: Program) -> bool {
    &&& (forall|k: int| 0 <= k < p.statements@.len() ==> stmt_wf(
        #[trigger] p.statements@[k],
        false,
    ))
    &&& (forall|k: int| 0 <= k < p.functions@.len() ==> fn_wf(#[trigger] p.functions@[k]))
}

/// A compile-time-constant-shaped expression, the only initializer a `const`
/// declaration accepts: a literal, or a negated numeric literal.
pub open spec fn is_constant_expr(e: Expr) -> bool {
    match e {
        Expr::NumberLiteral(_) => true,
        Expr::StringLiteral(_) => true,
        Expr::CharLiteral(_) => true,
        Expr::BoolLiteral(_) => true,
        Expr::Unary(op, inner) => op == UnaryOp::Negate && *inner matches Expr::NumberLiteral(_),
        _ => false,
    }
}

} // verus!
