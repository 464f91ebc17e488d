//! The parser: recursive descent with precedence climbing over the token
//! stream. The first error aborts the parse of the whole unit. Every program
//! it produces is structurally legal (`program_wf`): `break` only inside a
//! loop body, assignments only to lvalue shapes, and function definitions
//! only at the top level with distinct parameter names.

use vstd::prelude::*;
use vstd::string::StrSliceExecFns;
use vstd::string::StringExecFns;

use crate::ast::{
    fn_wf, is_constant_expr, is_lvalue, params_distinct, program_wf, stmt_wf, BinaryOp, Expr,
    FnDef, Program, Stmt, UnaryOp,
};
use crate::error::{ParseError, ParseErrorType};
use crate::position::Position;
use crate::render::str_eq;
use crate::token::Token;

verus! {

/// Whether the innermost binding of `name` in the scope is a constant.
/// Bindings later in the sequence shadow earlier ones.
pub open spec fn const_in_scope(s: Seq<(String, bool)>, name: Seq<char>) -> bool
    decreases s.len(),
{
    if s.len() == 0 {
        false
    } else if s.last().0@ == name {
        s.last().1
    } else {
        const_in_scope(s.drop_last(), name)
    }
}

fn is_const_in_scope(scope: &Vec<(String, bool)>, name: &str) -> (r: bool)
    ensures
        r == const_in_scope(scope@, name@),
{
    proof {
        assert(scope@.subrange(0, scope@.len() as int) =~= scope@);
    }
    let mut k = scope.len();
    while k > 0
        invariant
            k <= scope@.len(),
            const_in_scope(scope@, name@) == const_in_scope(scope@.subrange(0, k as int), name@),
        decreases k,
    {
        k -= 1;
        proof {
            assert(scope@.subrange(0, k as int + 1).last() == scope@[k as int]);
            assert(scope@.subrange(0, k as int + 1).drop_last() =~= scope@.subrange(0, k as int));
        }
        let entry = &scope[k];
        if str_eq(entry.0.as_str(), name) {
            return entry.1;
        }
    }
    false
}

/// Validate an assignment target against the scope: `None` means the target
/// is assignable; otherwise the exact error the target deserves.
pub fn check_assign_target(scope: &Vec<(String, bool)>, lhs: &Expr) -> (r: Option<
    ParseErrorType,
>)
    ensures
        match r {
            None => is_lvalue(*lhs) && (*lhs matches Expr::Variable(n) ==> !const_in_scope(
                scope@,
                n@,
            )),
            Some(t) => match t {
                ParseErrorType::AssignmentToConstant(n) => *lhs matches Expr::Variable(m) && m == n
                    && const_in_scope(scope@, n@),
                ParseErrorType::AssignmentToCopy => *lhs matches Expr::Index(b, _) && !(*b matches
                    Expr::Variable(_)),
                ParseErrorType::AssignmentToInvalidLHS => !is_lvalue(*lhs) && !(*lhs matches
                    Expr::Index(_, _)),
                _ => false,
            },
        },
{
    match lhs {
        Expr::Variable(n) => {
            if is_const_in_scope(scope, n.as_str()) {
                Some(ParseErrorType::AssignmentToConstant(n.clone()))
            } else {
                None
            }
        },
        Expr::Index(b, _) => {
            if matches!(&**b, Expr::Variable(_)) {
                None
            } else {
                Some(ParseErrorType::AssignmentToCopy)
            }
        },
        _ => Some(ParseErrorType::AssignmentToInvalidLHS),
    }
}

fn contains_str(v: &Vec<String>, s: &str) -> (r: bool)
    ensures
        r == exists|k: int| 0 <= k < v@.len() && (#[trigger] v@[k])@ == s@,
{
    let mut k: usize = 0;
    while k < v.len()
        invariant
            k <= v@.len(),
            forall|t: int| 0 <= t < k ==> (#[trigger] v@[t])@ != s@,
        decreases v@.len() - k,
    {
        if str_eq(v[k].as_str(), s) {
            return true;
        }
        k += 1;
    }
    false
}

fn is_constant_expr_exec(e: &Expr) -> (r: bool)
    ensures
        r == is_constant_expr(*e),
{
    match e {
        Expr::NumberLiteral(_) => true,
        Expr::StringLiteral(_) => true,
        Expr::CharLiteral(_) => true,
        Expr::BoolLiteral(_) => true,
        Expr::Unary(op, inner) => matches!(op, UnaryOp::Negate) && matches!(
            &**inner,
            Expr::NumberLiteral(_),
        ),
        _ => false,
    }
}

/// The position of token `j`, or the end-of-input position past the stream.
fn pos_at(toks: &Vec<(Token, Position)>, j: usize) -> (p: Position)
    ensures
        p == if j < toks@.len() {
            toks@[j as int].1
        } else {
            Position::Eof
        },
{
    if j < toks.len() {
        let tp = &toks[j];
        tp.1
    } else {
        Position::eof()
    }
}

/// The registered precedence table: a known binary operator and its binding
/// power, or nothing for a token that is no binary operator.
pub open spec fn spec_binary_op(t: Token) -> Option<(BinaryOp, u32)> {
    match t {
        Token::OrOr => Some((BinaryOp::Or, 1)),
        Token::AndAnd => Some((BinaryOp::And, 2)),
        Token::EqualsTo => Some((BinaryOp::Equals, 3)),
        Token::NotEqualsTo => Some((BinaryOp::NotEquals, 3)),
        Token::LessThan => Some((BinaryOp::LessThan, 4)),
        Token::LessThanEqual => Some((BinaryOp::LessThanEqual, 4)),
        Token::GreaterThan => Some((BinaryOp::GreaterThan, 4)),
        Token::GreaterThanEqual => Some((BinaryOp::GreaterThanEqual, 4)),
        Token::Plus => Some((BinaryOp::Add, 5)),
        Token::Minus => Some((BinaryOp::Subtract, 5)),
        Token::Star => Some((BinaryOp::Multiply, 6)),
        Token::Slash => Some((BinaryOp::Divide, 6)),
        Token::Percent => Some((BinaryOp::Modulo, 6)),
        _ => None,
    }
}

fn binary_op_of(t: &Token) -> (r: Option<(BinaryOp, u32)>)
    ensures
        r == spec_binary_op(*t),
        r matches Some(p) ==> 1 <= p.1 <= 6,
{
    match t {
        Token::OrOr => Some((BinaryOp::Or, 1)),
        Token::AndAnd => Some((BinaryOp::And, 2)),
        Token::EqualsTo => Some((BinaryOp::Equals, 3)),
        Token::NotEqualsTo => Some((BinaryOp::NotEquals, 3)),
        Token::LessThan => Some((BinaryOp::LessThan, 4)),
        Token::LessThanEqual => Some((BinaryOp::LessThanEqual, 4)),
        Token::GreaterThan => Some((BinaryOp::GreaterThan, 4)),
        Token::GreaterThanEqual => Some((BinaryOp::GreaterThanEqual, 4)),
        Token::Plus => Some((BinaryOp::Add, 5)),
        Token::Minus => Some((BinaryOp::Subtract, 5)),
        Token::Star => Some((BinaryOp::Multiply, 6)),
        Token::Slash => Some((BinaryOp::Divide, 6)),
        Token::Percent => Some((BinaryOp::Modulo, 6)),
        _ => None,
    }
}

/// The text of an operator-shaped token that has no registered precedence:
/// such a token in binary-operator position is an unknown operator.
pub open spec fn spec_unknown_op(t: Token) -> Option<Seq<char>> {
    match t {
        Token::Ampersand => Some("&"@),
        Token::Pipe => Some("|"@),
        Token::Caret => Some("^"@),
        _ => None,
    }
}

fn unknown_op_text(t: &Token) -> (r: Option<String>)
    ensures
        r matches Some(s) ==> spec_unknown_op(*t) == Some(s@),
        r is Some <==> spec_unknown_op(*t) is Some,
{
    match t {
        Token::Ampersand => Some(String::from_str("&")),
        Token::Pipe => Some(String::from_str("|")),
        Token::Caret => Some(String::from_str("^")),
        _ => None,
    }
}

/// The text of an identifier token; the empty sequence for any other token.
pub open spec fn ident_text(t: Token) -> Seq<char> {
    match t {
        Token::Identifier(s) => s@,
        _ => Seq::empty(),
    }
}

/// A two-statement stream: `let x = <atom> ;` followed by a binary
/// expression of two atoms that runs to the end of the input.
pub open spec fn let_then_binary_prefix(toks: Seq<(Token, Position)>) -> bool {
    &&& toks.len() == 8
    &&& toks[0].0 is Let
    &&& toks[1].0 is Identifier
    &&& toks[2].0 is Equals
    &&& is_atom(toks[3].0)
    &&& toks[4].0 is SemiColon
    &&& is_atom(toks[5].0)
    &&& spec_binary_op(toks[6].0) is Some
    &&& is_atom(toks[7].0)
}

/// A stream opening with a constant declaration followed by an assignment to
/// the declared name: `const x = <literal> ;` and then `x = ...`.
pub open spec fn const_then_assign_prefix(toks: Seq<(Token, Position)>) -> bool {
    &&& toks.len() > 6
    &&& toks[0].0 is Const
    &&& toks[1].0 is Identifier
    &&& toks[2].0 is Equals
    &&& is_literal_atom(toks[3].0)
    &&& toks[4].0 is SemiColon
    &&& toks[5].0 is Identifier
    &&& ident_text(toks[5].0) == ident_text(toks[1].0)
    &&& toks[6].0 is Equals
}

/// A function header opening with two same-named parameters: `fn` at `i`,
/// then a name, `(`, a parameter, `,`, and a second parameter with the same
/// text.
pub open spec fn dup_param_prefix(toks: Seq<(Token, Position)>, i: int) -> bool {
    &&& i + 5 < toks.len()
    &&& toks[i + 1].0 is Identifier
    &&& toks[i + 2].0 is LeftParen
    &&& toks[i + 3].0 is Identifier
    &&& toks[i + 4].0 is Comma
    &&& toks[i + 5].0 is Identifier
    &&& ident_text(toks[i + 3].0) == ident_text(toks[i + 5].0)
}

/// A token that alone forms a primary expression.
pub open spec fn is_atom(t: Token) -> bool {
    ||| t is NumberConstant
    ||| t is StringConstant
    ||| t is CharConstant
    ||| t is True
    ||| t is False
    ||| t is Identifier
}

/// A literal atom: an atom that is also a compile-time constant shape.
pub open spec fn is_literal_atom(t: Token) -> bool {
    is_atom(t) && !(t is Identifier)
}

/// The expression one atom token parses into.
pub open spec fn atom_expr(t: Token, e: Expr) -> bool {
    match t {
        Token::NumberConstant(s) => e matches Expr::NumberLiteral(v) && v == s,
        Token::StringConstant(s) => e matches Expr::StringLiteral(v) && v == s,
        Token::CharConstant(c) => e == Expr::CharLiteral(c),
        Token::True => e == Expr::BoolLiteral(true),
        Token::False => e == Expr::BoolLiteral(false),
        Token::Identifier(s) => e matches Expr::Variable(v) && v == s,
        _ => false,
    }
}

/// A token that cannot continue an expression: no binary operator (known or
/// unknown), no call opening, no index opening.
pub open spec fn ends_expr(t: Token) -> bool {
    &&& spec_binary_op(t) is None
    &&& spec_unknown_op(t) is None
    &&& !(t is LeftParen)
    &&& !(t is LeftBracket)
}

/// A token that does not extend an atom into a call or an index.
pub open spec fn atom_follower(t: Token) -> bool {
    !(t is LeftParen) && !(t is LeftBracket)
}

/// A parenthesized binary expression that the input ends inside of: `(`,
/// an atom, a known operator and an atom at `i`, with nothing after.
pub open spec fn open_paren_at(toks: Seq<(Token, Position)>, i: int) -> bool {
    &&& i + 3 < toks.len()
    &&& i + 4 >= toks.len()
    &&& toks[i].0 is LeftParen
    &&& is_atom(toks[i + 1].0)
    &&& spec_binary_op(toks[i + 2].0) is Some
    &&& is_atom(toks[i + 3].0)
}

fn at_right_brace(toks: &Vec<(Token, Position)>, j: usize) -> (r: bool)
    requires
        j < toks@.len(),
    ensures
        r == (toks@[j as int].0 is RightBrace),
{
    let tp = &toks[j];
    matches!(&tp.0, Token::RightBrace)
}

/// Consume the statement terminator: a `;`, or nothing when the statement is
/// the last thing before a closing `}` or the end of input.
fn expect_semicolon(toks: &Vec<(Token, Position)>, j: usize) -> (r: Result<usize, ParseError>)
    ensures
        r matches Ok(j2) ==> j2 == j || (j2 == j + 1 && j < toks@.len()),
        (j < toks@.len() && toks@[j as int].0 is SemiColon) ==> (r matches Ok(j2) && j2 == j
            + 1),
        j >= toks@.len() ==> (r matches Ok(j2) && j2 == j),
{
    let n = toks.len();
    if j < n {
        let tp = &toks[j];
        if matches!(&tp.0, Token::SemiColon) {
            Ok(j + 1)
        } else if matches!(&tp.0, Token::RightBrace) {
            Ok(j)
        } else {
            Err(ParseErrorType::MissingSemicolon(String::from_str("statement")).into_err(tp.1))
        }
    } else {
        Ok(j)
    }
}

/// Parse the argument list of a call of `name`; `i` is the index of the
/// callee identifier and `i + 1` holds the opening parenthesis.
fn parse_call_args(toks: &Vec<(Token, Position)>, i: usize, name: String) -> (r: Result<
    (Expr, usize),
    ParseError,
>)
    requires
        i + 1 < toks@.len(),
    ensures
        r matches Ok(p) ==> i < p.1 <= toks@.len(),
    decreases toks@.len() - i, 0int,
{
    let n = toks.len();
    let mut args: Vec<Expr> = Vec::new();
    let mut j = i + 2;
    if j < n && at_right_paren(toks, j) {
        return Ok((Expr::Call(name, args), j + 1));
    }
    loop
        invariant
            i < j <= n,
            n == toks@.len(),
        decreases n - j,
    {
        if j >= n {
            return Err(ParseErrorType::MissingRightParen(name).into_err_eof());
        }
        match parse_expr(toks, j) {
            Ok((a, j2)) => {
                args.push(a);
                j = j2;
            },
            Err(_) => {
                let p = pos_at(toks, j);
                return Err(ParseErrorType::MalformedCallExpr(name).into_err(p));
            },
        }
        if j >= n {
            return Err(ParseErrorType::MissingRightParen(name).into_err_eof());
        }
        let tp = &toks[j];
        if matches!(&tp.0, Token::RightParen) {
            return Ok((Expr::Call(name, args), j + 1));
        }
        if !matches!(&tp.0, Token::Comma) {
            return Err(ParseErrorType::MissingComma(name).into_err(tp.1));
        }
        j += 1;
    }
}

fn at_right_paren(toks: &Vec<(Token, Position)>, j: usize) -> (r: bool)
    requires
        j < toks@.len(),
    ensures
        r == (toks@[j as int].0 is RightParen),
{
    let tp = &toks[j];
    matches!(&tp.0, Token::RightParen)
}

fn at_left_bracket(toks: &Vec<(Token, Position)>, j: usize) -> (r: bool)
    requires
        j < toks@.len(),
    ensures
        r == (toks@[j as int].0 is LeftBracket),
{
    let tp = &toks[j];
    matches!(&tp.0, Token::LeftBracket)
}

/// Parse a primary expression and any postfix indexing.
fn parse_primary(toks: &Vec<(Token, Position)>, i: usize) -> (r: Result<(Expr, usize), ParseError>)
    ensures
        r matches Ok(p) ==> i < p.1 <= toks@.len(),
        (i < toks@.len() && is_atom(toks@[i as int].0) && (i + 1 >= toks@.len() || atom_follower(
            toks@[i as int + 1].0,
        ))) ==> (r matches Ok(p) && atom_expr(toks@[i as int].0, p.0) && p.1 == i + 1),
        open_paren_at(toks@, i as int) ==> (r matches Err(pe) && pe.0 matches
            ParseErrorType::MissingRightParen(m) && m@ == "expression"@ && pe.1 == Position::Eof),
    decreases toks@.len() - i, 1int,
{
    let n = toks.len();
    if i >= n {
        return Err(ParseErrorType::UnexpectedEOF.into_err_eof());
    }
    let tp = &toks[i];
    let (base, after): (Expr, usize) = match &tp.0 {
        Token::NumberConstant(s) => (Expr::NumberLiteral(s.clone()), i + 1),
        Token::StringConstant(s) => (Expr::StringLiteral(s.clone()), i + 1),
        Token::CharConstant(c) => (Expr::CharLiteral(*c), i + 1),
        Token::True => (Expr::BoolLiteral(true), i + 1),
        Token::False => (Expr::BoolLiteral(false), i + 1),
        Token::Identifier(s) => {
            if i + 1 < n && at_left_paren(toks, i + 1) {
                let (call, j) = parse_call_args(toks, i, s.clone())?;
                (call, j)
            } else {
                (Expr::Variable(s.clone()), i + 1)
            }
        },
        Token::LeftParen => {
            let (e, j) = parse_expr(toks, i + 1)?;
            if j < n && at_right_paren(toks, j) {
                (e, j + 1)
            } else {
                let p = pos_at(toks, j);
                return Err(
                    ParseErrorType::MissingRightParen(String::from_str("expression")).into_err(p),
                );
            }
        },
        Token::LeftBracket => {
            let mut elems: Vec<Expr> = Vec::new();
            let mut j = i + 1;
            if j < n && at_right_bracket(toks, j) {
                (Expr::Array(elems), j + 1)
            } else {
                loop
                    invariant
                        i < j <= n,
                        n == toks@.len(),
                        toks@[i as int].0 is LeftBracket,
                    decreases n - j,
                {
                    if j >= n {
                        return Err(
                            ParseErrorType::MissingRightBracket(
                                String::from_str("array literal"),
                            ).into_err_eof(),
                        );
                    }
                    let (e, j2) = parse_expr(toks, j)?;
                    elems.push(e);
                    j = j2;
                    if j >= n {
                        return Err(
                            ParseErrorType::MissingRightBracket(
                                String::from_str("array literal"),
                            ).into_err_eof(),
                        );
                    }
                    let sep = &toks[j];
                    if matches!(&sep.0, Token::RightBracket) {
                        j += 1;
                        break ;
                    }
                    if !matches!(&sep.0, Token::Comma) {
                        return Err(
                            ParseErrorType::MissingComma(
                                String::from_str("array literal"),
                            ).into_err(sep.1),
                        );
                    }
                    j += 1;
                }
                (Expr::Array(elems), j)
            }
        },
        _ => {
            return Err(
                ParseErrorType::ExprExpected(String::from_str("a value")).into_err(tp.1),
            );
        },
    };
    // Postfix indexing: `base[index]`, possibly chained.
    let mut e = base;
    let mut j = after;
    while j < n && at_left_bracket(toks, j)
        invariant
            i < j <= n,
            n == toks@.len(),
            (i < n && is_atom(toks@[i as int].0) && (i + 1 >= n || atom_follower(
                toks@[i as int + 1].0,
            ))) ==> (j == i + 1 && atom_expr(toks@[i as int].0, e)),
        decreases n - j,
    {
        match parse_expr(toks, j + 1) {
            Ok((idx, j2)) => {
                if j2 < n && at_right_bracket(toks, j2) {
                    e = Expr::Index(Box::new(e), Box::new(idx));
                    j = j2 + 1;
                } else {
                    let p = pos_at(toks, j2);
                    return Err(
                        ParseErrorType::MissingRightBracket(
                            String::from_str("index expression"),
                        ).into_err(p),
                    );
                }
            },
            Err(_) => {
                let p = pos_at(toks, j + 1);
                return Err(ParseErrorType::MalformedIndexExpr(String::new()).into_err(p));
            },
        }
    }
    Ok((e, j))
}

fn at_left_paren(toks: &Vec<(Token, Position)>, j: usize) -> (r: bool)
    requires
        j < toks@.len(),
    ensures
        r == (toks@[j as int].0 is LeftParen),
{
    let tp = &toks[j];
    matches!(&tp.0, Token::LeftParen)
}

fn at_right_bracket(toks: &Vec<(Token, Position)>, j: usize) -> (r: bool)
    requires
        j < toks@.len(),
    ensures
        r == (toks@[j as int].0 is RightBracket),
{
    let tp = &toks[j];
    matches!(&tp.0, Token::RightBracket)
}

/// Parse a unary expression.
fn parse_unary(toks: &Vec<(Token, Position)>, i: usize) -> (r: Result<(Expr, usize), ParseError>)
    ensures
        r matches Ok(p) ==> i < p.1 <= toks@.len(),
        (i < toks@.len() && is_atom(toks@[i as int].0) && (i + 1 >= toks@.len() || atom_follower(
            toks@[i as int + 1].0,
        ))) ==> (r matches Ok(p) && atom_expr(toks@[i as int].0, p.0) && p.1 == i + 1),
        open_paren_at(toks@, i as int) ==> (r matches Err(pe) && pe.0 matches
            ParseErrorType::MissingRightParen(m) && m@ == "expression"@ && pe.1 == Position::Eof),
    decreases toks@.len() - i, 2int,
{
    let n = toks.len();
    if i >= n {
        return Err(ParseErrorType::UnexpectedEOF.into_err_eof());
    }
    let tp = &toks[i];
    if matches!(&tp.0, Token::Minus) {
        let (e, j) = parse_unary(toks, i + 1)?;
        Ok((Expr::Unary(UnaryOp::Negate, Box::new(e)), j))
    } else if matches!(&tp.0, Token::Bang) {
        let (e, j) = parse_unary(toks, i + 1)?;
        Ok((Expr::Unary(UnaryOp::Not, Box::new(e)), j))
    } else {
        parse_primary(toks, i)
    }
}

/// Precedence climbing: parse binary operator chains whose operators bind at
/// least as tightly as `min_prec`. An operator-shaped token without a
/// registered precedence is an unknown operator.
fn parse_binary(toks: &Vec<(Token, Position)>, i: usize, min_prec: u32) -> (r: Result<
    (Expr, usize),
    ParseError,
>)
    ensures
        r matches Ok(p) ==> i < p.1 <= toks@.len(),
        (i < toks@.len() && is_atom(toks@[i as int].0) && (i + 1 >= toks@.len() || ends_expr(
            toks@[i as int + 1].0,
        ))) ==> (r matches Ok(p) && atom_expr(toks@[i as int].0, p.0) && p.1 == i + 1),
        (i + 2 < toks@.len() && is_atom(toks@[i as int].0) && (spec_binary_op(
            toks@[i as int + 1].0,
        ) matches Some(pr) && pr.1 >= min_prec) && is_atom(toks@[i as int + 2].0) && (i + 3
            >= toks@.len() || ends_expr(toks@[i as int + 3].0))) ==> (r matches Ok(p) && p.1 == i
            + 3),
        open_paren_at(toks@, i as int) ==> (r matches Err(pe) && pe.0 matches
            ParseErrorType::MissingRightParen(m) && m@ == "expression"@ && pe.1 == Position::Eof),
    decreases toks@.len() - i, 3int,
{
    let n = toks.len();
    let (first, after) = match parse_unary(toks, i) {
        Ok(p) => p,
        Err(e) => {
            return Err(e);
        },
    };
    let mut lhs = first;
    let mut j = after;
    let mut done = false;
    while j < n && !done
        invariant
            i < j <= n,
            n == toks@.len(),
            (i < n && is_atom(toks@[i as int].0) && (i + 1 >= n || ends_expr(
                toks@[i as int + 1].0,
            ))) ==> (j == i + 1 && atom_expr(toks@[i as int].0, lhs)),
            (i + 2 < n && is_atom(toks@[i as int].0) && (spec_binary_op(toks@[i as int + 1].0)
                matches Some(pr) && pr.1 >= min_prec) && is_atom(toks@[i as int + 2].0) && (i + 3
                >= n || ends_expr(toks@[i as int + 3].0))) ==> ((j == i + 1 || j == i + 3) && (
            done ==> j == i + 3)),
        decreases n - j, (if done { 0int } else { 1int }),
    {
        let tp = &toks[j];
        match binary_op_of(&tp.0) {
            Some((op, prec)) => {
                if prec < min_prec {
                    done = true;
                } else {
                    let (rhs, j2) = parse_binary(toks, j + 1, prec + 1)?;
                    lhs = Expr::Binary(op, Box::new(lhs), Box::new(rhs));
                    j = j2;
                }
            },
            None => {
                match unknown_op_text(&tp.0) {
                    Some(text) => {
                        return Err(ParseErrorType::UnknownOperator(text).into_err(tp.1));
                    },
                    None => {
                        done = true;
                    },
                }
            },
        }
    }
    Ok((lhs, j))
}

/// Parse one expression.
fn parse_expr(toks: &Vec<(Token, Position)>, i: usize) -> (r: Result<(Expr, usize), ParseError>)
    ensures
        r matches Ok(p) ==> i < p.1 <= toks@.len(),
        (i < toks@.len() && is_atom(toks@[i as int].0) && (i + 1 >= toks@.len() || ends_expr(
            toks@[i as int + 1].0,
        ))) ==> (r matches Ok(p) && atom_expr(toks@[i as int].0, p.0) && p.1 == i + 1),
        (i + 2 < toks@.len() && is_atom(toks@[i as int].0) && spec_binary_op(
            toks@[i as int + 1].0,
        ) is Some && is_atom(toks@[i as int + 2].0) && (i + 3 >= toks@.len() || ends_expr(
            toks@[i as int + 3].0,
        ))) ==> (r matches Ok(p) && p.1 == i + 3),
        open_paren_at(toks@, i as int) ==> (r matches Err(pe) && pe.0 matches
            ParseErrorType::MissingRightParen(m) && m@ == "expression"@ && pe.1 == Position::Eof),
    decreases toks@.len() - i, 4int,
{
    parse_binary(toks, i, 0)
}

fn push_wf_stmt(v: &mut Vec<Stmt>, s: Stmt, in_loop: bool)
    requires
        stmt_wf(s, in_loop),
        forall|k: int| 0 <= k < old(v)@.len() ==> stmt_wf(#[trigger] old(v)@[k], in_loop),
    ensures
        final(v)@ == old(v)@.push(s),
        forall|k: int| 0 <= k < final(v)@.len() ==> stmt_wf(#[trigger] final(v)@[k], in_loop),
{
    v.push(s);
    proof {
        assert forall|k: int| 0 <= k < v@.len() implies stmt_wf(#[trigger] v@[k], in_loop) by {
            if k < v@.len() - 1 {
                assert(v@[k] == old(v)@[k]);
            } else {
                assert(v@[k] == s);
            }
        }
    }
}

/// Parse a braced statement block. Bindings declared inside the block go out
/// of scope when the block closes.
fn parse_block(
    toks: &Vec<(Token, Position)>,
    i: usize,
    scope: &mut Vec<(String, bool)>,
    in_loop: bool,
) -> (r: Result<(Vec<Stmt>, usize), ParseError>)
    ensures
        r matches Ok(p) ==> i < p.1 <= toks@.len() && (forall|k: int|
            0 <= k < p.0@.len() ==> stmt_wf(#[trigger] p.0@[k], in_loop)),
    decreases toks@.len() - i, 6int,
{
    let n = toks.len();
    if i >= n {
        return Err(ParseErrorType::MissingLeftBrace.into_err_eof());
    }
    let open = &toks[i];
    if !matches!(&open.0, Token::LeftBrace) {
        return Err(ParseErrorType::MissingLeftBrace.into_err(open.1));
    }
    let depth0 = scope.len();
    let mut stmts: Vec<Stmt> = Vec::new();
    let mut j = i + 1;
    while j < n && !at_right_brace(toks, j)
        invariant
            i < j <= n,
            n == toks@.len(),
            forall|k: int| 0 <= k < stmts@.len() ==> stmt_wf(#[trigger] stmts@[k], in_loop),
        decreases n - j,
    {
        let (s, j2) = parse_stmt(toks, j, scope, in_loop)?;
        push_wf_stmt(&mut stmts, s, in_loop);
        j = j2;
    }
    if j >= n {
        return Err(
            ParseErrorType::MissingRightBrace(String::from_str("block")).into_err_eof(),
        );
    }
    scope.truncate(depth0);
    Ok((stmts, j + 1))
}

/// Parse one statement.
fn parse_stmt(
    toks: &Vec<(Token, Position)>,
    i: usize,
    scope: &mut Vec<(String, bool)>,
    in_loop: bool,
) -> (r: Result<(Stmt, usize), ParseError>)
    ensures
        r matches Ok(p) ==> i < p.1 <= toks@.len() && stmt_wf(p.0, in_loop),
        (i < toks@.len() && (toks@[i as int].0 is Let || toks@[i as int].0 is Const
            || toks@[i as int].0 is For) && (i + 1 >= toks@.len() || !(toks@[i as int + 1].0
            is Identifier))) ==> (
        r matches Err(pe) && pe.0 == ParseErrorType::VariableExpected && pe.1 == (if i + 1
            < toks@.len() {
            toks@[i as int + 1].1
        } else {
            Position::Eof
        })),
        (i + 1 < toks@.len() && toks@[i as int].0 is For && toks@[i as int + 1].0 is Identifier
            && (i + 2 >= toks@.len() || !(toks@[i as int + 2].0 is In))) ==> (r matches Err(pe)
            && pe.0 == ParseErrorType::MissingIn && pe.1 == (if i + 2 < toks@.len() {
            toks@[i as int + 2].1
        } else {
            Position::Eof
        })),
        (i < toks@.len() && toks@[i as int].0 is Break && !in_loop) ==> (r matches Err(pe) && pe.0
            == ParseErrorType::LoopBreak && pe.1 == toks@[i as int].1),
        (i < toks@.len() && toks@[i as int].0 is Fn) ==> (r matches Err(pe) && pe.0
            == ParseErrorType::WrongFnDefinition && pe.1 == toks@[i as int].1),
        (i + 4 < toks@.len() && toks@[i as int].0 is Const && toks@[i as int + 1].0 is Identifier
            && toks@[i as int + 2].0 is Equals && is_literal_atom(toks@[i as int + 3].0)
            && toks@[i as int + 4].0 is SemiColon) ==> (r matches Ok(p) && p.1 == i + 5
            && final(scope)@.len() == old(scope)@.len() + 1 && final(scope)@.last().0@
            == ident_text(toks@[i as int + 1].0) && final(scope)@.last().1 == true
            && final(scope)@.drop_last() == old(scope)@),
        (i + 1 < toks@.len() && toks@[i as int].0 is Identifier && toks@[i as int + 1].0
            is Equals && const_in_scope(old(scope)@, ident_text(toks@[i as int].0))) ==> (
        r matches Err(pe) && pe.0 matches ParseErrorType::AssignmentToConstant(m) && m@
            == ident_text(toks@[i as int].0) && pe.1 == toks@[i as int + 1].1),
        open_paren_at(toks@, i as int) ==> (r matches Err(pe) && pe.0 matches
            ParseErrorType::MissingRightParen(m) && m@ == "expression"@ && pe.1 == Position::Eof),
        (i + 4 < toks@.len() && toks@[i as int].0 is Let && toks@[i as int + 1].0 is Identifier
            && toks@[i as int + 2].0 is Equals && is_atom(toks@[i as int + 3].0)
            && toks@[i as int + 4].0 is SemiColon) ==> (r matches Ok(p) && p.0 is Let && p.1 == i
            + 5),
        (i + 2 < toks@.len() && i + 3 >= toks@.len() && is_atom(toks@[i as int].0)
            && spec_binary_op(toks@[i as int + 1].0) is Some && is_atom(
            toks@[i as int + 2].0,
        )) ==> (r matches Ok(p) && p.0 is ExprStmt && p.1 == i + 3),
        (i + 1 == toks@.len() && is_atom(toks@[i as int].0)) ==> (r matches Ok(p) && p.0
            is ExprStmt && p.1 == i + 1),
    decreases toks@.len() - i, 5int,
{
    let n = toks.len();
    if i >= n {
        return Err(ParseErrorType::UnexpectedEOF.into_err_eof());
    }
    let tp = &toks[i];
    match &tp.0 {
        Token::Let => {
            if i + 1 >= n {
                return Err(ParseErrorType::VariableExpected.into_err_eof());
            }
            let nt = &toks[i + 1];
            let name = match &nt.0 {
                Token::Identifier(s) => s.clone(),
                _ => {
                    return Err(ParseErrorType::VariableExpected.into_err(nt.1));
                },
            };
            let mut j = i + 2;
            let mut init: Option<Expr> = None;
            if j < n && at_equals(toks, j) {
                let (e, j2) = parse_expr(toks, j + 1)?;
                init = Some(e);
                j = j2;
            }
            let j3 = expect_semicolon(toks, j)?;
            scope.push((name.clone(), false));
            Ok((Stmt::Let(name, init), j3))
        },
        Token::Const => {
            if i + 1 >= n {
                return Err(ParseErrorType::VariableExpected.into_err_eof());
            }
            let nt = &toks[i + 1];
            let name = match &nt.0 {
                Token::Identifier(s) => s.clone(),
                _ => {
                    return Err(ParseErrorType::VariableExpected.into_err(nt.1));
                },
            };
            let j = i + 2;
            if j >= n || !at_equals(toks, j) {
                let p = pos_at(toks, j);
                return Err(ParseErrorType::ForbiddenConstantExpr(name).into_err(p));
            }
            let (e, j2) = parse_expr(toks, j + 1)?;
            if !is_constant_expr_exec(&e) {
                let p = pos_at(toks, j + 1);
                return Err(ParseErrorType::ForbiddenConstantExpr(name).into_err(p));
            }
            let j3 = expect_semicolon(toks, j2)?;
            scope.push((name.clone(), true));
            Ok((Stmt::Const(name, e), j3))
        },
        Token::Break => {
            if !in_loop {
                return Err(ParseErrorType::LoopBreak.into_err(tp.1));
            }
            let j = expect_semicolon(toks, i + 1)?;
            Ok((Stmt::Break, j))
        },
        Token::Return => {
            let mut j = i + 1;
            let mut val: Option<Expr> = None;
            if j < n && !at_semicolon(toks, j) && !at_right_brace(toks, j) {
                let (e, j2) = parse_expr(toks, j)?;
                val = Some(e);
                j = j2;
            }
            let j3 = expect_semicolon(toks, j)?;
            Ok((Stmt::Return(val), j3))
        },
        Token::Import => {
            if i + 1 >= n {
                return Err(ParseErrorType::UnexpectedEOF.into_err_eof());
            }
            let nt = &toks[i + 1];
            let path = match &nt.0 {
                Token::StringConstant(s) => s.clone(),
                _ => {
                    return Err(
                        ParseErrorType::ExprExpected(
                            String::from_str("a string path"),
                        ).into_err(nt.1),
                    );
                },
            };
            let j = expect_semicolon(toks, i + 2)?;
            Ok((Stmt::Import(path), j))
        },
        Token::If => {
            let (cond, j) = parse_expr(toks, i + 1)?;
            let (body, j2) = parse_block(toks, j, scope, in_loop)?;
            if j2 < n && at_else(toks, j2) {
                if j2 + 1 < n && at_if(toks, j2 + 1) {
                    let (nested, j3) = parse_stmt(toks, j2 + 1, scope, in_loop)?;
                    let mut tail: Vec<Stmt> = Vec::new();
                    tail.push(nested);
                    Ok((Stmt::If(cond, body, Some(tail)), j3))
                } else {
                    let (tail, j3) = parse_block(toks, j2 + 1, scope, in_loop)?;
                    Ok((Stmt::If(cond, body, Some(tail)), j3))
                }
            } else {
                Ok((Stmt::If(cond, body, None), j2))
            }
        },
        Token::While => {
            let (cond, j) = parse_expr(toks, i + 1)?;
            let (body, j2) = parse_block(toks, j, scope, true)?;
            Ok((Stmt::While(cond, body), j2))
        },
        Token::Loop => {
            let (body, j2) = parse_block(toks, i + 1, scope, true)?;
            Ok((Stmt::Loop(body), j2))
        },
        Token::For => {
            if i + 1 >= n {
                return Err(ParseErrorType::VariableExpected.into_err_eof());
            }
            let nt = &toks[i + 1];
            let name = match &nt.0 {
                Token::Identifier(s) => s.clone(),
                _ => {
                    return Err(ParseErrorType::VariableExpected.into_err(nt.1));
                },
            };
            if i + 2 >= n {
                return Err(ParseErrorType::MissingIn.into_err_eof());
            }
            let kw = &toks[i + 2];
            if !matches!(&kw.0, Token::In) {
                return Err(ParseErrorType::MissingIn.into_err(kw.1));
            }
            let (iter, j) = parse_expr(toks, i + 3)?;
            let depth0 = scope.len();
            scope.push((name.clone(), false));
            let (body, j2) = parse_block(toks, j, scope, true)?;
            scope.truncate(depth0);
            Ok((Stmt::For(name, iter, body), j2))
        },
        Token::Fn => Err(ParseErrorType::WrongFnDefinition.into_err(tp.1)),
        _ => {
            let (lhs, j) = match parse_expr(toks, i) {
                Ok(p) => p,
                Err(e) => {
                    return Err(e);
                },
            };
            if j < n && at_equals(toks, j) {
                match check_assign_target(scope, &lhs) {
                    Some(t) => {
                        let p = pos_at(toks, j);
                        Err(t.into_err(p))
                    },
                    None => {
                        let (rhs, j2) = parse_expr(toks, j + 1)?;
                        let j3 = expect_semicolon(toks, j2)?;
                        Ok((Stmt::Assign(lhs, rhs), j3))
                    },
                }
            } else {
                let j3 = expect_semicolon(toks, j)?;
                Ok((Stmt::ExprStmt(lhs), j3))
            }
        },
    }
}

fn at_equals(toks: &Vec<(Token, Position)>, j: usize) -> (r: bool)
    requires
        j < toks@.len(),
    ensures
        r == (toks@[j as int].0 is Equals),
{
    let tp = &toks[j];
    matches!(&tp.0, Token::Equals)
}

fn at_semicolon(toks: &Vec<(Token, Position)>, j: usize) -> (r: bool)
    requires
        j < toks@.len(),
    ensures
        r == (toks@[j as int].0 is SemiColon),
{
    let tp = &toks[j];
    matches!(&tp.0, Token::SemiColon)
}

fn at_else(toks: &Vec<(Token, Position)>, j: usize) -> (r: bool)
    requires
        j < toks@.len(),
    ensures
        r == (toks@[j as int].0 is Else),
{
    let tp = &toks[j];
    matches!(&tp.0, Token::Else)
}

fn at_if(toks: &Vec<(Token, Position)>, j: usize) -> (r: bool)
    requires
        j < toks@.len(),
    ensures
        r == (toks@[j as int].0 is If),
{
    let tp = &toks[j];
    matches!(&tp.0, Token::If)
}

/// Parse one function definition; `i` is the index of the `fn` keyword.
fn parse_fn_def(toks: &Vec<(Token, Position)>, i: usize) -> (r: Result<(FnDef, usize), ParseError>)
    requires
        i < toks@.len(),
    ensures
        r matches Ok(p) ==> i < p.1 <= toks@.len() && fn_wf(p.0),
        (i + 1 >= toks@.len() || !(toks@[i as int + 1].0 is Identifier)) ==> (r matches Err(pe)
            && pe.0 == ParseErrorType::FnMissingName && pe.1 == (if i + 1 < toks@.len() {
            toks@[i as int + 1].1
        } else {
            Position::Eof
        })),
        (i + 1 < toks@.len() && toks@[i as int + 1].0 is Identifier && (i + 2 >= toks@.len()
            || !(toks@[i as int + 2].0 is LeftParen))) ==> (r matches Err(pe) && pe.0 matches
            ParseErrorType::FnMissingParams(m) && m@ == ident_text(toks@[i as int + 1].0) && pe.1
            == (if i + 2 < toks@.len() {
            toks@[i as int + 2].1
        } else {
            Position::Eof
        })),
        dup_param_prefix(toks@, i as int) ==> (r matches Err(pe) && pe.0 matches
            ParseErrorType::FnDuplicateParam(a, b) && a@ == ident_text(toks@[i as int + 1].0)
            && b@ == ident_text(toks@[i as int + 5].0) && pe.1 == toks@[i as int + 5].1),
    decreases toks@.len() - i, 5int,
{
    let n = toks.len();
    if i + 1 >= n {
        return Err(ParseErrorType::FnMissingName.into_err_eof());
    }
    let nt = &toks[i + 1];
    let name = match &nt.0 {
        Token::Identifier(s) => s.clone(),
        _ => {
            return Err(ParseErrorType::FnMissingName.into_err(nt.1));
        },
    };
    if i + 2 >= n {
        return Err(ParseErrorType::FnMissingParams(name).into_err_eof());
    }
    let op = &toks[i + 2];
    if !matches!(&op.0, Token::LeftParen) {
        return Err(ParseErrorType::FnMissingParams(name).into_err(op.1));
    }
    let mut params: Vec<String> = Vec::new();
    let mut j = i + 3;
    if j < n && at_right_paren(toks, j) {
        j += 1;
    } else {
        let mut done = false;
        while !done
            invariant
                i < j <= n,
                n == toks@.len(),
                i + 2 < n,
                toks@[i as int + 1].0 is Identifier,
                toks@[i as int + 2].0 is LeftParen,
                name@ == ident_text(toks@[i as int + 1].0),
                params_distinct(params@),
                done ==> !dup_param_prefix(toks@, i as int),
                !done && dup_param_prefix(toks@, i as int) ==> ((j == i + 3 && params@.len()
                    == 0) || (j == i + 5 && params@.len() == 1 && params@[0]@ == ident_text(
                    toks@[i as int + 3].0,
                ))),
            decreases n - j,
        {
            if j >= n {
                return Err(ParseErrorType::MissingRightParen(name).into_err_eof());
            }
            let pt = &toks[j];
            let pname = match &pt.0 {
                Token::Identifier(s) => s.clone(),
                _ => {
                    return Err(ParseErrorType::FnMissingParams(name).into_err(pt.1));
                },
            };
            if contains_str(&params, pname.as_str()) {
                return Err(ParseErrorType::FnDuplicateParam(name, pname).into_err(pt.1));
            }
            proof {
                if dup_param_prefix(toks@, i as int) && j == i + 5 {
                    assert(params@[0]@ == pname@);
                }
            }
            let ghost old_params = params@;
            let ghost pv = pname@;
            params.push(pname);
            proof {
                assert forall|a: int, b: int|
                    0 <= a < b < params@.len() implies params@[a]@ != params@[b]@ by {
                    if b < params@.len() - 1 {
                        assert(params@[a] == old_params[a]);
                        assert(params@[b] == old_params[b]);
                    } else {
                        assert(params@[a] == old_params[a]);
                        assert(params@[b]@ == pv);
                    }
                }
            }
            j += 1;
            if j >= n {
                return Err(ParseErrorType::MissingRightParen(name).into_err_eof());
            }
            let st = &toks[j];
            if matches!(&st.0, Token::RightParen) {
                j += 1;
                done = true;
            } else if matches!(&st.0, Token::Comma) {
                j += 1;
            } else {
                return Err(ParseErrorType::MissingComma(name).into_err(st.1));
            }
        }
    }
    if j >= n {
        return Err(ParseErrorType::FnMissingBody(name).into_err_eof());
    }
    let bt = &toks[j];
    if !matches!(&bt.0, Token::LeftBrace) {
        return Err(ParseErrorType::FnMissingBody(name).into_err(bt.1));
    }
    let mut fscope: Vec<(String, bool)> = Vec::new();
    let mut k: usize = 0;
    while k < params.len()
        invariant
            k <= params@.len(),
            params_distinct(params@),
        decreases params@.len() - k,
    {
        let p = &params[k];
        fscope.push((p.clone(), false));
        k += 1;
    }
    let (body, j2) = parse_block(toks, j, &mut fscope, false)?;
    Ok((FnDef { name, params, body }, j2))
}

fn push_wf_fn(v: &mut Vec<FnDef>, f: FnDef)
    requires
        fn_wf(f),
        forall|k: int| 0 <= k < old(v)@.len() ==> fn_wf(#[trigger] old(v)@[k]),
    ensures
        final(v)@ == old(v)@.push(f),
        forall|k: int| 0 <= k < final(v)@.len() ==> fn_wf(#[trigger] final(v)@[k]),
{
    v.push(f);
    proof {
        assert forall|k: int| 0 <= k < v@.len() implies fn_wf(#[trigger] v@[k]) by {
            if k < v@.len() - 1 {
                assert(v@[k] == old(v)@[k]);
            } else {
                assert(v@[k] == f);
            }
        }
    }
}

fn at_fn_keyword(toks: &Vec<(Token, Position)>, j: usize) -> (r: bool)
    requires
        j < toks@.len(),
    ensures
        r == (toks@[j as int].0 is Fn),
{
    let tp = &toks[j];
    matches!(&tp.0, Token::Fn)
}

/// Parse a whole token stream into a program. The first error aborts the
/// parse and is returned; a program that comes back is structurally legal.
pub fn parse(toks: &Vec<(Token, Position)>) -> (r: Result<Program, ParseError>)
    ensures
        r matches Ok(p) ==> program_wf(p),
        toks@.len() == 0 ==> (r matches Ok(p) && p.statements@.len() == 0 && p.functions@.len()
            == 0),
        (toks@.len() > 0 && toks@[0].0 is Break) ==> (r matches Err(pe) && pe.0
            == ParseErrorType::LoopBreak && pe.1 == toks@[0].1),
        (toks@.len() > 0 && (toks@[0].0 is Let || toks@[0].0 is Const || toks@[0].0 is For) && (
        toks@.len() == 1 || !(toks@[1].0 is Identifier))) ==> (r matches Err(pe) && pe.0
            == ParseErrorType::VariableExpected && pe.1 == (if toks@.len() > 1 {
            toks@[1].1
        } else {
            Position::Eof
        })),
        (toks@.len() > 1 && toks@[0].0 is For && toks@[1].0 is Identifier && (toks@.len() == 2
            || !(toks@[2].0 is In))) ==> (r matches Err(pe) && pe.0 == ParseErrorType::MissingIn),
        (toks@.len() > 0 && toks@[0].0 is Fn && (toks@.len() == 1 || !(toks@[1].0
            is Identifier))) ==> (r matches Err(pe) && pe.0 == ParseErrorType::FnMissingName),
        (toks@.len() > 0 && toks@[0].0 is Fn && dup_param_prefix(toks@, 0)) ==> (r matches Err(
            pe,
        ) && pe.0 matches ParseErrorType::FnDuplicateParam(a, b) && a@ == ident_text(toks@[1].0)
            && b@ == ident_text(toks@[5].0) && pe.1 == toks@[5].1),
        const_then_assign_prefix(toks@) ==> (r matches Err(pe) && pe.0 matches
            ParseErrorType::AssignmentToConstant(m) && m@ == ident_text(toks@[5].0) && pe.1
            == toks@[6].1),
        open_paren_at(toks@, 0) ==> (r matches Err(pe) && pe.0 matches
            ParseErrorType::MissingRightParen(m) && m@ == "expression"@ && pe.1 == Position::Eof),
        let_then_binary_prefix(toks@) ==> (r matches Ok(p) && p.statements@.len() == 2
            && p.statements@[0] is Let && p.statements@[1] is ExprStmt && p.functions@.len()
            == 0),
        (toks@.len() == 1 && is_atom(toks@[0].0)) ==> (r matches Ok(p) && p.statements@.len()
            == 1 && p.statements@[0] is ExprStmt && p.functions@.len() == 0),
{
    let n = toks.len();
    let mut stmts: Vec<Stmt> = Vec::new();
    let mut fns: Vec<FnDef> = Vec::new();
    let mut scope: Vec<(String, bool)> = Vec::new();
    let mut i: usize = 0;
    while i < n
        invariant
            i <= n,
            n == toks@.len(),
            i == 0 ==> stmts@.len() == 0 && fns@.len() == 0,
            i > 0 ==> !(toks@[0].0 is Break),
            i > 0 ==> !((toks@[0].0 is Let || toks@[0].0 is Const || toks@[0].0 is For) && (n
                == 1 || !(toks@[1].0 is Identifier))),
            i > 0 ==> !(n > 1 && toks@[0].0 is For && toks@[1].0 is Identifier && (n == 2 || !(
            toks@[2].0 is In))),
            i > 0 ==> !(toks@[0].0 is Fn && (n == 1 || !(toks@[1].0 is Identifier))),
            i > 0 ==> !(toks@[0].0 is Fn && dup_param_prefix(toks@, 0)),
            i > 0 ==> !open_paren_at(toks@, 0),
            (n == 1 && is_atom(toks@[0].0)) ==> ((i == 0 && stmts@.len() == 0 && fns@.len()
                == 0) || (i == 1 && stmts@.len() == 1 && stmts@[0] is ExprStmt && fns@.len()
                == 0)),
            let_then_binary_prefix(toks@) ==> ((i == 0 && stmts@.len() == 0 && fns@.len() == 0)
                || (i == 5 && stmts@.len() == 1 && stmts@[0] is Let && fns@.len() == 0) || (i
                == 8 && stmts@.len() == 2 && stmts@[0] is Let && stmts@[1] is ExprStmt
                && fns@.len() == 0)),
            const_then_assign_prefix(toks@) ==> ((i == 0 && scope@.len() == 0) || (i == 5
                && scope@.len() == 1 && scope@[0].1 == true && scope@[0].0@ == ident_text(
                toks@[1].0,
            ))),
            forall|k: int| 0 <= k < stmts@.len() ==> stmt_wf(#[trigger] stmts@[k], false),
            forall|k: int| 0 <= k < fns@.len() ==> fn_wf(#[trigger] fns@[k]),
        decreases n - i,
    {
        if at_fn_keyword(toks, i) {
            match parse_fn_def(toks, i) {
                Ok((f, j)) => {
                    push_wf_fn(&mut fns, f);
                    i = j;
                },
                Err(e) => {
                    return Err(e);
                },
            }
        } else {
            match parse_stmt(toks, i, &mut scope, false) {
                Ok((s, j)) => {
                    push_wf_stmt(&mut stmts, s, false);
                    i = j;
                },
                Err(e) => {
                    return Err(e);
                },
            }
        }
    }
    Ok(Program { statements: stmts, functions: fns })
}

/// The whole front end on a character buffer: lex, then parse. A lexical
/// error is wrapped as `ParseErrorType::BadInput` carrying its rendered
/// message, at the position where lexing failed.
pub fn compile_chars(chars: &Vec<char>) -> (r: Result<Program, ParseError>)
    requires
        chars@.len() < 0xFFFF_0000,
    ensures
        r matches Ok(p) ==> program_wf(p),
        (forall|t: int| 0 <= t < chars@.len() ==> crate::lexer::is_space(
            #[trigger] chars@[t],
        )) ==> (r matches Ok(p) && p.statements@.len() == 0 && p.functions@.len() == 0),
{
    match crate::lexer::lex(chars) {
        Ok(toks) => parse(&toks),
        Err((le, pos)) => Err(ParseErrorType::BadInput(le.message()).into_err(pos)),
    }
}

/// The whole front end on a string slice.
pub fn compile_str(script: &str) -> (r: Result<Program, ParseError>)
    requires
        script@.len() < 0xFFFF_0000,
    ensures
        r matches Ok(p) ==> program_wf(p),
        (forall|t: int| 0 <= t < script@.len() ==> crate::lexer::is_space(
            #[trigger] script@[t],
        )) ==> (r matches Ok(p) && p.statements@.len() == 0 && p.functions@.len() == 0),
{
    let n = script.unicode_len();
    let mut chars: Vec<char> = Vec::new();
    let mut k: usize = 0;
    while k < n
        invariant
            k <= n,
            n == script@.len(),
            chars@ == script@.subrange(0, k as int),
        decreases n - k,
    {
        chars.push(script.get_char(k));
        proof {
            assert(script@.subrange(0, k as int).push(script@[k as int]) =~= script@.subrange(
                0,
                k + 1 as int,
            ));
        }
        k += 1;
    }
    proof {
        assert(script@.subrange(0, n as int) =~= script@);
    }
    compile_chars(&chars)
}

} // verus!
