//! The lexer: consumes script text and produces the sequence of tokens, each
//! paired with the position where it starts, or fails with a lexical error at
//! the position of the offending text.

use vstd::prelude::*;

use crate::error::LexError;
use crate::position::Position;
use crate::render::{char_string, str_eq, string_of_chars};
use crate::token::Token;

verus! {

/// A whitespace character: blank, tab, carriage return or newline.
pub open spec fn is_space(c: char) -> bool {
    c == ' ' || c == '\t' || c == '\r' || c == '\n'
}

/// A decimal digit.
pub open spec fn is_digit(c: char) -> bool {
    48 <= c as u32 && c as u32 <= 57
}

/// A decimal digit or the `_` grouping separator.
pub open spec fn is_digit_or_sep(c: char) -> bool {
    is_digit(c) || c == '_'
}

/// An ASCII letter.
pub open spec fn is_letter(c: char) -> bool {
    (97 <= c as u32 && c as u32 <= 122) || (65 <= c as u32 && c as u32 <= 90)
}

/// A character that may start an identifier.
pub open spec fn is_ident_start(c: char) -> bool {
    is_letter(c) || c == '_'
}

/// A character that may continue an identifier.
pub open spec fn is_ident_char(c: char) -> bool {
    is_ident_start(c) || is_digit(c)
}

/// A character that continues a numeric lexeme once one has started. Letters
/// are swallowed here on purpose: `12ab` is one malformed number, not a
/// number followed by an identifier.
pub open spec fn is_number_char(c: char) -> bool {
    is_digit(c) || is_letter(c) || c == '.' || c == '_'
}

/// A hexadecimal digit.
pub open spec fn is_hex_digit(c: char) -> bool {
    is_digit(c) || (97 <= c as u32 && c as u32 <= 102) || (65 <= c as u32 && c as u32 <= 70)
}

/// A plain integer lexeme: digits with optional `_` separators.
pub open spec fn digits_sep(s: Seq<char>) -> bool {
    &&& s.len() > 0
    &&& is_digit(s[0])
    &&& forall|j: int| 0 <= j < s.len() ==> is_digit_or_sep(#[trigger] s[j])
}

/// A float lexeme splits at index `k`: a `.` with a valid digit run on each
/// side.
pub open spec fn float_split_at(s: Seq<char>, k: int) -> bool {
    &&& 0 < k < s.len()
    &&& s[k] == '.'
    &&& digits_sep(s.subrange(0, k))
    &&& digits_sep(s.subrange(k + 1, s.len() as int))
}

/// A float lexeme: digits, one dot, digits.
pub open spec fn is_float(s: Seq<char>) -> bool {
    exists|k: int| float_split_at(s, k)
}

/// A radix-prefixed lexeme: `0x` followed by at least one hex digit, with
/// optional `_` separators after the first.
pub open spec fn is_hex(s: Seq<char>) -> bool {
    &&& s.len() > 2
    &&& s[0] == '0'
    &&& s[1] == 'x'
    &&& is_hex_digit(s[2])
    &&& forall|j: int| 2 <= j < s.len() ==> is_hex_digit(#[trigger] s[j]) || s[j] == '_'
}

/// A well-formed numeric lexeme. Any lexeme that starts with a digit and
/// fails this predicate is rejected as `LexError::MalformedNumber`.
pub open spec fn is_valid_number(s: Seq<char>) -> bool {
    digits_sep(s) || is_float(s) || is_hex(s)
}

fn is_digit_exec(c: char) -> (r: bool)
    ensures
        r == is_digit(c),
{
    let u = c as u32;
    48 <= u && u <= 57
}

fn is_letter_exec(c: char) -> (r: bool)
    ensures
        r == is_letter(c),
{
    let u = c as u32;
    (97 <= u && u <= 122) || (65 <= u && u <= 90)
}

fn is_ident_start_exec(c: char) -> (r: bool)
    ensures
        r == is_ident_start(c),
{
    is_letter_exec(c) || c == '_'
}

fn is_ident_char_exec(c: char) -> (r: bool)
    ensures
        r == is_ident_char(c),
{
    is_ident_start_exec(c) || is_digit_exec(c)
}

fn is_number_char_exec(c: char) -> (r: bool)
    ensures
        r == is_number_char(c),
{
    is_digit_exec(c) || is_letter_exec(c) || c == '.' || c == '_'
}

fn is_hex_digit_exec(c: char) -> (r: bool)
    ensures
        r == is_hex_digit(c),
{
    let u = c as u32;
    is_digit_exec(c) || (97 <= u && u <= 102) || (65 <= u && u <= 70)
}

/// A lexeme that starts `0x` can only be valid through the hex rule.
proof fn lemma_hex_prefix(s: Seq<char>)
    requires
        s.len() >= 2,
        s[0] == '0',
        s[1] == 'x',
    ensures
        !digits_sep(s),
        !is_float(s),
{
    assert(!is_digit_or_sep('x'));
    if digits_sep(s) {
        assert(is_digit_or_sep(s[1]));
    }
    if is_float(s) {
        let k = choose|k: int| float_split_at(s, k);
        if k == 1 {
            assert(s[1] == '.');
        } else {
            assert(k > 1);
            assert(s.subrange(0, k)[1] == s[1]);
            assert(is_digit_or_sep(s[1]));
        }
    }
}

/// A position `b` that holds neither a digit, a separator, nor a dot rules
/// out the plain and float readings.
proof fn lemma_bad_char(s: Seq<char>, b: int)
    requires
        0 <= b < s.len(),
        !is_digit_or_sep(s[b]),
        s[b] != '.',
    ensures
        !digits_sep(s),
        !is_float(s),
{
    if digits_sep(s) {
        assert(is_digit_or_sep(s[b]));
    }
    if is_float(s) {
        let m = choose|m: int| float_split_at(s, m);
        if b == m {
            assert(s[m] == '.');
        } else if b < m {
            assert(s.subrange(0, m)[b] == s[b]);
            assert(is_digit_or_sep(s[b]));
        } else {
            assert(s.subrange(m + 1, s.len() as int)[b - m - 1] == s[b]);
            assert(is_digit_or_sep(s[b]));
        }
    }
}

/// A float lexeme with a dot at `k` can only split at `k`: any other split
/// point would put the dot inside one of the two digit runs.
proof fn lemma_dot_split_unique(s: Seq<char>, k: int)
    requires
        0 <= k < s.len(),
        s[k] == '.',
        is_float(s),
    ensures
        float_split_at(s, k),
{
    assert(!is_digit_or_sep('.'));
    let m = choose|m: int| float_split_at(s, m);
    if m != k {
        if m < k {
            assert(s.subrange(m + 1, s.len() as int)[k - m - 1] == s[k]);
            assert(is_digit_or_sep(s[k]));
        } else {
            assert(s.subrange(0, m)[k] == s[k]);
            assert(is_digit_or_sep(s[k]));
        }
    }
}

/// Check a scanned numeric lexeme against the validity rules.
fn check_number(v: &Vec<char>) -> (r: bool)
    requires
        v@.len() > 0,
        is_digit(v@[0]),
    ensures
        r == is_valid_number(v@),
{
    let n = v.len();
    if n >= 2 && v[0] == '0' && v[1] == 'x' {
        proof {
            lemma_hex_prefix(v@);
        }
        if n == 2 {
            return false;
        }
        if !is_hex_digit_exec(v[2]) {
            return false;
        }
        let mut j: usize = 3;
        while j < n
            invariant
                3 <= j <= n,
                n == v@.len(),
                n > 2,
                v@[0] == '0',
                v@[1] == 'x',
                is_hex_digit(v@[2]),
                !digits_sep(v@),
                !is_float(v@),
                forall|t: int| 2 <= t < j ==> is_hex_digit(#[trigger] v@[t]) || v@[t] == '_',
            decreases n - j,
        {
            let c = v[j];
            if !(is_hex_digit_exec(c) || c == '_') {
                return false;
            }
            j += 1;
        }
        true
    } else {
        // No hex prefix, so the hex rule is out; look for the dot structure.
        let mut j: usize = 0;
        let mut dot: usize = n;
        while j < n
            invariant
                j <= n,
                n == v@.len(),
                n > 0,
                is_digit(v@[0]),
                dot <= n,
                dot < n ==> v@[dot as int] == '.' && dot < j,
                forall|t: int| 0 <= t < j && t != dot as int ==> is_digit_or_sep(#[trigger] v@[t]),
                !is_hex(v@),
            decreases n - j,
        {
            let c = v[j];
            if is_digit_exec(c) || c == '_' {
                j += 1;
            } else if c == '.' {
                if dot < n {
                    // A second dot: neither a plain run nor a single split.
                    proof {
                        assert(!is_digit_or_sep('.'));
                        if is_float(v@) {
                            lemma_dot_split_unique(v@, dot as int);
                            assert(v@.subrange(dot as int + 1, v@.len() as int)[j - dot - 1]
                                == v@[j as int]);
                        }
                        if digits_sep(v@) {
                            assert(is_digit_or_sep(v@[dot as int]));
                        }
                    }
                    return false;
                }
                dot = j;
                j += 1;
            } else {
                proof {
                    lemma_bad_char(v@, j as int);
                }
                return false;
            }
        }
        if dot == n {
            true
        } else {
            proof {
                assert(!is_digit_or_sep('.'));
                if digits_sep(v@) {
                    assert(is_digit_or_sep(v@[dot as int]));
                }
            }
            if dot + 1 == n {
                // Trailing dot: the fraction part would be empty.
                proof {
                    if is_float(v@) {
                        lemma_dot_split_unique(v@, dot as int);
                        assert(v@.subrange(dot as int + 1, v@.len() as int).len() == 0);
                    }
                }
                return false;
            }
            if !is_digit_exec(v[dot + 1]) {
                // The fraction part must open with a digit, not a separator.
                proof {
                    if is_float(v@) {
                        lemma_dot_split_unique(v@, dot as int);
                        assert(v@.subrange(dot as int + 1, v@.len() as int)[0] == v@[dot + 1]);
                    }
                }
                return false;
            }
            proof {
                assert(v@.subrange(0, dot as int)[0] == v@[0]);
                assert forall|t: int| 0 <= t < dot implies is_digit_or_sep(
                    #[trigger] v@.subrange(0, dot as int)[t],
                ) by {
                    assert(v@.subrange(0, dot as int)[t] == v@[t]);
                }
                let frac = v@.subrange(dot as int + 1, v@.len() as int);
                assert(frac[0] == v@[dot + 1]);
                assert forall|t: int| 0 <= t < frac.len() implies is_digit_or_sep(
                    #[trigger] frac[t],
                ) by {
                    assert(frac[t] == v@[dot + 1 + t]);
                }
                assert(float_split_at(v@, dot as int));
            }
            true
        }
    }
}

/// Scan a numeric lexeme starting at `i` and classify it.
fn scan_number(chars: &Vec<char>, i: usize) -> (r: (Result<String, LexError>, usize))
    requires
        i < chars@.len(),
        is_digit(chars@[i as int]),
    ensures
        i < r.1 <= chars@.len(),
        r.0 matches Ok(s) ==> is_valid_number(s@),
        r.0 matches Err(e) ==> e matches LexError::MalformedNumber(s) && !is_valid_number(s@),
{
    let n = chars.len();
    let mut lexeme: Vec<char> = Vec::new();
    lexeme.push(chars[i]);
    let mut j = i + 1;
    while j < n && is_number_char_exec(chars[j])
        invariant
            i < j <= n,
            n == chars@.len(),
            lexeme@.len() > 0,
            is_digit(lexeme@[0]),
        decreases n - j,
    {
        lexeme.push(chars[j]);
        j += 1;
    }
    let valid = check_number(&lexeme);
    let s = string_of_chars(&lexeme);
    if valid {
        (Ok(s), j)
    } else {
        (Err(LexError::MalformedNumber(s)), j)
    }
}

/// The keyword token for a scanned word, if the word is a keyword.
pub open spec fn spec_keyword(s: Seq<char>) -> Option<Token> {
    if s == "let"@ {
        Some(Token::Let)
    } else if s == "const"@ {
        Some(Token::Const)
    } else if s == "if"@ {
        Some(Token::If)
    } else if s == "else"@ {
        Some(Token::Else)
    } else if s == "while"@ {
        Some(Token::While)
    } else if s == "loop"@ {
        Some(Token::Loop)
    } else if s == "for"@ {
        Some(Token::For)
    } else if s == "in"@ {
        Some(Token::In)
    } else if s == "break"@ {
        Some(Token::Break)
    } else if s == "return"@ {
        Some(Token::Return)
    } else if s == "fn"@ {
        Some(Token::Fn)
    } else if s == "import"@ {
        Some(Token::Import)
    } else if s == "true"@ {
        Some(Token::True)
    } else if s == "false"@ {
        Some(Token::False)
    } else {
        None
    }
}

/// Map a scanned word to its keyword token, or keep it as an identifier.
fn token_for_word(s: String) -> (t: Token)
    ensures
        match spec_keyword(s@) {
            Some(t0) => t == t0,
            None => t matches Token::Identifier(w) && w@ == s@,
        },
{
    if str_eq(s.as_str(), "let") {
        Token::Let
    } else if str_eq(s.as_str(), "const") {
        Token::Const
    } else if str_eq(s.as_str(), "if") {
        Token::If
    } else if str_eq(s.as_str(), "else") {
        Token::Else
    } else if str_eq(s.as_str(), "while") {
        Token::While
    } else if str_eq(s.as_str(), "loop") {
        Token::Loop
    } else if str_eq(s.as_str(), "for") {
        Token::For
    } else if str_eq(s.as_str(), "in") {
        Token::In
    } else if str_eq(s.as_str(), "break") {
        Token::Break
    } else if str_eq(s.as_str(), "return") {
        Token::Return
    } else if str_eq(s.as_str(), "fn") {
        Token::Fn
    } else if str_eq(s.as_str(), "import") {
        Token::Import
    } else if str_eq(s.as_str(), "true") {
        Token::True
    } else if str_eq(s.as_str(), "false") {
        Token::False
    } else {
        Token::Identifier(s)
    }
}

/// Scan an identifier or keyword starting at `i`. A word made only of
/// underscores is not a legal identifier.
fn scan_ident(chars: &Vec<char>, i: usize) -> (r: (Result<Token, LexError>, usize))
    requires
        i < chars@.len(),
        is_ident_start(chars@[i as int]),
    ensures
        i < r.1 <= chars@.len(),
        r.0 matches Err(e) ==> e is MalformedIdentifier,
        r.0 matches Ok(t) ==> t !is NumberConstant,
{
    let n = chars.len();
    let mut lexeme: Vec<char> = Vec::new();
    let mut has_alnum = chars[i] != '_';
    lexeme.push(chars[i]);
    let mut j = i + 1;
    while j < n && is_ident_char_exec(chars[j])
        invariant
            i < j <= n,
            n == chars@.len(),
        decreases n - j,
    {
        if chars[j] != '_' {
            has_alnum = true;
        }
        lexeme.push(chars[j]);
        j += 1;
    }
    if !has_alnum {
        return (Err(LexError::MalformedIdentifier(string_of_chars(&lexeme))), j);
    }
    (Ok(token_for_word(string_of_chars(&lexeme))), j)
}

/// The numeric value of a hexadecimal digit.
pub open spec fn hex_val(c: char) -> int {
    if 48 <= c as u32 && c as u32 <= 57 {
        c as u32 - 48
    } else if 97 <= c as u32 && c as u32 <= 102 {
        c as u32 - 97 + 10
    } else {
        c as u32 - 65 + 10
    }
}

fn hex_digit_val(c: char) -> (r: Option<u32>)
    ensures
        r is Some <==> is_hex_digit(c),
        r matches Some(v) ==> v as int == hex_val(c) && v < 16,
{
    let u = c as u32;
    if 48 <= u && u <= 57 {
        Some(u - 48)
    } else if 97 <= u && u <= 102 {
        Some(u - 97 + 10)
    } else if 65 <= u && u <= 70 {
        Some(u - 65 + 10)
    } else {
        None
    }
}

/// Sixteen to the `k`.
pub open spec fn pow16(k: nat) -> nat
    decreases k,
{
    if k == 0 {
        1
    } else {
        16 * pow16((k - 1) as nat)
    }
}

proof fn lemma_pow16_mono(a: nat, b: nat)
    requires
        a <= b,
    ensures
        1 <= pow16(a) <= pow16(b),
    decreases b,
{
    if b > 0 {
        if a == b {
            lemma_pow16_mono(0, (b - 1) as nat);
        } else {
            lemma_pow16_mono(a, (b - 1) as nat);
        }
    }
}

/// Relies on std's `char::from_u32`: it returns `Some` exactly on the valid
/// scalar values (not a surrogate, at most 0x10FFFF), and the returned
/// character has exactly the given value.
#[verifier::external_body]
fn char_from_u32(v: u32) -> (r: Option<char>)
    ensures
        r is Some <==> (v < 0xD800 || (0xE000 <= v && v <= 0x10FFFF)),
        r matches Some(c) ==> c as u32 == v,
{
    char::from_u32(v)
}

/// Decode one simple escape character (the character after the backslash).
fn decode_escape(e: char) -> (r: Result<char, LexError>)
    ensures
        r matches Err(le) ==> le is MalformedEscapeSequence,
{
    if e == 'n' {
        Ok('\n')
    } else if e == 't' {
        Ok('\t')
    } else if e == 'r' {
        Ok('\r')
    } else if e == '0' {
        Ok('\0')
    } else if e == '\\' {
        Ok('\\')
    } else if e == '"' {
        Ok('"')
    } else if e == '\'' {
        Ok('\'')
    } else {
        Err(LexError::MalformedEscapeSequence(char_string(e)))
    }
}

/// Scan the inside of a quoted literal starting at the opening quote `i`,
/// decoding escapes, until the closing quote. A new line or the end of input
/// before the closing quote is an unterminated literal.
fn scan_quoted(chars: &Vec<char>, i: usize, quote: char) -> (r: (Result<Vec<char>, LexError>,
    usize))
    requires
        i < chars@.len(),
        chars@.len() < 0xFFFF_0000,
    ensures
        i < r.1 <= chars@.len(),
        r.0 matches Err(e) ==> e is UnterminatedString || e is MalformedEscapeSequence,
{
    let n = chars.len();
    let mut content: Vec<char> = Vec::new();
    let mut j = i + 1;
    while j < n
        invariant
            i < j <= n,
            n == chars@.len(),
            n < 0xFFFF_0000,
        decreases n - j,
    {
        let c = chars[j];
        if c == quote {
            return (Ok(content), j + 1);
        }
        if c == '\n' {
            return (Err(LexError::UnterminatedString), j);
        }
        if c == '\\' {
            if j + 1 >= n {
                return (Err(LexError::UnterminatedString), n);
            }
            let e = chars[j + 1];
            if e == 'x' || e == 'u' || e == 'U' {
                // A numeric escape: 2, 4 or 8 hexadecimal digits naming a
                // scalar value.
                let nd: usize = if e == 'x' {
                    2
                } else if e == 'u' {
                    4
                } else {
                    8
                };
                let mut v: u32 = 0;
                let mut k: usize = 0;
                while k < nd
                    invariant
                        k <= nd,
                        nd <= 8,
                        i < j <= n,
                        n == chars@.len(),
                        n < 0xFFFF_0000,
                        k == 0 || j + 2 + k <= n,
                        (v as nat) < pow16(k as nat),
                    decreases nd - k,
                {
                    if j + 2 + k >= n {
                        return (Err(LexError::UnterminatedString), n);
                    }
                    match hex_digit_val(chars[j + 2 + k]) {
                        Some(d) => {
                            proof {
                                lemma_pow16_mono(k as nat + 1, 8);
                                assert(pow16(0) == 1);
                                assert(pow16(1) == 16);
                                assert(pow16(2) == 0x100);
                                assert(pow16(3) == 0x1000);
                                assert(pow16(4) == 0x1_0000);
                                assert(pow16(5) == 0x10_0000);
                                assert(pow16(6) == 0x100_0000);
                                assert(pow16(7) == 0x1000_0000);
                                assert(pow16(8) == 0x1_0000_0000nat);
                                assert(pow16(k as nat + 1) == 16 * pow16(k as nat));
                            }
                            v = v * 16 + d;
                        },
                        None => {
                            return (Err(LexError::MalformedEscapeSequence(char_string(e))), j);
                        },
                    }
                    k += 1;
                }
                match char_from_u32(v) {
                    Some(d) => {
                        content.push(d);
                    },
                    None => {
                        return (Err(LexError::MalformedEscapeSequence(char_string(e))), j);
                    },
                }
                j += 2 + nd;
            } else {
                match decode_escape(e) {
                    Ok(d) => {
                        content.push(d);
                    },
                    Err(le) => {
                        return (Err(le), j);
                    },
                }
                j += 2;
            }
        } else {
            content.push(c);
            j += 1;
        }
    }
    (Err(LexError::UnterminatedString), n)
}

/// What the lexer guarantees of every token it emits: the position is well
/// formed and a numeric constant carries a valid lexeme.
pub open spec fn tok_inv(e: (Token, Position)) -> bool {
    &&& e.1.wf()
    &&& (e.0 matches Token::NumberConstant(s) ==> is_valid_number(s@))
}

fn push_token(out: &mut Vec<(Token, Position)>, t: Token, p: Position)
    requires
        tok_inv((t, p)),
        forall|k: int| 0 <= k < old(out)@.len() ==> tok_inv(#[trigger] old(out)@[k]),
    ensures
        final(out)@ == old(out)@.push((t, p)),
        forall|k: int| 0 <= k < final(out)@.len() ==> tok_inv(#[trigger] final(out)@[k]),
{
    out.push((t, p));
    proof {
        assert forall|k: int| 0 <= k < out@.len() implies tok_inv(#[trigger] out@[k]) by {
            if k < out@.len() - 1 {
                assert(out@[k] == old(out)@[k]);
            } else {
                assert(out@[k] == (t, p));
            }
        }
    }
}

/// Round-trip law for rejected numbers: a lexeme that the lexer reported as
/// a malformed number (so it fails `is_valid_number`) is never carried by
/// any `NumberConstant` token of a successful run — no other lexing path
/// accepts it as a numeric token.
pub proof fn lemma_rejected_number_never_tokenized(
    toks: Seq<(Token, Position)>,
    rejected: Seq<char>,
    k: int,
)
    requires
        !is_valid_number(rejected),
        forall|t: int| 0 <= t < toks.len() ==> tok_inv(#[trigger] toks[t]),
        0 <= k < toks.len(),
    ensures
        toks[k].0 matches Token::NumberConstant(s) ==> s@ != rejected,
{
}

/// Tokenize a whole script. On success every token is paired with the
/// concrete position where it starts; on failure the lexical error is paired
/// with the position of the offending text. A lexeme reported as
/// `MalformedNumber` is never a valid numeric lexeme, and every
/// `NumberConstant` token carries a valid one.
pub fn lex(chars: &Vec<char>) -> (r: Result<Vec<(Token, Position)>, (LexError, Position)>)
    requires
        chars@.len() < 0xFFFF_0000,
    ensures
        r matches Ok(toks) ==> forall|k: int| 0 <= k < toks@.len() ==> tok_inv(
            #[trigger] toks@[k],
        ),
        r matches Err((e, p)) ==> p is At && p.wf() && (e matches LexError::MalformedNumber(s)
            ==> !is_valid_number(s@)),
        chars@.len() == 0 ==> (r matches Ok(toks) && toks@.len() == 0),
        (forall|t: int| 0 <= t < chars@.len() ==> is_space(#[trigger] chars@[t])) ==> (r matches
            Ok(toks) && toks@.len() == 0),
{
    let n = chars.len();
    let mut out: Vec<(Token, Position)> = Vec::new();
    let mut i: usize = 0;
    let mut line: u32 = 1;
    let mut col: u32 = 1;
    while i < n
        invariant
            i <= n,
            n == chars@.len(),
            n < 0xFFFF_0000,
            i == 0 ==> out@.len() == 0,
            (forall|t: int| 0 <= t < n ==> is_space(#[trigger] chars@[t])) ==> out@.len() == 0,
            1 <= line,
            line as nat <= 1 + i as nat,
            1 <= col,
            col as nat <= 1 + i as nat,
            forall|k: int| 0 <= k < out@.len() ==> tok_inv(#[trigger] out@[k]),
        decreases n - i,
    {
        let c = chars[i];
        if c == '\n' {
            line += 1;
            col = 1;
            i += 1;
        } else if c == ' ' || c == '\t' || c == '\r' {
            col += 1;
            i += 1;
        } else if c == '/' && i + 1 < n && chars[i + 1] == '/' {
            // Line comment: skip to the end of the line.
            let mut j = i + 2;
            while j < n && chars[j] != '\n'
                invariant
                    i < j <= n,
                    n == chars@.len(),
                decreases n - j,
            {
                j += 1;
            }
            i = j;
        } else if c == '/' && i + 1 < n && chars[i + 1] == '*' {
            // Block comment, possibly nested: track the depth.
            let mut j = i + 2;
            let mut depth: usize = 1;
            col += 2;
            while j < n && depth > 0
                invariant
                    i < j <= n,
                    n == chars@.len(),
                    n < 0xFFFF_0000,
                    depth <= j,
                    1 <= line,
                    line as nat <= 1 + j as nat,
                    1 <= col,
                    col as nat <= 1 + j as nat,
                decreases n - j,
            {
                if chars[j] == '\n' {
                    line += 1;
                    col = 1;
                    j += 1;
                } else if chars[j] == '/' && j + 1 < n && chars[j + 1] == '*' {
                    depth += 1;
                    col += 2;
                    j += 2;
                } else if chars[j] == '*' && j + 1 < n && chars[j + 1] == '/' {
                    depth -= 1;
                    col += 2;
                    j += 2;
                } else {
                    col += 1;
                    j += 1;
                }
            }
            i = j;
        } else if is_digit_exec(c) {
            let pos = Position::new(line, col);
            let (res, j) = scan_number(chars, i);
            match res {
                Ok(s) => {
                    push_token(&mut out, Token::NumberConstant(s), pos);
                },
                Err(e) => {
                    return Err((e, pos));
                },
            }
            col += (j - i) as u32;
            i = j;
        } else if is_ident_start_exec(c) {
            let pos = Position::new(line, col);
            let (res, j) = scan_ident(chars, i);
            match res {
                Ok(t) => {
                    push_token(&mut out, t, pos);
                },
                Err(e) => {
                    return Err((e, pos));
                },
            }
            col += (j - i) as u32;
            i = j;
        } else if c == '"' {
            let pos = Position::new(line, col);
            let (res, j) = scan_quoted(chars, i, '"');
            match res {
                Ok(content) => {
                    push_token(&mut out, Token::StringConstant(string_of_chars(&content)), pos);
                },
                Err(e) => {
                    // The error offset names the failure point inside the
                    // literal; a literal holds no newline, so only the
                    // column moves.
                    return Err((e, Position::new(line, col + ((j - i) as u32))));
                },
            }
            col += (j - i) as u32;
            i = j;
        } else if c == '\'' {
            let pos = Position::new(line, col);
            let (res, j) = scan_quoted(chars, i, '\'');
            match res {
                Ok(content) => {
                    if content.len() == 1 {
                        push_token(&mut out, Token::CharConstant(content[0]), pos);
                    } else {
                        return Err((LexError::MalformedChar(string_of_chars(&content)), pos));
                    }
                },
                Err(e) => {
                    return Err((e, Position::new(line, col + ((j - i) as u32))));
                },
            }
            col += (j - i) as u32;
            i = j;
        } else {
            let pos = Position::new(line, col);
            let two = i + 1 < n;
            let (tok, width): (Token, usize) = if c == '(' {
                (Token::LeftParen, 1)
            } else if c == ')' {
                (Token::RightParen, 1)
            } else if c == '{' {
                (Token::LeftBrace, 1)
            } else if c == '}' {
                (Token::RightBrace, 1)
            } else if c == '[' {
                (Token::LeftBracket, 1)
            } else if c == ']' {
                (Token::RightBracket, 1)
            } else if c == ',' {
                (Token::Comma, 1)
            } else if c == ';' {
                (Token::SemiColon, 1)
            } else if c == '+' {
                (Token::Plus, 1)
            } else if c == '-' {
                (Token::Minus, 1)
            } else if c == '*' {
                (Token::Star, 1)
            } else if c == '/' {
                (Token::Slash, 1)
            } else if c == '%' {
                (Token::Percent, 1)
            } else if c == '^' {
                (Token::Caret, 1)
            } else if c == '=' && two && chars[i + 1] == '=' {
                (Token::EqualsTo, 2)
            } else if c == '=' {
                (Token::Equals, 1)
            } else if c == '!' && two && chars[i + 1] == '=' {
                (Token::NotEqualsTo, 2)
            } else if c == '!' {
                (Token::Bang, 1)
            } else if c == '<' && two && chars[i + 1] == '=' {
                (Token::LessThanEqual, 2)
            } else if c == '<' {
                (Token::LessThan, 1)
            } else if c == '>' && two && chars[i + 1] == '=' {
                (Token::GreaterThanEqual, 2)
            } else if c == '>' {
                (Token::GreaterThan, 1)
            } else if c == '&' && two && chars[i + 1] == '&' {
                (Token::AndAnd, 2)
            } else if c == '&' {
                (Token::Ampersand, 1)
            } else if c == '|' && two && chars[i + 1] == '|' {
                (Token::OrOr, 2)
            } else if c == '|' {
                (Token::Pipe, 1)
            } else {
                return Err((LexError::UnexpectedChar(c), pos));
            };
            push_token(&mut out, tok, pos);
            col += width as u32;
            i += width;
        }
    }
    Ok(out)
}

} // verus!
