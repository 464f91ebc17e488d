//! Small helpers for building diagnostic strings.

use vstd::prelude::*;
use vstd::string::StrSliceExecFns;

verus! {

/// The character for a single decimal digit.
pub open spec fn digit_char(d: int) -> char
    recommends
        0 <= d <= 9,
{
    ((d + 48) as u8) as char
}

/// The decimal rendering of a natural number, most significant digit first.
pub open spec fn dec_digits(n: nat) -> Seq<char>
    decreases n,
{
    if n < 10 {
        seq![digit_char(n as int)]
    } else {
        dec_digits(n / 10) + seq![digit_char((n % 10) as int)]
    }
}

/// Relies on `String::push`: appends exactly the given character.
#[verifier::external_body]
pub(crate) fn push_char(s: &mut String, c: char)
    ensures
        final(s)@ == old(s)@ + seq![c],
{
    s.push(c);
}

fn digit_of(d: u32) -> (c: char)
    requires
        d <= 9,
    ensures
        c == digit_char(d as int),
{
    (48u8 + d as u8) as char
}

/// Render a `u32` in decimal.
pub fn u32_to_string(n: u32) -> (r: String)
    ensures
        r@ == dec_digits(n as nat),
    decreases n,
{
    if n < 10 {
        let mut s = String::new();
        push_char(&mut s, digit_of(n));
        proof {
            assert(s@ =~= dec_digits(n as nat));
        }
        s
    } else {
        let mut s = u32_to_string(n / 10);
        push_char(&mut s, digit_of(n % 10));
        proof {
            assert(s@ =~= dec_digits(n as nat));
        }
        s
    }
}

/// Build a `String` out of a vector of characters.
pub fn string_of_chars(v: &Vec<char>) -> (r: String)
    ensures
        r@ == v@,
{
    let mut s = String::new();
    let mut k: usize = 0;
    while k < v.len()
        invariant
            k <= v@.len(),
            s@ == v@.subrange(0, k as int),
        decreases v@.len() - k,
    {
        push_char(&mut s, v[k]);
        proof {
            assert(v@.subrange(0, k as int) + seq![v@[k as int]] =~= v@.subrange(0, k + 1 as int));
        }
        k += 1;
    }
    proof {
        assert(v@.subrange(0, v@.len() as int) =~= v@);
    }
    s
}

/// Build a one-character `String`.
pub fn char_string(c: char) -> (r: String)
    ensures
        r@ == seq![c],
{
    let mut s = String::new();
    push_char(&mut s, c);
    proof {
        assert(s@ =~= seq![c]);
    }
    s
}

/// Compare two string slices character by character.
pub fn str_eq(a: &str, b: &str) -> (r: bool)
    ensures
        r == (a@ == b@),
{
    let n = a.unicode_len();
    let m = b.unicode_len();
    if n != m {
        proof {
            if a@ == b@ {
                assert(a@.len() == b@.len());
            }
        }
        return false;
    }
    let mut k: usize = 0;
    while k < n
        invariant
            k <= n,
            n == a@.len(),
            n == b@.len(),
            forall|t: int| 0 <= t < k ==> a@[t] == b@[t],
        decreases n - k,
    {
        if a.get_char(k) != b.get_char(k) {
            proof {
                if a@ == b@ {
                    assert(a@[k as int] == b@[k as int]);
                }
            }
            return false;
        }
        k += 1;
    }
    proof {
        assert(a@ =~= b@);
    }
    true
}

} // verus!
