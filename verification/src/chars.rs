//! Conversions between strings, character vectors and numbers.
//!
//! The wire format is parsed character by character, so bodies arrive
//! here as `Vec<char>`, parsed text is assembled back into `String`,
//! and identifiers are written out in decimal.

use vstd::prelude::*;

verus! {

/// Relies on String::push: appends the given character to the end of
/// the string.
#[verifier::external_body]
fn push_char(s: &mut String, c: char)
    ensures
        final (s)@ == old(s)@.push(c),
{
    s.push(c)
}

/// Relies on char::from_u32: the result is Some exactly when the value
/// is a Unicode scalar value (neither a surrogate nor above 0x10FFFF),
/// and then holds the character with that value.
#[verifier::external_body]
pub(crate) fn char_from_u32(v: u32) -> (r: Option<char>)
    ensures
        r is Some <==> (v < 0xD800 || (0xE000 <= v && v <= 0x10FFFF)),
        r matches Some(c) ==> c as u32 == v,
{
    char::from_u32(v)
}

/// Collects the characters of a string slice into a vector.
pub fn str_to_chars(s: &str) -> (r: Vec<char>)
    ensures
        r@ == s@,
{
    let n = s.unicode_len();
    let mut r: Vec<char> = Vec::new();
    let mut i: usize = 0;
    while i < n
        invariant
            n == s@.len(),
            i <= n,
            r@ == s@.subrange(0, i as int),
        decreases n - i,
    {
        r.push(s.get_char(i));
        i += 1;
        proof {
            assert(r@ =~= s@.subrange(0, i as int));
        }
    }
    proof {
        assert(r@ =~= s@);
    }
    r
}

/// Assembles a string from a vector of characters.
pub fn chars_to_string(v: &Vec<char>) -> (r: String)
    ensures
        r@ == v@,
{
    let mut r = String::new();
    let mut i: usize = 0;
    while i < v.len()
        invariant
            i <= v@.len(),
            r@ == v@.subrange(0, i as int),
        decreases v@.len() - i,
    {
        push_char(&mut r, v[i]);
        i += 1;
        proof {
            assert(r@ =~= v@.subrange(0, i as int));
        }
    }
    proof {
        assert(r@ =~= v@);
    }
    r
}

/// Compares a vector of characters against a string slice.
pub fn chars_eq_str(v: &Vec<char>, s: &str) -> (r: bool)
    ensures
        r == (v@ == s@),
{
    let n = s.unicode_len();
    if v.len() != n {
        proof {
            assert(v@ != s@);
        }
        return false;
    }
    let mut i: usize = 0;
    while i < n
        invariant
            n == s@.len(),
            v@.len() == n,
            i <= n,
            forall|k: int| 0 <= k < i ==> v@[k] == s@[k],
        decreases n - i,
    {
        if v[i] != s.get_char(i) {
            proof {
                assert(v@ != s@);
            }
            return false;
        }
        i += 1;
    }
    proof {
        assert(v@ =~= s@);
    }
    true
}

/// The character of a decimal digit.
pub open spec fn digit_char(v: int) -> char {
    (('0' as int) + v) as char
}

/// The decimal digits of a non-negative number, most significant
/// first.
pub open spec fn dec_digits(n: int) -> Seq<char>
    decreases n,
{
    if n < 10 {
        seq![digit_char(n)]
    } else {
        dec_digits(n / 10).push(digit_char(n % 10))
    }
}

/// The decimal notation of a 32-bit integer, a leading minus sign
/// included.
pub open spec fn dec_i32(n: int) -> Seq<char> {
    if n < 0 {
        seq!['-'] + dec_digits(-n)
    } else {
        dec_digits(n)
    }
}

fn digit_char_x(v: u32) -> (r: char)
    requires
        v < 10,
    ensures
        r == digit_char(v as int),
{
    match v {
        0 => '0',
        1 => '1',
        2 => '2',
        3 => '3',
        4 => '4',
        5 => '5',
        6 => '6',
        7 => '7',
        8 => '8',
        _ => '9',
    }
}

fn dec_digits_x(m: u32) -> (r: Vec<char>)
    ensures
        r@ == dec_digits(m as int),
    decreases m,
{
    if m < 10 {
        let mut v: Vec<char> = Vec::new();
        v.push(digit_char_x(m));
        proof {
            assert(v@ =~= seq![digit_char(m as int)]);
        }
        v
    } else {
        let mut v = dec_digits_x(m / 10);
        v.push(digit_char_x(m % 10));
        proof {
            assert((m / 10) as int == m as int / 10);
            assert((m % 10) as int == m as int % 10);
        }
        v
    }
}

/// Writes a 32-bit integer in decimal notation.
pub fn fmt_i32(n: i32) -> (r: String)
    ensures
        r@ == dec_i32(n as int),
{
    if n < 0 {
        let m: u32 = if n == -0x8000_0000i32 {
            0x8000_0000u32
        } else {
            (-n) as u32
        };
        proof {
            assert(m as int == -(n as int));
        }
        let digits = dec_digits_x(m);
        let ds = chars_to_string(&digits);
        let r = String::from_str("-").concat(ds.as_str());
        proof {
            reveal_strlit("-");
            assert("-"@ =~= seq!['-']);
        }
        r
    } else {
        let digits = dec_digits_x(n as u32);
        chars_to_string(&digits)
    }
}

} // verus!
