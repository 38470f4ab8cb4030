//! The JSON subset the service speaks, as a grammar over characters.
//!
//! The specification functions here define, position by position, what
//! a well-formed piece of a body is and what it denotes; the executable
//! functions are proved to return exactly what the grammar says. Bodies
//! hold objects, arrays, strings with escapes, integers, and the three
//! literals; numbers with a fraction or an exponent are recognised when
//! they are skipped over, while the typed fields of the wire shapes
//! only ever hold integers. The range tests inside the recursive
//! definitions only bound the recursion for the termination check; the
//! lemmas beside them show a parse never trips one.

use vstd::prelude::*;

verus! {

/// The whitespace characters JSON allows between tokens.
pub open spec fn is_ws(c: char) -> bool {
    c == ' ' || c == '\t' || c == '\n' || c == '\r'
}

/// A decimal digit.
pub open spec fn is_digit(c: char) -> bool {
    '0' <= c && c <= '9'
}

/// A hexadecimal digit, as a unicode escape uses.
pub open spec fn is_hex(c: char) -> bool {
    is_digit(c) || ('a' <= c && c <= 'f') || ('A' <= c && c <= 'F')
}

/// The value of a hexadecimal digit.
pub open spec fn hex_val(c: char) -> int {
    if is_digit(c) {
        c as int - '0' as int
    } else if 'a' <= c && c <= 'f' {
        10 + c as int - 'a' as int
    } else {
        10 + c as int - 'A' as int
    }
}

/// The first position at or after `i` that does not hold whitespace.
pub open spec fn skip_ws(s: Seq<char>, i: int) -> int
    decreases s.len() - i,
{
    if 0 <= i < s.len() && is_ws(s[i]) {
        skip_ws(s, i + 1)
    } else {
        i
    }
}

/// What a character denotes after a backslash, for the single-letter
/// escapes.
pub open spec fn simple_escape(c: char) -> Option<char> {
    if c == '"' {
        Some('"')
    } else if c == '\\' {
        Some('\\')
    } else if c == '/' {
        Some('/')
    } else if c == 'b' {
        Some('\u{0008}')
    } else if c == 'f' {
        Some('\u{000C}')
    } else if c == 'n' {
        Some('\n')
    } else if c == 'r' {
        Some('\r')
    } else if c == 't' {
        Some('\t')
    } else {
        None
    }
}

/// Prepends a character to the content of a partial string parse.
pub open spec fn str_cons(c: char, rest: Option<(Seq<char>, int)>) -> Option<(Seq<char>, int)> {
    match rest {
        Some((t, j)) => Some((seq![c] + t, j)),
        None => None,
    }
}

/// The rest of a string once the opening quote is behind `i`: its
/// content with escapes decoded, and the position after the closing
/// quote. Unescaped control characters, bad escapes and escaped
/// surrogate code points are rejected.
pub open spec fn sp_string_rest(s: Seq<char>, i: int) -> Option<(Seq<char>, int)>
    decreases s.len() - i,
{
    if !(0 <= i < s.len()) {
        None
    } else {
        let c = s[i];
        if c == '"' {
            Some((Seq::empty(), i + 1))
        } else if c == '\\' {
            if i + 2 > s.len() {
                None
            } else {
                let e = s[i + 1];
                match simple_escape(e) {
                    Some(d) => str_cons(d, sp_string_rest(s, i + 2)),
                    None => if e == 'u' {
                        if i + 6 <= s.len() && is_hex(s[i + 2]) && is_hex(s[i + 3]) && is_hex(
                            s[i + 4],
                        ) && is_hex(s[i + 5]) {
                            let v = hex_val(s[i + 2]) * 4096 + hex_val(s[i + 3]) * 256 + hex_val(
                                s[i + 4],
                            ) * 16 + hex_val(s[i + 5]);
                            if v < 0xD800 || v >= 0xE000 {
                                str_cons(v as char, sp_string_rest(s, i + 6))
                            } else {
                                None
                            }
                        } else {
                            None
                        }
                    } else {
                        None
                    },
                }
            }
        } else if (c as u32) < 32 {
            None
        } else {
            str_cons(c, sp_string_rest(s, i + 1))
        }
    }
}

pub proof fn lemma_sp_string_rest(s: Seq<char>, i: int)
    ensures
        sp_string_rest(s, i) matches Some(r) ==> i < r.1 <= s.len(),
    decreases s.len() - i,
{
    if 0 <= i < s.len() {
        let c = s[i];
        if c == '\\' && i + 2 <= s.len() {
            lemma_sp_string_rest(s, i + 2);
            if i + 6 <= s.len() {
                lemma_sp_string_rest(s, i + 6);
            }
        } else {
            lemma_sp_string_rest(s, i + 1);
        }
    }
}

/// The end of the run of digits that starts at `i`.
pub open spec fn sp_digits(s: Seq<char>, i: int) -> int
    decreases s.len() - i,
{
    if 0 <= i < s.len() && is_digit(s[i]) {
        sp_digits(s, i + 1)
    } else {
        i
    }
}

pub proof fn lemma_sp_digits(s: Seq<char>, i: int)
    requires
        0 <= i <= s.len(),
    ensures
        i <= sp_digits(s, i) <= s.len(),
        forall|k: int| i <= k < sp_digits(s, i) ==> is_digit(s[k]),
        sp_digits(s, i) < s.len() ==> !is_digit(s[sp_digits(s, i)]),
    decreases s.len() - i,
{
    if i < s.len() && is_digit(s[i]) {
        lemma_sp_digits(s, i + 1);
    }
}

/// The value of the digits in `s[i..j)`.
pub open spec fn digits_val(s: Seq<char>, i: int, j: int) -> int
    decreases j - i,
{
    if i >= j {
        0
    } else {
        digits_val(s, i, j - 1) * 10 + (s[j - 1] as int - '0' as int)
    }
}

/// Ten to the power `n`.
pub open spec fn pow10(n: int) -> int
    decreases n,
{
    if n <= 0 {
        1
    } else {
        10 * pow10(n - 1)
    }
}

pub proof fn lemma_digits_val_bounds(s: Seq<char>, i: int, j: int)
    requires
        i <= j,
        forall|k: int| i <= k < j ==> is_digit(s[k]),
    ensures
        0 <= digits_val(s, i, j) < pow10(j - i),
        i < j && s[i] != '0' ==> digits_val(s, i, j) >= pow10(j - i - 1),
    decreases j - i,
{
    if i < j {
        lemma_digits_val_bounds(s, i, j - 1);
    }
}

/// Where a number that starts at `i` ends, fraction and exponent
/// included; `None` where the text is not a number. A leading zero is
/// only the number zero itself.
pub open spec fn sp_number_end(s: Seq<char>, i: int) -> Option<int> {
    let k = if 0 <= i < s.len() && s[i] == '-' {
        i + 1
    } else {
        i
    };
    if 0 <= k < s.len() && is_digit(s[k]) {
        let m = sp_digits(s, k);
        if s[k] == '0' && m > k + 1 {
            None
        } else {
            match sp_frac_end(s, m) {
                Some(m2) => sp_exp_end(s, m2),
                None => None,
            }
        }
    } else {
        None
    }
}

/// The end of the optional fraction part that starts at `m`.
pub open spec fn sp_frac_end(s: Seq<char>, m: int) -> Option<int> {
    if 0 <= m < s.len() && s[m] == '.' {
        if m + 1 < s.len() && is_digit(s[m + 1]) {
            Some(sp_digits(s, m + 1))
        } else {
            None
        }
    } else {
        Some(m)
    }
}

/// The end of the optional exponent part that starts at `m`.
pub open spec fn sp_exp_end(s: Seq<char>, m: int) -> Option<int> {
    if 0 <= m < s.len() && (s[m] == 'e' || s[m] == 'E') {
        let k = if m + 1 < s.len() && (s[m + 1] == '+' || s[m + 1] == '-') {
            m + 2
        } else {
            m + 1
        };
        if 0 <= k < s.len() && is_digit(s[k]) {
            Some(sp_digits(s, k))
        } else {
            None
        }
    } else {
        Some(m)
    }
}

pub proof fn lemma_sp_number_end(s: Seq<char>, i: int)
    requires
        0 <= i <= s.len(),
    ensures
        sp_number_end(s, i) matches Some(e) ==> i < e <= s.len(),
{
    let k = if i < s.len() && s[i] == '-' {
        i + 1
    } else {
        i
    };
    if k < s.len() && is_digit(s[k]) {
        let m = sp_digits(s, k);
        lemma_sp_digits(s, k);
        if m < s.len() && s[m] == '.' && m + 1 < s.len() && is_digit(s[m + 1]) {
            lemma_sp_digits(s, m + 1);
        }
        match sp_frac_end(s, m) {
            Some(m2) => {
                if m2 < s.len() && (s[m2] == 'e' || s[m2] == 'E') {
                    let k2 = if m2 + 1 < s.len() && (s[m2 + 1] == '+' || s[m2 + 1] == '-') {
                        m2 + 2
                    } else {
                        m2 + 1
                    };
                    if 0 <= k2 < s.len() && is_digit(s[k2]) {
                        lemma_sp_digits(s, k2);
                    }
                }
            },
            None => {},
        }
    }
}

/// The value and end of an integer that starts at `i`, within the range
/// of `i32`; a number with a fraction, an exponent, or a value out of
/// that range is rejected, as the typed fields of the wire shapes
/// reject it.
pub open spec fn sp_i32(s: Seq<char>, i: int) -> Option<(int, int)> {
    let neg = 0 <= i < s.len() && s[i] == '-';
    let k = if neg {
        i + 1
    } else {
        i
    };
    if 0 <= k < s.len() && is_digit(s[k]) {
        let m = sp_digits(s, k);
        if s[k] == '0' && m > k + 1 {
            None
        } else if m < s.len() && (s[m] == '.' || s[m] == 'e' || s[m] == 'E') {
            None
        } else {
            let v = if neg {
                -digits_val(s, k, m)
            } else {
                digits_val(s, k, m)
            };
            if -0x8000_0000 <= v <= 0x7FFF_FFFF {
                Some((v, m))
            } else {
                None
            }
        }
    } else {
        None
    }
}

pub proof fn lemma_sp_i32(s: Seq<char>, i: int)
    requires
        0 <= i <= s.len(),
    ensures
        sp_i32(s, i) matches Some(r) ==> i < r.1 <= s.len(),
{
    let neg = 0 <= i < s.len() && s[i] == '-';
    let k = if neg {
        i + 1
    } else {
        i
    };
    if 0 <= k < s.len() && is_digit(s[k]) {
        lemma_sp_digits(s, k + 1);
    }
}

/// The position after the complete value that starts at `i`, whatever
/// kind it is; `None` where no well-formed value starts there.
pub open spec fn sp_value_end(s: Seq<char>, i: int) -> Option<int>
    decreases s.len() - i, 0int,
{
    if !(0 <= i < s.len()) {
        None
    } else {
        let c = s[i];
        if c == 'n' {
            if i + 4 <= s.len() && s[i + 1] == 'u' && s[i + 2] == 'l' && s[i + 3] == 'l' {
                Some(i + 4)
            } else {
                None
            }
        } else if c == 't' {
            if i + 4 <= s.len() && s[i + 1] == 'r' && s[i + 2] == 'u' && s[i + 3] == 'e' {
                Some(i + 4)
            } else {
                None
            }
        } else if c == 'f' {
            if i + 5 <= s.len() && s[i + 1] == 'a' && s[i + 2] == 'l' && s[i + 3] == 's' && s[i + 4]
                == 'e' {
                Some(i + 5)
            } else {
                None
            }
        } else if c == '"' {
            match sp_string_rest(s, i + 1) {
                Some((_t, j)) => Some(j),
                None => None,
            }
        } else if c == '-' || is_digit(c) {
            sp_number_end(s, i)
        } else if c == '[' {
            let j = skip_ws(s, i + 1);
            if !(i + 1 <= j <= s.len()) {
                None
            } else if j < s.len() && s[j] == ']' {
                Some(j + 1)
            } else {
                sp_elements_end(s, j)
            }
        } else if c == '{' {
            let j = skip_ws(s, i + 1);
            if !(i + 1 <= j <= s.len()) {
                None
            } else if j < s.len() && s[j] == '}' {
                Some(j + 1)
            } else {
                sp_members_end(s, j)
            }
        } else {
            None
        }
    }
}

/// The position after the remaining elements of an array, the closing
/// bracket included, where `i` is at the first character of an element.
pub open spec fn sp_elements_end(s: Seq<char>, i: int) -> Option<int>
    decreases s.len() - i, 1int,
{
    if !(0 <= i <= s.len()) {
        None
    } else {
        match sp_value_end(s, i) {
            None => None,
            Some(e) => if !(i < e <= s.len()) {
                None
            } else {
                let j = skip_ws(s, e);
                if !(e <= j <= s.len()) {
                    None
                } else if j < s.len() && s[j] == ']' {
                    Some(j + 1)
                } else if j < s.len() && s[j] == ',' {
                    let k = skip_ws(s, j + 1);
                    if j + 1 <= k <= s.len() {
                        sp_elements_end(s, k)
                    } else {
                        None
                    }
                } else {
                    None
                }
            },
        }
    }
}

/// The position after the remaining members of an object, the closing
/// brace included, where `i` is at the opening quote of a member key.
pub open spec fn sp_members_end(s: Seq<char>, i: int) -> Option<int>
    decreases s.len() - i, 1int,
{
    if !(0 <= i < s.len()) || s[i] != '"' {
        None
    } else {
        match sp_string_rest(s, i + 1) {
            None => None,
            Some((_k, j)) => if !(i < j <= s.len()) {
                None
            } else {
                let j2 = skip_ws(s, j);
                if !(j <= j2) {
                    None
                } else if j2 < s.len() && s[j2] == ':' {
                    let j3 = skip_ws(s, j2 + 1);
                    if !(j2 + 1 <= j3 <= s.len()) {
                        None
                    } else {
                        match sp_value_end(s, j3) {
                            None => None,
                            Some(e) => if !(j3 < e <= s.len()) {
                                None
                            } else {
                                let j4 = skip_ws(s, e);
                                if !(e <= j4) {
                                    None
                                } else if j4 < s.len() && s[j4] == '}' {
                                    Some(j4 + 1)
                                } else if j4 < s.len() && s[j4] == ',' {
                                    let k = skip_ws(s, j4 + 1);
                                    if j4 + 1 <= k <= s.len() {
                                        sp_members_end(s, k)
                                    } else {
                                        None
                                    }
                                } else {
                                    None
                                }
                            },
                        }
                    }
                } else {
                    None
                }
            },
        }
    }
}

pub proof fn lemma_sp_value_end(s: Seq<char>, i: int)
    ensures
        sp_value_end(s, i) matches Some(e) ==> i < e <= s.len(),
    decreases s.len() - i, 0int,
{
    if 0 <= i < s.len() {
        let c = s[i];
        if c == '"' {
            lemma_sp_string_rest(s, i + 1);
        }
        if c == '-' || is_digit(c) {
            lemma_sp_number_end(s, i);
        }
        if c == '[' {
            let j = skip_ws(s, i + 1);
            if i + 1 <= j <= s.len() {
                lemma_sp_elements_end(s, j);
            }
        }
        if c == '{' {
            let j = skip_ws(s, i + 1);
            if i + 1 <= j <= s.len() {
                lemma_sp_members_end(s, j);
            }
        }
    }
}

pub proof fn lemma_sp_elements_end(s: Seq<char>, i: int)
    ensures
        sp_elements_end(s, i) matches Some(e) ==> i < e <= s.len(),
    decreases s.len() - i, 1int,
{
    if 0 <= i <= s.len() {
        lemma_sp_value_end(s, i);
        match sp_value_end(s, i) {
            Some(e) => if i < e <= s.len() {
                let j = skip_ws(s, e);
                if e <= j <= s.len() && j < s.len() && s[j] == ',' {
                    let k = skip_ws(s, j + 1);
                    if j + 1 <= k <= s.len() {
                        lemma_sp_elements_end(s, k);
                    }
                }
            },
            None => {},
        }
    }
}

pub proof fn lemma_sp_members_end(s: Seq<char>, i: int)
    ensures
        sp_members_end(s, i) matches Some(e) ==> i < e <= s.len(),
    decreases s.len() - i, 1int,
{
    if 0 <= i < s.len() && s[i] == '"' {
        lemma_sp_string_rest(s, i + 1);
        match sp_string_rest(s, i + 1) {
            Some((_k, j)) => if i < j <= s.len() {
                let j2 = skip_ws(s, j);
                if j <= j2 && j2 < s.len() && s[j2] == ':' {
                    let j3 = skip_ws(s, j2 + 1);
                    if j2 + 1 <= j3 <= s.len() {
                        lemma_sp_value_end(s, j3);
                        match sp_value_end(s, j3) {
                            Some(e) => if j3 < e <= s.len() {
                                let j4 = skip_ws(s, e);
                                if e <= j4 && j4 < s.len() && s[j4] == ',' {
                                    let k = skip_ws(s, j4 + 1);
                                    if j4 + 1 <= k <= s.len() {
                                        lemma_sp_members_end(s, k);
                                    }
                                }
                            },
                            None => {},
                        }
                    }
                }
            },
            None => {},
        }
    }
}

/// The model of an executable parse that yields a position.
pub open spec fn end_model(r: Option<usize>) -> Option<int> {
    match r {
        Some(j) => Some(j as int),
        None => None,
    }
}

/// The model of an executable parse that yields string content and a
/// position.
pub open spec fn str_model(r: Option<(Vec<char>, usize)>) -> Option<(Seq<char>, int)> {
    match r {
        Some(p) => Some((p.0@, p.1 as int)),
        None => None,
    }
}

/// The model of an executable parse that yields an integer and a
/// position.
pub open spec fn i32_model(r: Option<(i32, usize)>) -> Option<(int, int)> {
    match r {
        Some(p) => Some((p.0 as int, p.1 as int)),
        None => None,
    }
}

fn is_ws_x(c: char) -> (r: bool)
    ensures
        r == is_ws(c),
{
    c == ' ' || c == '\t' || c == '\n' || c == '\r'
}

fn is_digit_x(c: char) -> (r: bool)
    ensures
        r == is_digit(c),
{
    '0' <= c && c <= '9'
}

fn is_hex_x(c: char) -> (r: bool)
    ensures
        r == is_hex(c),
{
    ('0' <= c && c <= '9') || ('a' <= c && c <= 'f') || ('A' <= c && c <= 'F')
}

fn hex_val_x(c: char) -> (r: u32)
    requires
        is_hex(c),
    ensures
        r as int == hex_val(c),
        r < 16,
{
    if '0' <= c && c <= '9' {
        c as u32 - '0' as u32
    } else if 'a' <= c && c <= 'f' {
        10 + (c as u32 - 'a' as u32)
    } else {
        10 + (c as u32 - 'A' as u32)
    }
}

fn simple_escape_x(c: char) -> (r: Option<char>)
    ensures
        r == simple_escape(c),
{
    if c == '"' {
        Some('"')
    } else if c == '\\' {
        Some('\\')
    } else if c == '/' {
        Some('/')
    } else if c == 'b' {
        Some('\u{0008}')
    } else if c == 'f' {
        Some('\u{000C}')
    } else if c == 'n' {
        Some('\n')
    } else if c == 'r' {
        Some('\r')
    } else if c == 't' {
        Some('\t')
    } else {
        None
    }
}

/// Advances over whitespace.
pub fn skip_ws_x(s: &Vec<char>, i: usize) -> (r: usize)
    requires
        i <= s@.len(),
    ensures
        r as int == skip_ws(s@, i as int),
        i <= r <= s@.len(),
{
    let mut j: usize = i;
    while j < s.len() && is_ws_x(s[j])
        invariant
            i <= j <= s@.len(),
            skip_ws(s@, i as int) == skip_ws(s@, j as int),
        decreases s@.len() - j,
    {
        j = j + 1;
    }
    j
}

/// Advances over a run of digits.
pub fn digits_end_x(s: &Vec<char>, i: usize) -> (r: usize)
    requires
        i <= s@.len(),
    ensures
        r as int == sp_digits(s@, i as int),
        i <= r <= s@.len(),
{
    let mut j: usize = i;
    while j < s.len() && is_digit_x(s[j])
        invariant
            i <= j <= s@.len(),
            sp_digits(s@, i as int) == sp_digits(s@, j as int),
        decreases s@.len() - j,
    {
        j = j + 1;
    }
    j
}

/// Parses the rest of a string, the opening quote already behind `i`.
pub fn parse_string_rest_x(s: &Vec<char>, i: usize) -> (r: Option<(Vec<char>, usize)>)
    requires
        i <= s@.len(),
    ensures
        str_model(r) == sp_string_rest(s@, i as int),
{
    let mut cur: usize = i;
    let mut acc: Vec<char> = Vec::new();
    loop
        invariant
            i <= cur <= s@.len(),
            sp_string_rest(s@, i as int) == (match sp_string_rest(s@, cur as int) {
                Some((t, j)) => Some((acc@ + t, j)),
                None => None::<(Seq<char>, int)>,
            }),
        decreases s@.len() - cur,
    {
        if cur >= s.len() {
            return None;
        }
        let c = s[cur];
        if c == '"' {
            proof {
                assert(acc@ + Seq::<char>::empty() =~= acc@);
            }
            return Some((acc, cur + 1));
        } else if c == '\\' {
            if s.len() - cur < 2 {
                return None;
            }
            let e = s[cur + 1];
            let ghost acc0 = acc@;
            match simple_escape_x(e) {
                Some(d) => {
                    acc.push(d);
                    proof {
                        match sp_string_rest(s@, cur + 2int) {
                            Some((t, _j)) => {
                                assert(acc0 + (seq![d] + t) =~= acc0.push(d) + t);
                            },
                            None => {},
                        }
                    }
                    cur = cur + 2;
                },
                None => {
                    if e == 'u' {
                        if s.len() - cur < 6 {
                            return None;
                        }
                        if !(is_hex_x(s[cur + 2]) && is_hex_x(s[cur + 3]) && is_hex_x(s[cur + 4])
                            && is_hex_x(s[cur + 5])) {
                            return None;
                        }
                        let v: u32 = hex_val_x(s[cur + 2]) * 4096 + hex_val_x(s[cur + 3]) * 256
                            + hex_val_x(s[cur + 4]) * 16 + hex_val_x(s[cur + 5]);
                        if v < 0xD800 || v >= 0xE000 {
                            match crate::chars::char_from_u32(v) {
                                Some(d) => {
                                    proof {
                                        vstd::utf8::char_u32_cast(d, v);
                                        assert(d == (v as int) as char);
                                    }
                                    acc.push(d);
                                    proof {
                                        match sp_string_rest(s@, cur + 6int) {
                                            Some((t, _j)) => {
                                                assert(acc0 + (seq![d] + t) =~= acc0.push(d) + t);
                                            },
                                            None => {},
                                        }
                                    }
                                    cur = cur + 6;
                                },
                                None => {
                                    // dead: the value was already checked
                                    // to be a Unicode scalar value
                                    proof {
                                        assert(false);
                                    }
                                    return None;
                                },
                            }
                        } else {
                            return None;
                        }
                    } else {
                        return None;
                    }
                },
            }
        } else if (c as u32) < 32 {
            return None;
        } else {
            let ghost acc0 = acc@;
            acc.push(c);
            proof {
                match sp_string_rest(s@, cur + 1int) {
                    Some((t, _j)) => {
                        assert(acc0 + (seq![c] + t) =~= acc0.push(c) + t);
                    },
                    None => {},
                }
            }
            cur = cur + 1;
        }
    }
}

/// Parses an integer within the range of `i32`.
pub fn parse_i32_x(s: &Vec<char>, i: usize) -> (r: Option<(i32, usize)>)
    requires
        i <= s@.len(),
    ensures
        i32_model(r) == sp_i32(s@, i as int),
{
    let neg = i < s.len() && s[i] == '-';
    let k: usize = if neg {
        i + 1
    } else {
        i
    };
    if !(k < s.len() && is_digit_x(s[k])) {
        return None;
    }
    let m = digits_end_x(s, k);
    proof {
        lemma_sp_digits(s@, k as int);
    }
    if s[k] == '0' && m > k + 1 {
        return None;
    }
    if m < s.len() && (s[m] == '.' || s[m] == 'e' || s[m] == 'E') {
        return None;
    }
    proof {
        lemma_digits_val_bounds(s@, k as int, m as int);
    }
    if m - k > 10 {
        proof {
            assert(s@[k as int] != '0');
            assert(pow10(10) == 10_000_000_000) by {
                reveal_with_fuel(pow10, 11);
            }
            assert(pow10((m - k) as int - 1) >= pow10(10)) by {
                lemma_pow10_le(10, (m - k) as int - 1);
            }
        }
        return None;
    }
    let mut acc: u64 = 0;
    let mut cur: usize = k;
    while cur < m
        invariant
            k <= cur <= m <= s@.len(),
            m - k <= 10,
            forall|q: int| k <= q < m ==> is_digit(s@[q]),
            acc as int == digits_val(s@, k as int, cur as int),
            (acc as int) < pow10((cur - k) as int),
        decreases m - cur,
    {
        proof {
            assert(pow10((cur - k) as int) <= pow10(9)) by {
                lemma_pow10_le((cur - k) as int, 9);
            }
            assert(pow10(9) == 1_000_000_000) by {
                reveal_with_fuel(pow10, 10);
            }
        }
        let d: u64 = (s[cur] as u32 - '0' as u32) as u64;
        acc = acc * 10 + d;
        cur = cur + 1;
        proof {
            lemma_digits_val_bounds(s@, k as int, cur as int);
        }
    }
    if neg {
        if acc > 0x8000_0000 {
            return None;
        }
        if acc == 0x8000_0000 {
            return Some((-0x8000_0000i32, m));
        }
        return Some((-(acc as i32), m));
    } else {
        if acc > 0x7FFF_FFFF {
            return None;
        }
        return Some((acc as i32, m));
    }
}

proof fn lemma_pow10_le(a: int, b: int)
    requires
        a <= b,
    ensures
        pow10(a) <= pow10(b),
        pow10(a) >= 1,
    decreases b - a + if b >= 0 {
        b
    } else {
        0
    },
{
    if a < b {
        lemma_pow10_le(a, b - 1);
    } else if a == b && b > 0 {
        lemma_pow10_le(a - 1, b - 1);
    }
}

/// Advances over a number, fraction and exponent included.
pub fn skip_number_x(s: &Vec<char>, i: usize) -> (r: Option<usize>)
    requires
        i <= s@.len(),
    ensures
        end_model(r) == sp_number_end(s@, i as int),
{
    let neg = i < s.len() && s[i] == '-';
    let k: usize = if neg {
        i + 1
    } else {
        i
    };
    if !(k < s.len() && is_digit_x(s[k])) {
        return None;
    }
    let m = digits_end_x(s, k);
    if s[k] == '0' && m > k + 1 {
        return None;
    }
    let m2: usize = if m < s.len() && s[m] == '.' {
        if m + 1 < s.len() && is_digit_x(s[m + 1]) {
            digits_end_x(s, m + 1)
        } else {
            return None;
        }
    } else {
        m
    };
    if m2 < s.len() && (s[m2] == 'e' || s[m2] == 'E') {
        let k2: usize = if m2 + 1 < s.len() && (s[m2 + 1] == '+' || s[m2 + 1] == '-') {
            m2 + 2
        } else {
            m2 + 1
        };
        if k2 < s.len() && is_digit_x(s[k2]) {
            Some(digits_end_x(s, k2))
        } else {
            None
        }
    } else {
        Some(m2)
    }
}

/// Advances over one complete value.
pub fn skip_value_x(s: &Vec<char>, i: usize) -> (r: Option<usize>)
    requires
        i <= s@.len(),
    ensures
        end_model(r) == sp_value_end(s@, i as int),
    decreases s@.len() - i, 0int,
{
    if i >= s.len() {
        return None;
    }
    let c = s[i];
    if c == 'n' {
        if s.len() - i >= 4 && s[i + 1] == 'u' && s[i + 2] == 'l' && s[i + 3] == 'l' {
            Some(i + 4)
        } else {
            None
        }
    } else if c == 't' {
        if s.len() - i >= 4 && s[i + 1] == 'r' && s[i + 2] == 'u' && s[i + 3] == 'e' {
            Some(i + 4)
        } else {
            None
        }
    } else if c == 'f' {
        if s.len() - i >= 5 && s[i + 1] == 'a' && s[i + 2] == 'l' && s[i + 3] == 's' && s[i + 4]
            == 'e' {
            Some(i + 5)
        } else {
            None
        }
    } else if c == '"' {
        match parse_string_rest_x(s, i + 1) {
            Some((_content, j)) => Some(j),
            None => None,
        }
    } else if c == '-' || is_digit_x(c) {
        skip_number_x(s, i)
    } else if c == '[' {
        let j = skip_ws_x(s, i + 1);
        if j < s.len() && s[j] == ']' {
            Some(j + 1)
        } else {
            skip_elements_x(s, j)
        }
    } else if c == '{' {
        let j = skip_ws_x(s, i + 1);
        if j < s.len() && s[j] == '}' {
            Some(j + 1)
        } else {
            skip_members_x(s, j)
        }
    } else {
        None
    }
}

/// Advances over the remaining elements of an array, the closing
/// bracket included.
pub fn skip_elements_x(s: &Vec<char>, i: usize) -> (r: Option<usize>)
    requires
        i <= s@.len(),
    ensures
        end_model(r) == sp_elements_end(s@, i as int),
    decreases s@.len() - i, 1int,
{
    match skip_value_x(s, i) {
        None => None,
        Some(e) => {
            proof {
                lemma_sp_value_end(s@, i as int);
            }
            let j = skip_ws_x(s, e);
            if j < s.len() && s[j] == ']' {
                Some(j + 1)
            } else if j < s.len() && s[j] == ',' {
                let k = skip_ws_x(s, j + 1);
                skip_elements_x(s, k)
            } else {
                None
            }
        },
    }
}

/// Advances over the remaining members of an object, the closing brace
/// included.
pub fn skip_members_x(s: &Vec<char>, i: usize) -> (r: Option<usize>)
    requires
        i <= s@.len(),
    ensures
        end_model(r) == sp_members_end(s@, i as int),
    decreases s@.len() - i, 1int,
{
    if i >= s.len() || s[i] != '"' {
        return None;
    }
    match parse_string_rest_x(s, i + 1) {
        None => None,
        Some((_key, j)) => {
            proof {
                lemma_sp_string_rest(s@, i + 1int);
            }
            let j2 = skip_ws_x(s, j);
            if j2 < s.len() && s[j2] == ':' {
                let j3 = skip_ws_x(s, j2 + 1);
                match skip_value_x(s, j3) {
                    None => None,
                    Some(e) => {
                        proof {
                            lemma_sp_value_end(s@, j3 as int);
                        }
                        let j4 = skip_ws_x(s, e);
                        if j4 < s.len() && s[j4] == '}' {
                            Some(j4 + 1)
                        } else if j4 < s.len() && s[j4] == ',' {
                            let k = skip_ws_x(s, j4 + 1);
                            skip_members_x(s, k)
                        } else {
                            None
                        }
                    },
                }
            } else {
                None
            }
        },
    }
}

/// The hexadecimal digit for a value below sixteen, in lower case.
pub open spec fn hex_digit(v: int) -> char {
    if v < 10 {
        (('0' as int) + v) as char
    } else {
        (('a' as int) + v - 10) as char
    }
}

/// How one character is written inside a JSON string: quotes and
/// backslashes take a backslash, control characters take a unicode
/// escape, everything else stands as it is.
pub open spec fn esc_char(c: char) -> Seq<char> {
    if c == '"' {
        seq!['\\', '"']
    } else if c == '\\' {
        seq!['\\', '\\']
    } else if (c as u32) < 32 {
        seq!['\\', 'u', '0', '0', hex_digit((c as u32 / 16) as int), hex_digit((c as u32 % 16) as int)]
    } else {
        seq![c]
    }
}

/// The content of a JSON string that denotes the given text.
pub open spec fn json_escape(s: Seq<char>) -> Seq<char>
    decreases s.len(),
{
    if s.len() == 0 {
        Seq::empty()
    } else {
        json_escape(s.drop_last()) + esc_char(s.last())
    }
}

fn hex_digit_x(v: u32) -> (r: char)
    requires
        v < 16,
    ensures
        r == hex_digit(v as int),
{
    match v {
        0 => '0',
        1 => '1',
        2 => '2',
        3 => '3',
        4 => '4',
        5 => '5',
        6 => '6',
        7 => '7',
        8 => '8',
        9 => '9',
        10 => 'a',
        11 => 'b',
        12 => 'c',
        13 => 'd',
        14 => 'e',
        _ => 'f',
    }
}

/// Writes text as the content of a JSON string.
pub fn json_escape_x(s: &Vec<char>) -> (r: Vec<char>)
    ensures
        r@ == json_escape(s@),
{
    let mut acc: Vec<char> = Vec::new();
    let mut i: usize = 0;
    proof {
        assert(s@.subrange(0, 0) =~= Seq::<char>::empty());
    }
    while i < s.len()
        invariant
            i <= s@.len(),
            acc@ == json_escape(s@.subrange(0, i as int)),
        decreases s@.len() - i,
    {
        let c = s[i];
        let ghost acc0 = acc@;
        let ghost pre = s@.subrange(0, i as int);
        if c == '"' {
            acc.push('\\');
            acc.push('"');
            proof {
                assert(esc_char(c) == seq!['\\', '"']);
                assert(acc@ =~= acc0 + esc_char(c));
            }
        } else if c == '\\' {
            acc.push('\\');
            acc.push('\\');
            proof {
                assert(esc_char(c) == seq!['\\', '\\']);
                assert(acc@ =~= acc0 + esc_char(c));
            }
        } else if (c as u32) < 32 {
            acc.push('\\');
            acc.push('u');
            acc.push('0');
            acc.push('0');
            let d1 = hex_digit_x(c as u32 / 16);
            acc.push(d1);
            let d2 = hex_digit_x(c as u32 % 16);
            acc.push(d2);
            proof {
                assert(esc_char(c) == seq!['\\', 'u', '0', '0', d1, d2]);
                assert(acc@ =~= acc0 + esc_char(c));
            }
        } else {
            acc.push(c);
            proof {
                assert(esc_char(c) == seq![c]);
                assert(acc@ =~= acc0 + esc_char(c));
            }
        }
        proof {
            assert(acc@ =~= acc0 + esc_char(c));
            let post = s@.subrange(0, i as int + 1);
            assert(post =~= pre.push(c));
            assert(post.drop_last() =~= pre);
            assert(post.last() == c);
        }
        i = i + 1;
    }
    proof {
        assert(s@.subrange(0, s@.len() as int) =~= s@);
    }
    acc
}

pub proof fn lemma_json_escape_cons(s: Seq<char>)
    requires
        s.len() > 0,
    ensures
        json_escape(s) == esc_char(s[0]) + json_escape(s.drop_first()),
    decreases s.len(),
{
    if s.len() == 1 {
        assert(s.drop_last() =~= Seq::<char>::empty());
        assert(s.drop_first() =~= Seq::<char>::empty());
        assert(json_escape(s) =~= esc_char(s[0]) + json_escape(s.drop_first()));
    } else {
        let d = s.drop_last();
        lemma_json_escape_cons(d);
        assert(d[0] == s[0]);
        assert(s.drop_first().drop_last() =~= d.drop_first());
        assert(s.drop_first().last() == s.last());
        assert(json_escape(s.drop_first()) == json_escape(d.drop_first()) + esc_char(s.last()));
        assert((esc_char(s[0]) + json_escape(d.drop_first())) + esc_char(s.last()) =~= esc_char(
            s[0],
        ) + (json_escape(d.drop_first()) + esc_char(s.last())));
    }
}

pub proof fn lemma_hex_digit_facts(v: int)
    requires
        0 <= v < 16,
    ensures
        is_hex(hex_digit(v)),
        hex_val(hex_digit(v)) == v,
        hex_digit(v) != '"' && hex_digit(v) != '\\',
{
}

/// Whatever the serializer writes as string content, the parser reads
/// back as the original text: inside any body, an escaped text
/// followed by a closing quote parses to exactly that text.
pub proof fn lemma_escape_parses_back(u: Seq<char>, i: int, s: Seq<char>)
    requires
        0 <= i,
        i + json_escape(s).len() + 1 <= u.len(),
        u.subrange(i, i + json_escape(s).len()) == json_escape(s),
        u[i + json_escape(s).len()] == '"',
    ensures
        sp_string_rest(u, i) == Some((s, i + json_escape(s).len() + 1)),
    decreases s.len(),
{
    if s.len() == 0 {
        assert(json_escape(s) =~= Seq::<char>::empty());
        assert(u[i] == '"');
    } else {
        let c = s[0];
        let d = s.drop_first();
        lemma_json_escape_cons(s);
        let e = esc_char(c);
        let tail = json_escape(d);
        assert(json_escape(s) == e + tail);
        let n = e.len() as int;
        assert forall|k: int| 0 <= k < e.len() implies u[i + k] == e[k] by {
            assert(u.subrange(i, i + json_escape(s).len())[k] == u[i + k]);
            assert((e + tail)[k] == e[k]);
        }
        assert(u.subrange(i + n, i + n + tail.len()) =~= tail) by {
            assert forall|k: int| 0 <= k < tail.len() implies u.subrange(
                i + n,
                i + n + tail.len(),
            )[k] == tail[k] by {
                assert(u.subrange(i, i + json_escape(s).len())[n + k] == u[i + n + k]);
                assert((e + tail)[n + k] == tail[k]);
            }
        }
        assert(u[i] == e[0]) by {
            assert(u[i + 0] == e[0]);
        }
        assert(u[i + n + tail.len()] == '"');
        lemma_escape_parses_back(u, i + n, d);
        assert(sp_string_rest(u, i + n) == Some((d, i + n + tail.len() + 1)));
        if c == '"' || c == '\\' {
            assert(e =~= seq!['\\', c]);
            assert(u[i] == '\\' && u[i + 1] == c);
            assert(simple_escape(c) == Some(c));
            assert(sp_string_rest(u, i) == str_cons(c, sp_string_rest(u, i + 2)));
            assert(seq![c] + d =~= s);
        } else if (c as u32) < 32 {
            let hi = (c as u32 / 16) as int;
            let lo = (c as u32 % 16) as int;
            assert(e =~= seq!['\\', 'u', '0', '0', hex_digit(hi), hex_digit(lo)]);
            assert(u[i] == '\\' && u[i + 1] == 'u' && u[i + 2] == '0' && u[i + 3] == '0');
            assert(u[i + 4] == hex_digit(hi) && u[i + 5] == hex_digit(lo));
            assert(simple_escape('u') is None);
            lemma_hex_digit_facts(hi);
            lemma_hex_digit_facts(lo);
            assert(is_hex('0') && hex_val('0') == 0);
            let v = hex_val(u[i + 2]) * 4096 + hex_val(u[i + 3]) * 256 + hex_val(u[i + 4]) * 16
                + hex_val(u[i + 5]);
            assert(v == hi * 16 + lo);
            assert(v == c as u32) by {
                assert(c as u32 == (c as u32 / 16) * 16 + (c as u32 % 16));
            }
            assert(v < 0xD800);
            vstd::utf8::char_u32_cast(c, c as u32);
            assert((v as char) == c);
            assert(sp_string_rest(u, i) == str_cons(c, sp_string_rest(u, i + 6)));
            assert(seq![c] + d =~= s);
        } else {
            assert(e =~= seq![c]);
            assert(u[i] == c);
            assert(c != '"' && c != '\\' && (c as u32) >= 32);
            assert(sp_string_rest(u, i) == str_cons(c, sp_string_rest(u, i + 1)));
            assert(seq![c] + d =~= s);
        }
    }
}

} // verus!
