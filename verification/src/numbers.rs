//! Decimal integers as `str::parse` reads them, and ASCII case mapping.
//!
//! An unsigned number is an optional `+` followed by at least one ASCII
//! digit; a signed one may start with `-` instead. No other character, not
//! even white space, is allowed, and the value must fit the target type.

use vstd::prelude::*;

use crate::text::chars_of;

verus! {

/// An ASCII decimal digit.
pub open spec fn is_digit(c: char) -> bool {
    '0' <= c && c <= '9'
}

/// Every character of `s` is a decimal digit.
pub open spec fn all_digits(s: Seq<char>) -> bool {
    forall|i: int| 0 <= i < s.len() ==> is_digit(#[trigger] s[i])
}

/// The value of the digit `c`.
pub open spec fn digit_value(c: char) -> nat {
    (c as int - '0' as int) as nat
}

/// The value of the decimal digits `s`.
pub open spec fn digits_value(s: Seq<char>) -> nat
    decreases s.len(),
{
    if s.len() == 0 {
        0
    } else {
        digits_value(s.drop_last()) * 10 + digit_value(s.last())
    }
}

/// `s` without its leading `+`, if it has one.
pub open spec fn unsigned_body(s: Seq<char>) -> Seq<char> {
    if s.len() > 0 && s[0] == '+' {
        s.skip(1)
    } else {
        s
    }
}

/// What parsing `s` as an unsigned integer of at most `max` gives.
pub open spec fn parse_unsigned(s: Seq<char>, max: nat) -> Option<nat> {
    let d = unsigned_body(s);
    if d.len() > 0 && all_digits(d) && digits_value(d) <= max {
        Some(digits_value(d))
    } else {
        None
    }
}

/// `s` without its leading sign, if it has one.
pub open spec fn signed_body(s: Seq<char>) -> Seq<char> {
    if s.len() > 0 && (s[0] == '+' || s[0] == '-') {
        s.skip(1)
    } else {
        s
    }
}

/// What parsing `s` as a signed integer in `min..=max` gives.
pub open spec fn parse_signed(s: Seq<char>, min: int, max: int) -> Option<int> {
    let d = signed_body(s);
    let v: int = if s.len() > 0 && s[0] == '-' {
        -(digits_value(d) as int)
    } else {
        digits_value(d) as int
    };
    if d.len() > 0 && all_digits(d) && min <= v <= max {
        Some(v)
    } else {
        None
    }
}

proof fn lemma_digits_monotone(s: Seq<char>, k: int, j: int)
    requires
        0 <= k <= j <= s.len(),
        all_digits(s),
    ensures
        digits_value(s.take(k)) <= digits_value(s.take(j)),
    decreases j - k,
{
    if k < j {
        lemma_digits_monotone(s, k, j - 1);
        assert(s.take(j).drop_last() =~= s.take(j - 1));
        assert(s.take(j).last() == s[j - 1]);
    }
}

/// Reads the digits `d[from..]` as a number of at most `max`.
fn digits_at_most(d: &Vec<char>, from: usize, max: u64) -> (r: Option<u64>)
    requires
        from <= d@.len(),
    ensures
        ({
            let body = d@.skip(from as int);
            match r {
                Some(v) => body.len() > 0 && all_digits(body) && v == digits_value(body) && v <= max,
                None => !(body.len() > 0 && all_digits(body) && digits_value(body) <= max),
            }
        }),
{
    let ghost body = d@.skip(from as int);
    let n = d.len();
    if from == n {
        return None;
    }
    let mut v: u64 = 0;
    let mut i: usize = from;
    while i < n
        invariant
            from < n,
            n == d@.len(),
            body == d@.skip(from as int),
            from <= i <= n,
            all_digits(body.take(i - from)),
            v == digits_value(body.take(i - from)),
            v <= max,
        decreases n - i,
    {
        let c = d[i];
        proof {
            assert(body[i - from] == c);
        }
        if !('0' <= c && c <= '9') {
            proof {
                assert(!is_digit(body[i - from]));
            }
            return None;
        }
        let dv = (c as u32 - '0' as u32) as u64;
        proof {
            let t = body.take(i - from + 1);
            assert(t.drop_last() =~= body.take(i - from));
            assert(t.last() == c);
            assert(all_digits(t)) by {
                assert forall|k: int| 0 <= k < t.len() implies is_digit(#[trigger] t[k]) by {
                    if k < i - from {
                        assert(t[k] == body.take(i - from)[k]);
                    }
                }
            }
        }
        if dv > max || v > (max - dv) / 10 {
            proof {
                let t = body.take(i - from + 1);
                assert(digits_value(t) == v * 10 + dv);
                assert(v * 10 + dv > max) by (nonlinear_arith)
                    requires
                        dv > max || v > (max - dv) / 10,
                        dv <= 9,
                ;
                if all_digits(body) {
                    lemma_digits_monotone(body, i - from + 1, body.len() as int);
                    assert(body.take(body.len() as int) =~= body);
                }
            }
            return None;
        }
        assert(v * 10 + dv <= max) by (nonlinear_arith)
            requires
                v <= (max - dv) / 10,
                dv <= max,
        ;
        v = v * 10 + dv;
        i = i + 1;
    }
    proof {
        assert(body.take(n - from) =~= body);
    }
    Some(v)
}

/// `s` read as a `u64`, as `s.parse::<u64>()` does.
pub fn parse_u64(s: &str) -> (r: Option<u64>)
    ensures
        match r {
            Some(v) => parse_unsigned(s@, u64::MAX as nat) == Some(v as nat),
            None => parse_unsigned(s@, u64::MAX as nat) is None,
        },
{
    let d = chars_of(s);
    let from: usize = if d.len() > 0 && d[0] == '+' { 1 } else { 0 };
    proof {
        if from == 0 {
            assert(d@.skip(0) =~= d@);
        }
    }
    digits_at_most(&d, from, u64::MAX)
}

/// `s` read as a `u32`, as `s.parse::<u32>()` does.
pub fn parse_u32(s: &str) -> (r: Option<u32>)
    ensures
        match r {
            Some(v) => parse_unsigned(s@, u32::MAX as nat) == Some(v as nat),
            None => parse_unsigned(s@, u32::MAX as nat) is None,
        },
{
    let d = chars_of(s);
    let from: usize = if d.len() > 0 && d[0] == '+' { 1 } else { 0 };
    proof {
        if from == 0 {
            assert(d@.skip(0) =~= d@);
        }
    }
    match digits_at_most(&d, from, u32::MAX as u64) {
        Some(v) => Some(v as u32),
        None => None,
    }
}

/// `s` read as an `i32`, as `s.parse::<i32>()` does.
pub fn parse_i32(s: &str) -> (r: Option<i32>)
    ensures
        match r {
            Some(v) => parse_signed(s@, i32::MIN as int, i32::MAX as int) == Some(v as int),
            None => parse_signed(s@, i32::MIN as int, i32::MAX as int) is None,
        },
{
    let d = chars_of(s);
    let negative = d.len() > 0 && d[0] == '-';
    let from: usize = if d.len() > 0 && (d[0] == '+' || d[0] == '-') { 1 } else { 0 };
    proof {
        if from == 0 {
            assert(d@.skip(0) =~= d@);
        }
    }
    let limit: u64 = if negative { 2_147_483_648 } else { 2_147_483_647 };
    match digits_at_most(&d, from, limit) {
        Some(v) => {
            if negative {
                if v == 2_147_483_648 {
                    Some(i32::MIN)
                } else {
                    Some(-(v as i32))
                }
            } else {
                Some(v as i32)
            }
        },
        None => None,
    }
}

/// The ASCII upper-case form of `c`; other characters are kept.
pub open spec fn ascii_upper(c: char) -> char {
    if 'a' <= c && c <= 'z' {
        ((c as u32) - 32) as char
    } else {
        c
    }
}

/// The ASCII lower-case form of `c`; other characters are kept.
pub open spec fn ascii_lower(c: char) -> char {
    if 'A' <= c && c <= 'Z' {
        ((c as u32) + 32) as char
    } else {
        c
    }
}

/// `s` with its ASCII letters in upper case.
pub open spec fn to_ascii_upper(s: Seq<char>) -> Seq<char> {
    s.map_values(|c: char| ascii_upper(c))
}

/// `s` with its ASCII letters in lower case.
pub open spec fn to_ascii_lower(s: Seq<char>) -> Seq<char> {
    s.map_values(|c: char| ascii_lower(c))
}

/// `s` with its ASCII letters in upper (`upper`) or lower case.
pub fn map_ascii_case(s: &str, upper: bool) -> (r: String)
    ensures
        r@ == if upper { to_ascii_upper(s@) } else { to_ascii_lower(s@) },
{
    let d = chars_of(s);
    let mut r = String::new();
    let n = d.len();
    let ghost target = if upper { to_ascii_upper(s@) } else { to_ascii_lower(s@) };
    for i in 0..n
        invariant
            n == d@.len(),
            d@ == s@,
            target == if upper { to_ascii_upper(s@) } else { to_ascii_lower(s@) },
            r@ == target.take(i as int),
    {
        let c = d[i];
        let m: char = if upper {
            if 'a' <= c && c <= 'z' {
                let code = c as u32 - 32;
                proof {
                    assert(code == ascii_upper(c) as u32);
                }
                char_of_ascii(code)
            } else {
                c
            }
        } else {
            if 'A' <= c && c <= 'Z' {
                let code = c as u32 + 32;
                char_of_ascii(code)
            } else {
                c
            }
        };
        proof {
            assert(m == target[i as int]);
            assert(target.take(i + 1) =~= target.take(i as int).push(m));
        }
        crate::text::push_char(&mut r, m);
    }
    proof {
        assert(target.take(n as int) =~= target);
    }
    r
}

/// The character with the ASCII code `code`.
fn char_of_ascii(code: u32) -> (c: char)
    requires
        code < 128,
    ensures
        c == code as char,
{
    let b = code as u8;
    b as char
}

} // verus!
