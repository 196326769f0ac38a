//! Decimal text of integers, and the display codes built from it.

use vstd::prelude::*;

verus! {

/// The ASCII digit for `d` (taken modulo ten).
pub open spec fn digit_char(d: int) -> char {
    let m = d % 10;
    if m == 0 {
        '0'
    } else if m == 1 {
        '1'
    } else if m == 2 {
        '2'
    } else if m == 3 {
        '3'
    } else if m == 4 {
        '4'
    } else if m == 5 {
        '5'
    } else if m == 6 {
        '6'
    } else if m == 7 {
        '7'
    } else if m == 8 {
        '8'
    } else {
        '9'
    }
}

/// Decimal digits of a natural number, most significant first, no leading zeros.
pub open spec fn decimal(n: nat) -> Seq<char>
    decreases n,
{
    if n < 10 {
        seq![digit_char(n as int)]
    } else {
        decimal(n / 10).push(digit_char(n as int))
    }
}

/// `k` zero characters.
pub open spec fn zeros(k: nat) -> Seq<char> {
    Seq::new(k, |_i: int| '0')
}

/// Digits of `n`, left-filled with zeros up to `width` characters.
pub open spec fn zero_padded(n: nat, width: nat) -> Seq<char> {
    let d = decimal(n);
    if d.len() >= width {
        d
    } else {
        zeros((width - d.len()) as nat) + d
    }
}

/// Text of an integer padded with zeros to `width` characters, the sign
/// counting toward the width (as `{:0w}` writes it).
pub open spec fn padded_int(n: int, width: nat) -> Seq<char> {
    if n >= 0 {
        zero_padded(n as nat, width)
    } else {
        seq!['-'] + zero_padded((-n) as nat, if width > 0 { (width - 1) as nat } else { 0 })
    }
}

/// Plain decimal text of an integer.
pub open spec fn int_text(n: int) -> Seq<char> {
    padded_int(n, 0)
}

fn digit_str(d: u64) -> (r: &'static str)
    requires
        d < 10,
    ensures
        r@ == seq![digit_char(d as int)],
{
    proof {
        reveal_strlit("0");
        reveal_strlit("1");
        reveal_strlit("2");
        reveal_strlit("3");
        reveal_strlit("4");
        reveal_strlit("5");
        reveal_strlit("6");
        reveal_strlit("7");
        reveal_strlit("8");
        reveal_strlit("9");
    }
    if d == 0 {
        "0"
    } else if d == 1 {
        "1"
    } else if d == 2 {
        "2"
    } else if d == 3 {
        "3"
    } else if d == 4 {
        "4"
    } else if d == 5 {
        "5"
    } else if d == 6 {
        "6"
    } else if d == 7 {
        "7"
    } else if d == 8 {
        "8"
    } else {
        "9"
    }
}

fn decimal_string(n: u64) -> (r: String)
    ensures
        r@ == decimal(n as nat),
    decreases n,
{
    if n < 10 {
        String::from_str(digit_str(n))
    } else {
        let mut s = decimal_string(n / 10);
        s.append(digit_str(n % 10));
        s
    }
}

fn zero_padded_string(n: u64, width: usize) -> (r: String)
    ensures
        r@ == zero_padded(n as nat, width as nat),
{
    let digits = decimal_string(n);
    let len = digits.as_str().unicode_len();
    let mut out = String::new();
    if len < width {
        let fill = width - len;
        let mut i: usize = 0;
        while i < fill
            invariant
                i <= fill,
                out@ == zeros(i as nat),
            decreases fill - i,
        {
            proof {
                reveal_strlit("0");
            }
            out.append("0");
            i = i + 1;
            assert(out@ =~= zeros(i as nat));
        }
        out.append(digits.as_str());
        out
    } else {
        digits
    }
}

/// The integer `n` written in decimal, zero-filled to `width` characters
/// with any minus sign counted in the width.
pub fn padded_number(n: i64, width: usize) -> (r: String)
    ensures
        r@ == padded_int(n as int, width as nat),
{
    if n >= 0 {
        zero_padded_string(n as u64, width)
    } else {
        let magnitude: u64 = (-(n + 1)) as u64 + 1;
        let rest = zero_padded_string(magnitude, if width > 0 { width - 1 } else { 0 });
        let mut out = String::from_str("-");
        proof {
            reveal_strlit("-");
        }
        out.append(rest.as_str());
        out
    }
}


pub open spec fn is_digit(c: char) -> bool {
    '0' <= c && c <= '9'
}

pub open spec fn digit_value(c: char) -> nat {
    if is_digit(c) {
        ((c as u32) - 48) as nat
    } else {
        0
    }
}

pub open spec fn all_digits(s: Seq<char>) -> bool {
    forall|i: int| 0 <= i < s.len() ==> is_digit(#[trigger] s[i])
}

/// Value of a run of decimal digits, most significant first.
pub open spec fn digits_value(s: Seq<char>) -> nat
    decreases s.len(),
{
    if s.len() == 0 {
        0
    } else {
        digits_value(s.drop_last()) * 10 + digit_value(s.last())
    }
}

/// Number of leading sign characters (`+` or `-`) that a decimal integer may carry.
pub open spec fn sign_len(s: Seq<char>) -> int {
    if s.len() > 0 && (s[0] == '-' || s[0] == '+') {
        1
    } else {
        0
    }
}

/// The 64-bit signed integer written in `s`: an optional sign, then one or
/// more ASCII digits and nothing else, with the value in range.
pub open spec fn parse_int(s: Seq<char>) -> Option<int> {
    let body = s.subrange(sign_len(s), s.len() as int);
    let magnitude = digits_value(body) as int;
    let v = if s.len() > 0 && s[0] == '-' {
        -magnitude
    } else {
        magnitude
    };
    if body.len() == 0 || !all_digits(body) || v < i64::MIN || v > i64::MAX {
        None
    } else {
        Some(v)
    }
}

/// Reads a 64-bit signed decimal integer: an optional `+` or `-`, then
/// digits only.
pub fn parse_i64(s: &str) -> (r: Option<i64>)
    ensures
        match r {
            Some(v) => parse_int(s@) == Some(v as int),
            None => parse_int(s@).is_none(),
        },
{
    let n = s.unicode_len();
    if n == 0 {
        return None;
    }
    let first = s.get_char(0);
    let negative = first == '-';
    let start: usize = if first == '-' || first == '+' {
        1
    } else {
        0
    };
    if start == n {
        return None;
    }
    let ghost body = s@.subrange(start as int, n as int);
    assert(sign_len(s@) == start as int);
    let cap: u128 = 9223372036854775809;
    let mut acc: u128 = 0;
    let mut i: usize = start;
    while i < n
        invariant
            start <= i <= n,
            n == s@.len(),
            cap == 9223372036854775809,
            sign_len(s@) == start as int,
            body == s@.subrange(start as int, n as int),
            all_digits(s@.subrange(start as int, i as int)),
            acc <= cap,
            acc < cap ==> acc == digits_value(s@.subrange(start as int, i as int)),
            acc == cap ==> digits_value(s@.subrange(start as int, i as int)) >= cap,
        decreases n - i,
    {
        let c = s.get_char(i);
        if !('0' <= c && c <= '9') {
            proof {
                assert(body[i - start] == c);
                assert(!is_digit(body[i - start]));
            }
            return None;
        }
        assert(48 <= (c as u32) <= 57);
        let d: u128 = ((c as u32) - 48) as u128;
        let ghost prefix = s@.subrange(start as int, i as int);
        let ghost next = s@.subrange(start as int, i + 1);
        proof {
            assert(next.drop_last() =~= prefix);
            assert(next.last() == c);
            assert(digits_value(next) == digits_value(prefix) * 10 + d);
        }
        if acc < cap {
            assert(acc * 10 + d < 10 * cap + 10) by (nonlinear_arith)
                requires
                    acc < cap,
                    d < 10,
            ;
            let v = acc * 10 + d;
            acc = if v > cap {
                cap
            } else {
                v
            };
        } else {
            proof {
                assert(digits_value(prefix) * 10 >= digits_value(prefix)) by (nonlinear_arith)
                    requires
                        digits_value(prefix) >= 0,
                ;
            }
        }
        i = i + 1;
        proof {
            assert forall|j: int| 0 <= j < next.len() implies is_digit(#[trigger] next[j]) by {
                if j < prefix.len() {
                    assert(next[j] == prefix[j]);
                }
            }
        }
    }
    assert(s@.subrange(start as int, i as int) =~= body);
    if negative {
        if acc <= 9223372036854775808 {
            let v: i128 = -(acc as i128);
            Some(v as i64)
        } else {
            None
        }
    } else {
        if acc <= 9223372036854775807 {
            Some(acc as i64)
        } else {
            None
        }
    }
}


/// Display code of a client: `K-` and the number padded to three digits.
pub open spec fn client_code(number: int) -> Seq<char> {
    seq!['K', '-'] + padded_int(number, 3)
}

/// Display code of a project: `P-`, the owning client's number padded to
/// three digits, `-`, and the project's number padded to two digits.
pub open spec fn project_code(client_number: int, number: int) -> Seq<char> {
    seq!['P', '-'] + padded_int(client_number, 3) + seq!['-'] + padded_int(number, 2)
}

/// Writes the display code of the client numbered `number`.
pub fn format_client_code(number: i64) -> (r: String)
    ensures
        r@ == client_code(number as int),
{
    let digits = padded_number(number, 3);
    let mut out = String::from_str("K-");
    proof {
        reveal_strlit("K-");
    }
    out.append(digits.as_str());
    out
}

/// Writes the display code of project `number` of the client numbered
/// `client_number`.
pub fn format_project_code(client_number: i64, number: i64) -> (r: String)
    ensures
        r@ == project_code(client_number as int, number as int),
{
    let client_part = padded_number(client_number, 3);
    let project_part = padded_number(number, 2);
    let mut out = String::from_str("P-");
    proof {
        reveal_strlit("P-");
        reveal_strlit("-");
    }
    out.append(client_part.as_str());
    out.append("-");
    out.append(project_part.as_str());
    out
}

} // verus!
