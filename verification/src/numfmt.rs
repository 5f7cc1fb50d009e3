//! Decimal rendering of integers, used to build human-readable event
//! messages whose exact text the engine's contracts pin down.

use vstd::prelude::*;
use vstd::string::StringExecFns;

verus! {

/// The decimal digit character for `d` (meaningful for `d < 10`).
pub open spec fn spec_digit(d: nat) -> char {
    if d == 0 {
        '0'
    } else if d == 1 {
        '1'
    } else if d == 2 {
        '2'
    } else if d == 3 {
        '3'
    } else if d == 4 {
        '4'
    } else if d == 5 {
        '5'
    } else if d == 6 {
        '6'
    } else if d == 7 {
        '7'
    } else if d == 8 {
        '8'
    } else {
        '9'
    }
}

/// Decimal digits of `n`, most significant first, no leading zeros
/// (a single `'0'` for zero).
pub open spec fn spec_dec_nat(n: nat) -> Seq<char>
    decreases n,
{
    if n < 10 {
        seq![spec_digit(n)]
    } else {
        spec_dec_nat(n / 10) + seq![spec_digit(n % 10)]
    }
}

/// Decimal rendering of a possibly negative integer: a leading `'-'`
/// followed by the digits of the magnitude.
pub open spec fn spec_dec_int(v: int) -> Seq<char> {
    if v < 0 {
        seq!['-'] + spec_dec_nat((-v) as nat)
    } else {
        spec_dec_nat(v as nat)
    }
}

/// One-character string for a decimal digit.
fn digit_str(d: u64) -> (s: &'static str)
    requires
        d < 10,
    ensures
        s@ == seq![spec_digit(d as nat)],
{
    proof {
        reveal_strlit("0");
        reveal_strlit("1");
        reveal_strlit("2");
        reveal_strlit("3");
        reveal_strlit("4");
        reveal_strlit("5");
        reveal_strlit("6");
        reveal_strlit("7");
        reveal_strlit("8");
        reveal_strlit("9");
    }
    let s = if d == 0 {
        "0"
    } else if d == 1 {
        "1"
    } else if d == 2 {
        "2"
    } else if d == 3 {
        "3"
    } else if d == 4 {
        "4"
    } else if d == 5 {
        "5"
    } else if d == 6 {
        "6"
    } else if d == 7 {
        "7"
    } else if d == 8 {
        "8"
    } else {
        "9"
    };
    proof {
        assert(s@ =~= seq![spec_digit(d as nat)]);
    }
    s
}

/// Render an unsigned integer in decimal.
pub fn fmt_u64(n: u64) -> (s: String)
    ensures
        s@ == spec_dec_nat(n as nat),
    decreases n,
{
    let ds = digit_str(n % 10);
    if n < 10 {
        let s = String::from_str(ds);
        proof {
            assert(s@ =~= spec_dec_nat(n as nat));
        }
        s
    } else {
        let mut s = fmt_u64(n / 10);
        s.append(ds);
        proof {
            assert(s@ =~= spec_dec_nat(n as nat));
        }
        s
    }
}

/// Render a signed integer in decimal.
pub fn fmt_i32(v: i32) -> (s: String)
    ensures
        s@ == spec_dec_int(v as int),
{
    if v >= 0 {
        fmt_u64(v as u64)
    } else {
        let mag: i64 = -(v as i64);
        let mut s = String::from_str("-");
        let digits = fmt_u64(mag as u64);
        s.append(digits.as_str());
        proof {
            reveal_strlit("-");
            assert(s@ =~= spec_dec_int(v as int));
        }
        s
    }
}

} // verus!
