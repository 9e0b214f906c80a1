//! Decimal rendering of counters, used by error messages and reports.

use vstd::prelude::*;

verus! {

use vstd::string::StringExecFns;

/// The character for a single decimal digit.
pub open spec fn spec_decimal_digit(d: int) -> char {
    if d == 0 {
        '0'
    } else if d == 1 {
        '1'
    } else if d == 2 {
        '2'
    } else if d == 3 {
        '3'
    } else if d == 4 {
        '4'
    } else if d == 5 {
        '5'
    } else if d == 6 {
        '6'
    } else if d == 7 {
        '7'
    } else if d == 8 {
        '8'
    } else {
        '9'
    }
}

/// The usual base-ten rendering of a non-negative integer, most significant
/// digit first and without leading zeroes (except for zero itself).
pub open spec fn spec_decimal(n: int) -> Seq<char>
    recommends
        n >= 0,
    decreases n,
{
    if n < 10 {
        seq![spec_decimal_digit(n)]
    } else {
        spec_decimal(n / 10) + seq![spec_decimal_digit(n % 10)]
    }
}

/// The one-character string for a single decimal digit.
fn digit_string(d: usize) -> (r: String)
    requires
        d < 10,
    ensures
        r@ == seq![spec_decimal_digit(d as int)],
{
    let s: &str = if d == 0 {
        "0"
    } else if d == 1 {
        "1"
    } else if d == 2 {
        "2"
    } else if d == 3 {
        "3"
    } else if d == 4 {
        "4"
    } else if d == 5 {
        "5"
    } else if d == 6 {
        "6"
    } else if d == 7 {
        "7"
    } else if d == 8 {
        "8"
    } else {
        "9"
    };
    proof {
        reveal_strlit("0");
        reveal_strlit("1");
        reveal_strlit("2");
        reveal_strlit("3");
        reveal_strlit("4");
        reveal_strlit("5");
        reveal_strlit("6");
        reveal_strlit("7");
        reveal_strlit("8");
        reveal_strlit("9");
        assert(s@ =~= seq![spec_decimal_digit(d as int)]);
    }
    String::from_str(s)
}

/// Renders a counter in base ten.
pub fn decimal_string(n: usize) -> (r: String)
    ensures
        r@ == spec_decimal(n as int),
    decreases n,
{
    if n < 10 {
        digit_string(n)
    } else {
        let mut s = decimal_string(n / 10);
        let tail = digit_string(n % 10);
        s.append(tail.as_str());
        s
    }
}

} // verus!
