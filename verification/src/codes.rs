//! Retrieval codes: the six-digit numeric handles under which
//! finished artifacts are fetched, and their decimal spelling, which
//! is appended to artifact paths.

use vstd::prelude::*;

verus! {

/// The character for one decimal digit.
pub open spec fn decimal_digit(d: int) -> char {
    if d == 0 {
        '0'
    } else if d == 1 {
        '1'
    } else if d == 2 {
        '2'
    } else if d == 3 {
        '3'
    } else if d == 4 {
        '4'
    } else if d == 5 {
        '5'
    } else if d == 6 {
        '6'
    } else if d == 7 {
        '7'
    } else if d == 8 {
        '8'
    } else {
        '9'
    }
}

/// The usual decimal spelling of `n`: most significant digit first,
/// no leading zeroes (a lone zero for zero itself).
pub open spec fn decimal_digits(n: nat) -> Seq<char>
    decreases n,
{
    if n < 10 {
        seq![decimal_digit(n as int)]
    } else {
        decimal_digits(n / 10).push(decimal_digit((n % 10) as int))
    }
}

/// One digit as text.
fn decimal_digit_str(d: u64) -> (r: &'static str)
    requires
        d < 10,
    ensures
        r@ == seq![decimal_digit(d as int)],
{
    proof {
        reveal_strlit("0");
        reveal_strlit("1");
        reveal_strlit("2");
        reveal_strlit("3");
        reveal_strlit("4");
        reveal_strlit("5");
        reveal_strlit("6");
        reveal_strlit("7");
        reveal_strlit("8");
        reveal_strlit("9");
    }
    if d == 0 {
        let r = "0";
        assert(r@ =~= seq![decimal_digit(d as int)]);
        r
    } else if d == 1 {
        let r = "1";
        assert(r@ =~= seq![decimal_digit(d as int)]);
        r
    } else if d == 2 {
        let r = "2";
        assert(r@ =~= seq![decimal_digit(d as int)]);
        r
    } else if d == 3 {
        let r = "3";
        assert(r@ =~= seq![decimal_digit(d as int)]);
        r
    } else if d == 4 {
        let r = "4";
        assert(r@ =~= seq![decimal_digit(d as int)]);
        r
    } else if d == 5 {
        let r = "5";
        assert(r@ =~= seq![decimal_digit(d as int)]);
        r
    } else if d == 6 {
        let r = "6";
        assert(r@ =~= seq![decimal_digit(d as int)]);
        r
    } else if d == 7 {
        let r = "7";
        assert(r@ =~= seq![decimal_digit(d as int)]);
        r
    } else if d == 8 {
        let r = "8";
        assert(r@ =~= seq![decimal_digit(d as int)]);
        r
    } else {
        let r = "9";
        assert(r@ =~= seq![decimal_digit(d as int)]);
        r
    }
}

/// Renders `n` in decimal.
pub fn u64_to_decimal(n: u64) -> (r: String)
    ensures
        r@ == decimal_digits(n as nat),
    decreases n,
{
    if n < 10 {
        String::from_str(decimal_digit_str(n))
    } else {
        let mut r = u64_to_decimal(n / 10);
        r.append(decimal_digit_str(n % 10));
        assert(r@ =~= decimal_digits((n / 10) as nat).push(decimal_digit((n % 10) as int)));
        r
    }
}

/// Renders a retrieval code in decimal.
pub fn code_to_decimal(code: i32) -> (r: String)
    requires
        code >= 0,
    ensures
        r@ == decimal_digits(code as nat),
{
    u64_to_decimal(code as u64)
}

/// Relies on rand::random_range: the result is uniformly drawn from
/// the given range, which is nonempty here.  Nothing more can be
/// promised of a random value.
#[verifier::external_body]
pub(crate) fn random_fetch_code() -> (r: i32)
    ensures
        100000 <= r < 1000000,
{
    rand::random_range(100000..1000000)
}

} // verus!
