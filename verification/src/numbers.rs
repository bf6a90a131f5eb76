//! Rendering exact fractions as decimal text, rounded to a fixed number of
//! places (half to even).

use vstd::prelude::*;
use crate::text::{decimal, digit_char};
use crate::models::quality::Ratio;

verus! {

/// `num / den` rounded to the nearest integer, ties to the even one.
pub open spec fn round_half_even(num: nat, den: nat) -> nat
    recommends
        den > 0,
{
    let q = num / den;
    let r = num % den;
    if 2 * r > den {
        q + 1
    } else if 2 * r < den {
        q
    } else if q % 2 == 0 {
        q
    } else {
        q + 1
    }
}

/// The text of `v` hundredths: its integer part, a point, and two digits.
pub open spec fn hundredths_text(v: nat) -> Seq<char> {
    decimal(v / 100) + "."@ + seq![digit_char((v % 100) / 10), digit_char(v % 10)]
}

/// The fraction shown with no decimals.
pub open spec fn whole_text(r: Ratio) -> Seq<char> {
    decimal(round_half_even(r.num as nat, r.den as nat))
}

/// The fraction shown with two decimals.
pub open spec fn two_places_text(r: Ratio) -> Seq<char> {
    hundredths_text(round_half_even(100 * (r.num as nat), r.den as nat))
}

/// The fraction shown as a whole percentage.
pub open spec fn percent_text(r: Ratio) -> Seq<char> {
    decimal(round_half_even(100 * (r.num as nat), r.den as nat))
}

/// The fraction can be shown: a positive denominator, and a numerator small
/// enough to be scaled by a hundred.
pub open spec fn renderable(r: Ratio) -> bool {
    r.den > 0 && r.num <= u128::MAX / 100
}

/// The decimal digits of `n`.
fn decimal_chars128(n: u128) -> (res: Vec<char>)
    ensures
        res@ == decimal(n as nat),
    decreases n,
{
    let d: u8 = (n % 10) as u8;
    let c: char = (48u8 + d) as char;
    if n < 10 {
        let mut v: Vec<char> = Vec::new();
        v.push(c);
        assert(v@ =~= seq![digit_char(n as nat)]);
        v
    } else {
        let mut v = decimal_chars128(n / 10);
        v.push(c);
        v
    }
}

/// The decimal text of `n`.
pub fn decimal_string128(n: u128) -> (res: String)
    ensures
        res@ == decimal(n as nat),
{
    crate::text::string_of(&decimal_chars128(n))
}

/// `num / den` rounded half to even.
fn round_exec(num: u128, den: u128) -> (r: u128)
    requires
        den > 0,
    ensures
        r == round_half_even(num as nat, den as nat),
{
    let q = num / den;
    let r = num % den;
    assert(q * den + r == num) by (nonlinear_arith)
        requires q == num / den, r == num % den, den > 0;
    assert(q <= num) by (nonlinear_arith)
        requires q == num / den, den > 0;
    let half_over = r > den - r;
    let half_under = r < den - r;
    if half_over {
        assert(q < num || r > 0);
        if q == u128::MAX {
            assert(false) by (nonlinear_arith)
                requires q * den + r == num, q == u128::MAX, den > 0, r > 0, num <= u128::MAX;
        }
        q + 1
    } else if half_under {
        q
    } else if q % 2 == 0 {
        q
    } else {
        if q == u128::MAX {
            assert(false) by (nonlinear_arith)
                requires q * den + r == num, q == u128::MAX, den > 0, r == den - r, num <= u128::MAX;
        }
        q + 1
    }
}

/// The fraction with no decimals.
pub fn whole(r: Ratio) -> (s: String)
    requires
        r.den > 0,
    ensures
        s@ == whole_text(r),
{
    decimal_string128(round_exec(r.num, r.den))
}

/// The fraction as a whole percentage.
pub fn percent(r: Ratio) -> (s: String)
    requires
        renderable(r),
    ensures
        s@ == percent_text(r),
{
    decimal_string128(round_exec(100 * r.num, r.den))
}

/// The fraction with two decimals.
pub fn two_places(r: Ratio) -> (s: String)
    requires
        renderable(r),
    ensures
        s@ == two_places_text(r),
{
    let v = round_exec(100 * r.num, r.den);
    let mut s = decimal_string128(v / 100);
    s.append(".");
    let tens: u8 = ((v % 100) / 10) as u8;
    let units: u8 = (v % 10) as u8;
    crate::text::push_char(&mut s, (48u8 + tens) as char);
    crate::text::push_char(&mut s, (48u8 + units) as char);
    proof {
        reveal_strlit(".");
    }
    s
}

} // verus!
