//! The conversion formula on whole degrees.

use vstd::prelude::*;

verus! {

/// Quotient of `a` by a positive `b`, rounded toward zero.
///
/// Spec-level `/` is Euclidean and rounds toward negative infinity for a
/// negative dividend, so the negative case is stated through `-a`.
pub open spec fn div_toward_zero(a: int, b: int) -> int
    recommends
        b > 0,
{
    if a >= 0 {
        a / b
    } else {
        -((-a) / b)
    }
}

/// Whole degrees Celsius for whole degrees Fahrenheit:
/// `(f - 32) * 5 / 9`, the quotient rounded toward zero.
pub open spec fn celsius_of(fahrenheit: int) -> int {
    div_toward_zero((fahrenheit - 32) * 5, 9)
}

/// Rounding toward zero leaves a remainder that is smaller in magnitude than
/// the divisor and never has the opposite sign of the dividend.
pub proof fn lemma_div_toward_zero_remainder(a: int, b: int)
    requires
        b > 0,
    ensures
        a >= 0 ==> 0 <= a - div_toward_zero(a, b) * b < b,
        a <= 0 ==> -b < a - div_toward_zero(a, b) * b <= 0,
{
    if a >= 0 {
        assert(0 <= a - (a / b) * b < b) by (nonlinear_arith)
            requires
                b > 0,
        ;
    } else {
        let n = -a;
        assert(0 <= n - (n / b) * b < b) by (nonlinear_arith)
            requires
                b > 0,
        ;
        assert((-(n / b)) * b == -((n / b) * b)) by (nonlinear_arith);
    }
}

/// The Celsius value of every `i32` reading is itself an `i32`.
pub proof fn lemma_celsius_fits_i32(fahrenheit: int)
    requires
        i32::MIN <= fahrenheit <= i32::MAX,
    ensures
        i32::MIN <= celsius_of(fahrenheit) <= i32::MAX,
{
}

/// Converts whole degrees Fahrenheit to whole degrees Celsius.
///
/// The product is formed in 64 bits, so the result is the exact value of the
/// formula for every input.
pub fn fahrenheit_to_celsius(fahrenheit: i32) -> (celsius: i32)
    ensures
        celsius == celsius_of(fahrenheit as int),
{
    let scaled: i64 = (fahrenheit as i64 - 32) * 5;
    let quotient: i64 = scaled / 9;
    quotient as i32
}

} // verus!
