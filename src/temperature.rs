//! Fahrenheit/Celsius conversion on `i32` with division that truncates toward zero.
use vstd::prelude::*;

verus! {

/// Integer division rounded toward zero, as Rust's `/` does on signed integers.
/// (Verus's `/` on `int` is Euclidean, which rounds negative quotients down instead.)
pub open spec fn div_toward_zero(a: int, b: int) -> int
    recommends
        b > 0,
{
    if a >= 0 {
        a / b
    } else {
        -((-a) / b)
    }
}

/// Degrees Celsius for `t` degrees Fahrenheit: `(t - 32) * 5 / 9`, truncated toward zero.
pub open spec fn fahrenheit_to_celsius(t: int) -> int {
    div_toward_zero((t - 32) * 5, 9)
}

/// Degrees Fahrenheit for `t` degrees Celsius: `t * 9 / 5`, truncated toward zero, plus 32.
pub open spec fn celsius_to_fahrenheit(t: int) -> int {
    div_toward_zero(t * 9, 5) + 32
}

/// Converts a Fahrenheit temperature to Celsius.
pub fn f2c(temp: i32) -> (r: i32)
    requires
        i32::MIN <= (temp - 32) * 5 <= i32::MAX,
    ensures
        r == fahrenheit_to_celsius(temp as int),
{
    (temp - 32) * 5 / 9
}

/// Converts a Celsius temperature to Fahrenheit.
pub fn c2f(temp: i32) -> (r: i32)
    requires
        i32::MIN <= temp * 9 <= i32::MAX,
    ensures
        r == celsius_to_fahrenheit(temp as int),
{
    temp * 9 / 5 + 32
}

/// The Celsius -> Fahrenheit -> Celsius round trip on a non-negative value.
proof fn lemma_round_trip_nonneg(x: int)
    requires
        x >= 0,
    ensures
        x % 5 == 0 ==> fahrenheit_to_celsius(celsius_to_fahrenheit(x)) == x,
        x % 5 != 0 ==> fahrenheit_to_celsius(celsius_to_fahrenheit(x)) == x - 1,
{
    let k = x / 5;
    let m = x % 5;
    assert(x == 5 * k + m && 0 <= m < 5 && k >= 0);
    let q = (x * 9) / 5;
    assert(q == 9 * k + (9 * m) / 5) by (nonlinear_arith)
        requires x == 5 * k + m, 0 <= m < 5, q == (x * 9) / 5;
    assert(celsius_to_fahrenheit(x) == q + 32);
    assert(fahrenheit_to_celsius(celsius_to_fahrenheit(x)) == (q * 5) / 9);
    if m == 0 {
        assert((q * 5) / 9 == x) by (nonlinear_arith)
            requires x == 5 * k, q == 9 * k;
    } else {
        assert((q * 5) / 9 == x - 1) by (nonlinear_arith)
            requires x == 5 * k + m, 1 <= m < 5, q == 9 * k + (9 * m) / 5;
    }
}

/// Converting a Celsius value to Fahrenheit and back gives the value again exactly when it
/// is a multiple of 5. For any other value the two truncations lose one degree, so the
/// result lies one degree closer to zero.
pub proof fn lemma_round_trip(x: int)
    ensures
        fahrenheit_to_celsius(celsius_to_fahrenheit(x)) == x <==> x % 5 == 0,
        x % 5 != 0 && x > 0 ==> fahrenheit_to_celsius(celsius_to_fahrenheit(x)) == x - 1,
        x % 5 != 0 && x < 0 ==> fahrenheit_to_celsius(celsius_to_fahrenheit(x)) == x + 1,
{
    if x >= 0 {
        lemma_round_trip_nonneg(x);
    } else {
        lemma_round_trip_nonneg(-x);
        assert(celsius_to_fahrenheit(x) - 32 == -(celsius_to_fahrenheit(-x) - 32));
        assert(fahrenheit_to_celsius(celsius_to_fahrenheit(x)) == -fahrenheit_to_celsius(
            celsius_to_fahrenheit(-x),
        ));
        assert(x % 5 == 0 <==> (-x) % 5 == 0);
    }
}

} // verus!
