use vstd::prelude::*;
use vstd::arithmetic::div_mod::{lemma_div_is_ordered, lemma_fundamental_div_mod_converse};
use vstd::arithmetic::mul::lemma_mul_inequality;

use crate::error::Error;

verus! {

/// Fixed-point scale of the stability pool: 10^14, matching the oracle's decimals.
pub const ONE: i128 = 100_000_000_000_000;

/// Basis points in one whole.
pub const BPS: i128 = 10_000;

/// Seconds in a (non-leap) year, the period of the annual interest rate.
pub const SECONDS_PER_YEAR: i128 = 31_536_000;

pub open spec fn abs(x: int) -> int {
    if x < 0 { -x } else { x }
}

/// `a * b / c` computed exactly and truncated toward zero.
pub open spec fn mul_div_spec(a: int, b: int, c: int) -> int {
    let q = (abs(a) * abs(b)) / abs(c);
    if ((a < 0) != (b < 0)) != (c < 0) { -q } else { q }
}

pub open spec fn fits_i128(x: int) -> bool {
    i128::MIN <= x <= i128::MAX
}

/// Whether `mul_div(a, b, c)` succeeds.
pub open spec fn mul_div_ok(a: int, b: int, c: int) -> bool {
    c != 0 && fits_i128(mul_div_spec(a, b, c))
}

proof fn lemma_floor_of_split(x: int, q: int, r: int, d: int)
    requires
        d > 0,
        0 <= r < d,
        x == q * d + r,
    ensures
        x / d == q,
{
    lemma_fundamental_div_mod_converse(x, d, q, r);
}

/// If a prefix product already has a large quotient, so has the whole product.
proof fn lemma_quotient_grows(x: int, small: int, big: int, d: int, q: int, r: int)
    requires
        x >= 0,
        0 <= small <= big,
        d > 0,
        0 <= r < d,
        x * small == q * d + r,
    ensures
        q <= (x * big) / d,
{
    lemma_mul_inequality(small, big, x);
    assert(x * small <= x * big) by (nonlinear_arith)
        requires x >= 0, small <= big;
    lemma_div_is_ordered(x * small, x * big, d);
    lemma_floor_of_split(x * small, q, r, d);
}

/// `floor(x * y / d)` on unsigned 128-bit values, with the product held at full
/// width; `None` exactly when the quotient does not fit in 128 bits.
fn mul_div_floor(x: u128, y: u128, d: u128) -> (r: Option<u128>)
    requires
        d > 0,
    ensures
        r matches Some(q) ==> q == (x as int * y as int) / (d as int),
        r is None <==> (x as int * y as int) / (d as int) > u128::MAX,
{
    let mut q: u128 = 0;
    let mut r: u128 = 0;
    let mut mq: u128 = x / d;
    let mut mr: u128 = x % d;
    let mut yrem: u128 = y;
    let ghost mut m: int = 1;
    let ghost mut ylow: int = 0;
    proof {
        vstd::arithmetic::div_mod::lemma_fundamental_div_mod(x as int, d as int);
        assert(x * m == mq * d + mr) by (nonlinear_arith)
            requires x as int == d * (x as int / d as int) + x as int % d as int, m == 1,
                mq == x / d, mr == x % d;
    }
    while yrem > 0
        invariant
            d > 0,
            r < d,
            mr < d,
            m >= 1,
            y as int == yrem * m + ylow,
            0 <= ylow,
            yrem > 0 ==> x * m == mq * d + mr,
            x * ylow == q * d + r,
        decreases yrem,
    {
        let bit: u128 = yrem % 2;
        if bit == 1 {
            let carry: u128 = if r >= d - mr { 1 } else { 0 };
            let nr: u128 = if carry == 1 { r - (d - mr) } else { r + mr };
            proof {
                assert(x * (ylow + m) == (q + mq + carry) * d + nr) by (nonlinear_arith)
                    requires
                        x * m == mq * d + mr,
                        x * ylow == q * d + r,
                        carry == 0 || carry == 1,
                        carry == 1 ==> nr == r + mr - d,
                        carry == 0 ==> nr == r + mr,
                ;
                assert(ylow + m <= y) by (nonlinear_arith)
                    requires y as int == yrem * m + ylow, yrem >= 1, m >= 1;
                lemma_quotient_grows(x as int, ylow + m, y as int, d as int, q + mq + carry, nr as int);
            }
            let t = match q.checked_add(mq) {
                Some(t) => t,
                None => { return None; },
            };
            q = match t.checked_add(carry) {
                Some(t2) => t2,
                None => { return None; },
            };
            r = nr;
            proof { ylow = ylow + m; }
        }
        let next: u128 = yrem / 2;
        proof {
            assert(y as int == next * (2 * m) + ylow) by (nonlinear_arith)
                requires
                    yrem == 2 * next + bit,
                    bit == 1 ==> y as int == yrem * m + ylow - m,
                    bit == 0 ==> y as int == yrem * m + ylow,
                    bit == 0 || bit == 1,
            ;
        }
        if next > 0 {
            let c2: u128 = if mr >= d - mr { 1 } else { 0 };
            let nmr: u128 = if c2 == 1 { mr - (d - mr) } else { mr + mr };
            proof {
                assert(x * (2 * m) == (2 * mq + c2) * d + nmr) by (nonlinear_arith)
                    requires
                        x * m == mq * d + mr,
                        c2 == 0 || c2 == 1,
                        c2 == 1 ==> nmr == 2 * mr - d,
                        c2 == 0 ==> nmr == 2 * mr,
                ;
                assert(2 * m <= y) by (nonlinear_arith)
                    requires y as int == next * (2 * m) + ylow, next >= 1, m >= 1, ylow >= 0;
                lemma_quotient_grows(x as int, 2 * m, y as int, d as int, 2 * mq + c2, nmr as int);
            }
            let t = match mq.checked_add(mq) {
                Some(t) => t,
                None => { return None; },
            };
            mq = match t.checked_add(c2) {
                Some(t2) => t2,
                None => { return None; },
            };
            mr = nmr;
            proof { m = 2 * m; }
        } else {
            proof {
                assert(y as int == ylow) by (nonlinear_arith)
                    requires y as int == next * (2 * m) + ylow, next == 0;
            }
        }
        yrem = next;
    }
    proof {
        assert(y as int == ylow) by (nonlinear_arith)
            requires y as int == yrem * m + ylow, yrem == 0;
        lemma_floor_of_split(x as int * y as int, q as int, r as int, d as int);
    }
    Some(q)
}

} // verus!

verus! {

/// Magnitude of a signed value; `i128::MIN` maps to 2^127.
fn magnitude(a: i128) -> (r: u128)
    ensures
        r as int == abs(a as int),
{
    if a >= 0 {
        a as u128
    } else {
        ((-(a + 1)) as u128) + 1
    }
}

/// `a * b / c` with a full-width intermediate product, truncated toward zero.
/// Fails with `ArithmeticError` on division by zero or when the quotient does not
/// fit in 128 bits.
pub fn mul_div(a: i128, b: i128, c: i128) -> (r: Result<i128, Error>)
    ensures
        r is Ok <==> mul_div_ok(a as int, b as int, c as int),
        r matches Ok(v) ==> v == mul_div_spec(a as int, b as int, c as int),
        r matches Err(e) ==> e == Error::ArithmeticError,
{
    if c == 0 {
        return Err(Error::ArithmeticError);
    }
    let q = match mul_div_floor(magnitude(a), magnitude(b), magnitude(c)) {
        Some(q) => q,
        None => {
            return Err(Error::ArithmeticError);
        },
    };
    let negative = ((a < 0) != (b < 0)) != (c < 0);
    if negative {
        if q < 0x8000_0000_0000_0000_0000_0000_0000_0000u128 {
            Ok(-(q as i128))
        } else if q == 0x8000_0000_0000_0000_0000_0000_0000_0000u128 {
            Ok(i128::MIN)
        } else {
            Err(Error::ArithmeticError)
        }
    } else if q <= i128::MAX as u128 {
        Ok(q as i128)
    } else {
        Err(Error::ArithmeticError)
    }
}

/// `a + b`, or `ArithmeticError` when the sum leaves the `i128` range.
pub fn checked_sum(a: i128, b: i128) -> (r: Result<i128, Error>)
    ensures
        r is Ok <==> fits_i128(a + b),
        r matches Ok(v) ==> v == a + b,
        r matches Err(e) ==> e == Error::ArithmeticError,
{
    match a.checked_add(b) {
        Some(v) => Ok(v),
        None => Err(Error::ArithmeticError),
    }
}

/// `a - b`, or `ArithmeticError` when the difference leaves the `i128` range.
pub fn checked_diff(a: i128, b: i128) -> (r: Result<i128, Error>)
    ensures
        r is Ok <==> fits_i128(a - b),
        r matches Ok(v) ==> v == a - b,
        r matches Err(e) ==> e == Error::ArithmeticError,
{
    match a.checked_sub(b) {
        Some(v) => Ok(v),
        None => Err(Error::ArithmeticError),
    }
}

/// `a * b`, or `ArithmeticError` when the product leaves the `i128` range.
pub fn checked_product(a: i128, b: i128) -> (r: Result<i128, Error>)
    ensures
        r is Ok <==> fits_i128(a * b),
        r matches Ok(v) ==> v == a * b,
        r matches Err(e) ==> e == Error::ArithmeticError,
{
    match a.checked_mul(b) {
        Some(v) => Ok(v),
        None => Err(Error::ArithmeticError),
    }
}

/// `a / b` truncated toward zero, or `ArithmeticError` on division by zero or
/// when the quotient leaves the `i128` range (`i128::MIN / -1`).
pub fn checked_quotient(a: i128, b: i128) -> (r: Result<i128, Error>)
    ensures
        r is Ok <==> b != 0 && !(a == i128::MIN && b == -1),
        r matches Ok(v) ==> v == mul_div_spec(a as int, 1, b as int),
        r matches Err(e) ==> e == Error::ArithmeticError,
{
    proof {
        if b != 0 {
            let x = abs(a as int);
            let y = abs(b as int);
            assert(x * 1 == x);
            vstd::arithmetic::div_mod::lemma_div_is_ordered_by_denominator(x, 1, y);
            if y >= 2 {
                vstd::arithmetic::div_mod::lemma_div_is_ordered_by_denominator(x, 2, y);
            }
            assert(x / 1 == x);
        }
    }
    mul_div(a, 1, b)
}

/// A rate in basis points as a fraction scaled by `ONE`.
pub fn from_rate_bps(bps: u32) -> (r: i128)
    ensures
        r == bps as int * (ONE / BPS),
{
    assert(bps as int * (ONE / BPS) <= u32::MAX as int * 10_000_000_000) by (nonlinear_arith)
        requires bps <= u32::MAX, ONE / BPS == 10_000_000_000int;
    (bps as i128) * (ONE / BPS)
}

} // verus!
