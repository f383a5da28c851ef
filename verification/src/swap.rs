//! The constant-product pricing rule with the fixed 0.3% protocol fee.
//!
//! A swap that sends `amount_in` units of one token into a pair holding
//! `reserve_in` units of that token and `reserve_out` units of the other
//! pays out
//!
//! `amount_out = (amount_in * reserve_out * 997) / (reserve_in * 1000 + amount_in * 997)`
//!
//! where 997/1000 encodes the fee. All arithmetic here is exact integer
//! arithmetic: the fraction is produced bit for bit, and the paid-out
//! amount is its floor.

use vstd::prelude::*;

verus! {

/// Numerator of the swap formula: `amount_in * reserve_out * 997`.
pub open spec fn swap_num(amount_in: int, reserve_out: int) -> int {
    amount_in * reserve_out * 997
}

/// Denominator of the swap formula: `reserve_in * 1000 + amount_in * 997`.
pub open spec fn swap_den(amount_in: int, reserve_in: int) -> int {
    reserve_in * 1000 + amount_in * 997
}

/// Floor of the swap formula; meaningful only when the denominator is positive.
pub open spec fn swap_out(amount_in: int, reserve_in: int, reserve_out: int) -> int {
    swap_num(amount_in, reserve_out) / swap_den(amount_in, reserve_in)
}

/// The swap formula's value as an exact fraction.
#[derive(Clone, Copy, PartialEq, Eq, Structural, Debug)]
pub struct SwapFraction {
    pub numerator: u128,
    pub denominator: u128,
}

/// The exact fraction `amount_in * reserve_out * 997 / (reserve_in * 1000 + amount_in * 997)`,
/// or `None` when the numerator does not fit in 128 bits.
pub fn swap_fraction(amount_in: u64, reserve_in: u64, reserve_out: u64) -> (r: Option<
    SwapFraction,
>)
    ensures
        r is Some <==> swap_num(amount_in as int, reserve_out as int) <= u128::MAX,
        r matches Some(f) ==> {
            &&& f.numerator == swap_num(amount_in as int, reserve_out as int)
            &&& f.denominator == swap_den(amount_in as int, reserve_in as int)
        },
{
    proof {
        lemma_u64_mul_fits_u128(amount_in, reserve_out);
        lemma_den_fits_u128(amount_in, reserve_in);
    }
    let wide: u128 = (amount_in as u128) * (reserve_out as u128);
    match wide.checked_mul(997) {
        Some(numerator) => {
            let denominator: u128 = (reserve_in as u128) * 1000 + (amount_in as u128) * 997;
            Some(SwapFraction { numerator, denominator })
        },
        None => None,
    }
}

/// The paid-out amount: the floor of the swap fraction. `None` when the
/// numerator overflows 128 bits or the denominator is zero (an empty pair
/// asked to price a zero input).
pub fn swap_amount_out(amount_in: u64, reserve_in: u64, reserve_out: u64) -> (r: Option<u64>)
    ensures
        r is Some <==> swap_num(amount_in as int, reserve_out as int) <= u128::MAX && swap_den(
            amount_in as int,
            reserve_in as int,
        ) > 0,
        r matches Some(out) ==> out == swap_out(
            amount_in as int,
            reserve_in as int,
            reserve_out as int,
        ),
{
    match swap_fraction(amount_in, reserve_in, reserve_out) {
        Some(f) => {
            if f.denominator == 0 {
                None
            } else {
                let q: u128 = f.numerator / f.denominator;
                proof {
                    lemma_swap_out_bounded(
                        amount_in as int,
                        reserve_in as int,
                        reserve_out as int,
                    );
                }
                Some(q as u64)
            }
        },
        None => None,
    }
}

/// The product of two `u64` values fits in a `u128`.
proof fn lemma_u64_mul_fits_u128(a: u64, b: u64)
    ensures
        a as int * b as int <= u128::MAX,
{
    assert(a as int * b as int <= u128::MAX) by (nonlinear_arith)
        requires
            a <= u64::MAX,
            b <= u64::MAX,
    ;
}

/// The swap denominator for `u64` inputs fits in a `u128`.
proof fn lemma_den_fits_u128(amount_in: u64, reserve_in: u64)
    ensures
        0 <= swap_den(amount_in as int, reserve_in as int) <= u128::MAX,
{
    assert(0 <= reserve_in as int * 1000 + amount_in as int * 997 <= u128::MAX)
        by (nonlinear_arith)
        requires
            amount_in <= u64::MAX,
            reserve_in <= u64::MAX,
    ;
}

/// The paid-out amount never exceeds the output-side reserve: the pool
/// cannot pay out more of a token than it holds.
pub proof fn lemma_swap_out_bounded(amount_in: int, reserve_in: int, reserve_out: int)
    requires
        0 <= amount_in,
        0 <= reserve_in,
        0 <= reserve_out,
        swap_den(amount_in, reserve_in) > 0,
    ensures
        0 <= swap_out(amount_in, reserve_in, reserve_out) <= reserve_out,
{
    let num = swap_num(amount_in, reserve_out);
    let den = swap_den(amount_in, reserve_in);
    assert(0 <= num && num <= reserve_out * den) by (nonlinear_arith)
        requires
            0 <= amount_in,
            0 <= reserve_in,
            0 <= reserve_out,
            num == amount_in * reserve_out * 997,
            den == reserve_in * 1000 + amount_in * 997,
            den > 0,
    ;
    assert(num / den <= reserve_out) by (nonlinear_arith)
        requires
            den > 0,
            0 <= num,
            0 <= reserve_out,
            num <= reserve_out * den,
    ;
}

} // verus!
