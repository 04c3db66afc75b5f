//! Conversion of an externally denominated requested value into the required
//! native amount, using a fixed-point oracle price.
//!
//! The price is carried in thousandths of the external currency unit per
//! coin, and one coin is `10^18` smallest native units, so the required
//! amount is `requested * 10^21 / price_milli`, rounded down.

use vstd::prelude::*;
use vstd::arithmetic::div_mod::lemma_fundamental_div_mod;
use vstd::arithmetic::mul::lemma_mul_inequality;

verus! {

/// Smallest native units per thousandth of the external currency unit:
/// `10^18` units per coin times the `10^3` price denominator.
pub const AMOUNT_SCALE: u128 = 1_000_000_000_000_000_000_000;

/// Largest `requested` whose scaled numerator still fits in a `u128`:
/// `u128::MAX / AMOUNT_SCALE`.
pub const MAX_SCALED_REQUEST: u128 = 340_282_366_920_938_463;

/// The exact required amount as an unbounded integer (rounded down).
pub open spec fn spec_required_amount(requested: u64, price_milli: u64) -> int {
    (requested as int) * (AMOUNT_SCALE as int) / (price_milli as int)
}

/// How many smallest native units a deposit must reach to cover `requested`
/// external units at price `price_milli`.
///
/// Returns `None` exactly when the price is zero or the exact amount does
/// not fit in a `u64`.
pub fn required_amount(requested: u64, price_milli: u64) -> (r: Option<u64>)
    ensures
        price_milli == 0 ==> r is None,
        price_milli > 0 ==> (if spec_required_amount(requested, price_milli) <= u64::MAX as int {
            r == Some(spec_required_amount(requested, price_milli) as u64)
        } else {
            r is None
        }),
{
    if price_milli == 0 {
        return None;
    }
    let wide: u128 = requested as u128;
    if wide > MAX_SCALED_REQUEST {
        proof {
            lemma_overflowing_request_exceeds_u64(requested, price_milli);
        }
        return None;
    }
    proof {
        lemma_fundamental_div_mod(u128::MAX as int, AMOUNT_SCALE as int);
        lemma_mul_inequality(
            wide as int,
            (u128::MAX / AMOUNT_SCALE) as int,
            AMOUNT_SCALE as int,
        );
        assert(MAX_SCALED_REQUEST == u128::MAX / AMOUNT_SCALE);
    }
    let numerator: u128 = wide * AMOUNT_SCALE;
    let quotient: u128 = numerator / (price_milli as u128);
    if quotient > u64::MAX as u128 {
        None
    } else {
        Some(quotient as u64)
    }
}

/// When the scaled numerator exceeds `u128::MAX`, the exact required amount
/// exceeds `u64::MAX`, so refusing the request is the answer the contract
/// demands.
proof fn lemma_overflowing_request_exceeds_u64(requested: u64, price_milli: u64)
    requires
        1 <= price_milli,
        requested as u128 > MAX_SCALED_REQUEST,
    ensures
        spec_required_amount(requested, price_milli) > u64::MAX as int,
{
    let n = (requested as int) * (AMOUNT_SCALE as int);
    assert((MAX_SCALED_REQUEST as int + 1) * (AMOUNT_SCALE as int) > u128::MAX as int);
    lemma_mul_inequality(
        MAX_SCALED_REQUEST as int + 1,
        requested as int,
        AMOUNT_SCALE as int,
    );
    assert(n > u128::MAX as int);
    assert(n / (price_milli as int) > u64::MAX as int) by (nonlinear_arith)
        requires
            n > u128::MAX as int,
            1 <= price_milli <= u64::MAX,
            u128::MAX as int == (u64::MAX as int) * ((u64::MAX as int) + 2),
    ;
}

} // verus!
