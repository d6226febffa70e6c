//! Fee policy: a protocol fee is a basis-point share of a principal amount,
//! clamped by a configured floor (subscription billing) or ceiling
//! (peer-to-peer transfers).  Division always truncates toward zero, so the
//! protocol never over-collects through rounding.

use vstd::prelude::*;
use vstd::arithmetic::div_mod::{lemma_hoist_over_denominator, lemma_div_is_ordered};
use vstd::arithmetic::mul::lemma_mul_is_distributive_add_other_way;

verus! {

/// Basis points making up 100%: a fee rate is expressed out of 10_000.
pub const MAX_FEE_DECIMAL: u64 = 10_000;

/// Largest configurable fee rate, 500 basis points (5%).  Rates above this
/// are rejected when a configuration is set, not at charge time.
pub const MAX_FEE_BPS: u64 = 500;

/// The raw basis-point fee on `amount`: `floor(amount * bps / 10_000)`.
pub open spec fn spec_bps_fee(amount: u128, bps: u64) -> int {
    (amount * bps) / (MAX_FEE_DECIMAL as int)
}

/// Validates a configurable protocol fee rate: anything from 0 (0%) to
/// 500 basis points (5%) is accepted.
pub fn validate_protocol_fee(protocol_fee: u64) -> (valid: bool)
    ensures
        valid == (protocol_fee <= MAX_FEE_BPS),
{
    protocol_fee <= MAX_FEE_BPS
}

/// Splitting the numerator at the denominator computes the truncating
/// share exactly, and a proportion of at most one never exceeds the
/// amount.
pub proof fn lemma_mul_div_split(amount: u128, num: u64, den: u64)
    requires
        0 < den,
        num <= den,
    ensures
        (amount * num) / (den as int) == ((amount as int) / (den as int)) * num + (((
        amount as int) % (den as int)) * num) / (den as int),
        (amount * num) / (den as int) <= amount,
        (amount * num) / (den as int) >= 0,
{
    let d: int = den as int;
    let q: int = (amount as int) / d;
    let r: int = (amount as int) % d;
    assert(amount == q * d + r) by {
        vstd::arithmetic::div_mod::lemma_fundamental_div_mod(amount as int, d);
        assert(d * q == q * d) by (nonlinear_arith);
    }
    assert((q * d + r) * num == (q * num) * d + r * num) by {
        lemma_mul_is_distributive_add_other_way(num as int, q * d, r);
        assert((q * d) * num == (q * num) * d) by (nonlinear_arith);
    }
    assert((r * num) / d + q * num == (r * num + (q * num) * d) / d) by {
        lemma_hoist_over_denominator(r * num, q * num, den as nat);
    }
    assert(amount * num <= amount * d) by (nonlinear_arith)
        requires num <= d && amount >= 0;
    assert((amount * num) / d <= (amount * d) / d) by {
        lemma_div_is_ordered(amount * num, amount * d, d);
    }
    assert((amount * d) / d == amount) by {
        vstd::arithmetic::div_mod::lemma_div_multiples_vanish(amount as int, d);
        assert(amount * d == d * amount) by (nonlinear_arith);
    }
    assert(amount * num >= 0) by (nonlinear_arith)
        requires amount >= 0 && num >= 0;
    assert((amount * num) / d >= 0) by {
        vstd::arithmetic::div_mod::lemma_div_pos_is_pos(amount * num, d);
    }
}

proof fn lemma_bps_fee_split(amount: u128, bps: u64)
    requires
        bps <= MAX_FEE_DECIMAL,
    ensures
        spec_bps_fee(amount, bps) <= amount,
        spec_bps_fee(amount, bps) >= 0,
{
    lemma_mul_div_split(amount, bps, MAX_FEE_DECIMAL);
}

/// The truncating proportional share `floor(amount * num / den)`, for a
/// proportion of at most one, computed without overflow by splitting
/// `amount` at the denominator.  Every proportional amount in the library
/// — basis-point fees and streamed balances alike — truncates this way, so
/// the protocol never over-collects through rounding.
pub fn mul_div_floor(amount: u128, num: u64, den: u64) -> (share: u128)
    requires
        0 < den,
        num <= den,
    ensures
        share == (amount * num) / (den as int),
        share <= amount,
{
    proof {
        lemma_mul_div_split(amount, num, den);
    }
    let q: u128 = amount / (den as u128);
    let r: u128 = amount % (den as u128);
    assert(q * num <= amount) by (nonlinear_arith)
        requires q == amount / (den as u128) && num <= den && 0 < den && amount >= 0;
    assert(r * num < 0x1_0000_0000_0000_0000 * 0x1_0000_0000_0000_0000) by (nonlinear_arith)
        requires r < den && den <= u64::MAX && num <= u64::MAX;
    q * (num as u128) + (r * (num as u128)) / (den as u128)
}

/// The truncating basis-point fee, `floor(amount * bps / 10_000)`.
pub fn bps_fee(amount: u128, bps: u64) -> (fee: u128)
    requires
        bps <= MAX_FEE_DECIMAL,
    ensures
        fee == spec_bps_fee(amount, bps),
        fee <= amount,
{
    mul_div_floor(amount, bps, MAX_FEE_DECIMAL)
}

/// The fee payable on a subscription charge of `amount`, at `protocol_fee_bps`
/// with an absolute floor of `min_protocol_fee`.  Returns `None` when the
/// rate is zero (the no-fee path); otherwise the raw basis-point fee, raised
/// to the floor when it falls below it.
pub fn calculate_protocol_fee(
    protocol_fee_bps: u64,
    min_protocol_fee: u128,
    amount: u128,
) -> (fee: Option<u128>)
    requires
        protocol_fee_bps <= MAX_FEE_DECIMAL,
    ensures
        protocol_fee_bps == 0 <==> fee is None,
        protocol_fee_bps != 0 ==> fee
            == Some(spec_max_fee(spec_bps_fee(amount, protocol_fee_bps), min_protocol_fee as int) as u128),
        fee is Some ==> fee->0 >= min_protocol_fee,
{
    if protocol_fee_bps == 0 {
        return None;
    }
    let raw: u128 = bps_fee(amount, protocol_fee_bps);
    if raw < min_protocol_fee {
        Some(min_protocol_fee)
    } else {
        Some(raw)
    }
}

/// The larger of two fee amounts.
pub open spec fn spec_max_fee(a: int, b: int) -> int {
    if a >= b { a } else { b }
}

/// The smaller of two fee amounts.
pub open spec fn spec_min_fee(a: int, b: int) -> int {
    if a <= b { a } else { b }
}

/// The subscription fee never falls below the configured floor while the
/// rate is non-zero, and never exceeds the charged amount when the floor
/// itself does not.
pub proof fn lemma_fee_respects_floor(
    protocol_fee_bps: u64,
    min_protocol_fee: u128,
    amount: u128,
)
    requires
        0 < protocol_fee_bps <= MAX_FEE_DECIMAL,
    ensures
        spec_max_fee(spec_bps_fee(amount, protocol_fee_bps), min_protocol_fee as int)
            >= min_protocol_fee,
        min_protocol_fee <= amount ==> spec_max_fee(
            spec_bps_fee(amount, protocol_fee_bps),
            min_protocol_fee as int,
        ) <= amount,
{
    lemma_bps_fee_split(amount, protocol_fee_bps);
}

} // verus!
