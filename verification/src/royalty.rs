//! Royalty settlement arithmetic.
//!
//! A sale splits its price into a royalty for the event organizer and the
//! proceeds for the seller.  The royalty rate is expressed in basis
//! points (hundredths of a percent); the royalty is rounded down by
//! integer division, so the two parts never exceed the price.

use vstd::prelude::*;
use vstd::arithmetic::div_mod::{
    lemma_fundamental_div_mod, lemma_hoist_over_denominator, lemma_div_is_ordered,
    lemma_div_by_multiple,
};
use vstd::arithmetic::mul::{
    lemma_mul_inequality, lemma_mul_is_distributive_add_other_way, lemma_mul_is_associative,
    lemma_mul_is_commutative,
};

verus! {

/// Maximum number of basis points used for royalty splits: 10,000 bps = 100%.
pub const MAX_BPS: u16 = 10_000;

/// The royalty owed on a sale: `floor(price * bps / 10000)`.
pub open spec fn royalty_of(price: u128, bps: u16) -> int {
    (price * bps) / (MAX_BPS as int)
}

/// The seller's share of a sale: whatever the royalty leaves of the price.
pub open spec fn proceeds_of(price: u128, bps: u16) -> int {
    price - royalty_of(price, bps)
}

/// The royalty never exceeds the sale price while the rate stays within
/// 100%, so the seller's share is never negative.
pub proof fn lemma_royalty_le_price(price: u128, bps: u16)
    requires
        bps <= MAX_BPS,
    ensures
        0 <= royalty_of(price, bps) <= price,
{
    let d = MAX_BPS as int;
    lemma_mul_inequality(bps as int, d, price as int);
    lemma_mul_is_commutative(price as int, bps as int);
    lemma_mul_is_commutative(price as int, d);
    assert(price * bps <= price * d);
    lemma_div_is_ordered(price * bps, price * d, d);
    lemma_div_by_multiple(price as int, d);
    assert((price * d) / d == price as int);
    assert(0 <= price * bps) by (nonlinear_arith)
        requires price >= 0 && bps >= 0;
    lemma_div_is_ordered(0, price * bps, d);
}

/// Royalty conservation: the royalty and the proceeds always add up to
/// exactly the sale price, and neither part is negative.
pub proof fn lemma_royalty_conservation(price: u128, bps: u16)
    requires
        bps <= MAX_BPS,
    ensures
        royalty_of(price, bps) + proceeds_of(price, bps) == price,
        0 <= royalty_of(price, bps),
        0 <= proceeds_of(price, bps),
{
    lemma_royalty_le_price(price, bps);
}

/// Computes `floor(price * bps / 10000)` without intermediate overflow by
/// splitting the price into its multiple of 10,000 and the remainder.
pub fn royalty_amount(price: u128, bps: u16) -> (r: u128)
    requires
        bps <= MAX_BPS,
    ensures
        r == royalty_of(price, bps),
        r <= price,
{
    let denom: u128 = MAX_BPS as u128;
    let q: u128 = price / denom;
    let rem: u128 = price % denom;
    let b: u128 = bps as u128;

    proof {
        let d = denom as int;
        lemma_fundamental_div_mod(price as int, d);
        // q * b fits: q * b <= q * d <= price
        lemma_mul_inequality(b as int, d, q as int);
        lemma_mul_is_commutative(q as int, b as int);
        lemma_mul_is_commutative(q as int, d);
        assert(q * b <= q * d);
    }
    let high: u128 = q * b;
    proof {
        assert(rem * b < 100_000_000) by (nonlinear_arith)
            requires rem < 10_000 && b <= 10_000;
    }
    let low: u128 = (rem * b) / denom;
    proof {
        let d = denom as int;
        // low <= rem, so high + low <= q * d + rem == price
        lemma_mul_inequality(b as int, d, rem as int);
        lemma_mul_is_commutative(rem as int, b as int);
        lemma_mul_is_commutative(rem as int, d);
        assert(rem * b <= rem * d);
        lemma_div_is_ordered(rem * b, rem * d, d);
        lemma_div_by_multiple(rem as int, d);
        assert((rem * b) / d <= rem as int);
    }
    let r: u128 = high + low;
    proof {
        let d = denom as int;
        // price * b == d * (q * b) + rem * b
        lemma_mul_is_distributive_add_other_way(b as int, d * (q as int), rem as int);
        lemma_mul_is_associative(d, q as int, b as int);
        lemma_mul_is_commutative(d * (q as int), b as int);
        lemma_mul_is_commutative((d * (q as int)) * b, 1);
        assert((d * (q as int) + rem) * b == (d * (q as int)) * b + rem * b);
        assert((d * (q as int)) * b == d * ((q as int) * (b as int)));
        lemma_mul_is_commutative(q as int, b as int);
        // hoist the whole-quotient part over the denominator
        lemma_hoist_over_denominator(rem * b, (q as int) * (b as int), denom as nat);
        assert((rem * b) / d + q * b == (rem * b + (q * b) * d) / d);
        lemma_mul_is_commutative((q as int) * (b as int), d);
        assert(price * b == rem * b + (q * b) * d);
    }
    r
}

/// Splits a sale price into `(royalty, seller proceeds)`.
pub fn settle_amounts(price: u128, bps: u16) -> (out: (u128, u128))
    requires
        bps <= MAX_BPS,
    ensures
        out.0 == royalty_of(price, bps),
        out.1 == proceeds_of(price, bps),
        out.0 + out.1 == price,
{
    let r = royalty_amount(price, bps);
    (r, price - r)
}

} // verus!
