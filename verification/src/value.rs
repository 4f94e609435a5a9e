//! The number that a binary64 bit pattern stands for, and the law that
//! price ordinals rise exactly as those numbers do.

use crate::numeric::{
    bits_of_ordinal, is_finite, is_finite_ordinal, magnitude, ordinal_of_bits, PriceLevelKey,
    Quantity, SIGN_BIT,
};
use vstd::arithmetic::power2::{lemma_pow2_pos, lemma_pow2_strictly_increases, lemma_pow2_unfold, pow2};
use vstd::prelude::*;

verus! {

/// Two to the power 52: the weight of the hidden bit of a binary64 number.
pub const HIDDEN_BIT: u64 = 0x10_0000_0000_0000;

/// The number that a magnitude stands for, in units of 2^-1074 (the least
/// positive binary64 number). The top eleven bits are the exponent field
/// `e`, the low 52 the fraction `f`: with `e` zero the number is `f` units,
/// otherwise `(2^52 + f) * 2^(e - 1)` units.
pub open spec fn scaled_magnitude(magnitude: u64) -> nat {
    let e = magnitude / HIDDEN_BIT;
    let f = magnitude % HIDDEN_BIT;
    if e == 0 {
        f as nat
    } else {
        ((HIDDEN_BIT + f) * pow2((e - 1) as nat)) as nat
    }
}

/// The number that a finite bit pattern stands for, in units of 2^-1074.
pub open spec fn scaled_value(bits: u64) -> int {
    if bits >= SIGN_BIT {
        -(scaled_magnitude(magnitude(bits)) as int)
    } else {
        scaled_magnitude(bits) as int
    }
}

impl PriceLevelKey {
    /// The price, in units of 2^-1074.
    pub open spec fn value(self) -> int {
        scaled_value(bits_of_ordinal(self@))
    }
}

impl Quantity {
    /// The quantity, in units of 2^-1074.
    pub open spec fn value(self) -> int {
        scaled_value(self@)
    }
}

/// Larger magnitudes stand for larger numbers.
pub proof fn lemma_magnitude_rises(a: u64, b: u64)
    requires
        a < b,
    ensures
        scaled_magnitude(a) < scaled_magnitude(b),
{
    let ea = (a / HIDDEN_BIT) as int;
    let fa = (a % HIDDEN_BIT) as int;
    let eb = (b / HIDDEN_BIT) as int;
    let fb = (b % HIDDEN_BIT) as int;
    assert(ea <= eb);
    if ea == eb {
        assert(fa < fb);
        if ea > 0 {
            let p = pow2((ea - 1) as nat) as int;
            lemma_pow2_pos((ea - 1) as nat);
            assert((HIDDEN_BIT + fa) * p < (HIDDEN_BIT + fb) * p) by (nonlinear_arith)
                requires
                    fa < fb,
                    p > 0,
            ;
        }
    } else {
        let q = pow2((eb - 1) as nat) as int;
        lemma_pow2_pos((eb - 1) as nat);
        assert(HIDDEN_BIT * q <= (HIDDEN_BIT + fb) * q) by (nonlinear_arith)
            requires
                fb >= 0,
                q > 0,
        ;
        if ea == 0 {
            assert(HIDDEN_BIT * 1 <= HIDDEN_BIT * q) by (nonlinear_arith)
                requires
                    q >= 1,
            ;
        } else {
            let p = pow2((ea - 1) as nat) as int;
            lemma_pow2_pos((ea - 1) as nat);
            lemma_pow2_unfold(ea as nat);
            assert(pow2(ea as nat) == 2 * p);
            if ea < eb - 1 {
                lemma_pow2_strictly_increases(ea as nat, (eb - 1) as nat);
            }
            assert(2 * p <= q);
            assert((HIDDEN_BIT + fa) * p < HIDDEN_BIT * (2 * p)) by (nonlinear_arith)
                requires
                    fa < HIDDEN_BIT,
                    p > 0,
            ;
            assert(HIDDEN_BIT * (2 * p) <= HIDDEN_BIT * q) by (nonlinear_arith)
                requires
                    2 * p <= q,
            ;
        }
    }
}

/// Only the magnitude zero stands for the number zero.
pub proof fn lemma_zero_magnitude(a: u64)
    ensures
        scaled_magnitude(a) == 0 <==> a == 0,
{
    if a > 0 {
        lemma_magnitude_rises(0, a);
    }
}

/// The order of keys is the order of the numbers they stand for: one key's
/// ordinal is below another's exactly when its price is the lower number,
/// and two keys are the same exactly when their prices are the same number.
pub proof fn lemma_order_is_numeric(a: PriceLevelKey, b: PriceLevelKey)
    requires
        a.wf(),
        b.wf(),
    ensures
        a@ < b@ <==> a.value() < b.value(),
        a == b <==> a.value() == b.value(),
{
    PriceLevelKey::lemma_known_by_ordinal(a, b, a@);
    PriceLevelKey::lemma_known_by_ordinal(b, a, b@);
    if a@ < b@ {
        lemma_ordinal_order(a@, b@);
    } else if b@ < a@ {
        lemma_ordinal_order(b@, a@);
    }
}

/// A quantity is never below zero, it is zero exactly when its bit pattern
/// is, and the order of quantities is the order of the numbers they stand
/// for.
pub proof fn lemma_quantity_is_numeric(a: Quantity, b: Quantity)
    requires
        a.wf(),
        b.wf(),
    ensures
        a.value() >= 0,
        a.value() == 0 <==> a@ == 0,
        a@ < b@ <==> a.value() < b.value(),
{
    Quantity::lemma_known_by_bits(a, b, a@);
    Quantity::lemma_known_by_bits(b, a, b@);
    lemma_zero_magnitude(a@);
    if a@ < b@ {
        lemma_magnitude_rises(a@, b@);
    } else if b@ < a@ {
        lemma_magnitude_rises(b@, a@);
    }
}

/// Of two ordinals of finite numbers, the lower stands for the lower number.
proof fn lemma_ordinal_order(x: u64, y: u64)
    requires
        is_finite_ordinal(x),
        is_finite_ordinal(y),
        x < y,
    ensures
        scaled_value(bits_of_ordinal(x)) < scaled_value(bits_of_ordinal(y)),
{
    let bx = bits_of_ordinal(x);
    let by = bits_of_ordinal(y);
    lemma_zero_magnitude(magnitude(bx));
    lemma_zero_magnitude(magnitude(by));
    if x >= SIGN_BIT {
        lemma_magnitude_rises(bx, by);
    } else if y >= SIGN_BIT {
        assert(magnitude(bx) > 0);
    } else {
        lemma_magnitude_rises(magnitude(by), magnitude(bx));
    }
}

/// A finite bit pattern and the pattern of its key stand for the same
/// number: taking a key changes nothing but the sign of zero.
pub proof fn lemma_key_keeps_value(bits: u64)
    requires
        is_finite(bits),
    ensures
        scaled_value(bits_of_ordinal(ordinal_of_bits(bits))) == scaled_value(bits),
        bits != SIGN_BIT ==> bits_of_ordinal(ordinal_of_bits(bits)) == bits,
{
}

} // verus!
