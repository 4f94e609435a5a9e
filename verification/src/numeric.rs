//! Prices and quantities as validated binary64 bit patterns.

use vstd::prelude::*;

verus! {

/// The sign bit of a binary64 bit pattern. It is also the ordinal of zero.
pub const SIGN_BIT: u64 = 0x8000_0000_0000_0000;

/// The bit pattern of positive infinity: the least magnitude that is not finite.
pub const INFINITY_BITS: u64 = 0x7FF0_0000_0000_0000;

/// The pattern with its sign bit cleared.
pub open spec fn magnitude(bits: u64) -> u64 {
    if bits >= SIGN_BIT {
        (bits - SIGN_BIT) as u64
    } else {
        bits
    }
}

/// The pattern encodes a NaN.
pub open spec fn is_nan(bits: u64) -> bool {
    magnitude(bits) > INFINITY_BITS
}

/// The pattern encodes positive or negative infinity.
pub open spec fn is_infinite(bits: u64) -> bool {
    magnitude(bits) == INFINITY_BITS
}

/// The pattern encodes a finite number.
pub open spec fn is_finite(bits: u64) -> bool {
    magnitude(bits) < INFINITY_BITS
}

/// The pattern encodes a number below zero (negative zero is not below zero).
pub open spec fn is_negative(bits: u64) -> bool {
    bits > SIGN_BIT
}

/// Position of a finite pattern in numeric order: zero of either sign sits at
/// `SIGN_BIT`, positive values above it by their magnitude, negative values
/// below it by their magnitude.
pub open spec fn ordinal_of_bits(bits: u64) -> u64 {
    if bits >= SIGN_BIT {
        (SIGN_BIT - (bits - SIGN_BIT)) as u64
    } else {
        (SIGN_BIT + bits) as u64
    }
}

/// The pattern that sits at an ordinal; zero comes back with its sign clear.
pub open spec fn bits_of_ordinal(ordinal: u64) -> u64 {
    if ordinal >= SIGN_BIT {
        (ordinal - SIGN_BIT) as u64
    } else {
        (SIGN_BIT + (SIGN_BIT - ordinal)) as u64
    }
}

/// The ordinal belongs to a finite number.
pub open spec fn is_finite_ordinal(ordinal: u64) -> bool {
    SIGN_BIT - INFINITY_BITS < ordinal < SIGN_BIT + INFINITY_BITS
}

/// Why a numeric field was refused.
#[derive(Clone, Copy, Debug, PartialEq, Eq, Structural)]
pub enum NumericError {
    /// The field's text was not a number at all.
    NotNumeric,
    /// The field decoded to a NaN.
    NotANumber,
    /// The field decoded to an infinity.
    Infinite,
    /// A quantity below zero.
    Negative,
}

/// A finite price, held as its position in numeric order.
///
/// Two keys are equal exactly when their prices are numerically equal, and the
/// derived ordering is the numeric one.
#[derive(Clone, Copy, Debug, PartialEq, Eq, PartialOrd, Ord, Hash, Structural)]
pub struct PriceLevelKey {
    ordinal: u64,
}

impl View for PriceLevelKey {
    type V = u64;

    /// The key's ordinal.
    closed spec fn view(&self) -> u64 {
        self.ordinal
    }
}

/// What a decoded price field gives: the key, or the reason for refusing
/// the field. `None` stands for text that was not a number.
pub open spec fn decode_price(field: Option<u64>) -> Result<PriceLevelKey, NumericError> {
    match field {
        None => Err(NumericError::NotNumeric),
        Some(bits) => if is_nan(bits) {
            Err(NumericError::NotANumber)
        } else if is_infinite(bits) {
            Err(NumericError::Infinite)
        } else {
            Ok(PriceLevelKey::at(ordinal_of_bits(bits)))
        },
    }
}

impl PriceLevelKey {
    /// Every key is the ordinal of a finite number.
    #[verifier::type_invariant]
    pub closed spec fn wf(self) -> bool {
        is_finite_ordinal(self.ordinal)
    }

    /// The key with the given ordinal.
    pub closed spec fn at(ordinal: u64) -> PriceLevelKey {
        PriceLevelKey { ordinal }
    }

    /// Builds a key from a binary64 bit pattern, refusing NaN and infinities.
    pub fn from_bits(bits: u64) -> (r: Result<PriceLevelKey, NumericError>)
        ensures
            r == decode_price(Some(bits)),
            r matches Ok(key) ==> key@ == ordinal_of_bits(bits) && key.wf(),
    {
        let negative = bits >= SIGN_BIT;
        let mag: u64 = if negative { bits - SIGN_BIT } else { bits };
        if mag > INFINITY_BITS {
            Err(NumericError::NotANumber)
        } else if mag == INFINITY_BITS {
            Err(NumericError::Infinite)
        } else if negative {
            Ok(PriceLevelKey { ordinal: SIGN_BIT - mag })
        } else {
            Ok(PriceLevelKey { ordinal: SIGN_BIT + mag })
        }
    }

    /// Builds a key from a decoded numeric field: `None` stands for text that
    /// was not a number.
    pub fn from_decoded(field: Option<u64>) -> (r: Result<PriceLevelKey, NumericError>)
        ensures
            r == decode_price(field),
            r matches Ok(key) ==> key@ == ordinal_of_bits(field->0) && key.wf(),
    {
        match field {
            None => Err(NumericError::NotNumeric),
            Some(bits) => Self::from_bits(bits),
        }
    }

    /// The key that sits at an ordinal of a finite number.
    pub(crate) fn from_ordinal(ordinal: u64) -> (key: PriceLevelKey)
        requires
            is_finite_ordinal(ordinal),
        ensures
            key == PriceLevelKey::at(ordinal),
            key@ == ordinal,
            key.wf(),
    {
        PriceLevelKey { ordinal }
    }

    /// The key's position in numeric order.
    pub fn ordinal(&self) -> (r: u64)
        ensures
            r == self@,
            is_finite_ordinal(r),
    {
        proof {
            use_type_invariant(self);
        }
        self.ordinal
    }

    /// The binary64 bit pattern of the price.
    pub fn to_bits(&self) -> (r: u64)
        ensures
            r == bits_of_ordinal(self@),
            is_finite(r),
            ordinal_of_bits(r) == self@,
    {
        proof {
            use_type_invariant(self);
        }
        if self.ordinal >= SIGN_BIT {
            self.ordinal - SIGN_BIT
        } else {
            SIGN_BIT + (SIGN_BIT - self.ordinal)
        }
    }

    /// A key is known by its ordinal: keys with the same ordinal are the
    /// same key, and `at` gives the key of an ordinal.
    pub proof fn lemma_known_by_ordinal(a: PriceLevelKey, b: PriceLevelKey, ordinal: u64)
        ensures
            a@ == b@ <==> a == b,
            PriceLevelKey::at(ordinal)@ == ordinal,
            PriceLevelKey::at(a@) == a,
            PriceLevelKey::at(ordinal).wf() <==> is_finite_ordinal(ordinal),
    {
    }
}

/// What a decoded quantity field gives: the quantity, or the reason for
/// refusing the field. Negative zero counts as zero.
pub open spec fn decode_quantity(field: Option<u64>) -> Result<Quantity, NumericError> {
    match field {
        None => Err(NumericError::NotNumeric),
        Some(bits) => if is_nan(bits) {
            Err(NumericError::NotANumber)
        } else if is_infinite(bits) {
            Err(NumericError::Infinite)
        } else if is_negative(bits) {
            Err(NumericError::Negative)
        } else {
            Ok(Quantity::of(magnitude(bits)))
        },
    }
}

/// A finite quantity that is zero or above, held as its binary64 bit pattern.
///
/// For such values the bit patterns rise with the numbers, so the derived
/// ordering is the numeric one. Zero asks for a level's removal.
#[derive(Clone, Copy, Debug, PartialEq, Eq, PartialOrd, Ord, Hash, Structural)]
pub struct Quantity {
    bits: u64,
}

impl View for Quantity {
    type V = u64;

    /// The quantity's bit pattern.
    closed spec fn view(&self) -> u64 {
        self.bits
    }
}

impl Quantity {
    /// Every quantity is finite and carries no sign.
    #[verifier::type_invariant]
    pub closed spec fn wf(self) -> bool {
        self.bits < INFINITY_BITS
    }

    /// The quantity is the removal sentinel.
    pub open spec fn is_zero_spec(&self) -> bool {
        self@ == 0
    }

    /// The quantity with the given bit pattern.
    pub closed spec fn of(bits: u64) -> Quantity {
        Quantity { bits }
    }

    /// Builds a quantity from a binary64 bit pattern, refusing NaN, infinities
    /// and numbers below zero.
    pub fn from_bits(bits: u64) -> (r: Result<Quantity, NumericError>)
        ensures
            r == decode_quantity(Some(bits)),
            r matches Ok(q) ==> q@ == magnitude(bits) && q.wf(),
    {
        let signed = bits >= SIGN_BIT;
        let mag: u64 = if signed { bits - SIGN_BIT } else { bits };
        if mag > INFINITY_BITS {
            Err(NumericError::NotANumber)
        } else if mag == INFINITY_BITS {
            Err(NumericError::Infinite)
        } else if signed && mag > 0 {
            Err(NumericError::Negative)
        } else {
            Ok(Quantity { bits: mag })
        }
    }

    /// Builds a quantity from a decoded numeric field: `None` stands for text
    /// that was not a number.
    pub fn from_decoded(field: Option<u64>) -> (r: Result<Quantity, NumericError>)
        ensures
            r == decode_quantity(field),
            r matches Ok(q) ==> q@ == magnitude(field->0) && q.wf(),
    {
        match field {
            None => Err(NumericError::NotNumeric),
            Some(bits) => Self::from_bits(bits),
        }
    }

    /// Whether the quantity is zero, the removal sentinel.
    #[verifier::when_used_as_spec(is_zero_spec)]
    pub fn is_zero(&self) -> (r: bool)
        ensures
            r == (self@ == 0),
    {
        self.bits == 0
    }

    /// The binary64 bit pattern of the quantity.
    pub fn to_bits(&self) -> (r: u64)
        ensures
            r == self@,
            r < INFINITY_BITS,
    {
        proof {
            use_type_invariant(self);
        }
        self.bits
    }

    /// A quantity is known by its bit pattern: quantities with the same
    /// pattern are the same quantity, and `of` gives the quantity of a pattern.
    pub proof fn lemma_known_by_bits(a: Quantity, b: Quantity, bits: u64)
        ensures
            a@ == b@ <==> a == b,
            Quantity::of(bits)@ == bits,
            Quantity::of(a@) == a,
            Quantity::of(bits).wf() <==> bits < INFINITY_BITS,
    {
    }
}

} // verus!
