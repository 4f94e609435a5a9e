use binance_book::numeric::{NumericError, PriceLevelKey, Quantity, INFINITY_BITS, SIGN_BIT};

fn decoded(text: &str) -> Option<u64> {
    text.parse::<f64>().ok().map(f64::to_bits)
}

fn price(x: f64) -> PriceLevelKey {
    PriceLevelKey::from_bits(x.to_bits()).unwrap()
}

fn quantity(x: f64) -> Quantity {
    Quantity::from_bits(x.to_bits()).unwrap()
}

#[test]
fn price_key_round_trips_bits() {
    for x in [5.0f64, 0.00123400, 1e300, -2.5, 4.9e-324, f64::MAX, f64::MIN, 0.0] {
        assert_eq!(price(x).to_bits(), x.to_bits());
        assert_eq!(f64::from_bits(price(x).to_bits()), x);
    }
}

#[test]
fn price_key_ordinal_of_one_and_minus_one() {
    assert_eq!(price(1.0).ordinal(), 0xBFF0_0000_0000_0000u64);
    assert_eq!(price(-1.0).ordinal(), 0x4010_0000_0000_0000u64);
    assert_eq!(price(0.0).ordinal(), SIGN_BIT);
    assert_eq!(price(5.0).ordinal(), 0xC014_0000_0000_0000u64);
}

#[test]
fn price_key_of_negative_zero_is_the_key_of_zero() {
    let minus_zero = PriceLevelKey::from_bits(SIGN_BIT).unwrap();
    assert_eq!(minus_zero, price(0.0));
    assert_eq!(minus_zero.ordinal(), SIGN_BIT);
    assert_eq!(minus_zero.to_bits(), 0u64);
}

#[test]
fn price_key_rejects_nan() {
    assert_eq!(PriceLevelKey::from_bits(f64::NAN.to_bits()), Err(NumericError::NotANumber));
    assert_eq!(PriceLevelKey::from_bits((-f64::NAN).to_bits()), Err(NumericError::NotANumber));
    assert_eq!(PriceLevelKey::from_bits(INFINITY_BITS + 1), Err(NumericError::NotANumber));
    assert_eq!(PriceLevelKey::from_bits(u64::MAX), Err(NumericError::NotANumber));
    assert_eq!(PriceLevelKey::from_decoded(decoded("NaN")), Err(NumericError::NotANumber));
}

#[test]
fn price_key_rejects_infinity() {
    assert_eq!(PriceLevelKey::from_bits(f64::INFINITY.to_bits()), Err(NumericError::Infinite));
    assert_eq!(PriceLevelKey::from_bits(f64::NEG_INFINITY.to_bits()), Err(NumericError::Infinite));
    assert_eq!(PriceLevelKey::from_decoded(decoded("inf")), Err(NumericError::Infinite));
}

#[test]
fn price_key_rejects_text_that_is_no_number() {
    assert_eq!(PriceLevelKey::from_decoded(decoded("abc")), Err(NumericError::NotNumeric));
    assert_eq!(PriceLevelKey::from_decoded(decoded("")), Err(NumericError::NotNumeric));
    assert_eq!(PriceLevelKey::from_decoded(decoded("5,0")), Err(NumericError::NotNumeric));
    assert_eq!(PriceLevelKey::from_decoded(None), Err(NumericError::NotNumeric));
}

#[test]
fn price_key_from_decoded_text() {
    assert_eq!(PriceLevelKey::from_decoded(decoded("5.0")), Ok(price(5.0)));
    assert_eq!(PriceLevelKey::from_decoded(decoded("0.00123400")), Ok(price(0.001234)));
    assert_eq!(PriceLevelKey::from_decoded(decoded("5")), PriceLevelKey::from_decoded(decoded("5.000")));
}

#[test]
fn price_key_order_is_numeric() {
    let numbers = [
        f64::MIN, -1e10, -2.5, -1.0, -4.9e-324, 0.0, 4.9e-324, 2.2250738585072014e-308, 0.001234,
        1.0, 1.0000000000000002, 5.0, 6.0, 9.0, 10.0, 11.0, 1e300, f64::MAX,
    ];
    for (i, a) in numbers.iter().enumerate() {
        for (j, b) in numbers.iter().enumerate() {
            let ka = price(*a);
            let kb = price(*b);
            assert_eq!(ka < kb, a < b);
            assert_eq!(ka == kb, a == b);
            assert_eq!(ka.ordinal() < kb.ordinal(), i < j);
        }
    }
}

#[test]
fn price_key_total_order_has_no_incomparable_pair() {
    let numbers = [-3.5f64, -0.0, 0.0, 1.5, 7.25];
    for a in numbers {
        for b in numbers {
            let ka = price(a);
            let kb = price(b);
            let less = ka < kb;
            let equal = ka == kb;
            let greater = ka > kb;
            assert_eq!(1, [less, equal, greater].iter().filter(|x| **x).count());
        }
    }
}

#[test]
fn quantity_round_trips_bits() {
    for x in [2.0f64, 3.0, 0.00000001, 1e300, f64::MAX] {
        assert_eq!(quantity(x).to_bits(), x.to_bits());
        assert!(!quantity(x).is_zero());
    }
}

#[test]
fn quantity_zero_is_the_removal_sentinel() {
    assert!(quantity(0.0).is_zero());
    assert_eq!(quantity(0.0).to_bits(), 0u64);
    assert_eq!(Quantity::from_decoded(decoded("0")), Ok(quantity(0.0)));
    assert_eq!(Quantity::from_decoded(decoded("0.00000000")), Ok(quantity(0.0)));
}

#[test]
fn quantity_negative_zero_counts_as_zero() {
    let q = Quantity::from_bits((-0.0f64).to_bits()).unwrap();
    assert!(q.is_zero());
    assert_eq!(q, quantity(0.0));
    assert_eq!(q.to_bits(), 0u64);
}

#[test]
fn quantity_rejects_what_is_not_a_quantity() {
    assert_eq!(Quantity::from_bits((-2.0f64).to_bits()), Err(NumericError::Negative));
    assert_eq!(Quantity::from_bits((-4.9e-324f64).to_bits()), Err(NumericError::Negative));
    assert_eq!(Quantity::from_bits(f64::NAN.to_bits()), Err(NumericError::NotANumber));
    assert_eq!(Quantity::from_bits((-f64::NAN).to_bits()), Err(NumericError::NotANumber));
    assert_eq!(Quantity::from_bits(f64::INFINITY.to_bits()), Err(NumericError::Infinite));
    assert_eq!(Quantity::from_bits(f64::NEG_INFINITY.to_bits()), Err(NumericError::Infinite));
    assert_eq!(Quantity::from_decoded(decoded("two")), Err(NumericError::NotNumeric));
    assert_eq!(Quantity::from_decoded(None), Err(NumericError::NotNumeric));
}

#[test]
fn quantity_order_is_numeric() {
    let numbers = [0.0f64, 4.9e-324, 0.5, 1.0, 2.0, 3.0, 1e300];
    for a in numbers {
        for b in numbers {
            assert_eq!(quantity(a) < quantity(b), a < b);
        }
    }
}
