use binance_book::event::{
    parse_level, parse_levels, DiffEvent, Field, LevelError, ParseError, RawDiff, RawLevel,
    RawSnapshot, SnapshotResponse,
};
use binance_book::level::{LevelChange, Side};
use binance_book::numeric::{NumericError, PriceLevelKey, Quantity};

fn raw(price: &str, quantity: &str) -> RawLevel {
    RawLevel {
        price: price.parse::<f64>().ok().map(f64::to_bits),
        quantity: quantity.parse::<f64>().ok().map(f64::to_bits),
    }
}

fn change(p: f64, q: f64) -> LevelChange {
    LevelChange {
        price: PriceLevelKey::from_bits(p.to_bits()).unwrap(),
        quantity: Quantity::from_bits(q.to_bits()).unwrap(),
    }
}

fn diff(bids: Vec<RawLevel>, asks: Vec<RawLevel>) -> RawDiff {
    RawDiff {
        event_time: 1500000000000,
        symbol: String::from("ETHBTC"),
        update_id_start: 101,
        update_id_end: 103,
        bids,
        asks,
    }
}

#[test]
fn parse_level_takes_sound_fields() {
    assert_eq!(parse_level(&raw("5.0", "2.0")), Ok(change(5.0, 2.0)));
    assert_eq!(parse_level(&raw("0.06250000", "0")), Ok(change(0.0625, 0.0)));
}

#[test]
fn parse_level_reads_the_price_first() {
    assert_eq!(parse_level(&raw("x", "y")), Err((Field::Price, NumericError::NotNumeric)));
    assert_eq!(parse_level(&raw("NaN", "-1")), Err((Field::Price, NumericError::NotANumber)));
    assert_eq!(parse_level(&raw("-inf", "1")), Err((Field::Price, NumericError::Infinite)));
    assert_eq!(parse_level(&raw("1", "y")), Err((Field::Quantity, NumericError::NotNumeric)));
    assert_eq!(parse_level(&raw("1", "NaN")), Err((Field::Quantity, NumericError::NotANumber)));
    assert_eq!(parse_level(&raw("1", "inf")), Err((Field::Quantity, NumericError::Infinite)));
    assert_eq!(parse_level(&raw("1", "-1")), Err((Field::Quantity, NumericError::Negative)));
}

#[test]
fn parse_levels_keeps_order_and_length() {
    let levels = vec![raw("5.0", "2.0"), raw("4.0", "0"), raw("5.0", "1.0")];
    assert_eq!(parse_levels(&levels), Ok(vec![change(5.0, 2.0), change(4.0, 0.0), change(5.0, 1.0)]));
    assert_eq!(parse_levels(&vec![]), Ok(vec![]));
}

#[test]
fn parse_levels_reports_the_first_fault() {
    let levels = vec![raw("5.0", "2.0"), raw("4.0", "-3"), raw("oops", "1.0")];
    assert_eq!(
        parse_levels(&levels),
        Err(LevelError { index: 1, field: Field::Quantity, reason: NumericError::Negative })
    );
}

#[test]
fn diff_parse_carries_every_field() {
    let event = DiffEvent::parse(diff(vec![raw("5.0", "0")], vec![raw("6.0", "3.0"), raw("6.5", "1")]));
    assert_eq!(
        event,
        Ok(DiffEvent {
            event_time: 1500000000000,
            symbol: String::from("ETHBTC"),
            update_id_start: 101,
            update_id_end: 103,
            bid_changes: vec![change(5.0, 0.0)],
            ask_changes: vec![change(6.0, 3.0), change(6.5, 1.0)],
        })
    );
}

#[test]
fn diff_parse_reads_bids_before_asks() {
    let e = DiffEvent::parse(diff(
        vec![raw("5.0", "1"), raw("5.1", "1"), raw("5.2", "nope")],
        vec![raw("bad", "1")],
    ));
    assert_eq!(
        e,
        Err(ParseError {
            side: Side::Bid,
            index: 2,
            field: Field::Quantity,
            reason: NumericError::NotNumeric
        })
    );
    let e = DiffEvent::parse(diff(vec![raw("5.0", "1")], vec![raw("6", "1"), raw("NaN", "1")]));
    assert_eq!(
        e,
        Err(ParseError {
            side: Side::Ask,
            index: 1,
            field: Field::Price,
            reason: NumericError::NotANumber
        })
    );
}

#[test]
fn snapshot_parse_carries_every_field() {
    let snapshot = SnapshotResponse::parse(RawSnapshot {
        last_update_id: 100,
        bids: vec![raw("5.0", "2.0")],
        asks: vec![raw("6.0", "3.0")],
    });
    assert_eq!(
        snapshot,
        Ok(SnapshotResponse {
            last_update_id: 100,
            bids: vec![change(5.0, 2.0)],
            asks: vec![change(6.0, 3.0)],
        })
    );
}

#[test]
fn snapshot_parse_reports_the_first_fault() {
    let snapshot = SnapshotResponse::parse(RawSnapshot {
        last_update_id: 100,
        bids: vec![],
        asks: vec![raw("inf", "3.0")],
    });
    assert_eq!(
        snapshot,
        Err(ParseError {
            side: Side::Ask,
            index: 0,
            field: Field::Price,
            reason: NumericError::Infinite
        })
    );
}
