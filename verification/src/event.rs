//! Snapshot and diff messages: as they come off the wire with their numeric
//! fields decoded, and as the book takes them once every field is validated.

use crate::level::{LevelChange, Side};
use crate::numeric::{decode_price, decode_quantity, NumericError, PriceLevelKey, Quantity};
use vstd::prelude::*;

verus! {

/// One `[price, quantity]` entry of a message. Each field is the binary64 bit
/// pattern that its decimal text decoded to, or `None` where the text was not
/// a number.
#[derive(Clone, Copy, Debug, PartialEq, Eq)]
pub struct RawLevel {
    pub price: Option<u64>,
    pub quantity: Option<u64>,
}

/// A diff message with its numeric fields decoded but not yet validated.
#[derive(Clone, Debug, PartialEq, Eq)]
pub struct RawDiff {
    pub event_time: u64,
    pub symbol: String,
    pub update_id_start: u64,
    pub update_id_end: u64,
    pub bids: Vec<RawLevel>,
    pub asks: Vec<RawLevel>,
}

/// A snapshot message with its numeric fields decoded but not yet validated.
#[derive(Clone, Debug, PartialEq, Eq)]
pub struct RawSnapshot {
    pub last_update_id: u64,
    pub bids: Vec<RawLevel>,
    pub asks: Vec<RawLevel>,
}

/// A batch of level changes covering the updates `update_id_start` to
/// `update_id_end`, both included.
#[derive(Clone, Debug, PartialEq, Eq)]
pub struct DiffEvent {
    /// Milliseconds since the epoch at which the exchange made the event.
    pub event_time: u64,
    pub symbol: String,
    pub update_id_start: u64,
    pub update_id_end: u64,
    pub bid_changes: Vec<LevelChange>,
    pub ask_changes: Vec<LevelChange>,
}

/// A full dump of the book as of `last_update_id`.
#[derive(Clone, Debug, PartialEq, Eq)]
pub struct SnapshotResponse {
    pub last_update_id: u64,
    pub bids: Vec<LevelChange>,
    pub asks: Vec<LevelChange>,
}

/// Which field of a level.
#[derive(Clone, Copy, Debug, PartialEq, Eq, Structural)]
pub enum Field {
    Price,
    Quantity,
}

/// The first numeric field of a list of levels that was refused.
#[derive(Clone, Copy, Debug, PartialEq, Eq, Structural)]
pub struct LevelError {
    pub index: usize,
    pub field: Field,
    pub reason: NumericError,
}

/// The first numeric field of a message that was refused; bids are read
/// before asks.
#[derive(Clone, Copy, Debug, PartialEq, Eq, Structural)]
pub struct ParseError {
    pub side: Side,
    pub index: usize,
    pub field: Field,
    pub reason: NumericError,
}

/// What is wrong with a raw level, if anything; the price is read first.
pub open spec fn fault(raw: RawLevel) -> Option<(Field, NumericError)> {
    match decode_price(raw.price) {
        Err(reason) => Some((Field::Price, reason)),
        Ok(_) => match decode_quantity(raw.quantity) {
            Err(reason) => Some((Field::Quantity, reason)),
            Ok(_) => None,
        },
    }
}

/// The change that a raw level without fault stands for.
pub open spec fn change_of(raw: RawLevel) -> LevelChange {
    LevelChange {
        price: decode_price(raw.price)->Ok_0,
        quantity: decode_quantity(raw.quantity)->Ok_0,
    }
}

/// The changes that raw levels without fault stand for, entry by entry.
pub open spec fn changes_of(raw: Seq<RawLevel>) -> Seq<LevelChange> {
    raw.map_values(|level: RawLevel| change_of(level))
}

/// No entry of `raw` has a fault.
pub open spec fn all_sound(raw: Seq<RawLevel>) -> bool {
    forall|i: int| 0 <= i < raw.len() ==> fault(#[trigger] raw[i]) is None
}

/// `e` names the first entry of `raw` with a fault, and the fault.
pub open spec fn is_first_fault(raw: Seq<RawLevel>, e: LevelError) -> bool {
    &&& e.index < raw.len()
    &&& fault(raw[e.index as int]) == Some((e.field, e.reason))
    &&& all_sound(raw.take(e.index as int))
}

/// `e` names the first fault of a message with these bids and asks.
pub open spec fn is_message_fault(bids: Seq<RawLevel>, asks: Seq<RawLevel>, e: ParseError) -> bool {
    let at = LevelError { index: e.index, field: e.field, reason: e.reason };
    match e.side {
        Side::Bid => is_first_fault(bids, at),
        Side::Ask => all_sound(bids) && is_first_fault(asks, at),
    }
}

/// A message with a first fault is not sound throughout.
pub proof fn lemma_fault_is_unsound(bids: Seq<RawLevel>, asks: Seq<RawLevel>, e: ParseError)
    requires
        is_message_fault(bids, asks, e),
    ensures
        !(all_sound(bids) && all_sound(asks)),
{
}

/// Validates one entry.
pub fn parse_level(raw: &RawLevel) -> (r: Result<LevelChange, (Field, NumericError)>)
    ensures
        match r {
            Ok(change) => fault(*raw) is None && change == change_of(*raw),
            Err(e) => fault(*raw) == Some(e),
        },
{
    match PriceLevelKey::from_decoded(raw.price) {
        Err(reason) => Err((Field::Price, reason)),
        Ok(price) => match Quantity::from_decoded(raw.quantity) {
            Err(reason) => Err((Field::Quantity, reason)),
            Ok(quantity) => Ok(LevelChange { price, quantity }),
        },
    }
}

/// Validates a list of entries: all of them, in order, or the first fault.
pub fn parse_levels(raw: &Vec<RawLevel>) -> (r: Result<Vec<LevelChange>, LevelError>)
    ensures
        match r {
            Ok(changes) => all_sound(raw@) && changes@ == changes_of(raw@),
            Err(e) => is_first_fault(raw@, e),
        },
{
    let mut changes: Vec<LevelChange> = Vec::new();
    let mut i: usize = 0;
    while i < raw.len()
        invariant
            i <= raw.len(),
            all_sound(raw@.take(i as int)),
            changes@ == changes_of(raw@.take(i as int)),
        decreases raw.len() - i,
    {
        match parse_level(&raw[i]) {
            Err((field, reason)) => {
                return Err(LevelError { index: i, field, reason });
            },
            Ok(change) => {
                changes.push(change);
            },
        }
        i += 1;
    }
    assert(raw@.take(i as int) == raw@);
    Ok(changes)
}

impl DiffEvent {
    /// Validates the numeric fields of a diff message, bids before asks.
    pub fn parse(raw: RawDiff) -> (r: Result<DiffEvent, ParseError>)
        ensures
            match r {
                Ok(event) => {
                    &&& event.event_time == raw.event_time
                    &&& event.symbol == raw.symbol
                    &&& event.update_id_start == raw.update_id_start
                    &&& event.update_id_end == raw.update_id_end
                    &&& all_sound(raw.bids@) && event.bid_changes@ == changes_of(raw.bids@)
                    &&& all_sound(raw.asks@) && event.ask_changes@ == changes_of(raw.asks@)
                },
                Err(e) => is_message_fault(raw.bids@, raw.asks@, e),
            },
    {
        let bid_changes = match parse_levels(&raw.bids) {
            Err(e) => {
                return Err(
                    ParseError { side: Side::Bid, index: e.index, field: e.field, reason: e.reason },
                );
            },
            Ok(changes) => changes,
        };
        let ask_changes = match parse_levels(&raw.asks) {
            Err(e) => {
                return Err(
                    ParseError { side: Side::Ask, index: e.index, field: e.field, reason: e.reason },
                );
            },
            Ok(changes) => changes,
        };
        Ok(
            DiffEvent {
                event_time: raw.event_time,
                symbol: raw.symbol,
                update_id_start: raw.update_id_start,
                update_id_end: raw.update_id_end,
                bid_changes,
                ask_changes,
            },
        )
    }
}

impl SnapshotResponse {
    /// Validates the numeric fields of a snapshot message, bids before asks.
    pub fn parse(raw: RawSnapshot) -> (r: Result<SnapshotResponse, ParseError>)
        ensures
            match r {
                Ok(snapshot) => {
                    &&& snapshot.last_update_id == raw.last_update_id
                    &&& all_sound(raw.bids@) && snapshot.bids@ == changes_of(raw.bids@)
                    &&& all_sound(raw.asks@) && snapshot.asks@ == changes_of(raw.asks@)
                },
                Err(e) => is_message_fault(raw.bids@, raw.asks@, e),
            },
    {
        let bids = match parse_levels(&raw.bids) {
            Err(e) => {
                return Err(
                    ParseError { side: Side::Bid, index: e.index, field: e.field, reason: e.reason },
                );
            },
            Ok(changes) => changes,
        };
        let asks = match parse_levels(&raw.asks) {
            Err(e) => {
                return Err(
                    ParseError { side: Side::Ask, index: e.index, field: e.field, reason: e.reason },
                );
            },
            Ok(changes) => changes,
        };
        Ok(SnapshotResponse { last_update_id: raw.last_update_id, bids, asks })
    }
}

} // verus!
