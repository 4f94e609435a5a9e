//! The replicated order book.

use crate::event::{DiffEvent, SnapshotResponse};
use crate::level::{
    apply_change, apply_changes, is_top, levels_valid, lists, Level, LevelChange, Levels,
    PriceLevel, Side,
};
use crate::numeric::{PriceLevelKey, Quantity};
use std::collections::BTreeMap;
use vstd::prelude::*;
use vstd::relations::injective_on;
use vstd::set_lib::lemma_map_size;
use vstd::std_specs::btree::increasing_seq;
use vstd::std_specs::cmp::OrdSpec;
use vstd::std_specs::iter::{IteratorSpec, VerusForLoopWrapper};

verus! {

/// Both sides of a market and the sequence number up to which they are
/// known to be right. No level with a quantity of zero is ever stored.
///
/// Each side is kept under keys that rise from its best price to its worst:
/// asks under the price ordinal, bids under the ordinal's mirror image.
#[derive(Debug, PartialEq, Eq)]
pub struct OrderBook {
    update_id: u64,
    asks: BTreeMap<u64, Level>,
    bids: BTreeMap<u64, Level>,
}

/// The key under which a side keeps the price with the given ordinal, and
/// the ordinal of the price that it keeps under a key: the two are one
/// function, which undoes itself.
spec fn slot(side: Side, k: u64) -> u64 {
    match side {
        Side::Ask => k,
        Side::Bid => (u64::MAX - k) as u64,
    }
}

/// The side, by price ordinal, that a stored map stands for.
spec fn shown(side: Side, stored: Map<u64, Level>) -> Levels {
    Map::new(|k: u64| stored.contains_key(slot(side, k)), |k: u64| stored[slot(side, k)])
}

impl OrderBook {
    #[verifier::type_invariant]
    spec fn inv(self) -> bool {
        levels_valid(shown(Side::Ask, self.asks@)) && levels_valid(shown(Side::Bid, self.bids@))
    }

    /// The ask side, by price ordinal.
    pub closed spec fn asks(&self) -> Levels {
        shown(Side::Ask, self.asks@)
    }

    /// The bid side, by price ordinal.
    pub closed spec fn bids(&self) -> Levels {
        shown(Side::Bid, self.bids@)
    }

    /// One side, by price ordinal.
    pub open spec fn side(&self, side: Side) -> Levels {
        match side {
            Side::Ask => self.asks(),
            Side::Bid => self.bids(),
        }
    }

    /// The watermark: the last update applied, zero before any.
    pub closed spec fn watermark(&self) -> u64 {
        self.update_id
    }

    /// An empty book that has seen no update.
    pub fn new() -> (book: OrderBook)
        ensures
            book.asks() == Levels::empty(),
            book.bids() == Levels::empty(),
            book.watermark() == 0,
            levels_valid(book.asks()),
            levels_valid(book.bids()),
    {
        proof {
            lemma_shown_empty(Side::Ask);
            lemma_shown_empty(Side::Bid);
        }
        OrderBook { update_id: 0, asks: BTreeMap::new(), bids: BTreeMap::new() }
    }

    /// The watermark: the last update applied, zero before any.
    pub fn update_id(&self) -> (id: u64)
        ensures
            id == self.watermark(),
    {
        self.update_id
    }

    /// Writes one level: a zero quantity removes the level at `price` if
    /// there is one, any other quantity stores `(quantity, at_time)` there.
    pub fn apply_level_change(
        &mut self,
        side: Side,
        price: PriceLevelKey,
        quantity: Quantity,
        at_time: u64,
    )
        ensures
            final(self).side(side) == apply_change(
                old(self).side(side),
                LevelChange { price, quantity },
                at_time,
            ),
            final(self).side(side.opposite()) == old(self).side(side.opposite()),
            final(self).watermark() == old(self).watermark(),
            levels_valid(final(self).asks()),
            levels_valid(final(self).bids()),
    {
        proof {
            use_type_invariant(&*self);
            use_type_invariant(&price);
            use_type_invariant(&quantity);
        }
        let mut levels: BTreeMap<u64, Level> = BTreeMap::new();
        proof {
            lemma_shown_empty(side);
        }
        match side {
            Side::Ask => std::mem::swap(&mut levels, &mut self.asks),
            Side::Bid => std::mem::swap(&mut levels, &mut self.bids),
        }
        let ghost before = levels@;
        let key: u64 = slot_of(side, price.ordinal());
        if quantity.is_zero() {
            levels.remove(&key);
            proof {
                lemma_shown_remove(side, before, price@);
            }
        } else {
            let level = Level { quantity, last_update: at_time };
            levels.insert(key, level);
            proof {
                lemma_shown_insert(side, before, price@, level);
            }
        }
        match side {
            Side::Ask => {
                self.asks = levels;
            },
            Side::Bid => {
                self.bids = levels;
            },
        }
    }

    /// Writes a batch of changes to one side, in order, all at `at_time`.
    fn apply_side(&mut self, side: Side, changes: &Vec<LevelChange>, at_time: u64)
        ensures
            final(self).side(side) == apply_changes(old(self).side(side), changes@, at_time),
            final(self).side(side.opposite()) == old(self).side(side.opposite()),
            final(self).watermark() == old(self).watermark(),
            levels_valid(final(self).asks()),
            levels_valid(final(self).bids()),
    {
        proof {
            use_type_invariant(&*self);
        }
        let mut i: usize = 0;
        while i < changes.len()
            invariant
                i <= changes.len(),
                self.side(side) == apply_changes(old(self).side(side), changes@.take(i as int), at_time),
                self.side(side.opposite()) == old(self).side(side.opposite()),
                self.watermark() == old(self).watermark(),
                levels_valid(self.asks()),
                levels_valid(self.bids()),
            decreases changes.len() - i,
        {
            let change = changes[i];
            self.apply_level_change(side, change.price, change.quantity, at_time);
            proof {
                let before = changes@.take(i as int);
                let now = changes@.take(i + 1);
                assert(now.drop_last() == before);
                assert(now.last() == change);
            }
            i += 1;
        }
        assert(changes@.take(i as int) == changes@);
    }

    /// Writes every change of a diff at the event's time, then moves the
    /// watermark to the end of the event's range. The book takes the diff
    /// whatever its range: whether it follows on is for the caller to check.
    pub fn apply_diff(&mut self, event: &DiffEvent)
        ensures
            final(self).bids() == apply_changes(
                old(self).bids(),
                event.bid_changes@,
                event.event_time,
            ),
            final(self).asks() == apply_changes(
                old(self).asks(),
                event.ask_changes@,
                event.event_time,
            ),
            final(self).watermark() == event.update_id_end,
            levels_valid(final(self).asks()),
            levels_valid(final(self).bids()),
    {
        self.apply_side(Side::Bid, &event.bid_changes, event.event_time);
        self.apply_side(Side::Ask, &event.ask_changes, event.event_time);
        self.update_id = event.update_id_end;
    }

    /// Replaces whatever the book holds by a snapshot fetched at `fetch_time`
    /// and sets the watermark to the snapshot's.
    pub fn apply_snapshot(&mut self, snapshot: &SnapshotResponse, fetch_time: u64)
        ensures
            final(self).bids() == apply_changes(Levels::empty(), snapshot.bids@, fetch_time),
            final(self).asks() == apply_changes(Levels::empty(), snapshot.asks@, fetch_time),
            final(self).watermark() == snapshot.last_update_id,
            levels_valid(final(self).asks()),
            levels_valid(final(self).bids()),
    {
        proof {
            use_type_invariant(&*self);
            lemma_shown_empty(Side::Ask);
            lemma_shown_empty(Side::Bid);
        }
        self.asks = BTreeMap::new();
        self.bids = BTreeMap::new();
        self.apply_side(Side::Bid, &snapshot.bids, fetch_time);
        self.apply_side(Side::Ask, &snapshot.asks, fetch_time);
        self.update_id = snapshot.last_update_id;
    }

    /// The best `n` levels of a side, best first: lowest price first for
    /// asks, highest price first for bids.
    pub fn top(&self, side: Side, n: usize) -> (listing: Vec<PriceLevel>)
        ensures
            is_top(side, self.side(side), n as nat, listing@),
            forall|i: int| 0 <= i < listing@.len() ==> (#[trigger] listing@[i]).quantity@ > 0,
            levels_valid(self.asks()),
            levels_valid(self.bids()),
    {
        proof {
            use_type_invariant(self);
        }
        match side {
            Side::Ask => best_first(&self.asks, Side::Ask, n),
            Side::Bid => best_first(&self.bids, Side::Bid, n),
        }
    }

    /// What a side stores at a price, if anything.
    pub fn level(&self, side: Side, price: PriceLevelKey) -> (r: Option<Level>)
        ensures
            r == if self.side(side).contains_key(price@) {
                Some(self.side(side)[price@])
            } else {
                None
            },
            r matches Some(level) ==> level.quantity@ > 0,
            levels_valid(self.asks()),
            levels_valid(self.bids()),
    {
        proof {
            use_type_invariant(self);
        }
        let key: u64 = slot_of(side, price.ordinal());
        let found = match side {
            Side::Ask => self.asks.get(&key),
            Side::Bid => self.bids.get(&key),
        };
        match found {
            Some(level) => Some(*level),
            None => None,
        }
    }

    /// The number of levels that a side stores.
    pub fn depth(&self, side: Side) -> (r: usize)
        ensures
            r == self.side(side).dom().len(),
            levels_valid(self.asks()),
            levels_valid(self.bids()),
    {
        proof {
            use_type_invariant(self);
        }
        match side {
            Side::Ask => {
                proof {
                    lemma_shown_size(Side::Ask, self.asks@);
                }
                self.asks.len()
            },
            Side::Bid => {
                proof {
                    lemma_shown_size(Side::Bid, self.bids@);
                }
                self.bids.len()
            },
        }
    }
}

impl Clone for OrderBook {
    /// A book with the same levels and the same watermark.
    fn clone(&self) -> (book: OrderBook)
        ensures
            book.asks() == self.asks(),
            book.bids() == self.bids(),
            book.watermark() == self.watermark(),
    {
        proof {
            use_type_invariant(self);
        }
        OrderBook { update_id: self.update_id, asks: self.asks.clone(), bids: self.bids.clone() }
    }
}

impl Default for OrderBook {
    /// An empty book that has seen no update.
    fn default() -> (book: OrderBook)
        ensures
            book.asks() == Levels::empty(),
            book.bids() == Levels::empty(),
            book.watermark() == 0,
    {
        OrderBook::new()
    }
}

/// The key under which a side keeps a price.
fn slot_of(side: Side, ordinal: u64) -> (key: u64)
    ensures
        key == slot(side, ordinal),
        slot(side, key) == ordinal,
{
    match side {
        Side::Ask => ordinal,
        Side::Bid => u64::MAX - ordinal,
    }
}

/// An empty map stands for an empty side.
proof fn lemma_shown_empty(side: Side)
    ensures
        shown(side, Map::<u64, Level>::empty()) == Levels::empty(),
{
    assert(shown(side, Map::<u64, Level>::empty()) =~= Levels::empty());
}

/// Storing a level under the slot of a price puts it at that price.
proof fn lemma_shown_insert(side: Side, stored: Map<u64, Level>, ordinal: u64, level: Level)
    ensures
        shown(side, stored.insert(slot(side, ordinal), level)) == shown(side, stored).insert(
            ordinal,
            level,
        ),
{
    assert(shown(side, stored.insert(slot(side, ordinal), level)) =~= shown(side, stored).insert(
        ordinal,
        level,
    ));
}

/// Dropping what is stored under the slot of a price removes that price.
proof fn lemma_shown_remove(side: Side, stored: Map<u64, Level>, ordinal: u64)
    ensures
        shown(side, stored.remove(slot(side, ordinal))) == shown(side, stored).remove(ordinal),
{
    assert(shown(side, stored.remove(slot(side, ordinal))) =~= shown(side, stored).remove(ordinal));
}

/// A side has as many levels as the map that stores it.
proof fn lemma_shown_size(side: Side, stored: Map<u64, Level>)
    requires
        stored.dom().finite(),
    ensures
        shown(side, stored).dom().finite(),
        shown(side, stored).dom().len() == stored.dom().len(),
{
    let f = |k: u64| slot(side, k);
    assert(injective_on(f, stored.dom()));
    assert forall|k: u64| shown(side, stored).dom().contains(k) implies stored.dom().map(
        f,
    ).contains(k) by {
        assert(stored.dom().contains(slot(side, k)) && f(slot(side, k)) == k);
    }
    assert(stored.dom().map(f) =~= shown(side, stored).dom());
    lemma_map_size(stored.dom(), shown(side, stored).dom(), f);
}

/// A walk that visits every stored level once, by rising key.
spec fn is_walk(stored: Map<u64, Level>, walk: Seq<(&u64, &Level)>) -> bool {
    &&& walk.len() == stored.dom().len()
    &&& forall|i: int|
        0 <= i < walk.len() ==> stored.contains_key(*(#[trigger] walk[i]).0) && stored[*walk[i].0]
            == *walk[i].1
    &&& forall|k: u64| #[trigger]
        stored.contains_key(k) ==> exists|p: int|
            0 <= p < walk.len() && *(#[trigger] walk[p]).0 == k
    &&& forall|i: int, j: int|
        0 <= i < j < walk.len() ==> *(#[trigger] walk[i]).0 < *(#[trigger] walk[j]).0
}

/// In a sequence that the map's own order calls increasing, earlier entries
/// are numerically below later ones.
proof fn lemma_rising(keys: Seq<u64>)
    requires
        increasing_seq(keys),
    ensures
        forall|i: int, j: int| 0 <= i < j < keys.len() ==> keys[i] < keys[j],
{
    broadcast use vstd::std_specs::btree::group_btree_axioms;

    assert forall|i: int, j: int| 0 <= i < j < keys.len() implies keys[i] < keys[j] by {
        assert(keys[i].cmp_spec(&keys[j]) is Less);
    }
}

/// The first `limit` levels of a stored side in the order of its keys, which
/// is from the best price on.
fn best_first(stored: &BTreeMap<u64, Level>, side: Side, limit: usize) -> (out: Vec<PriceLevel>)
    requires
        levels_valid(shown(side, stored@)),
    ensures
        is_top(side, shown(side, stored@), limit as nat, out@),
        forall|i: int| 0 <= i < out@.len() ==> (#[trigger] out@[i]).quantity@ > 0,
{
    let mut out: Vec<PriceLevel> = Vec::new();
    let iter = stored.iter();
    proof {
        broadcast use vstd::std_specs::btree::group_btree_axioms;

        let walk = iter.remaining();
        let keys = walk.map_values(|kv: (&u64, &Level)| *kv.0);
        lemma_rising(keys);
        assert forall|i: int, j: int| 0 <= i < j < walk.len() implies *(#[trigger] walk[i]).0
            < *(#[trigger] walk[j]).0 by {
            assert(keys[i] == *walk[i].0);
            assert(keys[j] == *walk[j].0);
        }
        assert forall|k: u64| #[trigger] stored@.contains_key(k) implies exists|p: int|
            0 <= p < walk.len() && *(#[trigger] walk[p]).0 == k by {
            let entry = (&k, &stored@[k]);
            assert(walk.contains(entry));
            let p = choose|p: int| 0 <= p < walk.len() && walk[p] == entry;
            assert(*walk[p].0 == k);
        }
        assert(is_walk(stored@, walk));
        lemma_shown_size(side, stored@);
    }
    let mut walk = VerusForLoopWrapper::new(iter, Ghost(None));
    loop
        invariant
            walk.wf(),
            is_walk(stored@, walk.seq()),
            levels_valid(shown(side, stored@)),
            out@.len() == walk.index(),
            out@.len() <= limit,
            forall|i: int|
                0 <= i < out@.len() ==> (#[trigger] out@[i]).price@ == slot(side, *walk.seq()[i].0)
                    && out@[i].level() == *walk.seq()[i].1 && out@[i].quantity@ > 0,
        ensures
            is_walk(stored@, walk.seq()),
            forall|i: int|
                0 <= i < out@.len() ==> (#[trigger] out@[i]).price@ == slot(side, *walk.seq()[i].0)
                    && out@[i].level() == *walk.seq()[i].1 && out@[i].quantity@ > 0,
            out@.len() <= walk.seq().len(),
            out@.len() == limit || out@.len() == walk.seq().len(),
        decreases stored@.dom().len() - out@.len(),
    {
        if out.len() >= limit {
            break;
        }
        match walk.next() {
            None => {
                break;
            },
            Some(entry) => {
                let (key, level) = entry;
                let ordinal: u64 = slot_of(side, *key);
                assert(shown(side, stored@).contains_key(ordinal));
                let price = PriceLevelKey::from_ordinal(ordinal);
                out.push(
                    PriceLevel { price, quantity: level.quantity, last_update: level.last_update },
                );
            },
        }
    }
    proof {
        let seq = walk.seq();
        let levels = shown(side, stored@);
        assert forall|i: int| 0 <= i < out@.len() implies levels.contains_key(
            (#[trigger] out@[i]).price@,
        ) && levels[out@[i].price@] == out@[i].level() by {
            assert(slot(side, out@[i].price@) == *seq[i].0);
        }
        assert forall|i: int, j: int| 0 <= i < j < out@.len() implies side.better(
            (#[trigger] out@[i]).price@,
            (#[trigger] out@[j]).price@,
        ) by {
            assert(*seq[i].0 < *seq[j].0);
        }
        assert forall|k: u64, i: int| #[trigger]
            levels.contains_key(k) && !lists(out@, k) && 0 <= i < out@.len() implies side.better(
            (#[trigger] out@[i]).price@,
            k,
        ) by {
            let key = slot(side, k);
            assert(stored@.contains_key(key));
            let p = choose|p: int| 0 <= p < seq.len() && *(#[trigger] seq[p]).0 == key;
            if p < out@.len() {
                assert(out@[p].price@ == k);
            }
            assert(*seq[i].0 < *seq[p].0);
        }
    }
    out
}

} // verus!
