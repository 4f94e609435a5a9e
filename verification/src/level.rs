//! Price levels, the changes made to them, and what a change does to one
//! side of a book.

use crate::numeric::{is_finite_ordinal, PriceLevelKey, Quantity};
use vstd::prelude::*;

verus! {

/// A side of the book.
#[derive(Clone, Copy, Debug, PartialEq, Eq, Structural)]
pub enum Side {
    /// Offers to sell; the best ask is the lowest.
    Ask,
    /// Offers to buy; the best bid is the highest.
    Bid,
}

impl Side {
    /// The other side.
    pub open spec fn opposite(self) -> Side {
        match self {
            Side::Ask => Side::Bid,
            Side::Bid => Side::Ask,
        }
    }

    /// On this side the price with ordinal `a` is strictly better than the
    /// one with ordinal `b`.
    pub open spec fn better(self, a: u64, b: u64) -> bool {
        match self {
            Side::Ask => a < b,
            Side::Bid => a > b,
        }
    }
}

/// What a side stores under a price.
#[derive(Clone, Copy, Debug, PartialEq, Eq, Structural)]
pub struct Level {
    pub quantity: Quantity,
    /// Milliseconds since the epoch at which the level was last written.
    pub last_update: u64,
}

/// A stored level together with its price.
#[derive(Clone, Copy, Debug, PartialEq, Eq, Structural)]
pub struct PriceLevel {
    pub price: PriceLevelKey,
    pub quantity: Quantity,
    /// Milliseconds since the epoch at which the level was last written.
    pub last_update: u64,
}

impl PriceLevel {
    /// The part of the level that a side stores under its price.
    pub open spec fn level(self) -> Level {
        Level { quantity: self.quantity, last_update: self.last_update }
    }
}

/// One entry of a snapshot or diff: the quantity now resting at a price.
/// A quantity of zero removes the level.
#[derive(Clone, Copy, Debug, PartialEq, Eq, Structural)]
pub struct LevelChange {
    pub price: PriceLevelKey,
    pub quantity: Quantity,
}

/// One side of a book as a map from price ordinal to stored level.
pub type Levels = Map<u64, Level>;

/// Every key is the ordinal of a finite price and every stored quantity is
/// a number strictly above zero.
pub open spec fn levels_valid(levels: Levels) -> bool {
    forall|k: u64| #[trigger]
        levels.contains_key(k) ==> is_finite_ordinal(k) && levels[k].quantity.wf()
            && levels[k].quantity@ > 0
}

/// The side after one change written at `at_time`: a zero quantity removes
/// the level, any other quantity puts it in place of what was there.
pub open spec fn apply_change(levels: Levels, change: LevelChange, at_time: u64) -> Levels {
    if change.quantity@ == 0 {
        levels.remove(change.price@)
    } else {
        levels.insert(change.price@, Level { quantity: change.quantity, last_update: at_time })
    }
}

/// The side after a batch of changes, applied in order, all written at
/// `at_time`.
pub open spec fn apply_changes(levels: Levels, changes: Seq<LevelChange>, at_time: u64) -> Levels
    decreases changes.len(),
{
    if changes.len() == 0 {
        levels
    } else {
        apply_change(apply_changes(levels, changes.drop_last(), at_time), changes.last(), at_time)
    }
}

/// Some entry of `listing` has the price with ordinal `k`.
pub open spec fn lists(listing: Seq<PriceLevel>, k: u64) -> bool {
    exists|j: int| 0 <= j < listing.len() && (#[trigger] listing[j]).price@ == k
}

/// `listing` is the best `n` levels of one side, best first: it is as long as
/// `n` and the side allow, each entry is a stored level, each entry is
/// strictly better than the next, and every stored price that it leaves out
/// is worse than all that it lists.
pub open spec fn is_top(side: Side, levels: Levels, n: nat, listing: Seq<PriceLevel>) -> bool {
    &&& listing.len() == if n <= levels.dom().len() {
        n
    } else {
        levels.dom().len()
    }
    &&& forall|i: int|
        0 <= i < listing.len() ==> levels.contains_key((#[trigger] listing[i]).price@)
            && levels[listing[i].price@] == listing[i].level()
    &&& forall|i: int, j: int|
        0 <= i < j < listing.len() ==> side.better(
            (#[trigger] listing[i]).price@,
            (#[trigger] listing[j]).price@,
        )
    &&& forall|k: u64, i: int|
        #[trigger] levels.contains_key(k) && !lists(listing, k) && 0 <= i < listing.len()
            ==> side.better((#[trigger] listing[i]).price@, k)
}

/// The best `n` levels of a side are one listing and no other: two listings
/// that both meet `is_top` for the same side and the same `n` are equal.
pub proof fn lemma_top_is_unique(
    side: Side,
    levels: Levels,
    n: nat,
    a: Seq<PriceLevel>,
    b: Seq<PriceLevel>,
)
    requires
        is_top(side, levels, n, a),
        is_top(side, levels, n, b),
    ensures
        a == b,
{
    assert forall|i: int| 0 <= i < a.len() implies a[i] == b[i] by {
        lemma_top_prices_agree(side, levels, n, a, b, i);
        PriceLevelKey::lemma_known_by_ordinal(a[i].price, b[i].price, a[i].price@);
        assert(a[i].level() == b[i].level());
    }
    assert(a =~= b);
}

/// Two listings of the best `n` levels name the same price at every place.
proof fn lemma_top_prices_agree(
    side: Side,
    levels: Levels,
    n: nat,
    a: Seq<PriceLevel>,
    b: Seq<PriceLevel>,
    i: int,
)
    requires
        is_top(side, levels, n, a),
        is_top(side, levels, n, b),
        0 <= i < a.len(),
    ensures
        a[i].price@ == b[i].price@,
    decreases i,
{
    assert forall|j: int| 0 <= j < i implies a[j].price@ == b[j].price@ by {
        lemma_top_prices_agree(side, levels, n, a, b, j);
    }
    if a[i].price@ != b[i].price@ {
        lemma_next_is_better(side, levels, n, a, b, i);
        lemma_next_is_better(side, levels, n, b, a, i);
    }
}

/// Where two listings of the best `n` levels agree before place `i` and
/// differ at it, the second names the better price there.
proof fn lemma_next_is_better(
    side: Side,
    levels: Levels,
    n: nat,
    a: Seq<PriceLevel>,
    b: Seq<PriceLevel>,
    i: int,
)
    requires
        is_top(side, levels, n, a),
        is_top(side, levels, n, b),
        0 <= i < a.len(),
        forall|j: int| 0 <= j < i ==> a[j].price@ == b[j].price@,
        a[i].price@ != b[i].price@,
    ensures
        side.better(b[i].price@, a[i].price@),
{
    let k = a[i].price@;
    assert(levels.contains_key(k));
    if lists(b, k) {
        let j = choose|j: int| 0 <= j < b.len() && (#[trigger] b[j]).price@ == k;
        if j < i {
            assert(side.better(a[j].price@, a[i].price@));
        }
        assert(side.better(b[i].price@, b[j].price@));
    }
}

/// Writing a change twice leaves the side as writing it once does.
pub proof fn lemma_change_idempotent(levels: Levels, change: LevelChange, at_time: u64)
    ensures
        apply_change(apply_change(levels, change, at_time), change, at_time) == apply_change(
            levels,
            change,
            at_time,
        ),
{
    let once = apply_change(levels, change, at_time);
    assert(apply_change(once, change, at_time) =~= once);
}

/// A change with quantity zero does nothing where its price is not stored;
/// where it is stored, that level goes and every other level stays as it was.
pub proof fn lemma_zero_removes_that_level(levels: Levels, change: LevelChange, at_time: u64)
    requires
        change.quantity@ == 0,
    ensures
        !levels.contains_key(change.price@) ==> apply_change(levels, change, at_time) == levels,
        !apply_change(levels, change, at_time).contains_key(change.price@),
        forall|k: u64|
            k != change.price@ ==> (apply_change(levels, change, at_time).contains_key(k)
                <==> #[trigger] levels.contains_key(k)),
        forall|k: u64|
            k != change.price@ && #[trigger] levels.contains_key(k) ==> apply_change(
                levels,
                change,
                at_time,
            )[k] == levels[k],
{
    if !levels.contains_key(change.price@) {
        assert(apply_change(levels, change, at_time) =~= levels);
    }
}

/// A change with a quantity above zero stores that quantity and the time at
/// its price and leaves every other level as it was.
pub proof fn lemma_nonzero_writes_that_level(levels: Levels, change: LevelChange, at_time: u64)
    requires
        change.quantity@ != 0,
    ensures
        apply_change(levels, change, at_time).contains_key(change.price@),
        apply_change(levels, change, at_time)[change.price@] == (Level {
            quantity: change.quantity,
            last_update: at_time,
        }),
        forall|k: u64|
            k != change.price@ ==> (apply_change(levels, change, at_time).contains_key(k)
                <==> #[trigger] levels.contains_key(k)),
        forall|k: u64|
            k != change.price@ && #[trigger] levels.contains_key(k) ==> apply_change(
                levels,
                change,
                at_time,
            )[k] == levels[k],
{
}

/// No change stores a quantity of zero: a valid side stays valid under any
/// change, and so under any batch of changes.
pub proof fn lemma_changes_keep_valid(levels: Levels, changes: Seq<LevelChange>, at_time: u64)
    requires
        levels_valid(levels),
        forall|i: int|
            0 <= i < changes.len() ==> (#[trigger] changes[i]).price.wf() && changes[i].quantity.wf(),
    ensures
        levels_valid(apply_changes(levels, changes, at_time)),
    decreases changes.len(),
{
    if changes.len() > 0 {
        lemma_changes_keep_valid(levels, changes.drop_last(), at_time);
        let last = changes.last();
        PriceLevelKey::lemma_known_by_ordinal(last.price, last.price, last.price@);
        Quantity::lemma_known_by_bits(last.quantity, last.quantity, last.quantity@);
    }
}

} // verus!
