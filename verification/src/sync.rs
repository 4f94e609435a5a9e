//! The splice of snapshot and diff stream, and the detection of gaps.

use crate::book::OrderBook;
use crate::event::{
    all_sound, changes_of, is_message_fault, lemma_fault_is_unsound, DiffEvent, ParseError, RawDiff,
    RawSnapshot, SnapshotResponse,
};
use crate::level::{apply_changes, Levels};
use vstd::prelude::*;

verus! {

/// Where a synchronizer stands.
#[derive(Clone, Copy, Debug, PartialEq, Eq, Structural)]
pub enum SyncState {
    /// No snapshot yet; diffs are not applied.
    Fetching,
    /// The snapshot is in the book; no diff has been applied to it yet.
    Buffering,
    /// Diffs are being applied one after the other.
    Synced,
    /// A gap was found. Nothing is applied any more.
    Faulted,
}

impl SyncState {
    /// Diffs are looked at in this state.
    pub open spec fn accepts_diffs(self) -> bool {
        self is Buffering || self is Synced
    }
}

/// What is to be done with a diff.
#[derive(Clone, Copy, Debug, PartialEq, Eq, Structural)]
pub enum Verdict {
    /// Not looked at: there is no snapshot yet, or a gap was found earlier.
    Drop,
    /// It follows on: apply it.
    Apply,
    /// It ends at or behind the watermark and does not start past the next
    /// update: discard it.
    Stale,
    /// It starts past the next update, or reaches over the watermark from
    /// behind it: the sequence is broken.
    Gap,
}

/// The rule of the splice. Before the snapshot and after a fault no diff is
/// looked at. On a watermark of zero the diff is the first and is applied as
/// it comes. Otherwise, with the watermark `w`, a diff over `start..=end`
/// that starts past `w + 1` is a gap, whatever its end; one that ends at or
/// behind `w` is stale; one that starts at `w + 1` is applied; and one that
/// reaches from at or behind `w` to past it is a gap.
pub open spec fn verdict(state: SyncState, watermark: u64, start: u64, end: u64) -> Verdict {
    if !state.accepts_diffs() {
        Verdict::Drop
    } else if watermark == 0 {
        Verdict::Apply
    } else if start > watermark + 1 {
        Verdict::Gap
    } else if end <= watermark {
        Verdict::Stale
    } else if start == watermark + 1 {
        Verdict::Apply
    } else {
        Verdict::Gap
    }
}

/// The state after a diff with the given verdict.
pub open spec fn state_after(state: SyncState, v: Verdict) -> SyncState {
    match v {
        Verdict::Apply => SyncState::Synced,
        Verdict::Gap => SyncState::Faulted,
        _ => state,
    }
}

/// The watermark after a diff that ends at `end` and has the given verdict.
pub open spec fn watermark_after(watermark: u64, end: u64, v: Verdict) -> u64 {
    if v is Apply {
        end
    } else {
        watermark
    }
}

/// State and watermark after a run of diffs, each given by its range, looked
/// at in order.
pub open spec fn replay(state: SyncState, watermark: u64, ranges: Seq<(u64, u64)>) -> (
    SyncState,
    u64,
)
    decreases ranges.len(),
{
    if ranges.len() == 0 {
        (state, watermark)
    } else {
        let (s, w) = replay(state, watermark, ranges.drop_last());
        let v = verdict(s, w, ranges.last().0, ranges.last().1);
        (state_after(s, v), watermark_after(w, ranges.last().1, v))
    }
}

/// With a watermark `w` above zero, a diff that starts at `w + 1` and ends
/// past `w` is applied; a diff that starts at `w + 2`, or anywhere past
/// `w + 1`, faults the synchronizer and leaves the watermark where it was,
/// whatever its end; and a diff that ends at or behind `w` and starts no
/// later than `w + 1` is discarded with neither state nor watermark changed.
pub proof fn lemma_gap_detection(state: SyncState, watermark: u64, start: u64, end: u64)
    requires
        state.accepts_diffs(),
        watermark > 0,
    ensures
        start == watermark + 1 && end > watermark ==> verdict(state, watermark, start, end)
            is Apply,
        start > watermark + 1 ==> verdict(state, watermark, start, end) is Gap && state_after(
            state,
            verdict(state, watermark, start, end),
        ) is Faulted && watermark_after(watermark, end, verdict(state, watermark, start, end))
            == watermark,
        end <= watermark && start <= watermark + 1 ==> verdict(state, watermark, start, end)
            is Stale && state_after(state, verdict(state, watermark, start, end)) == state
            && watermark_after(watermark, end, verdict(state, watermark, start, end))
            == watermark,
{
}

/// A diff that is applied leaves the watermark at the end of its range. That
/// is strictly above where the watermark was, but when nothing had been
/// applied before and the diff itself ends at zero.
pub proof fn lemma_applied_diff_advances(state: SyncState, watermark: u64, start: u64, end: u64)
    requires
        verdict(state, watermark, start, end) is Apply,
    ensures
        watermark_after(watermark, end, verdict(state, watermark, start, end)) == end,
        end >= watermark,
        watermark > 0 || end > 0 ==> end > watermark,
{
}

/// Whatever diffs arrive, the watermark never falls.
pub proof fn lemma_watermark_never_falls(state: SyncState, watermark: u64, ranges: Seq<(u64, u64)>)
    ensures
        replay(state, watermark, ranges).1 >= watermark,
    decreases ranges.len(),
{
    if ranges.len() > 0 {
        lemma_watermark_never_falls(state, watermark, ranges.drop_last());
    }
}

/// In a run of diffs that are all applied, the watermark after each is the
/// end of that diff's range, and it is strictly above the watermark before
/// it once the watermark is above zero.
pub proof fn lemma_applied_run_advances(
    state: SyncState,
    watermark: u64,
    ranges: Seq<(u64, u64)>,
    i: int,
)
    requires
        0 <= i < ranges.len(),
        forall|j: int|
            0 <= j <= i ==> verdict(
                replay(state, watermark, #[trigger] ranges.take(j)).0,
                replay(state, watermark, ranges.take(j)).1,
                ranges[j].0,
                ranges[j].1,
            ) is Apply,
    ensures
        replay(state, watermark, ranges.take(i + 1)).1 == ranges[i].1,
        replay(state, watermark, ranges.take(i + 1)).0 is Synced,
        replay(state, watermark, ranges.take(i)).1 > 0 ==> replay(
            state,
            watermark,
            ranges.take(i + 1),
        ).1 > replay(state, watermark, ranges.take(i)).1,
{
    let upto = ranges.take(i + 1);
    assert(upto.drop_last() == ranges.take(i));
    assert(upto.last() == ranges[i]);
}

/// Once faulted, a synchronizer stays faulted and its watermark stays put,
/// whatever diffs arrive.
pub proof fn lemma_faulted_is_final(watermark: u64, ranges: Seq<(u64, u64)>)
    ensures
        replay(SyncState::Faulted, watermark, ranges) == (SyncState::Faulted, watermark),
    decreases ranges.len(),
{
    if ranges.len() > 0 {
        lemma_faulted_is_final(watermark, ranges.drop_last());
    }
}

/// Decides what is to be done with a diff over `start..=end`.
pub fn classify(state: SyncState, watermark: u64, start: u64, end: u64) -> (v: Verdict)
    ensures
        v == verdict(state, watermark, start, end),
{
    match state {
        SyncState::Fetching | SyncState::Faulted => Verdict::Drop,
        SyncState::Buffering | SyncState::Synced => {
            if watermark == 0 {
                Verdict::Apply
            } else if watermark < u64::MAX && start > watermark + 1 {
                Verdict::Gap
            } else if end <= watermark {
                Verdict::Stale
            } else if start == watermark + 1 {
                Verdict::Apply
            } else {
                Verdict::Gap
            }
        },
    }
}

/// What became of a diff.
#[derive(Clone, Copy, Debug, PartialEq, Eq, Structural)]
pub enum DiffOutcome {
    /// Merged into the book; the watermark is now the end of its range.
    Applied,
    /// At or behind the watermark; discarded.
    Stale,
    /// The diff does not follow on from the watermark: the replica can no
    /// longer be trusted and the synchronizer has faulted. `expected` is the
    /// update that had to come next, `found` the one that the diff starts at.
    Gap { expected: u64, found: u64 },
    /// A numeric field was refused; the message was skipped.
    Malformed(ParseError),
    /// Not looked at: there is no snapshot yet, or a gap was found earlier.
    Dropped,
}

/// The outcome that goes with a verdict.
pub open spec fn outcome_of(v: Verdict, watermark: u64, start: u64) -> DiffOutcome {
    match v {
        Verdict::Drop => DiffOutcome::Dropped,
        Verdict::Apply => DiffOutcome::Applied,
        Verdict::Stale => DiffOutcome::Stale,
        Verdict::Gap => DiffOutcome::Gap { expected: (watermark + 1) as u64, found: start },
    }
}

/// What became of a snapshot.
#[derive(Clone, Copy, Debug, PartialEq, Eq, Structural)]
pub enum SnapshotOutcome {
    /// The book now holds the snapshot.
    Applied,
    /// A numeric field was refused; the snapshot was skipped.
    Malformed(ParseError),
    /// A snapshot was taken before; this one was ignored.
    Unexpected,
}

/// Owns the book and feeds it: one snapshot, then every diff that follows on.
/// Until the snapshot is taken the book is empty and its watermark zero.
#[derive(Debug, PartialEq, Eq)]
pub struct Synchronizer {
    state: SyncState,
    book: OrderBook,
}

impl Clone for Synchronizer {
    /// A synchronizer in the same state with a book of the same content.
    fn clone(&self) -> (s: Synchronizer)
        ensures
            s.state() == self.state(),
            s.book().asks() == self.book().asks(),
            s.book().bids() == self.book().bids(),
            s.book().watermark() == self.book().watermark(),
    {
        proof {
            use_type_invariant(self);
        }
        Synchronizer { state: self.state, book: self.book.clone() }
    }
}

impl Synchronizer {
    #[verifier::type_invariant]
    spec fn inv(self) -> bool {
        self.state is Fetching ==> self.book.watermark() == 0 && self.book.asks()
            == Levels::empty() && self.book.bids() == Levels::empty()
    }

    /// Where the synchronizer stands.
    pub closed spec fn spec_state(&self) -> SyncState {
        self.state
    }

    /// The book as it stands.
    pub closed spec fn spec_book(&self) -> &OrderBook {
        &self.book
    }

    /// A synchronizer that waits for its snapshot, with an empty book.
    pub fn new() -> (s: Synchronizer)
        ensures
            s.state() == SyncState::Fetching,
            s.book().asks() == Levels::empty(),
            s.book().bids() == Levels::empty(),
            s.book().watermark() == 0,
    {
        Synchronizer { state: SyncState::Fetching, book: OrderBook::new() }
    }

    /// Where the synchronizer stands.
    #[verifier::when_used_as_spec(spec_state)]
    pub fn state(&self) -> (state: SyncState)
        ensures
            state == self.state(),
            state is Fetching ==> self.book().watermark() == 0 && self.book().asks()
                == Levels::empty() && self.book().bids() == Levels::empty(),
    {
        proof {
            use_type_invariant(self);
        }
        self.state
    }

    /// The book, to read.
    #[verifier::when_used_as_spec(spec_book)]
    pub fn book(&self) -> (book: &OrderBook)
        ensures
            book == self.book(),
    {
        &self.book
    }

    /// Takes the snapshot, fetched at `fetch_time`, while one is awaited:
    /// the book then holds it and buffering begins. At any other time the
    /// snapshot is ignored.
    pub fn on_snapshot(&mut self, snapshot: &SnapshotResponse, fetch_time: u64) -> (taken: bool)
        ensures
            taken == (old(self).state() is Fetching),
            taken ==> {
                &&& final(self).state() == SyncState::Buffering
                &&& final(self).book().bids() == apply_changes(
                    Levels::empty(),
                    snapshot.bids@,
                    fetch_time,
                )
                &&& final(self).book().asks() == apply_changes(
                    Levels::empty(),
                    snapshot.asks@,
                    fetch_time,
                )
                &&& final(self).book().watermark() == snapshot.last_update_id
            },
            !taken ==> *final(self) == *old(self),
            final(self).book().watermark() >= old(self).book().watermark(),
    {
        proof {
            use_type_invariant(&*self);
        }
        match self.state {
            SyncState::Fetching => {
                let mut book = OrderBook::new();
                book.apply_snapshot(snapshot, fetch_time);
                self.state = SyncState::Buffering;
                self.book = book;
                true
            },
            _ => false,
        }
    }

    /// Looks at one diff: applies it if it follows on from the watermark,
    /// discards it if it is stale, and faults on a gap.
    pub fn on_diff(&mut self, event: &DiffEvent) -> (outcome: DiffOutcome)
        ensures
            ({
                let v = verdict(
                    old(self).state(),
                    old(self).book().watermark(),
                    event.update_id_start,
                    event.update_id_end,
                );
                &&& outcome == outcome_of(v, old(self).book().watermark(), event.update_id_start)
                &&& final(self).state() == state_after(old(self).state(), v)
                &&& final(self).book().watermark() == watermark_after(
                    old(self).book().watermark(),
                    event.update_id_end,
                    v,
                )
                &&& if v is Apply {
                    &&& final(self).book().bids() == apply_changes(
                        old(self).book().bids(),
                        event.bid_changes@,
                        event.event_time,
                    )
                    &&& final(self).book().asks() == apply_changes(
                        old(self).book().asks(),
                        event.ask_changes@,
                        event.event_time,
                    )
                } else {
                    *final(self).book() == *old(self).book()
                }
            }),
            final(self).book().watermark() >= old(self).book().watermark(),
    {
        proof {
            use_type_invariant(&*self);
        }
        let watermark = self.book.update_id();
        match classify(self.state, watermark, event.update_id_start, event.update_id_end) {
            Verdict::Drop => DiffOutcome::Dropped,
            Verdict::Stale => DiffOutcome::Stale,
            Verdict::Apply => {
                let mut book = OrderBook::new();
                std::mem::swap(&mut book, &mut self.book);
                book.apply_diff(event);
                self.book = book;
                self.state = SyncState::Synced;
                DiffOutcome::Applied
            },
            Verdict::Gap => {
                self.state = SyncState::Faulted;
                DiffOutcome::Gap { expected: watermark + 1, found: event.update_id_start }
            },
        }
    }

    /// Takes a snapshot message as it came off the wire, fetched at
    /// `fetch_time`. It is validated first: a fault in a numeric field leaves
    /// the synchronizer as it was, still waiting for a snapshot.
    pub fn on_raw_snapshot(&mut self, raw: RawSnapshot, fetch_time: u64) -> (outcome:
        SnapshotOutcome)
        ensures
            !(old(self).state() is Fetching) ==> outcome == SnapshotOutcome::Unexpected
                && *final(self) == *old(self),
            old(self).state() is Fetching && !(all_sound(raw.bids@) && all_sound(raw.asks@)) ==> {
                &&& outcome matches SnapshotOutcome::Malformed(e)
                &&& is_message_fault(raw.bids@, raw.asks@, e)
                &&& *final(self) == *old(self)
            },
            old(self).state() is Fetching && all_sound(raw.bids@) && all_sound(raw.asks@) ==> {
                &&& outcome == SnapshotOutcome::Applied
                &&& final(self).state() == SyncState::Buffering
                &&& final(self).book().bids() == apply_changes(
                    Levels::empty(),
                    changes_of(raw.bids@),
                    fetch_time,
                )
                &&& final(self).book().asks() == apply_changes(
                    Levels::empty(),
                    changes_of(raw.asks@),
                    fetch_time,
                )
                &&& final(self).book().watermark() == raw.last_update_id
            },
            final(self).book().watermark() >= old(self).book().watermark(),
    {
        match self.state {
            SyncState::Fetching => match SnapshotResponse::parse(raw) {
                Err(e) => {
                    proof {
                        lemma_fault_is_unsound(raw.bids@, raw.asks@, e);
                    }
                    SnapshotOutcome::Malformed(e)
                },
                Ok(snapshot) => {
                    self.on_snapshot(&snapshot, fetch_time);
                    SnapshotOutcome::Applied
                },
            },
            _ => SnapshotOutcome::Unexpected,
        }
    }

    /// Looks at a diff message as it came off the wire. Where diffs are
    /// looked at, it is validated first: a fault in a numeric field is
    /// reported and the message skipped, with no change to book or state.
    pub fn on_raw_diff(&mut self, raw: RawDiff) -> (outcome: DiffOutcome)
        ensures
            !old(self).state().accepts_diffs() ==> outcome == DiffOutcome::Dropped && *final(self)
                == *old(self),
            old(self).state().accepts_diffs() && !(all_sound(raw.bids@) && all_sound(raw.asks@))
                ==> {
                &&& outcome matches DiffOutcome::Malformed(e)
                &&& is_message_fault(raw.bids@, raw.asks@, e)
                &&& *final(self) == *old(self)
            },
            old(self).state().accepts_diffs() && all_sound(raw.bids@) && all_sound(raw.asks@) ==> ({
                let v = verdict(
                    old(self).state(),
                    old(self).book().watermark(),
                    raw.update_id_start,
                    raw.update_id_end,
                );
                &&& outcome == outcome_of(v, old(self).book().watermark(), raw.update_id_start)
                &&& final(self).state() == state_after(old(self).state(), v)
                &&& final(self).book().watermark() == watermark_after(
                    old(self).book().watermark(),
                    raw.update_id_end,
                    v,
                )
                &&& if v is Apply {
                    &&& final(self).book().bids() == apply_changes(
                        old(self).book().bids(),
                        changes_of(raw.bids@),
                        raw.event_time,
                    )
                    &&& final(self).book().asks() == apply_changes(
                        old(self).book().asks(),
                        changes_of(raw.asks@),
                        raw.event_time,
                    )
                } else {
                    *final(self).book() == *old(self).book()
                }
            }),
            final(self).book().watermark() >= old(self).book().watermark(),
    {
        match self.state {
            SyncState::Fetching | SyncState::Faulted => DiffOutcome::Dropped,
            SyncState::Buffering | SyncState::Synced => match DiffEvent::parse(raw) {
                Err(e) => {
                    proof {
                        lemma_fault_is_unsound(raw.bids@, raw.asks@, e);
                    }
                    DiffOutcome::Malformed(e)
                },
                Ok(event) => self.on_diff(&event),
            },
        }
    }
}

} // verus!
