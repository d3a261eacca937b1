//! The windowed lister: the policy behind a paged listing. It keeps the records
//! inside a window, given by a number of records and a last block, and counts
//! both what it kept and everything it saw.

use vstd::prelude::*;
use vstd::arithmetic::overflow::{CheckedU32, CheckedU64};
use crate::cell::UnspentCellRecord;
use crate::stream::{scan_prefix, ScanPolicy, Verdict};

verus! {

/// A count of records with the sum of their capacities.
pub struct Tally {
    pub count: nat,
    pub capacity: nat,
}

impl Tally {
    pub open spec fn zero() -> Tally {
        Tally { count: 0, capacity: 0 }
    }

    /// The tally with one more record.
    pub open spec fn with(self, record: UnspentCellRecord) -> Tally {
        Tally { count: self.count + 1, capacity: self.capacity + record.capacity as nat }
    }

    /// True when neither number of `self` exceeds that of `other`.
    pub open spec fn within(self, other: Tally) -> bool {
        self.count <= other.count && self.capacity <= other.capacity
    }
}

/// The lister as a mathematical value.
pub struct WindowModel {
    /// Largest number of records the window holds.
    pub limit: nat,
    /// Last block of the window.
    pub to_number: u64,
    /// Whether a scan halts at the end of the window.
    pub fast_mode: bool,
    /// Everything seen.
    pub total: Tally,
    /// What was inside the window.
    pub current: Tally,
}

impl WindowModel {
    /// A lister that has seen nothing.
    pub open spec fn fresh(limit: nat, to_number: u64, fast_mode: bool) -> WindowModel {
        WindowModel { limit, to_number, fast_mode, total: Tally::zero(), current: Tally::zero() }
    }

    /// A record lies outside the window when its ordinal has reached the limit
    /// or its block is past the last block.
    pub open spec fn outside(self, ordinal: nat, record: UnspentCellRecord) -> bool {
        ordinal >= self.limit || record.number > self.to_number
    }

    /// One record shown to the lister. Every record is counted in the total;
    /// a record inside the window is kept and counted in the window as well.
    /// In fast mode the lister stops at the first record outside the window;
    /// otherwise it never stops.
    pub open spec fn offer(self, ordinal: nat, record: UnspentCellRecord) -> (WindowModel, Verdict) {
        let outside = self.outside(ordinal, record);
        let next = WindowModel {
            total: self.total.with(record),
            current: if outside {
                self.current
            } else {
                self.current.with(record)
            },
            ..self
        };
        (next, Verdict { stop: self.fast_mode && outside, collect: !outside })
    }
}

/// The windowed lister.
pub struct WindowedLister {
    limit: usize,
    to_number: u64,
    fast_mode: bool,
    total_count: CheckedU32,
    total_capacity: CheckedU64,
    current_count: CheckedU32,
    current_capacity: CheckedU64,
}

impl View for WindowedLister {
    type V = WindowModel;

    closed spec fn view(&self) -> WindowModel {
        WindowModel {
            limit: self.limit as nat,
            to_number: self.to_number,
            fast_mode: self.fast_mode,
            total: Tally { count: self.total_count@, capacity: self.total_capacity@ },
            current: Tally { count: self.current_count@, capacity: self.current_capacity@ },
        }
    }
}

/// The counts of a listing.
#[derive(Clone, Copy, Debug, PartialEq, Eq)]
pub struct WindowCounts {
    /// Number of records inside the window.
    pub current_count: u32,
    /// Capacity of the records inside the window.
    pub current_capacity: u64,
    /// Number and capacity of all records seen; absent in fast mode, where the
    /// scan does not go on to see them all.
    pub total: Option<(u32, u64)>,
}

impl WindowedLister {
    /// A lister for a window of at most `limit` records up to block
    /// `to_number`.
    pub fn new(limit: usize, to_number: u64, fast_mode: bool) -> (lister: WindowedLister)
        ensures
            lister.wf(),
            lister@ == WindowModel::fresh(limit as nat, to_number, fast_mode),
    {
        WindowedLister {
            limit,
            to_number,
            fast_mode,
            total_count: CheckedU32::new(0),
            total_capacity: CheckedU64::new(0),
            current_count: CheckedU32::new(0),
            current_capacity: CheckedU64::new(0),
        }
    }

    /// The counts of the listing, or `None` when a count or a capacity that
    /// is to be reported does not fit its width.
    pub fn counts(&self) -> (counts: Option<WindowCounts>)
        requires
            self.wf(),
        ensures
            counts is Some <==> if self@.fast_mode {
                self@.current.count <= u32::MAX && self@.current.capacity <= u64::MAX
            } else {
                self@.total.count <= u32::MAX && self@.total.capacity <= u64::MAX
            },
            counts matches Some(c) ==> {
                &&& c.current_count == self@.current.count
                &&& c.current_capacity == self@.current.capacity
                &&& self@.fast_mode ==> c.total is None
                &&& !self@.fast_mode ==> c.total == Some(
                    (self@.total.count as u32, self@.total.capacity as u64),
                )
            },
    {
        if self.current_count.is_overflowed() || self.current_capacity.is_overflowed() {
            return None;
        }
        let total = if self.fast_mode {
            None
        } else {
            if self.total_count.is_overflowed() || self.total_capacity.is_overflowed() {
                return None;
            }
            Some((self.total_count.unwrap(), self.total_capacity.unwrap()))
        };
        Some(
            WindowCounts {
                current_count: self.current_count.unwrap(),
                current_capacity: self.current_capacity.unwrap(),
                total,
            },
        )
    }
}

impl ScanPolicy for WindowedLister {
    /// The window never holds more than was seen.
    open spec fn wf(&self) -> bool {
        self@.current.within(self@.total)
    }

    open spec fn step(state: WindowModel, ordinal: nat, record: UnspentCellRecord) -> (
        WindowModel,
        Verdict,
    ) {
        state.offer(ordinal, record)
    }

    fn visit(&mut self, ordinal: usize, record: &UnspentCellRecord) -> (verdict: Verdict) {
        let stop = ordinal >= self.limit || record.number > self.to_number;
        let collect = !stop;
        self.total_count = self.total_count.add_value(1);
        self.total_capacity = self.total_capacity.add_value(record.capacity);
        if collect {
            self.current_count = self.current_count.add_value(1);
            self.current_capacity = self.current_capacity.add_value(record.capacity);
        }
        Verdict { stop: self.fast_mode && stop, collect }
    }
}

/// The window law, first part. Whatever a lister is shown, and from whatever
/// valid state, the window's count and capacity never exceed the totals.
pub proof fn lemma_window_within_total(
    state: WindowModel,
    offered: Seq<UnspentCellRecord>,
    n: nat,
)
    requires
        state.current.within(state.total),
        n <= offered.len(),
    ensures
        scan_prefix::<WindowedLister>(state, offered, n).state.current.within(
            scan_prefix::<WindowedLister>(state, offered, n).state.total,
        ),
    decreases n,
{
    if n > 0 {
        lemma_window_within_total(state, offered, (n - 1) as nat);
    }
}

/// The window law, second part. In fast mode a scan by a fresh lister halts at
/// the first record outside the window. Until then all it has seen is inside
/// the window, and the totals equal the window's counts. The record at which
/// it halts is seen and not kept: from then on the totals are the window's
/// counts and that one record.
pub proof fn lemma_fast_mode_totals(
    limit: nat,
    to_number: u64,
    offered: Seq<UnspentCellRecord>,
    n: nat,
)
    requires
        n <= offered.len(),
    ensures
        ({
            let outcome = scan_prefix::<WindowedLister>(
                WindowModel::fresh(limit, to_number, true),
                offered,
                n,
            );
            &&& outcome.state.limit == limit && outcome.state.to_number == to_number
                && outcome.state.fast_mode
            &&& outcome.state.current.count == outcome.collected.len()
            &&& !outcome.stopped ==> outcome.state.total == outcome.state.current
            &&& outcome.stopped ==> {
                &&& 1 <= outcome.visited <= n
                &&& outcome.state.total == outcome.state.current.with(
                    offered[outcome.visited - 1],
                )
            }
        }),
    decreases n,
{
    if n > 0 {
        lemma_fast_mode_totals(limit, to_number, offered, (n - 1) as nat);
        crate::stream::lemma_scan_visits_in_order::<WindowedLister>(
            WindowModel::fresh(limit, to_number, true),
            offered,
            (n - 1) as nat,
        );
    }
}

/// Without fast mode a scan never halts: the lister sees every record, and the
/// totals count them all.
pub proof fn lemma_full_mode_totals(
    limit: nat,
    to_number: u64,
    offered: Seq<UnspentCellRecord>,
    n: nat,
)
    requires
        n <= offered.len(),
    ensures
        ({
            let outcome = scan_prefix::<WindowedLister>(
                WindowModel::fresh(limit, to_number, false),
                offered,
                n,
            );
            &&& outcome.state.limit == limit && outcome.state.to_number == to_number
                && !outcome.state.fast_mode
            &&& !outcome.stopped
            &&& outcome.state.total.count == n
            &&& outcome.state.total.capacity == crate::cell::total_capacity(offered.take(n as int))
            &&& outcome.state.current.count == outcome.collected.len()
            &&& outcome.state.current.capacity == crate::cell::total_capacity(outcome.collected)
        }),
    decreases n,
{
    if n == 0 {
        assert(offered.take(0) =~= Seq::empty());
    } else {
        lemma_full_mode_totals(limit, to_number, offered, (n - 1) as nat);
        assert(offered.take(n as int).drop_last() =~= offered.take((n - 1) as int));
        let before = scan_prefix::<WindowedLister>(
            WindowModel::fresh(limit, to_number, false),
            offered,
            (n - 1) as nat,
        );
        crate::cell::lemma_total_capacity_push(before.collected, offered[n - 1]);
    }
}

/// In either mode the window's counts are those of the records kept.
pub proof fn lemma_window_counts_kept(
    limit: nat,
    to_number: u64,
    fast_mode: bool,
    offered: Seq<UnspentCellRecord>,
    n: nat,
)
    requires
        n <= offered.len(),
    ensures
        ({
            let outcome = scan_prefix::<WindowedLister>(
                WindowModel::fresh(limit, to_number, fast_mode),
                offered,
                n,
            );
            &&& outcome.state.limit == limit && outcome.state.to_number == to_number
                && outcome.state.fast_mode == fast_mode
            &&& outcome.state.current.count == outcome.collected.len()
            &&& outcome.state.current.capacity == crate::cell::total_capacity(outcome.collected)
            &&& outcome.state.current.within(outcome.state.total)
        }),
    decreases n,
{
    if n > 0 {
        lemma_window_counts_kept(limit, to_number, fast_mode, offered, (n - 1) as nat);
        let before = scan_prefix::<WindowedLister>(
            WindowModel::fresh(limit, to_number, fast_mode),
            offered,
            (n - 1) as nat,
        );
        crate::cell::lemma_total_capacity_push(before.collected, offered[n - 1]);
    }
}

/// The page law. Of records that come in the order of their blocks, a fresh
/// lister keeps a prefix: the records before the first one that lies outside
/// the window. It keeps at most `limit` records, none past block `to_number`,
/// and it leaves out no record that comes before the window ends.
pub proof fn lemma_window_is_prefix(
    limit: nat,
    to_number: u64,
    fast_mode: bool,
    offered: Seq<UnspentCellRecord>,
    n: nat,
)
    requires
        n <= offered.len(),
        forall|i: int, j: int| 0 <= i <= j < offered.len() ==> offered[i].number <= offered[j].number,
    ensures
        ({
            let outcome = scan_prefix::<WindowedLister>(
                WindowModel::fresh(limit, to_number, fast_mode),
                offered,
                n,
            );
            let kept = outcome.collected.len();
            &&& kept <= outcome.visited <= n
            &&& kept <= limit
            &&& outcome.collected == offered.take(kept as int)
            &&& forall|i: int| 0 <= i < kept ==> offered[i].number <= to_number
            &&& kept < outcome.visited ==> kept == limit || offered[kept as int].number > to_number
            &&& !outcome.stopped ==> outcome.visited == n
            &&& outcome.stopped ==> kept < outcome.visited
        }),
    decreases n,
{
    let fresh = WindowModel::fresh(limit, to_number, fast_mode);
    if n == 0 {
        assert(offered.take(0) =~= Seq::empty());
    } else {
        lemma_window_is_prefix(limit, to_number, fast_mode, offered, (n - 1) as nat);
        lemma_window_counts_kept(limit, to_number, fast_mode, offered, (n - 1) as nat);
        let before = scan_prefix::<WindowedLister>(fresh, offered, (n - 1) as nat);
        let kept = before.collected.len();
        if !before.stopped {
            let record = offered[n - 1];
            if kept == n - 1 {
                if !before.state.outside((n - 1) as nat, record) {
                    assert(offered.take(n as int) =~= offered.take(n - 1).push(record));
                }
            } else {
                assert(offered[kept as int].number <= record.number);
            }
        }
    }
}

} // verus!
