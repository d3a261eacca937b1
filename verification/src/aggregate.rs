//! The capacity aggregator: the policy behind a balance query. It never stops
//! a scan and keeps nothing; it adds every record it sees to a grand total, to
//! the subtotal of immature cells and to the subtotal of deposit-class cells.

use vstd::prelude::*;
use vstd::arithmetic::overflow::CheckedU64;
use crate::cell::{lemma_total_capacity_push, total_capacity, UnspentCellRecord};
use crate::stream::{scan_prefix, ScanPolicy, Verdict};

verus! {

/// The aggregator as a mathematical value.
pub struct AggregateModel {
    /// Newest block whose rewards may be spent.
    pub max_mature_number: u64,
    /// Capacity of every record seen.
    pub total: nat,
    /// Capacity of the records seen that are not mature.
    pub immature: nat,
    /// Capacity of the records seen that are deposit-class.
    pub deposit: nat,
}

impl AggregateModel {
    /// An aggregator that has seen nothing.
    pub open spec fn fresh(max_mature_number: u64) -> AggregateModel {
        AggregateModel { max_mature_number, total: 0, immature: 0, deposit: 0 }
    }

    /// One record shown to the aggregator. Its capacity always joins the grand
    /// total; it joins the immature subtotal when the record is not mature,
    /// and the deposit subtotal when the record is deposit-class. The two
    /// subtotals do not exclude each other.
    pub open spec fn offer(self, record: UnspentCellRecord) -> AggregateModel {
        AggregateModel {
            max_mature_number: self.max_mature_number,
            total: self.total + record.capacity as nat,
            immature: if record.mature(self.max_mature_number) {
                self.immature
            } else {
                self.immature + record.capacity as nat
            },
            deposit: if record.deposit() {
                self.deposit + record.capacity as nat
            } else {
                self.deposit
            },
        }
    }

    /// The aggregator after it has been shown all of `offered`, in order.
    pub open spec fn offer_all(self, offered: Seq<UnspentCellRecord>) -> AggregateModel
        decreases offered.len(),
    {
        if offered.len() == 0 {
            self
        } else {
            self.offer_all(offered.drop_last()).offer(offered.last())
        }
    }

    /// No subtotal exceeds the grand total.
    pub open spec fn bounded(self) -> bool {
        self.immature <= self.total && self.deposit <= self.total
    }
}

/// The records of `offered` that are not mature.
pub open spec fn immature_of(offered: Seq<UnspentCellRecord>, max_mature_number: u64) -> Seq<
    UnspentCellRecord,
> {
    offered.filter(|r: UnspentCellRecord| !r.mature(max_mature_number))
}

/// The records of `offered` that are deposit-class.
pub open spec fn deposits_of(offered: Seq<UnspentCellRecord>) -> Seq<UnspentCellRecord> {
    offered.filter(|r: UnspentCellRecord| r.deposit())
}

/// Showing records one after another is the same as showing them in two runs.
pub proof fn lemma_aggregate_concat(
    model: AggregateModel,
    a: Seq<UnspentCellRecord>,
    b: Seq<UnspentCellRecord>,
)
    ensures
        model.offer_all(a + b) == model.offer_all(a).offer_all(b),
    decreases b.len(),
{
    if b.len() == 0 {
        assert(a + b =~= a);
    } else {
        lemma_aggregate_concat(model, a, b.drop_last());
        assert((a + b).drop_last() =~= a + b.drop_last());
        assert((a + b).last() == b.last());
    }
}

/// What the aggregator holds after any records: each of its three sums is
/// what it held before plus the capacity of the records of its class.
pub proof fn lemma_aggregate_sums(model: AggregateModel, offered: Seq<UnspentCellRecord>)
    ensures
        model.offer_all(offered).max_mature_number == model.max_mature_number,
        model.offer_all(offered).total == model.total + total_capacity(offered),
        model.offer_all(offered).immature == model.immature + total_capacity(
            immature_of(offered, model.max_mature_number),
        ),
        model.offer_all(offered).deposit == model.deposit + total_capacity(deposits_of(offered)),
        model.bounded() ==> model.offer_all(offered).bounded(),
    decreases offered.len(),
{
    reveal(Seq::filter);
    if offered.len() > 0 {
        let shorter = offered.drop_last();
        let last = offered.last();
        lemma_aggregate_sums(model, shorter);
        if !last.mature(model.max_mature_number) {
            lemma_total_capacity_push(immature_of(shorter, model.max_mature_number), last);
        }
        if last.deposit() {
            lemma_total_capacity_push(deposits_of(shorter), last);
        }
    }
}

/// The deposit law. A deposit-class record adds its capacity to the grand
/// total and to the deposit subtotal. It adds to the immature subtotal only
/// when it is itself not mature.
pub proof fn lemma_deposit_contribution(
    offered: Seq<UnspentCellRecord>,
    max_mature_number: u64,
    record: UnspentCellRecord,
)
    requires
        record.deposit(),
    ensures
        ({
            let before = AggregateModel::fresh(max_mature_number).offer_all(offered);
            let after = AggregateModel::fresh(max_mature_number).offer_all(offered.push(record));
            &&& after.total == before.total + record.capacity
            &&& after.deposit == before.deposit + record.capacity
            &&& record.mature(max_mature_number) ==> after.immature == before.immature
            &&& !record.mature(max_mature_number) ==> after.immature == before.immature
                + record.capacity
        }),
{
    assert(offered.push(record).drop_last() =~= offered);
    lemma_aggregate_sums(AggregateModel::fresh(max_mature_number), offered);
}

/// The three sums of a balance query.
#[derive(Clone, Copy, Debug, PartialEq, Eq, Structural)]
pub struct CapacityTotals {
    /// Capacity of every cell.
    pub total: u64,
    /// Capacity of the cells that are not mature.
    pub immature: u64,
    /// Capacity of the deposit-class cells.
    pub deposit: u64,
}

impl CapacityTotals {
    /// What is free to spend: the total without the deposits. `None` where
    /// the deposits are put higher than the total.
    pub fn free(&self) -> (free: Option<u64>)
        ensures
            free == if self.deposit <= self.total {
                Some((self.total - self.deposit) as u64)
            } else {
                None
            },
    {
        if self.deposit <= self.total {
            Some(self.total - self.deposit)
        } else {
            None
        }
    }
}

/// The capacity aggregator.
pub struct CapacityAggregator {
    max_mature_number: u64,
    total: CheckedU64,
    immature: CheckedU64,
    deposit: CheckedU64,
}

impl View for CapacityAggregator {
    type V = AggregateModel;

    closed spec fn view(&self) -> AggregateModel {
        AggregateModel {
            max_mature_number: self.max_mature_number,
            total: self.total@,
            immature: self.immature@,
            deposit: self.deposit@,
        }
    }
}

impl CapacityAggregator {
    /// An aggregator that has seen nothing, with the newest block whose
    /// rewards may be spent.
    pub fn new(max_mature_number: u64) -> (aggregator: CapacityAggregator)
        ensures
            aggregator.wf(),
            aggregator@ == AggregateModel::fresh(max_mature_number),
    {
        CapacityAggregator {
            max_mature_number,
            total: CheckedU64::new(0),
            immature: CheckedU64::new(0),
            deposit: CheckedU64::new(0),
        }
    }

    /// The three sums, or `None` when the grand total is beyond 64 bits.
    pub fn totals(&self) -> (sums: Option<CapacityTotals>)
        requires
            self.wf(),
        ensures
            sums is Some <==> self@.total <= u64::MAX,
            sums matches Some(t) ==> t.total == self@.total && t.immature == self@.immature
                && t.deposit == self@.deposit,
    {
        if self.total.is_overflowed() {
            None
        } else {
            Some(
                CapacityTotals {
                    total: self.total.unwrap(),
                    immature: self.immature.unwrap(),
                    deposit: self.deposit.unwrap(),
                },
            )
        }
    }
}

impl ScanPolicy for CapacityAggregator {
    open spec fn wf(&self) -> bool {
        self@.bounded()
    }

    open spec fn step(state: AggregateModel, ordinal: nat, record: UnspentCellRecord) -> (
        AggregateModel,
        Verdict,
    ) {
        (state.offer(record), Verdict { stop: false, collect: false })
    }

    fn visit(&mut self, ordinal: usize, record: &UnspentCellRecord) -> (verdict: Verdict) {
        if !record.is_mature(self.max_mature_number) {
            self.immature = self.immature.add_value(record.capacity);
        }
        if record.is_deposit() {
            self.deposit = self.deposit.add_value(record.capacity);
        }
        self.total = self.total.add_value(record.capacity);
        Verdict { stop: false, collect: false }
    }
}

/// A scan shows the aggregator every record offered and keeps none.
pub proof fn lemma_scan_aggregates_all(
    state: AggregateModel,
    offered: Seq<UnspentCellRecord>,
    n: nat,
)
    requires
        n <= offered.len(),
    ensures
        scan_prefix::<CapacityAggregator>(state, offered, n).state == state.offer_all(
            offered.take(n as int),
        ),
        !scan_prefix::<CapacityAggregator>(state, offered, n).stopped,
        scan_prefix::<CapacityAggregator>(state, offered, n).collected.len() == 0,
    decreases n,
{
    if n == 0 {
        assert(offered.take(0) =~= Seq::empty());
    } else {
        lemma_scan_aggregates_all(state, offered, (n - 1) as nat);
        assert(offered.take(n as int).drop_last() =~= offered.take((n - 1) as int));
        assert(offered.take(n as int).last() == offered[n - 1]);
    }
}

} // verus!
