//! The funding selector: the policy that gathers, in the order the records
//! come, the plain and mature cells that pay for a transfer, and stops as soon
//! as they cover the payment and the fee.

use vstd::prelude::*;
use crate::cell::{lemma_total_capacity_push, total_capacity, UnspentCellRecord};
use crate::stream::{scan_prefix, ScanPolicy, Verdict};

verus! {

/// The selector as a mathematical value.
pub struct FundingModel {
    /// Payment plus fee: what the collected cells must cover.
    pub target: nat,
    /// Newest block whose rewards may be spent.
    pub max_mature_number: u64,
    /// Cells taken so far, in the order they were taken.
    pub collected: Seq<UnspentCellRecord>,
}

impl FundingModel {
    /// A selector that has taken nothing yet.
    pub open spec fn fresh(target: nat, max_mature_number: u64) -> FundingModel {
        FundingModel { target, max_mature_number, collected: Seq::empty() }
    }

    /// Capacity of the cells taken so far.
    pub open spec fn accumulated(self) -> nat {
        total_capacity(self.collected)
    }

    /// True once the cells taken cover the target.
    pub open spec fn satisfied(self) -> bool {
        self.accumulated() >= self.target
    }

    /// A record may fund a payment when it is plain and mature.
    pub open spec fn eligible(self, record: UnspentCellRecord) -> bool {
        record.plain() && record.mature(self.max_mature_number)
    }

    /// One record shown to the selector. A satisfied selector stops and takes
    /// nothing. Otherwise an eligible record is taken, and the selector stops
    /// when that covers the target; any other record is passed over.
    pub open spec fn offer(self, record: UnspentCellRecord) -> (FundingModel, Verdict) {
        if self.satisfied() {
            (self, Verdict { stop: true, collect: false })
        } else if self.eligible(record) {
            let next = FundingModel { collected: self.collected.push(record), ..self };
            (next, Verdict { stop: next.satisfied(), collect: true })
        } else {
            (self, Verdict { stop: false, collect: false })
        }
    }

    /// The selector after it has been shown all of `offered`, in order.
    pub open spec fn offer_all(self, offered: Seq<UnspentCellRecord>) -> FundingModel
        decreases offered.len(),
    {
        if offered.len() == 0 {
            self
        } else {
            self.offer_all(offered.drop_last()).offer(offered.last()).0
        }
    }

    /// What holds of every selector that started fresh: all it took is
    /// eligible, and without the last cell taken the target is not covered.
    pub open spec fn minimal(self) -> bool {
        &&& forall|i: int| 0 <= i < self.collected.len() ==> self.eligible(#[trigger] self.collected[i])
        &&& self.collected.len() > 0 ==> total_capacity(self.collected.drop_last()) < self.target
    }
}

/// The records of `offered` that may fund a payment, in the order of `offered`.
pub open spec fn eligible_of(offered: Seq<UnspentCellRecord>, max_mature_number: u64) -> Seq<
    UnspentCellRecord,
> {
    offered.filter(|r: UnspentCellRecord| r.plain() && r.mature(max_mature_number))
}

/// Showing records one after another is the same as showing them in two runs.
pub proof fn lemma_offer_all_concat(
    model: FundingModel,
    a: Seq<UnspentCellRecord>,
    b: Seq<UnspentCellRecord>,
)
    ensures
        model.offer_all(a + b) == model.offer_all(a).offer_all(b),
    decreases b.len(),
{
    if b.len() == 0 {
        assert(a + b =~= a);
    } else {
        lemma_offer_all_concat(model, a, b.drop_last());
        assert((a + b).drop_last() =~= a + b.drop_last());
        assert((a + b).last() == b.last());
    }
}

/// A selector keeps its target and its maturity cutoff, and stays minimal.
pub proof fn lemma_offer_all_keeps(model: FundingModel, offered: Seq<UnspentCellRecord>)
    ensures
        model.offer_all(offered).target == model.target,
        model.offer_all(offered).max_mature_number == model.max_mature_number,
        model.minimal() ==> model.offer_all(offered).minimal(),
        model.satisfied() ==> model.offer_all(offered) == model,
    decreases offered.len(),
{
    if offered.len() > 0 {
        lemma_offer_all_keeps(model, offered.drop_last());
        let before = model.offer_all(offered.drop_last());
        let after = before.offer(offered.last()).0;
        if !before.satisfied() && before.eligible(offered.last()) {
            assert(after.collected.drop_last() =~= before.collected);
        }
    }
}

/// The funding law. Whatever records a fresh selector is shown, the cells it
/// takes are a prefix, in scan order, of the eligible ones among them; that
/// prefix covers the target unless the eligible cells run out first; and it is
/// the shortest such prefix: without its last cell the target is not covered.
pub proof fn lemma_funding_is_shortest_prefix(
    target: nat,
    max_mature_number: u64,
    offered: Seq<UnspentCellRecord>,
)
    ensures
        ({
            let taken = FundingModel::fresh(target, max_mature_number).offer_all(offered).collected;
            let supply = eligible_of(offered, max_mature_number);
            &&& taken.len() <= supply.len()
            &&& taken == supply.take(taken.len() as int)
            &&& total_capacity(taken) >= target || taken == supply
            &&& taken.len() > 0 ==> total_capacity(taken.drop_last()) < target
        }),
    decreases offered.len(),
{
    let fresh = FundingModel::fresh(target, max_mature_number);
    reveal(Seq::filter);
    if offered.len() == 0 {
        assert(eligible_of(offered, max_mature_number) =~= Seq::empty());
        assert(fresh.collected.take(0) =~= fresh.collected);
    } else {
        let shorter = offered.drop_last();
        let last = offered.last();
        lemma_funding_is_shortest_prefix(target, max_mature_number, shorter);
        lemma_offer_all_keeps(fresh, shorter);
        let before = fresh.offer_all(shorter);
        let supply_before = eligible_of(shorter, max_mature_number);
        let supply = eligible_of(offered, max_mature_number);
        let after = before.offer(last).0;
        if before.eligible(last) {
            assert(supply == supply_before.push(last));
            if before.satisfied() {
                assert(supply.take(before.collected.len() as int) =~= supply_before.take(
                    before.collected.len() as int,
                ));
            } else {
                assert(before.collected == supply_before);
                assert(after.collected =~= supply);
                assert(supply.take(supply.len() as int) =~= supply);
                assert(after.collected.drop_last() =~= before.collected);
            }
        } else {
            assert(supply == supply_before);
        }
    }
}

/// The plain-cell law. Whatever records a fresh selector is shown, each cell
/// it takes is plain, with neither data nor a type script, and mature; and a
/// record that is not is never answered with `collect`.
pub proof fn lemma_funding_takes_plain_cells(
    target: nat,
    max_mature_number: u64,
    offered: Seq<UnspentCellRecord>,
    record: UnspentCellRecord,
)
    ensures
        forall|i: int|
            0 <= i < FundingModel::fresh(target, max_mature_number).offer_all(
                offered,
            ).collected.len() ==> {
                let cell = #[trigger] FundingModel::fresh(target, max_mature_number).offer_all(
                    offered,
                ).collected[i];
                cell.data_bytes == 0 && cell.type_hashes is None && cell.mature(max_mature_number)
            },
        FundingModel::fresh(target, max_mature_number).offer_all(offered).offer(record).1.collect
            ==> record.data_bytes == 0 && record.type_hashes is None && record.mature(
            max_mature_number,
        ),
{
    lemma_offer_all_keeps(FundingModel::fresh(target, max_mature_number), offered);
}

/// The funding selector.
pub struct FundingSelector {
    target: u128,
    max_mature_number: u64,
    accumulated: u128,
    collected: Vec<UnspentCellRecord>,
}

impl View for FundingSelector {
    type V = FundingModel;

    closed spec fn view(&self) -> FundingModel {
        FundingModel {
            target: self.target as nat,
            max_mature_number: self.max_mature_number,
            collected: self.collected@,
        }
    }
}

impl FundingSelector {
    /// Validity: the running sum is the sum of what was taken, and what was
    /// taken is eligible and no more than needed.
    pub closed spec fn valid(&self) -> bool {
        &&& self.accumulated == total_capacity(self.collected@)
        &&& self.target <= 2 * u64::MAX
        &&& self@.minimal()
    }

    /// A selector for a payment and its fee, with the newest block whose
    /// rewards may be spent.
    pub fn new(payment: u64, fee: u64, max_mature_number: u64) -> (selector: FundingSelector)
        ensures
            selector.valid(),
            selector@ == FundingModel::fresh((payment + fee) as nat, max_mature_number),
    {
        let target: u128 = payment as u128 + fee as u128;
        FundingSelector { target, max_mature_number, accumulated: 0, collected: Vec::new() }
    }

    /// Payment plus fee.
    pub fn target(&self) -> (t: u128)
        ensures
            t == self@.target,
    {
        self.target
    }

    /// Newest block whose rewards may be spent.
    pub fn max_mature_number(&self) -> (n: u64)
        ensures
            n == self@.max_mature_number,
    {
        self.max_mature_number
    }

    /// Capacity of the cells taken so far.
    pub fn accumulated(&self) -> (sum: u128)
        requires
            self.valid(),
        ensures
            sum == self@.accumulated(),
    {
        self.accumulated
    }

    /// The cells taken so far, in the order they were taken.
    pub fn collected(&self) -> (cells: &Vec<UnspentCellRecord>)
        ensures
            cells@ == self@.collected,
    {
        &self.collected
    }

    /// True once the cells taken cover the target.
    pub fn is_satisfied(&self) -> (done: bool)
        requires
            self.valid(),
        ensures
            done == self@.satisfied(),
    {
        self.accumulated >= self.target
    }

    /// What the cells taken hold beyond the target, once they cover it. It is
    /// less than the capacity of the last cell taken, so it fits in 64 bits.
    pub fn surplus(&self) -> (rest: Option<u64>)
        requires
            self.valid(),
        ensures
            rest is Some <==> self@.satisfied(),
            rest matches Some(r) ==> r == self@.accumulated() - self@.target,
    {
        if self.accumulated >= self.target {
            proof {
                let taken = self.collected@;
                if taken.len() > 0 {
                    lemma_total_capacity_push(taken.drop_last(), taken.last());
                    assert(taken.drop_last().push(taken.last()) =~= taken);
                }
            }
            Some((self.accumulated - self.target) as u64)
        } else {
            None
        }
    }

    /// Every cell the selector has taken is plain and mature.
    pub proof fn lemma_collected_are_eligible(&self, i: int)
        requires
            self.valid(),
            0 <= i < self@.collected.len(),
        ensures
            self@.collected[i].plain(),
            self@.collected[i].type_hashes is None,
            self@.collected[i].data_bytes == 0,
            self@.collected[i].mature(self@.max_mature_number),
    {
    }

    /// Without the last cell taken the target is not covered.
    pub proof fn lemma_last_cell_is_needed(&self)
        requires
            self.valid(),
            self@.collected.len() > 0,
        ensures
            total_capacity(self@.collected.drop_last()) < self@.target,
    {
    }
}

impl ScanPolicy for FundingSelector {
    open spec fn wf(&self) -> bool {
        self.valid()
    }

    open spec fn step(state: FundingModel, ordinal: nat, record: UnspentCellRecord) -> (
        FundingModel,
        Verdict,
    ) {
        state.offer(record)
    }

    fn visit(&mut self, ordinal: usize, record: &UnspentCellRecord) -> (verdict: Verdict) {
        if self.accumulated >= self.target {
            Verdict { stop: true, collect: false }
        } else if record.is_plain() && record.is_mature(self.max_mature_number) {
            proof {
                lemma_total_capacity_push(self.collected@, *record);
                assert(self.collected@.push(*record).drop_last() =~= self.collected@);
            }
            self.accumulated = self.accumulated + record.capacity as u128;
            self.collected.push(*record);
            Verdict { stop: self.accumulated >= self.target, collect: true }
        } else {
            Verdict { stop: false, collect: false }
        }
    }
}

/// A scan leaves the selector as if it had been shown every record offered:
/// the records after a stop would change nothing.
pub proof fn lemma_scan_is_offer_all(
    state: FundingModel,
    offered: Seq<UnspentCellRecord>,
    n: nat,
)
    requires
        n <= offered.len(),
    ensures
        scan_prefix::<FundingSelector>(state, offered, n).state == state.offer_all(
            offered.take(n as int),
        ),
        scan_prefix::<FundingSelector>(state, offered, n).stopped ==> state.offer_all(
            offered.take(n as int),
        ).satisfied(),
    decreases n,
{
    if n == 0 {
        assert(offered.take(0) =~= Seq::empty());
    } else {
        lemma_scan_is_offer_all(state, offered, (n - 1) as nat);
        assert(offered.take(n as int).drop_last() =~= offered.take((n - 1) as int));
        assert(offered.take(n as int).last() == offered[n - 1]);
    }
}

} // verus!
