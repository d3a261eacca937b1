//! The live-cell index as the wallet sees it: the unspent cells of the chain
//! in the order of their blocks, searched by lock, by type or by code.

use vstd::prelude::*;
use crate::aggregate::{lemma_aggregate_concat, lemma_scan_aggregates_all, CapacityAggregator};
use crate::cell::{SearchKey, UnspentCellRecord};
use crate::funding::{lemma_offer_all_concat, lemma_scan_is_offer_all, FundingSelector};
use crate::hash::LockIdentity;
use crate::stream::{lemma_selection_push, selection, LiveCellStream, ScanPolicy};

verus! {

/// True when the records stand in the order of their blocks.
pub open spec fn block_ordered(records: Seq<UnspentCellRecord>) -> bool {
    forall|i: int, j: int| 0 <= i <= j < records.len() ==> records[i].number <= records[j].number
}

/// What a search of an ordered source hands out is ordered, and is no later
/// than the end of the source.
pub proof fn lemma_selection_ordered(source: Seq<UnspentCellRecord>, key: SearchKey, from: u64)
    requires
        block_ordered(source),
    ensures
        block_ordered(selection(source, key, from)),
        forall|i: int|
            0 <= i < selection(source, key, from).len() ==> from <= (#[trigger] selection(
                source,
                key,
                from,
            )[i]).number && selection(source, key, from)[i].number <= source.last().number,
    decreases source.len(),
{
    reveal(Seq::filter);
    if source.len() > 0 {
        let shorter = source.drop_last();
        lemma_selection_ordered(shorter, key, from);
        assert(shorter.push(source.last()) =~= source);
        lemma_selection_push(shorter, key, from, source.last());
        if shorter.len() > 0 {
            assert(shorter.last() == source[source.len() - 2]);
        }
    }
}

/// The records that a walk through several locks offers: those of the first
/// lock, then those of the second, and so on.
pub open spec fn offered_by_locks(
    source: Seq<UnspentCellRecord>,
    locks: Seq<LockIdentity>,
) -> Seq<UnspentCellRecord>
    decreases locks.len(),
{
    if locks.len() == 0 {
        Seq::empty()
    } else {
        offered_by_locks(source, locks.drop_last()) + selection(
            source,
            SearchKey::Lock(locks.last()),
            0,
        )
    }
}

/// The index: unspent cells in the order of their blocks.
pub struct LiveCellIndex {
    records: Vec<UnspentCellRecord>,
}

impl View for LiveCellIndex {
    type V = Seq<UnspentCellRecord>;

    closed spec fn view(&self) -> Seq<UnspentCellRecord> {
        self.records@
    }
}

impl LiveCellIndex {
    /// Validity: the records stand in the order of their blocks.
    pub open spec fn wf(&self) -> bool {
        block_ordered(self@)
    }

    /// An index without cells.
    pub fn new() -> (index: LiveCellIndex)
        ensures
            index.wf(),
            index@.len() == 0,
    {
        LiveCellIndex { records: Vec::new() }
    }

    /// Takes records that already stand in the order of their blocks; `None`
    /// where they do not.
    pub fn from_ordered(records: Vec<UnspentCellRecord>) -> (index: Option<LiveCellIndex>)
        ensures
            index is Some <==> block_ordered(records@),
            index matches Some(x) ==> x@ == records@,
    {
        let mut i: usize = 1;
        while i < records.len()
            invariant
                1 <= i,
                forall|a: int, b: int|
                    0 <= a <= b < i && b < records@.len() ==> records@[a].number
                        <= records@[b].number,
            decreases records@.len() - i,
        {
            if records[i - 1].number > records[i].number {
                return None;
            }
            assert forall|a: int, b: int| 0 <= a <= b < i + 1 && b < records@.len() implies records@[a].number
                <= records@[b].number by {
                if b == i && a < i {
                    assert(records@[a].number <= records@[i - 1].number);
                }
            }
            i += 1;
        }
        Some(LiveCellIndex { records })
    }

    /// Adds a cell behind every cell of its block and of earlier blocks.
    pub fn insert(&mut self, record: UnspentCellRecord)
        requires
            old(self).wf(),
        ensures
            final(self).wf(),
            final(self)@.len() == old(self)@.len() + 1,
            exists|at: int|
                0 <= at <= old(self)@.len() && final(self)@ == old(self)@.insert(at, record) && (
                forall|i: int| 0 <= i < at ==> old(self)@[i].number <= record.number) && (forall|
                    i: int,
                | at <= i < old(self)@.len() ==> old(self)@[i].number > record.number),
    {
        let mut at: usize = self.records.len();
        while at > 0 && self.records[at - 1].number > record.number
            invariant
                at <= self.records@.len(),
                self.records@ == old(self).records@,
                block_ordered(self.records@),
                forall|i: int| at <= i < self.records@.len() ==> self.records@[i].number > record.number,
            decreases at,
        {
            at -= 1;
        }
        proof {
            assert forall|i: int| 0 <= i < at implies old(self)@[i].number <= record.number by {
                assert(old(self)@[i].number <= old(self)@[at - 1].number);
            }
        }
        self.records.insert(at, record);
        proof {
            assert(self@ == old(self)@.insert(at as int, record));
        }
    }

    /// Number of cells.
    pub fn len(&self) -> (n: usize)
        ensures
            n == self@.len(),
    {
        self.records.len()
    }

    /// The cells, in order.
    pub fn records(&self) -> (records: &Vec<UnspentCellRecord>)
        ensures
            records@ == self@,
    {
        &self.records
    }

    /// Runs a policy over one search of the index.
    pub fn scan<P: ScanPolicy>(&self, key: SearchKey, from_number: Option<u64>, policy: &mut P) -> (collected:
        Vec<UnspentCellRecord>)
        requires
            old(policy).wf(),
        ensures
            final(policy).wf(),
            final(policy)@ == crate::stream::scan_all::<P>(
                old(policy)@,
                selection(
                    self@,
                    key,
                    match from_number {
                        Some(n) => n,
                        None => 0,
                    },
                ),
            ).state,
            collected@ == crate::stream::scan_all::<P>(
                old(policy)@,
                selection(
                    self@,
                    key,
                    match from_number {
                        Some(n) => n,
                        None => 0,
                    },
                ),
            ).collected,
    {
        LiveCellStream::scan(&self.records, key, from_number, policy)
    }

    /// Walks the locks in order with one funding selector: the selector ends
    /// as if it had been shown, lock after lock, every cell of each.
    pub fn fund(&self, locks: &Vec<LockIdentity>, selector: &mut FundingSelector)
        requires
            old(selector).valid(),
        ensures
            final(selector).valid(),
            final(selector)@ == old(selector)@.offer_all(offered_by_locks(self@, locks@)),
    {
        let ghost start = selector@;
        let mut i: usize = 0;
        while i < locks.len()
            invariant
                i <= locks@.len(),
                selector.valid(),
                selector@ == start.offer_all(offered_by_locks(self@, locks@.take(i as int))),
            decreases locks@.len() - i,
        {
            let ghost before = selector@;
            let ghost offered = selection(self@, SearchKey::Lock(locks@[i as int]), 0);
            let _kept = self.scan(SearchKey::Lock(locks[i]), None, selector);
            proof {
                lemma_scan_is_offer_all(before, offered, offered.len());
                assert(offered.take(offered.len() as int) =~= offered);
                let sofar = offered_by_locks(self@, locks@.take(i as int));
                lemma_offer_all_concat(start, sofar, offered);
                assert(locks@.take(i + 1).drop_last() =~= locks@.take(i as int));
            }
            i += 1;
        }
        proof {
            assert(locks@.take(i as int) =~= locks@);
        }
    }

    /// Walks the locks in order with one aggregator: the aggregator ends as if
    /// it had been shown, lock after lock, every cell of each.
    pub fn aggregate(&self, locks: &Vec<LockIdentity>, aggregator: &mut CapacityAggregator)
        requires
            old(aggregator).wf(),
        ensures
            final(aggregator).wf(),
            final(aggregator)@ == old(aggregator)@.offer_all(offered_by_locks(self@, locks@)),
    {
        let ghost start = aggregator@;
        let mut i: usize = 0;
        while i < locks.len()
            invariant
                i <= locks@.len(),
                aggregator.wf(),
                aggregator@ == start.offer_all(offered_by_locks(self@, locks@.take(i as int))),
            decreases locks@.len() - i,
        {
            let ghost before = aggregator@;
            let ghost offered = selection(self@, SearchKey::Lock(locks@[i as int]), 0);
            let _kept = self.scan(SearchKey::Lock(locks[i]), None, aggregator);
            proof {
                lemma_scan_aggregates_all(before, offered, offered.len());
                assert(offered.take(offered.len() as int) =~= offered);
                let sofar = offered_by_locks(self@, locks@.take(i as int));
                lemma_aggregate_concat(start, sofar, offered);
                assert(locks@.take(i + 1).drop_last() =~= locks@.take(i as int));
            }
            i += 1;
        }
        proof {
            assert(locks@.take(i as int) =~= locks@);
        }
    }
}

} // verus!
