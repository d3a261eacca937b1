//! The wallet's three operations over an index of live cells: the balance of
//! some locks, a page of the cells of a search, and a transfer up to the
//! point where it needs signatures.

use vstd::prelude::*;
use crate::aggregate::{
    deposits_of, immature_of, lemma_aggregate_sums, AggregateModel, CapacityAggregator,
};
use crate::balance::{balance_of, TransferLimits};
use crate::cell::{total_capacity, SearchKey, UnspentCellRecord};
use crate::derive::DerivedKeySet;
use crate::error::{TransferError, ValidationError};
use crate::funding::FundingModel;
use crate::hash::{Hash256, LockIdentity};
use crate::identity::{derived_value, resolve_failure, resolved, sighash_identity, Identities};
use crate::index::{block_ordered, lemma_selection_ordered, offered_by_locks, LiveCellIndex};
use crate::request::{request_violation, TransferRequest};
use crate::script::LockScript;
use crate::stream::{scan_all, selection};
use crate::transfer::{inputs_match, locks_of, TransferOrchestrator, TransferStage};
use crate::window::{
    lemma_full_mode_totals, lemma_window_counts_kept, lemma_window_is_prefix, WindowModel,
    WindowedLister,
};

verus! {

/// Why a transfer whose identities are resolved fails for want of funds or
/// over its fee, if it does: the cells of the locks searched must cover
/// payment and fee, and the transfer must balance.
pub open spec fn funding_failure(
    index: Seq<UnspentCellRecord>,
    request: TransferRequest,
    limits: TransferLimits,
    max_mature_number: u64,
    ids: Identities,
) -> Option<TransferError> {
    let found = FundingModel::fresh(
        (request.capacity + request.fee) as nat,
        max_mature_number,
    ).offer_all(offered_by_locks(index, locks_of(ids.entries@)));
    if !found.satisfied() {
        Some(TransferError::InsufficientFunds(found.accumulated() as u128))
    } else {
        match balance_of(found.accumulated(), request.capacity, request.fee, limits) {
            Err(e) => Some(e),
            Ok(_) => None,
        }
    }
}

/// True when the first `kept` of `cells` are the window of a listing: there
/// are no more of them than the limit, none lies past the last block, and the
/// cell behind them, if there is one, is outside the window.
pub open spec fn is_window(cells: Seq<UnspentCellRecord>, kept: nat, limit: nat, to_number: u64) -> bool {
    &&& kept <= limit
    &&& kept <= cells.len()
    &&& forall|i: int| 0 <= i < kept ==> (#[trigger] cells[i]).number <= to_number
    &&& kept < cells.len() ==> kept == limit || cells[kept as int].number > to_number
}

/// True when a page holds the window of a listing: its cells are the first
/// cells of the search, in their order.
pub open spec fn is_window_of(
    cells: Seq<UnspentCellRecord>,
    page: Seq<LiveCell>,
    limit: nat,
    to_number: u64,
) -> bool {
    &&& is_window(cells, page.len(), limit, to_number)
    &&& forall|i: int| 0 <= i < page.len() ==> (#[trigger] page[i]).info == cells[i]
}

/// The last block of a listing: the one named, else the last there can be.
pub open spec fn spec_to_number(to_number: Option<u64>) -> u64 {
    match to_number {
        Some(n) => n,
        None => u64::MAX,
    }
}

/// One cell of a listing, with whether it may be spent yet.
#[derive(Clone, Copy, Debug, PartialEq, Eq)]
pub struct LiveCell {
    pub info: UnspentCellRecord,
    pub mature: bool,
}

/// One page of a listing.
#[derive(Clone, Debug, PartialEq, Eq)]
pub struct LiveCells {
    pub live_cells: Vec<LiveCell>,
    pub current_count: u32,
    pub current_capacity: u64,
}

/// The wallet over an index of live cells, as the chain stood when the index
/// was read.
pub struct WalletSubCommand {
    index: LiveCellIndex,
    max_mature_number: u64,
    limits: TransferLimits,
}

impl WalletSubCommand {
    pub closed spec fn index(&self) -> Seq<UnspentCellRecord> {
        self.index@
    }

    /// Newest block whose rewards may be spent.
    pub closed spec fn max_mature_number(&self) -> u64 {
        self.max_mature_number
    }

    pub closed spec fn limits(&self) -> TransferLimits {
        self.limits
    }

    /// A wallet over an index, with the newest block whose rewards may be
    /// spent and the limits of the chain.
    pub fn new(index: LiveCellIndex, max_mature_number: u64) -> (wallet: WalletSubCommand)
        ensures
            wallet.index() == index@,
            wallet.max_mature_number() == max_mature_number,
            wallet.limits().min_cell_capacity == crate::balance::MIN_SECP_CELL_CAPACITY,
            wallet.limits().fee_ceiling == crate::balance::ONE_CKB,
            wallet.limits().capacity_per_byte == crate::balance::ONE_CKB,
    {
        WalletSubCommand { index, max_mature_number, limits: TransferLimits::standard() }
    }

    /// A wallet with limits of the caller's choosing.
    pub fn with_limits(index: LiveCellIndex, max_mature_number: u64, limits: TransferLimits) -> (wallet:
        WalletSubCommand)
        ensures
            wallet.index() == index@,
            wallet.max_mature_number() == max_mature_number,
            wallet.limits() == limits,
    {
        WalletSubCommand { index, max_mature_number, limits }
    }

    /// The balance of some locks: the capacity of all their cells, of those
    /// that are not mature, and of those that are deposit-class, in this
    /// order. Fails where the first of the three is beyond 64 bits.
    pub fn get_capacity(&self, lock_hashes: Vec<LockIdentity>) -> (out: Result<
        (u64, u64, u64),
        TransferError,
    >)
        ensures
            ({
                let cells = offered_by_locks(self.index(), lock_hashes@);
                let total = total_capacity(cells);
                let immature = total_capacity(immature_of(cells, self.max_mature_number()));
                let deposit = total_capacity(deposits_of(cells));
                if total <= u64::MAX {
                    out == Ok::<(u64, u64, u64), TransferError>(
                        (total as u64, immature as u64, deposit as u64),
                    )
                } else {
                    out == Err::<(u64, u64, u64), TransferError>(TransferError::CapacityOverflow)
                }
            }),
    {
        let mut aggregator = CapacityAggregator::new(self.max_mature_number);
        self.index.aggregate(&lock_hashes, &mut aggregator);
        proof {
            lemma_aggregate_sums(
                AggregateModel::fresh(self.max_mature_number),
                offered_by_locks(self.index@, lock_hashes@),
            );
        }
        match aggregator.totals() {
            Some(sums) => Ok((sums.total, sums.immature, sums.deposit)),
            None => Err(TransferError::CapacityOverflow),
        }
    }

    /// What a page of a search must be: the cells that a fresh lister keeps of
    /// the cells of the search, each with whether it may be spent yet, with
    /// their count and capacity; and, unless in fast mode, the count and
    /// capacity of all cells of the search. The page fails exactly where a
    /// count or a capacity to be reported does not fit its width.
    pub open spec fn is_page(
        &self,
        to_number: u64,
        limit: usize,
        key: SearchKey,
        from_number: Option<u64>,
        fast_mode: bool,
        out: Result<(LiveCells, Option<(u32, u64)>), TransferError>,
    ) -> bool {
        let cells = selection(
            self.index(),
            key,
            match from_number {
                Some(n) => n,
                None => 0,
            },
        );
        let kept = scan_all::<WindowedLister>(
            WindowModel::fresh(limit as nat, to_number, fast_mode),
            cells,
        ).collected;
        let fits = if fast_mode {
            kept.len() <= u32::MAX && total_capacity(kept) <= u64::MAX
        } else {
            cells.len() <= u32::MAX && total_capacity(cells) <= u64::MAX
        };
        match out {
            Ok((page, total)) => {
                &&& fits
                &&& page.live_cells@.len() == kept.len()
                &&& forall|i: int|
                    0 <= i < kept.len() ==> (#[trigger] page.live_cells@[i]).info == kept[i]
                        && page.live_cells@[i].mature == kept[i].mature(self.max_mature_number())
                &&& page.current_count == kept.len()
                &&& page.current_capacity == total_capacity(kept)
                &&& total == if fast_mode {
                    None
                } else {
                    Some((cells.len() as u32, total_capacity(cells) as u64))
                }
            },
            Err(e) => !fits && e == TransferError::CapacityOverflow,
        }
    }

    /// One page of the cells of a search: at most `limit` cells, none past
    /// block `to_number`, each with whether it may be spent yet, and with
    /// their count and capacity. Unless in fast mode, the count and capacity
    /// of all cells of the search come with it; in fast mode the search ends
    /// with the page and they are not known. Fails where a count or a
    /// capacity to be reported does not fit its width.
    pub fn get_live_cells(
        &self,
        to_number: u64,
        limit: usize,
        key: SearchKey,
        from_number: Option<u64>,
        fast_mode: bool,
    ) -> (out: Result<(LiveCells, Option<(u32, u64)>), TransferError>)
        ensures
            self.is_page(to_number, limit, key, from_number, fast_mode, out),
            block_ordered(self.index()) ==> (out matches Ok((page, _)) ==> is_window_of(
                selection(
                    self.index(),
                    key,
                    match from_number {
                        Some(n) => n,
                        None => 0,
                    },
                ),
                page.live_cells@,
                limit as nat,
                to_number,
            )),
    {
        let mut lister = WindowedLister::new(limit, to_number, fast_mode);
        let ghost cells = selection(
            self.index@,
            key,
            match from_number {
                Some(n) => n,
                None => 0,
            },
        );
        let infos = self.index.scan(key, from_number, &mut lister);
        proof {
            lemma_window_counts_kept(limit as nat, to_number, fast_mode, cells, cells.len());
            if block_ordered(self.index@) {
                lemma_selection_ordered(
                    self.index@,
                    key,
                    match from_number {
                        Some(n) => n,
                        None => 0,
                    },
                );
                lemma_window_is_prefix(limit as nat, to_number, fast_mode, cells, cells.len());
                if scan_all::<WindowedLister>(
                    WindowModel::fresh(limit as nat, to_number, fast_mode),
                    cells,
                ).stopped {
                    crate::stream::lemma_scan_visits_in_order::<WindowedLister>(
                        WindowModel::fresh(limit as nat, to_number, fast_mode),
                        cells,
                        cells.len(),
                    );
                }
            }
            if !fast_mode {
                lemma_full_mode_totals(limit as nat, to_number, cells, cells.len());
                assert(cells.take(cells.len() as int) =~= cells);
            }
        }
        let counts = match lister.counts() {
            Some(c) => c,
            None => {
                return Err(TransferError::CapacityOverflow);
            },
        };
        let mut live_cells: Vec<LiveCell> = Vec::new();
        let mut i: usize = 0;
        while i < infos.len()
            invariant
                i <= infos@.len(),
                live_cells@.len() == i,
                forall|j: int|
                    0 <= j < i ==> (#[trigger] live_cells@[j]).info == infos@[j] && live_cells@[j].mature
                        == infos@[j].mature(self.max_mature_number),
            decreases infos@.len() - i,
        {
            let info = infos[i];
            live_cells.push(LiveCell { info, mature: info.is_mature(self.max_mature_number) });
            i += 1;
        }
        Ok(
            (
                LiveCells {
                    live_cells,
                    current_count: counts.current_count,
                    current_capacity: counts.current_capacity,
                },
                counts.total,
            ),
        )
    }

    /// A page of the cells found by whichever key is given: by lock where a
    /// lock is given, else by type, else by code, up to block `to_number` or
    /// to the end of the chain. Fails where no key is given.
    pub fn find_live_cells(
        &self,
        lock: Option<LockIdentity>,
        type_hash: Option<Hash256>,
        code_hash: Option<Hash256>,
        from_number: Option<u64>,
        to_number: Option<u64>,
        limit: usize,
        fast_mode: bool,
    ) -> (out: Result<(LiveCells, Option<(u32, u64)>), TransferError>)
        ensures
            match (lock, type_hash, code_hash) {
                (Some(h), _, _) => self.is_page(
                    spec_to_number(to_number),
                    limit,
                    SearchKey::Lock(h),
                    from_number,
                    fast_mode,
                    out,
                ),
                (None, Some(h), _) => self.is_page(
                    spec_to_number(to_number),
                    limit,
                    SearchKey::Type(h),
                    from_number,
                    fast_mode,
                    out,
                ),
                (None, None, Some(h)) => self.is_page(
                    spec_to_number(to_number),
                    limit,
                    SearchKey::Code(h),
                    from_number,
                    fast_mode,
                    out,
                ),
                (None, None, None) => out == Err::<(LiveCells, Option<(u32, u64)>), TransferError>(
                    TransferError::InputValidation(ValidationError::NoSearchKey),
                ),
            },
    {
        let key = match SearchKey::pick(lock, type_hash, code_hash) {
            Some(key) => key,
            None => {
                return Err(TransferError::InputValidation(ValidationError::NoSearchKey));
            },
        };
        let last = match to_number {
            Some(n) => n,
            None => u64::MAX,
        };
        self.get_live_cells(last, limit, key, from_number, fast_mode)
    }

    /// The locks of a balance query: the lock asked about, and behind it the
    /// single-key locks of the keys derived of it, receiving keys before
    /// change keys.
    pub fn capacity_locks(lock: &LockScript, derived: Option<&DerivedKeySet>) -> (locks: Vec<
        LockIdentity,
    >)
        ensures
            locks@.len() == 1 + match derived {
                Some(set) => set.all().len(),
                None => 0,
            },
            locks@[0]@ == lock.spec_identity(),
            derived matches Some(set) ==> forall|i: int|
                0 <= i < set.all().len() ==> locks@[1 + i]@ == sighash_identity(
                    (#[trigger] set.all()[i]).hash,
                ),
    {
        let mut locks: Vec<LockIdentity> = Vec::new();
        locks.push(lock.identity());
        match derived {
            Some(set) => {
                let mut i: usize = 0;
                while i < set.external.len()
                    invariant
                        i <= set.external@.len(),
                        locks@.len() == 1 + i,
                        locks@[0]@ == lock.spec_identity(),
                        forall|k: int|
                            0 <= k < i ==> locks@[1 + k]@ == sighash_identity(
                                (#[trigger] set.external@[k]).hash,
                            ),
                    decreases set.external@.len() - i,
                {
                    locks.push(LockScript::sighash(&set.external[i].hash).identity());
                    i += 1;
                }
                let mut j: usize = 0;
                while j < set.change.len()
                    invariant
                        j <= set.change@.len(),
                        locks@.len() == 1 + set.external@.len() + j,
                        locks@[0]@ == lock.spec_identity(),
                        forall|k: int|
                            0 <= k < set.external@.len() ==> locks@[1 + k]@ == sighash_identity(
                                (#[trigger] set.external@[k]).hash,
                            ),
                        forall|k: int|
                            0 <= k < j ==> locks@[1 + set.external@.len() + k]@
                                == sighash_identity((#[trigger] set.change@[k]).hash),
                    decreases set.change@.len() - j,
                {
                    locks.push(LockScript::sighash(&set.change[j].hash).identity());
                    j += 1;
                }
                proof {
                    assert forall|k: int| 0 <= k < set.all().len() implies locks@[1 + k]@
                        == sighash_identity((#[trigger] set.all()[k]).hash) by {
                        if k < set.external@.len() {
                            assert(set.all()[k] == set.external@[k]);
                        } else {
                            assert(set.all()[k] == set.change@[k - set.external@.len()]);
                        }
                    }
                }
            },
            None => {},
        }
        locks
    }

    /// Takes a transfer through its first four stages: checks the request,
    /// resolves the identities, searches the index for funds and balances the
    /// transaction. Hands out the transfer at the signing stage, with its
    /// transaction assembled; or the reason it failed.
    pub fn transfer(&self, request: TransferRequest, derived: Option<&DerivedKeySet>) -> (out: Result<
        TransferOrchestrator,
        TransferError,
    >)
        ensures
            match out {
                Ok(transfer) => {
                    &&& transfer.wf()
                    &&& transfer.stage() == TransferStage::SigningInputs
                    &&& transfer.request() == request
                    &&& transfer.limits() == self.limits()
                    &&& request_violation(request, self.limits()) is None
                    &&& transfer.identities() matches Some(ids)
                    &&& resolved(request, derived_value(derived), ids)
                    &&& transfer.selector() == FundingModel::fresh(
                        (request.capacity + request.fee) as nat,
                        self.max_mature_number(),
                    ).offer_all(offered_by_locks(self.index(), locks_of(ids.entries@)))
                    &&& transfer.selector().satisfied()
                    &&& transfer.settled() matches Some(b)
                    &&& balance_of(
                        transfer.selector().accumulated(),
                        request.capacity,
                        request.fee,
                        self.limits(),
                    ) == Ok::<crate::balance::Balance, TransferError>(b)
                    &&& inputs_match(
                        transfer.pending().inputs(),
                        request,
                        ids,
                        transfer.selector().collected,
                    )
                    &&& funding_failure(
                        self.index(),
                        request,
                        self.limits(),
                        self.max_mature_number(),
                        ids,
                    ) is None
                },
                Err(e) => {
                    ||| request_violation(request, self.limits()) matches Some(v) && e
                        == TransferError::InputValidation(v)
                    ||| request_violation(request, self.limits()) is None && resolve_failure(
                        request,
                        derived_value(derived),
                    ) == Some(e)
                    ||| {
                        &&& request_violation(request, self.limits()) is None
                        &&& resolve_failure(request, derived_value(derived)) is None
                        &&& exists|ids: Identities|
                            resolved(request, derived_value(derived), ids) && #[trigger] funding_failure(
                                self.index(),
                                request,
                                self.limits(),
                                self.max_mature_number(),
                                ids,
                            ) == Some(e)
                    }
                },
            },
    {
        let mut transfer = TransferOrchestrator::new(request, self.limits, self.max_mature_number);
        transfer.validate();
        transfer.resolve_identities(derived);
        transfer.search_funds(&self.index);
        transfer.balance();
        proof {
            if transfer.identities() is Some {
                let ids = transfer.identities().unwrap();
                let found = funding_failure(
                    self.index(),
                    request,
                    self.limits(),
                    self.max_mature_number(),
                    ids,
                );
                assert(found == found);
            }
        }
        match transfer.current_stage() {
            TransferStage::SigningInputs => Ok(transfer),
            _ => {
                let reason = match transfer.take_failure() {
                    Some(e) => e,
                    None => vstd::pervasive::unreached(),
                };
                Err(reason)
            },
        }
    }
}

} // verus!
