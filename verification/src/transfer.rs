//! The transfer orchestrator: the stages a transfer goes through, from the
//! checks on the request to the report of the node, and what decides at each
//! stage whether the transfer goes on or fails.

use vstd::prelude::*;
use crate::balance::{balance, balance_of, Balance, TransferLimits};
use crate::cell::UnspentCellRecord;
use crate::derive::DerivedKeySet;
use crate::error::{Mismatch, TransferError};
use crate::funding::{FundingModel, FundingSelector};
use crate::hash::{Hash160, Hash256, LockIdentity};
use crate::identity::{
    derived_value, resolve_failure, resolve_identities, resolved, Identities, SearchEntry,
};
use crate::index::{offered_by_locks, LiveCellIndex};
use crate::locked::{violation, LockedSourceDescriptor};
use crate::pending::{
    input_cells, LockSignature, PendingTransaction, TransactionInput, TransactionOutput,
};
use crate::request::{request_violation, TransferRequest};
use crate::signer::Signature;
use crate::since::le_u64;
use crate::stream::{ScanPolicy, Verdict};

verus! {

/// The stages of a transfer, in their order, and the one it ends in when it
/// fails.
#[derive(Clone, Copy, Debug, PartialEq, Eq, Structural)]
pub enum TransferStage {
    Validating,
    ResolvingIdentities,
    SearchingFunds,
    Balancing,
    SigningInputs,
    Finalizing,
    Submitted,
    Failed,
}

/// The search entries whose lock owns at least one of the inputs: the locks
/// that must be signed for, in the order of the search.
pub open spec fn signing_groups_of(
    entries: Seq<SearchEntry>,
    inputs: Seq<TransactionInput>,
) -> Seq<SearchEntry> {
    entries.filter(|e: SearchEntry| owns_input(e.identity, inputs))
}

/// True when one of the inputs is a cell of this lock.
pub open spec fn owns_input(identity: LockIdentity, inputs: Seq<TransactionInput>) -> bool {
    exists|i: int| 0 <= i < inputs.len() && (#[trigger] inputs[i]).cell.lock_hash == identity
}

/// The time lock that the input for a cell carries: that of the locked source
/// where the cell belongs to it, none otherwise.
pub open spec fn since_of(request: TransferRequest, ids: Identities, cell: UnspentCellRecord) -> u64 {
    if request.locked_source is Some && cell.lock_hash == ids.entries@[0].identity {
        le_u64(request.locked_source.unwrap().args@.subrange(20, 28))
    } else {
        0
    }
}

/// True when the inputs spend `cells`, in order, each with the time lock its
/// cell asks for.
pub open spec fn inputs_match(
    inputs: Seq<TransactionInput>,
    request: TransferRequest,
    ids: Identities,
    cells: Seq<UnspentCellRecord>,
) -> bool {
    &&& inputs.len() == cells.len()
    &&& forall|i: int|
        0 <= i < inputs.len() ==> (#[trigger] inputs[i]).cell == cells[i] && inputs[i].since
            == since_of(request, ids, cells[i])
}

/// True when the identities hold the locked source of the request, where it
/// has one, at the head of the search.
pub open spec fn locked_at_head(request: TransferRequest, ids: Identities) -> bool {
    request.locked_source matches Some(locked) ==> {
        &&& violation(locked.args@) is None
        &&& ids.entries@.len() > 0
        &&& ids.entries@[0].identity@ == locked.spec_identity()
    }
}

/// The identities of search entries, in order.
pub open spec fn locks_of(entries: Seq<SearchEntry>) -> Seq<LockIdentity> {
    entries.map_values(|e: SearchEntry| e.identity)
}

/// True when the signatures answer the groups one for one and none is
/// missing.
pub open spec fn all_signed(groups: Seq<SearchEntry>, signatures: Seq<Option<Signature>>) -> bool {
    &&& signatures.len() == groups.len()
    &&& forall|i: int| 0 <= i < signatures.len() ==> (#[trigger] signatures[i]) is Some
}

/// True when two lists of search entries agree entry by entry.
pub open spec fn same_groups(a: Seq<SearchEntry>, b: Seq<SearchEntry>) -> bool {
    &&& a.len() == b.len()
    &&& forall|i: int|
        0 <= i < a.len() ==> (#[trigger] a[i]).identity == b[i].identity && a[i].candidates@
            == b[i].candidates@ && a[i].lock.parts() == b[i].lock.parts()
}

/// The signatures of the groups, each under the identity of its lock.
pub open spec fn signed_groups(
    groups: Seq<SearchEntry>,
    signatures: Seq<Option<Signature>>,
) -> Seq<LockSignature> {
    Seq::new(
        groups.len(),
        |i: int| LockSignature { identity: groups[i].identity, signature: signatures[i].unwrap() },
    )
}

/// The outputs of a balanced transfer: the payment, and behind it the change
/// where the rest is enough for a cell.
pub open spec fn outputs_match(
    outputs: Seq<TransactionOutput>,
    request: TransferRequest,
    change_lock: (Seq<u8>, u8, Seq<u8>),
    balance: Balance,
) -> bool {
    &&& outputs.len() == if balance.change is Some {
        2nat
    } else {
        1nat
    }
    &&& outputs[0].capacity == request.capacity
    &&& outputs[0].lock.parts() == request.destination.parts()
    &&& outputs[0].data@ == request.data@
    &&& balance.change matches Some(c) ==> {
        &&& outputs[1].capacity == c
        &&& outputs[1].lock.parts() == change_lock
        &&& outputs[1].data@.len() == 0
    }
}

/// One transfer on its way through the stages.
pub struct TransferOrchestrator {
    stage: TransferStage,
    failure: Option<TransferError>,
    request: TransferRequest,
    limits: TransferLimits,
    identities: Option<Identities>,
    selector: FundingSelector,
    balance: Option<Balance>,
    pending: PendingTransaction,
}

impl TransferOrchestrator {
    pub closed spec fn stage(&self) -> TransferStage {
        self.stage
    }

    /// Why the transfer failed, once it has.
    pub closed spec fn failure(&self) -> Option<TransferError> {
        self.failure
    }

    pub closed spec fn request(&self) -> TransferRequest {
        self.request
    }

    pub closed spec fn limits(&self) -> TransferLimits {
        self.limits
    }

    /// The identities, once they are resolved.
    pub closed spec fn identities(&self) -> Option<Identities> {
        self.identities
    }

    /// The funding selector.
    pub closed spec fn selector(&self) -> FundingModel {
        self.selector@
    }

    /// How the transfer comes out even, once it is balanced.
    pub closed spec fn settled(&self) -> Option<Balance> {
        self.balance
    }

    /// The transaction in the making.
    pub closed spec fn pending(&self) -> PendingTransaction {
        self.pending
    }

    /// True from the stage `SearchingFunds` on, short of failure.
    pub open spec fn past_resolving(stage: TransferStage) -> bool {
        stage == TransferStage::SearchingFunds || Self::past_searching(stage)
    }

    /// True from the stage `Balancing` on, short of failure.
    pub open spec fn past_searching(stage: TransferStage) -> bool {
        stage == TransferStage::Balancing || Self::past_balancing(stage)
    }

    /// True from the stage `SigningInputs` on, short of failure.
    pub open spec fn past_balancing(stage: TransferStage) -> bool {
        stage == TransferStage::SigningInputs || Self::past_signing(stage)
    }

    /// True from the stage `Finalizing` on, short of failure.
    pub open spec fn past_signing(stage: TransferStage) -> bool {
        stage == TransferStage::Finalizing || stage == TransferStage::Submitted
    }

    /// Validity: what holds of a transfer at each stage. A failed transfer
    /// carries its reason, and no other does. The selector looks for payment
    /// plus fee. Past the search the funds are found; past the balancing the
    /// transaction holds the cells found as inputs, and its outputs and fee
    /// are those of the balance; past the signing it is sealed, and it is not
    /// sealed before unless the transfer failed at the last stage.
    pub closed spec fn wf(&self) -> bool {
        &&& self.failure is Some <==> self.stage == TransferStage::Failed
        &&& self.selector.valid()
        &&& self.selector@.target == self.request.capacity + self.request.fee
        &&& Self::past_resolving(self.stage) ==> {
            &&& self.identities is Some
            &&& self.identities.unwrap().wf()
            &&& locked_at_head(self.request, self.identities.unwrap())
        }
        &&& Self::past_searching(self.stage) ==> self.selector@.satisfied()
        &&& Self::past_balancing(self.stage) ==> {
            &&& self.balance is Some
            &&& balance_of(
                self.selector@.accumulated(),
                self.request.capacity,
                self.request.fee,
                self.limits,
            ) == Ok::<Balance, TransferError>(self.balance.unwrap())
            &&& inputs_match(
                self.pending.inputs(),
                self.request,
                self.identities.unwrap(),
                self.selector@.collected,
            )
            &&& outputs_match(
                self.pending.outputs(),
                self.request,
                self.identities.unwrap().change_lock.parts(),
                self.balance.unwrap(),
            )
        }
        &&& Self::past_signing(self.stage) ==> self.pending.sealed()
        &&& self.pending.sealed() ==> Self::past_signing(self.stage) || self.stage
            == TransferStage::Failed
    }

    /// Takes a request in, at the first stage.
    pub fn new(request: TransferRequest, limits: TransferLimits, max_mature_number: u64) -> (transfer:
        TransferOrchestrator)
        ensures
            transfer.wf(),
            transfer.stage() == TransferStage::Validating,
            transfer.failure() is None,
            transfer.request() == request,
            transfer.limits() == limits,
            transfer.selector() == FundingModel::fresh(
                (request.capacity + request.fee) as nat,
                max_mature_number,
            ),
            transfer.pending().inputs().len() == 0,
            transfer.pending().outputs().len() == 0,
    {
        let selector = FundingSelector::new(request.capacity, request.fee, max_mature_number);
        TransferOrchestrator {
            stage: TransferStage::Validating,
            failure: None,
            request,
            limits,
            identities: None,
            selector,
            balance: None,
            pending: PendingTransaction::new(),
        }
    }

    fn fail(&mut self, reason: TransferError)
        requires
            old(self).wf(),
        ensures
            final(self).wf(),
            final(self).stage == TransferStage::Failed,
            final(self).failure == Some(reason),
            final(self).request == old(self).request,
            final(self).limits == old(self).limits,
            final(self).identities == old(self).identities,
            final(self).selector == old(self).selector,
            final(self).balance == old(self).balance,
            final(self).pending == old(self).pending,
    {
        self.stage = TransferStage::Failed;
        self.failure = Some(reason);
    }

    /// The stage the transfer is at.
    pub fn current_stage(&self) -> (stage: TransferStage)
        ensures
            stage == self.stage(),
    {
        self.stage
    }

    /// Why the transfer failed, once it has.
    pub fn failure_reason(&self) -> (reason: &Option<TransferError>)
        ensures
            *reason == self.failure(),
    {
        &self.failure
    }

    /// Gives up the transfer for the reason it failed, where it has.
    pub fn take_failure(self) -> (reason: Option<TransferError>)
        ensures
            reason == self.failure(),
    {
        self.failure
    }

    /// The transaction in the making.
    pub fn transaction(&self) -> (tx: &PendingTransaction)
        ensures
            *tx == self.pending(),
    {
        &self.pending
    }

    /// The identities, once they are resolved.
    pub fn resolved_identities(&self) -> (ids: &Option<Identities>)
        ensures
            *ids == self.identities(),
    {
        &self.identities
    }

    /// How the transfer comes out even, once it is balanced.
    pub fn balanced(&self) -> (b: Option<Balance>)
        ensures
            b == self.settled(),
    {
        self.balance
    }

    /// First stage: checks the request. A request with a violation fails the
    /// transfer with that violation; any other goes on to the resolving of
    /// identities. Out of its turn the step changes nothing.
    pub fn validate(&mut self)
        requires
            old(self).wf(),
        ensures
            final(self).wf(),
            old(self).stage() != TransferStage::Validating ==> *final(self) == *old(self),
            old(self).stage() == TransferStage::Validating ==> {
                &&& final(self).request() == old(self).request()
                &&& final(self).limits() == old(self).limits()
                &&& final(self).selector() == old(self).selector()
                &&& final(self).pending() == old(self).pending()
                &&& match request_violation(old(self).request(), old(self).limits()) {
                    Some(e) => final(self).stage() == TransferStage::Failed && final(self).failure()
                        == Some(TransferError::InputValidation(e)),
                    None => final(self).stage() == TransferStage::ResolvingIdentities,
                }
            },
    {
        match self.stage {
            TransferStage::Validating => {},
            _ => {
                return ;
            },
        }
        match self.request.validate(&self.limits) {
            Ok(()) => {
                self.stage = TransferStage::ResolvingIdentities;
            },
            Err(e) => {
                self.fail(TransferError::InputValidation(e));
            },
        }
    }

    /// Second stage: resolves the identities, with the keys derived of the
    /// account where the request names a change address. Out of its turn the
    /// step changes nothing.
    pub fn resolve_identities(&mut self, derived: Option<&DerivedKeySet>)
        requires
            old(self).wf(),
        ensures
            final(self).wf(),
            old(self).stage() != TransferStage::ResolvingIdentities ==> *final(self) == *old(self),
            old(self).stage() == TransferStage::ResolvingIdentities ==> {
                &&& final(self).request() == old(self).request()
                &&& final(self).limits() == old(self).limits()
                &&& final(self).selector() == old(self).selector()
                &&& final(self).pending() == old(self).pending()
                &&& match resolve_failure(old(self).request(), derived_value(derived)) {
                    Some(e) => final(self).stage() == TransferStage::Failed && final(self).failure()
                        == Some(e),
                    None => {
                        &&& final(self).stage() == TransferStage::SearchingFunds
                        &&& final(self).identities() matches Some(ids)
                        &&& resolved(old(self).request(), derived_value(derived), ids)
                    },
                }
            },
    {
        match self.stage {
            TransferStage::ResolvingIdentities => {},
            _ => {
                return ;
            },
        }
        match resolve_identities(&self.request, derived) {
            Ok(ids) => {
                self.identities = Some(ids);
                self.stage = TransferStage::SearchingFunds;
            },
            Err(e) => {
                self.fail(e);
            },
        }
    }

    /// Third stage, cell by cell, for a caller whose index drives the scan:
    /// shows the funding selector one cell and hands back its verdict. Out of
    /// its turn the step changes nothing and answers to stop.
    pub fn offer_cell(&mut self, ordinal: usize, record: &UnspentCellRecord) -> (verdict: Verdict)
        requires
            old(self).wf(),
        ensures
            final(self).wf(),
            old(self).stage() != TransferStage::SearchingFunds ==> *final(self) == *old(self)
                && verdict == (Verdict { stop: true, collect: false }),
            old(self).stage() == TransferStage::SearchingFunds ==> {
                &&& final(self).stage() == TransferStage::SearchingFunds
                &&& final(self).request() == old(self).request()
                &&& final(self).limits() == old(self).limits()
                &&& final(self).identities() == old(self).identities()
                &&& final(self).pending() == old(self).pending()
                &&& (final(self).selector(), verdict) == old(self).selector().offer(*record)
            },
    {
        match self.stage {
            TransferStage::SearchingFunds => {},
            _ => {
                return Verdict { stop: true, collect: false };
            },
        }
        self.selector.visit(ordinal, record)
    }

    /// Third stage, its end: the search is over. The transfer fails where
    /// the cells taken do not cover payment and fee, and goes on to the
    /// balancing where they do. Out of its turn the step changes nothing.
    pub fn close_search(&mut self)
        requires
            old(self).wf(),
        ensures
            final(self).wf(),
            old(self).stage() != TransferStage::SearchingFunds ==> *final(self) == *old(self),
            old(self).stage() == TransferStage::SearchingFunds ==> {
                &&& final(self).request() == old(self).request()
                &&& final(self).limits() == old(self).limits()
                &&& final(self).identities() == old(self).identities()
                &&& final(self).pending() == old(self).pending()
                &&& final(self).selector() == old(self).selector()
                &&& if old(self).selector().satisfied() {
                    final(self).stage() == TransferStage::Balancing
                } else {
                    final(self).stage() == TransferStage::Failed && final(self).failure() == Some(
                        TransferError::InsufficientFunds(old(self).selector().accumulated() as u128),
                    )
                }
            },
    {
        match self.stage {
            TransferStage::SearchingFunds => {},
            _ => {
                return ;
            },
        }
        if self.selector.is_satisfied() {
            self.stage = TransferStage::Balancing;
        } else {
            let found = self.selector.accumulated();
            self.fail(TransferError::InsufficientFunds(found));
        }
    }

    /// Third stage, over an index held in memory: walks the locks of the
    /// search, in order, with the funding selector, and ends the search. The
    /// transfer fails where the cells found do not cover payment and fee. Out
    /// of its turn the step changes nothing.
    pub fn search_funds(&mut self, index: &LiveCellIndex)
        requires
            old(self).wf(),
        ensures
            final(self).wf(),
            old(self).stage() != TransferStage::SearchingFunds ==> *final(self) == *old(self),
            old(self).stage() == TransferStage::SearchingFunds ==> {
                &&& final(self).request() == old(self).request()
                &&& final(self).limits() == old(self).limits()
                &&& final(self).identities() == old(self).identities()
                &&& final(self).pending() == old(self).pending()
                &&& final(self).selector() == old(self).selector().offer_all(
                    offered_by_locks(index@, locks_of(old(self).identities().unwrap().entries@)),
                )
                &&& if final(self).selector().satisfied() {
                    final(self).stage() == TransferStage::Balancing
                } else {
                    final(self).stage() == TransferStage::Failed && final(self).failure() == Some(
                        TransferError::InsufficientFunds(final(self).selector().accumulated() as u128),
                    )
                }
            },
    {
        match self.stage {
            TransferStage::SearchingFunds => {},
            _ => {
                return ;
            },
        }
        let locks = match &self.identities {
            Some(ids) => ids.locks(),
            None => vstd::pervasive::unreached(),
        };
        proof {
            crate::funding::lemma_offer_all_keeps(
                self.selector@,
                offered_by_locks(index@, locks@),
            );
        }
        index.fund(&locks, &mut self.selector);
        self.close_search();
    }

    /// Fourth stage: balances the transfer and assembles the transaction: the
    /// cells found become its inputs, the payment its first output, the change
    /// its second where the rest is enough for a cell; the descriptor of a
    /// locked source is registered with it. The transfer fails where the fee,
    /// alone or with the rest folded in, is above the ceiling. Out of its turn
    /// the step changes nothing.
    pub fn balance(&mut self)
        requires
            old(self).wf(),
        ensures
            final(self).wf(),
            old(self).stage() != TransferStage::Balancing ==> *final(self) == *old(self),
            old(self).stage() == TransferStage::Balancing ==> {
                &&& final(self).request() == old(self).request()
                &&& final(self).limits() == old(self).limits()
                &&& final(self).identities() == old(self).identities()
                &&& final(self).selector() == old(self).selector()
                &&& match balance_of(
                    old(self).selector().accumulated(),
                    old(self).request().capacity,
                    old(self).request().fee,
                    old(self).limits(),
                ) {
                    Err(e) => final(self).stage() == TransferStage::Failed && final(self).failure()
                        == Some(e),
                    Ok(b) => {
                        &&& final(self).stage() == TransferStage::SigningInputs
                        &&& final(self).settled() == Some(b)
                        &&& inputs_match(
                            final(self).pending().inputs(),
                            old(self).request(),
                            old(self).identities().unwrap(),
                            old(self).selector().collected,
                        )
                        &&& outputs_match(
                            final(self).pending().outputs(),
                            old(self).request(),
                            old(self).identities().unwrap().change_lock.parts(),
                            b,
                        )
                        &&& match old(self).identities().unwrap().multisig {
                            Some(d) => final(self).pending().multisig_configs().len() == 1
                                && final(self).pending().multisig_configs()[0].same_as(d),
                            None => final(self).pending().multisig_configs().len() == 0,
                        }
                        &&& final(self).pending().signatures().len() == 0
                        &&& final(self).pending().implied_fee() == b.fee_paid(
                            old(self).request().fee,
                        )
                        &&& final(self).pending().implied_fee() <= old(self).limits().fee_ceiling
                    },
                }
            },
    {
        match self.stage {
            TransferStage::Balancing => {},
            _ => {
                return ;
            },
        }
        let found = self.selector.accumulated();
        let outcome = balance(found, self.request.capacity, self.request.fee, &self.limits);
        let b = match outcome {
            Ok(b) => b,
            Err(e) => {
                self.fail(e);
                return ;
            },
        };
        let time_lock: Option<(LockIdentity, u64)> = match (
            &self.request.locked_source,
            &self.identities,
        ) {
            (Some(locked), Some(ids)) => match LockedSourceDescriptor::decode(
                locked.args.as_slice(),
            ) {
                Ok(d) => Some((ids.entries[0].identity, d.raw_since)),
                Err(_) => vstd::pervasive::unreached(),
            },
            _ => None,
        };
        let mut pending = PendingTransaction::new();
        let cells = self.selector.collected();
        let ghost ids = self.identities.unwrap();
        let mut i: usize = 0;
        while i < cells.len()
            invariant
                i <= cells@.len(),
                !pending.sealed(),
                inputs_match(pending.inputs(), self.request, ids, cells@.take(i as int)),
                match time_lock {
                    Some((identity, raw)) => self.request.locked_source is Some && identity
                        == ids.entries@[0].identity && raw == le_u64(
                        self.request.locked_source.unwrap().args@.subrange(20, 28),
                    ),
                    None => self.request.locked_source is None,
                },
                pending.outputs().len() == 0,
                pending.multisig_configs().len() == 0,
                pending.signatures().len() == 0,
            decreases cells@.len() - i,
        {
            let cell = cells[i];
            let since: u64 = match time_lock {
                Some((identity, raw)) => if cell.lock_hash == identity {
                    raw
                } else {
                    0
                },
                None => 0,
            };
            pending.add_input(TransactionInput { cell, since });
            proof {
                assert(cells@.take(i + 1) =~= cells@.take(i as int).push(cells@[i as int]));
            }
            i += 1;
        }
        proof {
            assert(cells@.take(i as int) =~= cells@);
        }
        let payment = TransactionOutput {
            capacity: self.request.capacity,
            lock: self.request.destination.clone_script(),
            data: copy_bytes(&self.request.data),
        };
        pending.add_output(payment);
        match &self.identities {
            Some(ids) => {
                match b.change {
                    Some(capacity) => {
                        let change = TransactionOutput {
                            capacity,
                            lock: ids.change_lock.clone_script(),
                            data: Vec::new(),
                        };
                        pending.add_output(change);
                    },
                    None => {},
                }
                match &ids.multisig {
                    Some(d) => {
                        pending.add_multisig_config(d.copy());
                    },
                    None => {},
                }
            },
            None => {},
        }
        self.pending = pending;
        self.balance = Some(b);
        self.stage = TransferStage::SigningInputs;
        proof {
            self.lemma_fee_within_ceiling();
        }
    }

    /// True when one of the inputs is a cell of this lock.
    fn has_input(&self, identity: &LockIdentity) -> (owned: bool)
        ensures
            owned == owns_input(*identity, self.pending.inputs()),
    {
        let inputs = self.pending.get_inputs();
        let mut i: usize = 0;
        while i < inputs.len()
            invariant
                i <= inputs@.len(),
                inputs@ == self.pending.inputs(),
                forall|j: int| 0 <= j < i ==> inputs@[j].cell.lock_hash != *identity,
            decreases inputs@.len() - i,
        {
            if inputs[i].cell.lock_hash == *identity {
                return true;
            }
            i += 1;
        }
        false
    }

    /// The locks that must be signed for: the search entries whose lock owns
    /// at least one input, in the order of the search, each with the key
    /// hashes of which any one signs for it. Empty before the identities are
    /// resolved.
    pub fn signing_groups(&self) -> (groups: Vec<SearchEntry>)
        ensures
            match self.identities() {
                Some(ids) => same_groups(
                    groups@,
                    signing_groups_of(ids.entries@, self.pending().inputs()),
                ),
                None => groups@.len() == 0,
            },
    {
        let mut groups: Vec<SearchEntry> = Vec::new();
        match &self.identities {
            None => {},
            Some(ids) => {
                let ghost inputs = self.pending.inputs();
                let mut i: usize = 0;
                proof {
                    reveal(Seq::filter);
                    assert(ids.entries@.take(0) =~= Seq::empty());
                }
                while i < ids.entries.len()
                    invariant
                        i <= ids.entries@.len(),
                        inputs == self.pending.inputs(),
                        same_groups(groups@, signing_groups_of(ids.entries@.take(i as int), inputs)),
                    decreases ids.entries@.len() - i,
                {
                    let entry = &ids.entries[i];
                    proof {
                        reveal(Seq::filter);
                        assert(ids.entries@.take(i + 1).drop_last() =~= ids.entries@.take(i as int));
                    }
                    if self.has_input(&entry.identity) {
                        groups.push(
                            SearchEntry {
                                lock: entry.lock.clone_script(),
                                identity: entry.identity,
                                candidates: copy_hashes(&entry.candidates),
                            },
                        );
                    }
                    i += 1;
                }
                proof {
                    assert(ids.entries@.take(i as int) =~= ids.entries@);
                }
            },
        }
        groups
    }

    /// Fifth stage: takes the signatures, one for each signing group and in
    /// their order, `None` where the signer had none to give. Where every
    /// group is signed for, the signatures join the transaction, which is
    /// sealed. The transfer fails where a group has no signature: no key of
    /// the account signs for that lock. Out of its turn the step changes
    /// nothing.
    pub fn sign_inputs(&mut self, signatures: Vec<Option<Signature>>)
        requires
            old(self).wf(),
        ensures
            final(self).wf(),
            old(self).stage() != TransferStage::SigningInputs ==> *final(self) == *old(self),
            old(self).stage() == TransferStage::SigningInputs ==> {
                let groups = signing_groups_of(
                    old(self).identities().unwrap().entries@,
                    old(self).pending().inputs(),
                );
                &&& final(self).request() == old(self).request()
                &&& final(self).limits() == old(self).limits()
                &&& final(self).identities() == old(self).identities()
                &&& final(self).selector() == old(self).selector()
                &&& final(self).settled() == old(self).settled()
                &&& final(self).pending().inputs() == old(self).pending().inputs()
                &&& final(self).pending().outputs() == old(self).pending().outputs()
                &&& final(self).pending().multisig_configs() == old(self).pending().multisig_configs()
                &&& if all_signed(groups, signatures@) {
                    &&& final(self).stage() == TransferStage::Finalizing
                    &&& final(self).pending().signatures() == old(self).pending().signatures()
                        + signed_groups(groups, signatures@)
                } else {
                    &&& final(self).stage() == TransferStage::Failed
                    &&& final(self).failure() == Some(
                        TransferError::ConfigurationMismatch(Mismatch::NoSignature),
                    )
                    &&& final(self).pending() == old(self).pending()
                }
            },
    {
        match self.stage {
            TransferStage::SigningInputs => {},
            _ => {
                return ;
            },
        }
        let groups = self.signing_groups();
        let ghost wanted = signing_groups_of(
            self.identities.unwrap().entries@,
            self.pending.inputs(),
        );
        if signatures.len() != groups.len() || !every_signed(&signatures) {
            self.fail(TransferError::ConfigurationMismatch(Mismatch::NoSignature));
            return ;
        }
        let ghost before = self.pending.signatures();
        let mut i: usize = 0;
        while i < groups.len()
            invariant
                i <= groups@.len(),
                same_groups(groups@, wanted),
                all_signed(wanted, signatures@),
                !self.pending.sealed(),
                self.pending.inputs() == old(self).pending.inputs(),
                self.pending.outputs() == old(self).pending.outputs(),
                self.pending.multisig_configs() == old(self).pending.multisig_configs(),
                self.pending.signatures() == before + signed_groups(wanted, signatures@).take(
                    i as int,
                ),
                self.stage == old(self).stage,
                self.failure == old(self).failure,
                self.request == old(self).request,
                self.limits == old(self).limits,
                self.identities == old(self).identities,
                self.selector == old(self).selector,
                self.balance == old(self).balance,
            decreases groups@.len() - i,
        {
            let signature = match signatures[i] {
                Some(s) => s,
                None => vstd::pervasive::unreached(),
            };
            self.pending.add_signature(groups[i].identity, signature);
            proof {
                let all = signed_groups(wanted, signatures@);
                assert(all.take(i + 1) =~= all.take(i as int).push(all[i as int]));
                assert(before + all.take(i + 1) =~= (before + all.take(i as int)).push(
                    all[i as int],
                ));
            }
            i += 1;
        }
        proof {
            let all = signed_groups(wanted, signatures@);
            assert(all.take(i as int) =~= all);
        }
        self.pending.seal();
        self.stage = TransferStage::Finalizing;
    }

    /// Last stage: holds the hash computed of the signed transaction against
    /// what the node answered to the broadcast. A broadcast that failed fails
    /// the transfer with the node's message; a hash that differs from the
    /// one computed fails it as inconsistent; the same hash ends the
    /// transfer as submitted. Out of its turn the step changes nothing.
    pub fn finalize(&mut self, computed: Hash256, broadcast: Result<Hash256, String>)
        requires
            old(self).wf(),
        ensures
            final(self).wf(),
            old(self).stage() != TransferStage::Finalizing ==> *final(self) == *old(self),
            old(self).stage() == TransferStage::Finalizing ==> {
                &&& final(self).request() == old(self).request()
                &&& final(self).pending() == old(self).pending()
                &&& match broadcast {
                    Err(message) => final(self).stage() == TransferStage::Failed && final(self).failure() == Some(TransferError::TransportFailure(message)),
                    Ok(reported) => if reported == computed {
                        final(self).stage() == TransferStage::Submitted && final(self).failure()
                            is None
                    } else {
                        final(self).stage() == TransferStage::Failed && final(self).failure()
                            == Some(TransferError::ConsistencyFailure)
                    },
                }
            },
    {
        match self.stage {
            TransferStage::Finalizing => {},
            _ => {
                return ;
            },
        }
        match broadcast {
            Err(message) => {
                self.fail(TransferError::TransportFailure(message));
            },
            Ok(reported) => {
                if reported == computed {
                    self.stage = TransferStage::Submitted;
                } else {
                    self.fail(TransferError::ConsistencyFailure);
                }
            },
        }
    }

    /// A balanced transfer adds up. From the signing stage on, what the
    /// inputs hold beyond the outputs is the fee asked for, with the rest
    /// where it got no cell of its own, and that is no more than the ceiling.
    pub proof fn lemma_fee_within_ceiling(&self)
        requires
            self.wf(),
            Self::past_balancing(self.stage()),
        ensures
            self.settled() is Some,
            self.pending().implied_fee() == self.settled().unwrap().fee_paid(self.request().fee),
            self.pending().implied_fee() <= self.limits().fee_ceiling,
    {
        let outputs = self.pending.outputs();
        crate::balance::lemma_balance_adds_up(
            self.selector@.accumulated(),
            self.request.capacity,
            self.request.fee,
            self.limits,
        );
        assert(input_cells(self.pending.inputs()) =~= self.selector@.collected);
        reveal_with_fuel(crate::pending::output_capacity, 3);
        if outputs.len() == 2 {
            assert(outputs.drop_last().drop_last().len() == 0);
            assert(outputs.drop_last().last() == outputs[0]);
        } else {
            assert(outputs.drop_last().len() == 0);
        }
    }
}

/// True when no signature is missing.
fn every_signed(signatures: &Vec<Option<Signature>>) -> (complete: bool)
    ensures
        complete == forall|i: int| 0 <= i < signatures@.len() ==> (#[trigger] signatures@[i]) is Some,
{
    let mut k: usize = 0;
    while k < signatures.len()
        invariant
            k <= signatures@.len(),
            forall|j: int| 0 <= j < k ==> (#[trigger] signatures@[j]) is Some,
        decreases signatures@.len() - k,
    {
        if signatures[k].is_none() {
            return false;
        }
        k += 1;
    }
    true
}

/// Copies key hashes into a fresh vector.
fn copy_hashes(data: &Vec<Hash160>) -> (out: Vec<Hash160>)
    ensures
        out@ == data@,
{
    let mut out: Vec<Hash160> = Vec::new();
    let mut i: usize = 0;
    while i < data.len()
        invariant
            i <= data@.len(),
            out@ == data@.take(i as int),
        decreases data@.len() - i,
    {
        out.push(data[i]);
        proof {
            assert(data@.take(i + 1) =~= data@.take(i as int).push(data@[i as int]));
        }
        i += 1;
    }
    proof {
        assert(data@.take(i as int) =~= data@);
    }
    out
}

/// Copies bytes into a fresh vector.
fn copy_bytes(data: &Vec<u8>) -> (out: Vec<u8>)
    ensures
        out@ == data@,
{
    let mut out: Vec<u8> = Vec::new();
    let mut i: usize = 0;
    while i < data.len()
        invariant
            i <= data@.len(),
            out@ == data@.take(i as int),
        decreases data@.len() - i,
    {
        out.push(data[i]);
        proof {
            assert(data@.take(i + 1) =~= data@.take(i as int).push(data@[i as int]));
        }
        i += 1;
    }
    proof {
        assert(data@.take(i as int) =~= data@);
    }
    out
}

} // verus!
