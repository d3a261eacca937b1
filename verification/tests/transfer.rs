use cell_wallet::balance::{
    balance, check_capacity, Balance, TransferLimits, MIN_SECP_CELL_CAPACITY, ONE_CKB,
};
use cell_wallet::cell::{OutPoint, UnspentCellRecord};
use cell_wallet::derive::{DerivationPath, DerivedKey, DerivedKeySet, KeyChain};
use cell_wallet::error::{FeeViolation, Mismatch, TransferError, ValidationError};
use cell_wallet::hash::{Hash160, Hash256};
use cell_wallet::identity::resolve_identities;
use cell_wallet::index::LiveCellIndex;
use cell_wallet::key::SecretKey;
use cell_wallet::locked::{LockedSourceDescriptor, LockedSourceError, LockedSourceValidator};
use cell_wallet::multisig::{MultisigDescriptor, MultisigScript};
use cell_wallet::identity::SearchEntry;
use cell_wallet::pending::{
    LockSignature, PendingTransaction, TransactionInput, TransactionOutput,
};
use cell_wallet::request::TransferRequest;
use cell_wallet::script::{LockScript, HASH_TYPE_TYPE, MULTISIG_TYPE_HASH};
use cell_wallet::signer::{Signature, SigningPlan, SigningRequest};
use cell_wallet::transfer::{TransferOrchestrator, TransferStage};
use ckb_types::prelude::Entity;

fn key(n: u8) -> Hash160 {
    Hash160::new([n; 20])
}

fn owned_by(owner: &LockScript, id: u8, capacity: u64, number: u64) -> UnspentCellRecord {
    UnspentCellRecord {
        out_point: OutPoint { tx_hash: Hash256::new([id; 32]), index: 0 },
        lock_hash: owner.identity(),
        capacity,
        data_bytes: 0,
        type_hashes: None,
        number,
        tx_index: 1,
    }
}

fn small_limits() -> TransferLimits {
    TransferLimits { min_cell_capacity: 100, fee_ceiling: 50, capacity_per_byte: 1 }
}

fn request(capacity: u64, fee: u64) -> TransferRequest {
    TransferRequest {
        raw_key: None,
        account: Some(key(1)),
        locked_source: None,
        destination: LockScript::sighash(&key(200)),
        capacity,
        fee,
        data: vec![],
        receiving_length: 0,
        change_address: None,
    }
}

fn funded_index() -> LiveCellIndex {
    let owner = LockScript::sighash(&key(1));
    let mut index = LiveCellIndex::new();
    index.insert(owned_by(&owner, 1, 600, 1));
    index.insert(owned_by(&owner, 2, 500, 2));
    index.insert(owned_by(&owner, 3, 10000, 3));
    index
}

fn through_balancing(
    request: TransferRequest,
    limits: TransferLimits,
    index: &LiveCellIndex,
) -> TransferOrchestrator {
    let mut transfer = TransferOrchestrator::new(request, limits, 100);
    assert_eq!(transfer.current_stage(), TransferStage::Validating);
    transfer.validate();
    transfer.resolve_identities(None);
    transfer.search_funds(index);
    transfer.balance();
    transfer
}

#[test]
fn standard_limits() {
    let limits = TransferLimits::standard();
    assert_eq!(ONE_CKB, 100_000_000);
    assert_eq!(MIN_SECP_CELL_CAPACITY, 6_100_000_000);
    assert_eq!(limits.min_cell_capacity, ckb_sdk::constants::MIN_SECP_CELL_CAPACITY);
    assert_eq!(limits.fee_ceiling, ckb_sdk::constants::ONE_CKB);
    assert_eq!(limits.capacity_per_byte, ckb_sdk::constants::ONE_CKB);
}

#[test]
fn capacity_must_hold_the_cell_and_its_data() {
    let limits = TransferLimits::standard();
    assert_eq!(check_capacity(61 * ONE_CKB, 0, &limits), Ok(()));
    assert_eq!(
        check_capacity(61 * ONE_CKB - 1, 0, &limits),
        Err(ValidationError::CapacityBelowMinimum)
    );
    assert_eq!(check_capacity(0, 5, &limits), Err(ValidationError::CapacityBelowMinimum));
    assert_eq!(check_capacity(71 * ONE_CKB, 10, &limits), Ok(()));
    assert_eq!(
        check_capacity(71 * ONE_CKB - 1, 10, &limits),
        Err(ValidationError::CapacityCannotHoldData)
    );
    assert_eq!(
        check_capacity(u64::MAX, usize::MAX, &limits),
        Err(ValidationError::CapacityCannotHoldData)
    );
    let free_data = TransferLimits { min_cell_capacity: 10, fee_ceiling: 1, capacity_per_byte: 0 };
    assert_eq!(check_capacity(10, usize::MAX, &free_data), Ok(()));
}

#[test]
fn balance_formula() {
    let limits = small_limits();
    assert_eq!(balance(1100, 1000, 10, &limits), Err(TransferError::FeeExceedsCeiling(FeeViolation::FeeWithChange)));
    assert_eq!(balance(1050, 1000, 10, &limits), Ok(Balance { rest: 40, change: None }));
    assert_eq!(balance(1010, 1000, 10, &limits), Ok(Balance { rest: 0, change: None }));
    assert_eq!(balance(1110, 1000, 10, &limits), Ok(Balance { rest: 100, change: Some(100) }));
    assert_eq!(balance(1109, 1000, 10, &limits), Err(TransferError::FeeExceedsCeiling(FeeViolation::FeeWithChange)));
    assert_eq!(balance(600, 100, 10, &limits), Ok(Balance { rest: 490, change: Some(490) }));
    assert_eq!(balance(1009, 1000, 10, &limits), Err(TransferError::InsufficientFunds(1009)));
    assert_eq!(balance(0, 0, 1, &limits), Err(TransferError::InsufficientFunds(0)));
    assert_eq!(balance(5000, 1000, 51, &limits), Err(TransferError::FeeExceedsCeiling(FeeViolation::Fee)));
    assert_eq!(balance(5000, 1000, 50, &limits), Ok(Balance { rest: 3950, change: Some(3950) }));
    assert_eq!(balance(100, 1000, 51, &limits), Err(TransferError::InsufficientFunds(100)));
    assert_eq!(
        balance(u64::MAX as u128 + 1000 + 10 + 1, 1000, 10, &limits),
        Err(TransferError::CapacityOverflow)
    );
    assert_eq!(
        balance(u64::MAX as u128 + 1000 + 10, 1000, 10, &limits),
        Ok(Balance { rest: u64::MAX, change: Some(u64::MAX) })
    );
    let folded = TransferLimits { min_cell_capacity: 100, fee_ceiling: 100, capacity_per_byte: 1 };
    assert_eq!(balance(1100, 1000, 10, &folded), Ok(Balance { rest: 90, change: None }));
    let low_floor = TransferLimits { min_cell_capacity: 90, fee_ceiling: 50, capacity_per_byte: 1 };
    assert_eq!(balance(1100, 1000, 10, &low_floor), Ok(Balance { rest: 90, change: Some(90) }));
}

#[test]
fn end_to_end_change_below_floor_is_rejected() {
    let index = funded_index();
    let transfer = through_balancing(request(1000, 10), small_limits(), &index);
    assert_eq!(transfer.current_stage(), TransferStage::Failed);
    assert_eq!(
        transfer.failure_reason(),
        &Some(TransferError::FeeExceedsCeiling(FeeViolation::FeeWithChange))
    );
    assert!(transfer.transaction().get_inputs().is_empty());
    assert!(transfer.transaction().get_outputs().is_empty());
}

#[test]
fn end_to_end_change_below_floor_but_floor_low_enough() {
    let index = funded_index();
    let limits = TransferLimits { min_cell_capacity: 90, fee_ceiling: 50, capacity_per_byte: 1 };
    let transfer = through_balancing(request(1000, 10), limits, &index);
    assert_eq!(transfer.current_stage(), TransferStage::SigningInputs);
    let capacities: Vec<u64> =
        transfer.transaction().get_inputs().iter().map(|r| r.cell.capacity).collect();
    assert_eq!(capacities, vec![600, 500]);
    let outputs: Vec<u64> =
        transfer.transaction().get_outputs().iter().map(|o| o.capacity).collect();
    assert_eq!(outputs, vec![1000, 90]);
    assert_eq!(transfer.balanced(), Some(Balance { rest: 90, change: Some(90) }));
}

#[test]
fn end_to_end_small_payment_gets_change_output() {
    let index = funded_index();
    let transfer = through_balancing(request(100, 10), small_limits(), &index);
    assert_eq!(transfer.current_stage(), TransferStage::SigningInputs);
    assert_eq!(transfer.failure_reason(), &None);
    let capacities: Vec<u64> =
        transfer.transaction().get_inputs().iter().map(|r| r.cell.capacity).collect();
    assert_eq!(capacities, vec![600]);
    assert_eq!(
        transfer.transaction().get_outputs(),
        &vec![
            TransactionOutput {
                capacity: 100,
                lock: LockScript::sighash(&key(200)),
                data: vec![]
            },
            TransactionOutput { capacity: 490, lock: LockScript::sighash(&key(1)), data: vec![] },
        ]
    );
    assert_eq!(transfer.balanced(), Some(Balance { rest: 490, change: Some(490) }));
    assert!(transfer.transaction().get_multisig_configs().is_empty());
    assert!(!transfer.transaction().is_sealed());
}

#[test]
fn in_chain_units_small_rest_goes_to_the_fee() {
    let owner = LockScript::sighash(&key(1));
    let mut index = LiveCellIndex::new();
    index.insert(owned_by(&owner, 1, 600 * ONE_CKB, 1));
    index.insert(owned_by(&owner, 2, 500 * ONE_CKB + 90, 2));
    index.insert(owned_by(&owner, 3, 10000 * ONE_CKB, 3));
    let transfer =
        through_balancing(request(1100 * ONE_CKB, 10), TransferLimits::standard(), &index);
    assert_eq!(transfer.current_stage(), TransferStage::SigningInputs);
    assert_eq!(transfer.balanced(), Some(Balance { rest: 80, change: None }));
    assert_eq!(transfer.transaction().get_outputs().len(), 1);
    assert_eq!(transfer.transaction().get_inputs().len(), 2);
    let too_dear =
        through_balancing(request(1000 * ONE_CKB, 10 * ONE_CKB), TransferLimits::standard(), &index);
    assert_eq!(
        too_dear.failure_reason(),
        &Some(TransferError::FeeExceedsCeiling(FeeViolation::Fee))
    );
}

#[test]
fn insufficient_funds_fail_the_search() {
    let index = funded_index();
    let transfer = through_balancing(request(11100, 1), small_limits(), &index);
    assert_eq!(transfer.current_stage(), TransferStage::Failed);
    assert_eq!(transfer.failure_reason(), &Some(TransferError::InsufficientFunds(11100)));
    let empty = LiveCellIndex::new();
    let transfer = through_balancing(request(100, 1), small_limits(), &empty);
    assert_eq!(transfer.failure_reason(), &Some(TransferError::InsufficientFunds(0)));
    let dear_and_poor = through_balancing(request(20000, 51), small_limits(), &index);
    assert_eq!(dear_and_poor.failure_reason(), &Some(TransferError::InsufficientFunds(11100)));
}

#[test]
fn request_violations_in_order() {
    let limits = small_limits();
    let mut none = request(1000, 10);
    none.account = None;
    assert_eq!(none.validate(&limits), Err(ValidationError::NoFundingSource));
    let mut both = request(1000, 10);
    both.raw_key = Some(SecretKey::new([1; 32]));
    assert_eq!(both.validate(&limits), Err(ValidationError::TwoFundingSources));
    let mut raw_with_change = request(1000, 10);
    raw_with_change.account = None;
    raw_with_change.raw_key = Some(SecretKey::new([1; 32]));
    raw_with_change.change_address = Some(LockScript::sighash(&key(5)));
    assert_eq!(raw_with_change.validate(&limits), Err(ValidationError::ChangeAddressWithRawKey));
    let mut bad_change = request(1000, 10);
    bad_change.change_address = Some(LockScript {
        code_hash: Hash256::new(MULTISIG_TYPE_HASH),
        hash_type: HASH_TYPE_TYPE,
        args: vec![1; 28],
    });
    assert_eq!(bad_change.validate(&limits), Err(ValidationError::ChangeAddress));
    let mut bad_locked = request(1000, 10);
    bad_locked.locked_source = Some(LockScript {
        code_hash: Hash256::new(MULTISIG_TYPE_HASH),
        hash_type: HASH_TYPE_TYPE,
        args: vec![0; 20],
    });
    assert_eq!(
        bad_locked.validate(&limits),
        Err(ValidationError::LockedSource(LockedSourceError::InvalidLength(20)))
    );
    let mut relative = bad_locked.clone();
    relative.locked_source.as_mut().unwrap().args = {
        let mut args = vec![0u8; 28];
        args[27] = 0xa0;
        args
    };
    assert_eq!(
        relative.validate(&limits),
        Err(ValidationError::LockedSource(LockedSourceError::NotAbsolute))
    );
    let mut bad_destination = request(1000, 10);
    bad_destination.destination.args = vec![1; 21];
    assert_eq!(bad_destination.validate(&limits), Err(ValidationError::Destination));
    assert_eq!(request(99, 10).validate(&limits), Err(ValidationError::CapacityBelowMinimum));
    let mut with_data = request(104, 10);
    with_data.data = vec![0; 5];
    assert_eq!(with_data.validate(&limits), Err(ValidationError::CapacityCannotHoldData));
    with_data.capacity = 105;
    assert_eq!(with_data.validate(&limits), Ok(()));
    assert_eq!(request(100, 10).validate(&limits), Ok(()));
    let mut first_wins = request(1, 10);
    first_wins.account = None;
    first_wins.destination.args = vec![];
    assert_eq!(first_wins.validate(&limits), Err(ValidationError::NoFundingSource));
}

#[test]
fn invalid_request_fails_at_the_first_stage() {
    let index = funded_index();
    let transfer = through_balancing(request(99, 10), small_limits(), &index);
    assert_eq!(transfer.current_stage(), TransferStage::Failed);
    assert_eq!(
        transfer.failure_reason(),
        &Some(TransferError::InputValidation(ValidationError::CapacityBelowMinimum))
    );
    assert!(transfer.resolved_identities().is_none());
}

#[test]
fn stages_advance_in_order_and_not_out_of_turn() {
    let index = funded_index();
    let mut transfer = TransferOrchestrator::new(request(100, 10), small_limits(), 100);
    transfer.balance();
    transfer.search_funds(&index);
    transfer.resolve_identities(None);
    transfer.sign_inputs(vec![]);
    transfer.finalize(Hash256::zero(), Ok(Hash256::zero()));
    assert_eq!(transfer.current_stage(), TransferStage::Validating);
    transfer.validate();
    assert_eq!(transfer.current_stage(), TransferStage::ResolvingIdentities);
    transfer.validate();
    transfer.search_funds(&index);
    assert_eq!(transfer.current_stage(), TransferStage::ResolvingIdentities);
    transfer.resolve_identities(None);
    assert_eq!(transfer.current_stage(), TransferStage::SearchingFunds);
    transfer.search_funds(&index);
    assert_eq!(transfer.current_stage(), TransferStage::Balancing);
    transfer.balance();
    assert_eq!(transfer.current_stage(), TransferStage::SigningInputs);
    transfer.balance();
    assert_eq!(transfer.transaction().get_inputs().len(), 1);
    let groups = transfer.signing_groups();
    assert_eq!(groups.len(), 1);
    assert_eq!(groups[0].identity, LockScript::sighash(&key(1)).identity());
    assert_eq!(groups[0].candidates, vec![key(1)]);
    transfer.sign_inputs(vec![Some(Signature { bytes: [3; 65] })]);
    assert_eq!(transfer.current_stage(), TransferStage::Finalizing);
    assert!(transfer.transaction().is_sealed());
    assert_eq!(
        transfer.transaction().get_signatures(),
        &vec![LockSignature {
            identity: LockScript::sighash(&key(1)).identity(),
            signature: Signature { bytes: [3; 65] }
        }]
    );
    let hash = Hash256::new([8; 32]);
    transfer.finalize(hash, Ok(hash));
    assert_eq!(transfer.current_stage(), TransferStage::Submitted);
    assert_eq!(transfer.failure_reason(), &None);
    transfer.finalize(hash, Ok(Hash256::zero()));
    assert_eq!(transfer.current_stage(), TransferStage::Submitted);
}

fn groups_of(transfer: &TransferOrchestrator) -> Vec<SearchEntry> {
    transfer.signing_groups()
}

fn at_signing() -> TransferOrchestrator {
    through_balancing(request(100, 10), small_limits(), &funded_index())
}

#[test]
fn missing_signature_is_a_mismatch() {
    let mut transfer = at_signing();
    transfer.sign_inputs(vec![None]);
    assert_eq!(transfer.current_stage(), TransferStage::Failed);
    assert_eq!(
        transfer.failure_reason(),
        &Some(TransferError::ConfigurationMismatch(Mismatch::NoSignature))
    );
    assert!(!transfer.transaction().is_sealed());
    assert!(transfer.transaction().get_signatures().is_empty());
    let mut too_few = at_signing();
    too_few.sign_inputs(vec![]);
    assert_eq!(
        too_few.failure_reason(),
        &Some(TransferError::ConfigurationMismatch(Mismatch::NoSignature))
    );
    let mut too_many = at_signing();
    too_many.sign_inputs(vec![Some(Signature { bytes: [1; 65] }), Some(Signature { bytes: [2; 65] })]);
    assert_eq!(too_many.current_stage(), TransferStage::Failed);
}

#[test]
fn broadcast_failures() {
    let hash = Hash256::new([8; 32]);
    let mut refused = at_signing();
    refused.sign_inputs(vec![Some(Signature { bytes: [3; 65] })]);
    refused.finalize(hash, Err(String::from("pool is full")));
    assert_eq!(refused.current_stage(), TransferStage::Failed);
    assert_eq!(
        refused.failure_reason(),
        &Some(TransferError::TransportFailure(String::from("pool is full")))
    );
    assert_eq!(
        refused.take_failure(),
        Some(TransferError::TransportFailure(String::from("pool is full")))
    );
    let mut inconsistent = at_signing();
    inconsistent.sign_inputs(vec![Some(Signature { bytes: [3; 65] })]);
    inconsistent.finalize(hash, Ok(Hash256::new([9; 32])));
    assert_eq!(inconsistent.current_stage(), TransferStage::Failed);
    assert_eq!(inconsistent.failure_reason(), &Some(TransferError::ConsistencyFailure));
}

fn derived_set() -> DerivedKeySet {
    DerivedKeySet {
        external: vec![
            DerivedKey { path: DerivationPath { chain: KeyChain::External, index: 0 }, hash: key(10) },
            DerivedKey { path: DerivationPath { chain: KeyChain::External, index: 1 }, hash: key(11) },
        ],
        change: vec![
            DerivedKey { path: DerivationPath { chain: KeyChain::Change, index: 0 }, hash: key(20) },
            DerivedKey { path: DerivationPath { chain: KeyChain::Change, index: 1 }, hash: key(21) },
        ],
    }
}

#[test]
fn identities_of_an_account_with_derived_keys() {
    let mut asked = request(100, 10);
    asked.change_address = Some(LockScript::sighash(&key(21)));
    let set = derived_set();
    let ids = resolve_identities(&asked, Some(&set)).unwrap();
    assert_eq!(ids.primary, key(1));
    let expected: Vec<Hash256> = [1u8, 10, 11, 20, 21]
        .iter()
        .map(|n| LockScript::sighash(&key(*n)).identity())
        .collect();
    assert_eq!(ids.locks(), expected);
    for (entry, n) in ids.entries.iter().zip([1u8, 10, 11, 20, 21]) {
        assert_eq!(entry.candidates, vec![key(n)]);
    }
    assert_eq!(ids.change_lock, LockScript::sighash(&key(21)));
    assert_eq!(ids.registry.len(), 4);
    assert_eq!(
        ids.registry.get(&key(20)),
        Some(DerivationPath { chain: KeyChain::Change, index: 0 })
    );
    assert_eq!(ids.registry.get(&key(1)), None);
    assert!(ids.multisig.is_none());
}

#[test]
fn derived_keys_must_end_at_the_change_address() {
    let mut asked = request(100, 10);
    asked.change_address = Some(LockScript::sighash(&key(20)));
    let set = derived_set();
    assert_eq!(
        resolve_identities(&asked, Some(&set)).err(),
        Some(TransferError::ConfigurationMismatch(Mismatch::ChangeAddressNotFound))
    );
    assert_eq!(
        resolve_identities(&asked, None).err(),
        Some(TransferError::ConfigurationMismatch(Mismatch::ChangeAddressNotFound))
    );
    let empty = DerivedKeySet { external: vec![], change: vec![] };
    assert_eq!(
        resolve_identities(&asked, Some(&empty)).err(),
        Some(TransferError::ConfigurationMismatch(Mismatch::ChangeAddressNotFound))
    );
}

#[test]
fn derived_keys_are_left_out_without_a_change_address() {
    let set = derived_set();
    let ids = resolve_identities(&request(100, 10), Some(&set)).unwrap();
    assert_eq!(ids.locks(), vec![LockScript::sighash(&key(1)).identity()]);
    assert_eq!(ids.registry.len(), 0);
    assert_eq!(ids.change_lock, LockScript::sighash(&key(1)));
}

#[test]
fn raw_key_funds_under_its_key_hash() {
    let mut text = [0u8; 32];
    let hex = "d00c06bfd800d27397002dca6fb0993d5ba6399b4238b2f29ee9deb97593d2bc";
    for i in 0..32 {
        text[i] = u8::from_str_radix(&hex[2 * i..2 * i + 2], 16).unwrap();
    }
    let mut asked = request(100, 10);
    asked.account = None;
    asked.raw_key = Some(SecretKey::new(text));
    let ids = resolve_identities(&asked, None).unwrap();
    let mut expected = [0u8; 20];
    let hex = "c8328aabcd9b9e8e64fbc566c4385c3bdeb219d7";
    for i in 0..20 {
        expected[i] = u8::from_str_radix(&hex[2 * i..2 * i + 2], 16).unwrap();
    }
    assert_eq!(ids.primary, Hash160::new(expected));
    assert_eq!(ids.locks(), vec![LockScript::sighash(&Hash160::new(expected)).identity()]);
    asked.raw_key = Some(SecretKey::new([0; 32]));
    assert_eq!(
        resolve_identities(&asked, None).err(),
        Some(TransferError::InputValidation(ValidationError::InvalidSecretKey))
    );
    asked.raw_key = None;
    assert_eq!(
        resolve_identities(&asked, None).err(),
        Some(TransferError::InputValidation(ValidationError::NoFundingSource))
    );
}

fn locked_lock(guard: Hash160, epoch: u64) -> LockScript {
    let descriptor = MultisigDescriptor::single(MultisigScript::Legacy, guard);
    let mut args = descriptor.hash160().to_vec();
    args.extend_from_slice(&(0x2000_0000_0000_0000u64 | epoch).to_le_bytes());
    LockScript { code_hash: Hash256::new(MULTISIG_TYPE_HASH), hash_type: HASH_TYPE_TYPE, args }
}

#[test]
fn locked_source_matches_the_chain_library_address() {
    let reference = ckb_sdk::unlock::MultisigConfig::new_with(
        ckb_sdk::constants::MultisigScript::Legacy,
        vec![ckb_types::H160([1; 20])],
        0,
        1,
    )
    .unwrap()
    .to_address_payload(ckb_sdk::constants::MultisigScript::Legacy, Some(7));
    let epoch = ckb_sdk::Since::new_absolute_epoch(7).value() & 0x00ff_ffff_ffff_ffff;
    let ours = locked_lock(key(1), epoch);
    assert_eq!(ours.args, reference.args().to_vec());
    assert_eq!(&ours.code_hash.bytes[..], reference.code_hash(None).as_slice());
    assert!(ours.is_payable());
}

#[test]
fn locked_source_is_searched_first_and_bound_to_its_key() {
    let mut asked = request(100, 10);
    let locked = locked_lock(key(1), 3);
    asked.locked_source = Some(locked.clone());
    let ids = resolve_identities(&asked, None).unwrap();
    assert_eq!(ids.locks(), vec![locked.identity(), LockScript::sighash(&key(1)).identity()]);
    assert_eq!(ids.entries[0].candidates, vec![key(1)]);
    let bound = ids.multisig.unwrap();
    assert_eq!(bound.sighash_addresses(), &vec![key(1)]);
    assert_eq!(bound.hash160().to_vec(), locked.args[..20].to_vec());
    assert_eq!(bound.get_threshold(), 1);
    assert_eq!(bound.get_require_first_n(), 0);
}

#[test]
fn locked_source_bound_to_a_derived_key() {
    let mut asked = request(100, 10);
    asked.change_address = Some(LockScript::sighash(&key(21)));
    let locked = locked_lock(key(20), 3);
    asked.locked_source = Some(locked.clone());
    let set = derived_set();
    let ids = resolve_identities(&asked, Some(&set)).unwrap();
    assert_eq!(ids.locks().len(), 6);
    assert_eq!(ids.locks()[0], locked.identity());
    assert_eq!(ids.locks()[1], LockScript::sighash(&key(1)).identity());
    assert_eq!(ids.entries[0].candidates, vec![key(20)]);
    assert_eq!(ids.multisig.unwrap().sighash_addresses(), &vec![key(20)]);
}

#[test]
fn locked_source_from_foreign_key_is_a_mismatch() {
    let mut asked = request(100, 10);
    asked.locked_source = Some(locked_lock(key(77), 3));
    assert_eq!(
        resolve_identities(&asked, None).err(),
        Some(TransferError::ConfigurationMismatch(Mismatch::LockedSourceNotFromKeys))
    );
    let mut malformed = request(100, 10);
    let mut lock = locked_lock(key(1), 3);
    lock.args[27] = 0x40;
    malformed.locked_source = Some(lock);
    assert_eq!(
        resolve_identities(&malformed, None).err(),
        Some(TransferError::InputValidation(ValidationError::LockedSource(
            LockedSourceError::NotEpoch
        )))
    );
}

#[test]
fn validator_binds_the_first_guarding_candidate() {
    let locked = locked_lock(key(5), 9);
    let descriptor = LockedSourceDescriptor::decode(&locked.args).unwrap();
    let bound =
        LockedSourceValidator::bind(&descriptor, &vec![key(4), key(5), key(6), key(5)]).unwrap();
    assert_eq!(bound.position, 1);
    assert_eq!(bound.descriptor.sighash_addresses(), &vec![key(5)]);
    assert_eq!(bound.descriptor.hash160(), descriptor.hash);
    assert!(LockedSourceValidator::bind(&descriptor, &vec![key(4), key(6)]).is_none());
    assert!(LockedSourceValidator::bind(&descriptor, &vec![]).is_none());
}

#[test]
fn transfer_spends_locked_source_first() {
    let locked = locked_lock(key(1), 3);
    let owner = LockScript::sighash(&key(1));
    let mut index = LiveCellIndex::new();
    index.insert(owned_by(&owner, 1, 600, 1));
    index.insert(owned_by(&locked, 2, 150, 2));
    index.insert(owned_by(&owner, 3, 500, 3));
    let mut asked = request(300, 10);
    asked.locked_source = Some(locked.clone());
    let transfer = through_balancing(asked, small_limits(), &index);
    assert_eq!(transfer.current_stage(), TransferStage::SigningInputs);
    let ids: Vec<u8> = transfer
        .transaction()
        .get_inputs()
        .iter()
        .map(|r| r.cell.out_point.tx_hash.bytes[0])
        .collect();
    assert_eq!(ids, vec![2, 1]);
    let time_locks: Vec<u64> =
        transfer.transaction().get_inputs().iter().map(|r| r.since).collect();
    assert_eq!(time_locks, vec![0x2000_0000_0000_0003, 0]);
    assert_eq!(transfer.transaction().inputs_of(&locked.identity()), vec![0]);
    assert_eq!(transfer.transaction().inputs_of(&owner.identity()), vec![1]);
    assert_eq!(groups_of(&transfer)[0].lock, locked);
    assert_eq!(groups_of(&transfer)[1].lock, owner);
    assert_eq!(transfer.transaction().get_multisig_configs().len(), 1);
    assert_eq!(
        transfer.transaction().get_multisig_configs()[0].hash160().to_vec(),
        locked.args[..20].to_vec()
    );
    let groups = transfer.signing_groups();
    assert_eq!(groups.len(), 2);
    assert_eq!(groups[0].identity, locked.identity());
    assert_eq!(groups[0].candidates, vec![key(1)]);
    assert_eq!(groups[1].identity, owner.identity());
    let outputs: Vec<u64> =
        transfer.transaction().get_outputs().iter().map(|o| o.capacity).collect();
    assert_eq!(outputs, vec![300, 440]);
}

#[test]
fn signing_groups_cover_only_locks_with_inputs() {
    let mut asked = request(300, 10);
    asked.change_address = Some(LockScript::sighash(&key(21)));
    let set = derived_set();
    let mut index = LiveCellIndex::new();
    index.insert(owned_by(&LockScript::sighash(&key(11)), 1, 200, 1));
    index.insert(owned_by(&LockScript::sighash(&key(21)), 2, 5000, 2));
    index.insert(owned_by(&LockScript::sighash(&key(99)), 3, 5000, 3));
    let mut transfer = TransferOrchestrator::new(asked, small_limits(), 100);
    transfer.validate();
    transfer.resolve_identities(Some(&set));
    transfer.search_funds(&index);
    transfer.balance();
    assert_eq!(transfer.current_stage(), TransferStage::SigningInputs);
    let groups = transfer.signing_groups();
    let candidates: Vec<Vec<Hash160>> = groups.iter().map(|g| g.candidates.clone()).collect();
    assert_eq!(candidates, vec![vec![key(11)], vec![key(21)]]);
    assert_eq!(
        transfer.transaction().get_outputs()[1].lock,
        LockScript::sighash(&key(21))
    );
    let ids = transfer.resolved_identities().as_ref().unwrap();
    let bridge = ids.signer();
    let mut signatures = Vec::new();
    for group in &groups {
        let probe = bridge.plan(&SigningRequest {
            candidates: group.candidates.clone(),
            digest: Hash256::zero(),
        });
        assert_eq!(probe, SigningPlan::Placeholder);
        let plan = bridge.plan(&SigningRequest {
            candidates: group.candidates.clone(),
            digest: Hash256::new([4; 32]),
        });
        assert!(plan.answer().is_none());
        signatures.push(SigningPlan::signed(Ok(Signature { bytes: [6; 65] })).unwrap());
    }
    transfer.sign_inputs(signatures);
    assert_eq!(transfer.current_stage(), TransferStage::Finalizing);
    assert_eq!(transfer.transaction().get_signatures().len(), 2);
}

#[test]
fn sealed_transaction_takes_nothing() {
    let owner = LockScript::sighash(&key(1));
    let mut pending = PendingTransaction::new();
    assert!(pending.add_input(TransactionInput { cell: owned_by(&owner, 1, 600, 1), since: 0 }));
    assert!(pending.add_output(TransactionOutput {
        capacity: 500,
        lock: owner.clone(),
        data: vec![1]
    }));
    assert!(pending.add_multisig_config(MultisigDescriptor::single(MultisigScript::Legacy, key(1))));
    assert!(pending.add_signature(owner.identity(), Signature { bytes: [1; 65] }));
    pending.seal();
    assert!(pending.is_sealed());
    assert!(!pending.add_input(TransactionInput { cell: owned_by(&owner, 2, 600, 1), since: 0 }));
    assert!(!pending.add_output(TransactionOutput { capacity: 1, lock: owner.clone(), data: vec![] }));
    assert!(!pending.add_multisig_config(MultisigDescriptor::single(MultisigScript::Legacy, key(2))));
    assert!(!pending.add_signature(owner.identity(), Signature { bytes: [2; 65] }));
    assert_eq!(pending.get_inputs().len(), 1);
    assert_eq!(pending.get_outputs().len(), 1);
    assert_eq!(pending.get_multisig_configs().len(), 1);
    assert_eq!(pending.get_signatures().len(), 1);
}

#[test]
fn request_names_its_expansion() {
    assert!(request(100, 10).expander().is_none());
    let mut asked = request(100, 10);
    asked.receiving_length = 2;
    asked.change_address = Some(LockScript::sighash(&key(21)));
    let mut expander = asked.expander().unwrap();
    let mut supplied = Vec::new();
    while let cell_wallet::derive::Expansion::Derive(path) = expander.next() {
        let hash = match (path.chain, path.index) {
            (KeyChain::External, i) => key(10 + i as u8),
            (KeyChain::Change, i) => key(20 + i as u8),
        };
        supplied.push(path);
        expander.supply(hash);
    }
    assert_eq!(supplied.len(), 4);
    assert_eq!(expander.finish(), Some(derived_set()));
    let mut malformed = request(100, 10);
    malformed.change_address = Some(LockScript {
        code_hash: Hash256::new(MULTISIG_TYPE_HASH),
        hash_type: HASH_TYPE_TYPE,
        args: vec![1; 28],
    });
    assert!(malformed.expander().is_none());
}

#[test]
fn inputs_of_one_lock_are_grouped_in_order() {
    let a = LockScript::sighash(&key(1));
    let b = LockScript::sighash(&key(2));
    let mut pending = PendingTransaction::new();
    for (id, owner) in [(1u8, &a), (2, &b), (3, &a), (4, &a), (5, &b)] {
        pending.add_input(TransactionInput { cell: owned_by(owner, id, 100, 1), since: 0 });
    }
    assert_eq!(pending.inputs_of(&a.identity()), vec![0, 2, 3]);
    assert_eq!(pending.inputs_of(&b.identity()), vec![1, 4]);
    assert_eq!(pending.inputs_of(&LockScript::sighash(&key(3)).identity()), Vec::<usize>::new());
}

#[test]
fn plain_inputs_carry_no_time_lock() {
    let transfer = through_balancing(request(100, 10), small_limits(), &funded_index());
    for input in transfer.transaction().get_inputs() {
        assert_eq!(input.since, 0);
    }
    let groups = transfer.signing_groups();
    assert_eq!(groups[0].lock, LockScript::sighash(&key(1)));
}

#[test]
fn search_cell_by_cell_agrees_with_search_over_an_index() {
    let index = funded_index();
    let mut by_cell = TransferOrchestrator::new(request(1000, 10), TransferLimits::standard(), 100);
    let early = by_cell.offer_cell(0, &index.records()[0]);
    assert!(early.stop && !early.collect);
    let limits = TransferLimits { min_cell_capacity: 90, fee_ceiling: 50, capacity_per_byte: 1 };
    let mut by_cell = TransferOrchestrator::new(request(1000, 10), limits, 100);
    by_cell.validate();
    by_cell.resolve_identities(None);
    let mut verdicts = Vec::new();
    for (ordinal, record) in index.records().iter().enumerate() {
        let verdict = by_cell.offer_cell(ordinal, record);
        verdicts.push((verdict.stop, verdict.collect));
        if verdict.stop {
            break;
        }
    }
    assert_eq!(verdicts, vec![(false, true), (true, true)]);
    by_cell.close_search();
    assert_eq!(by_cell.current_stage(), TransferStage::Balancing);
    by_cell.balance();
    let by_index = through_balancing(request(1000, 10), limits, &index);
    assert_eq!(by_cell.transaction().get_inputs(), by_index.transaction().get_inputs());
    assert_eq!(by_cell.transaction().get_outputs(), by_index.transaction().get_outputs());
    let mut poor = TransferOrchestrator::new(request(1000, 10), limits, 100);
    poor.validate();
    poor.resolve_identities(None);
    poor.offer_cell(0, &index.records()[0]);
    poor.close_search();
    assert_eq!(poor.failure_reason(), &Some(TransferError::InsufficientFunds(600)));
}
