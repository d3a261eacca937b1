use cell_wallet::aggregate::CapacityTotals;
use cell_wallet::balance::{Balance, TransferLimits};
use cell_wallet::derive::{DerivationPath, DerivedKey, DerivedKeySet, KeyChain};
use cell_wallet::cell::{
    OutPoint, SearchKey, TypeHashes, UnspentCellRecord, DEPOSIT_TYPE_CODE_HASH,
};
use cell_wallet::error::{FeeViolation, TransferError, ValidationError};
use cell_wallet::hash::{Hash160, Hash256};
use cell_wallet::index::LiveCellIndex;
use cell_wallet::request::TransferRequest;
use cell_wallet::script::LockScript;
use cell_wallet::transfer::TransferStage;
use cell_wallet::wallet::{LiveCell, LiveCells, WalletSubCommand};

fn lock(n: u8) -> Hash256 {
    Hash256::new([n; 32])
}

fn cell(id: u8, owner: Hash256, capacity: u64, number: u64, tx_index: u32) -> UnspentCellRecord {
    UnspentCellRecord {
        out_point: OutPoint { tx_hash: Hash256::new([id; 32]), index: 0 },
        lock_hash: owner,
        capacity,
        data_bytes: 0,
        type_hashes: None,
        number,
        tx_index,
    }
}

fn fixture() -> LiveCellIndex {
    let mut deposit = cell(3, lock(7), 10000, 6, 2);
    deposit.type_hashes = Some(TypeHashes {
        code_hash: Hash256::new(DEPOSIT_TYPE_CODE_HASH),
        script_hash: Hash256::new([0x33; 32]),
    });
    let mut immature_deposit = cell(4, lock(8), 100000, 60, 0);
    immature_deposit.type_hashes = deposit.type_hashes;
    LiveCellIndex::from_ordered(vec![
        cell(1, lock(7), 100, 5, 1),
        deposit,
        cell(2, lock(7), 1000, 50, 0),
        immature_deposit,
        cell(5, lock(9), 7, 70, 1),
    ])
    .unwrap()
}

#[test]
fn capacity_of_one_lock() {
    let wallet = WalletSubCommand::new(fixture(), 10);
    assert_eq!(wallet.get_capacity(vec![lock(7)]), Ok((11100, 1000, 10000)));
    assert_eq!(wallet.get_capacity(vec![lock(8)]), Ok((100000, 100000, 100000)));
    assert_eq!(wallet.get_capacity(vec![lock(1)]), Ok((0, 0, 0)));
    assert_eq!(wallet.get_capacity(vec![]), Ok((0, 0, 0)));
}

#[test]
fn capacity_of_several_locks() {
    let wallet = WalletSubCommand::new(fixture(), 10);
    assert_eq!(wallet.get_capacity(vec![lock(7), lock(8), lock(9)]), Ok((111107, 101000, 110000)));
    assert_eq!(wallet.get_capacity(vec![lock(9), lock(7)]), Ok((11107, 1000, 10000)));
    assert_eq!(wallet.get_capacity(vec![lock(9), lock(9)]), Ok((14, 0, 0)));
    let later = WalletSubCommand::new(fixture(), 60);
    assert_eq!(later.get_capacity(vec![lock(7), lock(8), lock(9)]), Ok((111107, 0, 110000)));
}

#[test]
fn capacity_beyond_64_bits_is_an_error() {
    let index = LiveCellIndex::from_ordered(vec![
        cell(1, lock(7), u64::MAX, 1, 1),
        cell(2, lock(7), 1, 2, 1),
    ])
    .unwrap();
    let wallet = WalletSubCommand::new(index, 10);
    assert_eq!(wallet.get_capacity(vec![lock(7)]), Err(TransferError::CapacityOverflow));
}

#[test]
fn page_of_live_cells() {
    let wallet = WalletSubCommand::new(fixture(), 10);
    let (page, total) =
        wallet.get_live_cells(u64::MAX, 2, SearchKey::Lock(lock(7)), None, false).unwrap();
    assert_eq!(
        page,
        LiveCells {
            live_cells: vec![
                LiveCell { info: fixture().records()[0], mature: true },
                LiveCell { info: fixture().records()[1], mature: true },
            ],
            current_count: 2,
            current_capacity: 10100,
        }
    );
    assert_eq!(total, Some((3, 11100)));
    let (fast, total) =
        wallet.get_live_cells(u64::MAX, 2, SearchKey::Lock(lock(7)), None, true).unwrap();
    assert_eq!(fast, page);
    assert_eq!(total, None);
}

#[test]
fn page_by_block_range() {
    let wallet = WalletSubCommand::new(fixture(), 10);
    let (page, total) =
        wallet.get_live_cells(50, 100, SearchKey::Lock(lock(7)), Some(6), false).unwrap();
    let ids: Vec<u8> = page.live_cells.iter().map(|c| c.info.out_point.tx_hash.bytes[0]).collect();
    assert_eq!(ids, vec![3, 2]);
    let mature: Vec<bool> = page.live_cells.iter().map(|c| c.mature).collect();
    assert_eq!(mature, vec![true, false]);
    assert_eq!(page.current_count, 2);
    assert_eq!(page.current_capacity, 11000);
    assert_eq!(total, Some((2, 11000)));
    let (page, total) =
        wallet.get_live_cells(6, 100, SearchKey::Lock(lock(7)), None, false).unwrap();
    assert_eq!(page.current_count, 2);
    assert_eq!(total, Some((3, 11100)));
    let (empty, total) =
        wallet.get_live_cells(4, 100, SearchKey::Lock(lock(7)), None, true).unwrap();
    assert!(empty.live_cells.is_empty());
    assert_eq!((empty.current_count, empty.current_capacity), (0, 0));
    assert_eq!(total, None);
}

#[test]
fn page_by_type_and_code() {
    let wallet = WalletSubCommand::new(fixture(), 10);
    let (by_code, total) = wallet
        .get_live_cells(
            u64::MAX,
            10,
            SearchKey::Code(Hash256::new(DEPOSIT_TYPE_CODE_HASH)),
            None,
            false,
        )
        .unwrap();
    assert_eq!(by_code.current_count, 2);
    assert_eq!(by_code.current_capacity, 110000);
    assert_eq!(total, Some((2, 110000)));
    let (by_type, _) = wallet
        .get_live_cells(u64::MAX, 1, SearchKey::Type(Hash256::new([0x33; 32])), None, false)
        .unwrap();
    assert_eq!(by_type.current_count, 1);
    assert_eq!(by_type.live_cells[0].info.capacity, 10000);
    let (none, total) = wallet
        .get_live_cells(u64::MAX, 10, SearchKey::Type(Hash256::new([0x34; 32])), None, false)
        .unwrap();
    assert_eq!(none.current_count, 0);
    assert_eq!(total, Some((0, 0)));
}

#[test]
fn page_counts_beyond_their_width_are_an_error() {
    let index = LiveCellIndex::from_ordered(vec![
        cell(1, lock(7), u64::MAX, 1, 1),
        cell(2, lock(7), 1, 2, 1),
    ])
    .unwrap();
    let wallet = WalletSubCommand::new(index, 10);
    assert_eq!(
        wallet.get_live_cells(u64::MAX, 1, SearchKey::Lock(lock(7)), None, false),
        Err(TransferError::CapacityOverflow)
    );
    let (page, total) =
        wallet.get_live_cells(u64::MAX, 1, SearchKey::Lock(lock(7)), None, true).unwrap();
    assert_eq!(page.current_capacity, u64::MAX);
    assert_eq!(total, None);
    assert_eq!(
        wallet.get_live_cells(u64::MAX, 2, SearchKey::Lock(lock(7)), None, true),
        Err(TransferError::CapacityOverflow)
    );
}

fn key(n: u8) -> Hash160 {
    Hash160::new([n; 20])
}

fn request(capacity: u64, fee: u64) -> TransferRequest {
    TransferRequest {
        raw_key: None,
        account: Some(key(1)),
        locked_source: None,
        destination: LockScript::sighash(&key(200)),
        capacity,
        fee,
        data: vec![],
        receiving_length: 0,
        change_address: None,
    }
}

fn funded_wallet(limits: TransferLimits) -> WalletSubCommand {
    let owner = LockScript::sighash(&key(1)).identity();
    let index = LiveCellIndex::from_ordered(vec![
        cell(1, owner, 600, 1, 1),
        cell(2, owner, 500, 2, 1),
        cell(3, owner, 10000, 3, 1),
    ])
    .unwrap();
    WalletSubCommand::with_limits(index, 100, limits)
}

#[test]
fn wallet_transfer_reaches_the_signing_stage() {
    let limits = TransferLimits { min_cell_capacity: 100, fee_ceiling: 50, capacity_per_byte: 1 };
    let transfer = funded_wallet(limits).transfer(request(100, 10), None).ok().unwrap();
    assert_eq!(transfer.current_stage(), TransferStage::SigningInputs);
    assert_eq!(transfer.balanced(), Some(Balance { rest: 490, change: Some(490) }));
    assert_eq!(transfer.transaction().get_inputs().len(), 1);
    assert_eq!(transfer.transaction().get_outputs().len(), 2);
}

#[test]
fn wallet_transfer_reports_each_failure() {
    let limits = TransferLimits { min_cell_capacity: 100, fee_ceiling: 50, capacity_per_byte: 1 };
    let wallet = funded_wallet(limits);
    assert_eq!(
        wallet.transfer(request(1000, 10), None).err(),
        Some(TransferError::FeeExceedsCeiling(FeeViolation::FeeWithChange))
    );
    assert_eq!(
        wallet.transfer(request(50, 10), None).err(),
        Some(TransferError::InputValidation(ValidationError::CapacityBelowMinimum))
    );
    assert_eq!(
        wallet.transfer(request(20000, 10), None).err(),
        Some(TransferError::InsufficientFunds(11100))
    );
    assert_eq!(
        wallet.transfer(request(1000, 60), None).err(),
        Some(TransferError::FeeExceedsCeiling(FeeViolation::Fee))
    );
    let mut no_source = request(1000, 10);
    no_source.account = None;
    assert_eq!(
        wallet.transfer(no_source, None).err(),
        Some(TransferError::InputValidation(ValidationError::NoFundingSource))
    );
}

#[test]
fn wallet_with_chain_limits() {
    let wallet = funded_wallet(TransferLimits::standard());
    assert_eq!(
        wallet.transfer(request(1000, 10), None).err(),
        Some(TransferError::InputValidation(ValidationError::CapacityBelowMinimum))
    );
}

#[test]
fn find_live_cells_needs_a_key() {
    let wallet = WalletSubCommand::new(fixture(), 10);
    assert_eq!(
        wallet.find_live_cells(None, None, None, None, None, 10, false),
        Err(TransferError::InputValidation(ValidationError::NoSearchKey))
    );
    let by_lock = wallet.find_live_cells(Some(lock(7)), None, None, None, None, 2, false);
    assert_eq!(by_lock, wallet.get_live_cells(u64::MAX, 2, SearchKey::Lock(lock(7)), None, false));
    let lock_wins = wallet.find_live_cells(
        Some(lock(7)),
        Some(Hash256::new([0x33; 32])),
        Some(Hash256::new(DEPOSIT_TYPE_CODE_HASH)),
        Some(6),
        Some(50),
        10,
        true,
    );
    assert_eq!(lock_wins, wallet.get_live_cells(50, 10, SearchKey::Lock(lock(7)), Some(6), true));
    let by_type =
        wallet.find_live_cells(None, Some(Hash256::new([0x33; 32])), None, None, None, 10, false);
    assert_eq!(by_type.unwrap().0.current_count, 2);
    let by_code = wallet.find_live_cells(
        None,
        None,
        Some(Hash256::new(DEPOSIT_TYPE_CODE_HASH)),
        None,
        None,
        10,
        false,
    );
    assert_eq!(by_code.unwrap().0.current_count, 2);
}

#[test]
fn capacity_locks_of_an_account() {
    let main = LockScript::sighash(&key(1));
    assert_eq!(WalletSubCommand::capacity_locks(&main, None), vec![main.identity()]);
    let set = DerivedKeySet {
        external: vec![DerivedKey {
            path: DerivationPath { chain: KeyChain::External, index: 0 },
            hash: key(10),
        }],
        change: vec![
            DerivedKey { path: DerivationPath { chain: KeyChain::Change, index: 0 }, hash: key(20) },
            DerivedKey { path: DerivationPath { chain: KeyChain::Change, index: 1 }, hash: key(21) },
        ],
    };
    let expected: Vec<Hash256> =
        [1u8, 10, 20, 21].iter().map(|n| LockScript::sighash(&key(*n)).identity()).collect();
    assert_eq!(WalletSubCommand::capacity_locks(&main, Some(&set)), expected);
}

#[test]
fn free_capacity_is_total_without_deposits() {
    assert_eq!(CapacityTotals { total: 111107, immature: 5, deposit: 110000 }.free(), Some(1107));
    assert_eq!(CapacityTotals { total: 5, immature: 0, deposit: 5 }.free(), Some(0));
    assert_eq!(CapacityTotals { total: 5, immature: 0, deposit: 6 }.free(), None);
}
