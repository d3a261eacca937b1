use cell_wallet::aggregate::{CapacityAggregator, CapacityTotals};
use cell_wallet::cell::{OutPoint, SearchKey, TypeHashes, UnspentCellRecord, DEPOSIT_TYPE_CODE_HASH};
use cell_wallet::hash::Hash256;
use cell_wallet::stream::{LiveCellStream, ScanPolicy};

fn lock(n: u8) -> Hash256 {
    Hash256::new([n; 32])
}

fn cell(id: u8, capacity: u64, number: u64, tx_index: u32) -> UnspentCellRecord {
    UnspentCellRecord {
        out_point: OutPoint { tx_hash: Hash256::new([id; 32]), index: 0 },
        lock_hash: lock(7),
        capacity,
        data_bytes: 0,
        type_hashes: None,
        number,
        tx_index,
    }
}

fn deposit(id: u8, capacity: u64, number: u64, tx_index: u32) -> UnspentCellRecord {
    let mut record = cell(id, capacity, number, tx_index);
    record.type_hashes = Some(TypeHashes {
        code_hash: Hash256::new(DEPOSIT_TYPE_CODE_HASH),
        script_hash: Hash256::new([id; 32]),
    });
    record.data_bytes = 8;
    record
}

#[test]
fn deposit_hash_is_the_reserved_one() {
    assert_eq!(DEPOSIT_TYPE_CODE_HASH, ckb_sdk::constants::DAO_TYPE_HASH.0);
    assert!(deposit(1, 1, 1, 1).is_deposit());
    assert!(!cell(1, 1, 1, 1).is_deposit());
    let mut other = cell(1, 1, 1, 1);
    other.type_hashes = Some(TypeHashes {
        code_hash: Hash256::new([3; 32]),
        script_hash: Hash256::new(DEPOSIT_TYPE_CODE_HASH),
    });
    assert!(!other.is_deposit());
}

#[test]
fn aggregator_sums_three_classes() {
    let records = vec![
        cell(1, 100, 5, 1),
        cell(2, 1000, 50, 0),
        deposit(3, 10000, 6, 2),
        deposit(4, 100000, 60, 0),
        cell(5, 7, 0, 0),
    ];
    let mut aggregator = CapacityAggregator::new(10);
    let kept = LiveCellStream::scan(&records, SearchKey::Lock(lock(7)), None, &mut aggregator);
    assert!(kept.is_empty());
    assert_eq!(
        aggregator.totals(),
        Some(CapacityTotals { total: 111107, immature: 101000, deposit: 110000 })
    );
}

#[test]
fn deposit_cell_counts_as_immature_only_when_immature() {
    let mut mature_case = CapacityAggregator::new(10);
    let verdict = mature_case.visit(0, &deposit(1, 500, 5, 0));
    assert!(!verdict.stop && !verdict.collect);
    assert_eq!(
        mature_case.totals(),
        Some(CapacityTotals { total: 500, immature: 0, deposit: 500 })
    );
    let mut immature_case = CapacityAggregator::new(10);
    immature_case.visit(0, &deposit(1, 500, 11, 0));
    assert_eq!(
        immature_case.totals(),
        Some(CapacityTotals { total: 500, immature: 500, deposit: 500 })
    );
}

#[test]
fn aggregator_reports_overflow() {
    let mut aggregator = CapacityAggregator::new(10);
    aggregator.visit(0, &cell(1, u64::MAX, 1, 1));
    assert_eq!(
        aggregator.totals(),
        Some(CapacityTotals { total: u64::MAX, immature: 0, deposit: 0 })
    );
    aggregator.visit(1, &cell(2, 1, 1, 1));
    assert_eq!(aggregator.totals(), None);
    aggregator.visit(2, &cell(3, 1, 1, 1));
    assert_eq!(aggregator.totals(), None);
}

#[test]
fn fresh_aggregator_is_zero() {
    let aggregator = CapacityAggregator::new(0);
    assert_eq!(aggregator.totals(), Some(CapacityTotals { total: 0, immature: 0, deposit: 0 }));
}
