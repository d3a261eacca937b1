//! Unspent cells as the index records them, and the keys they are found by.

use vstd::prelude::*;
use crate::hash::{bytes_equal, Hash256, LockIdentity};

verus! {

/// Code hash of the type script that marks deposit-class cells.
pub const DEPOSIT_TYPE_CODE_HASH: [u8; 32] = [
    0x82, 0xd7, 0x6d, 0x1b, 0x75, 0xfe, 0x2f, 0xd9,
    0xa2, 0x7d, 0xfb, 0xaa, 0x65, 0xa0, 0x39, 0x22,
    0x1a, 0x38, 0x0d, 0x76, 0xc9, 0x26, 0xf3, 0x78,
    0xd3, 0xf8, 0x1c, 0xf3, 0xe7, 0xe1, 0x3f, 0x2e,
];

/// Reference to one output of one transaction.
#[derive(Clone, Copy, Debug, PartialEq, Eq)]
pub struct OutPoint {
    pub tx_hash: Hash256,
    pub index: u32,
}

/// The two hashes kept of a cell's type script.
#[derive(Clone, Copy, Debug, PartialEq, Eq)]
pub struct TypeHashes {
    /// Hash of the code the type script runs.
    pub code_hash: Hash256,
    /// Hash of the whole type script.
    pub script_hash: Hash256,
}

/// One unspent transaction output.
#[derive(Clone, Copy, Debug, PartialEq, Eq)]
pub struct UnspentCellRecord {
    /// Where the cell is found on chain.
    pub out_point: OutPoint,
    /// Identity of the lock that owns the cell.
    pub lock_hash: LockIdentity,
    /// Value of the cell, in the smallest unit.
    pub capacity: u64,
    /// Size of the data attached to the cell, in bytes.
    pub data_bytes: u64,
    /// Hashes of the type script, when the cell has one.
    pub type_hashes: Option<TypeHashes>,
    /// Number of the block that created the cell.
    pub number: u64,
    /// Position in that block of the creating transaction; the block reward is
    /// paid by the transaction at position zero.
    pub tx_index: u32,
}

impl UnspentCellRecord {
    /// A plain cell carries neither data nor a type script. Only plain cells
    /// fund a payment.
    pub open spec fn plain(&self) -> bool {
        self.type_hashes is None && self.data_bytes == 0
    }

    /// A cell is mature unless it is a block reward, outside the first block,
    /// created after the newest block whose rewards may be spent.
    pub open spec fn mature(&self, max_mature_number: u64) -> bool {
        self.tx_index > 0 || self.number == 0 || self.number <= max_mature_number
    }

    /// A deposit-class cell runs the reserved deposit type script.
    pub open spec fn deposit(&self) -> bool {
        self.type_hashes matches Some(t) && t.code_hash.bytes == DEPOSIT_TYPE_CODE_HASH
    }

    pub fn is_plain(&self) -> (r: bool)
        ensures
            r == self.plain(),
    {
        self.type_hashes.is_none() && self.data_bytes == 0
    }

    pub fn is_mature(&self, max_mature_number: u64) -> (r: bool)
        ensures
            r == self.mature(max_mature_number),
    {
        self.tx_index > 0 || self.number == 0 || self.number <= max_mature_number
    }

    pub fn is_deposit(&self) -> (r: bool)
        ensures
            r == self.deposit(),
    {
        match &self.type_hashes {
            Some(t) => bytes_equal(&t.code_hash.bytes, &DEPOSIT_TYPE_CODE_HASH),
            None => false,
        }
    }
}

/// What a scan of the index looks for.
#[derive(Clone, Copy, Debug, PartialEq, Eq)]
pub enum SearchKey {
    /// Cells owned by this lock identity.
    Lock(LockIdentity),
    /// Cells whose type script has this hash.
    Type(Hash256),
    /// Cells whose type script runs the code with this hash.
    Code(Hash256),
}

impl SearchKey {
    /// True when the record is one the key asks for.
    pub open spec fn spec_matches(&self, record: UnspentCellRecord) -> bool {
        match *self {
            SearchKey::Lock(h) => record.lock_hash == h,
            SearchKey::Type(h) => record.type_hashes matches Some(t) && t.script_hash == h,
            SearchKey::Code(h) => record.type_hashes matches Some(t) && t.code_hash == h,
        }
    }

    #[verifier::when_used_as_spec(spec_matches)]
    pub fn matches(&self, record: UnspentCellRecord) -> (r: bool)
        ensures
            r == self.spec_matches(record),
    {
        match self {
            SearchKey::Lock(h) => record.lock_hash == *h,
            SearchKey::Type(h) => match record.type_hashes {
                Some(t) => t.script_hash == *h,
                None => false,
            },
            SearchKey::Code(h) => match record.type_hashes {
                Some(t) => t.code_hash == *h,
                None => false,
            },
        }
    }

    /// Picks the key of a listing: the lock identity when one is given, else
    /// the type-script hash, else the code hash; `None` when none is given.
    pub fn pick(
        lock: Option<LockIdentity>,
        type_hash: Option<Hash256>,
        code_hash: Option<Hash256>,
    ) -> (key: Option<SearchKey>)
        ensures
            key == match (lock, type_hash, code_hash) {
                (Some(h), _, _) => Some(SearchKey::Lock(h)),
                (None, Some(h), _) => Some(SearchKey::Type(h)),
                (None, None, Some(h)) => Some(SearchKey::Code(h)),
                (None, None, None) => None,
            },
    {
        match lock {
            Some(h) => Some(SearchKey::Lock(h)),
            None => match type_hash {
                Some(h) => Some(SearchKey::Type(h)),
                None => match code_hash {
                    Some(h) => Some(SearchKey::Code(h)),
                    None => None,
                },
            },
        }
    }
}

/// Sum of the capacities of a sequence of records.
pub open spec fn total_capacity(records: Seq<UnspentCellRecord>) -> nat
    decreases records.len(),
{
    if records.len() == 0 {
        0
    } else {
        total_capacity(records.drop_last()) + records.last().capacity as nat
    }
}

/// Appending a record adds its capacity to the sum.
pub proof fn lemma_total_capacity_push(records: Seq<UnspentCellRecord>, record: UnspentCellRecord)
    ensures
        total_capacity(records.push(record)) == total_capacity(records) + record.capacity,
{
    assert(records.push(record).drop_last() =~= records);
}

/// The sum over a concatenation is the sum of the sums.
pub proof fn lemma_total_capacity_concat(a: Seq<UnspentCellRecord>, b: Seq<UnspentCellRecord>)
    ensures
        total_capacity(a + b) == total_capacity(a) + total_capacity(b),
    decreases b.len(),
{
    if b.len() == 0 {
        assert(a + b =~= a);
    } else {
        lemma_total_capacity_concat(a, b.drop_last());
        assert((a + b).drop_last() =~= a + b.drop_last());
    }
}

} // verus!
