//! The time-lock value of a cell input, "since": 64 bits that hold a flag
//! byte on top and a value in the low 56 bits.

use vstd::prelude::*;

verus! {

/// Set when the lock counts from the block that confirmed the input.
pub const LOCK_TYPE_FLAG: u64 = 0x8000_0000_0000_0000;

/// The two bits that say what the value measures.
pub const METRIC_TYPE_FLAG_MASK: u64 = 0x6000_0000_0000_0000;

/// Metric bits of a value that is an epoch number with a fraction.
pub const METRIC_EPOCH: u64 = 0x2000_0000_0000_0000;

/// Metric bits of a value that is a timestamp.
pub const METRIC_TIMESTAMP: u64 = 0x4000_0000_0000_0000;

/// The flag bits that must stay clear.
pub const REMAIN_FLAGS_BITS: u64 = 0x1f00_0000_0000_0000;

/// The bits of the value.
pub const VALUE_MASK: u64 = 0x00ff_ffff_ffff_ffff;

/// What the value of a time lock measures.
#[derive(Clone, Copy, Debug, PartialEq, Eq, Structural)]
pub enum SinceType {
    BlockNumber,
    EpochNumberWithFraction,
    Timestamp,
}

/// A time lock taken apart.
#[derive(Clone, Copy, Debug, PartialEq, Eq, Structural)]
pub struct Since {
    /// True when the lock counts from the input's confirmation, false when it
    /// names a point of the chain.
    pub relative: bool,
    /// What the value measures.
    pub metric: SinceType,
    /// The value, below 2^56.
    pub value: u64,
}

/// The flags are well formed when the reserved bits are clear and the metric
/// bits are not both set.
pub open spec fn flags_valid(raw: u64) -> bool {
    raw & REMAIN_FLAGS_BITS == 0 && raw & METRIC_TYPE_FLAG_MASK != METRIC_TYPE_FLAG_MASK
}

/// True when the lock names a point of the chain.
pub open spec fn absolute(raw: u64) -> bool {
    raw & LOCK_TYPE_FLAG == 0
}

/// What the value measures, where the metric bits say so.
pub open spec fn metric_of(raw: u64) -> Option<SinceType> {
    let bits = raw & METRIC_TYPE_FLAG_MASK;
    if bits == 0 {
        Some(SinceType::BlockNumber)
    } else if bits == METRIC_EPOCH {
        Some(SinceType::EpochNumberWithFraction)
    } else if bits == METRIC_TIMESTAMP {
        Some(SinceType::Timestamp)
    } else {
        None
    }
}

/// The 64 bits that eight bytes hold, lowest byte first.
pub open spec fn le_u64(bytes: Seq<u8>) -> u64
    recommends
        bytes.len() == 8,
{
    (bytes[0] as u64) | (bytes[1] as u64) << 8 | (bytes[2] as u64) << 16 | (bytes[3] as u64) << 24
        | (bytes[4] as u64) << 32 | (bytes[5] as u64) << 40 | (bytes[6] as u64) << 48 | (
    bytes[7] as u64) << 56
}

/// Reads 64 bits from eight bytes of a slice, lowest byte first.
pub fn read_le_u64(data: &[u8], at: usize) -> (raw: u64)
    requires
        at + 8 <= data@.len(),
    ensures
        raw == le_u64(data@.subrange(at as int, at + 8)),
{
    (data[at] as u64) | (data[at + 1] as u64) << 8 | (data[at + 2] as u64) << 16 | (data[at
        + 3] as u64) << 24 | (data[at + 4] as u64) << 32 | (data[at + 5] as u64) << 40 | (data[at
        + 6] as u64) << 48 | (data[at + 7] as u64) << 56
}

/// The top byte of the 64 bits is the last of the eight bytes.
pub proof fn lemma_le_u64_top_byte(bytes: Seq<u8>)
    requires
        bytes.len() == 8,
    ensures
        le_u64(bytes) >> 56 == bytes[7],
{
    let b0 = bytes[0];
    let b1 = bytes[1];
    let b2 = bytes[2];
    let b3 = bytes[3];
    let b4 = bytes[4];
    let b5 = bytes[5];
    let b6 = bytes[6];
    let b7 = bytes[7];
    assert(((b0 as u64) | (b1 as u64) << 8 | (b2 as u64) << 16 | (b3 as u64) << 24 | (b4 as u64)
        << 32 | (b5 as u64) << 40 | (b6 as u64) << 48 | (b7 as u64) << 56) >> 56 == b7)
        by (bit_vector);
}

/// A raw value decodes exactly when its flags are well formed; all three
/// parts of the result are read off its bits.
pub open spec fn spec_decode(raw: u64) -> Option<Since> {
    if flags_valid(raw) {
        Some(
            Since {
                relative: !absolute(raw),
                metric: metric_of(raw).unwrap(),
                value: raw & VALUE_MASK,
            },
        )
    } else {
        None
    }
}

impl Since {
    /// Takes a raw time lock apart; `None` when its flags are not well formed.
    pub fn decode(raw: u64) -> (since: Option<Since>)
        ensures
            since == spec_decode(raw),
            since matches Some(s) ==> s.value <= VALUE_MASK && metric_of(raw) == Some(s.metric),
    {
        if raw & REMAIN_FLAGS_BITS != 0 {
            return None;
        }
        let bits = raw & METRIC_TYPE_FLAG_MASK;
        let metric = if bits == 0 {
            SinceType::BlockNumber
        } else if bits == METRIC_EPOCH {
            SinceType::EpochNumberWithFraction
        } else if bits == METRIC_TIMESTAMP {
            SinceType::Timestamp
        } else {
            assert(bits == METRIC_TYPE_FLAG_MASK) by (bit_vector)
                requires
                    bits == raw & 0x6000_0000_0000_0000u64,
                    bits != 0,
                    bits != 0x2000_0000_0000_0000u64,
                    bits != 0x4000_0000_0000_0000u64,
            ;
            return None;
        };
        assert(raw & VALUE_MASK <= VALUE_MASK) by (bit_vector);
        assert(bits != METRIC_TYPE_FLAG_MASK);
        Some(Since { relative: raw & LOCK_TYPE_FLAG != 0, metric, value: raw & VALUE_MASK })
    }
}

/// An absolute lock measured in epochs is one whose flag byte is exactly
/// `0x20`.
pub proof fn lemma_absolute_epoch_flag_byte(raw: u64)
    ensures
        (flags_valid(raw) && absolute(raw) && metric_of(raw) == Some(
            SinceType::EpochNumberWithFraction,
        )) <==> raw >> 56 == 0x20,
{
    assert((raw & 0x1f00_0000_0000_0000u64 == 0 && raw & 0x6000_0000_0000_0000u64
        != 0x6000_0000_0000_0000u64 && raw & 0x8000_0000_0000_0000u64 == 0 && raw
        & 0x6000_0000_0000_0000u64 == 0x2000_0000_0000_0000u64) <==> raw >> 56 == 0x20)
        by (bit_vector);
}

} // verus!
