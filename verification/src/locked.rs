//! Locked funding sources: a multisig lock over one key with a time lock
//! behind its hash. A transfer may spend from one beside its primary key,
//! provided the lock was made from that key or from one derived of it.

use vstd::prelude::*;
use crate::hash::Hash160;
use crate::multisig::{MultisigDescriptor, MultisigScript};
use crate::since::{
    absolute, flags_valid, le_u64, lemma_absolute_epoch_flag_byte, lemma_le_u64_top_byte,
    metric_of, read_le_u64, spec_decode, Since, SinceType,
};
use vstd::slice::slice_subrange;

verus! {

/// Length in bytes of the arguments of a locked source: 20 of hash, 8 of
/// time lock.
pub const LOCKED_ARGS_LEN: usize = 28;

/// Why the arguments of a locked source are refused.
#[derive(Clone, Copy, Debug, PartialEq, Eq, Structural)]
pub enum LockedSourceError {
    /// The arguments are not 28 bytes; holds their length.
    InvalidLength(usize),
    /// The flags of the time lock are not well formed.
    InvalidSinceFlags,
    /// The time lock counts from the input's confirmation.
    NotAbsolute,
    /// The time lock is measured in blocks or in time, not in epochs.
    NotEpoch,
}

/// The arguments of a locked source, taken apart.
#[derive(Clone, Copy, Debug, PartialEq, Eq)]
pub struct LockedSourceDescriptor {
    /// Hash of the multisig descriptor that guards the source.
    pub hash: Hash160,
    /// The time lock: absolute, in epochs.
    pub since: Since,
    /// The time lock as its 64 bits, which an input that spends the source
    /// must carry.
    pub raw_since: u64,
}

/// What is wrong with the arguments of a locked source, if anything. They
/// must be 28 bytes; the last 8, read lowest byte first, must be a time lock
/// with well-formed flags, absolute, and measured in epochs. The first
/// violation in this order is the one reported.
pub open spec fn violation(args: Seq<u8>) -> Option<LockedSourceError> {
    if args.len() != 28 {
        Some(LockedSourceError::InvalidLength(args.len() as usize))
    } else {
        let raw = le_u64(args.subrange(20, 28));
        if !flags_valid(raw) {
            Some(LockedSourceError::InvalidSinceFlags)
        } else if !absolute(raw) {
            Some(LockedSourceError::NotAbsolute)
        } else if metric_of(raw) != Some(SinceType::EpochNumberWithFraction) {
            Some(LockedSourceError::NotEpoch)
        } else {
            None
        }
    }
}

impl LockedSourceDescriptor {
    /// Takes the arguments of a locked source apart, or says why they are
    /// refused. They are accepted exactly when they are 28 bytes of which the
    /// last is `0x20`, the flag byte of an absolute time lock in epochs.
    pub fn decode(args: &[u8]) -> (out: Result<LockedSourceDescriptor, LockedSourceError>)
        ensures
            match out {
                Ok(d) => {
                    &&& violation(args@) is None
                    &&& d.hash@ == args@.subrange(0, 20)
                    &&& d.raw_since == le_u64(args@.subrange(20, 28))
                    &&& Some(d.since) == spec_decode(d.raw_since)
                    &&& !d.since.relative
                    &&& d.since.metric == SinceType::EpochNumberWithFraction
                },
                Err(e) => violation(args@) == Some(e),
            },
            out is Ok <==> args@.len() == 28 && args@[27] == 0x20,
    {
        if args.len() != LOCKED_ARGS_LEN {
            return Err(LockedSourceError::InvalidLength(args.len()));
        }
        let raw = read_le_u64(args, 20);
        proof {
            let tail = args@.subrange(20, 28);
            lemma_le_u64_top_byte(tail);
            lemma_absolute_epoch_flag_byte(raw);
            assert(tail[7] == args@[27]);
        }
        match Since::decode(raw) {
            None => Err(LockedSourceError::InvalidSinceFlags),
            Some(since) => {
                if since.relative {
                    Err(LockedSourceError::NotAbsolute)
                } else {
                    match since.metric {
                        SinceType::EpochNumberWithFraction => {
                            match Hash160::from_slice(slice_subrange(args, 0, 20)) {
                                Some(hash) => Ok(
                                    LockedSourceDescriptor { hash, since, raw_since: raw },
                                ),
                                None => vstd::pervasive::unreached(),
                            }
                        },
                        _ => Err(LockedSourceError::NotEpoch),
                    }
                }
            },
        }
    }
}

/// True when the multisig descriptor of this one key, of which one signature
/// is needed, has the hash `wanted`.
pub open spec fn key_guards(key: Seq<u8>, wanted: Seq<u8>) -> bool {
    crate::multisig::descriptor_hash(MultisigScript::Legacy, seq![key], 0, 1) == wanted
}

/// A locked source bound to the key that guards it.
#[derive(Clone, Debug, PartialEq, Eq)]
pub struct BoundSource {
    /// Position of the guarding key among the candidates.
    pub position: usize,
    /// The descriptor over that key.
    pub descriptor: MultisigDescriptor,
}

/// Validates locked funding sources and binds them to a signing key.
pub struct LockedSourceValidator {}

impl LockedSourceValidator {
    /// Finds the key that guards a locked source. The candidates are tried in
    /// order, the primary key first; the first whose single-key descriptor
    /// has the hash of the source is the one bound. `None` when no candidate
    /// guards the source: it was not made from this key material.
    pub fn bind(descriptor: &LockedSourceDescriptor, candidates: &Vec<Hash160>) -> (bound: Option<
        BoundSource,
    >)
        ensures
            bound is Some <==> exists|i: int|
                0 <= i < candidates@.len() && key_guards(candidates@[i]@, descriptor.hash@),
            bound matches Some(b) ==> {
                &&& b.position < candidates@.len()
                &&& key_guards(candidates@[b.position as int]@, descriptor.hash@)
                &&& forall|j: int|
                    0 <= j < b.position ==> !key_guards(candidates@[j]@, descriptor.hash@)
                &&& b.descriptor.wf()
                &&& b.descriptor.script() == MultisigScript::Legacy
                &&& b.descriptor.keys() == seq![candidates@[b.position as int]]
                &&& b.descriptor.require_first_n() == 0
                &&& b.descriptor.threshold() == 1
                &&& b.descriptor.spec_hash160() == descriptor.hash
            },
    {
        let mut i: usize = 0;
        while i < candidates.len()
            invariant
                i <= candidates@.len(),
                forall|j: int| 0 <= j < i ==> !key_guards(candidates@[j]@, descriptor.hash@),
            decreases candidates@.len() - i,
        {
            let made = MultisigDescriptor::single(MultisigScript::Legacy, candidates[i]);
            let hash = made.hash160();
            proof {
                assert(crate::multisig::key_hashes(seq![candidates@[i as int]]) =~= seq![
                    candidates@[i as int]@,
                ]);
                Hash160::lemma_view_injective(hash, descriptor.hash);
            }
            if hash == descriptor.hash {
                return Some(BoundSource { position: i, descriptor: made });
            }
            i += 1;
        }
        None
    }
}

} // verus!
