//! Lock scripts: the spending authority of a cell, and the identity under
//! which the index files the cells it owns.

use vstd::prelude::*;
use ckb_types::prelude::{Builder, Entity, Pack, Unpack};
use crate::hash::{bytes_equal, Hash160, Hash256, LockIdentity};

verus! {

/// Code hash of the standard single-key lock.
pub const SIGHASH_TYPE_HASH: [u8; 32] = [
    0x9b, 0xd7, 0xe0, 0x6f, 0x3e, 0xcf, 0x4b, 0xe0,
    0xf2, 0xfc, 0xd2, 0x18, 0x8b, 0x23, 0xf1, 0xb9,
    0xfc, 0xc8, 0x8e, 0x5d, 0x4b, 0x65, 0xa8, 0x63,
    0x7b, 0x17, 0x72, 0x3b, 0xbd, 0xa3, 0xcc, 0xe8,
];

/// Code hash of the multisig lock.
pub const MULTISIG_TYPE_HASH: [u8; 32] = [
    0x5c, 0x50, 0x69, 0xeb, 0x08, 0x57, 0xef, 0xc6,
    0x5e, 0x1b, 0xca, 0x0c, 0x07, 0xdf, 0x34, 0xc3,
    0x16, 0x63, 0xb3, 0x62, 0x2f, 0xd3, 0x87, 0x6c,
    0x87, 0x63, 0x20, 0xfc, 0x96, 0x34, 0xe2, 0xa8,
];

/// Hash type of a script whose code is found by the hash of its data.
pub const HASH_TYPE_DATA: u8 = 0;

/// Hash type of a script whose code is found by the hash of a type script.
pub const HASH_TYPE_TYPE: u8 = 1;

/// A lock script: the code that guards a cell and the arguments it runs with.
#[derive(Clone, Debug, PartialEq, Eq)]
pub struct LockScript {
    /// Hash that finds the code.
    pub code_hash: Hash256,
    /// How the hash finds the code, as the script stores it: one byte.
    pub hash_type: u8,
    /// Arguments of the code; for the locks of this library a key hash, with
    /// a time lock behind it in a locked source.
    pub args: Vec<u8>,
}

/// The hash of a script: the 32-byte digest that the chain computes of the
/// script's serialisation. Equal scripts have equal hashes.
pub uninterp spec fn script_hash(code_hash: Seq<u8>, hash_type: u8, args: Seq<u8>) -> Seq<u8>;

/// Builds the script with `ckb_types::packed::Script::new_builder` and hashes
/// it with `calc_script_hash`. Trusted: the result is the hash named
/// `script_hash` of the three parts handed in, and so depends on nothing else.
#[verifier::external_body]
fn calc_script_hash(code_hash: &Hash256, hash_type: u8, args: &Vec<u8>) -> (hash: Hash256)
    ensures
        hash@ == script_hash(code_hash@, hash_type, args@),
{
    let script = ckb_types::packed::Script::new_builder()
        .code_hash(ckb_types::packed::Byte32::new(code_hash.bytes))
        .hash_type(ckb_types::packed::Byte::new(hash_type))
        .args(args.as_slice().pack())
        .build();
    Hash256 { bytes: script.calc_script_hash().unpack() }
}

impl LockScript {
    /// The standard single-key lock over a key hash.
    pub open spec fn spec_sighash(key_hash: Hash160) -> (Seq<u8>, u8, Seq<u8>) {
        (SIGHASH_TYPE_HASH@, HASH_TYPE_TYPE, key_hash@)
    }

    /// The three parts of the script as plain values.
    pub open spec fn parts(&self) -> (Seq<u8>, u8, Seq<u8>) {
        (self.code_hash@, self.hash_type, self.args@)
    }

    /// The standard single-key lock over a key hash.
    pub fn sighash(key_hash: &Hash160) -> (script: LockScript)
        ensures
            script.parts() == LockScript::spec_sighash(*key_hash),
            script.single_key(),
    {
        LockScript {
            code_hash: Hash256 { bytes: SIGHASH_TYPE_HASH },
            hash_type: HASH_TYPE_TYPE,
            args: key_hash.to_vec(),
        }
    }

    /// True for the standard single-key lock: its code, found by type, over
    /// 20 bytes of arguments.
    pub open spec fn single_key(&self) -> bool {
        &&& self.hash_type == HASH_TYPE_TYPE
        &&& self.code_hash@ == SIGHASH_TYPE_HASH@
        &&& self.args@.len() == 20
    }

    /// True for a multisig lock: its code, found by type, over 20 bytes of
    /// arguments, or 28 where a time lock follows the hash.
    pub open spec fn multisig(&self) -> bool {
        &&& self.hash_type == HASH_TYPE_TYPE
        &&& self.code_hash@ == MULTISIG_TYPE_HASH@
        &&& (self.args@.len() == 20 || self.args@.len() == 28)
    }

    /// A payment may go to a single-key lock or to a multisig lock, and to no
    /// other.
    pub open spec fn payable(&self) -> bool {
        self.single_key() || self.multisig()
    }

    pub fn is_single_key(&self) -> (r: bool)
        ensures
            r == self.single_key(),
    {
        self.hash_type == HASH_TYPE_TYPE && bytes_equal(&self.code_hash.bytes, &SIGHASH_TYPE_HASH)
            && self.args.len() == 20
    }

    pub fn is_multisig(&self) -> (r: bool)
        ensures
            r == self.multisig(),
    {
        self.hash_type == HASH_TYPE_TYPE && bytes_equal(&self.code_hash.bytes, &MULTISIG_TYPE_HASH)
            && (self.args.len() == 20 || self.args.len() == 28)
    }

    pub fn is_payable(&self) -> (r: bool)
        ensures
            r == self.payable(),
    {
        self.is_single_key() || self.is_multisig()
    }

    /// A copy of the script.
    pub fn clone_script(&self) -> (copy: LockScript)
        ensures
            copy.parts() == self.parts(),
            copy.code_hash == self.code_hash,
            copy.hash_type == self.hash_type,
            copy.args@ == self.args@,
    {
        let mut args: Vec<u8> = Vec::new();
        let mut i: usize = 0;
        while i < self.args.len()
            invariant
                i <= self.args@.len(),
                args@ == self.args@.take(i as int),
            decreases self.args@.len() - i,
        {
            args.push(self.args[i]);
            proof {
                assert(self.args@.take(i + 1) =~= self.args@.take(i as int).push(self.args@[i as int]));
            }
            i += 1;
        }
        proof {
            assert(self.args@.take(i as int) =~= self.args@);
        }
        LockScript { code_hash: self.code_hash, hash_type: self.hash_type, args }
    }

    /// The identity of the lock, as a value: the hash of the script.
    pub open spec fn spec_identity(&self) -> Seq<u8> {
        script_hash(self.code_hash@, self.hash_type, self.args@)
    }

    /// The identity under which the index files the cells this lock owns.
    pub fn identity(&self) -> (id: LockIdentity)
        ensures
            id@ == self.spec_identity(),
    {
        calc_script_hash(&self.code_hash, self.hash_type, &self.args)
    }
}

} // verus!
