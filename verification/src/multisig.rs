//! Multisig descriptors: a list of key hashes of which a threshold must sign,
//! and the hash that a multisig lock carries of such a descriptor.

use vstd::prelude::*;
use crate::hash::Hash160;

verus! {

/// Which deployment of the multisig lock a descriptor is for.
#[derive(Clone, Copy, Debug, PartialEq, Eq, Structural)]
pub enum MultisigScript {
    /// The lock deployed in the first block.
    Legacy,
    /// The later deployment.
    V2,
}

/// The key hashes of a descriptor as plain values.
pub open spec fn key_hashes(keys: Seq<Hash160>) -> Seq<Seq<u8>> {
    keys.map_values(|h: Hash160| h@)
}

/// A descriptor is admissible when no key hash occurs twice, the threshold is
/// no more than the number of keys, and the number of keys that must sign
/// first is no more than the threshold.
pub open spec fn admissible(keys: Seq<Seq<u8>>, require_first_n: u8, threshold: u8) -> bool {
    &&& keys.no_duplicates()
    &&& threshold <= keys.len()
    &&& require_first_n <= threshold
}

/// The 20-byte hash of an admissible descriptor: the start of the digest of
/// its serialisation.
pub uninterp spec fn descriptor_hash(
    script: MultisigScript,
    keys: Seq<Seq<u8>>,
    require_first_n: u8,
    threshold: u8,
) -> Seq<u8>;

/// Makes the descriptor with `ckb_sdk::unlock::MultisigConfig::new_with` and
/// takes its `hash160`. Trusted: the descriptor is refused exactly when it is
/// not admissible, and the hash of an admissible one is the one named
/// `descriptor_hash` of the four parts handed in.
#[verifier::external_body]
fn multisig_hash160(
    script: MultisigScript,
    keys: &Vec<Hash160>,
    require_first_n: u8,
    threshold: u8,
) -> (hash: Option<Hash160>)
    ensures
        hash is Some <==> admissible(key_hashes(keys@), require_first_n, threshold),
        hash matches Some(h) ==> h@ == descriptor_hash(
            script,
            key_hashes(keys@),
            require_first_n,
            threshold,
        ),
{
    let kind = match script {
        MultisigScript::Legacy => ckb_sdk::constants::MultisigScript::Legacy,
        MultisigScript::V2 => ckb_sdk::constants::MultisigScript::V2,
    };
    let addresses = keys.iter().map(|h| ckb_types::H160(h.bytes)).collect();
    match ckb_sdk::unlock::MultisigConfig::new_with(kind, addresses, require_first_n, threshold) {
        Ok(config) => Some(Hash160 { bytes: config.hash160().0 }),
        Err(_) => None,
    }
}

/// A multisig descriptor: which lock it is for, the key hashes that may sign,
/// how many of the first of them must sign, and how many signatures are
/// needed in all.
#[derive(Clone, Debug, PartialEq, Eq)]
pub struct MultisigDescriptor {
    script: MultisigScript,
    sighash_addresses: Vec<Hash160>,
    require_first_n: u8,
    threshold: u8,
    hash: Hash160,
}

impl MultisigDescriptor {
    pub closed spec fn script(&self) -> MultisigScript {
        self.script
    }

    pub closed spec fn keys(&self) -> Seq<Hash160> {
        self.sighash_addresses@
    }

    pub closed spec fn require_first_n(&self) -> u8 {
        self.require_first_n
    }

    pub closed spec fn threshold(&self) -> u8 {
        self.threshold
    }

    /// The hash the descriptor was made with.
    pub closed spec fn spec_hash160(&self) -> Hash160 {
        self.hash
    }

    /// Validity: the descriptor is admissible and carries its own hash.
    pub open spec fn wf(&self) -> bool {
        &&& admissible(key_hashes(self.keys()), self.require_first_n(), self.threshold())
        &&& self.spec_hash160()@ == descriptor_hash(
            self.script(),
            key_hashes(self.keys()),
            self.require_first_n(),
            self.threshold(),
        )
    }

    /// Makes a descriptor, or `None` where it is not admissible.
    pub fn new_with(
        script: MultisigScript,
        sighash_addresses: Vec<Hash160>,
        require_first_n: u8,
        threshold: u8,
    ) -> (made: Option<MultisigDescriptor>)
        ensures
            made is Some <==> admissible(key_hashes(sighash_addresses@), require_first_n, threshold),
            made matches Some(d) ==> {
                &&& d.wf()
                &&& d.script() == script
                &&& d.keys() == sighash_addresses@
                &&& d.require_first_n() == require_first_n
                &&& d.threshold() == threshold
            },
    {
        match multisig_hash160(script, &sighash_addresses, require_first_n, threshold) {
            Some(hash) => Some(
                MultisigDescriptor { script, sighash_addresses, require_first_n, threshold, hash },
            ),
            None => None,
        }
    }

    /// The descriptor of a single key of which one signature is needed.
    pub fn single(script: MultisigScript, key: Hash160) -> (made: MultisigDescriptor)
        ensures
            made.wf(),
            made.script() == script,
            made.keys() == seq![key],
            made.require_first_n() == 0,
            made.threshold() == 1,
    {
        let mut keys: Vec<Hash160> = Vec::new();
        keys.push(key);
        proof {
            assert(keys@ =~= seq![key]);
            assert(key_hashes(keys@).len() == 1);
        }
        match MultisigDescriptor::new_with(script, keys, 0, 1) {
            Some(d) => d,
            None => vstd::pervasive::unreached(),
        }
    }

    /// True when two descriptors agree in every part.
    pub open spec fn same_as(&self, other: MultisigDescriptor) -> bool {
        &&& self.script() == other.script()
        &&& self.keys() == other.keys()
        &&& self.require_first_n() == other.require_first_n()
        &&& self.threshold() == other.threshold()
        &&& self.spec_hash160() == other.spec_hash160()
    }

    /// A copy of the descriptor.
    pub fn copy(&self) -> (made: MultisigDescriptor)
        ensures
            made.same_as(*self),
            self.wf() ==> made.wf(),
    {
        let mut keys: Vec<Hash160> = Vec::new();
        let mut i: usize = 0;
        while i < self.sighash_addresses.len()
            invariant
                i <= self.sighash_addresses@.len(),
                keys@ == self.sighash_addresses@.take(i as int),
            decreases self.sighash_addresses@.len() - i,
        {
            keys.push(self.sighash_addresses[i]);
            proof {
                assert(self.sighash_addresses@.take(i + 1) =~= self.sighash_addresses@.take(
                    i as int,
                ).push(self.sighash_addresses@[i as int]));
            }
            i += 1;
        }
        proof {
            assert(self.sighash_addresses@.take(i as int) =~= self.sighash_addresses@);
        }
        MultisigDescriptor {
            script: self.script,
            sighash_addresses: keys,
            require_first_n: self.require_first_n,
            threshold: self.threshold,
            hash: self.hash,
        }
    }

    /// The 20-byte hash that a multisig lock carries of this descriptor.
    pub fn hash160(&self) -> (hash: Hash160)
        ensures
            hash == self.spec_hash160(),
    {
        self.hash
    }

    /// The key hashes that may sign.
    pub fn sighash_addresses(&self) -> (keys: &Vec<Hash160>)
        ensures
            keys@ == self.keys(),
    {
        &self.sighash_addresses
    }

    pub fn get_threshold(&self) -> (t: u8)
        ensures
            t == self.threshold(),
    {
        self.threshold
    }

    pub fn get_require_first_n(&self) -> (n: u8)
        ensures
            n == self.require_first_n(),
    {
        self.require_first_n
    }

    pub fn get_script(&self) -> (s: MultisigScript)
        ensures
            s == self.script(),
    {
        self.script
    }
}

} // verus!
