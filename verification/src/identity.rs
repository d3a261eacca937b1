//! Resolving identities: from the keys that fund a transfer to the locks whose
//! cells are searched, in the order they are searched, and to the keys that
//! sign for each.

use vstd::prelude::*;
use crate::derive::{DerivedKey, DerivedKeySet};
use crate::error::{Mismatch, TransferError, ValidationError};
use crate::hash::{Hash160, LockIdentity};
use crate::key::public_key_hash;
use crate::locked::{key_guards, violation, LockedSourceDescriptor, LockedSourceValidator};
use crate::multisig::MultisigDescriptor;
use crate::request::TransferRequest;
use crate::script::{script_hash, LockScript, HASH_TYPE_TYPE, SIGHASH_TYPE_HASH};
use crate::signer::{with_keys, PathRegistry, SignerBridge};

verus! {

/// One lock to search: the lock, the identity under which its cells are
/// found, and the key hashes of which any one signs for it.
#[derive(Clone, Debug, PartialEq, Eq)]
pub struct SearchEntry {
    pub lock: LockScript,
    pub identity: LockIdentity,
    pub candidates: Vec<Hash160>,
}

/// The identity of the single-key lock over a key hash.
pub open spec fn sighash_identity(key: Hash160) -> Seq<u8> {
    script_hash(SIGHASH_TYPE_HASH@, HASH_TYPE_TYPE, key@)
}

/// True for the entry of the single-key lock over `key`.
pub open spec fn entry_of_key(entry: SearchEntry, key: Hash160) -> bool {
    &&& entry.lock.parts() == LockScript::spec_sighash(key)
    &&& entry.identity@ == sighash_identity(key)
    &&& entry.candidates@ == seq![key]
}

/// Why the funding key of a request cannot be had, if it cannot.
pub open spec fn key_failure(request: TransferRequest) -> Option<TransferError> {
    match request.raw_key {
        Some(key) => if public_key_hash(key.bytes@) is None {
            Some(TransferError::InputValidation(ValidationError::InvalidSecretKey))
        } else {
            None
        },
        None => if request.account is None {
            Some(TransferError::InputValidation(ValidationError::NoFundingSource))
        } else {
            None
        },
    }
}

/// The key hash of the funding key: that of the raw key where one is given,
/// else the account's.
pub open spec fn primary_key(request: TransferRequest) -> Seq<u8> {
    match request.raw_key {
        Some(key) => public_key_hash(key.bytes@).unwrap(),
        None => request.account.unwrap()@,
    }
}

/// True when the derived keys end at the change address that the request
/// names.
pub open spec fn anchored_at(derived: Option<DerivedKeySet>, change_address: LockScript) -> bool {
    &&& derived matches Some(set)
    &&& set.change@.len() > 0
    &&& set.change@.last().hash@ == change_address.args@
}

/// The derived keys that take part in a transfer: those handed in where the
/// request names a change address, none where it does not.
pub open spec fn keys_in_use(request: TransferRequest, derived: Option<DerivedKeySet>) -> Seq<
    DerivedKey,
> {
    if request.change_address is Some && derived is Some {
        derived.unwrap().all()
    } else {
        Seq::empty()
    }
}

/// The key hashes that may guard a locked source: the funding key first, then
/// the derived keys in their order.
pub open spec fn guard_candidates(primary: Seq<u8>, keys: Seq<DerivedKey>) -> Seq<Seq<u8>> {
    seq![primary] + keys.map_values(|k: DerivedKey| k.hash@)
}

/// True when `key` is the first of the candidates that guards the locked
/// source with the hash `wanted`.
pub open spec fn is_first_guard(candidates: Seq<Seq<u8>>, wanted: Seq<u8>, key: Seq<u8>) -> bool {
    exists|p: int|
        0 <= p < candidates.len() && #[trigger] candidates[p] == key && key_guards(key, wanted)
            && forall|j: int| 0 <= j < p ==> !key_guards(candidates[j], wanted)
}

/// Why the keys of a request cannot be resolved, if they cannot: the funding
/// key must be had, and where a change address is named the derived keys must
/// end at it.
pub open spec fn keys_failure(request: TransferRequest, derived: Option<DerivedKeySet>) -> Option<
    TransferError,
> {
    if key_failure(request) is Some {
        key_failure(request)
    } else if request.change_address is Some && !anchored_at(
        derived,
        request.change_address.unwrap(),
    ) {
        Some(TransferError::ConfigurationMismatch(Mismatch::ChangeAddressNotFound))
    } else {
        None
    }
}

/// Why the identities of a request cannot be resolved, if they cannot. The
/// funding key must be had; where a change address is named the derived keys
/// must end at it; the arguments of a locked source must decode, and one of
/// the keys must guard it. The first failure in this order is the one
/// reported.
pub open spec fn resolve_failure(request: TransferRequest, derived: Option<DerivedKeySet>) -> Option<
    TransferError,
> {
    if keys_failure(request, derived) is Some {
        keys_failure(request, derived)
    } else if request.locked_source is Some {
        let args = request.locked_source.unwrap().args@;
        let candidates = guard_candidates(primary_key(request), keys_in_use(request, derived));
        if violation(args) is Some {
            Some(TransferError::InputValidation(ValidationError::LockedSource(violation(args).unwrap())))
        } else if forall|i: int|
            0 <= i < candidates.len() ==> !key_guards(candidates[i], args.subrange(0, 20)) {
            Some(TransferError::ConfigurationMismatch(Mismatch::LockedSourceNotFromKeys))
        } else {
            None
        }
    } else {
        None
    }
}

/// The identities of a transfer.
pub struct Identities {
    /// Key hash of the funding key.
    pub primary: Hash160,
    /// The locks to search, in the order of the search.
    pub entries: Vec<SearchEntry>,
    /// The derived keys that take part, by key hash.
    pub registry: PathRegistry,
    /// The lock that takes the change.
    pub change_lock: LockScript,
    /// The descriptor that guards the locked source, where there is one.
    pub multisig: Option<MultisigDescriptor>,
}

impl Identities {
    pub open spec fn wf(&self) -> bool {
        &&& self.registry.wf()
        &&& self.multisig matches Some(d) ==> d.wf()
    }

    /// The signer bridge of these identities: it signs with the funding key
    /// and with the derived keys that take part.
    pub fn signer(&self) -> (bridge: SignerBridge)
        requires
            self.wf(),
        ensures
            bridge.wf(),
            bridge.account() == self.primary,
            bridge.registry() == self.registry@,
    {
        SignerBridge::new(self.primary, self.registry.copy())
    }

    /// The identities to search, in order.
    pub fn locks(&self) -> (locks: Vec<LockIdentity>)
        ensures
            locks@ == self.entries@.map_values(|e: SearchEntry| e.identity),
    {
        let mut locks: Vec<LockIdentity> = Vec::new();
        let mut i: usize = 0;
        while i < self.entries.len()
            invariant
                i <= self.entries@.len(),
                locks@ == self.entries@.take(i as int).map_values(|e: SearchEntry| e.identity),
            decreases self.entries@.len() - i,
        {
            locks.push(self.entries[i].identity);
            proof {
                assert(self.entries@.take(i + 1) =~= self.entries@.take(i as int).push(
                    self.entries@[i as int],
                ));
                assert(self.entries@.take(i + 1).map_values(|e: SearchEntry| e.identity)
                    =~= self.entries@.take(i as int).map_values(|e: SearchEntry| e.identity).push(
                    self.entries@[i as int].identity,
                ));
            }
            i += 1;
        }
        proof {
            assert(self.entries@.take(i as int) =~= self.entries@);
        }
        locks
    }
}

/// What holds of the identities resolved of a request.
///
/// The search goes through the locked source first, where there is one, then
/// through the single-key lock of the funding key, then through those of the
/// derived keys, receiving keys before change keys. Each lock is searched
/// under its identity and signed for by its own key; the locked source is
/// signed for by the key that guards it. The change goes to the change
/// address named, else back to the funding key.
pub open spec fn resolved(
    request: TransferRequest,
    derived: Option<DerivedKeySet>,
    ids: Identities,
) -> bool {
    let keys = keys_in_use(request, derived);
    &&& ids.wf()
    &&& ids.primary@ == primary_key(request)
    &&& resolve_failure(request, derived) is None
    &&& ids.registry@ == with_keys(Map::empty(), keys)
    &&& ids.change_lock.parts() == match request.change_address {
        Some(c) => c.parts(),
        None => LockScript::spec_sighash(ids.primary),
    }
    &&& ids.multisig is Some <==> request.locked_source is Some
    &&& request.locked_source is None ==> {
        &&& ids.entries@.len() == 1 + keys.len()
        &&& entry_of_key(ids.entries@[0], ids.primary)
        &&& forall|i: int|
            0 <= i < keys.len() ==> entry_of_key(ids.entries@[1 + i], (#[trigger] keys[i]).hash)
    }
    &&& request.locked_source matches Some(locked) ==> {
        let d = ids.multisig.unwrap();
        &&& ids.entries@.len() == 2 + keys.len()
        &&& ids.entries@[0].lock.parts() == locked.parts()
        &&& ids.entries@[0].identity@ == locked.spec_identity()
        &&& ids.entries@[0].candidates@ == d.keys()
        &&& entry_of_key(ids.entries@[1], ids.primary)
        &&& forall|i: int|
            0 <= i < keys.len() ==> entry_of_key(ids.entries@[2 + i], (#[trigger] keys[i]).hash)
        &&& d.spec_hash160()@ == locked.args@.subrange(0, 20)
        &&& d.keys().len() == 1
        &&& is_first_guard(
            guard_candidates(ids.primary@, keys),
            locked.args@.subrange(0, 20),
            d.keys()[0]@,
        )
        &&& d.require_first_n() == 0 && d.threshold() == 1
    }
}

fn key_entry(key: Hash160) -> (entry: SearchEntry)
    ensures
        entry_of_key(entry, key),
{
    let lock = LockScript::sighash(&key);
    let mut candidates: Vec<Hash160> = Vec::new();
    candidates.push(key);
    assert(candidates@ =~= seq![key]);
    let identity = lock.identity();
    SearchEntry { lock, identity, candidates }
}

/// Resolves the keys of a request: the funding key and the derived keys that
/// take part, with the single-key locks to search and the lock that takes the
/// change. Hands out beside them the key hashes that may guard a locked
/// source.
fn resolve_keys(request: &TransferRequest, derived: Option<&DerivedKeySet>) -> (out: Result<
    (Identities, Vec<Hash160>),
    TransferError,
>)
    ensures
        match out {
            Ok((ids, candidates)) => {
                let keys = keys_in_use(*request, derived_value(derived));
                &&& ids.wf()
                &&& keys_failure(*request, derived_value(derived)) is None
                &&& ids.primary@ == primary_key(*request)
                &&& ids.registry@ == with_keys(Map::empty(), keys)
                &&& ids.change_lock.parts() == match request.change_address {
                    Some(c) => c.parts(),
                    None => LockScript::spec_sighash(ids.primary),
                }
                &&& ids.multisig is None
                &&& ids.entries@.len() == 1 + keys.len()
                &&& entry_of_key(ids.entries@[0], ids.primary)
                &&& forall|i: int|
                    0 <= i < keys.len() ==> entry_of_key(
                        ids.entries@[1 + i],
                        (#[trigger] keys[i]).hash,
                    )
                &&& candidates@.map_values(|h: Hash160| h@) == guard_candidates(ids.primary@, keys)
            },
            Err(e) => keys_failure(*request, derived_value(derived)) == Some(e),
        },
{
    let primary = match &request.raw_key {
        Some(key) => match key.key_hash() {
            Some(hash) => hash,
            None => {
                return Err(TransferError::InputValidation(ValidationError::InvalidSecretKey));
            },
        },
        None => match request.account {
            Some(hash) => hash,
            None => {
                return Err(TransferError::InputValidation(ValidationError::NoFundingSource));
            },
        },
    };
    let ghost keys = keys_in_use(*request, derived_value(derived));
    let mut registry = PathRegistry::new();
    let mut entries: Vec<SearchEntry> = Vec::new();
    let mut candidates: Vec<Hash160> = Vec::new();
    entries.push(key_entry(primary));
    candidates.push(primary);
    let change_lock = match &request.change_address {
        Some(change) => {
            let anchored = match derived {
                Some(set) => set.change.len() > 0 && vec_same(
                    &set.change[set.change.len() - 1].hash.to_vec(),
                    &change.args,
                ),
                None => false,
            };
            if !anchored {
                return Err(TransferError::ConfigurationMismatch(Mismatch::ChangeAddressNotFound));
            }
            let set = derived.unwrap();
            registry.extend(set);
            append_entries(&mut entries, &mut candidates, &set.external);
            append_entries(&mut entries, &mut candidates, &set.change);
            change.clone_script()
        },
        None => LockScript::sighash(&primary),
    };
    proof {
        assert(candidates@.map_values(|h: Hash160| h@) =~= guard_candidates(primary@, keys));
    }
    Ok((Identities { primary, entries, registry, change_lock, multisig: None }, candidates))
}

/// Resolves the identities of a request. `derived` holds the keys derived of
/// the account, which the caller obtains from the key store where the
/// request names a change address.
pub fn resolve_identities(request: &TransferRequest, derived: Option<&DerivedKeySet>) -> (out: Result<
    Identities,
    TransferError,
>)
    ensures
        match out {
            Ok(ids) => resolved(*request, derived_value(derived), ids),
            Err(e) => resolve_failure(*request, derived_value(derived)) == Some(e),
        },
{
    let (mut ids, candidates) = match resolve_keys(request, derived) {
        Ok(pair) => pair,
        Err(e) => {
            return Err(e);
        },
    };
    let ghost keys = keys_in_use(*request, derived_value(derived));
    let ghost all = guard_candidates(ids.primary@, keys);
    match &request.locked_source {
        Some(locked) => {
            let descriptor = match LockedSourceDescriptor::decode(locked.args.as_slice()) {
                Ok(d) => d,
                Err(e) => {
                    return Err(TransferError::InputValidation(ValidationError::LockedSource(e)));
                },
            };
            proof {
                assert forall|i: int| 0 <= i < all.len() implies all[i] == candidates@[i]@ by {
                    assert(candidates@.map_values(|h: Hash160| h@)[i] == candidates@[i]@);
                }
            }
            match LockedSourceValidator::bind(&descriptor, &candidates) {
                Some(bound) => {
                    let mut guards: Vec<Hash160> = Vec::new();
                    guards.push(candidates[bound.position]);
                    proof {
                        assert(guards@ =~= bound.descriptor.keys());
                        let at = bound.position as int;
                        assert(all[at] == candidates@[at]@);
                        assert(key_guards(all[at], locked.args@.subrange(0, 20)));
                        assert(is_first_guard(
                            all,
                            locked.args@.subrange(0, 20),
                            candidates@[at]@,
                        ));
                    }
                    let ghost before = ids.entries@;
                    ids.entries.insert(
                        0,
                        SearchEntry {
                            lock: locked.clone_script(),
                            identity: locked.identity(),
                            candidates: guards,
                        },
                    );
                    proof {
                        assert forall|i: int| 0 <= i < keys.len() implies entry_of_key(
                            ids.entries@[2 + i],
                            (#[trigger] keys[i]).hash,
                        ) by {
                            assert(ids.entries@[2 + i] == before[1 + i]);
                        }
                    }
                    ids.multisig = Some(bound.descriptor);
                    Ok(ids)
                },
                None => Err(TransferError::ConfigurationMismatch(Mismatch::LockedSourceNotFromKeys)),
            }
        },
        None => Ok(ids),
    }
}

/// The key set behind an optional reference.
pub open spec fn derived_value(derived: Option<&DerivedKeySet>) -> Option<DerivedKeySet> {
    match derived {
        Some(set) => Some(*set),
        None => None,
    }
}

/// True when two vectors hold the same bytes.
fn vec_same(a: &Vec<u8>, b: &Vec<u8>) -> (same: bool)
    ensures
        same == (a@ == b@),
{
    if a.len() != b.len() {
        return false;
    }
    let mut i: usize = 0;
    while i < a.len()
        invariant
            i <= a@.len(),
            a@.len() == b@.len(),
            forall|j: int| 0 <= j < i ==> a@[j] == b@[j],
        decreases a@.len() - i,
    {
        if a[i] != b[i] {
            return false;
        }
        i += 1;
    }
    assert(a@ =~= b@);
    true
}

/// Adds the single-key entries of some derived keys behind those held.
fn append_entries(entries: &mut Vec<SearchEntry>, candidates: &mut Vec<Hash160>, keys: &Vec<DerivedKey>)
    ensures
        final(entries)@.len() == old(entries)@.len() + keys@.len(),
        forall|i: int| 0 <= i < old(entries)@.len() ==> final(entries)@[i] == old(entries)@[i],
        forall|i: int|
            0 <= i < keys@.len() ==> entry_of_key(
                final(entries)@[old(entries)@.len() + i],
                (#[trigger] keys@[i]).hash,
            ),
        final(candidates)@ == old(candidates)@ + keys@.map_values(|k: DerivedKey| k.hash),
{
    let mut i: usize = 0;
    while i < keys.len()
        invariant
            i <= keys@.len(),
            entries@.len() == old(entries)@.len() + i,
            forall|j: int| 0 <= j < old(entries)@.len() ==> entries@[j] == old(entries)@[j],
            forall|j: int|
                0 <= j < i ==> entry_of_key(
                    entries@[old(entries)@.len() + j],
                    (#[trigger] keys@[j]).hash,
                ),
            candidates@ == old(candidates)@ + keys@.take(i as int).map_values(
                |k: DerivedKey| k.hash,
            ),
        decreases keys@.len() - i,
    {
        entries.push(key_entry(keys[i].hash));
        candidates.push(keys[i].hash);
        proof {
            assert(keys@.take(i + 1).map_values(|k: DerivedKey| k.hash) =~= keys@.take(
                i as int,
            ).map_values(|k: DerivedKey| k.hash).push(keys@[i as int].hash));
        }
        i += 1;
    }
    proof {
        assert(keys@.take(i as int) =~= keys@);
    }
}

} // verus!
