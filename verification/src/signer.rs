//! The signer bridge: it decides which key signs for an input, the primary
//! key or one of the derived keys, and leaves the signing to the key store.

use vstd::prelude::*;
use crate::derive::{DerivationPath, DerivedKey, DerivedKeySet};
use crate::error::TransferError;
use crate::hash::{Hash160, Hash256};

verus! {

/// Length of a recoverable signature in bytes.
pub const SIGNATURE_SIZE: usize = 65;

/// A recoverable signature.
#[derive(Clone, Copy, Debug, PartialEq, Eq)]
pub struct Signature {
    pub bytes: [u8; 65],
}

impl Signature {
    /// True when every byte is zero.
    pub open spec fn all_zero(&self) -> bool {
        forall|i: int| 0 <= i < 65 ==> self.bytes[i] == 0
    }

    /// The signature of zeros that stands in where no real one is needed.
    pub fn placeholder() -> (s: Signature)
        ensures
            s.all_zero(),
    {
        Signature { bytes: [0u8; 65] }
    }
}

/// The derived keys known to a transfer: for each key hash the path of its
/// key. A hash is held once; a later entry for it replaces the earlier.
pub struct PathRegistry {
    entries: Vec<DerivedKey>,
}

impl View for PathRegistry {
    type V = Map<Hash160, DerivationPath>;

    closed spec fn view(&self) -> Map<Hash160, DerivationPath> {
        Map::new(
            |h: Hash160| exists|i: int| 0 <= i < self.entries@.len() && self.entries@[i].hash == h,
            |h: Hash160|
                self.entries@[choose|i: int|
                    0 <= i < self.entries@.len() && self.entries@[i].hash == h].path,
        )
    }
}

impl PathRegistry {
    /// Validity: no hash is held twice.
    pub closed spec fn wf(&self) -> bool {
        forall|i: int, j: int|
            0 <= i < j < self.entries@.len() ==> self.entries@[i].hash != self.entries@[j].hash
    }

    proof fn lemma_entry(&self, i: int)
        requires
            self.wf(),
            0 <= i < self.entries@.len(),
        ensures
            self@.dom().contains(self.entries@[i].hash),
            self@[self.entries@[i].hash] == self.entries@[i].path,
    {
        let h = self.entries@[i].hash;
        let k = choose|k: int| 0 <= k < self.entries@.len() && self.entries@[k].hash == h;
        assert(k == i);
    }

    /// A registry that knows no key.
    pub fn new() -> (registry: PathRegistry)
        ensures
            registry.wf(),
            registry@ == Map::<Hash160, DerivationPath>::empty(),
    {
        let registry = PathRegistry { entries: Vec::new() };
        assert(registry@ =~= Map::<Hash160, DerivationPath>::empty());
        registry
    }

    fn position(&self, hash: &Hash160) -> (at: Option<usize>)
        requires
            self.wf(),
        ensures
            at is Some <==> self@.dom().contains(*hash),
            at matches Some(i) ==> i < self.entries@.len() && self.entries@[i as int].hash == *hash,
    {
        let mut i: usize = 0;
        while i < self.entries.len()
            invariant
                i <= self.entries@.len(),
                forall|j: int| 0 <= j < i ==> self.entries@[j].hash != *hash,
            decreases self.entries@.len() - i,
        {
            if self.entries[i].hash == *hash {
                return Some(i);
            }
            i += 1;
        }
        None
    }

    /// The path of the key with this hash, if the registry knows it.
    pub fn get(&self, hash: &Hash160) -> (path: Option<DerivationPath>)
        requires
            self.wf(),
        ensures
            path == if self@.dom().contains(*hash) {
                Some(self@[*hash])
            } else {
                None
            },
    {
        match self.position(hash) {
            Some(i) => {
                proof {
                    self.lemma_entry(i as int);
                }
                Some(self.entries[i].path)
            },
            None => None,
        }
    }

    /// Records the path of a key, in place of any path held for its hash.
    pub fn insert(&mut self, hash: Hash160, path: DerivationPath)
        requires
            old(self).wf(),
        ensures
            final(self).wf(),
            final(self)@ == old(self)@.insert(hash, path),
    {
        let entry = DerivedKey { path, hash };
        let ghost before = *self;
        match self.position(&hash) {
            Some(i) => {
                self.entries[i] = entry;
                proof {
                    assert(self.wf());
                    assert forall|h: Hash160|
                        self@.dom().contains(h) == before@.insert(hash, path).dom().contains(
                            h,
                        ) by {
                        if self@.dom().contains(h) {
                            let k = choose|k: int|
                                0 <= k < self.entries@.len() && self.entries@[k].hash == h;
                            assert(before.entries@[k].hash == h);
                        }
                        if before@.dom().contains(h) {
                            let k = choose|k: int|
                                0 <= k < before.entries@.len() && before.entries@[k].hash == h;
                            assert(self.entries@[k].hash == h);
                        }
                        if h == hash {
                            assert(self.entries@[i as int].hash == h);
                        }
                    }
                    assert forall|h: Hash160| self@.dom().contains(h) implies self@[h]
                        == before@.insert(hash, path)[h] by {
                        let k = choose|k: int|
                            0 <= k < self.entries@.len() && self.entries@[k].hash == h;
                        self.lemma_entry(k);
                        if h != hash {
                            assert(k != i);
                            before.lemma_entry(k);
                        }
                    }
                    assert(self@ =~= before@.insert(hash, path));
                }
            },
            None => {
                self.entries.push(entry);
                proof {
                    let n = before.entries@.len() as int;
                    assert(self.wf());
                    assert forall|h: Hash160|
                        self@.dom().contains(h) == before@.insert(hash, path).dom().contains(
                            h,
                        ) by {
                        if self@.dom().contains(h) {
                            let k = choose|k: int|
                                0 <= k < self.entries@.len() && self.entries@[k].hash == h;
                            if k < n {
                                assert(before.entries@[k].hash == h);
                            }
                        }
                        if before@.dom().contains(h) {
                            let k = choose|k: int|
                                0 <= k < before.entries@.len() && before.entries@[k].hash == h;
                            assert(self.entries@[k].hash == h);
                        }
                        if h == hash {
                            assert(self.entries@[n].hash == h);
                        }
                    }
                    assert forall|h: Hash160| self@.dom().contains(h) implies self@[h]
                        == before@.insert(hash, path)[h] by {
                        let k = choose|k: int|
                            0 <= k < self.entries@.len() && self.entries@[k].hash == h;
                        self.lemma_entry(k);
                        if h != hash {
                            assert(k < n);
                            before.lemma_entry(k);
                        }
                    }
                    assert(self@ =~= before@.insert(hash, path));
                }
            },
        }
    }

    /// A copy of the registry.
    pub fn copy(&self) -> (made: PathRegistry)
        ensures
            made@ == self@,
            self.wf() ==> made.wf(),
    {
        let mut entries: Vec<DerivedKey> = Vec::new();
        let mut i: usize = 0;
        while i < self.entries.len()
            invariant
                i <= self.entries@.len(),
                entries@ == self.entries@.take(i as int),
            decreases self.entries@.len() - i,
        {
            entries.push(self.entries[i]);
            proof {
                assert(self.entries@.take(i + 1) =~= self.entries@.take(i as int).push(
                    self.entries@[i as int],
                ));
            }
            i += 1;
        }
        proof {
            assert(self.entries@.take(i as int) =~= self.entries@);
        }
        let made = PathRegistry { entries };
        assert(made@ =~= self@);
        made
    }

    /// Number of keys known.
    pub fn len(&self) -> (n: usize)
        ensures
            n == self.spec_len(),
    {
        self.entries.len()
    }

    pub closed spec fn spec_len(&self) -> nat {
        self.entries@.len()
    }
}

/// The registry after the keys of `keys`, in order, have been recorded in it.
pub open spec fn with_keys(
    registry: Map<Hash160, DerivationPath>,
    keys: Seq<DerivedKey>,
) -> Map<Hash160, DerivationPath>
    decreases keys.len(),
{
    if keys.len() == 0 {
        registry
    } else {
        with_keys(registry, keys.drop_last()).insert(keys.last().hash, keys.last().path)
    }
}

impl PathRegistry {
    /// Records every key of a set: the receiving keys, then the change keys.
    pub fn extend(&mut self, keys: &DerivedKeySet)
        requires
            old(self).wf(),
        ensures
            final(self).wf(),
            final(self)@ == with_keys(old(self)@, keys.all()),
    {
        let ghost start = self@;
        let mut i: usize = 0;
        while i < keys.external.len()
            invariant
                self.wf(),
                i <= keys.external@.len(),
                self@ == with_keys(start, keys.external@.take(i as int)),
            decreases keys.external@.len() - i,
        {
            proof {
                assert(keys.external@.take(i + 1).drop_last() =~= keys.external@.take(i as int));
            }
            self.insert(keys.external[i].hash, keys.external[i].path);
            i += 1;
        }
        proof {
            assert(keys.external@.take(i as int) =~= keys.external@);
            assert(keys.external@ + keys.change@.take(0) =~= keys.external@);
        }
        let mut j: usize = 0;
        while j < keys.change.len()
            invariant
                self.wf(),
                j <= keys.change@.len(),
                self@ == with_keys(start, keys.external@ + keys.change@.take(j as int)),
            decreases keys.change@.len() - j,
        {
            proof {
                assert((keys.external@ + keys.change@.take(j + 1)).drop_last() =~= keys.external@
                    + keys.change@.take(j as int));
            }
            self.insert(keys.change[j].hash, keys.change[j].path);
            j += 1;
        }
        proof {
            assert(keys.change@.take(j as int) =~= keys.change@);
        }
    }
}

/// A request to sign: the key hashes of which any one satisfies the lock, and
/// the digest to sign. The digest of zeros asks for no real signature.
#[derive(Clone, Debug, PartialEq, Eq)]
pub struct SigningRequest {
    pub candidates: Vec<Hash160>,
    pub digest: Hash256,
}

/// The key that signs for an input.
#[derive(Clone, Copy, Debug, PartialEq, Eq, Structural)]
pub enum SigningAuthority {
    /// The primary key of the account, at the root of its tree.
    PrimaryKey,
    /// The derived key at this path.
    DerivedKey(DerivationPath),
    /// No key of the account signs for the input.
    Unavailable,
}

/// What is to be done about one signing request.
#[derive(Clone, Copy, Debug, PartialEq, Eq, Structural)]
pub enum SigningPlan {
    /// No key of the account can sign: the answer is no signature, which is
    /// no error.
    NoSignature,
    /// The digest is the sentinel of zeros: the answer is the signature of
    /// zeros, and the key store is not asked.
    Placeholder,
    /// The key store is to sign the digest with this key.
    Sign(SigningAuthority),
}

/// The path of the first candidate that the registry knows.
pub open spec fn first_known(
    registry: Map<Hash160, DerivationPath>,
    candidates: Seq<Hash160>,
) -> Option<DerivationPath>
    decreases candidates.len(),
{
    if candidates.len() == 0 {
        None
    } else if registry.dom().contains(candidates[0]) {
        Some(registry[candidates[0]])
    } else {
        first_known(registry, candidates.drop_first())
    }
}

/// The key that signs for an input whose lock is satisfied by any one of
/// `candidates`: the primary key where the account itself is a candidate,
/// else the derived key of the first candidate that the registry knows.
pub open spec fn resolution(
    account: Hash160,
    registry: Map<Hash160, DerivationPath>,
    candidates: Seq<Hash160>,
) -> SigningAuthority {
    if candidates.contains(account) {
        SigningAuthority::PrimaryKey
    } else {
        match first_known(registry, candidates) {
            Some(path) => SigningAuthority::DerivedKey(path),
            None => SigningAuthority::Unavailable,
        }
    }
}

/// What is to be done about a signing request. The key is resolved first:
/// where none signs, the answer is no signature whatever the digest. Then the
/// sentinel digest is answered with the placeholder, and any other digest is
/// handed to the key store.
pub open spec fn signing_plan(
    account: Hash160,
    registry: Map<Hash160, DerivationPath>,
    candidates: Seq<Hash160>,
    digest: Hash256,
) -> SigningPlan {
    match resolution(account, registry, candidates) {
        SigningAuthority::Unavailable => SigningPlan::NoSignature,
        authority => if digest.all_zero() {
            SigningPlan::Placeholder
        } else {
            SigningPlan::Sign(authority)
        },
    }
}

/// No candidate is known exactly when none is found.
pub proof fn lemma_first_known(registry: Map<Hash160, DerivationPath>, candidates: Seq<Hash160>)
    ensures
        first_known(registry, candidates) is None <==> forall|i: int|
            0 <= i < candidates.len() ==> !registry.dom().contains(candidates[i]),
        first_known(registry, candidates) matches Some(path) ==> exists|i: int|
            0 <= i < candidates.len() && registry.dom().contains(candidates[i]) && registry[candidates[i]]
                == path && forall|j: int| 0 <= j < i ==> !registry.dom().contains(candidates[j]),
    decreases candidates.len(),
{
    if candidates.len() > 0 {
        let rest = candidates.drop_first();
        lemma_first_known(registry, rest);
        assert forall|i: int| 0 <= i < rest.len() implies rest[i] == candidates[i + 1] by {}
        if registry.dom().contains(candidates[0]) {
        } else {
            if first_known(registry, rest) is None {
                assert forall|i: int| 0 <= i < candidates.len() implies !registry.dom().contains(
                    candidates[i],
                ) by {
                    if i > 0 {
                        assert(rest[i - 1] == candidates[i]);
                    }
                }
            } else {
                let path = first_known(registry, rest).unwrap();
                let k = choose|k: int|
                    0 <= k < rest.len() && registry.dom().contains(rest[k]) && registry[rest[k]]
                        == path && forall|j: int|
                        0 <= j < k ==> !registry.dom().contains(rest[j]);
                assert(candidates[k + 1] == rest[k]);
                assert forall|j: int| 0 <= j < k + 1 implies !registry.dom().contains(
                    candidates[j],
                ) by {
                    if j > 0 {
                        assert(rest[j - 1] == candidates[j]);
                    }
                }
            }
        }
    }
}

/// Where exactly one candidate is known, and the account is none of them, its
/// key is the one that signs.
pub proof fn lemma_single_match(
    account: Hash160,
    registry: Map<Hash160, DerivationPath>,
    candidates: Seq<Hash160>,
    i: int,
)
    requires
        !candidates.contains(account),
        0 <= i < candidates.len(),
        registry.dom().contains(candidates[i]),
        forall|j: int|
            0 <= j < candidates.len() && registry.dom().contains(candidates[j]) ==> candidates[j]
                == candidates[i],
    ensures
        resolution(account, registry, candidates) == SigningAuthority::DerivedKey(
            registry[candidates[i]],
        ),
{
    lemma_first_known(registry, candidates);
}

/// The sentinel law. Where a key of the account signs for the candidates,
/// the digest of zeros is answered with the placeholder, whoever the
/// candidates are. Where none does, the answer is no signature, whatever the
/// digest.
pub proof fn lemma_sentinel_and_unknown(
    account: Hash160,
    registry: Map<Hash160, DerivationPath>,
    candidates: Seq<Hash160>,
    digest: Hash256,
)
    ensures
        digest.all_zero() && resolution(account, registry, candidates)
            != SigningAuthority::Unavailable ==> signing_plan(
            account,
            registry,
            candidates,
            digest,
        ) == SigningPlan::Placeholder,
        (!candidates.contains(account) && forall|i: int|
            0 <= i < candidates.len() ==> !registry.dom().contains(candidates[i]))
            ==> signing_plan(account, registry, candidates, digest) == SigningPlan::NoSignature,
{
    lemma_first_known(registry, candidates);
}

/// The signer bridge of one account.
pub struct SignerBridge {
    account: Hash160,
    registry: PathRegistry,
}

impl SignerBridge {
    pub closed spec fn account(&self) -> Hash160 {
        self.account
    }

    pub closed spec fn registry(&self) -> Map<Hash160, DerivationPath> {
        self.registry@
    }

    pub closed spec fn wf(&self) -> bool {
        self.registry.wf()
    }

    /// The bridge of an account with the derived keys known of it.
    pub fn new(account: Hash160, registry: PathRegistry) -> (bridge: SignerBridge)
        requires
            registry.wf(),
        ensures
            bridge.wf(),
            bridge.account() == account,
            bridge.registry() == registry@,
    {
        SignerBridge { account, registry }
    }

    /// The key that signs for an input whose lock any one of `candidates`
    /// satisfies.
    pub fn resolve(&self, candidates: &Vec<Hash160>) -> (authority: SigningAuthority)
        requires
            self.wf(),
        ensures
            authority == resolution(self.account(), self.registry(), candidates@),
    {
        let mut i: usize = 0;
        while i < candidates.len()
            invariant
                i <= candidates@.len(),
                forall|j: int| 0 <= j < i ==> candidates@[j] != self.account,
            decreases candidates@.len() - i,
        {
            if candidates[i] == self.account {
                return SigningAuthority::PrimaryKey;
            }
            i += 1;
        }
        let mut k: usize = 0;
        proof {
            assert(candidates@.skip(0) =~= candidates@);
        }
        while k < candidates.len()
            invariant
                self.wf(),
                k <= candidates@.len(),
                !candidates@.contains(self.account),
                first_known(self.registry@, candidates@) == first_known(
                    self.registry@,
                    candidates@.skip(k as int),
                ),
            decreases candidates@.len() - k,
        {
            proof {
                assert(candidates@.skip(k as int).drop_first() =~= candidates@.skip(k + 1));
            }
            match self.registry.get(&candidates[k]) {
                Some(path) => {
                    return SigningAuthority::DerivedKey(path);
                },
                None => {},
            }
            k += 1;
        }
        SigningAuthority::Unavailable
    }

    /// What is to be done about a signing request.
    pub fn plan(&self, request: &SigningRequest) -> (plan: SigningPlan)
        requires
            self.wf(),
        ensures
            plan == signing_plan(
                self.account(),
                self.registry(),
                request.candidates@,
                request.digest,
            ),
    {
        match self.resolve(&request.candidates) {
            SigningAuthority::Unavailable => SigningPlan::NoSignature,
            authority => {
                if request.digest.is_zero() {
                    SigningPlan::Placeholder
                } else {
                    SigningPlan::Sign(authority)
                }
            },
        }
    }
}

impl SigningPlan {
    /// The answer to a request that the key store is not asked about: no
    /// signature, or the placeholder. `None` where the key store must sign.
    pub fn answer(&self) -> (out: Option<Option<Signature>>)
        ensures
            match *self {
                SigningPlan::NoSignature => out == Some(None::<Signature>),
                SigningPlan::Placeholder => out matches Some(Some(s)) && s.all_zero(),
                SigningPlan::Sign(_) => out is None,
            },
    {
        match self {
            SigningPlan::NoSignature => Some(None),
            SigningPlan::Placeholder => Some(Some(Signature::placeholder())),
            SigningPlan::Sign(_) => None,
        }
    }

    /// The answer to a request that the key store was asked about: its
    /// signature, or its failure as it reported it.
    pub fn signed(outcome: Result<Signature, String>) -> (out: Result<Option<Signature>, TransferError>)
        ensures
            out == match outcome {
                Ok(s) => Ok::<Option<Signature>, TransferError>(Some(s)),
                Err(message) => Err(TransferError::KeyStoreFailure(message)),
            },
    {
        match outcome {
            Ok(s) => Ok(Some(s)),
            Err(message) => Err(TransferError::KeyStoreFailure(message)),
        }
    }
}

} // verus!
