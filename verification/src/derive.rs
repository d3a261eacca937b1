//! Address derivation: the keys of one account, laid out on two branches of
//! its key tree, and the expander that decides which of them a transfer or a
//! balance query looks at.

use vstd::prelude::*;
use crate::hash::Hash160;

verus! {

/// Largest number of change keys that a search for a change address derives.
pub const DERIVE_CHANGE_ADDRESS_MAX_LEN: u32 = 10000;

/// Number of receiving keys derived where the caller names none.
pub const DEFAULT_RECEIVING_ADDRESS_LENGTH: u32 = 1000;

/// Mark of a hardened component of a path.
pub const HARDENED: u32 = 0x8000_0000;

/// The branch of the key tree a key stands on.
#[derive(Clone, Copy, Debug, PartialEq, Eq, Structural)]
pub enum KeyChain {
    /// Keys handed out to receive payments.
    External,
    /// Keys that take the change of the account's own transfers.
    Change,
}

/// Where a key stands in the key tree of its account: its branch and its
/// index on that branch.
#[derive(Clone, Copy, Debug, PartialEq, Eq, Structural)]
pub struct DerivationPath {
    pub chain: KeyChain,
    pub index: u32,
}

impl DerivationPath {
    /// The five components of the path from the root of the tree: purpose,
    /// coin and account, all three hardened, then branch and index.
    pub open spec fn spec_components(&self) -> Seq<u32> {
        seq![
            (44 + HARDENED) as u32,
            (309 + HARDENED) as u32,
            HARDENED,
            match self.chain {
                KeyChain::External => 0u32,
                KeyChain::Change => 1u32,
            },
            self.index,
        ]
    }

    /// The five components of the path from the root of the tree.
    pub fn components(&self) -> (out: [u32; 5])
        ensures
            out@ == self.spec_components(),
    {
        let branch: u32 = match self.chain {
            KeyChain::External => 0,
            KeyChain::Change => 1,
        };
        let out: [u32; 5] = [44 + HARDENED, 309 + HARDENED, HARDENED, branch, self.index];
        assert(out@ =~= self.spec_components());
        out
    }
}

/// A derived key: its place in the tree and its key hash.
#[derive(Clone, Copy, Debug, PartialEq, Eq)]
pub struct DerivedKey {
    pub path: DerivationPath,
    pub hash: Hash160,
}

/// The keys derived of one account, branch by branch, each branch in the
/// order of its indices.
#[derive(Clone, Debug, PartialEq, Eq)]
pub struct DerivedKeySet {
    pub external: Vec<DerivedKey>,
    pub change: Vec<DerivedKey>,
}

impl DerivedKeySet {
    /// True when each branch holds, at each position, the key of that index.
    pub open spec fn in_order(&self) -> bool {
        &&& forall|i: int|
            0 <= i < self.external@.len() ==> (#[trigger] self.external@[i]).path == (
            DerivationPath { chain: KeyChain::External, index: i as u32 })
        &&& forall|i: int|
            0 <= i < self.change@.len() ==> (#[trigger] self.change@[i]).path == (DerivationPath {
                chain: KeyChain::Change,
                index: i as u32,
            })
    }

    /// All keys of the set: the receiving keys, then the change keys.
    pub open spec fn all(&self) -> Seq<DerivedKey> {
        self.external@ + self.change@
    }
}

/// What the expander asks of its caller next.
#[derive(Clone, Copy, Debug, PartialEq, Eq, Structural)]
pub enum Expansion {
    /// Derive the key at this path and supply its hash.
    Derive(DerivationPath),
    /// The set is complete.
    Done,
    /// The change address searched for was not among the keys allowed.
    Failed,
}

/// Expands an account into the keys to look at. The expander decides which
/// key comes next and when to end; the caller, who holds the key material,
/// derives each key asked for and supplies its hash.
///
/// A bounded expansion takes the first keys of both branches, as many of each
/// as asked. An anchored expansion takes the first receiving keys, as many as
/// asked, and the change keys from the first up to the one with a given hash;
/// it fails when that key is not among the first `max_depth` change keys.
pub struct AddressDerivationExpander {
    receiving: u32,
    change_limit: u32,
    anchor: Option<Hash160>,
    keys: DerivedKeySet,
    reached: bool,
}

impl AddressDerivationExpander {
    /// Number of receiving keys asked for.
    pub closed spec fn receiving(&self) -> u32 {
        self.receiving
    }

    /// Number of change keys asked for, or allowed in a search.
    pub closed spec fn change_limit(&self) -> u32 {
        self.change_limit
    }

    /// The change address searched for, in an anchored expansion.
    pub closed spec fn anchor(&self) -> Option<Hash160> {
        self.anchor
    }

    /// The keys supplied so far.
    pub closed spec fn keys(&self) -> DerivedKeySet {
        self.keys
    }

    /// True when the last change key supplied is the one searched for.
    pub open spec fn reached(&self) -> bool {
        &&& self.anchor() matches Some(target)
        &&& self.keys().change@.len() > 0
        &&& self.keys().change@.last().hash == target
    }

    /// Validity. The keys stand in order; no change key is held before all
    /// receiving keys are; neither branch is longer than asked; and in a
    /// search no change key but the last can be the one searched for.
    pub closed spec fn wf(&self) -> bool {
        &&& self.keys.in_order()
        &&& self.keys.external@.len() <= self.receiving
        &&& self.keys.change@.len() <= self.change_limit
        &&& self.keys.change@.len() > 0 ==> self.keys.external@.len() == self.receiving
        &&& self.reached == self.reached()
        &&& self.anchor matches Some(target) ==> forall|i: int|
            0 <= i < self.keys.change@.len() - 1 ==> (#[trigger] self.keys.change@[i]).hash
                != target
    }

    /// What the expander asks for in a given state.
    pub open spec fn spec_next(&self) -> Expansion {
        let external = self.keys().external@.len();
        let change = self.keys().change@.len();
        if external < self.receiving() {
            Expansion::Derive(DerivationPath { chain: KeyChain::External, index: external as u32 })
        } else if self.reached() {
            Expansion::Done
        } else if change < self.change_limit() {
            Expansion::Derive(DerivationPath { chain: KeyChain::Change, index: change as u32 })
        } else if self.anchor() is Some {
            Expansion::Failed
        } else {
            Expansion::Done
        }
    }

    /// A bounded expansion: `receiving` keys of the receiving branch and
    /// `change` keys of the change branch, both from index zero.
    pub fn bounded(receiving: u32, change: u32) -> (expander: AddressDerivationExpander)
        ensures
            expander.wf(),
            expander.receiving() == receiving,
            expander.change_limit() == change,
            expander.anchor() is None,
            expander.keys().external@.len() == 0,
            expander.keys().change@.len() == 0,
    {
        AddressDerivationExpander {
            receiving,
            change_limit: change,
            anchor: None,
            keys: DerivedKeySet { external: Vec::new(), change: Vec::new() },
            reached: false,
        }
    }

    /// An anchored expansion: `receiving` keys of the receiving branch, and
    /// the change keys up to the one whose hash is `target`, which must be
    /// among the first `max_depth`.
    pub fn anchored(receiving: u32, target: Hash160, max_depth: u32) -> (expander:
        AddressDerivationExpander)
        ensures
            expander.wf(),
            expander.receiving() == receiving,
            expander.change_limit() == max_depth,
            expander.anchor() == Some(target),
            expander.keys().external@.len() == 0,
            expander.keys().change@.len() == 0,
    {
        AddressDerivationExpander {
            receiving,
            change_limit: max_depth,
            anchor: Some(target),
            keys: DerivedKeySet { external: Vec::new(), change: Vec::new() },
            reached: false,
        }
    }

    /// What the expander asks for next.
    pub fn next(&self) -> (step: Expansion)
        requires
            self.wf(),
        ensures
            step == self.spec_next(),
    {
        if self.keys.external.len() < self.receiving as usize {
            Expansion::Derive(
                DerivationPath { chain: KeyChain::External, index: self.keys.external.len() as u32 },
            )
        } else if self.reached {
            Expansion::Done
        } else if self.keys.change.len() < self.change_limit as usize {
            Expansion::Derive(
                DerivationPath { chain: KeyChain::Change, index: self.keys.change.len() as u32 },
            )
        } else if self.anchor.is_some() {
            Expansion::Failed
        } else {
            Expansion::Done
        }
    }

    /// Takes the hash of the key that was asked for. The key joins its
    /// branch at the path asked for. Where no key was asked for, nothing
    /// changes and `false` is returned.
    pub fn supply(&mut self, hash: Hash160) -> (taken: bool)
        requires
            old(self).wf(),
        ensures
            final(self).wf(),
            final(self).receiving() == old(self).receiving(),
            final(self).change_limit() == old(self).change_limit(),
            final(self).anchor() == old(self).anchor(),
            match old(self).spec_next() {
                Expansion::Derive(path) => {
                    &&& taken
                    &&& path.chain == KeyChain::External ==> {
                        &&& final(self).keys().external@ == old(self).keys().external@.push(
                            DerivedKey { path, hash },
                        )
                        &&& final(self).keys().change@ == old(self).keys().change@
                    }
                    &&& path.chain == KeyChain::Change ==> {
                        &&& final(self).keys().change@ == old(self).keys().change@.push(
                            DerivedKey { path, hash },
                        )
                        &&& final(self).keys().external@ == old(self).keys().external@
                    }
                },
                _ => !taken && final(self).keys() == old(self).keys(),
            },
    {
        match self.next() {
            Expansion::Derive(path) => {
                let key = DerivedKey { path, hash };
                match path.chain {
                    KeyChain::External => {
                        self.keys.external.push(key);
                    },
                    KeyChain::Change => {
                        self.keys.change.push(key);
                        self.reached = match self.anchor {
                            Some(target) => hash == target,
                            None => false,
                        };
                    },
                }
                true
            },
            _ => false,
        }
    }

    /// Hands out the keys once the set is complete. `None` while keys are
    /// still asked for, and when the search has failed.
    pub fn finish(self) -> (set: Option<DerivedKeySet>)
        requires
            self.wf(),
        ensures
            set is Some <==> self.spec_next() == Expansion::Done,
            set matches Some(s) ==> {
                &&& s == self.keys()
                &&& s.in_order()
                &&& s.external@.len() == self.receiving()
                &&& self.anchor() is None ==> s.change@.len() == self.change_limit()
                &&& self.anchor() matches Some(target) ==> {
                    &&& 1 <= s.change@.len() <= self.change_limit()
                    &&& s.change@.last().hash == target
                    &&& forall|i: int|
                        0 <= i < s.change@.len() - 1 ==> (#[trigger] s.change@[i]).hash != target
                }
            },
    {
        match self.next() {
            Expansion::Done => Some(self.keys),
            _ => None,
        }
    }
}

} // verus!
