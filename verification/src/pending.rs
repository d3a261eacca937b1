//! The transaction in the making: inputs, outputs and the multisig
//! descriptors its inputs need. It only grows while it is assembled, and
//! nothing is added once it is sealed.

use vstd::prelude::*;
use crate::cell::{total_capacity, UnspentCellRecord};
use crate::hash::LockIdentity;
use crate::multisig::MultisigDescriptor;
use crate::script::LockScript;
use crate::signer::Signature;

verus! {

/// One input of a transaction: the cell it spends and the time lock it
/// carries, zero where the cell has none.
#[derive(Clone, Copy, Debug, PartialEq, Eq)]
pub struct TransactionInput {
    pub cell: UnspentCellRecord,
    pub since: u64,
}

/// The cells that inputs spend.
pub open spec fn input_cells(inputs: Seq<TransactionInput>) -> Seq<UnspentCellRecord> {
    inputs.map_values(|input: TransactionInput| input.cell)
}

/// True when `positions` are the places, in ascending order, of the inputs
/// that spend cells of the lock `identity`.
pub open spec fn is_group(
    inputs: Seq<TransactionInput>,
    identity: LockIdentity,
    positions: Seq<usize>,
) -> bool {
    &&& forall|k: int|
        0 <= k < positions.len() ==> (#[trigger] positions[k]) < inputs.len()
            && inputs[positions[k] as int].cell.lock_hash == identity
    &&& forall|a: int, b: int| 0 <= a < b < positions.len() ==> positions[a] < positions[b]
    &&& forall|i: usize|
        i < inputs.len() && inputs[i as int].cell.lock_hash == identity ==> positions.contains(i)
}

/// One output of a transaction.
#[derive(Clone, Debug, PartialEq, Eq)]
pub struct TransactionOutput {
    pub capacity: u64,
    pub lock: LockScript,
    pub data: Vec<u8>,
}

/// The signature for the inputs of one lock.
#[derive(Clone, Copy, Debug, PartialEq, Eq)]
pub struct LockSignature {
    pub identity: LockIdentity,
    pub signature: Signature,
}

/// Sum of the capacities of a sequence of outputs.
pub open spec fn output_capacity(outputs: Seq<TransactionOutput>) -> nat
    decreases outputs.len(),
{
    if outputs.len() == 0 {
        0
    } else {
        output_capacity(outputs.drop_last()) + outputs.last().capacity as nat
    }
}

/// A transaction in the making.
pub struct PendingTransaction {
    inputs: Vec<TransactionInput>,
    outputs: Vec<TransactionOutput>,
    multisig_configs: Vec<MultisigDescriptor>,
    signatures: Vec<LockSignature>,
    sealed: bool,
}

impl PendingTransaction {
    pub closed spec fn inputs(&self) -> Seq<TransactionInput> {
        self.inputs@
    }

    pub closed spec fn outputs(&self) -> Seq<TransactionOutput> {
        self.outputs@
    }

    pub closed spec fn multisig_configs(&self) -> Seq<MultisigDescriptor> {
        self.multisig_configs@
    }

    pub closed spec fn signatures(&self) -> Seq<LockSignature> {
        self.signatures@
    }

    /// True once the transaction takes no more additions.
    pub closed spec fn sealed(&self) -> bool {
        self.sealed
    }

    /// What the inputs hold beyond the outputs: the fee the transaction pays.
    pub open spec fn implied_fee(&self) -> int {
        total_capacity(input_cells(self.inputs())) - output_capacity(self.outputs())
    }

    /// True when `self` holds all that `earlier` held, in the same places.
    pub open spec fn extends(&self, earlier: PendingTransaction) -> bool {
        &&& earlier.inputs().len() <= self.inputs().len()
        &&& self.inputs().take(earlier.inputs().len() as int) == earlier.inputs()
        &&& earlier.outputs().len() <= self.outputs().len()
        &&& self.outputs().take(earlier.outputs().len() as int) == earlier.outputs()
        &&& earlier.multisig_configs().len() <= self.multisig_configs().len()
        &&& self.multisig_configs().take(earlier.multisig_configs().len() as int)
            == earlier.multisig_configs()
        &&& earlier.signatures().len() <= self.signatures().len()
        &&& self.signatures().take(earlier.signatures().len() as int) == earlier.signatures()
    }

    /// An empty transaction.
    pub fn new() -> (tx: PendingTransaction)
        ensures
            tx.inputs().len() == 0,
            tx.outputs().len() == 0,
            tx.multisig_configs().len() == 0,
            tx.signatures().len() == 0,
            !tx.sealed(),
    {
        PendingTransaction {
            inputs: Vec::new(),
            outputs: Vec::new(),
            multisig_configs: Vec::new(),
            signatures: Vec::new(),
            sealed: false,
        }
    }

    /// Adds an input. A sealed transaction takes none and stays as it is.
    pub fn add_input(&mut self, input: TransactionInput) -> (added: bool)
        ensures
            added == !old(self).sealed(),
            added ==> final(self).inputs() == old(self).inputs().push(input),
            !added ==> final(self).inputs() == old(self).inputs(),
            final(self).outputs() == old(self).outputs(),
            final(self).multisig_configs() == old(self).multisig_configs(),
            final(self).signatures() == old(self).signatures(),
            final(self).sealed() == old(self).sealed(),
            final(self).extends(*old(self)),
    {
        if self.sealed {
            proof {
                Self::lemma_extends_itself(*self);
            }
            return false;
        }
        self.inputs.push(input);
        proof {
            Self::lemma_take_all(*old(self));
            assert(self.inputs@.take(old(self).inputs@.len() as int) =~= old(self).inputs@);
        }
        true
    }

    /// Adds an output. A sealed transaction takes none and stays as it is.
    pub fn add_output(&mut self, output: TransactionOutput) -> (added: bool)
        ensures
            added == !old(self).sealed(),
            added ==> final(self).outputs() == old(self).outputs().push(output),
            !added ==> final(self).outputs() == old(self).outputs(),
            final(self).inputs() == old(self).inputs(),
            final(self).multisig_configs() == old(self).multisig_configs(),
            final(self).signatures() == old(self).signatures(),
            final(self).sealed() == old(self).sealed(),
            final(self).extends(*old(self)),
    {
        if self.sealed {
            proof {
                Self::lemma_extends_itself(*self);
            }
            return false;
        }
        self.outputs.push(output);
        proof {
            Self::lemma_take_all(*old(self));
            assert(self.outputs@.take(old(self).outputs@.len() as int) =~= old(self).outputs@);
        }
        true
    }

    /// Adds a multisig descriptor. A sealed transaction takes none and stays
    /// as it is.
    pub fn add_multisig_config(&mut self, config: MultisigDescriptor) -> (added: bool)
        ensures
            added == !old(self).sealed(),
            added ==> final(self).multisig_configs() == old(self).multisig_configs().push(config),
            !added ==> final(self).multisig_configs() == old(self).multisig_configs(),
            final(self).inputs() == old(self).inputs(),
            final(self).outputs() == old(self).outputs(),
            final(self).signatures() == old(self).signatures(),
            final(self).sealed() == old(self).sealed(),
            final(self).extends(*old(self)),
    {
        if self.sealed {
            proof {
                Self::lemma_extends_itself(*self);
            }
            return false;
        }
        self.multisig_configs.push(config);
        proof {
            Self::lemma_take_all(*old(self));
            assert(self.multisig_configs@.take(old(self).multisig_configs@.len() as int)
                =~= old(self).multisig_configs@);
        }
        true
    }

    /// Adds the signature for the inputs of one lock. A sealed transaction
    /// takes none and stays as it is.
    pub fn add_signature(&mut self, identity: LockIdentity, signature: Signature) -> (added: bool)
        ensures
            added == !old(self).sealed(),
            added ==> final(self).signatures() == old(self).signatures().push(
                LockSignature { identity, signature },
            ),
            !added ==> final(self).signatures() == old(self).signatures(),
            final(self).inputs() == old(self).inputs(),
            final(self).outputs() == old(self).outputs(),
            final(self).multisig_configs() == old(self).multisig_configs(),
            final(self).sealed() == old(self).sealed(),
            final(self).extends(*old(self)),
    {
        if self.sealed {
            proof {
                Self::lemma_extends_itself(*self);
            }
            return false;
        }
        self.signatures.push(LockSignature { identity, signature });
        proof {
            Self::lemma_take_all(*old(self));
            assert(self.signatures@.take(old(self).signatures@.len() as int) =~= old(self).signatures@);
        }
        true
    }

    /// Seals the transaction: from here on it takes no additions.
    pub fn seal(&mut self)
        ensures
            final(self).sealed(),
            final(self).inputs() == old(self).inputs(),
            final(self).outputs() == old(self).outputs(),
            final(self).multisig_configs() == old(self).multisig_configs(),
            final(self).signatures() == old(self).signatures(),
    {
        self.sealed = true;
    }

    /// The places of the inputs that spend cells of one lock, in ascending
    /// order. The witness of the first of them carries the signature for all.
    pub fn inputs_of(&self, identity: &LockIdentity) -> (positions: Vec<usize>)
        ensures
            is_group(self.inputs(), *identity, positions@),
    {
        let mut positions: Vec<usize> = Vec::new();
        let mut i: usize = 0;
        while i < self.inputs.len()
            invariant
                i <= self.inputs@.len(),
                forall|k: int|
                    0 <= k < positions@.len() ==> (#[trigger] positions@[k]) < i
                        && self.inputs@[positions@[k] as int].cell.lock_hash == *identity,
                forall|a: int, b: int|
                    0 <= a < b < positions@.len() ==> positions@[a] < positions@[b],
                forall|j: usize|
                    j < i && self.inputs@[j as int].cell.lock_hash == *identity
                        ==> positions@.contains(j),
            decreases self.inputs@.len() - i,
        {
            if self.inputs[i].cell.lock_hash == *identity {
                let ghost before = positions@;
                positions.push(i);
                proof {
                    assert(positions@[before.len() as int] == i);
                    assert forall|j: usize|
                        j < i + 1 && self.inputs@[j as int].cell.lock_hash
                            == *identity implies positions@.contains(j) by {
                        if j < i {
                            assert(before.contains(j));
                            let at = choose|at: int| 0 <= at < before.len() && before[at] == j;
                            assert(positions@[at] == j);
                        }
                    }
                }
            }
            i += 1;
        }
        positions
    }

    pub fn is_sealed(&self) -> (sealed: bool)
        ensures
            sealed == self.sealed(),
    {
        self.sealed
    }

    pub fn get_inputs(&self) -> (inputs: &Vec<TransactionInput>)
        ensures
            inputs@ == self.inputs(),
    {
        &self.inputs
    }

    pub fn get_outputs(&self) -> (outputs: &Vec<TransactionOutput>)
        ensures
            outputs@ == self.outputs(),
    {
        &self.outputs
    }

    pub fn get_multisig_configs(&self) -> (configs: &Vec<MultisigDescriptor>)
        ensures
            configs@ == self.multisig_configs(),
    {
        &self.multisig_configs
    }

    pub fn get_signatures(&self) -> (signatures: &Vec<LockSignature>)
        ensures
            signatures@ == self.signatures(),
    {
        &self.signatures
    }

    proof fn lemma_take_all(tx: PendingTransaction)
        ensures
            tx.inputs@.take(tx.inputs@.len() as int) == tx.inputs@,
            tx.outputs@.take(tx.outputs@.len() as int) == tx.outputs@,
            tx.multisig_configs@.take(tx.multisig_configs@.len() as int) == tx.multisig_configs@,
            tx.signatures@.take(tx.signatures@.len() as int) == tx.signatures@,
    {
        assert(tx.inputs@.take(tx.inputs@.len() as int) =~= tx.inputs@);
        assert(tx.outputs@.take(tx.outputs@.len() as int) =~= tx.outputs@);
        assert(tx.multisig_configs@.take(tx.multisig_configs@.len() as int)
            =~= tx.multisig_configs@);
        assert(tx.signatures@.take(tx.signatures@.len() as int) =~= tx.signatures@);
    }

    /// Every transaction extends itself.
    pub proof fn lemma_extends_itself(tx: PendingTransaction)
        ensures
            tx.extends(tx),
    {
        Self::lemma_take_all(tx);
    }
}

} // verus!
