//! Fixed-size hashes: the 20-byte key hash that names a signing key and the
//! 32-byte hash that names a script, a transaction or a message.

use vstd::prelude::*;
use vstd::std_specs::cmp::PartialEqSpecImpl;

verus! {

/// True when the two arrays hold the same bytes.
pub fn bytes_equal<const N: usize>(a: &[u8; N], b: &[u8; N]) -> (same: bool)
    ensures
        same == (a@ == b@),
        same == (*a == *b),
{
    let mut i: usize = 0;
    while i < N
        invariant
            i <= N,
            forall|j: int| 0 <= j < i ==> a[j] == b[j],
        decreases N - i,
    {
        if a[i] != b[i] {
            return false;
        }
        i += 1;
    }
    assert(*a =~= *b);
    true
}

/// Copies `N` bytes out of a slice; `None` when the slice has another length.
pub fn bytes_from_slice<const N: usize>(data: &[u8]) -> (out: Option<[u8; N]>)
    ensures
        out is Some <==> data@.len() == N,
        out matches Some(a) ==> a@ == data@,
{
    if data.len() != N {
        return None;
    }
    let mut a: [u8; N] = [0u8; N];
    let mut i: usize = 0;
    while i < N
        invariant
            i <= N,
            data@.len() == N,
            forall|j: int| 0 <= j < i ==> a[j] == data@[j],
        decreases N - i,
    {
        a[i] = data[i];
        i += 1;
    }
    assert(a@ =~= data@);
    Some(a)
}

/// Copies the bytes of an array into a fresh vector.
pub fn bytes_to_vec<const N: usize>(a: &[u8; N]) -> (out: Vec<u8>)
    ensures
        out@ == a@,
{
    let mut out: Vec<u8> = Vec::new();
    let mut i: usize = 0;
    while i < N
        invariant
            i <= N,
            out@.len() == i,
            forall|j: int| 0 <= j < i ==> out@[j] == a[j],
        decreases N - i,
    {
        out.push(a[i]);
        i += 1;
    }
    assert(out@ =~= a@);
    out
}

/// A 20-byte hash of a public key or of a multisig descriptor.
#[derive(Clone, Copy, Debug, Eq, Hash)]
pub struct Hash160 {
    pub bytes: [u8; 20],
}

impl View for Hash160 {
    type V = Seq<u8>;

    open spec fn view(&self) -> Seq<u8> {
        self.bytes@
    }
}

impl PartialEq for Hash160 {
    fn eq(&self, other: &Hash160) -> (r: bool) {
        bytes_equal(&self.bytes, &other.bytes)
    }
}

impl PartialEqSpecImpl for Hash160 {
    open spec fn obeys_eq_spec() -> bool {
        true
    }

    open spec fn eq_spec(&self, other: &Hash160) -> bool {
        *self == *other
    }
}

impl Hash160 {
    pub fn new(bytes: [u8; 20]) -> (h: Hash160)
        ensures
            h.bytes == bytes,
    {
        Hash160 { bytes }
    }

    /// Reads a hash from exactly 20 bytes.
    pub fn from_slice(data: &[u8]) -> (out: Option<Hash160>)
        ensures
            out is Some <==> data@.len() == 20,
            out matches Some(h) ==> h@ == data@,
    {
        match bytes_from_slice::<20>(data) {
            Some(bytes) => Some(Hash160 { bytes }),
            None => None,
        }
    }

    pub fn to_vec(&self) -> (out: Vec<u8>)
        ensures
            out@ == self@,
    {
        bytes_to_vec(&self.bytes)
    }

    /// Two hashes are the same value exactly when their bytes agree.
    pub proof fn lemma_view_injective(a: Hash160, b: Hash160)
        ensures
            (a@ == b@) <==> (a == b),
    {
        if a@ == b@ {
            assert(a.bytes =~= b.bytes);
        }
    }
}

/// A 32-byte hash: a lock identity, a type-script hash, a transaction id or a
/// message digest.
#[derive(Clone, Copy, Debug, Eq, Hash)]
pub struct Hash256 {
    pub bytes: [u8; 32],
}

impl View for Hash256 {
    type V = Seq<u8>;

    open spec fn view(&self) -> Seq<u8> {
        self.bytes@
    }
}

impl PartialEq for Hash256 {
    fn eq(&self, other: &Hash256) -> (r: bool) {
        bytes_equal(&self.bytes, &other.bytes)
    }
}

impl PartialEqSpecImpl for Hash256 {
    open spec fn obeys_eq_spec() -> bool {
        true
    }

    open spec fn eq_spec(&self, other: &Hash256) -> bool {
        *self == *other
    }
}

impl Hash256 {
    pub fn new(bytes: [u8; 32]) -> (h: Hash256)
        ensures
            h.bytes == bytes,
    {
        Hash256 { bytes }
    }

    /// True when every byte is zero.
    pub open spec fn all_zero(&self) -> bool {
        forall|i: int| 0 <= i < 32 ==> self.bytes[i] == 0
    }

    /// The hash whose 32 bytes are all zero.
    pub fn zero() -> (h: Hash256)
        ensures
            h.all_zero(),
    {
        Hash256 { bytes: [0u8; 32] }
    }

    /// True when every byte is zero.
    pub fn is_zero(&self) -> (r: bool)
        ensures
            r == self.all_zero(),
    {
        let mut i: usize = 0;
        while i < 32
            invariant
                i <= 32,
                forall|j: int| 0 <= j < i ==> self.bytes[j] == 0,
            decreases 32 - i,
        {
            if self.bytes[i] != 0 {
                return false;
            }
            i += 1;
        }
        true
    }

    /// Reads a hash from exactly 32 bytes.
    pub fn from_slice(data: &[u8]) -> (out: Option<Hash256>)
        ensures
            out is Some <==> data@.len() == 32,
            out matches Some(h) ==> h@ == data@,
    {
        match bytes_from_slice::<32>(data) {
            Some(bytes) => Some(Hash256 { bytes }),
            None => None,
        }
    }

    pub fn to_vec(&self) -> (out: Vec<u8>)
        ensures
            out@ == self@,
    {
        bytes_to_vec(&self.bytes)
    }
}

/// The hash of a lock script: the key under which unspent cells are searched.
pub type LockIdentity = Hash256;

} // verus!
