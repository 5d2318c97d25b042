use vstd::prelude::*;

verus! {

/// A 32-byte opaque value: an order commitment, a match identifier or a nullifier.
pub type Bytes32 = [u8; 32];

/// The identity of a participant, an asset or a collaborating contract,
/// held as the 56 characters of its Stellar strkey.
///
/// The library never looks inside an address: two addresses name the same
/// party exactly when their characters agree.
#[derive(Clone, Copy, Debug, PartialEq, Eq)]
pub struct Address {
    pub strkey: [u8; 56],
}

/// Byte-wise comparison of two arrays of the same length.
pub fn bytes_eq<const N: usize>(a: &[u8; N], b: &[u8; N]) -> (same: bool)
    ensures
        same == (*a == *b),
{
    let mut i: usize = 0;
    while i < N
        invariant
            0 <= i <= N,
            forall|j: int| 0 <= j < i ==> a[j] == b[j],
        decreases N - i,
    {
        if a[i] != b[i] {
            return false;
        }
        i += 1;
    }
    assert(*a =~= *b);
    true
}

impl Address {
    /// Whether `self` and `other` name the same party.
    pub fn same(&self, other: &Address) -> (same: bool)
        ensures
            same == (*self == *other),
    {
        bytes_eq(&self.strkey, &other.strkey)
    }
}

} // verus!
