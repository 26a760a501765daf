//! Peer identities, reduced to the plain value the protocol logic reads.
//!
//! The surrounding application derives one `PeerId` per remote peer from the
//! transport library's opaque identity and keeps the mapping; everything in
//! this crate compares, stores and serialises only this value.

use vstd::prelude::*;

verus! {

use vstd::bytes::{spec_u64_to_le_bytes, u64_to_le_bytes};

/// A peer identity as the protocol logic sees it.
#[derive(Clone, Copy, PartialEq, Eq, Structural, Hash, Debug)]
pub struct PeerId {
    pub id: u64,
}

impl View for PeerId {
    type V = PeerId;

    open spec fn view(&self) -> PeerId {
        *self
    }
}

impl DeepView for PeerId {
    type V = PeerId;

    open spec fn deep_view(&self) -> PeerId {
        *self
    }
}

/// The byte form of a peer identity: its value in little-endian order,
/// the payload stored in a name record on the distributed hash table.
pub open spec fn spec_peer_id_bytes(p: PeerId) -> Seq<u8> {
    spec_u64_to_le_bytes(p.id)
}

impl PeerId {
    /// The byte form of this identity, as published in name records.
    pub fn to_bytes(&self) -> (r: Vec<u8>)
        ensures
            r@ == spec_peer_id_bytes(*self),
    {
        u64_to_le_bytes(self.id)
    }
}

/// Compares two byte strings; `true` exactly when they hold the same bytes.
pub fn bytes_eq(a: &[u8], b: &[u8]) -> (r: bool)
    ensures
        r == (a@ == b@),
{
    if a.len() != b.len() {
        return false;
    }
    let mut i: usize = 0;
    while i < a.len()
        invariant
            0 <= i <= a@.len(),
            a@.len() == b@.len(),
            forall|j: int| 0 <= j < i ==> a@[j] == b@[j],
        decreases a@.len() - i,
    {
        if a[i] != b[i] {
            return false;
        }
        i = i + 1;
    }
    proof {
        assert(a@ =~= b@);
    }
    true
}

} // verus!
