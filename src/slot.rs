use vstd::prelude::*;

use crate::config::Digest;
use crate::wire::{le16_at, read_u16};

verus! {

/// A retrieved certificate chain and its digest.
#[derive(Debug, Clone, PartialEq, Eq)]
pub struct Slot {
    pub index: u8,
    pub chain: Vec<u8>,
    pub digest: Vec<u8>,
    /// The fingerprint of the root certificate, as the chain's header gives it.
    pub root_hash: Vec<u8>,
}

/// A chain starts with a header: its total length (two bytes), two reserved bytes, and the
/// `hw`-byte hash of its root certificate.
pub open spec fn chain_header_ok(chain: Seq<u8>, hw: nat) -> bool {
    &&& chain.len() >= 4 + hw
    &&& le16_at(chain, 0) == chain.len()
    &&& chain[2] == 0
    &&& chain[3] == 0
}

/// The root-certificate hash in the header of `chain`.
pub open spec fn root_hash_of(chain: Seq<u8>, hw: nat) -> Seq<u8> {
    chain.subrange(4, 4 + hw as int)
}

/// `h` is one of the trust anchors.
pub open spec fn trusted(anchors: Seq<Vec<u8>>, h: Seq<u8>) -> bool {
    exists|i: int| 0 <= i < anchors.len() && anchors[i]@ == h
}

pub fn check_chain_header(chain: &[u8], hw: usize) -> (r: bool)
    requires
        hw <= 64,
    ensures
        r == chain_header_ok(chain@, hw as nat),
{
    chain.len() >= 4 + hw && read_u16(chain, 0) as usize == chain.len() && chain[2] == 0 && chain[3] == 0
}

/// Whether `h` is among `anchors`.
pub fn is_trusted(anchors: &[Vec<u8>], h: &[u8]) -> (r: bool)
    ensures
        r == trusted(anchors@, h@),
{
    let mut i: usize = 0;
    while i < anchors.len()
        invariant
            i <= anchors@.len(),
            forall|j: int| 0 <= j < i ==> anchors@[j]@ != h@,
        decreases anchors@.len() - i,
    {
        if same_bytes(anchors[i].as_slice(), h) {
            return true;
        }
        i = i + 1;
    }
    false
}

/// Whether `a` and `b` hold the same bytes.
pub fn same_bytes(a: &[u8], b: &[u8]) -> (r: bool)
    ensures
        r == (a@ == b@),
{
    if a.len() != b.len() {
        return false;
    }
    let mut i: usize = 0;
    while i < a.len()
        invariant
            i <= a@.len() == b@.len(),
            forall|j: int| 0 <= j < i ==> a@[j] == b@[j],
        decreases a@.len() - i,
    {
        if a[i] != b[i] {
            return false;
        }
        i = i + 1;
    }
    assert(a@ =~= b@);
    true
}

impl Slot {
    /// The slot's digest is the hash `D` of its chain.
    pub open spec fn holds_chain<D: Digest>(&self) -> bool {
        self.digest@ == D::spec_digest(self.chain@)
    }
}

} // verus!
