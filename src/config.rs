use vstd::prelude::*;

verus! {

/// The number of certificate-chain slots the requester keeps (a responder may have up to 8).
pub const NUM_SLOTS: usize = 1;

/// The largest certificate chain the requester accepts (the protocol allows up to 65536 bytes).
pub const MAX_CERT_CHAIN_SIZE: usize = 1536;

/// The largest transcript the requester keeps; larger than `MAX_CERT_CHAIN_SIZE`.
pub const TRANSCRIPT_SIZE: usize = 2048;

/// A one-shot cryptographic hash, supplied by the user of the library.
pub trait Digest {
    /// The digest of `data`.
    spec fn spec_digest(data: Seq<u8>) -> Seq<u8>;

    fn digest(data: &[u8]) -> (r: Vec<u8>)
        ensures
            r@ == Self::spec_digest(data@),
    ;
}

/// Compile-time parameters of a requester.
pub trait Config {
    type Digest: Digest;
}

} // verus!
