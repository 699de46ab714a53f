use vstd::prelude::*;

use crate::config::{Digest, TRANSCRIPT_SIZE};
use crate::error::RequesterError;
use crate::wire::push_all;

verus! {

/// The bounded, append-only log of every handshake message, in the order sent and received.
#[derive(Debug)]
pub struct Transcript {
    bytes: Vec<u8>,
}

impl View for Transcript {
    type V = Seq<u8>;

    closed spec fn view(&self) -> Seq<u8> {
        self.bytes@
    }
}

impl Transcript {
    /// The transcript never exceeds `TRANSCRIPT_SIZE` bytes.
    pub open spec fn wf(&self) -> bool {
        self@.len() <= TRANSCRIPT_SIZE
    }

    pub fn new() -> (r: Transcript)
        ensures
            r@ == Seq::<u8>::empty(),
            r.wf(),
    {
        Transcript { bytes: Vec::new() }
    }

    pub fn len(&self) -> (r: usize)
        ensures
            r == self@.len(),
    {
        self.bytes.len()
    }

    pub fn as_slice(&self) -> (r: &[u8])
        ensures
            r@ == self@,
    {
        self.bytes.as_slice()
    }

    /// Appends `b`, unless the transcript would then exceed `TRANSCRIPT_SIZE`.
    pub fn append(&mut self, b: &[u8]) -> (r: Result<(), RequesterError>)
        requires
            old(self).wf(),
        ensures
            final(self).wf(),
            old(self)@.len() + b@.len() <= TRANSCRIPT_SIZE ==> r is Ok && final(self)@ == old(self)@ + b@,
            old(self)@.len() + b@.len() > TRANSCRIPT_SIZE ==> r == Err::<(), RequesterError>(
                RequesterError::TranscriptOverflow,
            ) && final(self)@ == old(self)@,
    {
        if b.len() > TRANSCRIPT_SIZE - self.bytes.len() {
            return Err(RequesterError::TranscriptOverflow);
        }
        push_all(&mut self.bytes, b);
        Ok(())
    }

    /// The digest of everything logged so far.
    pub fn digest<D: Digest>(&self) -> (r: Vec<u8>)
        ensures
            r@ == D::spec_digest(self@),
    {
        D::digest(self.bytes.as_slice())
    }
}

} // verus!
