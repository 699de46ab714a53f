use vstd::prelude::*;

verus! {

/// Every error a requester reports.
#[derive(Debug, Clone, Copy, PartialEq, Eq, Structural)]
pub enum RequesterError {
    /// Fewer than four bytes: no full header.
    HeaderTooShort,
    /// The header carries another request/response code than the one expected.
    UnexpectedMsg { expected: u8, got: u8 },
    /// The payload ends before its schema does.
    PayloadTooShort,
    /// Bytes follow a complete message.
    TrailingBytes,
    /// A reserved field is not zero.
    ReservedFieldNonzero,
    /// The responder supports no version the requester supports.
    NoCommonVersion,
    /// The responder selected no algorithm the requester offered.
    NoCommonAlgorithm,
    /// The responder's capability flags break the compatibility rules.
    InvalidCapabilityCombination,
    /// The header's version is not the negotiated one.
    VersionMismatch,
    /// A slot index at or above `NUM_SLOTS`.
    SlotIndexOutOfRange,
    /// A digest field has another width than the negotiated hash.
    DigestWidthMismatch,
    /// A digest differs from the one computed locally.
    DigestMismatch,
    /// A certificate chain would exceed `MAX_CERT_CHAIN_SIZE`.
    CertChainTooLarge,
    /// A certificate chunk is inconsistent with the chain retrieved so far.
    CertChainInvalid,
    /// The chain's root is not among the trust anchors.
    UntrustedRoot,
    /// The nonce of `CHALLENGE_AUTH` is not the one sent.
    NonceMismatch,
    /// The signature over the transcript does not verify.
    SignatureInvalid,
    /// The output buffer cannot hold the message.
    BufferTooSmall,
    /// The transcript would exceed `TRANSCRIPT_SIZE`.
    TranscriptOverflow,
    /// The responder answered with an `ERROR` message; the handshake ends.
    ResponderError { code: u8, data: u8 },
}

} // verus!
