use vstd::prelude::*;

use super::responder_id_auth;
use super::version::reject;
use super::{send, send_result, Rejected};
use crate::config::TRANSCRIPT_SIZE;
use crate::error::RequesterError;
use crate::msgs::{AlgorithmsMsg, VersionEntry, ALGORITHMS, NEGOTIATE_ALGORITHMS};
use crate::transcript::Transcript;

verus! {

/// The third phase: algorithm negotiation, with both sides' capabilities known.
#[derive(Debug, Clone, Copy, PartialEq, Eq, Structural)]
pub struct State {
    pub version: VersionEntry,
    pub requester_ct_exponent: u8,
    pub requester_cap: u32,
    pub responder_ct_exponent: u8,
    pub responder_cap: u32,
}

/// The digest width of a base hash algorithm (SHA-256, SHA-384, SHA-512), if known.
pub open spec fn spec_hash_size(alg: u32) -> Option<usize> {
    if alg == 1 {
        Some(32)
    } else if alg == 2 {
        Some(48)
    } else if alg == 4 {
        Some(64)
    } else {
        None
    }
}

/// The signature width of a base asymmetric algorithm (RSA 2048/3072/4096 in both paddings,
/// ECDSA P-256/P-384/P-521), if known.
pub open spec fn spec_signature_size(alg: u32) -> Option<usize> {
    if alg == 0x1 || alg == 0x2 {
        Some(256)
    } else if alg == 0x4 || alg == 0x8 {
        Some(384)
    } else if alg == 0x10 {
        Some(64)
    } else if alg == 0x20 || alg == 0x40 {
        Some(512)
    } else if alg == 0x80 {
        Some(96)
    } else if alg == 0x100 {
        Some(132)
    } else {
        None
    }
}

pub fn hash_size(alg: u32) -> (r: Option<usize>)
    ensures
        r == spec_hash_size(alg),
{
    if alg == 1 {
        Some(32)
    } else if alg == 2 {
        Some(48)
    } else if alg == 4 {
        Some(64)
    } else {
        None
    }
}

pub fn signature_size(alg: u32) -> (r: Option<usize>)
    ensures
        r == spec_signature_size(alg),
{
    if alg == 0x1 || alg == 0x2 {
        Some(256)
    } else if alg == 0x4 || alg == 0x8 {
        Some(384)
    } else if alg == 0x10 {
        Some(64)
    } else if alg == 0x20 || alg == 0x40 {
        Some(512)
    } else if alg == 0x80 {
        Some(96)
    } else if alg == 0x100 {
        Some(132)
    } else {
        None
    }
}

/// The selection `sel` picks exactly one known algorithm of each kind, each among those `offer` lists.
pub open spec fn valid_selection(offer: AlgorithmsMsg, sel: AlgorithmsMsg) -> bool {
    &&& spec_hash_size(sel.base_hash_algo) is Some
    &&& (offer.base_hash_algo / sel.base_hash_algo) % 2 == 1
    &&& spec_signature_size(sel.base_asym_algo) is Some
    &&& (offer.base_asym_algo / sel.base_asym_algo) % 2 == 1
}

/// The selection in an acceptable `ALGORITHMS` response `b` to `offer`, or why it is refused.
pub open spec fn algorithms_outcome(b: Seq<u8>, version: u8, offer: AlgorithmsMsg, t: Seq<u8>) -> Result<AlgorithmsMsg, RequesterError> {
    match AlgorithmsMsg::spec_parse(b, version, ALGORITHMS) {
        Err(e) => Err(e),
        Ok((m, n)) => if n != b.len() {
            Err(RequesterError::TrailingBytes)
        } else if !valid_selection(offer, m) {
            Err(RequesterError::NoCommonAlgorithm)
        } else if t.len() + b.len() > TRANSCRIPT_SIZE {
            Err(RequesterError::TranscriptOverflow)
        } else {
            Ok(m)
        },
    }
}

impl State {
    /// Writes `NEGOTIATE_ALGORITHMS` offering `offer` through a buffer of `cap` bytes, and logs it.
    pub fn write_request(&self, offer: AlgorithmsMsg, transcript: &mut Transcript, cap: usize) -> (r: Result<Vec<u8>, RequesterError>)
        requires
            old(transcript).wf(),
            self.version.wf(),
        ensures
            final(transcript).wf(),
            ({
                let msg = offer.spec_encode(self.version.spec_version_byte(), NEGOTIATE_ALGORITHMS);
                match send_result(old(transcript)@, msg, cap as nat) {
                    None => r matches Ok(m) && m@ == msg && final(transcript)@ == old(transcript)@ + msg,
                    Some(e) => r == Err::<Vec<u8>, RequesterError>(e) && final(transcript)@ == old(transcript)@,
                }
            }),
    {
        send(transcript, offer.encode(self.version.version_byte(), NEGOTIATE_ALGORITHMS), cap)
    }

    /// Takes the `ALGORITHMS` response `buf` to `offer`. On success the selection is fixed
    /// for the rest of the handshake and the response logged.
    pub fn handle_response(self, buf: &[u8], offer: AlgorithmsMsg, transcript: &mut Transcript) -> (r: Result<
        responder_id_auth::State,
        Rejected<State>,
    >)
        requires
            old(transcript).wf(),
            self.version.wf(),
        ensures
            final(transcript).wf(),
            match algorithms_outcome(buf@, self.version.spec_version_byte(), offer, old(transcript)@) {
                Ok(m) => r == Ok::<responder_id_auth::State, Rejected<State>>(responder_id_auth::State::spec_from(self, m))
                    && final(transcript)@ == old(transcript)@ + buf@,
                Err(e) => r matches Err(rej) && rej.reports(e, self) && final(transcript)@ == old(transcript)@,
            },
    {
        let (m, n) = match AlgorithmsMsg::parse(buf, self.version.version_byte(), ALGORITHMS) {
            Ok(p) => p,
            Err(e) => return Err(reject(self, e)),
        };
        if n != buf.len() {
            return Err(reject(self, RequesterError::TrailingBytes));
        }
        let ok = match (hash_size(m.base_hash_algo), signature_size(m.base_asym_algo)) {
            (Some(_), Some(_)) => (offer.base_hash_algo / m.base_hash_algo) % 2 == 1
                && (offer.base_asym_algo / m.base_asym_algo) % 2 == 1,
            _ => false,
        };
        if !ok {
            return Err(reject(self, RequesterError::NoCommonAlgorithm));
        }
        if let Err(e) = transcript.append(buf) {
            return Err(reject(self, e));
        }
        Ok(responder_id_auth::State::from(self, m))
    }
}

} // verus!
