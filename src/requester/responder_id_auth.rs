use vstd::prelude::*;

use super::algorithms::{self, hash_size, signature_size, spec_hash_size, spec_signature_size};
use super::version::reject;
use super::{send, send_result, Rejected};
use crate::config::{Config, Digest, MAX_CERT_CHAIN_SIZE, TRANSCRIPT_SIZE};
use crate::error::RequesterError;
use crate::msgs::{
    encode_bare, parse_digests, spec_encode_bare, spec_parse_certificate, spec_parse_challenge_auth,
    spec_parse_digests, AlgorithmsMsg, Certificate, Challenge, ChallengeAuth, GetCertificate, VersionEntry,
    GET_DIGESTS,
};
use crate::slot::{check_chain_header, chain_header_ok, is_trusted, root_hash_of, same_bytes, trusted, Slot};
use crate::transcript::Transcript;
use crate::wire::copy_range;

verus! {

/// After negotiation the requester identifies the responder; this state holds what was
/// negotiated.
#[derive(Debug, Clone, Copy, PartialEq, Eq, Structural)]
pub struct State {
    pub version: VersionEntry,
    pub requester_ct_exponent: u8,
    pub requester_cap: u32,
    pub responder_ct_exponent: u8,
    pub responder_cap: u32,
    pub algorithms: AlgorithmsMsg,
}

impl State {
    pub open spec fn spec_from(s: algorithms::State, selected: AlgorithmsMsg) -> State {
        State {
            version: s.version,
            requester_ct_exponent: s.requester_ct_exponent,
            requester_cap: s.requester_cap,
            responder_ct_exponent: s.responder_ct_exponent,
            responder_cap: s.responder_cap,
            algorithms: selected,
        }
    }

    /// The identification state that follows `s` once `selected` is agreed.
    pub fn from(s: algorithms::State, selected: AlgorithmsMsg) -> (r: State)
        ensures
            r == Self::spec_from(s, selected),
    {
        State {
            version: s.version,
            requester_ct_exponent: s.requester_ct_exponent,
            requester_cap: s.requester_cap,
            responder_ct_exponent: s.responder_ct_exponent,
            responder_cap: s.responder_cap,
            algorithms: selected,
        }
    }
}


impl State {
    /// Negotiation ended with a known version, hash and signature algorithm.
    pub open spec fn wf(&self) -> bool {
        &&& self.version.wf()
        &&& spec_hash_size(self.algorithms.base_hash_algo) is Some
        &&& spec_signature_size(self.algorithms.base_asym_algo) is Some
    }

    pub open spec fn version_byte(&self) -> u8 {
        self.version.spec_version_byte()
    }

    /// The width of every digest from here on.
    pub open spec fn digest_width(&self) -> usize {
        spec_hash_size(self.algorithms.base_hash_algo).unwrap()
    }

    /// The width of the responder's signature.
    pub open spec fn signature_width(&self) -> usize {
        spec_signature_size(self.algorithms.base_asym_algo).unwrap()
    }

    /// Writes `GET_DIGESTS` through a buffer of `cap` bytes and logs it.
    pub fn write_request(&self, transcript: &mut Transcript, cap: usize) -> (r: Result<Vec<u8>, RequesterError>)
        requires
            old(transcript).wf(),
            self.wf(),
        ensures
            final(transcript).wf(),
            ({
                let msg = spec_encode_bare(self.version_byte(), GET_DIGESTS);
                match send_result(old(transcript)@, msg, cap as nat) {
                    None => r matches Ok(m) && m@ == msg && final(transcript)@ == old(transcript)@ + msg,
                    Some(e) => r == Err::<Vec<u8>, RequesterError>(e) && final(transcript)@ == old(transcript)@,
                }
            }),
    {
        send(transcript, encode_bare(self.version.version_byte(), GET_DIGESTS), cap)
    }

    /// Takes the `DIGESTS` response `buf`. Slot 0, the one slot kept, must be announced;
    /// digests of higher slots are read past and dropped. On success the response is
    /// logged and retrieval of slot 0's chain begins.
    pub fn handle_response(self, buf: &[u8], transcript: &mut Transcript) -> (r: Result<CertState, Rejected<State>>)
        requires
            old(transcript).wf(),
            self.wf(),
        ensures
            final(transcript).wf(),
            match digests_outcome(buf@, self.version_byte(), self.digest_width() as nat, old(transcript)@) {
                Ok(d) => r matches Ok(next) && next.negotiated == self && next.slot == 0 && next.digest@ == d
                    && next.chain@.len() == 0 && next.total is None && final(transcript)@ == old(transcript)@ + buf@,
                Err(e) => r matches Err(rej) && rej.reports(e, self) && final(transcript)@ == old(transcript)@,
            },
    {
        let hw = hash_size(self.algorithms.base_hash_algo).unwrap();
        let (mask, ds, n) = match parse_digests(buf, self.version.version_byte(), hw) {
            Ok(p) => p,
            Err(e) => return Err(reject(self, e)),
        };
        if n != buf.len() {
            return Err(reject(self, RequesterError::TrailingBytes));
        }
        if mask % 2 == 0 {
            return Err(reject(self, RequesterError::SlotIndexOutOfRange));
        }
        if let Err(e) = transcript.append(buf) {
            return Err(reject(self, e));
        }
        proof {
            let c = crate::msgs::popcount(mask);
            assert(c >= 1);
            assert(c * hw >= hw) by (nonlinear_arith)
                requires c >= 1;
        }
        let digest = copy_range(ds.as_slice(), 0, hw);
        Ok(CertState { negotiated: self, slot: 0, digest, chain: Vec::new(), total: None })
    }
}

/// The digest of slot 0 in an acceptable `DIGESTS` response `b`, or why it is refused.
pub open spec fn digests_outcome(b: Seq<u8>, version: u8, hw: nat, t: Seq<u8>) -> Result<Seq<u8>, RequesterError> {
    match spec_parse_digests(b, version, hw) {
        Err(e) => Err(e),
        Ok((mask, ds, n)) => if n != b.len() {
            Err(RequesterError::TrailingBytes)
        } else if mask % 2 == 0 {
            Err(RequesterError::SlotIndexOutOfRange)
        } else if t.len() + b.len() > TRANSCRIPT_SIZE {
            Err(RequesterError::TranscriptOverflow)
        } else {
            Ok(ds.subrange(0, hw as int))
        },
    }
}

/// Retrieval of the certificate chain in `slot`, chunk by chunk.
#[derive(Debug)]
pub struct CertState {
    pub negotiated: State,
    pub slot: u8,
    /// The digest that `DIGESTS` announced for the slot.
    pub digest: Vec<u8>,
    /// The chain received so far.
    pub chain: Vec<u8>,
    /// The chain's full length, once the first chunk told it.
    pub total: Option<usize>,
}

/// What a `CERTIFICATE` chunk leads to.
#[derive(Debug)]
pub enum CertStep {
    /// More of the chain is to come.
    More(CertState),
    /// The chain is complete and matches its digest.
    Done(ChallengeState),
}

/// The chain after an acceptable `CERTIFICATE` response `b` to a request for at most `length`
/// bytes, and the remainder it announces; or why it is refused.
pub open spec fn certificate_outcome<C: Config>(s: CertState, b: Seq<u8>, length: u16, anchors: Seq<Vec<u8>>, t: Seq<u8>) -> Result<(Seq<u8>, u16), RequesterError> {
    match spec_parse_certificate(b, s.negotiated.version_byte()) {
        Err(e) => Err(e),
        Ok(((slot, rem, portion), n)) => {
            let chain = s.chain@ + portion;
            if n != b.len() {
                Err(RequesterError::TrailingBytes)
            } else if slot != s.slot {
                Err(RequesterError::SlotIndexOutOfRange)
            } else if portion.len() > length {
                Err(RequesterError::CertChainInvalid)
            } else if s.total matches Some(tot) && chain.len() + rem != tot {
                Err(RequesterError::CertChainInvalid)
            } else if chain.len() > MAX_CERT_CHAIN_SIZE {
                Err(RequesterError::CertChainTooLarge)
            } else if rem == 0 && <C::Digest as Digest>::spec_digest(chain).len() != s.digest@.len() {
                Err(RequesterError::DigestWidthMismatch)
            } else if rem == 0 && <C::Digest as Digest>::spec_digest(chain) != s.digest@ {
                Err(RequesterError::DigestMismatch)
            } else if rem == 0 && !chain_header_ok(chain, s.negotiated.digest_width() as nat) {
                Err(RequesterError::CertChainInvalid)
            } else if rem == 0 && !trusted(anchors, root_hash_of(chain, s.negotiated.digest_width() as nat)) {
                Err(RequesterError::UntrustedRoot)
            } else if t.len() + b.len() > TRANSCRIPT_SIZE {
                Err(RequesterError::TranscriptOverflow)
            } else {
                Ok((chain, rem))
            }
        },
    }
}

impl CertState {
    pub open spec fn wf(&self) -> bool {
        &&& self.negotiated.wf()
        &&& self.chain@.len() <= MAX_CERT_CHAIN_SIZE
    }

    /// The request for at most `length` bytes of the chain, from where retrieval stands.
    pub open spec fn spec_request(&self, length: u16) -> GetCertificate {
        GetCertificate { slot: self.slot, offset: self.chain@.len() as u16, length }
    }

    /// Writes `GET_CERTIFICATE` for the next `length` bytes through a buffer of `cap` bytes,
    /// and logs it.
    pub fn write_request(&self, length: u16, transcript: &mut Transcript, cap: usize) -> (r: Result<Vec<u8>, RequesterError>)
        requires
            old(transcript).wf(),
            self.wf(),
        ensures
            final(transcript).wf(),
            ({
                let msg = self.spec_request(length).spec_encode(self.negotiated.version_byte());
                match send_result(old(transcript)@, msg, cap as nat) {
                    None => r matches Ok(m) && m@ == msg && final(transcript)@ == old(transcript)@ + msg,
                    Some(e) => r == Err::<Vec<u8>, RequesterError>(e) && final(transcript)@ == old(transcript)@,
                }
            }),
    {
        let req = GetCertificate { slot: self.slot, offset: self.chain.len() as u16, length };
        send(transcript, req.encode(self.negotiated.version.version_byte()), cap)
    }

    /// Takes the `CERTIFICATE` response `buf` to a request for at most `length` bytes. Once
    /// nothing remains, the whole chain must hash (by `C`'s digest) to the announced digest, carry a
    /// well-formed header, and name a root among the hashes in `anchors`.
    pub fn handle_response<C: Config>(self, buf: &[u8], length: u16, anchors: &[Vec<u8>], transcript: &mut Transcript) -> (r: Result<CertStep, Rejected<CertState>>)
        requires
            old(transcript).wf(),
            self.wf(),
        ensures
            final(transcript).wf(),
            match certificate_outcome::<C>(self, buf@, length, anchors@, old(transcript)@) {
                Ok((chain, rem)) => final(transcript)@ == old(transcript)@ + buf@ && if rem > 0 {
                    r matches Ok(CertStep::More(next)) && next.wf() && next.negotiated == self.negotiated
                        && next.slot == self.slot && next.digest@ == self.digest@ && next.chain@ == chain
                        && next.total == Some((chain.len() + rem) as usize)
                } else {
                    r matches Ok(CertStep::Done(next)) && next.negotiated == self.negotiated
                        && next.slot.index == self.slot && next.slot.chain@ == chain && next.slot.digest@ == self.digest@
                        && next.slot.holds_chain::<C::Digest>()
                        && next.slot.root_hash@ == root_hash_of(chain, self.negotiated.digest_width() as nat)
                },
                Err(e) => r matches Err(rej) && rej.reports(e, self) && final(transcript)@ == old(transcript)@,
            },
    {
        let (m, n) = match Certificate::parse(buf, self.negotiated.version.version_byte()) {
            Ok(p) => p,
            Err(e) => return Err(reject(self, e)),
        };
        if n != buf.len() {
            return Err(reject(self, RequesterError::TrailingBytes));
        }
        if m.slot != self.slot {
            return Err(reject(self, RequesterError::SlotIndexOutOfRange));
        }
        if m.portion.len() > length as usize {
            return Err(reject(self, RequesterError::CertChainInvalid));
        }
        let len = self.chain.len() + m.portion.len();
        if let Some(tot) = self.total {
            if len + m.remainder as usize != tot {
                return Err(reject(self, RequesterError::CertChainInvalid));
            }
        }
        if len > MAX_CERT_CHAIN_SIZE {
            return Err(reject(self, RequesterError::CertChainTooLarge));
        }
        let hw = hash_size(self.negotiated.algorithms.base_hash_algo).unwrap();
        let mut chain = self.chain.clone();
        crate::wire::push_all(&mut chain, m.portion.as_slice());
        if m.remainder == 0 {
            let computed = <C::Digest as Digest>::digest(chain.as_slice());
            if computed.len() != self.digest.len() {
                return Err(reject(self, RequesterError::DigestWidthMismatch));
            }
            if !same_bytes(computed.as_slice(), self.digest.as_slice()) {
                return Err(reject(self, RequesterError::DigestMismatch));
            }
            if !check_chain_header(chain.as_slice(), hw) {
                return Err(reject(self, RequesterError::CertChainInvalid));
            }
            let root = copy_range(chain.as_slice(), 4, 4 + hw);
            if !is_trusted(anchors, root.as_slice()) {
                return Err(reject(self, RequesterError::UntrustedRoot));
            }
        }
        if let Err(e) = transcript.append(buf) {
            return Err(reject(self, e));
        }
        if m.remainder > 0 {
            Ok(CertStep::More(CertState {
                negotiated: self.negotiated,
                slot: self.slot,
                digest: self.digest,
                chain,
                total: Some(len + m.remainder as usize),
            }))
        } else {
            let root_hash = copy_range(chain.as_slice(), 4, 4 + hw);
            Ok(CertStep::Done(ChallengeState {
                negotiated: self.negotiated,
                slot: Slot { index: self.slot, chain, digest: self.digest, root_hash },
            }))
        }
    }
}

/// Authentication of the responder by a challenge on its retrieved chain.
#[derive(Debug)]
pub struct ChallengeState {
    pub negotiated: State,
    pub slot: Slot,
}


/// The `CHALLENGE_AUTH` fields of an acceptable response `b` to the challenge with `nonce`, or
/// why it is refused.
pub open spec fn challenge_outcome(s: ChallengeState, b: Seq<u8>, nonce: Seq<u8>, t: Seq<u8>) -> Result<crate::msgs::ChallengeAuthView, RequesterError> {
    let sw = s.negotiated.signature_width() as nat;
    match spec_parse_challenge_auth(b, s.negotiated.version_byte(), s.negotiated.digest_width() as nat, sw) {
        Err(e) => Err(e),
        Ok((m, n)) => if n != b.len() {
            Err(RequesterError::TrailingBytes)
        } else if m.slot != s.slot.index {
            Err(RequesterError::SlotIndexOutOfRange)
        } else if m.nonce != nonce {
            Err(RequesterError::NonceMismatch)
        } else if m.cert_chain_hash != s.slot.digest@ {
            Err(RequesterError::DigestMismatch)
        } else if t.len() + b.len() - sw > TRANSCRIPT_SIZE {
            Err(RequesterError::TranscriptOverflow)
        } else {
            Ok(m)
        },
    }
}

impl ChallengeState {
    pub open spec fn wf(&self) -> bool {
        self.negotiated.wf()
    }

    /// The challenge with `nonce` of the retrieved slot; no measurement summary is asked for.
    pub open spec fn spec_request(&self, nonce: [u8; 32]) -> Challenge {
        Challenge { slot: self.slot.index, hash_type: 0, nonce }
    }

    /// Writes `CHALLENGE` with a fresh `nonce` through a buffer of `cap` bytes, and logs it.
    pub fn write_request(&self, nonce: [u8; 32], transcript: &mut Transcript, cap: usize) -> (r: Result<Vec<u8>, RequesterError>)
        requires
            old(transcript).wf(),
            self.wf(),
        ensures
            final(transcript).wf(),
            ({
                let msg = self.spec_request(nonce).spec_encode(self.negotiated.version_byte());
                match send_result(old(transcript)@, msg, cap as nat) {
                    None => r matches Ok(m) && m@ == msg && final(transcript)@ == old(transcript)@ + msg,
                    Some(e) => r == Err::<Vec<u8>, RequesterError>(e) && final(transcript)@ == old(transcript)@,
                }
            }),
    {
        let req = Challenge { slot: self.slot.index, hash_type: 0, nonce };
        send(transcript, req.encode(self.negotiated.version.version_byte()), cap)
    }

    /// Takes the `CHALLENGE_AUTH` response `buf` to the challenge with `nonce`. The response
    /// must name the slot, echo the nonce and carry the slot's digest. On success everything
    /// but the signature is logged: the transcript then holds exactly what the signature covers.
    pub fn handle_response(self, buf: &[u8], nonce: [u8; 32], transcript: &mut Transcript) -> (r: Result<PendingSignature, Rejected<ChallengeState>>)
        requires
            old(transcript).wf(),
            self.wf(),
        ensures
            final(transcript).wf(),
            match challenge_outcome(self, buf@, nonce@, old(transcript)@) {
                Ok(m) => {
                    let cut = buf@.len() - self.negotiated.signature_width();
                    &&& r matches Ok(p)
                    &&& m.nonce == nonce@
                    &&& final(transcript)@ == old(transcript)@ + buf@.subrange(0, cut)
                    &&& p.signature@ == m.signature
                    &&& p.signature@ == buf@.subrange(cut, buf@.len() as int)
                    &&& p.authenticated == Authenticated::spec_new(self)
                },
                Err(e) => r matches Err(rej) && rej.reports(e, self) && final(transcript)@ == old(transcript)@,
            },
    {
        let hw = hash_size(self.negotiated.algorithms.base_hash_algo).unwrap();
        let sw = signature_size(self.negotiated.algorithms.base_asym_algo).unwrap();
        let (m, n) = match ChallengeAuth::parse(buf, self.negotiated.version.version_byte(), hw, sw) {
            Ok(p) => p,
            Err(e) => return Err(reject(self, e)),
        };
        if n != buf.len() {
            return Err(reject(self, RequesterError::TrailingBytes));
        }
        if m.slot != self.slot.index {
            return Err(reject(self, RequesterError::SlotIndexOutOfRange));
        }
        if !same_bytes(m.nonce.as_slice(), nonce.as_slice()) {
            return Err(reject(self, RequesterError::NonceMismatch));
        }
        if !same_bytes(m.cert_chain_hash.as_slice(), self.slot.digest.as_slice()) {
            return Err(reject(self, RequesterError::DigestMismatch));
        }
        let cut = buf.len() - sw;
        let unsigned = copy_range(buf, 0, cut);
        if let Err(e) = transcript.append(unsigned.as_slice()) {
            return Err(reject(self, e));
        }
        assert(m.signature@ == buf@.subrange(cut as int, buf@.len() as int));
        let authenticated = Authenticated::new(&self);
        Ok(PendingSignature { authenticated, signature: m.signature })
    }
}

/// A challenge answered correctly but for its signature, which the caller verifies over the
/// transcript with the negotiated algorithm and the leaf certificate's public key.
#[derive(Debug)]
pub struct PendingSignature {
    pub authenticated: Authenticated,
    pub signature: Vec<u8>,
}

impl PendingSignature {
    /// Completes the handshake if the signature verified.
    pub fn finish(self, signature_verified: bool) -> (r: Result<Authenticated, RequesterError>)
        ensures
            signature_verified ==> r == Ok::<Authenticated, RequesterError>(self.authenticated),
            !signature_verified ==> r == Err::<Authenticated, RequesterError>(RequesterError::SignatureInvalid),
    {
        if signature_verified {
            Ok(self.authenticated)
        } else {
            Err(RequesterError::SignatureInvalid)
        }
    }
}

/// The end of the handshake: the responder is authenticated under these parameters.
#[derive(Debug, Clone, Copy, PartialEq, Eq, Structural)]
pub struct Authenticated {
    pub version: VersionEntry,
    pub base_hash_algo: u32,
    pub base_asym_algo: u32,
    pub slot: u8,
}

impl Authenticated {
    pub open spec fn spec_new(s: ChallengeState) -> Authenticated {
        Authenticated {
            version: s.negotiated.version,
            base_hash_algo: s.negotiated.algorithms.base_hash_algo,
            base_asym_algo: s.negotiated.algorithms.base_asym_algo,
            slot: s.slot.index,
        }
    }

    fn new(s: &ChallengeState) -> (r: Authenticated)
        ensures
            r == Self::spec_new(*s),
    {
        Authenticated {
            version: s.negotiated.version,
            base_hash_algo: s.negotiated.algorithms.base_hash_algo,
            base_asym_algo: s.negotiated.algorithms.base_asym_algo,
            slot: s.slot.index,
        }
    }
}

} // verus!
