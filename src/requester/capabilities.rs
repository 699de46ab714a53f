use vstd::prelude::*;

use super::algorithms;
use super::version::reject;
use super::{send, send_result, Rejected};
use crate::config::TRANSCRIPT_SIZE;
use crate::error::RequesterError;
use crate::msgs::{CapabilitiesMsg, VersionEntry, CAPABILITIES, GET_CAPABILITIES};
use crate::transcript::Transcript;

verus! {

/// The second phase: capability exchange, under the negotiated version.
#[derive(Debug, Clone, Copy, PartialEq, Eq, Structural)]
pub struct State {
    pub version: VersionEntry,
}

/// Bit `2^k` of `f`, for `d == 2^k`.
pub open spec fn bit(f: u32, d: u32) -> bool {
    (f / d) % 2 == 1
}

/// `CERT_CAP`: the responder holds certificate chains.
pub open spec fn cert_cap(f: u32) -> bool { bit(f, 2) }

/// `MEAS_CAP`: two bits; 0 none, 1 plain, 2 signed, 3 reserved.
pub open spec fn meas_cap(f: u32) -> u32 { (f / 8) % 4 }

/// `ENCRYPT_CAP`.
pub open spec fn encrypt_cap(f: u32) -> bool { bit(f, 64) }

/// `MAC_CAP`.
pub open spec fn mac_cap(f: u32) -> bool { bit(f, 128) }

/// `KEY_EX_CAP`.
pub open spec fn key_ex_cap(f: u32) -> bool { bit(f, 512) }

/// `PSK_CAP`: two bits; 0 none, 1 and 2 supported, 3 reserved.
pub open spec fn psk_cap(f: u32) -> u32 { (f / 1024) % 4 }

/// Whether the responder flags `f` obey the compatibility rules: measurements need
/// certificates, reserved values are not used, and session keys (`KEY_EX_CAP`, `PSK_CAP`)
/// come together with message protection (`ENCRYPT_CAP`, `MAC_CAP`), each needing the other.
pub open spec fn valid_responder_flags(f: u32) -> bool {
    &&& meas_cap(f) != 3
    &&& (meas_cap(f) != 0 ==> cert_cap(f))
    &&& psk_cap(f) != 3
    &&& ((encrypt_cap(f) || mac_cap(f)) <==> (key_ex_cap(f) || psk_cap(f) != 0))
}

pub fn check_responder_flags(f: u32) -> (r: bool)
    ensures
        r == valid_responder_flags(f),
{
    let meas = (f / 8) % 4;
    let cert = (f / 2) % 2 == 1;
    let psk = (f / 1024) % 4;
    let protect = (f / 64) % 2 == 1 || (f / 128) % 2 == 1;
    let session = (f / 512) % 2 == 1 || psk != 0;
    meas != 3 && (meas == 0 || cert) && psk != 3 && protect == session
}

/// The responder's capabilities in an acceptable `CAPABILITIES` response `b`, or why it is refused.
pub open spec fn capabilities_outcome(b: Seq<u8>, version: u8, t: Seq<u8>) -> Result<CapabilitiesMsg, RequesterError> {
    match CapabilitiesMsg::spec_parse(b, version, CAPABILITIES) {
        Err(e) => Err(e),
        Ok((m, n)) => if n != b.len() {
            Err(RequesterError::TrailingBytes)
        } else if !valid_responder_flags(m.flags) {
            Err(RequesterError::InvalidCapabilityCombination)
        } else if t.len() + b.len() > TRANSCRIPT_SIZE {
            Err(RequesterError::TranscriptOverflow)
        } else {
            Ok(m)
        },
    }
}

impl State {
    /// Writes `GET_CAPABILITIES` with the requester's `req` through a buffer of `cap` bytes,
    /// and logs it. The timeout exponent of `req` is at most 63.
    pub fn write_request(&self, req: CapabilitiesMsg, transcript: &mut Transcript, cap: usize) -> (r: Result<Vec<u8>, RequesterError>)
        requires
            old(transcript).wf(),
            self.version.wf(),
            req.ct_exponent <= 63,
        ensures
            final(transcript).wf(),
            ({
                let msg = req.spec_encode(self.version.spec_version_byte(), GET_CAPABILITIES);
                match send_result(old(transcript)@, msg, cap as nat) {
                    None => r matches Ok(m) && m@ == msg && final(transcript)@ == old(transcript)@ + msg,
                    Some(e) => r == Err::<Vec<u8>, RequesterError>(e) && final(transcript)@ == old(transcript)@,
                }
            }),
    {
        send(transcript, req.encode(self.version.version_byte(), GET_CAPABILITIES), cap)
    }

    /// Takes the `CAPABILITIES` response `buf` to the request `req`. On success the
    /// response is logged and both sides' capabilities are carried on.
    pub fn handle_response(self, buf: &[u8], req: CapabilitiesMsg, transcript: &mut Transcript) -> (r: Result<
        algorithms::State,
        Rejected<State>,
    >)
        requires
            old(transcript).wf(),
            self.version.wf(),
        ensures
            final(transcript).wf(),
            match capabilities_outcome(buf@, self.version.spec_version_byte(), old(transcript)@) {
                Ok(m) => r == Ok::<algorithms::State, Rejected<State>>(
                    algorithms::State {
                        version: self.version,
                        requester_ct_exponent: req.ct_exponent,
                        requester_cap: req.flags,
                        responder_ct_exponent: m.ct_exponent,
                        responder_cap: m.flags,
                    },
                ) && final(transcript)@ == old(transcript)@ + buf@,
                Err(e) => r matches Err(rej) && rej.reports(e, self) && final(transcript)@ == old(transcript)@,
            },
    {
        let (m, n) = match CapabilitiesMsg::parse(buf, self.version.version_byte(), CAPABILITIES) {
            Ok(p) => p,
            Err(e) => return Err(reject(self, e)),
        };
        if n != buf.len() {
            return Err(reject(self, RequesterError::TrailingBytes));
        }
        if !check_responder_flags(m.flags) {
            return Err(reject(self, RequesterError::InvalidCapabilityCombination));
        }
        if let Err(e) = transcript.append(buf) {
            return Err(reject(self, e));
        }
        Ok(algorithms::State {
            version: self.version,
            requester_ct_exponent: req.ct_exponent,
            requester_cap: req.flags,
            responder_ct_exponent: m.ct_exponent,
            responder_cap: m.flags,
        })
    }
}

} // verus!
