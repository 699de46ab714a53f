//! The requester is a chain of phase states, each a type of its own. A state
//! writes its request and consumes itself on the response, returning the
//! next phase's state; a message of a later phase has no way into an earlier state.
use vstd::prelude::*;

pub mod algorithms;
pub mod capabilities;
pub mod responder_id_auth;
pub mod version;

use crate::config::TRANSCRIPT_SIZE;
use crate::error::RequesterError;
use crate::msgs::Msg;
use crate::transcript::Transcript;

verus! {

/// Enters the first state of the requester, the `Version` state.
pub fn start() -> (r: version::State)
    ensures
        r == (version::State {}),
{
    version::State {}
}

/// Checks that `buf` holds a message of type `T` under `version`.
///
/// Fails with `HeaderTooShort` under four bytes, and with `UnexpectedMsg` when the version
/// byte or the code differs.
pub fn expect<T: Msg>(buf: &[u8], version: u8) -> (r: Result<(), RequesterError>)
    ensures
        buf@.len() < 4 ==> r == Err::<(), RequesterError>(RequesterError::HeaderTooShort),
        buf@.len() >= 4 && buf@[0] == version && buf@[1] == T::spec_code() ==> r is Ok,
        buf@.len() >= 4 && !(buf@[0] == version && buf@[1] == T::spec_code()) ==> r
            == Err::<(), RequesterError>(RequesterError::UnexpectedMsg { expected: T::spec_code(), got: buf@[1] }),
{
    let code = T::code();
    match crate::msgs::parse_header(buf, version, code) {
        Ok(true) => Ok(()),
        Ok(false) => Err(RequesterError::UnexpectedMsg { expected: code, got: buf[1] }),
        Err(e) => Err(e),
    }
}

/// Why a state did not advance on a response.
#[derive(Debug)]
pub enum Rejected<S> {
    /// The response was refused; the state is handed back unchanged and may be retried.
    Kept(S, RequesterError),
    /// The responder sent `ERROR`: the handshake is over.
    Ended(RequesterError),
}

impl<S> Rejected<S> {
    pub open spec fn error(self) -> RequesterError {
        match self {
            Rejected::Kept(_, e) => e,
            Rejected::Ended(e) => e,
        }
    }

    /// This rejection reports `e`, ends the handshake exactly on a responder error and
    /// otherwise hands back `s`.
    pub open spec fn reports(self, e: RequesterError, s: S) -> bool {
        &&& self.error() == e
        &&& (self is Ended <==> e is ResponderError)
        &&& (self matches Rejected::Kept(k, _) ==> k == s)
    }

    pub fn into_error(self) -> (r: RequesterError)
        ensures
            r == self.error(),
    {
        match self {
            Rejected::Kept(_, e) => e,
            Rejected::Ended(e) => e,
        }
    }
}

/// What sending `msg` through a buffer of `cap` bytes does, with the transcript holding `t`.
pub open spec fn send_result(t: Seq<u8>, msg: Seq<u8>, cap: nat) -> Option<RequesterError> {
    if msg.len() > cap {
        Some(RequesterError::BufferTooSmall)
    } else if t.len() + msg.len() > TRANSCRIPT_SIZE {
        Some(RequesterError::TranscriptOverflow)
    } else {
        None
    }
}

/// Logs the request `msg` in the transcript and hands it out for sending, if it fits in
/// `cap` bytes and in the transcript.
pub fn send(transcript: &mut Transcript, msg: Vec<u8>, cap: usize) -> (r: Result<Vec<u8>, RequesterError>)
    requires
        old(transcript).wf(),
    ensures
        final(transcript).wf(),
        send_result(old(transcript)@, msg@, cap as nat) is None ==> (r matches Ok(m) && m@ == msg@
            && final(transcript)@ == old(transcript)@ + msg@),
        send_result(old(transcript)@, msg@, cap as nat) matches Some(e) ==> r == Err::<Vec<u8>, RequesterError>(e)
            && final(transcript)@ == old(transcript)@,
{
    if msg.len() > cap {
        return Err(RequesterError::BufferTooSmall);
    }
    match transcript.append(msg.as_slice()) {
        Ok(()) => Ok(msg),
        Err(e) => Err(e),
    }
}

} // verus!
