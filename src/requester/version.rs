use vstd::prelude::*;

use super::{capabilities, send, send_result, Rejected};
use crate::config::TRANSCRIPT_SIZE;
use crate::error::RequesterError;
use crate::msgs::{encode_bare, parse_version, spec_encode_bare, spec_parse_version, VersionEntry, GET_VERSION, VERSION_BYTE_INITIAL};
use crate::transcript::Transcript;

verus! {

/// The first phase: version negotiation.
#[derive(Debug, Clone, Copy, PartialEq, Eq, Structural)]
pub struct State {}

/// Whether the requester, supporting `sup`, supports `e` (by major and minor version).
pub open spec fn supports(sup: Seq<VersionEntry>, e: VersionEntry) -> bool {
    exists|i: int| 0 <= i < sup.len() && sup[i].major == e.major && sup[i].minor == e.minor
}

/// Some entry of `es` is supported.
pub open spec fn has_common(es: Seq<VersionEntry>, sup: Seq<VersionEntry>) -> bool {
    exists|k: int| 0 <= k < es.len() && supports(sup, es[k])
}

/// Entry `k` of `es` is the one selected: the highest supported entry, the first of equals.
pub open spec fn is_selected(es: Seq<VersionEntry>, sup: Seq<VersionEntry>, k: int) -> bool {
    &&& 0 <= k < es.len()
    &&& supports(sup, es[k])
    &&& forall|j: int| 0 <= j < es.len() && supports(sup, es[j]) ==> es[j].key() <= es[k].key()
    &&& forall|j: int| 0 <= j < k && supports(sup, es[j]) ==> es[j].key() < es[k].key()
}

/// The entries of an acceptable `VERSION` response `b`, or why it is refused.
pub open spec fn version_outcome(b: Seq<u8>, sup: Seq<VersionEntry>, t: Seq<u8>) -> Result<Seq<VersionEntry>, RequesterError> {
    match spec_parse_version(b) {
        Err(e) => Err(e),
        Ok((es, n)) => if n != b.len() {
            Err(RequesterError::TrailingBytes)
        } else if !has_common(es, sup) {
            Err(RequesterError::NoCommonVersion)
        } else if t.len() + b.len() > TRANSCRIPT_SIZE {
            Err(RequesterError::TranscriptOverflow)
        } else {
            Ok(es)
        },
    }
}

/// `v` is the entry selected from `es`.
pub open spec fn selects(es: Seq<VersionEntry>, sup: Seq<VersionEntry>, v: VersionEntry) -> bool {
    exists|k: int| is_selected(es, sup, k) && v == es[k]
}

/// At most one entry is selected.
pub proof fn lemma_selection_unique(es: Seq<VersionEntry>, sup: Seq<VersionEntry>, k1: int, k2: int)
    requires
        is_selected(es, sup, k1),
        is_selected(es, sup, k2),
    ensures
        k1 == k2,
{
    if k1 < k2 {
        assert(es[k1].key() < es[k2].key());
    } else if k2 < k1 {
        assert(es[k2].key() < es[k1].key());
    }
}

/// Handling one `VERSION` response twice, with the same supported versions and transcript,
/// selects the same version both times.
pub proof fn lemma_version_deterministic(b: Seq<u8>, sup: Seq<VersionEntry>, t: Seq<u8>, v1: VersionEntry, v2: VersionEntry)
    requires
        version_outcome(b, sup, t) is Ok,
        selects(version_outcome(b, sup, t).unwrap(), sup, v1),
        selects(version_outcome(b, sup, t).unwrap(), sup, v2),
    ensures
        v1 == v2,
{
    let es = version_outcome(b, sup, t).unwrap();
    let k1 = choose|k: int| is_selected(es, sup, k) && v1 == es[k];
    let k2 = choose|k: int| is_selected(es, sup, k) && v2 == es[k];
    lemma_selection_unique(es, sup, k1, k2);
}

fn supported(sup: &[VersionEntry], e: VersionEntry) -> (r: bool)
    ensures
        r == supports(sup@, e),
{
    let mut i: usize = 0;
    while i < sup.len()
        invariant
            i <= sup@.len(),
            forall|j: int| 0 <= j < i ==> !(sup@[j].major == e.major && sup@[j].minor == e.minor),
        decreases sup@.len() - i,
    {
        if sup[i].major == e.major && sup[i].minor == e.minor {
            return true;
        }
        i = i + 1;
    }
    false
}

/// The index of the selected entry, if any entry is supported.
fn select(es: &[VersionEntry], sup: &[VersionEntry]) -> (r: Option<usize>)
    requires
        forall|i: int| 0 <= i < es@.len() ==> (#[trigger] es@[i]).wf(),
    ensures
        r matches Some(k) ==> is_selected(es@, sup@, k as int),
        r is None ==> !has_common(es@, sup@),
{
    let mut best: Option<usize> = None;
    let mut k: usize = 0;
    while k < es.len()
        invariant
            k <= es@.len(),
            forall|i: int| 0 <= i < es@.len() ==> (#[trigger] es@[i]).wf(),
            best is None ==> forall|j: int| 0 <= j < k ==> !supports(sup@, #[trigger] es@[j]),
            best matches Some(b) ==> b < k && supports(sup@, es@[b as int])
                && (forall|j: int| 0 <= j < k && supports(sup@, es@[j]) ==> es@[j].key() <= es@[b as int].key())
                && (forall|j: int| 0 <= j < b && supports(sup@, es@[j]) ==> es@[j].key() < es@[b as int].key()),
        decreases es@.len() - k,
    {
        if supported(sup, es[k]) {
            match best {
                None => {
                    best = Some(k);
                },
                Some(b) => {
                    if es[k].key_of() > es[b].key_of() {
                        best = Some(k);
                    }
                },
            }
        }
        k = k + 1;
    }
    best
}

impl State {
    /// Writes `GET_VERSION` through a buffer of `cap` bytes and logs it.
    pub fn write_request(&self, transcript: &mut Transcript, cap: usize) -> (r: Result<Vec<u8>, RequesterError>)
        requires
            old(transcript).wf(),
        ensures
            final(transcript).wf(),
            ({
                let msg = spec_encode_bare(VERSION_BYTE_INITIAL, GET_VERSION);
                match send_result(old(transcript)@, msg, cap as nat) {
                    None => r matches Ok(m) && m@ == msg && final(transcript)@ == old(transcript)@ + msg,
                    Some(e) => r == Err::<Vec<u8>, RequesterError>(e) && final(transcript)@ == old(transcript)@,
                }
            }),
    {
        send(transcript, encode_bare(VERSION_BYTE_INITIAL, GET_VERSION), cap)
    }

    /// Takes the `VERSION` response `buf`; `supported` lists the versions of the requester.
    /// On success the highest common version is selected and the response logged.
    pub fn handle_response(self, buf: &[u8], supported: &[VersionEntry], transcript: &mut Transcript) -> (r: Result<
        capabilities::State,
        Rejected<State>,
    >)
        requires
            old(transcript).wf(),
        ensures
            final(transcript).wf(),
            match version_outcome(buf@, supported@, old(transcript)@) {
                Ok(es) => r matches Ok(next) && selects(es, supported@, next.version)
                    && next.version.wf() && final(transcript)@ == old(transcript)@ + buf@,
                Err(e) => r matches Err(rej) && rej.reports(e, self) && final(transcript)@ == old(transcript)@,
            },
    {
        let ghost t0 = transcript@;
        let (es, n) = match parse_version(buf) {
            Ok(p) => p,
            Err(e) => return Err(reject(self, e)),
        };
        if n != buf.len() {
            return Err(reject(self, RequesterError::TrailingBytes));
        }
        proof {
            assert forall|i: int| 0 <= i < es@.len() implies (#[trigger] es@[i]).wf() by {
                VersionEntry::lemma_from_bytes_wf(buf@[6 + 2 * i], buf@[6 + 2 * i + 1]);
            }
        }
        let k = match select(es.as_slice(), supported) {
            Some(k) => k,
            None => return Err(reject(self, RequesterError::NoCommonVersion)),
        };
        assert(0 <= k < es@.len() && supports(supported@, es@[k as int]));
        assert(has_common(es@, supported@));
        assert(spec_parse_version(buf@) == Ok::<(Seq<VersionEntry>, nat), RequesterError>((es@, n as nat)));
        assert(transcript@.len() + buf@.len() <= TRANSCRIPT_SIZE ==> version_outcome(buf@, supported@, transcript@) == Ok::<Seq<VersionEntry>, RequesterError>(es@));
        if let Err(e) = transcript.append(buf) {
            return Err(reject(self, e));
        }
        let version = es[k];
        assert(version_outcome(buf@, supported@, t0) == Ok::<Seq<VersionEntry>, RequesterError>(es@));
        assert(is_selected(es@, supported@, k as int) && version == es@[k as int]);
        assert(selects(es@, supported@, version));
        Ok(capabilities::State { version })
    }
}

/// The rejection of a response to `s` for `e`.
pub fn reject<S>(s: S, e: RequesterError) -> (r: Rejected<S>)
    ensures
        r.reports(e, s),
{
    match e {
        RequesterError::ResponderError { .. } => Rejected::Ended(e),
        _ => Rejected::Kept(s, e),
    }
}

} // verus!
