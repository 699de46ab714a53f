use spdm::config::{Config, Digest, MAX_CERT_CHAIN_SIZE};
use spdm::error::RequesterError;
use spdm::msgs::{
    encode_digests, encode_version, AlgorithmsMsg, Capabilities, CapabilitiesMsg, Certificate, ChallengeAuth,
    ErrorRsp, Version, VersionEntry, ALGORITHMS, CAPABILITIES, GET_VERSION, VERSION,
};
use spdm::requester::capabilities::{check_responder_flags, State as CapabilitiesState};
use spdm::requester::responder_id_auth::{
    Authenticated, CertState, CertStep, ChallengeState, State as IdAuthState,
};
use spdm::requester::version::State as VersionState;
use spdm::requester::{expect, start, Rejected};
use spdm::slot::{check_chain_header, is_trusted, same_bytes};
use spdm::transcript::Transcript;
use vstd::seq::Seq;

/// A toy 48-byte digest for driving the state machine.
struct Fold48;

impl Digest for Fold48 {
    fn spec_digest(data: Seq<u8>) -> Seq<u8> {
        data
    }

    fn digest(data: &[u8]) -> Vec<u8> {
        let mut out = vec![0u8; 48];
        for (i, b) in data.iter().enumerate() {
            out[i % 48] = out[i % 48].wrapping_mul(31).wrapping_add(*b);
        }
        out[0] ^= data.len() as u8;
        out
    }
}

/// A digest whose width is not the negotiated one.
struct Short;

impl Digest for Short {
    fn spec_digest(data: Seq<u8>) -> Seq<u8> {
        data
    }

    fn digest(_data: &[u8]) -> Vec<u8> {
        vec![0; 32]
    }
}

/// A requester hashing with `Fold48`.
struct Toy;

impl Config for Toy {
    type Digest = Fold48;
}

/// A requester whose digest is narrower than the negotiated hash.
struct ShortConfig;

impl Config for ShortConfig {
    type Digest = Short;
}

const V11: u8 = 0x11;
const SHA_384: u32 = 0x02;
const ECDSA_P384: u32 = 0x80;
const CAP: usize = 4096;

fn ver(major: u8, minor: u8) -> VersionEntry {
    VersionEntry { major, minor, update: 0, alpha: 0 }
}

const ROOT: [u8; 48] = [0x3C; 48];

/// A 1000-byte chain: its header (length, reserved, root hash) and then certificate bytes.
fn chain_with_root(root: &[u8]) -> Vec<u8> {
    let mut c = vec![0xE8, 0x03, 0, 0];
    c.extend_from_slice(root);
    c.extend((0..948u32).map(|i| (i * 7 % 251) as u8));
    c
}

fn chain() -> Vec<u8> {
    chain_with_root(&ROOT)
}

fn anchors() -> Vec<Vec<u8>> {
    vec![vec![0x99; 48], ROOT.to_vec()]
}

/// Runs the handshake up to the identification phase; returns the state and total bytes exchanged.
fn negotiate(t: &mut Transcript) -> (IdAuthState, usize) {
    let mut total = 0;
    let s = start();
    total += s.write_request(t, CAP).unwrap().len();
    let rsp = encode_version(&[ver(1, 0), ver(1, 1)]);
    total += rsp.len();
    let s = s.handle_response(&rsp, &[ver(1, 0), ver(1, 1)], t).unwrap();
    assert_eq!(s.version, ver(1, 1));
    let req = CapabilitiesMsg { ct_exponent: 12, flags: 0x06 };
    total += s.write_request(req, t, CAP).unwrap().len();
    let rsp = CapabilitiesMsg { ct_exponent: 10, flags: 0x06 }.encode(V11, CAPABILITIES);
    total += rsp.len();
    let s = s.handle_response(&rsp, req, t).unwrap();
    assert_eq!(s.responder_ct_exponent, 10);
    assert_eq!(s.requester_cap, 0x06);
    let offer = AlgorithmsMsg { measurement_spec: 1, base_asym_algo: 0x90, base_hash_algo: 0x03 };
    total += s.write_request(offer, t, CAP).unwrap().len();
    let rsp = AlgorithmsMsg { measurement_spec: 1, base_asym_algo: ECDSA_P384, base_hash_algo: SHA_384 }
        .encode(V11, ALGORITHMS);
    total += rsp.len();
    let s = s.handle_response(&rsp, offer, t).unwrap();
    (s, total)
}

fn retrieve(t: &mut Transcript, s: IdAuthState, announced: &[u8], total: &mut usize) -> Result<ChallengeState, RequesterError> {
    retrieve_chain(t, s, &chain(), announced, total)
}

fn retrieve_chain(
    t: &mut Transcript,
    s: IdAuthState,
    c: &[u8],
    announced: &[u8],
    total: &mut usize,
) -> Result<ChallengeState, RequesterError> {
    *total += s.write_request(t, CAP).unwrap().len();
    let rsp = encode_digests(V11, 0x01, announced);
    *total += rsp.len();
    let mut s: CertState = s.handle_response(&rsp, t).unwrap();
    let mut offset = 0;
    loop {
        *total += s.write_request(512, t, CAP).unwrap().len();
        let end = (offset + 512).min(c.len());
        let rsp = Certificate { slot: 0, remainder: (c.len() - end) as u16, portion: c[offset..end].to_vec() }.encode(V11);
        offset = end;
        match s.handle_response::<Toy>(&rsp, 512, &anchors(), t) {
            Ok(CertStep::More(next)) => {
                *total += rsp.len();
                s = next;
            }
            Ok(CertStep::Done(next)) => {
                *total += rsp.len();
                return Ok(next);
            }
            Err(rej) => return Err(rej.into_error()),
        }
    }
}

fn challenge_auth(nonce: [u8; 32], hash: Vec<u8>) -> ChallengeAuth {
    ChallengeAuth { slot: 0, slot_mask: 1, cert_chain_hash: hash, nonce, opaque: vec![], signature: vec![0xAB; 96] }
}

#[test]
fn full_handshake() {
    let mut t = Transcript::new();
    let (s, mut total) = negotiate(&mut t);
    let s = retrieve(&mut t, s, &Fold48::digest(&chain()), &mut total).unwrap();
    assert_eq!(s.slot.chain, chain());
    assert_eq!(s.slot.digest, Fold48::digest(&chain()));
    assert_eq!(s.slot.root_hash, ROOT.to_vec());
    let nonce = [7u8; 32];
    total += s.write_request(nonce, &mut t, CAP).unwrap().len();
    let rsp = challenge_auth(nonce, Fold48::digest(&chain())).encode(V11);
    total += rsp.len();
    let p = s.handle_response(&rsp, nonce, &mut t).unwrap();
    assert_eq!(p.signature, vec![0xAB; 96]);
    // The signature is the one part of the exchange that the transcript does not hold.
    assert_eq!(t.len(), total - 96);
    assert_eq!(&t.as_slice()[t.len() - 34..t.len() - 2], &nonce);
    let a = p.finish(true).unwrap();
    assert_eq!(a, Authenticated { version: ver(1, 1), base_hash_algo: SHA_384, base_asym_algo: ECDSA_P384, slot: 0 });
}

#[test]
fn nonce_mismatch() {
    let mut t = Transcript::new();
    let (s, mut total) = negotiate(&mut t);
    let s = retrieve(&mut t, s, &Fold48::digest(&chain()), &mut total).unwrap();
    let nonce = [7u8; 32];
    s.write_request(nonce, &mut t, CAP).unwrap();
    let mut other = nonce;
    other[31] = 8;
    let rsp = challenge_auth(other, Fold48::digest(&chain())).encode(V11);
    let before = t.len();
    match s.handle_response(&rsp, nonce, &mut t) {
        Err(Rejected::Kept(kept, RequesterError::NonceMismatch)) => assert_eq!(kept.slot.index, 0),
        other => panic!("unexpected {:?}", other),
    }
    assert_eq!(t.len(), before);
}

#[test]
fn challenge_digest_mismatch() {
    let mut t = Transcript::new();
    let (s, mut total) = negotiate(&mut t);
    let s = retrieve(&mut t, s, &Fold48::digest(&chain()), &mut total).unwrap();
    let nonce = [1u8; 32];
    let rsp = challenge_auth(nonce, vec![0; 48]).encode(V11);
    let r = s.handle_response(&rsp, nonce, &mut t);
    assert!(matches!(r, Err(Rejected::Kept(_, RequesterError::DigestMismatch))));
}

#[test]
fn signature_invalid() {
    let mut t = Transcript::new();
    let (s, mut total) = negotiate(&mut t);
    let s = retrieve(&mut t, s, &Fold48::digest(&chain()), &mut total).unwrap();
    let nonce = [2u8; 32];
    let rsp = challenge_auth(nonce, Fold48::digest(&chain())).encode(V11);
    let p = s.handle_response(&rsp, nonce, &mut t).unwrap();
    assert_eq!(p.finish(false), Err(RequesterError::SignatureInvalid));
}

#[test]
fn digest_mismatch_after_chunked_retrieval() {
    let mut t = Transcript::new();
    let (s, mut total) = negotiate(&mut t);
    let r = retrieve(&mut t, s, &[0x42; 48], &mut total);
    assert_eq!(r.err(), Some(RequesterError::DigestMismatch));
}

#[test]
fn digest_width_mismatch() {
    let mut t = Transcript::new();
    let (s, _) = negotiate(&mut t);
    let rsp = encode_digests(V11, 0x01, &[0; 48]);
    let s = s.handle_response(&rsp, &mut t).unwrap();
    let rsp = Certificate { slot: 0, remainder: 0, portion: vec![1, 2, 3] }.encode(V11);
    let r = s.handle_response::<ShortConfig>(&rsp, 512, &anchors(), &mut t);
    assert!(matches!(r, Err(Rejected::Kept(_, RequesterError::DigestWidthMismatch))));
}

#[test]
fn cert_chain_too_large() {
    let mut t = Transcript::new();
    let (s, _) = negotiate(&mut t);
    let rsp = encode_digests(V11, 0x01, &[0; 48]);
    let s = s.handle_response(&rsp, &mut t).unwrap();
    let first = Certificate { slot: 0, remainder: 1000, portion: vec![1; 600] }.encode(V11);
    let s = match s.handle_response::<Toy>(&first, 600, &anchors(), &mut t) {
        Ok(CertStep::More(s)) => s,
        other => panic!("unexpected {:?}", other),
    };
    let second = Certificate { slot: 0, remainder: 400, portion: vec![2; 600] }.encode(V11);
    let s = match s.handle_response::<Toy>(&second, 600, &anchors(), &mut t) {
        Ok(CertStep::More(s)) => s,
        other => panic!("unexpected {:?}", other),
    };
    assert_eq!(s.chain.len(), 1200);
    let third = Certificate { slot: 0, remainder: 0, portion: vec![3; 400] }.encode(V11);
    assert!(1600 > MAX_CERT_CHAIN_SIZE);
    match s.handle_response::<Toy>(&third, 600, &anchors(), &mut t) {
        Err(Rejected::Kept(kept, RequesterError::CertChainTooLarge)) => assert_eq!(kept.chain.len(), 1200),
        other => panic!("unexpected {:?}", other),
    }
}

#[test]
fn certificate_chunk_checks() {
    let mut t = Transcript::new();
    let (s, _) = negotiate(&mut t);
    let rsp = encode_digests(V11, 0x01, &[0; 48]);
    let s = s.handle_response(&rsp, &mut t).unwrap();
    let big = Certificate { slot: 0, remainder: 0, portion: vec![1; 100] }.encode(V11);
    let s = match s.handle_response::<Toy>(&big, 50, &anchors(), &mut t) {
        Err(Rejected::Kept(s, RequesterError::CertChainInvalid)) => s,
        other => panic!("unexpected {:?}", other),
    };
    let wrong_slot = Certificate { slot: 3, remainder: 0, portion: vec![1; 10] }.encode(V11);
    let s = match s.handle_response::<Toy>(&wrong_slot, 50, &anchors(), &mut t) {
        Err(Rejected::Kept(s, RequesterError::SlotIndexOutOfRange)) => s,
        other => panic!("unexpected {:?}", other),
    };
    let first = Certificate { slot: 0, remainder: 90, portion: vec![1; 10] }.encode(V11);
    let s = match s.handle_response::<Toy>(&first, 50, &anchors(), &mut t) {
        Ok(CertStep::More(s)) => s,
        other => panic!("unexpected {:?}", other),
    };
    assert_eq!(s.total, Some(100));
    let inconsistent = Certificate { slot: 0, remainder: 10, portion: vec![1; 10] }.encode(V11);
    let r = s.handle_response::<Toy>(&inconsistent, 50, &anchors(), &mut t);
    assert!(matches!(r, Err(Rejected::Kept(_, RequesterError::CertChainInvalid))));
}

#[test]
fn digests_without_slot_zero() {
    let mut t = Transcript::new();
    let (s, _) = negotiate(&mut t);
    let rsp = encode_digests(V11, 0x02, &[0; 48]);
    let r = s.handle_response(&rsp, &mut t);
    assert!(matches!(r, Err(Rejected::Kept(_, RequesterError::SlotIndexOutOfRange))));
}

#[test]
fn digests_of_higher_slots_are_dropped() {
    let mut t = Transcript::new();
    let (s, _) = negotiate(&mut t);
    let mut ds = vec![0x11; 48];
    ds.extend(vec![0x22; 48]);
    let rsp = encode_digests(V11, 0x81, &ds);
    let s = s.handle_response(&rsp, &mut t).unwrap();
    assert_eq!(s.digest, vec![0x11; 48]);
    assert_eq!(s.slot, 0);
}

#[test]
fn version_downgrade_rejected() {
    let mut t = Transcript::new();
    let s = start();
    s.write_request(&mut t, CAP).unwrap();
    let rsp = encode_version(&[ver(1, 0), ver(1, 1), ver(1, 2)]);
    let s = s.handle_response(&rsp, &[ver(1, 1), ver(1, 2)], &mut t).unwrap();
    assert_eq!(s.version, ver(1, 2));
    let req = CapabilitiesMsg { ct_exponent: 12, flags: 0x06 };
    s.write_request(req, &mut t, CAP).unwrap();
    let rsp = CapabilitiesMsg { ct_exponent: 10, flags: 0x06 }.encode(0x11, CAPABILITIES);
    let before = t.len();
    match s.handle_response(&rsp, req, &mut t) {
        Err(Rejected::Kept(kept, RequesterError::VersionMismatch)) => assert_eq!(kept, s),
        other => panic!("unexpected {:?}", other),
    }
    assert_eq!(t.len(), before);
}

#[test]
fn responder_error_terminates() {
    let mut t = Transcript::new();
    let s = start();
    s.write_request(&mut t, CAP).unwrap();
    let rsp = ErrorRsp { code: 0x05, data: 0x00, extended: vec![1] }.encode(0x10);
    let r = s.handle_response(&rsp, &[ver(1, 1)], &mut t);
    assert!(matches!(r, Err(Rejected::Ended(RequesterError::ResponderError { code: 0x05, data: 0x00 }))));
    let (s, _) = negotiate(&mut t);
    let rsp = ErrorRsp { code: 0x41, data: 0x02, extended: vec![] }.encode(V11);
    let r = s.handle_response(&rsp, &mut t);
    assert!(matches!(r, Err(Rejected::Ended(RequesterError::ResponderError { code: 0x41, data: 0x02 }))));
}

#[test]
fn later_message_refused_by_version_state() {
    let mut t = Transcript::new();
    let s: VersionState = start();
    let rsp = challenge_auth([0; 32], vec![0; 48]).encode(0x10);
    let r = s.handle_response(&rsp, &[ver(1, 1)], &mut t);
    assert!(matches!(r, Err(Rejected::Kept(_, RequesterError::UnexpectedMsg { expected: VERSION, got: 0x03 }))));
    assert_eq!(t.len(), 0);
}

#[test]
fn version_selection() {
    let mut t = Transcript::new();
    let rsp = encode_version(&[ver(1, 2), ver(1, 0), VersionEntry { major: 1, minor: 2, update: 1, alpha: 0 }]);
    let s = start().handle_response(&rsp, &[ver(1, 0), ver(1, 2)], &mut t).unwrap();
    assert_eq!(s.version, VersionEntry { major: 1, minor: 2, update: 1, alpha: 0 });
    let mut t = Transcript::new();
    let r = start().handle_response(&rsp, &[ver(2, 0)], &mut t);
    assert!(matches!(r, Err(Rejected::Kept(_, RequesterError::NoCommonVersion))));
}

#[test]
fn version_transcript_holds_both_messages() {
    let mut t = Transcript::new();
    let s = start();
    let req = s.write_request(&mut t, CAP).unwrap();
    assert_eq!(req, vec![0x10, GET_VERSION, 0, 0]);
    let rsp = encode_version(&[ver(1, 1)]);
    s.handle_response(&rsp, &[ver(1, 1)], &mut t).unwrap();
    let mut both = req.clone();
    both.extend(rsp);
    assert_eq!(t.as_slice(), both.as_slice());
}

#[test]
fn trailing_bytes() {
    let mut t = Transcript::new();
    let mut rsp = encode_version(&[ver(1, 1)]);
    rsp.push(0);
    let r = start().handle_response(&rsp, &[ver(1, 1)], &mut t);
    assert!(matches!(r, Err(Rejected::Kept(_, RequesterError::TrailingBytes))));
}

#[test]
fn buffer_too_small() {
    let mut t = Transcript::new();
    assert_eq!(start().write_request(&mut t, 3), Err(RequesterError::BufferTooSmall));
    assert_eq!(t.len(), 0);
}

#[test]
fn transcript_overflow() {
    let mut t = Transcript::new();
    assert_eq!(t.append(&vec![0; 2046]), Ok(()));
    assert_eq!(start().write_request(&mut t, CAP), Err(RequesterError::TranscriptOverflow));
    assert_eq!(t.len(), 2046);
    assert_eq!(t.append(&[1, 2]), Ok(()));
    assert_eq!(t.len(), 2048);
    assert_eq!(t.append(&[3]), Err(RequesterError::TranscriptOverflow));
}

#[test]
fn transcript_digest() {
    let mut t = Transcript::new();
    t.append(&[1, 2, 3]).unwrap();
    assert_eq!(t.digest::<Fold48>(), Fold48::digest(&[1, 2, 3]));
}

#[test]
fn capability_rules() {
    assert!(check_responder_flags(0x06));
    // MEAS_CAP without CERT_CAP
    assert!(!check_responder_flags(0x08));
    assert!(check_responder_flags(0x0A));
    // reserved MEAS_CAP value
    assert!(!check_responder_flags(0x1A));
    // ENCRYPT_CAP without a key exchange
    assert!(!check_responder_flags(0x40));
    assert!(check_responder_flags(0x240));
    // KEY_EX_CAP without protection
    assert!(!check_responder_flags(0x200));
    // reserved PSK_CAP value
    assert!(!check_responder_flags(0xC80));
}

#[test]
fn invalid_capability_combination() {
    let mut t = Transcript::new();
    let s = CapabilitiesState { version: ver(1, 1) };
    let req = CapabilitiesMsg { ct_exponent: 0, flags: 0 };
    let rsp = CapabilitiesMsg { ct_exponent: 0, flags: 0x08 }.encode(V11, CAPABILITIES);
    let r = s.handle_response(&rsp, req, &mut t);
    assert!(matches!(r, Err(Rejected::Kept(_, RequesterError::InvalidCapabilityCombination))));
}

#[test]
fn no_common_algorithm() {
    let mut t = Transcript::new();
    let s = CapabilitiesState { version: ver(1, 1) };
    let req = CapabilitiesMsg { ct_exponent: 0, flags: 0x06 };
    let rsp = CapabilitiesMsg { ct_exponent: 0, flags: 0x06 }.encode(V11, CAPABILITIES);
    let s = s.handle_response(&rsp, req, &mut t).unwrap();
    let offer = AlgorithmsMsg { measurement_spec: 0, base_asym_algo: 0x10, base_hash_algo: 0x01 };
    let not_offered = AlgorithmsMsg { measurement_spec: 0, base_asym_algo: 0x10, base_hash_algo: 0x02 };
    let r = s.handle_response(&not_offered.encode(V11, ALGORITHMS), offer, &mut t);
    let s = match r {
        Err(Rejected::Kept(s, RequesterError::NoCommonAlgorithm)) => s,
        other => panic!("unexpected {:?}", other),
    };
    let two = AlgorithmsMsg { measurement_spec: 0, base_asym_algo: 0x10, base_hash_algo: 0x03 };
    let r = s.handle_response(&two.encode(V11, ALGORITHMS), offer, &mut t);
    assert!(matches!(r, Err(Rejected::Kept(_, RequesterError::NoCommonAlgorithm))));
    let good = AlgorithmsMsg { measurement_spec: 0, base_asym_algo: 0x10, base_hash_algo: 0x01 };
    let id = s.handle_response(&good.encode(V11, ALGORITHMS), offer, &mut t).unwrap();
    assert_eq!(id, IdAuthState::from(s, good));
}

#[test]
fn expect_by_type() {
    assert_eq!(expect::<Version>(&[0x10, VERSION, 0, 0], 0x10), Ok(()));
    assert_eq!(
        expect::<Capabilities>(&[0x10, VERSION, 0, 0], 0x10),
        Err(RequesterError::UnexpectedMsg { expected: CAPABILITIES, got: VERSION })
    );
    assert_eq!(expect::<Version>(&[0x10], 0x10), Err(RequesterError::HeaderTooShort));
}

#[test]
fn same_response_same_successor() {
    let rsp = encode_version(&[ver(1, 0), ver(1, 1)]);
    let mut t1 = Transcript::new();
    let mut t2 = Transcript::new();
    let a = start().handle_response(&rsp, &[ver(1, 1)], &mut t1).unwrap();
    let b = start().handle_response(&rsp, &[ver(1, 1)], &mut t2).unwrap();
    assert_eq!(a, b);
    assert_eq!(t1.as_slice(), t2.as_slice());
}

#[test]
fn byte_comparison() {
    assert!(same_bytes(&[1, 2], &[1, 2]));
    assert!(!same_bytes(&[1, 2], &[1, 3]));
    assert!(!same_bytes(&[1], &[1, 2]));
}

#[test]
fn untrusted_root() {
    let mut t = Transcript::new();
    let (s, mut total) = negotiate(&mut t);
    let c = chain_with_root(&[0x01; 48]);
    let r = retrieve_chain(&mut t, s, &c, &Fold48::digest(&c), &mut total);
    assert_eq!(r.err(), Some(RequesterError::UntrustedRoot));
}

#[test]
fn chain_header_length_must_match() {
    let mut t = Transcript::new();
    let (s, mut total) = negotiate(&mut t);
    let mut c = chain();
    c[0] = 0xE7;
    let r = retrieve_chain(&mut t, s, &c, &Fold48::digest(&c), &mut total);
    assert_eq!(r.err(), Some(RequesterError::CertChainInvalid));
}

#[test]
fn chain_header_and_anchors() {
    let c = chain();
    assert!(check_chain_header(&c, 48));
    assert!(!check_chain_header(&c[..51], 48));
    assert!(is_trusted(&anchors(), &ROOT));
    assert!(!is_trusted(&anchors(), &[0x3C; 32]));
    assert!(!is_trusted(&[], &ROOT));
}
