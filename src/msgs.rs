use vstd::prelude::*;

use crate::error::RequesterError;
use crate::wire::{
    copy_range, le16_at, le16_bytes, le32_at, le32_bytes, lemma_le16_round_trip, lemma_le32_round_trip, push_all,
    push_u16, push_u32, read_u16, read_u32,
};

verus! {

/// The version byte that `GET_VERSION` and `VERSION` always carry.
pub const VERSION_BYTE_INITIAL: u8 = 0x10;

pub const GET_VERSION: u8 = 0x84;
pub const VERSION: u8 = 0x04;
pub const GET_CAPABILITIES: u8 = 0xE1;
pub const CAPABILITIES: u8 = 0x61;
pub const NEGOTIATE_ALGORITHMS: u8 = 0xE3;
pub const ALGORITHMS: u8 = 0x63;
pub const GET_DIGESTS: u8 = 0x81;
pub const DIGESTS: u8 = 0x01;
pub const GET_CERTIFICATE: u8 = 0x82;
pub const CERTIFICATE: u8 = 0x02;
pub const CHALLENGE: u8 = 0x83;
pub const CHALLENGE_AUTH: u8 = 0x03;
pub const ERROR: u8 = 0x7F;

/// Length of every message header.
pub const HEADER_SIZE: usize = 4;

/// Length of a challenge nonce.
pub const NONCE_SIZE: usize = 32;

/// The four header bytes.
pub open spec fn header(version: u8, code: u8, p1: u8, p2: u8) -> Seq<u8> {
    seq![version, code, p1, p2]
}

/// What is wrong with the header of `b`, read as a message `code` of `version`, if anything.
/// An `ERROR` response is reported as such whatever was expected.
pub open spec fn header_error(b: Seq<u8>, version: u8, code: u8) -> Option<RequesterError> {
    if b.len() < 4 {
        Some(RequesterError::HeaderTooShort)
    } else if b[1] == ERROR && code != ERROR {
        Some(RequesterError::ResponderError { code: b[2], data: b[3] })
    } else if b[1] != code {
        Some(RequesterError::UnexpectedMsg { expected: code, got: b[1] })
    } else if b[0] != version {
        Some(RequesterError::VersionMismatch)
    } else {
        None
    }
}

/// Checks the header of `b` against `version` and `code`.
pub fn check_header(b: &[u8], version: u8, code: u8) -> (r: Option<RequesterError>)
    ensures
        r == header_error(b@, version, code),
{
    if b.len() < 4 {
        Some(RequesterError::HeaderTooShort)
    } else if b[1] == ERROR && code != ERROR {
        Some(RequesterError::ResponderError { code: b[2], data: b[3] })
    } else if b[1] != code {
        Some(RequesterError::UnexpectedMsg { expected: code, got: b[1] })
    } else if b[0] != version {
        Some(RequesterError::VersionMismatch)
    } else {
        None
    }
}

/// Whether `b` starts with the header of a message `code` of `version`.
pub fn parse_header(b: &[u8], version: u8, code: u8) -> (r: Result<bool, RequesterError>)
    ensures
        b@.len() < 4 <==> r == Err::<bool, RequesterError>(RequesterError::HeaderTooShort),
        b@.len() >= 4 ==> r == Ok::<bool, RequesterError>(b@[0] == version && b@[1] == code),
{
    if b.len() < 4 {
        Err(RequesterError::HeaderTooShort)
    } else {
        Ok(b[0] == version && b[1] == code)
    }
}

// ---------------------------------------------------------------------------
// Header-only messages: GET_VERSION, GET_DIGESTS.

/// The encoding of a message with no payload and zero parameters.
pub open spec fn spec_encode_bare(version: u8, code: u8) -> Seq<u8> {
    header(version, code, 0, 0)
}

pub open spec fn spec_parse_bare(b: Seq<u8>, version: u8, code: u8) -> Result<nat, RequesterError> {
    match header_error(b, version, code) {
        Some(e) => Err(e),
        None => if b[2] != 0 || b[3] != 0 {
            Err(RequesterError::ReservedFieldNonzero)
        } else {
            Ok(4)
        },
    }
}

pub fn encode_bare(version: u8, code: u8) -> (r: Vec<u8>)
    ensures
        r@ == spec_encode_bare(version, code),
{
    let r = vec![version, code, 0u8, 0u8];
    assert(r@ == spec_encode_bare(version, code));
    r
}

/// Parses a message with no payload; returns its length.
pub fn parse_bare(b: &[u8], version: u8, code: u8) -> (r: Result<usize, RequesterError>)
    ensures
        r matches Ok(n) ==> spec_parse_bare(b@, version, code) == Ok::<nat, RequesterError>(n as nat),
        r matches Err(e) ==> spec_parse_bare(b@, version, code) == Err::<nat, RequesterError>(e),
{
    match check_header(b, version, code) {
        Some(e) => Err(e),
        None => if b[2] != 0 || b[3] != 0 {
            Err(RequesterError::ReservedFieldNonzero)
        } else {
            Ok(4)
        },
    }
}

/// Parsing the encoding of a header-only message gives it back, with nothing left over.
pub proof fn lemma_bare_round_trip(version: u8, code: u8)
    requires
        code != ERROR,
    ensures
        spec_parse_bare(spec_encode_bare(version, code), version, code) == Ok::<nat, RequesterError>(
            spec_encode_bare(version, code).len(),
        ),
{
}

// ---------------------------------------------------------------------------
// GET_CAPABILITIES and CAPABILITIES.

/// The payload of `GET_CAPABILITIES` and `CAPABILITIES`.
#[derive(Debug, Clone, Copy, PartialEq, Eq, Structural)]
pub struct CapabilitiesMsg {
    pub ct_exponent: u8,
    pub flags: u32,
}

/// Length of a capabilities message.
pub const CAPABILITIES_SIZE: usize = 12;

impl CapabilitiesMsg {
    pub open spec fn spec_encode(self, version: u8, code: u8) -> Seq<u8> {
        header(version, code, 0, 0) + seq![0u8, self.ct_exponent, 0u8, 0u8] + le32_bytes(self.flags)
    }

    pub open spec fn spec_parse(b: Seq<u8>, version: u8, code: u8) -> Result<(CapabilitiesMsg, nat), RequesterError> {
        match header_error(b, version, code) {
            Some(e) => Err(e),
            None => if b.len() < 12 {
                Err(RequesterError::PayloadTooShort)
            } else if b[2] != 0 || b[3] != 0 || b[4] != 0 || b[6] != 0 || b[7] != 0 {
                Err(RequesterError::ReservedFieldNonzero)
            } else {
                Ok((CapabilitiesMsg { ct_exponent: b[5], flags: le32_at(b, 8) as u32 }, 12))
            },
        }
    }

    pub fn encode(&self, version: u8, code: u8) -> (r: Vec<u8>)
        ensures
            r@ == self.spec_encode(version, code),
    {
        let mut r = vec![version, code, 0u8, 0u8, 0u8, self.ct_exponent, 0u8, 0u8];
        push_u32(&mut r, self.flags);
        assert(r@ == self.spec_encode(version, code));
        r
    }

    pub fn parse(b: &[u8], version: u8, code: u8) -> (r: Result<(CapabilitiesMsg, usize), RequesterError>)
        ensures
            r matches Ok((m, n)) ==> Self::spec_parse(b@, version, code) == Ok::<(CapabilitiesMsg, nat), RequesterError>((m, n as nat)),
            r matches Err(e) ==> Self::spec_parse(b@, version, code) == Err::<(CapabilitiesMsg, nat), RequesterError>(e),
    {
        if let Some(e) = check_header(b, version, code) {
            return Err(e);
        }
        if b.len() < 12 {
            Err(RequesterError::PayloadTooShort)
        } else if b[2] != 0 || b[3] != 0 || b[4] != 0 || b[6] != 0 || b[7] != 0 {
            Err(RequesterError::ReservedFieldNonzero)
        } else {
            let flags = read_u32(b, 8);
            Ok((CapabilitiesMsg { ct_exponent: b[5], flags }, 12))
        }
    }

    /// Parsing the encoding of a capabilities message gives it back, with nothing left over.
    #[verifier::rlimit(40)]
    pub proof fn lemma_round_trip(self, version: u8, code: u8)
        requires
            code != ERROR,
        ensures
            Self::spec_parse(self.spec_encode(version, code), version, code) == Ok::<(CapabilitiesMsg, nat), RequesterError>(
                (self, self.spec_encode(version, code).len()),
            ),
    {
        let b = self.spec_encode(version, code);
        let f = le32_bytes(self.flags);
        lemma_le32_round_trip(self.flags);
        assert(b[8] == f[0] && b[9] == f[1] && b[10] == f[2] && b[11] == f[3]);
        assert(le32_at(b, 8) == le32_at(f, 0));
    }
}


// ---------------------------------------------------------------------------
// NEGOTIATE_ALGORITHMS and ALGORITHMS.

/// The payload of `NEGOTIATE_ALGORITHMS` (algorithms offered, as bit sets) and of
/// `ALGORITHMS` (algorithms selected).
#[derive(Debug, Clone, Copy, PartialEq, Eq, Structural)]
pub struct AlgorithmsMsg {
    pub measurement_spec: u8,
    pub base_asym_algo: u32,
    pub base_hash_algo: u32,
}

/// Length of an algorithms message.
pub const ALGORITHMS_SIZE: usize = 14;

impl AlgorithmsMsg {
    pub open spec fn spec_encode(self, version: u8, code: u8) -> Seq<u8> {
        header(version, code, 0, 0) + seq![self.measurement_spec, 0u8] + le32_bytes(self.base_asym_algo)
            + le32_bytes(self.base_hash_algo)
    }

    pub open spec fn spec_parse(b: Seq<u8>, version: u8, code: u8) -> Result<(AlgorithmsMsg, nat), RequesterError> {
        match header_error(b, version, code) {
            Some(e) => Err(e),
            None => if b.len() < 14 {
                Err(RequesterError::PayloadTooShort)
            } else if b[2] != 0 || b[3] != 0 || b[5] != 0 {
                Err(RequesterError::ReservedFieldNonzero)
            } else {
                Ok((
                    AlgorithmsMsg {
                        measurement_spec: b[4],
                        base_asym_algo: le32_at(b, 6) as u32,
                        base_hash_algo: le32_at(b, 10) as u32,
                    },
                    14,
                ))
            },
        }
    }

    pub fn encode(&self, version: u8, code: u8) -> (r: Vec<u8>)
        ensures
            r@ == self.spec_encode(version, code),
    {
        let mut r = vec![version, code, 0u8, 0u8, self.measurement_spec, 0u8];
        push_u32(&mut r, self.base_asym_algo);
        push_u32(&mut r, self.base_hash_algo);
        assert(r@ == self.spec_encode(version, code));
        r
    }

    pub fn parse(b: &[u8], version: u8, code: u8) -> (r: Result<(AlgorithmsMsg, usize), RequesterError>)
        ensures
            r matches Ok((m, n)) ==> Self::spec_parse(b@, version, code) == Ok::<(AlgorithmsMsg, nat), RequesterError>((m, n as nat)),
            r matches Err(e) ==> Self::spec_parse(b@, version, code) == Err::<(AlgorithmsMsg, nat), RequesterError>(e),
    {
        if let Some(e) = check_header(b, version, code) {
            return Err(e);
        }
        if b.len() < 14 {
            Err(RequesterError::PayloadTooShort)
        } else if b[2] != 0 || b[3] != 0 || b[5] != 0 {
            Err(RequesterError::ReservedFieldNonzero)
        } else {
            let base_asym_algo = read_u32(b, 6);
            let base_hash_algo = read_u32(b, 10);
            Ok((AlgorithmsMsg { measurement_spec: b[4], base_asym_algo, base_hash_algo }, 14))
        }
    }

    /// Parsing the encoding of an algorithms message gives it back, with nothing left over.
    #[verifier::rlimit(40)]
    pub proof fn lemma_round_trip(self, version: u8, code: u8)
        requires
            code != ERROR,
        ensures
            Self::spec_parse(self.spec_encode(version, code), version, code) == Ok::<(AlgorithmsMsg, nat), RequesterError>(
                (self, self.spec_encode(version, code).len()),
            ),
    {
        let b = self.spec_encode(version, code);
        let a = le32_bytes(self.base_asym_algo);
        let h = le32_bytes(self.base_hash_algo);
        lemma_le32_round_trip(self.base_asym_algo);
        lemma_le32_round_trip(self.base_hash_algo);
        assert(b[6] == a[0] && b[7] == a[1] && b[8] == a[2] && b[9] == a[3]);
        assert(b[10] == h[0] && b[11] == h[1] && b[12] == h[2] && b[13] == h[3]);
        assert(le32_at(b, 6) == le32_at(a, 0));
        assert(le32_at(b, 10) == le32_at(h, 0));
    }
}

// ---------------------------------------------------------------------------
// GET_CERTIFICATE.

/// A request for `length` bytes of the chain in `slot`, from `offset` on.
#[derive(Debug, Clone, Copy, PartialEq, Eq, Structural)]
pub struct GetCertificate {
    pub slot: u8,
    pub offset: u16,
    pub length: u16,
}

/// Length of a `GET_CERTIFICATE` message.
pub const GET_CERTIFICATE_SIZE: usize = 8;

impl GetCertificate {
    pub open spec fn spec_encode(self, version: u8) -> Seq<u8> {
        header(version, GET_CERTIFICATE, self.slot, 0) + le16_bytes(self.offset) + le16_bytes(self.length)
    }

    pub open spec fn spec_parse(b: Seq<u8>, version: u8) -> Result<(GetCertificate, nat), RequesterError> {
        match header_error(b, version, GET_CERTIFICATE) {
            Some(e) => Err(e),
            None => if b.len() < 8 {
                Err(RequesterError::PayloadTooShort)
            } else if b[3] != 0 {
                Err(RequesterError::ReservedFieldNonzero)
            } else {
                Ok((GetCertificate { slot: b[2], offset: le16_at(b, 4) as u16, length: le16_at(b, 6) as u16 }, 8))
            },
        }
    }

    pub fn encode(&self, version: u8) -> (r: Vec<u8>)
        ensures
            r@ == self.spec_encode(version),
    {
        let mut r = vec![version, GET_CERTIFICATE, self.slot, 0u8];
        push_u16(&mut r, self.offset);
        push_u16(&mut r, self.length);
        assert(r@ == self.spec_encode(version));
        r
    }

    pub fn parse(b: &[u8], version: u8) -> (r: Result<(GetCertificate, usize), RequesterError>)
        ensures
            r matches Ok((m, n)) ==> Self::spec_parse(b@, version) == Ok::<(GetCertificate, nat), RequesterError>((m, n as nat)),
            r matches Err(e) ==> Self::spec_parse(b@, version) == Err::<(GetCertificate, nat), RequesterError>(e),
    {
        if let Some(e) = check_header(b, version, GET_CERTIFICATE) {
            return Err(e);
        }
        if b.len() < 8 {
            Err(RequesterError::PayloadTooShort)
        } else if b[3] != 0 {
            Err(RequesterError::ReservedFieldNonzero)
        } else {
            let offset = read_u16(b, 4);
            let length = read_u16(b, 6);
            Ok((GetCertificate { slot: b[2], offset, length }, 8))
        }
    }

    /// Parsing the encoding of a `GET_CERTIFICATE` gives it back, with nothing left over.
    pub proof fn lemma_round_trip(self, version: u8)
        ensures
            Self::spec_parse(self.spec_encode(version), version) == Ok::<(GetCertificate, nat), RequesterError>(
                (self, self.spec_encode(version).len()),
            ),
    {
        let b = self.spec_encode(version);
        lemma_le16_round_trip(self.offset);
        lemma_le16_round_trip(self.length);
        assert(le16_at(b, 4) == le16_at(le16_bytes(self.offset), 0));
        assert(le16_at(b, 6) == le16_at(le16_bytes(self.length), 0));
    }
}

// ---------------------------------------------------------------------------
// CHALLENGE.

/// A challenge of the chain in `slot`, with a fresh nonce.
#[derive(Debug, Clone, Copy, PartialEq, Eq)]
pub struct Challenge {
    pub slot: u8,
    pub hash_type: u8,
    pub nonce: [u8; 32],
}

/// Length of a `CHALLENGE` message.
pub const CHALLENGE_SIZE: usize = 36;

impl Challenge {
    pub open spec fn spec_encode(self, version: u8) -> Seq<u8> {
        header(version, CHALLENGE, self.slot, self.hash_type) + self.nonce@
    }

    pub open spec fn spec_parse(b: Seq<u8>, version: u8) -> Result<(Challenge, nat), RequesterError> {
        match header_error(b, version, CHALLENGE) {
            Some(e) => Err(e),
            None => if b.len() < 36 {
                Err(RequesterError::PayloadTooShort)
            } else {
                Ok((Challenge { slot: b[2], hash_type: b[3], nonce: nonce_of(b.subrange(4, 36)) }, 36))
            },
        }
    }

    pub fn encode(&self, version: u8) -> (r: Vec<u8>)
        ensures
            r@ == self.spec_encode(version),
    {
        let mut r = vec![version, CHALLENGE, self.slot, self.hash_type];
        push_all(&mut r, self.nonce.as_slice());
        r
    }

    pub fn parse(b: &[u8], version: u8) -> (r: Result<(Challenge, usize), RequesterError>)
        ensures
            r matches Ok((m, n)) ==> Self::spec_parse(b@, version) == Ok::<(Challenge, nat), RequesterError>((m, n as nat)),
            r matches Err(e) ==> Self::spec_parse(b@, version) == Err::<(Challenge, nat), RequesterError>(e),
    {
        if let Some(e) = check_header(b, version, CHALLENGE) {
            return Err(e);
        }
        if b.len() < 36 {
            Err(RequesterError::PayloadTooShort)
        } else {
            let nonce = read_nonce(b, 4);
            Ok((Challenge { slot: b[2], hash_type: b[3], nonce }, 36))
        }
    }

    /// Parsing the encoding of a `CHALLENGE` gives it back, with nothing left over.
    pub proof fn lemma_round_trip(self, version: u8)
        ensures
            Self::spec_parse(self.spec_encode(version), version) == Ok::<(Challenge, nat), RequesterError>(
                (self, self.spec_encode(version).len()),
            ),
    {
        let b = self.spec_encode(version);
        assert(b.subrange(4, 36) == self.nonce@);
        lemma_nonce_of_view(self.nonce);
    }
}

/// The nonce whose bytes are `s` (of length 32).
pub open spec fn nonce_of(s: Seq<u8>) -> [u8; 32] {
    choose|n: [u8; 32]| n@ == s
}

pub proof fn lemma_nonce_of_view(n: [u8; 32])
    ensures
        nonce_of(n@) == n,
{
    let m = nonce_of(n@);
    assert(n@ == n@);
    assert(m@ == n@);
    assert(m == n);
}

/// Reads the 32 nonce bytes at `i`.
pub fn read_nonce(b: &[u8], i: usize) -> (r: [u8; 32])
    requires
        i + 32 <= b@.len(),
    ensures
        r@ == b@.subrange(i as int, i + 32),
        r == nonce_of(b@.subrange(i as int, i + 32)),
{
    let mut r = [0u8; 32];
    let n: usize = b.len();
    let mut k: usize = 0;
    while k < 32
        invariant
            i + 32 <= b@.len(),
            n == b@.len(),
            k <= 32,
            r@.len() == 32,
            forall|j: int| 0 <= j < k ==> r@[j] == b@[i + j],
        decreases 32 - k,
    {
        r[k] = b[i + k];
        k = k + 1;
    }
    assert(r@ == b@.subrange(i as int, i + 32));
    proof {
        lemma_nonce_of_view(r);
    }
    r
}


// ---------------------------------------------------------------------------
// VERSION.

/// A protocol version `major.minor.update.alpha`, each part a nibble.
#[derive(Debug, Clone, Copy, PartialEq, Eq, Structural)]
pub struct VersionEntry {
    pub major: u8,
    pub minor: u8,
    pub update: u8,
    pub alpha: u8,
}

impl VersionEntry {
    /// Each part fits in four bits.
    pub open spec fn wf(self) -> bool {
        self.major < 16 && self.minor < 16 && self.update < 16 && self.alpha < 16
    }

    /// The value by which entries are ordered: (major, minor, update, alpha) lexicographically.
    pub open spec fn key(self) -> int {
        self.major * 4096 + self.minor * 256 + self.update * 16 + self.alpha
    }

    /// The entry held in the two wire bytes `lo`, `hi`.
    pub open spec fn from_bytes(lo: u8, hi: u8) -> VersionEntry {
        VersionEntry { major: hi / 16, minor: hi % 16, update: lo / 16, alpha: lo % 16 }
    }

    /// The low wire byte.
    pub open spec fn lo(self) -> u8 {
        (self.update * 16 + self.alpha) as u8
    }

    /// The high wire byte.
    pub open spec fn hi(self) -> u8 {
        (self.major * 16 + self.minor) as u8
    }

    /// The version byte of message headers once this version is negotiated.
    pub open spec fn spec_version_byte(self) -> u8 {
        self.hi()
    }

    pub fn version_byte(&self) -> (r: u8)
        requires
            self.wf(),
        ensures
            r == self.spec_version_byte(),
    {
        self.major * 16 + self.minor
    }

    pub fn key_of(&self) -> (r: u16)
        requires
            self.wf(),
        ensures
            r == self.key(),
    {
        (self.major as u16) * 4096 + (self.minor as u16) * 256 + (self.update as u16) * 16 + (self.alpha as u16)
    }

    pub proof fn lemma_bytes_round_trip(self)
        requires
            self.wf(),
        ensures
            Self::from_bytes(self.lo(), self.hi()) == self,
    {
        let (a, b, c, d) = (self.major as int, self.minor as int, self.update as int, self.alpha as int);
        assert((a * 16 + b) / 16 == a && (a * 16 + b) % 16 == b) by (nonlinear_arith)
            requires 0 <= a < 16, 0 <= b < 16;
        assert((c * 16 + d) / 16 == c && (c * 16 + d) % 16 == d) by (nonlinear_arith)
            requires 0 <= c < 16, 0 <= d < 16;
    }

    pub proof fn lemma_from_bytes_wf(lo: u8, hi: u8)
        ensures
            Self::from_bytes(lo, hi).wf(),
    {
    }
}

/// The wire bytes of a list of version entries, two per entry.
pub open spec fn entries_bytes(es: Seq<VersionEntry>) -> Seq<u8> {
    Seq::new(2 * es.len(), |j: int| if j % 2 == 0 { es[j / 2].lo() } else { es[j / 2].hi() })
}

/// The `count` entries that start at `start` in `b`.
pub open spec fn entries_at(b: Seq<u8>, start: int, count: nat) -> Seq<VersionEntry> {
    Seq::new(count, |i: int| VersionEntry::from_bytes(b[start + 2 * i], b[start + 2 * i + 1]))
}

/// The encoding of a `VERSION` response listing `es`.
pub open spec fn spec_encode_version(es: Seq<VersionEntry>) -> Seq<u8> {
    header(VERSION_BYTE_INITIAL, VERSION, 0, 0) + seq![0u8, es.len() as u8] + entries_bytes(es)
}

pub open spec fn spec_parse_version(b: Seq<u8>) -> Result<(Seq<VersionEntry>, nat), RequesterError> {
    match header_error(b, VERSION_BYTE_INITIAL, VERSION) {
        Some(e) => Err(e),
        None => if b.len() < 6 {
            Err(RequesterError::PayloadTooShort)
        } else if b[2] != 0 || b[3] != 0 || b[4] != 0 {
            Err(RequesterError::ReservedFieldNonzero)
        } else if b.len() < 6 + 2 * b[5] {
            Err(RequesterError::PayloadTooShort)
        } else {
            Ok((entries_at(b, 6, b[5] as nat), (6 + 2 * b[5]) as nat))
        },
    }
}

/// Encodes a `VERSION` response.
pub fn encode_version(es: &[VersionEntry]) -> (r: Vec<u8>)
    requires
        es@.len() <= 255,
        forall|i: int| 0 <= i < es@.len() ==> (#[trigger] es@[i]).wf(),
    ensures
        r@ == spec_encode_version(es@),
{
    let mut r = vec![VERSION_BYTE_INITIAL, VERSION, 0u8, 0u8, 0u8, es.len() as u8];
    let ghost head = r@;
    let mut i: usize = 0;
    while i < es.len()
        invariant
            i <= es@.len() <= 255,
            forall|k: int| 0 <= k < es@.len() ==> (#[trigger] es@[k]).wf(),
            r@ == head + entries_bytes(es@.subrange(0, i as int)),
        decreases es@.len() - i,
    {
        let e = es[i];
        r.push(e.alpha + e.update * 16);
        r.push(e.minor + e.major * 16);
        i = i + 1;
        assert(entries_bytes(es@.subrange(0, i as int)) =~= entries_bytes(es@.subrange(0, i - 1)) + seq![e.lo(), e.hi()]);
    }
    assert(es@.subrange(0, es@.len() as int) == es@);
    assert(head == header(VERSION_BYTE_INITIAL, VERSION, 0, 0) + seq![0u8, es@.len() as u8]);
    r
}

/// Parses a `VERSION` response: its entries and its length.
pub fn parse_version(b: &[u8]) -> (r: Result<(Vec<VersionEntry>, usize), RequesterError>)
    ensures
        r matches Ok((es, n)) ==> spec_parse_version(b@) == Ok::<(Seq<VersionEntry>, nat), RequesterError>((es@, n as nat)),
        r matches Err(e) ==> spec_parse_version(b@) == Err::<(Seq<VersionEntry>, nat), RequesterError>(e),
{
    if let Some(e) = check_header(b, VERSION_BYTE_INITIAL, VERSION) {
        return Err(e);
    }
    if b.len() < 6 {
        return Err(RequesterError::PayloadTooShort);
    }
    if b[2] != 0 || b[3] != 0 || b[4] != 0 {
        return Err(RequesterError::ReservedFieldNonzero);
    }
    let count = b[5] as usize;
    if b.len() < 6 + 2 * count {
        return Err(RequesterError::PayloadTooShort);
    }
    let mut es: Vec<VersionEntry> = Vec::new();
    let mut i: usize = 0;
    while i < count
        invariant
            i <= count,
            count == b@[5],
            6 + 2 * count <= b@.len(),
            es@ == entries_at(b@, 6, i as nat),
        decreases count - i,
    {
        let lo = b[6 + 2 * i];
        let hi = b[7 + 2 * i];
        es.push(VersionEntry { major: hi / 16, minor: hi % 16, update: lo / 16, alpha: lo % 16 });
        i = i + 1;
        assert(es@ =~= entries_at(b@, 6, i as nat));
    }
    Ok((es, 6 + 2 * count))
}

/// Parsing the encoding of a `VERSION` response gives its entries back, with nothing left over.
pub proof fn lemma_version_round_trip(es: Seq<VersionEntry>)
    requires
        es.len() <= 255,
        forall|i: int| 0 <= i < es.len() ==> (#[trigger] es[i]).wf(),
    ensures
        spec_parse_version(spec_encode_version(es)) == Ok::<(Seq<VersionEntry>, nat), RequesterError>(
            (es, spec_encode_version(es).len()),
        ),
{
    let b = spec_encode_version(es);
    assert(b[5] as nat == es.len());
    assert forall|i: int| 0 <= i < es.len() implies #[trigger] entries_at(b, 6, es.len())[i] == es[i] by {
        assert(b[6 + 2 * i] == entries_bytes(es)[2 * i]);
        assert(b[6 + 2 * i + 1] == entries_bytes(es)[2 * i + 1]);
        assert((2 * i) / 2 == i && (2 * i) % 2 == 0);
        assert((2 * i + 1) / 2 == i && (2 * i + 1) % 2 == 1);
        es[i].lemma_bytes_round_trip();
    }
    assert(entries_at(b, 6, es.len()) =~= es);
}


// ---------------------------------------------------------------------------
// CERTIFICATE.

/// One chunk of the chain in `slot`; `remainder` bytes of it are still to come.
#[derive(Debug, Clone, PartialEq, Eq)]
pub struct Certificate {
    pub slot: u8,
    pub remainder: u16,
    pub portion: Vec<u8>,
}

impl View for Certificate {
    type V = (u8, u16, Seq<u8>);

    open spec fn view(&self) -> (u8, u16, Seq<u8>) {
        (self.slot, self.remainder, self.portion@)
    }
}

pub open spec fn spec_encode_certificate(version: u8, m: (u8, u16, Seq<u8>)) -> Seq<u8> {
    header(version, CERTIFICATE, m.0, 0) + le16_bytes(m.2.len() as u16) + le16_bytes(m.1) + m.2
}

pub open spec fn spec_parse_certificate(b: Seq<u8>, version: u8) -> Result<((u8, u16, Seq<u8>), nat), RequesterError> {
    match header_error(b, version, CERTIFICATE) {
        Some(e) => Err(e),
        None => if b.len() < 8 {
            Err(RequesterError::PayloadTooShort)
        } else if b[3] != 0 {
            Err(RequesterError::ReservedFieldNonzero)
        } else if b.len() < 8 + le16_at(b, 4) {
            Err(RequesterError::PayloadTooShort)
        } else {
            Ok(((b[2], le16_at(b, 6) as u16, b.subrange(8, 8 + le16_at(b, 4) as int)), 8 + le16_at(b, 4)))
        },
    }
}

impl Certificate {
    pub fn encode(&self, version: u8) -> (r: Vec<u8>)
        requires
            self.portion@.len() <= 65535,
        ensures
            r@ == spec_encode_certificate(version, self@),
    {
        let mut r = vec![version, CERTIFICATE, self.slot, 0u8];
        push_u16(&mut r, self.portion.len() as u16);
        push_u16(&mut r, self.remainder);
        push_all(&mut r, self.portion.as_slice());
        r
    }

    pub fn parse(b: &[u8], version: u8) -> (r: Result<(Certificate, usize), RequesterError>)
        ensures
            r matches Ok((m, n)) ==> spec_parse_certificate(b@, version) == Ok::<((u8, u16, Seq<u8>), nat), RequesterError>((m@, n as nat)),
            r matches Err(e) ==> spec_parse_certificate(b@, version) == Err::<((u8, u16, Seq<u8>), nat), RequesterError>(e),
    {
        if let Some(e) = check_header(b, version, CERTIFICATE) {
            return Err(e);
        }
        if b.len() < 8 {
            return Err(RequesterError::PayloadTooShort);
        }
        if b[3] != 0 {
            return Err(RequesterError::ReservedFieldNonzero);
        }
        let len = read_u16(b, 4) as usize;
        if b.len() < 8 + len {
            return Err(RequesterError::PayloadTooShort);
        }
        let remainder = read_u16(b, 6);
        let portion = copy_range(b, 8, 8 + len);
        Ok((Certificate { slot: b[2], remainder, portion }, 8 + len))
    }
}

/// Parsing the encoding of a `CERTIFICATE` gives it back, with nothing left over.
pub proof fn lemma_certificate_round_trip(version: u8, m: (u8, u16, Seq<u8>))
    requires
        m.2.len() <= 65535,
    ensures
        spec_parse_certificate(spec_encode_certificate(version, m), version)
            == Ok::<((u8, u16, Seq<u8>), nat), RequesterError>((m, spec_encode_certificate(version, m).len())),
{
    let b = spec_encode_certificate(version, m);
    lemma_le16_round_trip(m.2.len() as u16);
    lemma_le16_round_trip(m.1);
    assert(le16_at(b, 4) == le16_at(le16_bytes(m.2.len() as u16), 0));
    assert(le16_at(b, 6) == le16_at(le16_bytes(m.1), 0));
    assert(b.subrange(8, 8 + m.2.len() as int) =~= m.2);
}

// ---------------------------------------------------------------------------
// DIGESTS.

/// The number of bits set in `m`.
pub open spec fn popcount(m: u8) -> nat {
    ((m % 2) + (m / 2) % 2 + (m / 4) % 2 + (m / 8) % 2 + (m / 16) % 2 + (m / 32) % 2 + (m / 64) % 2 + (m / 128) % 2) as nat
}

pub fn count_bits(m: u8) -> (r: usize)
    ensures
        r == popcount(m),
        r <= 8,
{
    ((m % 2) + (m / 2) % 2 + (m / 4) % 2 + (m / 8) % 2 + (m / 16) % 2 + (m / 32) % 2 + (m / 64) % 2 + (m / 128) % 2) as usize
}

/// The encoding of a `DIGESTS` response: `digests` holds `popcount(mask)` digests, back to back.
pub open spec fn spec_encode_digests(version: u8, mask: u8, digests: Seq<u8>) -> Seq<u8> {
    header(version, DIGESTS, 0, mask) + digests
}

/// A `DIGESTS` response with digests `width` bytes wide: its slot mask, its digests, its length.
pub open spec fn spec_parse_digests(b: Seq<u8>, version: u8, width: nat) -> Result<(u8, Seq<u8>, nat), RequesterError> {
    match header_error(b, version, DIGESTS) {
        Some(e) => Err(e),
        None => if b[2] != 0 {
            Err(RequesterError::ReservedFieldNonzero)
        } else if b.len() < 4 + popcount(b[3]) * width {
            Err(RequesterError::PayloadTooShort)
        } else {
            Ok((b[3], b.subrange(4, 4 + popcount(b[3]) * width as int), 4 + popcount(b[3]) * width))
        },
    }
}

pub fn encode_digests(version: u8, mask: u8, digests: &[u8]) -> (r: Vec<u8>)
    ensures
        r@ == spec_encode_digests(version, mask, digests@),
{
    let mut r = vec![version, DIGESTS, 0u8, mask];
    push_all(&mut r, digests);
    r
}

/// Parses a `DIGESTS` response whose digests are `width` bytes wide.
pub fn parse_digests(b: &[u8], version: u8, width: usize) -> (r: Result<(u8, Vec<u8>, usize), RequesterError>)
    requires
        width <= 64,
    ensures
        r matches Ok((m, d, n)) ==> spec_parse_digests(b@, version, width as nat) == Ok::<(u8, Seq<u8>, nat), RequesterError>((m, d@, n as nat)),
        r matches Err(e) ==> spec_parse_digests(b@, version, width as nat) == Err::<(u8, Seq<u8>, nat), RequesterError>(e),
{
    if let Some(e) = check_header(b, version, DIGESTS) {
        return Err(e);
    }
    if b[2] != 0 {
        return Err(RequesterError::ReservedFieldNonzero);
    }
    let n = count_bits(b[3]);
    assert(n * width <= 8 * 64) by (nonlinear_arith)
        requires n <= 8, width <= 64;
    if b.len() < 4 + n * width {
        return Err(RequesterError::PayloadTooShort);
    }
    let d = copy_range(b, 4, 4 + n * width);
    Ok((b[3], d, 4 + n * width))
}

/// Parsing the encoding of a `DIGESTS` response gives it back, with nothing left over.
pub proof fn lemma_digests_round_trip(version: u8, mask: u8, digests: Seq<u8>, width: nat)
    requires
        digests.len() == popcount(mask) * width,
    ensures
        spec_parse_digests(spec_encode_digests(version, mask, digests), version, width)
            == Ok::<(u8, Seq<u8>, nat), RequesterError>((mask, digests, spec_encode_digests(version, mask, digests).len())),
{
    let b = spec_encode_digests(version, mask, digests);
    assert(b.subrange(4, 4 + popcount(mask) * width as int) =~= digests);
}

// ---------------------------------------------------------------------------
// CHALLENGE_AUTH.

/// The response to `CHALLENGE`: the chain's digest, the echoed nonce, opaque data and a
/// signature over the transcript.
#[derive(Debug, Clone, PartialEq, Eq)]
pub struct ChallengeAuth {
    pub slot: u8,
    pub slot_mask: u8,
    pub cert_chain_hash: Vec<u8>,
    pub nonce: [u8; 32],
    pub opaque: Vec<u8>,
    pub signature: Vec<u8>,
}

/// What a `CHALLENGE_AUTH` carries, as plain values.
pub struct ChallengeAuthView {
    pub slot: u8,
    pub slot_mask: u8,
    pub cert_chain_hash: Seq<u8>,
    pub nonce: Seq<u8>,
    pub opaque: Seq<u8>,
    pub signature: Seq<u8>,
}

impl View for ChallengeAuth {
    type V = ChallengeAuthView;

    open spec fn view(&self) -> ChallengeAuthView {
        ChallengeAuthView {
            slot: self.slot,
            slot_mask: self.slot_mask,
            cert_chain_hash: self.cert_chain_hash@,
            nonce: self.nonce@,
            opaque: self.opaque@,
            signature: self.signature@,
        }
    }
}

/// The bytes of a `CHALLENGE_AUTH` that its signature covers: all but the signature.
pub open spec fn spec_encode_challenge_auth_unsigned(version: u8, m: ChallengeAuthView) -> Seq<u8> {
    header(version, CHALLENGE_AUTH, m.slot, m.slot_mask) + m.cert_chain_hash + m.nonce + le16_bytes(
        m.opaque.len() as u16,
    ) + m.opaque
}

pub open spec fn spec_encode_challenge_auth(version: u8, m: ChallengeAuthView) -> Seq<u8> {
    spec_encode_challenge_auth_unsigned(version, m) + m.signature
}

/// Offset of the opaque-length field, for digests `hw` bytes wide.
pub open spec fn opaque_len_at(hw: nat) -> nat {
    4 + hw + 32
}

/// A `CHALLENGE_AUTH` with digests `hw` bytes wide and signatures `sw` bytes wide, and its length.
pub open spec fn spec_parse_challenge_auth(b: Seq<u8>, version: u8, hw: nat, sw: nat) -> Result<(ChallengeAuthView, nat), RequesterError> {
    let o = opaque_len_at(hw) as int;
    match header_error(b, version, CHALLENGE_AUTH) {
        Some(e) => Err(e),
        None => if b.len() < o + 2 {
            Err(RequesterError::PayloadTooShort)
        } else if b.len() < o + 2 + le16_at(b, o) + sw {
            Err(RequesterError::PayloadTooShort)
        } else {
            let s = o + 2 + le16_at(b, o);
            Ok((
                ChallengeAuthView {
                    slot: b[2],
                    slot_mask: b[3],
                    cert_chain_hash: b.subrange(4, 4 + hw as int),
                    nonce: b.subrange(4 + hw as int, o),
                    opaque: b.subrange(o + 2, s),
                    signature: b.subrange(s, s + sw as int),
                },
                (s + sw) as nat,
            ))
        },
    }
}

impl ChallengeAuth {
    pub fn encode(&self, version: u8) -> (r: Vec<u8>)
        requires
            self.opaque@.len() <= 65535,
        ensures
            r@ == spec_encode_challenge_auth(version, self@),
    {
        let mut r = vec![version, CHALLENGE_AUTH, self.slot, self.slot_mask];
        push_all(&mut r, self.cert_chain_hash.as_slice());
        push_all(&mut r, self.nonce.as_slice());
        push_u16(&mut r, self.opaque.len() as u16);
        push_all(&mut r, self.opaque.as_slice());
        push_all(&mut r, self.signature.as_slice());
        r
    }

    /// Parses a `CHALLENGE_AUTH` with digests `hw` and signatures `sw` bytes wide.
    pub fn parse(b: &[u8], version: u8, hw: usize, sw: usize) -> (r: Result<(ChallengeAuth, usize), RequesterError>)
        requires
            hw <= 64,
            sw <= 1024,
        ensures
            r matches Ok((m, n)) ==> spec_parse_challenge_auth(b@, version, hw as nat, sw as nat) == Ok::<(ChallengeAuthView, nat), RequesterError>((m@, n as nat)),
            r matches Err(e) ==> spec_parse_challenge_auth(b@, version, hw as nat, sw as nat) == Err::<(ChallengeAuthView, nat), RequesterError>(e),
    {
        if let Some(e) = check_header(b, version, CHALLENGE_AUTH) {
            return Err(e);
        }
        let o = 4 + hw + 32;
        if b.len() < o + 2 {
            return Err(RequesterError::PayloadTooShort);
        }
        let olen = read_u16(b, o) as usize;
        if b.len() < o + 2 + olen + sw {
            return Err(RequesterError::PayloadTooShort);
        }
        let s = o + 2 + olen;
        let cert_chain_hash = copy_range(b, 4, 4 + hw);
        let nonce = read_nonce(b, 4 + hw);
        let opaque = copy_range(b, o + 2, s);
        let signature = copy_range(b, s, s + sw);
        let m = ChallengeAuth { slot: b[2], slot_mask: b[3], cert_chain_hash, nonce, opaque, signature };
        assert(m@ == spec_parse_challenge_auth(b@, version, hw as nat, sw as nat).unwrap().0);
        Ok((m, s + sw))
    }
}

/// Parsing the encoding of a `CHALLENGE_AUTH` gives it back, with nothing left over.
#[verifier::rlimit(40)]
pub proof fn lemma_challenge_auth_round_trip(version: u8, m: ChallengeAuthView)
    requires
        m.nonce.len() == 32,
        m.opaque.len() <= 65535,
    ensures
        spec_parse_challenge_auth(
            spec_encode_challenge_auth(version, m),
            version,
            m.cert_chain_hash.len(),
            m.signature.len(),
        ) == Ok::<(ChallengeAuthView, nat), RequesterError>((m, spec_encode_challenge_auth(version, m).len())),
{
    let b = spec_encode_challenge_auth(version, m);
    let hw = m.cert_chain_hash.len();
    let o = opaque_len_at(hw) as int;
    let s = o + 2 + m.opaque.len();
    lemma_le16_round_trip(m.opaque.len() as u16);
    assert(b.subrange(o, o + 2) =~= le16_bytes(m.opaque.len() as u16));
    assert(le16_at(b, o) == le16_at(le16_bytes(m.opaque.len() as u16), 0));
    assert(b.subrange(4, 4 + hw as int) =~= m.cert_chain_hash);
    assert(b.subrange(4 + hw as int, o) =~= m.nonce);
    assert(b.subrange(o + 2, s) =~= m.opaque);
    assert(b.subrange(s, s + m.signature.len() as int) =~= m.signature);
    let p = spec_parse_challenge_auth(b, version, hw, m.signature.len()).unwrap().0;
    assert(p == m);
}

// ---------------------------------------------------------------------------
// ERROR.

/// An `ERROR` response: its code, its data byte and any extended data.
#[derive(Debug, Clone, PartialEq, Eq)]
pub struct ErrorRsp {
    pub code: u8,
    pub data: u8,
    pub extended: Vec<u8>,
}

pub open spec fn spec_encode_error(version: u8, code: u8, data: u8, extended: Seq<u8>) -> Seq<u8> {
    header(version, ERROR, code, data) + extended
}

impl ErrorRsp {
    pub fn encode(&self, version: u8) -> (r: Vec<u8>)
        ensures
            r@ == spec_encode_error(version, self.code, self.data, self.extended@),
    {
        let mut r = vec![version, ERROR, self.code, self.data];
        push_all(&mut r, self.extended.as_slice());
        r
    }

    /// Parses an `ERROR` response; every byte after the header is extended data.
    pub fn parse(b: &[u8], version: u8) -> (r: Result<(ErrorRsp, usize), RequesterError>)
        ensures
            header_error(b@, version, ERROR) is None <==> r is Ok,
            r matches Err(e) ==> header_error(b@, version, ERROR) == Some(e),
            r matches Ok((m, n)) ==> m.code == b@[2] && m.data == b@[3] && m.extended@ == b@.subrange(4, b@.len() as int)
                && n == b@.len(),
    {
        if let Some(e) = check_header(b, version, ERROR) {
            return Err(e);
        }
        let extended = copy_range(b, 4, b.len());
        Ok((ErrorRsp { code: b[2], data: b[3], extended }, b.len()))
    }
}


/// Parsing the encoding of an `ERROR` response gives back its code, data and extended data.
pub proof fn lemma_error_round_trip(version: u8, code: u8, data: u8, extended: Seq<u8>)
    ensures
        ({
            let b = spec_encode_error(version, code, data, extended);
            &&& header_error(b, version, ERROR) is None
            &&& b[2] == code
            &&& b[3] == data
            &&& b.subrange(4, b.len() as int) == extended
        }),
{
    let b = spec_encode_error(version, code, data, extended);
    assert(b.subrange(4, b.len() as int) =~= extended);
}

// ---------------------------------------------------------------------------
// Message types by code.

/// A message type, known by its request/response code.
pub trait Msg {
    spec fn spec_code() -> u8;

    fn code() -> (r: u8)
        ensures
            r == Self::spec_code(),
    ;
}

/// `GET_VERSION`.
pub struct GetVersion;

/// `VERSION`.
pub struct Version;

/// `GET_CAPABILITIES`.
pub struct GetCapabilities;

/// `CAPABILITIES`.
pub struct Capabilities;

/// `NEGOTIATE_ALGORITHMS`.
pub struct NegotiateAlgorithms;

/// `ALGORITHMS`.
pub struct Algorithms;

/// `GET_DIGESTS`.
pub struct GetDigests;

/// `DIGESTS`.
pub struct Digests;

impl Msg for GetVersion {
    open spec fn spec_code() -> u8 { GET_VERSION }
    fn code() -> (r: u8) { GET_VERSION }
}

impl Msg for Version {
    open spec fn spec_code() -> u8 { VERSION }
    fn code() -> (r: u8) { VERSION }
}

impl Msg for GetCapabilities {
    open spec fn spec_code() -> u8 { GET_CAPABILITIES }
    fn code() -> (r: u8) { GET_CAPABILITIES }
}

impl Msg for Capabilities {
    open spec fn spec_code() -> u8 { CAPABILITIES }
    fn code() -> (r: u8) { CAPABILITIES }
}

impl Msg for NegotiateAlgorithms {
    open spec fn spec_code() -> u8 { NEGOTIATE_ALGORITHMS }
    fn code() -> (r: u8) { NEGOTIATE_ALGORITHMS }
}

impl Msg for Algorithms {
    open spec fn spec_code() -> u8 { ALGORITHMS }
    fn code() -> (r: u8) { ALGORITHMS }
}

impl Msg for GetDigests {
    open spec fn spec_code() -> u8 { GET_DIGESTS }
    fn code() -> (r: u8) { GET_DIGESTS }
}

impl Msg for Digests {
    open spec fn spec_code() -> u8 { DIGESTS }
    fn code() -> (r: u8) { DIGESTS }
}

impl Msg for GetCertificate {
    open spec fn spec_code() -> u8 { GET_CERTIFICATE }
    fn code() -> (r: u8) { GET_CERTIFICATE }
}

impl Msg for Certificate {
    open spec fn spec_code() -> u8 { CERTIFICATE }
    fn code() -> (r: u8) { CERTIFICATE }
}

impl Msg for Challenge {
    open spec fn spec_code() -> u8 { CHALLENGE }
    fn code() -> (r: u8) { CHALLENGE }
}

impl Msg for ChallengeAuth {
    open spec fn spec_code() -> u8 { CHALLENGE_AUTH }
    fn code() -> (r: u8) { CHALLENGE_AUTH }
}

impl Msg for ErrorRsp {
    open spec fn spec_code() -> u8 { ERROR }
    fn code() -> (r: u8) { ERROR }
}

} // verus!
