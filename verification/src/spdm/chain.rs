//! SPDM certificate chains (DSP0274, section 10.6.1): the chain header
//! (length, reserved field, root hash) and the concatenated DER
//! certificates after it.
use vstd::prelude::*;
use crate::bytes::{bytes_equal, copy_range};
use crate::certificate::{spec_certificate_from_der, spec_encode_certificate, CertView, Certificate};
use crate::crypto::{ring_digest, spec_ring_digest, RingDigest};
use crate::crypto_backend::RingBackend;
use crate::error::{text, ChainError, Error, ErrorView, ParseError, Result};
use crate::spdm::algorithm_verification::{spec_hash_algo_name, spec_hash_from_bits, SpdmBaseHashAlgo};
use crate::spdm::validator::{spec_eku_check, SpdmCertificateRole, SpdmValidator};
use crate::text::{decimal, hex2, signed_decimal, spec_decimal, spec_hex2, spec_signed_decimal};
use crate::validator::{
    spec_known_extensions, spec_outcome, spec_validate_chain, CertificateChain, Check, ValidationOptions, Validator,
};

verus! {

// ---------------------------------------------------------------------------
// Header
// ---------------------------------------------------------------------------

/// The header of an SPDM certificate chain.
#[derive(Debug, Clone, PartialEq, Eq)]
pub struct SpdmCertChainHeader {
    /// The length of the whole chain, header included.
    pub length: u16,
    /// Reserved; zero.
    pub reserved: u16,
    /// The hash of the root certificate.
    pub root_hash: Vec<u8>,
}

/// The mathematical value of a chain header.
pub struct HeaderView {
    pub length: u16,
    pub reserved: u16,
    pub root_hash: Seq<u8>,
}

impl View for SpdmCertChainHeader {
    type V = HeaderView;

    open spec fn view(&self) -> HeaderView {
        HeaderView { length: self.length, reserved: self.reserved, root_hash: self.root_hash@ }
    }
}

/// The size of a chain header without its root hash.
pub const MIN_SIZE: usize = 4;

/// The little-endian value of two bytes.
pub open spec fn spec_le16(lo: u8, hi: u8) -> u16 {
    (lo + hi * 256) as u16
}

/// The little-endian bytes of a 16-bit value.
pub open spec fn spec_le16_bytes(v: u16) -> Seq<u8> {
    seq![(v % 256) as u8, (v / 256) as u8]
}

/// The bytes of a chain header: length and reserved field, little-endian,
/// then the root hash.
pub open spec fn spec_header_bytes(h: HeaderView) -> Seq<u8> {
    spec_le16_bytes(h.length) + spec_le16_bytes(h.reserved) + h.root_hash
}

/// What reading a chain header with a root hash of `hash_size` bytes
/// gives: the header and the position after it, or the error.
pub open spec fn spec_header_from_bytes(data: Seq<u8>, hash_size: nat) -> core::result::Result<(HeaderView, int), ErrorView> {
    if data.len() < 4 + hash_size {
        Err(ErrorView::ParseError(
            "Certificate chain too short: expected at least "@ + spec_decimal(4 + hash_size) + " bytes, got "@
                + spec_decimal(data.len()),
        ))
    } else {
        let reserved = spec_le16(data[2], data[3]);
        if reserved != 0 {
            Err(ErrorView::ParseError("Reserved field must be 0, got "@ + spec_decimal(reserved as nat)))
        } else {
            Ok((
                HeaderView {
                    length: spec_le16(data[0], data[1]),
                    reserved: reserved,
                    root_hash: data.subrange(4, (4 + hash_size) as int),
                },
                (4 + hash_size) as int,
            ))
        }
    }
}

/// The size of a root hash for a hash algorithm.
pub open spec fn spec_hash_size(algo: SpdmBaseHashAlgo) -> usize {
    match algo {
        SpdmBaseHashAlgo::Sha256 | SpdmBaseHashAlgo::Sha3_256 | SpdmBaseHashAlgo::Sm3_256 => 32,
        SpdmBaseHashAlgo::Sha384 | SpdmBaseHashAlgo::Sha3_384 => 48,
        SpdmBaseHashAlgo::Sha512 | SpdmBaseHashAlgo::Sha3_512 => 64,
    }
}

/// The text of a chain header.
pub open spec fn spec_header_text(h: HeaderView) -> Seq<char> {
    "SpdmCertChainHeader { length: "@ + spec_decimal(h.length as nat) + ", root_hash: "@
        + spec_decimal(h.root_hash.len()) + " bytes }"@
}

impl SpdmCertChainHeader {
    /// A header with the given length and root hash, and a zero reserved
    /// field.
    pub fn new(length: u16, root_hash: Vec<u8>) -> (r: SpdmCertChainHeader)
        ensures
            r@ == (HeaderView { length, reserved: 0, root_hash: root_hash@ }),
    {
        SpdmCertChainHeader { length, reserved: 0, root_hash }
    }

    /// The size of a header without its root hash.
    pub fn min_size() -> (r: usize)
        ensures
            r == MIN_SIZE,
    {
        MIN_SIZE
    }

    /// Reads a header with a root hash of `hash_size` bytes from the start
    /// of `data` (see `spec_header_from_bytes`); gives the rest of `data`,
    /// where the certificates are.
    pub fn from_bytes(data: &[u8], hash_size: usize) -> (r: Result<(SpdmCertChainHeader, &[u8])>)
        requires
            hash_size <= usize::MAX - 4,
        ensures
            match spec_header_from_bytes(data@, hash_size as nat) {
                Ok((h, n)) => r matches Ok((x, rest)) && x@ == h && rest@ == data@.subrange(n, data@.len() as int),
                Err(e) => r matches Err(x) && x@ == e,
            },
    {
        let expected_header_size = MIN_SIZE + hash_size;
        if data.len() < expected_header_size {
            let m = text("Certificate chain too short: expected at least ")
                .concat(decimal(expected_header_size as u64).as_str())
                .concat(" bytes, got ")
                .concat(decimal(data.len() as u64).as_str());
            return Err(Error::ParseError(ParseError::InvalidDer(m)));
        }
        let length: u16 = (data[0] as u16) + (data[1] as u16) * 256;
        let reserved: u16 = (data[2] as u16) + (data[3] as u16) * 256;
        if reserved != 0 {
            let m = text("Reserved field must be 0, got ").concat(decimal(reserved as u64).as_str());
            return Err(Error::ParseError(ParseError::InvalidDer(m)));
        }
        let root_hash = copy_range(data, 4, 4 + hash_size);
        let (_, remaining) = data.split_at(expected_header_size);
        assert(remaining@ =~= data@.subrange(4 + hash_size, data@.len() as int));
        Ok((SpdmCertChainHeader { length, reserved, root_hash }, remaining))
    }

    /// The bytes of this header (see `spec_header_bytes`).
    pub fn to_bytes(&self) -> (r: Vec<u8>)
        ensures
            r@ == spec_header_bytes(self@),
    {
        let mut bytes: Vec<u8> = Vec::new();
        bytes.push((self.length % 256) as u8);
        bytes.push((self.length / 256) as u8);
        bytes.push((self.reserved % 256) as u8);
        bytes.push((self.reserved / 256) as u8);
        crate::der::append(&mut bytes, self.root_hash.as_slice());
        assert(bytes@ =~= spec_header_bytes(self@));
        bytes
    }

    /// The size of a root hash for a hash algorithm: 32 bytes for SHA-256,
    /// SHA3-256 and SM3-256, 48 for SHA-384 and SHA3-384, 64 for SHA-512
    /// and SHA3-512.
    pub fn hash_size_for_algo(algo: SpdmBaseHashAlgo) -> (r: usize)
        ensures
            r == spec_hash_size(algo),
    {
        match algo {
            SpdmBaseHashAlgo::Sha256 | SpdmBaseHashAlgo::Sha3_256 | SpdmBaseHashAlgo::Sm3_256 => 32,
            SpdmBaseHashAlgo::Sha384 | SpdmBaseHashAlgo::Sha3_384 => 48,
            SpdmBaseHashAlgo::Sha512 | SpdmBaseHashAlgo::Sha3_512 => 64,
        }
    }

    /// The text of this header: its length and the size of its root hash.
    pub fn to_text(&self) -> (r: String)
        ensures
            r@ == spec_header_text(self@),
    {
        text("SpdmCertChainHeader { length: ")
            .concat(decimal(self.length as u64).as_str())
            .concat(", root_hash: ")
            .concat(decimal(self.root_hash.len() as u64).as_str())
            .concat(" bytes }")
    }
}

/// Reading back the bytes of a header gives the header, when its reserved
/// field is zero; nothing follows it.
pub proof fn lemma_header_round_trip(h: HeaderView)
    requires
        h.reserved == 0,
    ensures
        spec_header_from_bytes(spec_header_bytes(h), h.root_hash.len()) == Ok::<(HeaderView, int), ErrorView>(
            (h, spec_header_bytes(h).len() as int),
        ),
        spec_header_bytes(h).len() == 4 + h.root_hash.len(),
{
    let b = spec_header_bytes(h);
    assert(b.len() == 4 + h.root_hash.len());
    assert(b[0] == (h.length % 256) as u8 && b[1] == (h.length / 256) as u8);
    assert(b[2] == 0 && b[3] == 0);
    assert(spec_le16(b[0], b[1]) == h.length);
    assert(b.subrange(4, 4 + h.root_hash.len() as int) =~= h.root_hash);
}

/// A header read from bytes is written back as the bytes it was read from.
pub proof fn lemma_header_bytes_of_read(data: Seq<u8>, hash_size: nat)
    requires
        spec_header_from_bytes(data, hash_size) is Ok,
    ensures
        ({
            let (h, n) = spec_header_from_bytes(data, hash_size)->Ok_0;
            spec_header_bytes(h) == data.subrange(0, n)
        }),
{
    let (h, n) = spec_header_from_bytes(data, hash_size)->Ok_0;
    let b = spec_header_bytes(h);
    assert(spec_le16(data[0], data[1]) % 256 == data[0]);
    assert(spec_le16(data[0], data[1]) / 256 == data[1]);
    assert(b =~= data.subrange(0, n));
}

// ---------------------------------------------------------------------------
// Parsing chains
// ---------------------------------------------------------------------------

/// What reading concatenated DER certificates gives: each certificate is
/// read from the bytes that are left, and the bytes of its DER encoding
/// are then skipped.
pub open spec fn spec_concatenated(data: Seq<u8>) -> core::result::Result<Seq<CertView>, ErrorView>
    decreases data.len(),
{
    if data.len() == 0 {
        Ok(Seq::empty())
    } else {
        match spec_certificate_from_der(data) {
            None => Err(ErrorView::ParseError("Failed to parse certificate in chain: Asn1(Malformed)"@)),
            Some(c) => match spec_encode_certificate(c) {
                None => Err(ErrorView::ParseError("Failed to re-encode certificate: Asn1(Malformed)"@)),
                Some(d) => if d.len() > data.len() {
                    Err(ErrorView::ParseError("Certificate DER length exceeds remaining data"@))
                } else if d.len() == 0 {
                    Ok(seq![c])
                } else {
                    match spec_concatenated(data.subrange(d.len() as int, data.len() as int)) {
                        Ok(rest) => Ok(seq![c] + rest),
                        Err(e) => Err(e),
                    }
                },
            },
        }
    }
}

/// Reads concatenated DER certificates (see `spec_concatenated`).
pub fn parse_concatenated_certificates(data: &[u8]) -> (r: Result<Vec<Certificate>>)
    ensures
        match spec_concatenated(data@) {
            Ok(v) => r matches Ok(x) && x@.map_values(|c: Certificate| c@) == v,
            Err(e) => r matches Err(x) && x@ == e,
        },
{
    let mut certificates: Vec<Certificate> = Vec::new();
    let mut rest: &[u8] = data;
    while rest.len() > 0
        invariant
            spec_concatenated(data@) == match spec_concatenated(rest@) {
                Ok(v) => Ok(certificates@.map_values(|c: Certificate| c@) + v),
                Err(e) => Err::<Seq<CertView>, ErrorView>(e),
            },
        decreases rest.len(),
    {
        let cert = match Certificate::from_der(rest) {
            Ok(c) => c,
            Err(_) => {
                return Err(Error::ParseError(ParseError::InvalidDer(text(
                    "Failed to parse certificate in chain: Asn1(Malformed)",
                ))));
            },
        };
        let cert_der = match cert.to_der() {
            Ok(d) => d,
            Err(_) => {
                return Err(Error::ParseError(ParseError::InvalidDer(text(
                    "Failed to re-encode certificate: Asn1(Malformed)",
                ))));
            },
        };
        if cert_der.len() > rest.len() {
            return Err(Error::ParseError(ParseError::InvalidDer(text(
                "Certificate DER length exceeds remaining data",
            ))));
        }
        let ghost old_rest = rest@;
        let ghost old_certs = certificates@.map_values(|c: Certificate| c@);
        let ghost cv = cert@;
        let (_, tail) = rest.split_at(cert_der.len());
        rest = tail;
        certificates.push(cert);
        proof {
            assert(rest@ =~= old_rest.subrange(cert_der@.len() as int, old_rest.len() as int));
            assert(certificates@.map_values(|c: Certificate| c@) =~= old_certs.push(cv));
            crate::certificate::lemma_encode_certificate_nonempty(cv);
            match spec_concatenated(rest@) {
                Ok(v) => {
                    assert(old_certs + (seq![cv] + v) =~= old_certs.push(cv) + v);
                },
                Err(e) => {},
            }
        }
    }
    proof {
        assert(certificates@.map_values(|c: Certificate| c@) + Seq::<CertView>::empty()
            =~= certificates@.map_values(|c: Certificate| c@));
    }
    Ok(certificates)
}

/// What parsing an SPDM certificate chain gives: the header, with the root
/// hash size of the first negotiated hash algorithm, whose length must be
/// the length of the data, then at least one certificate.
pub open spec fn spec_parse_spdm_cert_chain(data: Seq<u8>, base_hash_algo: u32) -> core::result::Result<
    (HeaderView, Seq<CertView>),
    ErrorView,
> {
    let hash_algos = spec_hash_from_bits(base_hash_algo);
    if hash_algos.len() == 0 {
        Err(ErrorView::ValidationError("No hash algorithm negotiated"@))
    } else {
        match spec_header_from_bytes(data, spec_hash_size(hash_algos[0]) as nat) {
            Err(e) => Err(e),
            Ok((h, n)) => if h.length != data.len() {
                Err(ErrorView::ParseError(
                    "Chain length mismatch: header says "@ + spec_decimal(h.length as nat) + ", actual "@
                        + spec_decimal(data.len()),
                ))
            } else {
                match spec_concatenated(data.subrange(n, data.len() as int)) {
                    Err(e) => Err(e),
                    Ok(certs) => if certs.len() == 0 {
                        Err(ErrorView::ChainError(ChainError::EmptyChain))
                    } else {
                        Ok((h, certs))
                    },
                }
            },
        }
    }
}

/// Parses an SPDM certificate chain (see `spec_parse_spdm_cert_chain`).
pub fn parse_spdm_cert_chain(data: &[u8], base_hash_algo: u32) -> (r: Result<(SpdmCertChainHeader, Vec<Certificate>)>)
    ensures
        match spec_parse_spdm_cert_chain(data@, base_hash_algo) {
            Ok((h, certs)) => r matches Ok((x, v)) && x@ == h && v@.map_values(|c: Certificate| c@) == certs,
            Err(e) => r matches Err(x) && x@ == e,
        },
{
    let hash_algos = SpdmBaseHashAlgo::from_bits(base_hash_algo);
    if hash_algos.len() == 0 {
        return Err(Error::ValidationError(text("No hash algorithm negotiated")));
    }
    let hash_size = SpdmCertChainHeader::hash_size_for_algo(hash_algos[0]);
    let (header, cert_data) = match SpdmCertChainHeader::from_bytes(data, hash_size) {
        Ok(x) => x,
        Err(e) => return Err(e),
    };
    if (header.length as usize) != data.len() {
        let m = text("Chain length mismatch: header says ")
            .concat(decimal(header.length as u64).as_str())
            .concat(", actual ")
            .concat(decimal(data.len() as u64).as_str());
        return Err(Error::ParseError(ParseError::InvalidDer(m)));
    }
    let certificates = match parse_concatenated_certificates(cert_data) {
        Ok(c) => c,
        Err(e) => return Err(e),
    };
    if certificates.len() == 0 {
        return Err(Error::ChainError(ChainError::EmptyChain));
    }
    Ok((header, certificates))
}

// ---------------------------------------------------------------------------
// Root hash and chain validation
// ---------------------------------------------------------------------------

/// The digest of `data` for a hash algorithm that `ring` computes
/// (SHA-256, SHA-384, SHA-512).
pub open spec fn spec_compute_hash(data: Seq<u8>, algo: SpdmBaseHashAlgo) -> core::result::Result<Seq<u8>, ErrorView> {
    match algo {
        SpdmBaseHashAlgo::Sha256 => Ok(spec_ring_digest(RingDigest::Sha256, data)),
        SpdmBaseHashAlgo::Sha384 => Ok(spec_ring_digest(RingDigest::Sha384, data)),
        SpdmBaseHashAlgo::Sha512 => Ok(spec_ring_digest(RingDigest::Sha512, data)),
        _ => Err(ErrorView::AlgorithmError("Hash algorithm not supported: "@ + spec_hash_algo_name(algo))),
    }
}

/// Hashes `data` (see `spec_compute_hash`).
pub fn compute_hash(data: &[u8], algo: SpdmBaseHashAlgo) -> (r: Result<Vec<u8>>)
    ensures
        match spec_compute_hash(data@, algo) {
            Ok(h) => r matches Ok(x) && x@ == h,
            Err(e) => r matches Err(x) && x@ == e,
        },
{
    let alg = match algo {
        SpdmBaseHashAlgo::Sha256 => RingDigest::Sha256,
        SpdmBaseHashAlgo::Sha384 => RingDigest::Sha384,
        SpdmBaseHashAlgo::Sha512 => RingDigest::Sha512,
        _ => {
            let m = text("Hash algorithm not supported: ").concat(algo.name());
            return Err(Error::AlgorithmError(crate::error::AlgorithmError::Unsupported(m)));
        },
    };
    Ok(ring_digest(alg, data))
}

/// The check that the hash of a root certificate's DER encoding, with the
/// first negotiated hash algorithm, is the expected one.
pub open spec fn spec_root_hash_check(root: CertView, expected: Seq<u8>, base_hash_algo: u32) -> core::result::Result<(), ErrorView> {
    match spec_encode_certificate(root) {
        None => Err(ErrorView::ParseError("Failed to encode root certificate: Asn1(Malformed)"@)),
        Some(d) => {
            let hash_algos = spec_hash_from_bits(base_hash_algo);
            if hash_algos.len() == 0 {
                Err(ErrorView::ValidationError("No hash algorithm negotiated"@))
            } else {
                match spec_compute_hash(d, hash_algos[0]) {
                    Err(e) => Err(e),
                    Ok(h) => if h != expected {
                        Err(ErrorView::ValidationError("Root certificate hash mismatch"@))
                    } else {
                        Ok(())
                    },
                }
            }
        },
    }
}

/// Checks a root certificate's hash (see `spec_root_hash_check`).
pub fn verify_root_cert_hash(root_cert: &Certificate, expected_hash: &[u8], base_hash_algo: u32) -> (r: Result<()>)
    ensures
        crate::error::spec_res(r) == spec_root_hash_check(root_cert@, expected_hash@, base_hash_algo),
{
    let root_der = match root_cert.to_der() {
        Ok(d) => d,
        Err(_) => {
            return Err(Error::ParseError(ParseError::InvalidDer(text(
                "Failed to encode root certificate: Asn1(Malformed)",
            ))));
        },
    };
    let hash_algos = SpdmBaseHashAlgo::from_bits(base_hash_algo);
    if hash_algos.len() == 0 {
        return Err(Error::ValidationError(text("No hash algorithm negotiated")));
    }
    let computed_hash = match compute_hash(root_der.as_slice(), hash_algos[0]) {
        Ok(h) => h,
        Err(e) => return Err(e),
    };
    if !bytes_equal(computed_hash.as_slice(), expected_hash) {
        return Err(Error::ValidationError(text("Root certificate hash mismatch")));
    }
    Ok(())
}

/// Certificates in the opposite order.
pub open spec fn spec_reversed(s: Seq<CertView>) -> Seq<CertView> {
    Seq::new(s.len(), |i: int| s[s.len() - 1 - i])
}

/// The checks of an SPDM chain given as a header and its certificates,
/// ordered root first: the hash of the first certificate (the root) against
/// the header, then the X.509 chain checks of the certificates from the
/// leaf to the root.
pub open spec fn spec_validate_spdm_cert_chain(
    header: HeaderView,
    certs: Seq<CertView>,
    base_hash_algo: u32,
    options: ValidationOptions,
    now: Option<u64>,
) -> Check {
    if certs.len() == 0 {
        Check::Fail(ErrorView::ChainError(ChainError::EmptyChain))
    } else {
        match spec_root_hash_check(certs[0], header.root_hash, base_hash_algo) {
            Err(e) => Check::Fail(e),
            Ok(()) => spec_validate_chain(spec_known_extensions(), RingBackend, spec_reversed(certs), options, now),
        }
    }
}

/// The views of certificates.
pub open spec fn spec_cert_views(s: Seq<Certificate>) -> Seq<CertView> {
    s.map_values(|c: Certificate| c@)
}

/// Copies certificates in the opposite order.
fn copy_certificates_reversed(certificates: &[Certificate]) -> (r: Vec<Certificate>)
    ensures
        r@.map_values(|c: Certificate| c@) == spec_reversed(certificates@.map_values(|c: Certificate| c@)),
{
    let ghost cv = certificates@.map_values(|c: Certificate| c@);
    let n = certificates.len();
    let mut out: Vec<Certificate> = Vec::new();
    let mut i: usize = 0;
    while i < n
        invariant
            i <= n,
            n == certificates.len(),
            cv == certificates@.map_values(|c: Certificate| c@),
            out@.map_values(|c: Certificate| c@) == spec_reversed(cv).subrange(0, i as int),
        decreases n - i,
    {
        let c = certificates[n - 1 - i].copy();
        let ghost o = out@.map_values(|c: Certificate| c@);
        let ghost v = c@;
        out.push(c);
        proof {
            assert(v == cv[n - 1 - i]);
            assert(out@.map_values(|c: Certificate| c@) =~= o.push(v));
            assert(spec_reversed(cv).subrange(0, i + 1) =~= spec_reversed(cv).subrange(0, i as int).push(v));
        }
        i = i + 1;
    }
    proof {
        assert(spec_reversed(cv).subrange(0, i as int) =~= spec_reversed(cv));
    }
    out
}

/// Checks an SPDM chain at the instant `now` (see
/// `spec_validate_spdm_cert_chain`).
pub fn validate_spdm_cert_chain_at(
    header: &SpdmCertChainHeader,
    certificates: &[Certificate],
    base_hash_algo: u32,
    options: &ValidationOptions,
    now: Option<u64>,
) -> (r: Result<()>)
    ensures
        spec_outcome(
            r,
            spec_validate_spdm_cert_chain(header@, certificates@.map_values(|c: Certificate| c@), base_hash_algo, *options, now),
        ),
{
    if certificates.len() == 0 {
        return Err(Error::ChainError(ChainError::EmptyChain));
    }
    assert(certificates@.map_values(|c: Certificate| c@)[0] == certificates@[0]@);
    match verify_root_cert_hash(&certificates[0], header.root_hash.as_slice(), base_hash_algo) {
        Ok(()) => {},
        Err(e) => return Err(e),
    }
    let chain = CertificateChain::new(copy_certificates_reversed(certificates));
    let validator = Validator::new();
    validator.validate_chain_at(&chain, options, now)
}

/// Checks an SPDM chain (see `spec_validate_spdm_cert_chain`), reading
/// the clock when the options ask for validity periods.
pub fn validate_spdm_cert_chain(
    header: &SpdmCertChainHeader,
    certificates: &[Certificate],
    base_hash_algo: u32,
    options: &ValidationOptions,
) -> (r: Result<()>)
    ensures
        !options.check_time ==> spec_outcome(
            r,
            spec_validate_spdm_cert_chain(header@, certificates@.map_values(|c: Certificate| c@), base_hash_algo, *options, None),
        ),
        exists|now: Option<u64>| spec_outcome(
            r,
            spec_validate_spdm_cert_chain(header@, spec_cert_views(certificates@), base_hash_algo, *options, now),
        ),
{
    let now = if options.check_time { crate::validator::current_unix_seconds() } else { None };
    let r = validate_spdm_cert_chain_at(header, certificates, base_hash_algo, options, now);
    assert(spec_cert_views(certificates@) == certificates@.map_values(|c: Certificate| c@));
    r
}


// ---------------------------------------------------------------------------
// Walking concatenated certificates by their headers
// ---------------------------------------------------------------------------

/// The length of the certificate whose DER header starts at
/// `chain[offset]` (four bytes are there): a SEQUENCE whose length has one
/// octet, or a long form of one or two octets.
pub open spec fn spec_cert_len_at(chain: Seq<u8>, offset: int) -> core::result::Result<int, ErrorView> {
    let b = chain[offset + 1];
    if chain[offset] != 0x30 {
        Err(ErrorView::ValidationError(
            "Invalid DER tag at offset "@ + spec_decimal(offset as nat) + ": expected 0x30, got 0x"@
                + spec_hex2(chain[offset]),
        ))
    } else if b == 0x82 {
        Ok(chain[offset + 2] * 256 + chain[offset + 3] + 4)
    } else if b == 0x81 {
        Ok(chain[offset + 2] + 3)
    } else if b < 0x80 {
        Ok(b + 2)
    } else {
        Err(ErrorView::ValidationError("Unsupported DER length encoding: 0x"@ + spec_hex2(b)))
    }
}

/// The message when a chain holds more than 100 certificates.
pub open spec fn spec_too_long_text() -> Seq<char> {
    "Certificate chain too long (>100 certificates)"@
}

/// Walks the certificates from `offset` on, the one there having position
/// `cert_index`, for the certificate at position `index` (`-1` for the
/// last one): its start and end.
pub open spec fn spec_walk(chain: Seq<u8>, offset: int, cert_index: int, index: int) -> core::result::Result<(int, int), ErrorView>
    decreases 100 - cert_index,
{
    if offset < 0 || offset + 4 > chain.len() {
        Err(ErrorView::ValidationError("Certificate index "@ + spec_signed_decimal(index) + " not found in chain"@))
    } else {
        match spec_cert_len_at(chain, offset) {
            Err(e) => Err(e),
            Ok(l) => if offset + l > chain.len() {
                Err(ErrorView::ValidationError(
                    "Certificate length "@ + spec_decimal(l as nat) + " exceeds chain size at offset "@
                        + spec_decimal(offset as nat),
                ))
            } else if cert_index == index {
                Ok((offset, offset + l))
            } else if offset + l == chain.len() && index == -1 {
                Ok((offset, offset + l))
            } else if cert_index + 1 > 100 {
                Err(ErrorView::ValidationError(spec_too_long_text()))
            } else {
                spec_walk(chain, offset + l, cert_index + 1, index)
            },
        }
    }
}

/// The start and end of the certificate at position `index` (`-1` for
/// the last) of concatenated DER certificates.
pub open spec fn spec_get_cert(chain: Seq<u8>, index: int) -> core::result::Result<(int, int), ErrorView> {
    if chain.len() < 4 {
        Err(ErrorView::ChainError(ChainError::EmptyChain))
    } else {
        spec_walk(chain, 0, 0, index)
    }
}

/// Finds the certificate at position `index` (`-1` for the last one) of
/// concatenated DER certificates, by their headers (see `spec_get_cert`):
/// its start and end offsets.
pub fn get_cert_from_cert_chain(cert_chain: &[u8], index: isize) -> (r: Result<(usize, usize)>)
    ensures
        match spec_get_cert(cert_chain@, index as int) {
            Ok((a, b)) => r == Ok::<(usize, usize), Error>((a as usize, b as usize)) && 0 <= a <= b <= cert_chain.len(),
            Err(e) => r matches Err(x) && x@ == e,
        },
{
    let chain_size = cert_chain.len();
    if chain_size < 4 {
        return Err(Error::ChainError(ChainError::EmptyChain));
    }
    let mut offset: usize = 0;
    let mut cert_index: isize = 0;
    loop
        invariant
            chain_size == cert_chain.len(),
            chain_size >= 4,
            0 <= cert_index <= 100,
            offset <= chain_size,
            spec_get_cert(cert_chain@, index as int) == spec_walk(cert_chain@, offset as int, cert_index as int, index as int),
        ensures
            offset + 4 > chain_size,
            offset <= chain_size,
            spec_get_cert(cert_chain@, index as int) == spec_walk(cert_chain@, offset as int, cert_index as int, index as int),
        decreases 100 - cert_index,
    {
        if chain_size - offset < 4 {
            break;
        }
        if cert_chain[offset] != 0x30 {
            let m = text("Invalid DER tag at offset ")
                .concat(decimal(offset as u64).as_str())
                .concat(": expected 0x30, got 0x")
                .concat(hex2(cert_chain[offset]).as_str());
            return Err(Error::ValidationError(m));
        }
        let b = cert_chain[offset + 1];
        let cert_len: usize = if b == 0x82 {
            (cert_chain[offset + 2] as usize) * 256 + (cert_chain[offset + 3] as usize) + 4
        } else if b == 0x81 {
            (cert_chain[offset + 2] as usize) + 3
        } else if b < 0x80 {
            (b as usize) + 2
        } else {
            let m = text("Unsupported DER length encoding: 0x").concat(hex2(b).as_str());
            return Err(Error::ValidationError(m));
        };
        if cert_len > chain_size - offset {
            let m = text("Certificate length ")
                .concat(decimal(cert_len as u64).as_str())
                .concat(" exceeds chain size at offset ")
                .concat(decimal(offset as u64).as_str());
            return Err(Error::ValidationError(m));
        }
        if cert_index == index {
            return Ok((offset, offset + cert_len));
        }
        if offset + cert_len == chain_size && index == -1 {
            return Ok((offset, offset + cert_len));
        }
        cert_index = cert_index + 1;
        offset = offset + cert_len;
        if cert_index > 100 {
            return Err(Error::ValidationError(text("Certificate chain too long (>100 certificates)")));
        }
    }
    let m = text("Certificate index ").concat(signed_decimal(index as i64).as_str()).concat(" not found in chain");
    Err(Error::ValidationError(m))
}

/// The end of the certificate whose DER header starts at `start`, read
/// from its header (`start` itself when the header is not one).
pub open spec fn spec_frame_end(chain: Seq<u8>, start: int) -> int {
    match spec_cert_len_at(chain, start) {
        Ok(l) => start + l,
        Err(_) => start,
    }
}

/// The position after `k` certificates framed by their headers from
/// `start` on.
pub open spec fn spec_after_frames(chain: Seq<u8>, start: int, k: nat) -> int
    decreases k,
{
    if k == 0 {
        start
    } else {
        spec_after_frames(chain, spec_frame_end(chain, start), (k - 1) as nat)
    }
}

/// Whether `k` certificates, one after the other from `start` on, each
/// have a header (a SEQUENCE tag and a length that the walk reads) and fit
/// in the bytes.
pub open spec fn spec_framed(chain: Seq<u8>, start: int, k: nat) -> bool
    decreases k,
{
    k == 0 || {
        &&& 0 <= start
        &&& start + 4 <= chain.len()
        &&& spec_cert_len_at(chain, start) is Ok
        &&& spec_frame_end(chain, start) <= chain.len()
        &&& spec_framed(chain, spec_frame_end(chain, start), (k - 1) as nat)
    }
}

/// What a successful walk from `offset` finds: `k` framed certificates
/// before the one it gives, which has a header and ends where the walk
/// says.
proof fn lemma_walk_ok(chain: Seq<u8>, offset: int, ci: int, index: int) -> (k: nat)
    requires
        0 <= ci <= 100,
        spec_walk(chain, offset, ci, index) is Ok,
    ensures
        spec_walk(chain, offset, ci, index) matches Ok((s, e)) && {
            &&& spec_framed(chain, offset, k)
            &&& s == spec_after_frames(chain, offset, k)
            &&& 0 <= s && s + 4 <= chain.len()
            &&& chain[s] == 0x30
            &&& spec_cert_len_at(chain, s) == Ok::<int, ErrorView>(e - s)
            &&& s < e <= chain.len()
            &&& (index >= 0 ==> ci + k == index)
            &&& (index < 0 ==> index == -1 && e == chain.len())
        },
    decreases 100 - ci,
{
    let l = spec_cert_len_at(chain, offset)->Ok_0;
    if ci == index || (offset + l == chain.len() && index == -1) {
        0
    } else {
        let k = lemma_walk_ok(chain, offset + l, ci + 1, index);
        assert(spec_frame_end(chain, offset) == offset + l);
        (k + 1) as nat
    }
}

/// A position found by `get_cert_from_cert_chain` starts a certificate with
/// a header (a SEQUENCE) that ends where the result says, within the
/// bytes; before it stand exactly `index` framed certificates when `index`
/// is not negative, and some framed certificates when it is `-1`, the only
/// negative index that succeeds, and then the certificate found ends the
/// bytes.
pub proof fn lemma_get_cert_framing(chain: Seq<u8>, index: int)
    requires
        spec_get_cert(chain, index) is Ok,
    ensures
        spec_get_cert(chain, index) matches Ok((s, e)) && {
            &&& 0 <= s < e <= chain.len()
            &&& chain[s] == 0x30
            &&& spec_cert_len_at(chain, s) == Ok::<int, ErrorView>(e - s)
            &&& (index >= 0 ==> spec_framed(chain, 0, index as nat) && s == spec_after_frames(chain, 0, index as nat))
            &&& (index < 0 ==> index == -1 && e == chain.len()
                && exists|k: nat| spec_framed(chain, 0, k) && s == #[trigger] spec_after_frames(chain, 0, k))
        },
{
    let k = lemma_walk_ok(chain, 0, 0, index);
}

/// Walking `n` framed certificates that fill the bytes for the last one
/// finds the last one.
proof fn lemma_walk_last(chain: Seq<u8>, offset: int, ci: int, n: nat)
    requires
        n >= 1,
        0 <= ci,
        ci + n <= 101,
        spec_framed(chain, offset, n),
        spec_after_frames(chain, offset, n) == chain.len(),
    ensures
        spec_walk(chain, offset, ci, -1) == Ok::<(int, int), ErrorView>((spec_after_frames(chain, offset, (n - 1) as nat), chain.len() as int)),
    decreases n,
{
    let next = spec_frame_end(chain, offset);
    assert(spec_after_frames(chain, offset, n) == spec_after_frames(chain, next, (n - 1) as nat));
    if n > 1 {
        assert(spec_framed(chain, next, (n - 1) as nat));
        assert(next + 4 <= chain.len());
        lemma_walk_last(chain, next, ci + 1, (n - 1) as nat);
        assert(spec_after_frames(chain, offset, (n - 1) as nat) == spec_after_frames(chain, next, (n - 2) as nat));
    } else {
        assert(spec_after_frames(chain, next, 0) == next);
        assert(spec_after_frames(chain, offset, 0) == offset);
    }
}

/// The first `j` of `k` framed certificates are framed.
proof fn lemma_framed_prefix(chain: Seq<u8>, start: int, k: nat, j: nat)
    requires
        j <= k,
        spec_framed(chain, start, k),
    ensures
        spec_framed(chain, start, j),
    decreases j,
{
    if j > 0 {
        lemma_framed_prefix(chain, spec_frame_end(chain, start), (k - 1) as nat, (j - 1) as nat);
    }
}

/// Framed certificates move forward: `k` of them take at least two bytes
/// each.
proof fn lemma_after_frames_grows(chain: Seq<u8>, start: int, k: nat)
    requires
        spec_framed(chain, start, k),
    ensures
        spec_after_frames(chain, start, k) >= start + 2 * k,
    decreases k,
{
    if k > 0 {
        lemma_after_frames_grows(chain, spec_frame_end(chain, start), (k - 1) as nat);
    }
}

/// Of `n` certificates (from two to 100) framed one after the other that
/// fill the bytes, index `-1` finds the last: it starts after the first
/// `n - 1` of them, past the start of the bytes, and ends with them.
pub proof fn lemma_get_last_cert(chain: Seq<u8>, n: nat)
    requires
        2 <= n <= 100,
        spec_framed(chain, 0, n),
        spec_after_frames(chain, 0, n) == chain.len(),
    ensures
        spec_get_cert(chain, -1) == Ok::<(int, int), ErrorView>((spec_after_frames(chain, 0, (n - 1) as nat), chain.len() as int)),
        spec_after_frames(chain, 0, (n - 1) as nat) > 0,
{
    lemma_walk_last(chain, 0, 0, n);
    lemma_framed_prefix(chain, 0, n, (n - 1) as nat);
    lemma_after_frames_grows(chain, 0, (n - 1) as nat);
}

/// Walking framed certificates that fill the bytes for a position past
/// them (or for a negative one other than `-1`) fails.
proof fn lemma_walk_missing(chain: Seq<u8>, offset: int, ci: int, index: int, n: nat)
    requires
        0 <= ci <= 100,
        spec_framed(chain, offset, n),
        spec_after_frames(chain, offset, n) == chain.len(),
        index >= ci + n || index < -1,
    ensures
        spec_walk(chain, offset, ci, index) is Err,
    decreases n,
{
    if n > 0 {
        let next = spec_frame_end(chain, offset);
        if ci + 1 <= 100 {
            lemma_walk_missing(chain, next, ci + 1, index, (n - 1) as nat);
        }
    }
}

/// Of `n` certificates framed one after the other that fill the bytes, an
/// index from `n` on, or negative other than `-1`, finds none.
pub proof fn lemma_get_cert_not_found(chain: Seq<u8>, n: nat, index: int)
    requires
        n >= 1,
        spec_framed(chain, 0, n),
        spec_after_frames(chain, 0, n) == chain.len(),
        index >= n || index < -1,
    ensures
        spec_get_cert(chain, index) is Err,
{
    lemma_walk_missing(chain, 0, 0, index, n);
}


/// The certificates found from position `i` on by `spec_get_cert`, each
/// read from its bytes; the walk stops at the first position where no
/// certificate is found.
pub open spec fn spec_collect(chain: Seq<u8>, i: int) -> core::result::Result<Seq<CertView>, ErrorView>
    decreases 101 - i,
{
    if i < 0 || i > 100 {
        Ok(Seq::empty())
    } else {
        match spec_get_cert(chain, i) {
            Err(_) => Ok(Seq::empty()),
            Ok((a, b)) => match spec_certificate_from_der(chain.subrange(a, b)) {
                None => Err(ErrorView::Asn1(crate::error::Asn1Error::Malformed)),
                Some(c) => if i + 1 > 100 {
                    Err(ErrorView::ValidationError(spec_too_long_text()))
                } else {
                    match spec_collect(chain, i + 1) {
                        Ok(rest) => Ok(seq![c] + rest),
                        Err(e) => Err(e),
                    }
                },
            },
        }
    }
}

/// The options `verify_cert_chain` validates with: all checks on, chains
/// of at most 10 certificates.
pub open spec fn spec_default_options() -> ValidationOptions {
    ValidationOptions { check_time: true, check_signature: true, check_extensions: true, max_chain_depth: 10 }
}

/// The checks of concatenated DER certificates ordered from root to leaf:
/// the certificates are collected, put in leaf to root order and checked
/// as an X.509 chain, and the leaf's extended key usages are checked for
/// the Responder role.
pub open spec fn spec_verify_cert_chain(chain: Seq<u8>, now: Option<u64>) -> Check {
    match spec_collect(chain, 0) {
        Err(e) => Check::Fail(e),
        Ok(certs) => if certs.len() == 0 {
            Check::Fail(ErrorView::ChainError(ChainError::EmptyChain))
        } else {
            let rev = certs.reverse();
            match spec_validate_chain(spec_known_extensions(), RingBackend, rev, spec_default_options(), now) {
                Check::Pass => spec_eku_check(rev[0], SpdmCertificateRole::Responder),
                other => other,
            }
        },
    }
}

/// Reverses a vector of certificates.
fn reverse_certificates(v: Vec<Certificate>) -> (r: Vec<Certificate>)
    ensures
        spec_cert_views(r@) == spec_cert_views(v@).reverse(),
{
    let ghost orig = spec_cert_views(v@);
    let mut v = v;
    let mut out: Vec<Certificate> = Vec::new();
    while v.len() > 0
        invariant
            orig.len() == v.len() + out.len(),
            spec_cert_views(v@) == orig.subrange(0, v.len() as int),
            forall|i: int| 0 <= i < out.len() ==> #[trigger] spec_cert_views(out@)[i] == orig[orig.len() - 1 - i],
        decreases v.len(),
    {
        let ghost vv = spec_cert_views(v@);
        let ghost ov = spec_cert_views(out@);
        let c = v.pop().unwrap();
        let ghost cv = c@;
        assert(cv == vv[vv.len() - 1]);
        out.push(c);
        proof {
            assert(spec_cert_views(v@) =~= vv.drop_last());
            assert(spec_cert_views(out@) =~= ov.push(cv));
            assert(spec_cert_views(v@) =~= orig.subrange(0, v.len() as int));
        }
    }
    assert(spec_cert_views(out@) =~= orig.reverse());
    out
}

/// Collects the certificates of concatenated DER certificates (see
/// `spec_collect`).
fn collect_certificates(cert_chain: &[u8]) -> (r: Result<Vec<Certificate>>)
    ensures
        match spec_collect(cert_chain@, 0) {
            Ok(v) => r matches Ok(x) && spec_cert_views(x@) == v,
            Err(e) => r matches Err(x) && x@ == e,
        },
{
    let mut certificates: Vec<Certificate> = Vec::new();
    let mut cert_index: isize = 0;
    loop
        invariant
            0 <= cert_index <= 100,
            certificates@.len() == cert_index,
            spec_collect(cert_chain@, 0) == match spec_collect(cert_chain@, cert_index as int) {
                Ok(rest) => Ok(spec_cert_views(certificates@) + rest),
                Err(e) => Err::<Seq<CertView>, ErrorView>(e),
            },
        ensures
            spec_collect(cert_chain@, 0) == Ok::<Seq<CertView>, ErrorView>(spec_cert_views(certificates@)),
        decreases 100 - cert_index,
    {
        match get_cert_from_cert_chain(cert_chain, cert_index) {
            Ok((start, end)) => {
                let slice = copy_range(cert_chain, start, end);
                let cert = match Certificate::from_der(slice.as_slice()) {
                    Ok(c) => c,
                    Err(e) => return Err(e),
                };
                let ghost old_views = spec_cert_views(certificates@);
                let ghost cv = cert@;
                certificates.push(cert);
                cert_index = cert_index + 1;
                proof {
                    assert(spec_cert_views(certificates@) =~= old_views.push(cv));
                }
                if cert_index > 100 {
                    return Err(Error::ValidationError(text("Certificate chain too long (>100 certificates)")));
                }
                proof {
                    match spec_collect(cert_chain@, cert_index as int) {
                        Ok(rest) => {
                            assert(old_views + (seq![cv] + rest) =~= old_views.push(cv) + rest);
                        },
                        Err(e) => {},
                    }
                }
            },
            Err(_) => {
                proof {
                    assert(spec_cert_views(certificates@) + Seq::<CertView>::empty() =~= spec_cert_views(certificates@));
                }
                break;
            },
        }
    }
    Ok(certificates)
}

/// Checks concatenated DER certificates ordered from root to leaf at the
/// instant `now` (see `spec_verify_cert_chain`).
pub fn verify_cert_chain_at(cert_chain: &[u8], now: Option<u64>) -> (r: Result<()>)
    ensures
        spec_outcome(r, spec_verify_cert_chain(cert_chain@, now)),
{
    let certificates = match collect_certificates(cert_chain) {
        Ok(c) => c,
        Err(e) => return Err(e),
    };
    if certificates.len() == 0 {
        return Err(Error::ChainError(ChainError::EmptyChain));
    }
    let ghost collected = spec_cert_views(certificates@);
    let reversed = reverse_certificates(certificates);
    let chain = CertificateChain::new(reversed);
    assert(chain@ == collected.reverse());
    let options = ValidationOptions::default();
    let validator = Validator::new();
    match validator.validate_chain_at(&chain, &options, now) {
        Ok(()) => {},
        Err(e) => return Err(e),
    }
    let spdm_validator = SpdmValidator::new();
    assert(chain@[0] == chain.certificates@[0]@);
    spdm_validator.validate_spdm_eku(&chain.certificates[0], SpdmCertificateRole::Responder)
}

/// Checks concatenated DER certificates ordered from root to leaf (see
/// `spec_verify_cert_chain`), reading the clock once.
pub fn verify_cert_chain(cert_chain: &[u8]) -> (r: Result<()>)
    ensures
        exists|now: Option<u64>| spec_outcome(r, spec_verify_cert_chain(cert_chain@, now)),
{
    let now = crate::validator::current_unix_seconds();
    verify_cert_chain_at(cert_chain, now)
}

} // verus!

verus! {

// ---------------------------------------------------------------------------
// Writing chains and reading them back
// ---------------------------------------------------------------------------

/// The DER encodings of certificates, one after the other.
pub open spec fn spec_concat_certs(certs: Seq<CertView>) -> Option<Seq<u8>>
    decreases certs.len(),
{
    if certs.len() == 0 {
        Some(Seq::empty())
    } else {
        crate::der::spec_cat(spec_encode_certificate(certs[0]), spec_concat_certs(certs.drop_first()))
    }
}

/// Certificates read from concatenated DER bytes, written back one after
/// the other, take exactly as many bytes as were read.
pub proof fn lemma_concatenated_lengths(data: Seq<u8>)
    requires
        spec_concatenated(data) is Ok,
    ensures
        spec_concatenated(data) matches Ok(certs) && spec_concat_certs(certs) matches Some(w) && w.len() == data.len(),
    decreases data.len(),
{
    if data.len() > 0 {
        let c = spec_certificate_from_der(data).unwrap();
        let d = spec_encode_certificate(c).unwrap();
        crate::certificate::lemma_encode_certificate_nonempty(c);
        let tail = data.subrange(d.len() as int, data.len() as int);
        lemma_concatenated_lengths(tail);
        let rest = spec_concatenated(tail)->Ok_0;
        let certs = seq![c] + rest;
        assert(certs.drop_first() =~= rest);
        assert(certs[0] == c);
    } else {
        assert(spec_concatenated(data) == Ok::<Seq<CertView>, ErrorView>(Seq::empty()));
    }
}

/// The certificates of an SPDM chain read from its bytes, written back one
/// after the other, take exactly the bytes after the header.
pub proof fn lemma_spdm_chain_lengths(data: Seq<u8>, base_hash_algo: u32)
    requires
        spec_parse_spdm_cert_chain(data, base_hash_algo) is Ok,
    ensures
        spec_parse_spdm_cert_chain(data, base_hash_algo) matches Ok((h, certs))
            && spec_concat_certs(certs) matches Some(w)
            && w.len() + spec_header_bytes(h).len() == data.len(),
{
    let hash_algos = spec_hash_from_bits(base_hash_algo);
    let (h, n) = spec_header_from_bytes(data, spec_hash_size(hash_algos[0]) as nat)->Ok_0;
    lemma_concatenated_lengths(data.subrange(n, data.len() as int));
    lemma_header_bytes_of_read(data, spec_hash_size(hash_algos[0]) as nat);
}

/// Certificates read from concatenated DER bytes are well formed.
proof fn lemma_concatenated_wf(data: Seq<u8>)
    requires
        spec_concatenated(data) is Ok,
    ensures
        spec_concatenated(data) matches Ok(certs)
            && forall|j: int| 0 <= j < certs.len() ==> crate::encoding_laws::spec_certificate_wf(#[trigger] certs[j]),
    decreases data.len(),
{
    if data.len() > 0 {
        let c = spec_certificate_from_der(data).unwrap();
        crate::reading_laws::lemma_certificate_read_writes_back(data);
        let d = spec_encode_certificate(c).unwrap();
        crate::certificate::lemma_encode_certificate_nonempty(c);
        let tail = data.subrange(d.len() as int, data.len() as int);
        lemma_concatenated_wf(tail);
        let rest = spec_concatenated(tail)->Ok_0;
        let certs = seq![c] + rest;
        assert forall|j: int| 0 <= j < certs.len() implies crate::encoding_laws::spec_certificate_wf(#[trigger] certs[j]) by {
            if j > 0 {
                assert(certs[j] == rest[j - 1]);
            }
        }
    }
}

/// Concatenated DER certificates that are read write back, one after the
/// other, to exactly the bytes they were read from when those bytes are
/// the encodings of well-formed certificates one after the other, and
/// only then.
pub proof fn lemma_concatenated_exact_iff(data: Seq<u8>)
    requires
        spec_concatenated(data) is Ok,
    ensures
        spec_concatenated(data) matches Ok(certs) && (spec_concat_certs(certs) == Some(data) <==> exists|cs: Seq<CertView>|
            (forall|j: int| 0 <= j < cs.len() ==> crate::encoding_laws::spec_certificate_wf(#[trigger] cs[j]))
                && #[trigger] spec_concat_certs(cs) == Some(data)),
{
    let certs = spec_concatenated(data)->Ok_0;
    lemma_concatenated_wf(data);
    if exists|cs: Seq<CertView>|
        (forall|j: int| 0 <= j < cs.len() ==> crate::encoding_laws::spec_certificate_wf(#[trigger] cs[j]))
            && #[trigger] spec_concat_certs(cs) == Some(data) {
        let cs = choose|cs: Seq<CertView>|
            (forall|j: int| 0 <= j < cs.len() ==> crate::encoding_laws::spec_certificate_wf(#[trigger] cs[j]))
                && #[trigger] spec_concat_certs(cs) == Some(data);
        if data.len() > 0 {
            assert(data.len() <= crate::der::MAX_LEN) by {
                reveal(spec_certificate_from_der);
            }
        }
        lemma_concatenated_round_trip(cs);
    }
    if spec_concat_certs(certs) == Some(data) {
        assert((forall|j: int| 0 <= j < certs.len() ==> crate::encoding_laws::spec_certificate_wf(#[trigger] certs[j]))
            && spec_concat_certs(certs) == Some(data));
    }
}

/// The certificates of an SPDM chain read from its bytes, written back one
/// after the other, are exactly the bytes after the header when those
/// bytes are the encodings of well-formed certificates one after the
/// other, and only then.
pub proof fn lemma_spdm_chain_exact_iff(data: Seq<u8>, base_hash_algo: u32)
    requires
        spec_parse_spdm_cert_chain(data, base_hash_algo) is Ok,
    ensures
        spec_parse_spdm_cert_chain(data, base_hash_algo) matches Ok((h, certs)) && {
            let rest = data.subrange(spec_header_bytes(h).len() as int, data.len() as int);
            &&& data == spec_header_bytes(h) + rest
            &&& (spec_concat_certs(certs) == Some(rest) <==> exists|cs: Seq<CertView>|
                (forall|j: int| 0 <= j < cs.len() ==> crate::encoding_laws::spec_certificate_wf(#[trigger] cs[j]))
                    && #[trigger] spec_concat_certs(cs) == Some(rest))
        },
{
    let hash_algos = spec_hash_from_bits(base_hash_algo);
    let (h, n) = spec_header_from_bytes(data, spec_hash_size(hash_algos[0]) as nat)->Ok_0;
    lemma_header_bytes_of_read(data, spec_hash_size(hash_algos[0]) as nat);
    let rest = data.subrange(n, data.len() as int);
    lemma_concatenated_exact_iff(rest);
    assert(data =~= data.subrange(0, n) + rest);
}

/// Reading back certificates written one after the other gives them.
pub proof fn lemma_concatenated_round_trip(certs: Seq<CertView>)
    requires
        forall|j: int| 0 <= j < certs.len() ==> crate::encoding_laws::spec_certificate_wf(#[trigger] certs[j]),
        spec_concat_certs(certs) is Some,
        spec_concat_certs(certs).unwrap().len() <= crate::der::MAX_LEN,
    ensures
        spec_concatenated(spec_concat_certs(certs).unwrap()) == Ok::<Seq<CertView>, ErrorView>(certs),
    decreases certs.len(),
{
    let b = spec_concat_certs(certs).unwrap();
    if certs.len() == 0 {
        assert(certs =~= Seq::<CertView>::empty());
        return;
    }
    let c0 = certs[0];
    let d0 = spec_encode_certificate(c0).unwrap();
    let rest = spec_concat_certs(certs.drop_first()).unwrap();
    assert(b == d0 + rest);
    assert(crate::encoding_laws::spec_certificate_wf(c0));
    crate::encoding_laws::lemma_certificate_round_trip(c0, rest);
    crate::certificate::lemma_encode_certificate_nonempty(c0);
    assert(b.subrange(d0.len() as int, b.len() as int) =~= rest);
    assert forall|j: int| 0 <= j < certs.drop_first().len() implies crate::encoding_laws::spec_certificate_wf(
        #[trigger] certs.drop_first()[j],
    ) by {
        assert(certs.drop_first()[j] == certs[j + 1]);
    }
    lemma_concatenated_round_trip(certs.drop_first());
    assert(seq![c0] + certs.drop_first() =~= certs);
}

/// Reading back an SPDM certificate chain written as its header (with the
/// root hash size of the first negotiated hash algorithm, a zero reserved
/// field and the whole length) and its certificates gives the header and
/// the certificates.
pub proof fn lemma_spdm_chain_round_trip(h: HeaderView, certs: Seq<CertView>, base_hash_algo: u32)
    requires
        spec_hash_from_bits(base_hash_algo).len() > 0,
        h.reserved == 0,
        h.root_hash.len() == spec_hash_size(spec_hash_from_bits(base_hash_algo)[0]),
        certs.len() > 0,
        forall|j: int| 0 <= j < certs.len() ==> crate::encoding_laws::spec_certificate_wf(#[trigger] certs[j]),
        spec_concat_certs(certs) is Some,
        h.length == spec_header_bytes(h).len() + spec_concat_certs(certs).unwrap().len(),
    ensures
        spec_parse_spdm_cert_chain(spec_header_bytes(h) + spec_concat_certs(certs).unwrap(), base_hash_algo) == Ok::<
            (HeaderView, Seq<CertView>),
            ErrorView,
        >((h, certs)),
{
    let hb = spec_header_bytes(h);
    let b = spec_concat_certs(certs).unwrap();
    let data = hb + b;
    let size = spec_hash_size(spec_hash_from_bits(base_hash_algo)[0]) as nat;
    lemma_header_round_trip(h);
    assert(data.subrange(0, hb.len() as int) =~= hb);
    assert(data[0] == hb[0] && data[1] == hb[1] && data[2] == hb[2] && data[3] == hb[3]);
    assert(data.subrange(4, (4 + size) as int) =~= hb.subrange(4, (4 + size) as int));
    assert(spec_header_from_bytes(data, size) == Ok::<(HeaderView, int), ErrorView>((h, hb.len() as int)));
    assert(data.subrange(hb.len() as int, data.len() as int) =~= b);
    lemma_concatenated_round_trip(certs);
}

} // verus!
