//! The signature algorithms that validation asks a cryptographic backend
//! to check, and the backend trait itself, with a backend built on `ring`.
use vstd::prelude::*;
use crate::crypto::{
    lemma_ring_algorithm_determined, ring_verify, spec_ring_curve_bits, spec_ring_hash_bits, spec_ring_is_pss,
    spec_ring_verify, RingAlgorithm,
};
use crate::error::{Error, ErrorView, Result};
use crate::oid::{
    ecdsa_with_sha256, ecdsa_with_sha384, rsassa_pss, secp256r1, secp384r1,
    sha256_with_rsa_encryption, sha384_with_rsa_encryption, sha512_with_rsa_encryption,
    spec_ecdsa_with_sha256, spec_ecdsa_with_sha384, spec_oid_text, spec_rsassa_pss,
    spec_secp256r1, spec_secp384r1, spec_sha256_with_rsa_encryption,
    spec_sha384_with_rsa_encryption, spec_sha512_with_rsa_encryption, Oid,
};

verus! {

/// A signature algorithm together with, for ECDSA, the curve of the key.
#[derive(Debug, Clone, Copy, PartialEq, Eq, Structural)]
pub enum SignatureAlgorithm {
    /// ECDSA with P-256 and SHA-256.
    EcdsaP256Sha256,
    /// ECDSA with P-256 and SHA-384.
    EcdsaP256Sha384,
    /// ECDSA with P-384 and SHA-256.
    EcdsaP384Sha256,
    /// ECDSA with P-384 and SHA-384.
    EcdsaP384Sha384,
    /// RSA PKCS#1 v1.5 with SHA-256.
    RsaPkcs1Sha256,
    /// RSA PKCS#1 v1.5 with SHA-384.
    RsaPkcs1Sha384,
    /// RSA PKCS#1 v1.5 with SHA-512.
    RsaPkcs1Sha512,
    /// RSA-PSS with SHA-256.
    RsaPssSha256,
    /// RSA-PSS with SHA-384.
    RsaPssSha384,
    /// RSA-PSS with SHA-512.
    RsaPssSha512,
}

/// The algorithm for a signature algorithm identifier and, for ECDSA, the
/// curve identifier of the key: ECDSA takes its curve from the key (P-256
/// when the curve is absent or another one), RSA-PSS is taken as using
/// SHA-256, and other identifiers are not supported.
pub open spec fn spec_from_oid_with_curve(sig: Seq<u8>, curve: Option<Seq<u8>>) -> Option<SignatureAlgorithm> {
    if sig == spec_ecdsa_with_sha256() {
        if curve == Some(spec_secp384r1()) {
            Some(SignatureAlgorithm::EcdsaP384Sha256)
        } else {
            Some(SignatureAlgorithm::EcdsaP256Sha256)
        }
    } else if sig == spec_ecdsa_with_sha384() {
        if curve == Some(spec_secp384r1()) {
            Some(SignatureAlgorithm::EcdsaP384Sha384)
        } else {
            Some(SignatureAlgorithm::EcdsaP256Sha384)
        }
    } else if sig == spec_sha256_with_rsa_encryption() {
        Some(SignatureAlgorithm::RsaPkcs1Sha256)
    } else if sig == spec_sha384_with_rsa_encryption() {
        Some(SignatureAlgorithm::RsaPkcs1Sha384)
    } else if sig == spec_sha512_with_rsa_encryption() {
        Some(SignatureAlgorithm::RsaPkcs1Sha512)
    } else if sig == spec_rsassa_pss() {
        Some(SignatureAlgorithm::RsaPssSha256)
    } else {
        None
    }
}

/// The error for a signature algorithm identifier that is not supported.
pub open spec fn spec_unsupported_oid_error(sig: Seq<u8>) -> ErrorView {
    ErrorView::AlgorithmError("OID: "@ + spec_oid_text(sig))
}

/// Whether an optional curve identifier is the given one.
fn curve_is(curve: Option<&Oid>, c: &Oid) -> (r: bool)
    ensures
        r == (match curve {
            Some(x) => x@ == c@,
            None => false,
        }),
{
    match curve {
        Some(x) => x.same(c),
        None => false,
    }
}

impl SignatureAlgorithm {
    /// The algorithm for a signature algorithm identifier and an optional
    /// curve identifier (see `spec_from_oid_with_curve`).
    pub fn from_oid_with_curve(sig_oid: &Oid, curve_oid: Option<&Oid>) -> (r: Result<SignatureAlgorithm>)
        ensures
            ({
                let curve = match curve_oid {
                    Some(c) => Some(c@),
                    None => None,
                };
                match spec_from_oid_with_curve(sig_oid@, curve) {
                    Some(a) => r == Ok::<SignatureAlgorithm, Error>(a),
                    None => r matches Err(e) && e@ == spec_unsupported_oid_error(sig_oid@),
                }
            }),
    {
        if sig_oid.same(&ecdsa_with_sha256()) {
            if curve_is(curve_oid, &secp256r1()) {
                Ok(SignatureAlgorithm::EcdsaP256Sha256)
            } else if curve_is(curve_oid, &secp384r1()) {
                Ok(SignatureAlgorithm::EcdsaP384Sha256)
            } else {
                Ok(SignatureAlgorithm::EcdsaP256Sha256)
            }
        } else if sig_oid.same(&ecdsa_with_sha384()) {
            if curve_is(curve_oid, &secp256r1()) {
                Ok(SignatureAlgorithm::EcdsaP256Sha384)
            } else if curve_is(curve_oid, &secp384r1()) {
                Ok(SignatureAlgorithm::EcdsaP384Sha384)
            } else {
                Ok(SignatureAlgorithm::EcdsaP256Sha384)
            }
        } else if sig_oid.same(&sha256_with_rsa_encryption()) {
            Ok(SignatureAlgorithm::RsaPkcs1Sha256)
        } else if sig_oid.same(&sha384_with_rsa_encryption()) {
            Ok(SignatureAlgorithm::RsaPkcs1Sha384)
        } else if sig_oid.same(&sha512_with_rsa_encryption()) {
            Ok(SignatureAlgorithm::RsaPkcs1Sha512)
        } else if sig_oid.same(&rsassa_pss()) {
            Ok(SignatureAlgorithm::RsaPssSha256)
        } else {
            let mut m = "OID: ".to_owned();
            let t = sig_oid.to_text();
            m.append(t.as_str());
            Err(Error::unsupported_algorithm(m))
        }
    }

    /// The algorithm for a signature algorithm identifier, without a curve.
    pub fn from_oid(oid: &Oid) -> (r: Result<SignatureAlgorithm>)
        ensures
            match spec_from_oid_with_curve(oid@, None) {
                Some(a) => r == Ok::<SignatureAlgorithm, Error>(a),
                None => r matches Err(e) && e@ == spec_unsupported_oid_error(oid@),
            },
    {
        SignatureAlgorithm::from_oid_with_curve(oid, None)
    }
}

/// A cryptographic backend that checks signatures.
pub trait CryptoBackend {
    /// What this backend gives for `signature` over `tbs_data` with the key
    /// `public_key` under the algorithm: `Ok` when it accepts the
    /// signature, else its error.
    spec fn spec_verify(&self, algorithm: SignatureAlgorithm, tbs_data: Seq<u8>, signature: Seq<u8>, public_key: Seq<u8>) -> core::result::Result<(), ErrorView>;

    /// Checks `signature` over `tbs_data` with the key `public_key` (for
    /// ECDSA, an ASN.1 DER signature; the key as in SubjectPublicKeyInfo);
    /// the result is `spec_verify` of the arguments.
    fn verify_signature(&self, algorithm: SignatureAlgorithm, tbs_data: &[u8], signature: &[u8], public_key: &[u8]) -> (r: Result<()>)
        ensures
            crate::error::spec_res(r) == self.spec_verify(algorithm, tbs_data@, signature@, public_key@);
}

/// The `ring` algorithm that checks a signature algorithm.
pub open spec fn spec_ring_algorithm_for(a: SignatureAlgorithm) -> RingAlgorithm {
    match a {
        SignatureAlgorithm::EcdsaP256Sha256 => RingAlgorithm::EcdsaP256Sha256,
        SignatureAlgorithm::EcdsaP256Sha384 => RingAlgorithm::EcdsaP256Sha384,
        SignatureAlgorithm::EcdsaP384Sha256 => RingAlgorithm::EcdsaP384Sha256,
        SignatureAlgorithm::EcdsaP384Sha384 => RingAlgorithm::EcdsaP384Sha384,
        SignatureAlgorithm::RsaPkcs1Sha256 => RingAlgorithm::RsaPkcs1Sha256,
        SignatureAlgorithm::RsaPkcs1Sha384 => RingAlgorithm::RsaPkcs1Sha384,
        SignatureAlgorithm::RsaPkcs1Sha512 => RingAlgorithm::RsaPkcs1Sha512,
        SignatureAlgorithm::RsaPssSha256 => RingAlgorithm::RsaPssSha256,
        SignatureAlgorithm::RsaPssSha384 => RingAlgorithm::RsaPssSha384,
        SignatureAlgorithm::RsaPssSha512 => RingAlgorithm::RsaPssSha512,
    }
}

/// The backend built on `ring`.
#[derive(Debug, Clone, Copy, PartialEq, Eq, Structural)]
pub struct RingBackend;

impl CryptoBackend for RingBackend {
    open spec fn spec_verify(&self, algorithm: SignatureAlgorithm, tbs_data: Seq<u8>, signature: Seq<u8>, public_key: Seq<u8>) -> core::result::Result<(), ErrorView> {
        if spec_ring_verify(spec_ring_algorithm_for(algorithm), public_key, tbs_data, signature) {
            Ok(())
        } else {
            Err(ErrorView::SignatureFailed)
        }
    }

    fn verify_signature(&self, algorithm: SignatureAlgorithm, tbs_data: &[u8], signature: &[u8], public_key: &[u8]) -> (r: Result<()>) {
        let a = match algorithm {
            SignatureAlgorithm::EcdsaP256Sha256 => RingAlgorithm::EcdsaP256Sha256,
            SignatureAlgorithm::EcdsaP256Sha384 => RingAlgorithm::EcdsaP256Sha384,
            SignatureAlgorithm::EcdsaP384Sha256 => RingAlgorithm::EcdsaP384Sha256,
            SignatureAlgorithm::EcdsaP384Sha384 => RingAlgorithm::EcdsaP384Sha384,
            SignatureAlgorithm::RsaPkcs1Sha256 => RingAlgorithm::RsaPkcs1Sha256,
            SignatureAlgorithm::RsaPkcs1Sha384 => RingAlgorithm::RsaPkcs1Sha384,
            SignatureAlgorithm::RsaPkcs1Sha512 => RingAlgorithm::RsaPkcs1Sha512,
            SignatureAlgorithm::RsaPssSha256 => RingAlgorithm::RsaPssSha256,
            SignatureAlgorithm::RsaPssSha384 => RingAlgorithm::RsaPssSha384,
            SignatureAlgorithm::RsaPssSha512 => RingAlgorithm::RsaPssSha512,
        };
        if ring_verify(a, public_key, tbs_data, signature) {
            Ok(())
        } else {
            Err(Error::signature_failed())
        }
    }
}

/// The size in bits of the SHA-2 digest of a signature algorithm, as its
/// name says.
pub open spec fn spec_signature_hash_bits(a: SignatureAlgorithm) -> nat {
    match a {
        SignatureAlgorithm::EcdsaP256Sha256 => 256,
        SignatureAlgorithm::EcdsaP384Sha256 => 256,
        SignatureAlgorithm::RsaPkcs1Sha256 => 256,
        SignatureAlgorithm::RsaPssSha256 => 256,
        SignatureAlgorithm::EcdsaP256Sha384 => 384,
        SignatureAlgorithm::EcdsaP384Sha384 => 384,
        SignatureAlgorithm::RsaPkcs1Sha384 => 384,
        SignatureAlgorithm::RsaPssSha384 => 384,
        SignatureAlgorithm::RsaPkcs1Sha512 => 512,
        SignatureAlgorithm::RsaPssSha512 => 512,
    }
}

/// The size in bits of the curve of an ECDSA signature algorithm (`None`
/// for RSA), as its name says.
pub open spec fn spec_signature_curve_bits(a: SignatureAlgorithm) -> Option<nat> {
    match a {
        SignatureAlgorithm::EcdsaP256Sha256 => Some(256),
        SignatureAlgorithm::EcdsaP256Sha384 => Some(256),
        SignatureAlgorithm::EcdsaP384Sha256 => Some(384),
        SignatureAlgorithm::EcdsaP384Sha384 => Some(384),
        _ => None,
    }
}

/// Whether a signature algorithm is RSA-PSS.
pub open spec fn spec_signature_is_pss(a: SignatureAlgorithm) -> bool {
    a == SignatureAlgorithm::RsaPssSha256 || a == SignatureAlgorithm::RsaPssSha384 || a == SignatureAlgorithm::RsaPssSha512
}

/// Law: the `ring` backend checks every signature algorithm with the `ring`
/// algorithm of the same hash, the same curve (for ECDSA) and the same RSA
/// padding; so it accepts a signature exactly when `ring`, under any
/// algorithm with that hash, curve and padding, accepts it.
pub proof fn lemma_ring_backend_same_algorithm(
    a: SignatureAlgorithm,
    r: RingAlgorithm,
    tbs_data: Seq<u8>,
    signature: Seq<u8>,
    public_key: Seq<u8>,
)
    requires
        spec_ring_hash_bits(r) == spec_signature_hash_bits(a),
        spec_ring_curve_bits(r) == spec_signature_curve_bits(a),
        spec_ring_is_pss(r) == spec_signature_is_pss(a),
    ensures
        RingBackend.spec_verify(a, tbs_data, signature, public_key) is Ok
            <==> spec_ring_verify(r, public_key, tbs_data, signature),
        RingBackend.spec_verify(a, tbs_data, signature, public_key) matches Err(e) ==> e == ErrorView::SignatureFailed,
{
    let used = spec_ring_algorithm_for(a);
    assert(spec_ring_hash_bits(used) == spec_signature_hash_bits(a));
    assert(spec_ring_curve_bits(used) == spec_signature_curve_bits(a));
    assert(spec_ring_is_pss(used) == spec_signature_is_pss(a));
    lemma_ring_algorithm_determined(used, r);
}

/// Law: every signature algorithm has a `ring` algorithm of the same hash,
/// curve and padding.
pub proof fn lemma_ring_backend_covers(a: SignatureAlgorithm)
    ensures
        exists|r: RingAlgorithm|
            spec_ring_hash_bits(r) == spec_signature_hash_bits(a)
                && spec_ring_curve_bits(r) == spec_signature_curve_bits(a)
                && #[trigger] spec_ring_is_pss(r) == spec_signature_is_pss(a),
{
    let r = spec_ring_algorithm_for(a);
    assert(spec_ring_hash_bits(r) == spec_signature_hash_bits(a)
        && spec_ring_curve_bits(r) == spec_signature_curve_bits(a)
        && spec_ring_is_pss(r) == spec_signature_is_pss(a));
}

/// Law: the algorithm chosen for a signature algorithm identifier and the
/// curve of the key hashes with the digest that the identifier names
/// (SHA-256 for ecdsa-with-SHA256 and sha256WithRSAEncryption, SHA-384 for
/// ecdsa-with-SHA384 and sha384WithRSAEncryption, SHA-512 for
/// sha512WithRSAEncryption), and an ECDSA one is on P-384 exactly when the
/// key's curve is secp384r1.
pub proof fn lemma_from_oid_with_curve_hash_and_curve(sig: Seq<u8>, curve: Option<Seq<u8>>)
    ensures
        spec_from_oid_with_curve(sig, curve) matches Some(a) ==> {
            &&& (sig == spec_ecdsa_with_sha256() || sig == spec_sha256_with_rsa_encryption()) ==> spec_signature_hash_bits(a) == 256
            &&& (sig == spec_ecdsa_with_sha384() || sig == spec_sha384_with_rsa_encryption()) ==> spec_signature_hash_bits(a) == 384
            &&& sig == spec_sha512_with_rsa_encryption() ==> spec_signature_hash_bits(a) == 512
            &&& (sig == spec_ecdsa_with_sha256() || sig == spec_ecdsa_with_sha384()) ==> (
                spec_signature_curve_bits(a) == if curve == Some(spec_secp384r1()) { Some(384nat) } else { Some(256nat) })
        },
        (sig == spec_ecdsa_with_sha256() || sig == spec_ecdsa_with_sha384() || sig == spec_sha256_with_rsa_encryption()
            || sig == spec_sha384_with_rsa_encryption() || sig == spec_sha512_with_rsa_encryption())
            ==> spec_from_oid_with_curve(sig, curve) is Some,
{
    crate::oid::lemma_signature_oids_distinct();
}

} // verus!
