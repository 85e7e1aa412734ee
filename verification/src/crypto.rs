//! Signature verification and hashing, done by `ring`.
use vstd::prelude::*;
use ring::signature::{
    UnparsedPublicKey, VerificationAlgorithm, ECDSA_P256_SHA256_ASN1, ECDSA_P256_SHA384_ASN1,
    ECDSA_P384_SHA256_ASN1, ECDSA_P384_SHA384_ASN1, RSA_PKCS1_2048_8192_SHA256,
    RSA_PKCS1_2048_8192_SHA384, RSA_PKCS1_2048_8192_SHA512, RSA_PSS_2048_8192_SHA256,
    RSA_PSS_2048_8192_SHA384, RSA_PSS_2048_8192_SHA512,
};

verus! {

/// The verification algorithms of `ring` that the library uses.
#[derive(Debug, Clone, Copy, PartialEq, Eq, Structural)]
pub enum RingAlgorithm {
    /// `RSA_PKCS1_2048_8192_SHA256`.
    RsaPkcs1Sha256,
    /// `RSA_PKCS1_2048_8192_SHA384`.
    RsaPkcs1Sha384,
    /// `RSA_PKCS1_2048_8192_SHA512`.
    RsaPkcs1Sha512,
    /// `RSA_PSS_2048_8192_SHA256`.
    RsaPssSha256,
    /// `RSA_PSS_2048_8192_SHA384`.
    RsaPssSha384,
    /// `RSA_PSS_2048_8192_SHA512`.
    RsaPssSha512,
    /// `ECDSA_P256_SHA256_ASN1`.
    EcdsaP256Sha256,
    /// `ECDSA_P256_SHA384_ASN1`.
    EcdsaP256Sha384,
    /// `ECDSA_P384_SHA256_ASN1`.
    EcdsaP384Sha256,
    /// `ECDSA_P384_SHA384_ASN1`.
    EcdsaP384Sha384,
}

/// The size in bits of the SHA-2 digest that a `ring` algorithm hashes
/// with, as the name of its `ring` constant says.
pub open spec fn spec_ring_hash_bits(r: RingAlgorithm) -> nat {
    match r {
        RingAlgorithm::RsaPkcs1Sha256 => 256,
        RingAlgorithm::RsaPssSha256 => 256,
        RingAlgorithm::EcdsaP256Sha256 => 256,
        RingAlgorithm::EcdsaP384Sha256 => 256,
        RingAlgorithm::RsaPkcs1Sha384 => 384,
        RingAlgorithm::RsaPssSha384 => 384,
        RingAlgorithm::EcdsaP256Sha384 => 384,
        RingAlgorithm::EcdsaP384Sha384 => 384,
        RingAlgorithm::RsaPkcs1Sha512 => 512,
        RingAlgorithm::RsaPssSha512 => 512,
    }
}

/// The size in bits of the curve of an ECDSA `ring` algorithm (`None` for
/// RSA), as the name of its `ring` constant says.
pub open spec fn spec_ring_curve_bits(r: RingAlgorithm) -> Option<nat> {
    match r {
        RingAlgorithm::EcdsaP256Sha256 => Some(256),
        RingAlgorithm::EcdsaP256Sha384 => Some(256),
        RingAlgorithm::EcdsaP384Sha256 => Some(384),
        RingAlgorithm::EcdsaP384Sha384 => Some(384),
        _ => None,
    }
}

/// Whether a `ring` algorithm is RSA-PSS (RSA PKCS#1 v1.5 and ECDSA are
/// not).
pub open spec fn spec_ring_is_pss(r: RingAlgorithm) -> bool {
    r == RingAlgorithm::RsaPssSha256 || r == RingAlgorithm::RsaPssSha384 || r == RingAlgorithm::RsaPssSha512
}

/// A `ring` algorithm is told apart from the others by its hash, its curve
/// and whether it is RSA-PSS.
pub proof fn lemma_ring_algorithm_determined(r1: RingAlgorithm, r2: RingAlgorithm)
    requires
        spec_ring_hash_bits(r1) == spec_ring_hash_bits(r2),
        spec_ring_curve_bits(r1) == spec_ring_curve_bits(r2),
        spec_ring_is_pss(r1) == spec_ring_is_pss(r2),
    ensures
        r1 == r2,
{
}

/// Whether `ring` accepts `signature` as a signature of `message` by the
/// key `public_key` under the algorithm.
pub uninterp spec fn spec_ring_verify(alg: RingAlgorithm, public_key: Seq<u8>, message: Seq<u8>, signature: Seq<u8>) -> bool;

/// Verifies a signature with `ring::signature::UnparsedPublicKey::verify`
/// under the `ring` algorithm named by `alg`; the result is
/// `spec_ring_verify` of the arguments.
#[verifier::external_body]
pub(crate) fn ring_verify(alg: RingAlgorithm, public_key: &[u8], message: &[u8], signature: &[u8]) -> (r: bool)
    ensures
        r == spec_ring_verify(alg, public_key@, message@, signature@),
{
    let a: &'static dyn VerificationAlgorithm = match alg {
        RingAlgorithm::RsaPkcs1Sha256 => &RSA_PKCS1_2048_8192_SHA256,
        RingAlgorithm::RsaPkcs1Sha384 => &RSA_PKCS1_2048_8192_SHA384,
        RingAlgorithm::RsaPkcs1Sha512 => &RSA_PKCS1_2048_8192_SHA512,
        RingAlgorithm::RsaPssSha256 => &RSA_PSS_2048_8192_SHA256,
        RingAlgorithm::RsaPssSha384 => &RSA_PSS_2048_8192_SHA384,
        RingAlgorithm::RsaPssSha512 => &RSA_PSS_2048_8192_SHA512,
        RingAlgorithm::EcdsaP256Sha256 => &ECDSA_P256_SHA256_ASN1,
        RingAlgorithm::EcdsaP256Sha384 => &ECDSA_P256_SHA384_ASN1,
        RingAlgorithm::EcdsaP384Sha256 => &ECDSA_P384_SHA256_ASN1,
        RingAlgorithm::EcdsaP384Sha384 => &ECDSA_P384_SHA384_ASN1,
    };
    UnparsedPublicKey::new(a, public_key).verify(message, signature).is_ok()
}

/// The digest algorithms of `ring` that the library uses.
#[derive(Debug, Clone, Copy, PartialEq, Eq, Structural)]
pub enum RingDigest {
    /// `ring::digest::SHA256`.
    Sha256,
    /// `ring::digest::SHA384`.
    Sha384,
    /// `ring::digest::SHA512`.
    Sha512,
}

/// The length in bytes of a digest.
pub open spec fn spec_digest_len(alg: RingDigest) -> nat {
    match alg {
        RingDigest::Sha256 => 32,
        RingDigest::Sha384 => 48,
        RingDigest::Sha512 => 64,
    }
}

/// The digest `ring` computes of `data`.
pub uninterp spec fn spec_ring_digest(alg: RingDigest, data: Seq<u8>) -> Seq<u8>;

/// Hashes `data` with `ring::digest::digest`; the result is
/// `spec_ring_digest` of the arguments, of the algorithm's output length.
#[verifier::external_body]
pub(crate) fn ring_digest(alg: RingDigest, data: &[u8]) -> (r: Vec<u8>)
    ensures
        r@ == spec_ring_digest(alg, data@),
        r@.len() == spec_digest_len(alg),
{
    let a: &'static ring::digest::Algorithm = match alg {
        RingDigest::Sha256 => &ring::digest::SHA256,
        RingDigest::Sha384 => &ring::digest::SHA384,
        RingDigest::Sha512 => &ring::digest::SHA512,
    };
    ring::digest::digest(a, data).as_ref().to_vec()
}

} // verus!
