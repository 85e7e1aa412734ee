//! Signature, public key and curve algorithms of X.509 certificates, and
//! their object identifiers.
use vstd::prelude::*;
use crate::certificate::AlgorithmIdentifier;
use crate::crypto::{ring_verify, spec_ring_curve_bits, spec_ring_hash_bits, spec_ring_is_pss, spec_ring_verify, RingAlgorithm};
use crate::oid::{
    ec_public_key, ecdsa_with_sha256, ecdsa_with_sha384, ecdsa_with_sha512, rsa_encryption,
    secp256r1, secp384r1, secp521r1, sha256_with_rsa_encryption, sha384_with_rsa_encryption,
    sha512_with_rsa_encryption, spec_ec_public_key, spec_ecdsa_with_sha256,
    spec_ecdsa_with_sha384, spec_ecdsa_with_sha512, spec_oid_text, spec_rsa_encryption,
    spec_secp256r1, spec_secp384r1, spec_secp521r1, spec_sha256_with_rsa_encryption,
    spec_sha384_with_rsa_encryption, spec_sha512_with_rsa_encryption, Oid,
};

verus! {

/// Errors of algorithm lookups and signature checks.
#[derive(Debug, Clone, PartialEq, Eq)]
pub enum AlgorithmError {
    /// An algorithm identifier that is not supported (its text is given).
    UnsupportedAlgorithm(String),
    /// An elliptic curve that is not supported (its text is given).
    UnsupportedCurve(String),
    /// An algorithm that `ring` does not support.
    UnsupportedByRing(String),
    /// The algorithm is not an RSA algorithm.
    NotRsaAlgorithm,
    /// The algorithm is not an ECDSA algorithm.
    NotEcdsaAlgorithm,
}

/// The mathematical value of an algorithm error.
pub enum AlgorithmErrorView {
    UnsupportedAlgorithm(Seq<char>),
    UnsupportedCurve(Seq<char>),
    UnsupportedByRing(Seq<char>),
    NotRsaAlgorithm,
    NotEcdsaAlgorithm,
}

impl View for AlgorithmError {
    type V = AlgorithmErrorView;

    open spec fn view(&self) -> AlgorithmErrorView {
        match self {
            AlgorithmError::UnsupportedAlgorithm(m) => AlgorithmErrorView::UnsupportedAlgorithm(m@),
            AlgorithmError::UnsupportedCurve(m) => AlgorithmErrorView::UnsupportedCurve(m@),
            AlgorithmError::UnsupportedByRing(m) => AlgorithmErrorView::UnsupportedByRing(m@),
            AlgorithmError::NotRsaAlgorithm => AlgorithmErrorView::NotRsaAlgorithm,
            AlgorithmError::NotEcdsaAlgorithm => AlgorithmErrorView::NotEcdsaAlgorithm,
        }
    }
}

/// The message of an algorithm error.
pub open spec fn spec_algorithm_error_text(e: AlgorithmErrorView) -> Seq<char> {
    match e {
        AlgorithmErrorView::UnsupportedAlgorithm(m) => "Unsupported algorithm: "@ + m,
        AlgorithmErrorView::UnsupportedCurve(m) => "Unsupported elliptic curve: "@ + m,
        AlgorithmErrorView::UnsupportedByRing(m) => "Algorithm not supported by ring: "@ + m,
        AlgorithmErrorView::NotRsaAlgorithm => "Algorithm is not an RSA algorithm"@,
        AlgorithmErrorView::NotEcdsaAlgorithm => "Algorithm is not an ECDSA algorithm"@,
    }
}

impl AlgorithmError {
    /// The message of this error.
    pub fn to_text(&self) -> (r: String)
        ensures
            r@ == spec_algorithm_error_text(self@),
    {
        match self {
            AlgorithmError::UnsupportedAlgorithm(m) => {
                let mut s = "Unsupported algorithm: ".to_owned();
                s.append(m.as_str());
                s
            },
            AlgorithmError::UnsupportedCurve(m) => {
                let mut s = "Unsupported elliptic curve: ".to_owned();
                s.append(m.as_str());
                s
            },
            AlgorithmError::UnsupportedByRing(m) => {
                let mut s = "Algorithm not supported by ring: ".to_owned();
                s.append(m.as_str());
                s
            },
            AlgorithmError::NotRsaAlgorithm => "Algorithm is not an RSA algorithm".to_owned(),
            AlgorithmError::NotEcdsaAlgorithm => "Algorithm is not an ECDSA algorithm".to_owned(),
        }
    }
}

// ---------------------------------------------------------------------------
// SignatureAlgorithm
// ---------------------------------------------------------------------------

/// The signature algorithms that `ring` verifies.
#[derive(Debug, Clone, Copy, PartialEq, Eq, Structural)]
pub enum SignatureAlgorithm {
    /// RSA PKCS#1 v1.5 with SHA-256.
    RsaSha256,
    /// RSA PKCS#1 v1.5 with SHA-384.
    RsaSha384,
    /// RSA PKCS#1 v1.5 with SHA-512.
    RsaSha512,
    /// ECDSA with SHA-256.
    EcdsaSha256,
    /// ECDSA with SHA-384.
    EcdsaSha384,
    /// ECDSA with SHA-512.
    EcdsaSha512,
}

/// The object identifier of a signature algorithm.
pub open spec fn spec_signature_algorithm_oid(a: SignatureAlgorithm) -> Seq<u8> {
    match a {
        SignatureAlgorithm::RsaSha256 => spec_sha256_with_rsa_encryption(),
        SignatureAlgorithm::RsaSha384 => spec_sha384_with_rsa_encryption(),
        SignatureAlgorithm::RsaSha512 => spec_sha512_with_rsa_encryption(),
        SignatureAlgorithm::EcdsaSha256 => spec_ecdsa_with_sha256(),
        SignatureAlgorithm::EcdsaSha384 => spec_ecdsa_with_sha384(),
        SignatureAlgorithm::EcdsaSha512 => spec_ecdsa_with_sha512(),
    }
}

/// The signature algorithm with a given object identifier.
pub open spec fn spec_signature_algorithm_from_oid(o: Seq<u8>) -> Option<SignatureAlgorithm> {
    if o == spec_sha256_with_rsa_encryption() {
        Some(SignatureAlgorithm::RsaSha256)
    } else if o == spec_sha384_with_rsa_encryption() {
        Some(SignatureAlgorithm::RsaSha384)
    } else if o == spec_sha512_with_rsa_encryption() {
        Some(SignatureAlgorithm::RsaSha512)
    } else if o == spec_ecdsa_with_sha256() {
        Some(SignatureAlgorithm::EcdsaSha256)
    } else if o == spec_ecdsa_with_sha384() {
        Some(SignatureAlgorithm::EcdsaSha384)
    } else if o == spec_ecdsa_with_sha512() {
        Some(SignatureAlgorithm::EcdsaSha512)
    } else {
        None
    }
}

/// Whether a signature algorithm is an RSA one.
pub open spec fn spec_is_rsa(a: SignatureAlgorithm) -> bool {
    a == SignatureAlgorithm::RsaSha256 || a == SignatureAlgorithm::RsaSha384 || a == SignatureAlgorithm::RsaSha512
}

/// The `ring` algorithm that checks a signature algorithm with a public
/// key: the RSA ones with PKCS#1 v1.5 and 2048 to 8192 bit keys; ECDSA on
/// the curve of the key, told by the length of its uncompressed point (97
/// octets for P-384, 65 for P-256): with SHA-256 on P-384 for a 97-octet
/// key and on P-256 otherwise, with SHA-384 on P-256 for a 65-octet key and
/// on P-384 otherwise; ECDSA with SHA-512 has none.
pub open spec fn spec_ring_algorithm(a: SignatureAlgorithm, key: Seq<u8>) -> Option<RingAlgorithm> {
    match a {
        SignatureAlgorithm::RsaSha256 => Some(RingAlgorithm::RsaPkcs1Sha256),
        SignatureAlgorithm::RsaSha384 => Some(RingAlgorithm::RsaPkcs1Sha384),
        SignatureAlgorithm::RsaSha512 => Some(RingAlgorithm::RsaPkcs1Sha512),
        SignatureAlgorithm::EcdsaSha256 => if key.len() == 97 {
            Some(RingAlgorithm::EcdsaP384Sha256)
        } else {
            Some(RingAlgorithm::EcdsaP256Sha256)
        },
        SignatureAlgorithm::EcdsaSha384 => if key.len() == 65 {
            Some(RingAlgorithm::EcdsaP256Sha384)
        } else {
            Some(RingAlgorithm::EcdsaP384Sha384)
        },
        SignatureAlgorithm::EcdsaSha512 => None,
    }
}

/// The size in bits of the SHA-2 digest of a signature algorithm, as its
/// name says.
pub open spec fn spec_algorithm_hash_bits(a: SignatureAlgorithm) -> nat {
    match a {
        SignatureAlgorithm::RsaSha256 => 256,
        SignatureAlgorithm::EcdsaSha256 => 256,
        SignatureAlgorithm::RsaSha384 => 384,
        SignatureAlgorithm::EcdsaSha384 => 384,
        SignatureAlgorithm::RsaSha512 => 512,
        SignatureAlgorithm::EcdsaSha512 => 512,
    }
}

/// The size in bits of the curve of an uncompressed ECDSA public point
/// (`0x04`, then two coordinates): 256 for 65 octets, 384 for 97.
pub open spec fn spec_point_curve_bits(key: Seq<u8>) -> Option<nat> {
    if key.len() == 65 {
        Some(256)
    } else if key.len() == 97 {
        Some(384)
    } else {
        None
    }
}

/// Law: a signature is checked with the `ring` algorithm of the digest the
/// signature algorithm names; RSA with PKCS#1 v1.5 padding; ECDSA on the
/// curve of the key (P-256 for a 65-octet point, P-384 for a 97-octet
/// point); only ECDSA with SHA-512, which `ring` lacks, has none.
pub proof fn lemma_ring_algorithm_matches(a: SignatureAlgorithm, key: Seq<u8>)
    ensures
        spec_ring_algorithm(a, key) is None <==> a == SignatureAlgorithm::EcdsaSha512,
        spec_ring_algorithm(a, key) matches Some(r) ==> {
            &&& spec_ring_hash_bits(r) == spec_algorithm_hash_bits(a)
            &&& !spec_ring_is_pss(r)
            &&& (spec_is_rsa(a) <==> spec_ring_curve_bits(r) is None)
            &&& (!spec_is_rsa(a) && spec_point_curve_bits(key) is Some ==> spec_ring_curve_bits(r) == spec_point_curve_bits(key))
        },
{
}

impl SignatureAlgorithm {
    /// The signature algorithm with the given object identifier; others
    /// are refused with the identifier's text.
    pub fn from_oid(oid: &Oid) -> (r: Result<SignatureAlgorithm, AlgorithmError>)
        ensures
            match spec_signature_algorithm_from_oid(oid@) {
                Some(a) => r == Ok::<SignatureAlgorithm, AlgorithmError>(a),
                None => r matches Err(e) && e@ == AlgorithmErrorView::UnsupportedAlgorithm(spec_oid_text(oid@)),
            },
    {
        if oid.same(&sha256_with_rsa_encryption()) {
            Ok(SignatureAlgorithm::RsaSha256)
        } else if oid.same(&sha384_with_rsa_encryption()) {
            Ok(SignatureAlgorithm::RsaSha384)
        } else if oid.same(&sha512_with_rsa_encryption()) {
            Ok(SignatureAlgorithm::RsaSha512)
        } else if oid.same(&ecdsa_with_sha256()) {
            Ok(SignatureAlgorithm::EcdsaSha256)
        } else if oid.same(&ecdsa_with_sha384()) {
            Ok(SignatureAlgorithm::EcdsaSha384)
        } else if oid.same(&ecdsa_with_sha512()) {
            Ok(SignatureAlgorithm::EcdsaSha512)
        } else {
            Err(AlgorithmError::UnsupportedAlgorithm(oid.to_text()))
        }
    }

    /// The object identifier of this algorithm.
    pub fn to_oid(&self) -> (r: Oid)
        ensures
            r@ == spec_signature_algorithm_oid(*self),
    {
        match self {
            SignatureAlgorithm::RsaSha256 => sha256_with_rsa_encryption(),
            SignatureAlgorithm::RsaSha384 => sha384_with_rsa_encryption(),
            SignatureAlgorithm::RsaSha512 => sha512_with_rsa_encryption(),
            SignatureAlgorithm::EcdsaSha256 => ecdsa_with_sha256(),
            SignatureAlgorithm::EcdsaSha384 => ecdsa_with_sha384(),
            SignatureAlgorithm::EcdsaSha512 => ecdsa_with_sha512(),
        }
    }

    /// The name of this algorithm, such as `RSA-SHA256`.
    pub fn name(&self) -> (r: &'static str)
        ensures
            r@ == match *self {
                SignatureAlgorithm::RsaSha256 => "RSA-SHA256"@,
                SignatureAlgorithm::RsaSha384 => "RSA-SHA384"@,
                SignatureAlgorithm::RsaSha512 => "RSA-SHA512"@,
                SignatureAlgorithm::EcdsaSha256 => "ECDSA-SHA256"@,
                SignatureAlgorithm::EcdsaSha384 => "ECDSA-SHA384"@,
                SignatureAlgorithm::EcdsaSha512 => "ECDSA-SHA512"@,
            },
    {
        match self {
            SignatureAlgorithm::RsaSha256 => "RSA-SHA256",
            SignatureAlgorithm::RsaSha384 => "RSA-SHA384",
            SignatureAlgorithm::RsaSha512 => "RSA-SHA512",
            SignatureAlgorithm::EcdsaSha256 => "ECDSA-SHA256",
            SignatureAlgorithm::EcdsaSha384 => "ECDSA-SHA384",
            SignatureAlgorithm::EcdsaSha512 => "ECDSA-SHA512",
        }
    }

    /// The `ring` algorithm for an RSA signature algorithm.
    pub fn ring_rsa_verification_algorithm(&self) -> (r: Result<RingAlgorithm, AlgorithmError>)
        ensures
            spec_is_rsa(*self) ==> r == Ok::<RingAlgorithm, AlgorithmError>(spec_ring_algorithm(*self, Seq::empty()).unwrap()),
            !spec_is_rsa(*self) ==> (r matches Err(e) && e@ == AlgorithmErrorView::NotRsaAlgorithm),
    {
        match self {
            SignatureAlgorithm::RsaSha256 => Ok(RingAlgorithm::RsaPkcs1Sha256),
            SignatureAlgorithm::RsaSha384 => Ok(RingAlgorithm::RsaPkcs1Sha384),
            SignatureAlgorithm::RsaSha512 => Ok(RingAlgorithm::RsaPkcs1Sha512),
            _ => Err(AlgorithmError::NotRsaAlgorithm),
        }
    }

    /// The `ring` algorithm for an ECDSA signature algorithm; ECDSA with
    /// SHA-512 is not supported by `ring`.
    pub fn ring_ecdsa_verification_algorithm(&self) -> (r: Result<RingAlgorithm, AlgorithmError>)
        ensures
            *self == SignatureAlgorithm::EcdsaSha256 ==> r == Ok::<RingAlgorithm, AlgorithmError>(RingAlgorithm::EcdsaP256Sha256),
            *self == SignatureAlgorithm::EcdsaSha384 ==> r == Ok::<RingAlgorithm, AlgorithmError>(RingAlgorithm::EcdsaP384Sha384),
            *self == SignatureAlgorithm::EcdsaSha512 ==> (r matches Err(e) && e@ == AlgorithmErrorView::UnsupportedByRing("ECDSA-SHA512"@)),
            spec_is_rsa(*self) ==> (r matches Err(e) && e@ == AlgorithmErrorView::NotEcdsaAlgorithm),
    {
        match self {
            SignatureAlgorithm::EcdsaSha256 => Ok(RingAlgorithm::EcdsaP256Sha256),
            SignatureAlgorithm::EcdsaSha384 => Ok(RingAlgorithm::EcdsaP384Sha384),
            SignatureAlgorithm::EcdsaSha512 => Err(AlgorithmError::UnsupportedByRing("ECDSA-SHA512".to_owned())),
            _ => Err(AlgorithmError::NotEcdsaAlgorithm),
        }
    }

    /// Whether this is an RSA algorithm.
    pub fn is_rsa(&self) -> (r: bool)
        ensures
            r == spec_is_rsa(*self),
    {
        match self {
            SignatureAlgorithm::RsaSha256 | SignatureAlgorithm::RsaSha384 | SignatureAlgorithm::RsaSha512 => true,
            _ => false,
        }
    }

    /// Whether this is an ECDSA algorithm.
    pub fn is_ecdsa(&self) -> (r: bool)
        ensures
            r == !spec_is_rsa(*self),
    {
        match self {
            SignatureAlgorithm::EcdsaSha256 | SignatureAlgorithm::EcdsaSha384 | SignatureAlgorithm::EcdsaSha512 => true,
            _ => false,
        }
    }

    /// Verifies `signature` over `message` with the public key
    /// `public_key` (as in SubjectPublicKeyInfo), using `ring`; for ECDSA,
    /// on the curve of the key (see `spec_ring_algorithm`).
    pub fn verify_signature(&self, message: &[u8], signature: &[u8], public_key: &[u8]) -> (r: Result<(), AlgorithmError>)
        ensures
            match spec_ring_algorithm(*self, public_key@) {
                Some(ra) => if spec_ring_verify(ra, public_key@, message@, signature@) {
                    r is Ok
                } else {
                    r matches Err(e) && e@ == AlgorithmErrorView::UnsupportedAlgorithm(
                        if spec_is_rsa(*self) { "RSA verification failed"@ } else { "ECDSA verification failed"@ },
                    )
                },
                None => r matches Err(e) && e@ == AlgorithmErrorView::UnsupportedByRing("ECDSA-SHA512"@),
            },
    {
        if self.is_rsa() {
            let params = match self.ring_rsa_verification_algorithm() {
                Ok(p) => p,
                Err(e) => return Err(e),
            };
            if ring_verify(params, public_key, message, signature) {
                Ok(())
            } else {
                Err(AlgorithmError::UnsupportedAlgorithm("RSA verification failed".to_owned()))
            }
        } else {
            let alg = match self.ring_ecdsa_verification_algorithm() {
                Ok(a) => a,
                Err(e) => return Err(e),
            };
            let alg = match alg {
                RingAlgorithm::EcdsaP256Sha256 => if public_key.len() == 97 {
                    RingAlgorithm::EcdsaP384Sha256
                } else {
                    RingAlgorithm::EcdsaP256Sha256
                },
                RingAlgorithm::EcdsaP384Sha384 => if public_key.len() == 65 {
                    RingAlgorithm::EcdsaP256Sha384
                } else {
                    RingAlgorithm::EcdsaP384Sha384
                },
                other => other,
            };
            if ring_verify(alg, public_key, message, signature) {
                Ok(())
            } else {
                Err(AlgorithmError::UnsupportedAlgorithm("ECDSA verification failed".to_owned()))
            }
        }
    }
}

impl AlgorithmIdentifier {
    /// The signature algorithm this identifier names.
    pub fn to_signature_algorithm(&self) -> (r: Result<SignatureAlgorithm, AlgorithmError>)
        ensures
            match spec_signature_algorithm_from_oid(self.algorithm@) {
                Some(a) => r == Ok::<SignatureAlgorithm, AlgorithmError>(a),
                None => r matches Err(e) && e@ == AlgorithmErrorView::UnsupportedAlgorithm(spec_oid_text(self.algorithm@)),
            },
    {
        SignatureAlgorithm::from_oid(&self.algorithm)
    }
}

// ---------------------------------------------------------------------------
// PublicKeyAlgorithm and EllipticCurve
// ---------------------------------------------------------------------------

/// The kinds of public keys.
#[derive(Debug, Clone, Copy, PartialEq, Eq, Structural)]
pub enum PublicKeyAlgorithm {
    /// An RSA key.
    Rsa,
    /// An elliptic curve key.
    EllipticCurve,
}

impl PublicKeyAlgorithm {
    /// The key algorithm with the given object identifier.
    pub fn from_oid(oid: &Oid) -> (r: Result<PublicKeyAlgorithm, AlgorithmError>)
        ensures
            oid@ == spec_rsa_encryption() ==> r == Ok::<PublicKeyAlgorithm, AlgorithmError>(PublicKeyAlgorithm::Rsa),
            oid@ == spec_ec_public_key() ==> r == Ok::<PublicKeyAlgorithm, AlgorithmError>(PublicKeyAlgorithm::EllipticCurve),
            oid@ != spec_rsa_encryption() && oid@ != spec_ec_public_key() ==> (r matches Err(e)
                && e@ == AlgorithmErrorView::UnsupportedAlgorithm(spec_oid_text(oid@))),
    {
        if oid.same(&rsa_encryption()) {
            Ok(PublicKeyAlgorithm::Rsa)
        } else if oid.same(&ec_public_key()) {
            Ok(PublicKeyAlgorithm::EllipticCurve)
        } else {
            Err(AlgorithmError::UnsupportedAlgorithm(oid.to_text()))
        }
    }

    /// The object identifier of this key algorithm.
    pub fn to_oid(&self) -> (r: Oid)
        ensures
            r@ == match *self {
                PublicKeyAlgorithm::Rsa => spec_rsa_encryption(),
                PublicKeyAlgorithm::EllipticCurve => spec_ec_public_key(),
            },
    {
        match self {
            PublicKeyAlgorithm::Rsa => rsa_encryption(),
            PublicKeyAlgorithm::EllipticCurve => ec_public_key(),
        }
    }
}

/// The elliptic curves supported.
#[derive(Debug, Clone, Copy, PartialEq, Eq, Structural)]
pub enum EllipticCurve {
    /// NIST P-256.
    P256,
    /// NIST P-384.
    P384,
    /// NIST P-521.
    P521,
}

/// The object identifier of a curve.
pub open spec fn spec_curve_oid(c: EllipticCurve) -> Seq<u8> {
    match c {
        EllipticCurve::P256 => spec_secp256r1(),
        EllipticCurve::P384 => spec_secp384r1(),
        EllipticCurve::P521 => spec_secp521r1(),
    }
}

impl EllipticCurve {
    /// The curve with the given object identifier.
    pub fn from_oid(oid: &Oid) -> (r: Result<EllipticCurve, AlgorithmError>)
        ensures
            oid@ == spec_secp256r1() ==> r == Ok::<EllipticCurve, AlgorithmError>(EllipticCurve::P256),
            oid@ == spec_secp384r1() ==> r == Ok::<EllipticCurve, AlgorithmError>(EllipticCurve::P384),
            oid@ == spec_secp521r1() ==> r == Ok::<EllipticCurve, AlgorithmError>(EllipticCurve::P521),
            oid@ != spec_secp256r1() && oid@ != spec_secp384r1() && oid@ != spec_secp521r1() ==> (r matches Err(e)
                && e@ == AlgorithmErrorView::UnsupportedCurve(spec_oid_text(oid@))),
    {
        if oid.same(&secp256r1()) {
            Ok(EllipticCurve::P256)
        } else if oid.same(&secp384r1()) {
            Ok(EllipticCurve::P384)
        } else if oid.same(&secp521r1()) {
            Ok(EllipticCurve::P521)
        } else {
            Err(AlgorithmError::UnsupportedCurve(oid.to_text()))
        }
    }

    /// The object identifier of this curve.
    pub fn to_oid(&self) -> (r: Oid)
        ensures
            r@ == spec_curve_oid(*self),
    {
        match self {
            EllipticCurve::P256 => secp256r1(),
            EllipticCurve::P384 => secp384r1(),
            EllipticCurve::P521 => secp521r1(),
        }
    }

    /// The name of this curve, such as `P-256`.
    pub fn name(&self) -> (r: &'static str)
        ensures
            r@ == match *self {
                EllipticCurve::P256 => "P-256"@,
                EllipticCurve::P384 => "P-384"@,
                EllipticCurve::P521 => "P-521"@,
            },
    {
        match self {
            EllipticCurve::P256 => "P-256",
            EllipticCurve::P384 => "P-384",
            EllipticCurve::P521 => "P-521",
        }
    }
}

/// Looking a signature algorithm up by its identifier gives it back.
pub proof fn lemma_signature_algorithm_oid_round_trip(a: SignatureAlgorithm)
    ensures
        spec_signature_algorithm_from_oid(spec_signature_algorithm_oid(a)) == Some(a),
{
    assert(spec_sha256_with_rsa_encryption() != spec_sha384_with_rsa_encryption()) by {
        assert(spec_sha256_with_rsa_encryption()[8] != spec_sha384_with_rsa_encryption()[8]);
    }
    assert(spec_sha256_with_rsa_encryption() != spec_sha512_with_rsa_encryption()) by {
        assert(spec_sha256_with_rsa_encryption()[8] != spec_sha512_with_rsa_encryption()[8]);
    }
    assert(spec_sha384_with_rsa_encryption() != spec_sha512_with_rsa_encryption()) by {
        assert(spec_sha384_with_rsa_encryption()[8] != spec_sha512_with_rsa_encryption()[8]);
    }
    assert(spec_sha256_with_rsa_encryption() != spec_ecdsa_with_sha256()) by {
        assert(spec_sha256_with_rsa_encryption().len() != spec_ecdsa_with_sha256().len());
    }
    assert(spec_sha384_with_rsa_encryption() != spec_ecdsa_with_sha256()) by {
        assert(spec_sha384_with_rsa_encryption().len() != spec_ecdsa_with_sha256().len());
    }
    assert(spec_sha512_with_rsa_encryption() != spec_ecdsa_with_sha256()) by {
        assert(spec_sha512_with_rsa_encryption().len() != spec_ecdsa_with_sha256().len());
    }
    assert(spec_sha256_with_rsa_encryption() != spec_ecdsa_with_sha384()) by {
        assert(spec_sha256_with_rsa_encryption().len() != spec_ecdsa_with_sha384().len());
    }
    assert(spec_sha384_with_rsa_encryption() != spec_ecdsa_with_sha384()) by {
        assert(spec_sha384_with_rsa_encryption().len() != spec_ecdsa_with_sha384().len());
    }
    assert(spec_sha512_with_rsa_encryption() != spec_ecdsa_with_sha384()) by {
        assert(spec_sha512_with_rsa_encryption().len() != spec_ecdsa_with_sha384().len());
    }
    assert(spec_sha256_with_rsa_encryption() != spec_ecdsa_with_sha512()) by {
        assert(spec_sha256_with_rsa_encryption().len() != spec_ecdsa_with_sha512().len());
    }
    assert(spec_sha384_with_rsa_encryption() != spec_ecdsa_with_sha512()) by {
        assert(spec_sha384_with_rsa_encryption().len() != spec_ecdsa_with_sha512().len());
    }
    assert(spec_sha512_with_rsa_encryption() != spec_ecdsa_with_sha512()) by {
        assert(spec_sha512_with_rsa_encryption().len() != spec_ecdsa_with_sha512().len());
    }
    assert(spec_ecdsa_with_sha256() != spec_ecdsa_with_sha384()) by {
        assert(spec_ecdsa_with_sha256()[7] != spec_ecdsa_with_sha384()[7]);
    }
    assert(spec_ecdsa_with_sha256() != spec_ecdsa_with_sha512()) by {
        assert(spec_ecdsa_with_sha256()[7] != spec_ecdsa_with_sha512()[7]);
    }
    assert(spec_ecdsa_with_sha384() != spec_ecdsa_with_sha512()) by {
        assert(spec_ecdsa_with_sha384()[7] != spec_ecdsa_with_sha512()[7]);
    }
}

} // verus!
