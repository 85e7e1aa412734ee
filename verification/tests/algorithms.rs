use const_oid::ObjectIdentifier;
use spdm_x509::algorithms::{AlgorithmError, EllipticCurve, PublicKeyAlgorithm, SignatureAlgorithm};
use spdm_x509::certificate::AlgorithmIdentifier;
use spdm_x509::crypto_backend::{self, CryptoBackend, RingBackend};
use spdm_x509::error::Error;
use spdm_x509::oid::{
    ec_public_key, ecdsa_with_sha256, ecdsa_with_sha384, ecdsa_with_sha512, rsa_encryption, rsassa_pss,
    secp256r1, secp384r1, secp521r1, sha256_with_rsa_encryption, sha384_with_rsa_encryption,
    sha512_with_rsa_encryption, Oid,
};

fn oid(text: &str) -> Oid {
    Oid::from_bytes(ObjectIdentifier::new_unwrap(text).as_bytes())
}

#[test]
fn test_signature_algorithm_from_oid() {
    assert_eq!(
        SignatureAlgorithm::from_oid(&sha256_with_rsa_encryption()).unwrap(),
        SignatureAlgorithm::RsaSha256
    );
    assert_eq!(
        SignatureAlgorithm::from_oid(&ecdsa_with_sha256()).unwrap(),
        SignatureAlgorithm::EcdsaSha256
    );
}

#[test]
fn test_signature_algorithm_to_oid() {
    assert_eq!(SignatureAlgorithm::RsaSha256.to_oid(), sha256_with_rsa_encryption());
    assert_eq!(SignatureAlgorithm::EcdsaSha384.to_oid(), ecdsa_with_sha384());
}

#[test]
fn test_signature_algorithm_name() {
    assert_eq!(SignatureAlgorithm::RsaSha256.name(), "RSA-SHA256");
    assert_eq!(SignatureAlgorithm::EcdsaSha512.name(), "ECDSA-SHA512");
}

#[test]
fn test_public_key_algorithm_from_oid() {
    assert_eq!(PublicKeyAlgorithm::from_oid(&rsa_encryption()).unwrap(), PublicKeyAlgorithm::Rsa);
    assert_eq!(
        PublicKeyAlgorithm::from_oid(&ec_public_key()).unwrap(),
        PublicKeyAlgorithm::EllipticCurve
    );
}

#[test]
fn test_elliptic_curve_from_oid() {
    assert_eq!(EllipticCurve::from_oid(&secp256r1()).unwrap(), EllipticCurve::P256);
    assert_eq!(EllipticCurve::from_oid(&secp384r1()).unwrap(), EllipticCurve::P384);
}

#[test]
fn test_algorithm_identifier_creation() {
    let alg_id = AlgorithmIdentifier::new(sha256_with_rsa_encryption());
    assert_eq!(alg_id.algorithm, sha256_with_rsa_encryption());
    assert!(alg_id.parameters.is_none());
}

#[test]
fn test_algorithm_identifier_to_signature_algorithm() {
    let alg_id = AlgorithmIdentifier::new(ecdsa_with_sha384());
    assert_eq!(alg_id.to_signature_algorithm().unwrap(), SignatureAlgorithm::EcdsaSha384);
}

#[test]
fn algorithms_test_is_rsa() {
    assert!(SignatureAlgorithm::RsaSha256.is_rsa());
    assert!(!SignatureAlgorithm::EcdsaSha256.is_rsa());
}

#[test]
fn test_is_ecdsa() {
    assert!(SignatureAlgorithm::EcdsaSha384.is_ecdsa());
    assert!(!SignatureAlgorithm::RsaSha384.is_ecdsa());
}

#[test]
fn signature_algorithm_oid_round_trip() {
    let all = [
        SignatureAlgorithm::RsaSha256,
        SignatureAlgorithm::RsaSha384,
        SignatureAlgorithm::RsaSha512,
        SignatureAlgorithm::EcdsaSha256,
        SignatureAlgorithm::EcdsaSha384,
        SignatureAlgorithm::EcdsaSha512,
    ];
    for a in all {
        assert_eq!(SignatureAlgorithm::from_oid(&a.to_oid()).unwrap(), a);
        assert!(a.is_rsa() != a.is_ecdsa());
    }
}

#[test]
fn signature_algorithm_unknown_oid_is_refused() {
    let r = SignatureAlgorithm::from_oid(&oid("1.2.3.4.5"));
    assert_eq!(r, Err(AlgorithmError::UnsupportedAlgorithm("1.2.3.4.5".to_string())));
    assert_eq!(
        AlgorithmError::UnsupportedAlgorithm("1.2.3.4.5".to_string()).to_text(),
        "Unsupported algorithm: 1.2.3.4.5"
    );
}

#[test]
fn curve_and_key_algorithm_edges() {
    assert_eq!(EllipticCurve::from_oid(&secp521r1()).unwrap(), EllipticCurve::P521);
    assert_eq!(EllipticCurve::P384.to_oid(), secp384r1());
    assert_eq!(EllipticCurve::P256.name(), "P-256");
    assert_eq!(
        EllipticCurve::from_oid(&rsa_encryption()),
        Err(AlgorithmError::UnsupportedCurve("1.2.840.113549.1.1.1".to_string()))
    );
    assert_eq!(PublicKeyAlgorithm::Rsa.to_oid(), rsa_encryption());
    assert!(PublicKeyAlgorithm::from_oid(&secp256r1()).is_err());
}

#[test]
fn ring_algorithm_choice() {
    assert!(SignatureAlgorithm::RsaSha384.ring_rsa_verification_algorithm().is_ok());
    assert!(SignatureAlgorithm::EcdsaSha256.ring_rsa_verification_algorithm().is_err());
    assert!(SignatureAlgorithm::EcdsaSha256.ring_ecdsa_verification_algorithm().is_ok());
    assert!(SignatureAlgorithm::EcdsaSha512.ring_ecdsa_verification_algorithm().is_err());
}

#[test]
fn backend_algorithm_from_oid_with_curve() {
    assert_eq!(crypto_backend::SignatureAlgorithm::from_oid_with_curve(&ecdsa_with_sha256(), None).unwrap(), crypto_backend::SignatureAlgorithm::EcdsaP256Sha256);
    assert_eq!(
        crypto_backend::SignatureAlgorithm::from_oid_with_curve(&ecdsa_with_sha256(), Some(&secp384r1())).unwrap(),
        crypto_backend::SignatureAlgorithm::EcdsaP384Sha256
    );
    assert_eq!(
        crypto_backend::SignatureAlgorithm::from_oid_with_curve(&ecdsa_with_sha384(), Some(&secp384r1())).unwrap(),
        crypto_backend::SignatureAlgorithm::EcdsaP384Sha384
    );
    assert_eq!(crypto_backend::SignatureAlgorithm::from_oid(&sha512_with_rsa_encryption()).unwrap(), crypto_backend::SignatureAlgorithm::RsaPkcs1Sha512);
    assert_eq!(crypto_backend::SignatureAlgorithm::from_oid(&sha384_with_rsa_encryption()).unwrap(), crypto_backend::SignatureAlgorithm::RsaPkcs1Sha384);
    assert_eq!(crypto_backend::SignatureAlgorithm::from_oid(&rsassa_pss()).unwrap(), crypto_backend::SignatureAlgorithm::RsaPssSha256);
    match crypto_backend::SignatureAlgorithm::from_oid(&ecdsa_with_sha512()) {
        Err(Error::AlgorithmError(e)) => assert_eq!(
            e,
            spdm_x509::error::AlgorithmError::Unsupported("OID: 1.2.840.10045.4.3.4".to_string())
        ),
        other => panic!("unexpected {:?}", other),
    }
}

#[test]
fn ring_backend_refuses_garbage() {
    let backend = RingBackend;
    let r = backend.verify_signature(crypto_backend::SignatureAlgorithm::EcdsaP256Sha256, b"msg", &[0u8; 8], &[4u8; 65]);
    assert_eq!(r, Err(Error::signature_failed()));
}
