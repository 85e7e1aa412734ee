//! Object identifiers, held as the content octets of their DER encoding.
use vstd::prelude::*;
use crate::bytes::{bytes_equal, copy_bytes};

verus! {

/// An ASN.1 OBJECT IDENTIFIER, held as the content octets of its DER
/// encoding (the bytes after tag and length). Two identifiers are the same
/// exactly when these octets are the same.
#[derive(Debug, Clone, PartialEq, Eq)]
pub struct Oid {
    pub bytes: Vec<u8>,
}

impl View for Oid {
    type V = Seq<u8>;

    open spec fn view(&self) -> Seq<u8> {
        self.bytes@
    }
}

impl Oid {
    /// Builds an identifier from its DER content octets.
    pub fn from_bytes(bytes: &[u8]) -> (r: Oid)
        ensures
            r@ == bytes@,
    {
        Oid { bytes: copy_bytes(bytes) }
    }

    /// The DER content octets of this identifier.
    pub fn as_bytes(&self) -> (r: &[u8])
        ensures
            r@ == self@,
    {
        self.bytes.as_slice()
    }

    /// A copy of this identifier.
    pub fn copy(&self) -> (r: Oid)
        ensures
            r@ == self@,
    {
        Oid { bytes: copy_bytes(self.bytes.as_slice()) }
    }

    /// Whether two identifiers are the same.
    pub fn same(&self, other: &Oid) -> (r: bool)
        ensures
            r == (self@ == other@),
    {
        bytes_equal(self.bytes.as_slice(), other.bytes.as_slice())
    }
}

} // verus!

verus! {

// Signature algorithms

/// sha256WithRSAEncryption, 1.2.840.113549.1.1.11.
pub open spec fn spec_sha256_with_rsa_encryption() -> Seq<u8> {
    seq![0x2Au8, 0x86, 0x48, 0x86, 0xF7, 0x0D, 0x01, 0x01, 0x0B]
}

/// sha256WithRSAEncryption, 1.2.840.113549.1.1.11.
pub fn sha256_with_rsa_encryption() -> (r: Oid)
    ensures
        r@ == spec_sha256_with_rsa_encryption(),
{
    let r = Oid { bytes: vec![0x2Au8, 0x86, 0x48, 0x86, 0xF7, 0x0D, 0x01, 0x01, 0x0B] };
    proof {
        assert(r@ =~= spec_sha256_with_rsa_encryption());
    }
    r
}

/// sha384WithRSAEncryption, 1.2.840.113549.1.1.12.
pub open spec fn spec_sha384_with_rsa_encryption() -> Seq<u8> {
    seq![0x2Au8, 0x86, 0x48, 0x86, 0xF7, 0x0D, 0x01, 0x01, 0x0C]
}

/// sha384WithRSAEncryption, 1.2.840.113549.1.1.12.
pub fn sha384_with_rsa_encryption() -> (r: Oid)
    ensures
        r@ == spec_sha384_with_rsa_encryption(),
{
    let r = Oid { bytes: vec![0x2Au8, 0x86, 0x48, 0x86, 0xF7, 0x0D, 0x01, 0x01, 0x0C] };
    proof {
        assert(r@ =~= spec_sha384_with_rsa_encryption());
    }
    r
}

/// sha512WithRSAEncryption, 1.2.840.113549.1.1.13.
pub open spec fn spec_sha512_with_rsa_encryption() -> Seq<u8> {
    seq![0x2Au8, 0x86, 0x48, 0x86, 0xF7, 0x0D, 0x01, 0x01, 0x0D]
}

/// sha512WithRSAEncryption, 1.2.840.113549.1.1.13.
pub fn sha512_with_rsa_encryption() -> (r: Oid)
    ensures
        r@ == spec_sha512_with_rsa_encryption(),
{
    let r = Oid { bytes: vec![0x2Au8, 0x86, 0x48, 0x86, 0xF7, 0x0D, 0x01, 0x01, 0x0D] };
    proof {
        assert(r@ =~= spec_sha512_with_rsa_encryption());
    }
    r
}

/// id-RSASSA-PSS, 1.2.840.113549.1.1.10.
pub open spec fn spec_rsassa_pss() -> Seq<u8> {
    seq![0x2Au8, 0x86, 0x48, 0x86, 0xF7, 0x0D, 0x01, 0x01, 0x0A]
}

/// id-RSASSA-PSS, 1.2.840.113549.1.1.10.
pub fn rsassa_pss() -> (r: Oid)
    ensures
        r@ == spec_rsassa_pss(),
{
    let r = Oid { bytes: vec![0x2Au8, 0x86, 0x48, 0x86, 0xF7, 0x0D, 0x01, 0x01, 0x0A] };
    proof {
        assert(r@ =~= spec_rsassa_pss());
    }
    r
}

/// ecdsa-with-SHA256, 1.2.840.10045.4.3.2.
pub open spec fn spec_ecdsa_with_sha256() -> Seq<u8> {
    seq![0x2Au8, 0x86, 0x48, 0xCE, 0x3D, 0x04, 0x03, 0x02]
}

/// ecdsa-with-SHA256, 1.2.840.10045.4.3.2.
pub fn ecdsa_with_sha256() -> (r: Oid)
    ensures
        r@ == spec_ecdsa_with_sha256(),
{
    let r = Oid { bytes: vec![0x2Au8, 0x86, 0x48, 0xCE, 0x3D, 0x04, 0x03, 0x02] };
    proof {
        assert(r@ =~= spec_ecdsa_with_sha256());
    }
    r
}

/// ecdsa-with-SHA384, 1.2.840.10045.4.3.3.
pub open spec fn spec_ecdsa_with_sha384() -> Seq<u8> {
    seq![0x2Au8, 0x86, 0x48, 0xCE, 0x3D, 0x04, 0x03, 0x03]
}

/// ecdsa-with-SHA384, 1.2.840.10045.4.3.3.
pub fn ecdsa_with_sha384() -> (r: Oid)
    ensures
        r@ == spec_ecdsa_with_sha384(),
{
    let r = Oid { bytes: vec![0x2Au8, 0x86, 0x48, 0xCE, 0x3D, 0x04, 0x03, 0x03] };
    proof {
        assert(r@ =~= spec_ecdsa_with_sha384());
    }
    r
}

/// ecdsa-with-SHA512, 1.2.840.10045.4.3.4.
pub open spec fn spec_ecdsa_with_sha512() -> Seq<u8> {
    seq![0x2Au8, 0x86, 0x48, 0xCE, 0x3D, 0x04, 0x03, 0x04]
}

/// ecdsa-with-SHA512, 1.2.840.10045.4.3.4.
pub fn ecdsa_with_sha512() -> (r: Oid)
    ensures
        r@ == spec_ecdsa_with_sha512(),
{
    let r = Oid { bytes: vec![0x2Au8, 0x86, 0x48, 0xCE, 0x3D, 0x04, 0x03, 0x04] };
    proof {
        assert(r@ =~= spec_ecdsa_with_sha512());
    }
    r
}

// Public key algorithms

/// rsaEncryption, 1.2.840.113549.1.1.1.
pub open spec fn spec_rsa_encryption() -> Seq<u8> {
    seq![0x2Au8, 0x86, 0x48, 0x86, 0xF7, 0x0D, 0x01, 0x01, 0x01]
}

/// rsaEncryption, 1.2.840.113549.1.1.1.
pub fn rsa_encryption() -> (r: Oid)
    ensures
        r@ == spec_rsa_encryption(),
{
    let r = Oid { bytes: vec![0x2Au8, 0x86, 0x48, 0x86, 0xF7, 0x0D, 0x01, 0x01, 0x01] };
    proof {
        assert(r@ =~= spec_rsa_encryption());
    }
    r
}

/// id-ecPublicKey, 1.2.840.10045.2.1.
pub open spec fn spec_ec_public_key() -> Seq<u8> {
    seq![0x2Au8, 0x86, 0x48, 0xCE, 0x3D, 0x02, 0x01]
}

/// id-ecPublicKey, 1.2.840.10045.2.1.
pub fn ec_public_key() -> (r: Oid)
    ensures
        r@ == spec_ec_public_key(),
{
    let r = Oid { bytes: vec![0x2Au8, 0x86, 0x48, 0xCE, 0x3D, 0x02, 0x01] };
    proof {
        assert(r@ =~= spec_ec_public_key());
    }
    r
}

// Hash algorithms

/// id-sha256, 2.16.840.1.101.3.4.2.1.
pub open spec fn spec_id_sha256() -> Seq<u8> {
    seq![0x60u8, 0x86, 0x48, 0x01, 0x65, 0x03, 0x04, 0x02, 0x01]
}

/// id-sha256, 2.16.840.1.101.3.4.2.1.
pub fn id_sha256() -> (r: Oid)
    ensures
        r@ == spec_id_sha256(),
{
    let r = Oid { bytes: vec![0x60u8, 0x86, 0x48, 0x01, 0x65, 0x03, 0x04, 0x02, 0x01] };
    proof {
        assert(r@ =~= spec_id_sha256());
    }
    r
}

/// id-sha384, 2.16.840.1.101.3.4.2.2.
pub open spec fn spec_id_sha384() -> Seq<u8> {
    seq![0x60u8, 0x86, 0x48, 0x01, 0x65, 0x03, 0x04, 0x02, 0x02]
}

/// id-sha384, 2.16.840.1.101.3.4.2.2.
pub fn id_sha384() -> (r: Oid)
    ensures
        r@ == spec_id_sha384(),
{
    let r = Oid { bytes: vec![0x60u8, 0x86, 0x48, 0x01, 0x65, 0x03, 0x04, 0x02, 0x02] };
    proof {
        assert(r@ =~= spec_id_sha384());
    }
    r
}

/// id-sha512, 2.16.840.1.101.3.4.2.3.
pub open spec fn spec_id_sha512() -> Seq<u8> {
    seq![0x60u8, 0x86, 0x48, 0x01, 0x65, 0x03, 0x04, 0x02, 0x03]
}

/// id-sha512, 2.16.840.1.101.3.4.2.3.
pub fn id_sha512() -> (r: Oid)
    ensures
        r@ == spec_id_sha512(),
{
    let r = Oid { bytes: vec![0x60u8, 0x86, 0x48, 0x01, 0x65, 0x03, 0x04, 0x02, 0x03] };
    proof {
        assert(r@ =~= spec_id_sha512());
    }
    r
}

/// id-sha3-256, 2.16.840.1.101.3.4.2.8.
pub open spec fn spec_id_sha3_256() -> Seq<u8> {
    seq![0x60u8, 0x86, 0x48, 0x01, 0x65, 0x03, 0x04, 0x02, 0x08]
}

/// id-sha3-256, 2.16.840.1.101.3.4.2.8.
pub fn id_sha3_256() -> (r: Oid)
    ensures
        r@ == spec_id_sha3_256(),
{
    let r = Oid { bytes: vec![0x60u8, 0x86, 0x48, 0x01, 0x65, 0x03, 0x04, 0x02, 0x08] };
    proof {
        assert(r@ =~= spec_id_sha3_256());
    }
    r
}

/// id-sha3-384, 2.16.840.1.101.3.4.2.9.
pub open spec fn spec_id_sha3_384() -> Seq<u8> {
    seq![0x60u8, 0x86, 0x48, 0x01, 0x65, 0x03, 0x04, 0x02, 0x09]
}

/// id-sha3-384, 2.16.840.1.101.3.4.2.9.
pub fn id_sha3_384() -> (r: Oid)
    ensures
        r@ == spec_id_sha3_384(),
{
    let r = Oid { bytes: vec![0x60u8, 0x86, 0x48, 0x01, 0x65, 0x03, 0x04, 0x02, 0x09] };
    proof {
        assert(r@ =~= spec_id_sha3_384());
    }
    r
}

/// id-sha3-512, 2.16.840.1.101.3.4.2.10.
pub open spec fn spec_id_sha3_512() -> Seq<u8> {
    seq![0x60u8, 0x86, 0x48, 0x01, 0x65, 0x03, 0x04, 0x02, 0x0A]
}

/// id-sha3-512, 2.16.840.1.101.3.4.2.10.
pub fn id_sha3_512() -> (r: Oid)
    ensures
        r@ == spec_id_sha3_512(),
{
    let r = Oid { bytes: vec![0x60u8, 0x86, 0x48, 0x01, 0x65, 0x03, 0x04, 0x02, 0x0A] };
    proof {
        assert(r@ =~= spec_id_sha3_512());
    }
    r
}

/// SM3-256, 1.2.156.10197.1.401.
pub open spec fn spec_id_sm3_256() -> Seq<u8> {
    seq![0x2Au8, 0x81, 0x1C, 0xCF, 0x55, 0x01, 0x83, 0x11]
}

/// SM3-256, 1.2.156.10197.1.401.
pub fn id_sm3_256() -> (r: Oid)
    ensures
        r@ == spec_id_sm3_256(),
{
    let r = Oid { bytes: vec![0x2Au8, 0x81, 0x1C, 0xCF, 0x55, 0x01, 0x83, 0x11] };
    proof {
        assert(r@ =~= spec_id_sm3_256());
    }
    r
}

// Elliptic curves

/// The signature algorithm identifiers differ from one another: the
/// RSA ones are nine octets long and the ECDSA ones eight, and each
/// differs from the others of its kind in its last octet.
pub proof fn lemma_signature_oids_distinct()
    ensures
        spec_sha256_with_rsa_encryption().len() == 9 && spec_sha256_with_rsa_encryption()[8] == 0x0B,
        spec_sha384_with_rsa_encryption().len() == 9 && spec_sha384_with_rsa_encryption()[8] == 0x0C,
        spec_sha512_with_rsa_encryption().len() == 9 && spec_sha512_with_rsa_encryption()[8] == 0x0D,
        spec_rsassa_pss().len() == 9 && spec_rsassa_pss()[8] == 0x0A,
        spec_ecdsa_with_sha256().len() == 8 && spec_ecdsa_with_sha256()[7] == 0x02,
        spec_ecdsa_with_sha384().len() == 8 && spec_ecdsa_with_sha384()[7] == 0x03,
        spec_ecdsa_with_sha512().len() == 8 && spec_ecdsa_with_sha512()[7] == 0x04,
{
}

/// secp256r1 (P-256), 1.2.840.10045.3.1.7.
pub open spec fn spec_secp256r1() -> Seq<u8> {
    seq![0x2Au8, 0x86, 0x48, 0xCE, 0x3D, 0x03, 0x01, 0x07]
}

/// secp256r1 (P-256), 1.2.840.10045.3.1.7.
pub fn secp256r1() -> (r: Oid)
    ensures
        r@ == spec_secp256r1(),
{
    let r = Oid { bytes: vec![0x2Au8, 0x86, 0x48, 0xCE, 0x3D, 0x03, 0x01, 0x07] };
    proof {
        assert(r@ =~= spec_secp256r1());
    }
    r
}

/// secp384r1 (P-384), 1.3.132.0.34.
pub open spec fn spec_secp384r1() -> Seq<u8> {
    seq![0x2Bu8, 0x81, 0x04, 0x00, 0x22]
}

/// secp384r1 (P-384), 1.3.132.0.34.
pub fn secp384r1() -> (r: Oid)
    ensures
        r@ == spec_secp384r1(),
{
    let r = Oid { bytes: vec![0x2Bu8, 0x81, 0x04, 0x00, 0x22] };
    proof {
        assert(r@ =~= spec_secp384r1());
    }
    r
}

/// secp521r1 (P-521), 1.3.132.0.35.
pub open spec fn spec_secp521r1() -> Seq<u8> {
    seq![0x2Bu8, 0x81, 0x04, 0x00, 0x23]
}

/// secp521r1 (P-521), 1.3.132.0.35.
pub fn secp521r1() -> (r: Oid)
    ensures
        r@ == spec_secp521r1(),
{
    let r = Oid { bytes: vec![0x2Bu8, 0x81, 0x04, 0x00, 0x23] };
    proof {
        assert(r@ =~= spec_secp521r1());
    }
    r
}

// Certificate extensions

/// Basic Constraints, 2.5.29.19.
pub open spec fn spec_basic_constraints() -> Seq<u8> {
    seq![0x55u8, 0x1D, 0x13]
}

/// Basic Constraints, 2.5.29.19.
pub fn basic_constraints() -> (r: Oid)
    ensures
        r@ == spec_basic_constraints(),
{
    let r = Oid { bytes: vec![0x55u8, 0x1D, 0x13] };
    proof {
        assert(r@ =~= spec_basic_constraints());
    }
    r
}

/// Key Usage, 2.5.29.15.
pub open spec fn spec_key_usage() -> Seq<u8> {
    seq![0x55u8, 0x1D, 0x0F]
}

/// Key Usage, 2.5.29.15.
pub fn key_usage() -> (r: Oid)
    ensures
        r@ == spec_key_usage(),
{
    let r = Oid { bytes: vec![0x55u8, 0x1D, 0x0F] };
    proof {
        assert(r@ =~= spec_key_usage());
    }
    r
}

/// Extended Key Usage, 2.5.29.37.
pub open spec fn spec_extended_key_usage() -> Seq<u8> {
    seq![0x55u8, 0x1D, 0x25]
}

/// Extended Key Usage, 2.5.29.37.
pub fn extended_key_usage() -> (r: Oid)
    ensures
        r@ == spec_extended_key_usage(),
{
    let r = Oid { bytes: vec![0x55u8, 0x1D, 0x25] };
    proof {
        assert(r@ =~= spec_extended_key_usage());
    }
    r
}

/// Subject Alternative Name, 2.5.29.17.
pub open spec fn spec_subject_alt_name() -> Seq<u8> {
    seq![0x55u8, 0x1D, 0x11]
}

/// Subject Alternative Name, 2.5.29.17.
pub fn subject_alt_name() -> (r: Oid)
    ensures
        r@ == spec_subject_alt_name(),
{
    let r = Oid { bytes: vec![0x55u8, 0x1D, 0x11] };
    proof {
        assert(r@ =~= spec_subject_alt_name());
    }
    r
}

/// Authority Key Identifier, 2.5.29.35.
pub open spec fn spec_authority_key_identifier() -> Seq<u8> {
    seq![0x55u8, 0x1D, 0x23]
}

/// Authority Key Identifier, 2.5.29.35.
pub fn authority_key_identifier() -> (r: Oid)
    ensures
        r@ == spec_authority_key_identifier(),
{
    let r = Oid { bytes: vec![0x55u8, 0x1D, 0x23] };
    proof {
        assert(r@ =~= spec_authority_key_identifier());
    }
    r
}

/// Subject Key Identifier, 2.5.29.14.
pub open spec fn spec_subject_key_identifier() -> Seq<u8> {
    seq![0x55u8, 0x1D, 0x0E]
}

/// Subject Key Identifier, 2.5.29.14.
pub fn subject_key_identifier() -> (r: Oid)
    ensures
        r@ == spec_subject_key_identifier(),
{
    let r = Oid { bytes: vec![0x55u8, 0x1D, 0x0E] };
    proof {
        assert(r@ =~= spec_subject_key_identifier());
    }
    r
}

/// TCG platform certificate, 2.23.133.8.2.
pub open spec fn spec_tcg_platform_certificate() -> Seq<u8> {
    seq![0x67u8, 0x81, 0x05, 0x08, 0x02]
}

/// TCG platform certificate, 2.23.133.8.2.
pub fn tcg_platform_certificate() -> (r: Oid)
    ensures
        r@ == spec_tcg_platform_certificate(),
{
    let r = Oid { bytes: vec![0x67u8, 0x81, 0x05, 0x08, 0x02] };
    proof {
        assert(r@ =~= spec_tcg_platform_certificate());
    }
    r
}

// SPDM (id-DMTF-spdm arc 1.3.6.1.4.1.412.274)

/// SPDM Requester authentication key purpose, 1.3.6.1.4.1.412.274.1.
pub open spec fn spec_spdm_requester_auth() -> Seq<u8> {
    seq![0x2Bu8, 0x06, 0x01, 0x04, 0x01, 0x83, 0x1C, 0x82, 0x12, 0x01]
}

/// SPDM Requester authentication key purpose, 1.3.6.1.4.1.412.274.1.
pub fn spdm_requester_auth() -> (r: Oid)
    ensures
        r@ == spec_spdm_requester_auth(),
{
    let r = Oid { bytes: vec![0x2Bu8, 0x06, 0x01, 0x04, 0x01, 0x83, 0x1C, 0x82, 0x12, 0x01] };
    proof {
        assert(r@ =~= spec_spdm_requester_auth());
    }
    r
}

/// SPDM certificate extension, 1.3.6.1.4.1.412.274.2.
pub open spec fn spec_spdm_extension() -> Seq<u8> {
    seq![0x2Bu8, 0x06, 0x01, 0x04, 0x01, 0x83, 0x1C, 0x82, 0x12, 0x02]
}

/// SPDM certificate extension, 1.3.6.1.4.1.412.274.2.
pub fn spdm_extension() -> (r: Oid)
    ensures
        r@ == spec_spdm_extension(),
{
    let r = Oid { bytes: vec![0x2Bu8, 0x06, 0x01, 0x04, 0x01, 0x83, 0x1C, 0x82, 0x12, 0x02] };
    proof {
        assert(r@ =~= spec_spdm_extension());
    }
    r
}

/// SPDM Responder authentication key purpose, 1.3.6.1.4.1.412.274.3.
pub open spec fn spec_spdm_responder_auth() -> Seq<u8> {
    seq![0x2Bu8, 0x06, 0x01, 0x04, 0x01, 0x83, 0x1C, 0x82, 0x12, 0x03]
}

/// SPDM Responder authentication key purpose, 1.3.6.1.4.1.412.274.3.
pub fn spdm_responder_auth() -> (r: Oid)
    ensures
        r@ == spec_spdm_responder_auth(),
{
    let r = Oid { bytes: vec![0x2Bu8, 0x06, 0x01, 0x04, 0x01, 0x83, 0x1C, 0x82, 0x12, 0x03] };
    proof {
        assert(r@ =~= spec_spdm_responder_auth());
    }
    r
}

/// SPDM hardware identity, 1.3.6.1.4.1.412.274.4.
pub open spec fn spec_hardware_identity() -> Seq<u8> {
    seq![0x2Bu8, 0x06, 0x01, 0x04, 0x01, 0x83, 0x1C, 0x82, 0x12, 0x04]
}

/// SPDM hardware identity, 1.3.6.1.4.1.412.274.4.
pub fn hardware_identity() -> (r: Oid)
    ensures
        r@ == spec_hardware_identity(),
{
    let r = Oid { bytes: vec![0x2Bu8, 0x06, 0x01, 0x04, 0x01, 0x83, 0x1C, 0x82, 0x12, 0x04] };
    proof {
        assert(r@ =~= spec_hardware_identity());
    }
    r
}

// Name attribute types

/// Common Name (CN), 2.5.4.3.
pub open spec fn spec_common_name() -> Seq<u8> {
    seq![0x55u8, 0x04, 0x03]
}

/// Common Name (CN), 2.5.4.3.
pub fn common_name() -> (r: Oid)
    ensures
        r@ == spec_common_name(),
{
    let r = Oid { bytes: vec![0x55u8, 0x04, 0x03] };
    proof {
        assert(r@ =~= spec_common_name());
    }
    r
}

/// Surname (SN), 2.5.4.4.
pub open spec fn spec_surname() -> Seq<u8> {
    seq![0x55u8, 0x04, 0x04]
}

/// Surname (SN), 2.5.4.4.
pub fn surname() -> (r: Oid)
    ensures
        r@ == spec_surname(),
{
    let r = Oid { bytes: vec![0x55u8, 0x04, 0x04] };
    proof {
        assert(r@ =~= spec_surname());
    }
    r
}

/// Serial Number, 2.5.4.5.
pub open spec fn spec_serial_number() -> Seq<u8> {
    seq![0x55u8, 0x04, 0x05]
}

/// Serial Number, 2.5.4.5.
pub fn serial_number() -> (r: Oid)
    ensures
        r@ == spec_serial_number(),
{
    let r = Oid { bytes: vec![0x55u8, 0x04, 0x05] };
    proof {
        assert(r@ =~= spec_serial_number());
    }
    r
}

/// Country (C), 2.5.4.6.
pub open spec fn spec_country_name() -> Seq<u8> {
    seq![0x55u8, 0x04, 0x06]
}

/// Country (C), 2.5.4.6.
pub fn country_name() -> (r: Oid)
    ensures
        r@ == spec_country_name(),
{
    let r = Oid { bytes: vec![0x55u8, 0x04, 0x06] };
    proof {
        assert(r@ =~= spec_country_name());
    }
    r
}

/// Locality (L), 2.5.4.7.
pub open spec fn spec_locality_name() -> Seq<u8> {
    seq![0x55u8, 0x04, 0x07]
}

/// Locality (L), 2.5.4.7.
pub fn locality_name() -> (r: Oid)
    ensures
        r@ == spec_locality_name(),
{
    let r = Oid { bytes: vec![0x55u8, 0x04, 0x07] };
    proof {
        assert(r@ =~= spec_locality_name());
    }
    r
}

/// State or Province (ST), 2.5.4.8.
pub open spec fn spec_state_or_province_name() -> Seq<u8> {
    seq![0x55u8, 0x04, 0x08]
}

/// State or Province (ST), 2.5.4.8.
pub fn state_or_province_name() -> (r: Oid)
    ensures
        r@ == spec_state_or_province_name(),
{
    let r = Oid { bytes: vec![0x55u8, 0x04, 0x08] };
    proof {
        assert(r@ =~= spec_state_or_province_name());
    }
    r
}

/// Street Address, 2.5.4.9.
pub open spec fn spec_street_address() -> Seq<u8> {
    seq![0x55u8, 0x04, 0x09]
}

/// Street Address, 2.5.4.9.
pub fn street_address() -> (r: Oid)
    ensures
        r@ == spec_street_address(),
{
    let r = Oid { bytes: vec![0x55u8, 0x04, 0x09] };
    proof {
        assert(r@ =~= spec_street_address());
    }
    r
}

/// Organization (O), 2.5.4.10.
pub open spec fn spec_organization_name() -> Seq<u8> {
    seq![0x55u8, 0x04, 0x0A]
}

/// Organization (O), 2.5.4.10.
pub fn organization_name() -> (r: Oid)
    ensures
        r@ == spec_organization_name(),
{
    let r = Oid { bytes: vec![0x55u8, 0x04, 0x0A] };
    proof {
        assert(r@ =~= spec_organization_name());
    }
    r
}

/// Organizational Unit (OU), 2.5.4.11.
pub open spec fn spec_organizational_unit_name() -> Seq<u8> {
    seq![0x55u8, 0x04, 0x0B]
}

/// Organizational Unit (OU), 2.5.4.11.
pub fn organizational_unit_name() -> (r: Oid)
    ensures
        r@ == spec_organizational_unit_name(),
{
    let r = Oid { bytes: vec![0x55u8, 0x04, 0x0B] };
    proof {
        assert(r@ =~= spec_organizational_unit_name());
    }
    r
}

/// Title, 2.5.4.12.
pub open spec fn spec_title() -> Seq<u8> {
    seq![0x55u8, 0x04, 0x0C]
}

/// Title, 2.5.4.12.
pub fn title() -> (r: Oid)
    ensures
        r@ == spec_title(),
{
    let r = Oid { bytes: vec![0x55u8, 0x04, 0x0C] };
    proof {
        assert(r@ =~= spec_title());
    }
    r
}

/// Given Name, 2.5.4.42.
pub open spec fn spec_given_name() -> Seq<u8> {
    seq![0x55u8, 0x04, 0x2A]
}

/// Given Name, 2.5.4.42.
pub fn given_name() -> (r: Oid)
    ensures
        r@ == spec_given_name(),
{
    let r = Oid { bytes: vec![0x55u8, 0x04, 0x2A] };
    proof {
        assert(r@ =~= spec_given_name());
    }
    r
}

/// Domain Component (DC), 0.9.2342.19200300.100.1.25.
pub open spec fn spec_domain_component() -> Seq<u8> {
    seq![0x09u8, 0x92, 0x26, 0x89, 0x93, 0xF2, 0x2C, 0x64, 0x01, 0x19]
}

/// Domain Component (DC), 0.9.2342.19200300.100.1.25.
pub fn domain_component() -> (r: Oid)
    ensures
        r@ == spec_domain_component(),
{
    let r = Oid { bytes: vec![0x09u8, 0x92, 0x26, 0x89, 0x93, 0xF2, 0x2C, 0x64, 0x01, 0x19] };
    proof {
        assert(r@ =~= spec_domain_component());
    }
    r
}

/// Email Address, 1.2.840.113549.1.9.1.
pub open spec fn spec_email_address() -> Seq<u8> {
    seq![0x2Au8, 0x86, 0x48, 0x86, 0xF7, 0x0D, 0x01, 0x09, 0x01]
}

/// Email Address, 1.2.840.113549.1.9.1.
pub fn email_address() -> (r: Oid)
    ensures
        r@ == spec_email_address(),
{
    let r = Oid { bytes: vec![0x2Au8, 0x86, 0x48, 0x86, 0xF7, 0x0D, 0x01, 0x09, 0x01] };
    proof {
        assert(r@ =~= spec_email_address());
    }
    r
}

} // verus!

verus! {

/// What `const_oid` renders for DER content octets: the dotted decimal text
/// of the identifier (`Some`), or `None` when the octets are not a valid
/// identifier.
pub uninterp spec fn spec_oid_dotted(bytes: Seq<u8>) -> Option<Seq<char>>;

/// Renders DER content octets as dotted decimal text with
/// `const_oid::ObjectIdentifier::from_bytes` and its `Display`; the result
/// is `spec_oid_dotted` of the octets.
#[verifier::external_body]
fn dotted_text(bytes: &[u8]) -> (r: Option<String>)
    ensures
        r matches Some(s) ==> spec_oid_dotted(bytes@) == Some(s@),
        r is None ==> spec_oid_dotted(bytes@) is None,
{
    match const_oid::ObjectIdentifier::from_bytes(bytes) {
        Ok(o) => Some(o.to_string()),
        Err(_) => None,
    }
}

/// The text shown for an identifier: its dotted decimal form, or
/// `<invalid OID>` when its octets are not a valid identifier.
pub open spec fn spec_oid_text(bytes: Seq<u8>) -> Seq<char> {
    match spec_oid_dotted(bytes) {
        Some(s) => s,
        None => "<invalid OID>"@,
    }
}

impl Oid {
    /// The dotted decimal text of this identifier (for instance
    /// `2.5.29.19`), or `<invalid OID>` when its octets are not a valid
    /// identifier.
    pub fn to_text(&self) -> (r: String)
        ensures
            r@ == spec_oid_text(self@),
    {
        match dotted_text(self.bytes.as_slice()) {
            Some(s) => s,
            None => {
                proof {
                    reveal_strlit("<invalid OID>");
                }
                "<invalid OID>".to_owned()
            },
        }
    }
}

} // verus!
