//! SPDM certificate validation (DSP0274, section 10.6.1): certificate
//! models and roles, the SPDM extended key usages, the hardware identity,
//! basic constraints per model, and the negotiated algorithms.
use vstd::prelude::*;
use crate::certificate::{spec_encode_spki, spec_find_ext, CertView, Certificate, Extension, ExtView};
use crate::crypto_backend::RingBackend;
use crate::der::{read_oid, spec_oid_at, MAX_LEN};
use crate::error::{text, Error, ErrorView, ExtensionError, ExtensionErrorView, Result};
use crate::extensions::{spec_parse_basic_constraints, spec_parse_extended_key_usage, BasicConstraints, ExtendedKeyUsage};
use crate::oid::{
    basic_constraints, extended_key_usage, hardware_identity, rsa_encryption, spdm_extension,
    spdm_requester_auth, spdm_responder_auth, spec_basic_constraints, spec_extended_key_usage,
    spec_hardware_identity, spec_oid_text, spec_rsa_encryption, spec_spdm_extension,
    spec_spdm_requester_auth, spec_spdm_responder_auth, Oid,
};
use crate::spdm::algorithm_verification::{
    spec_curve_negotiated, spec_rsa_negotiated,
    spec_signature_hash_negotiated, spec_verify_rsa_key_size, verify_ecc_curve, verify_rsa_key_size,
    verify_signature_algorithm, RsaEstimate,
};
use crate::validator::{spec_known_extensions, spec_outcome, spec_validate, Check, ValidationOptions, Validator};

verus! {

// ---------------------------------------------------------------------------
// Models and roles
// ---------------------------------------------------------------------------

/// The model of an SPDM certificate.
#[derive(Debug, Clone, Copy, PartialEq, Eq, Structural)]
pub enum SpdmCertificateModel {
    /// A device certificate: holds the hardware identity; not a CA.
    DeviceCert,
    /// An alias certificate: no hardware identity; not a CA.
    AliasCert,
    /// A generic certificate, CA or not.
    GenericCert,
}

/// The integer value of a certificate model.
pub open spec fn spec_model_value(m: SpdmCertificateModel) -> u8 {
    match m {
        SpdmCertificateModel::DeviceCert => 0,
        SpdmCertificateModel::AliasCert => 1,
        SpdmCertificateModel::GenericCert => 2,
    }
}

/// The name of a certificate model.
pub open spec fn spec_model_name(m: SpdmCertificateModel) -> Seq<char> {
    match m {
        SpdmCertificateModel::DeviceCert => "DeviceCert"@,
        SpdmCertificateModel::AliasCert => "AliasCert"@,
        SpdmCertificateModel::GenericCert => "GenericCert"@,
    }
}

impl SpdmCertificateModel {
    /// The model with the given integer value (0, 1 or 2).
    pub fn from_value(value: u8) -> (r: Result<SpdmCertificateModel>)
        ensures
            value == 0 ==> r == Ok::<SpdmCertificateModel, Error>(SpdmCertificateModel::DeviceCert),
            value == 1 ==> r == Ok::<SpdmCertificateModel, Error>(SpdmCertificateModel::AliasCert),
            value == 2 ==> r == Ok::<SpdmCertificateModel, Error>(SpdmCertificateModel::GenericCert),
            value > 2 ==> (r matches Err(e) && e@ == ErrorView::ValidationError(
                "Invalid SPDM certificate model: "@ + crate::text::spec_decimal(value as nat),
            )),
    {
        if value == 0 {
            Ok(SpdmCertificateModel::DeviceCert)
        } else if value == 1 {
            Ok(SpdmCertificateModel::AliasCert)
        } else if value == 2 {
            Ok(SpdmCertificateModel::GenericCert)
        } else {
            let m = text("Invalid SPDM certificate model: ").concat(crate::text::decimal(value as u64).as_str());
            Err(Error::ValidationError(m))
        }
    }

    /// The integer value of this model.
    pub fn value(&self) -> (r: u8)
        ensures
            r == spec_model_value(*self),
    {
        match self {
            SpdmCertificateModel::DeviceCert => 0,
            SpdmCertificateModel::AliasCert => 1,
            SpdmCertificateModel::GenericCert => 2,
        }
    }

    /// The name of this model.
    pub fn name(&self) -> (r: &'static str)
        ensures
            r@ == spec_model_name(*self),
    {
        match self {
            SpdmCertificateModel::DeviceCert => "DeviceCert",
            SpdmCertificateModel::AliasCert => "AliasCert",
            SpdmCertificateModel::GenericCert => "GenericCert",
        }
    }
}

/// The role of an SPDM certificate.
#[derive(Debug, Clone, Copy, PartialEq, Eq, Structural)]
pub enum SpdmCertificateRole {
    /// The Requester, which starts SPDM exchanges.
    Requester,
    /// The Responder, which answers them.
    Responder,
}

impl SpdmCertificateRole {
    /// The name of this role.
    pub fn name(&self) -> (r: &'static str)
        ensures
            r@ == match *self {
                SpdmCertificateRole::Requester => "Requester"@,
                SpdmCertificateRole::Responder => "Responder"@,
            },
    {
        match self {
            SpdmCertificateRole::Requester => "Requester",
            SpdmCertificateRole::Responder => "Responder",
        }
    }
}

// ---------------------------------------------------------------------------
// Checks
// ---------------------------------------------------------------------------

/// The first extension of a certificate whose identifier is `oid`.
pub open spec fn spec_find_in_cert(c: CertView, oid: Seq<u8>) -> Option<ExtView> {
    match c.tbs_certificate.extensions {
        None => None,
        Some(x) => match spec_find_ext(x, oid) {
            Some(i) => Some(x[i]),
            None => None,
        },
    }
}

/// Finds the first extension of a certificate whose identifier is `oid`.
fn find_extension<'a>(cert: &'a Certificate, oid: &Oid) -> (r: Option<&'a Extension>)
    ensures
        match spec_find_in_cert(cert@, oid@) {
            Some(x) => r is Some && r.unwrap()@ == x,
            None => r is None,
        },
{
    match &cert.tbs_certificate.extensions {
        Some(exts) => exts.find(oid),
        None => None,
    }
}

/// The SPDM extended key usage check: a Requester certificate must not
/// hold only the Responder authentication purpose, nor a Responder one
/// only the Requester purpose; no extended key usage passes.
pub open spec fn spec_eku_check(c: CertView, role: SpdmCertificateRole) -> Check {
    match spec_find_in_cert(c, spec_extended_key_usage()) {
        None => Check::Pass,
        Some(x) => match spec_parse_extended_key_usage(x.extn_value) {
            None => Check::Fail(ErrorView::ExtensionError(ExtensionErrorView::InvalidEncoding(
                "Failed to parse EKU: Asn1(Malformed)"@,
            ))),
            Some(ps) => {
                let req = ps.contains(spec_spdm_requester_auth());
                let rsp = ps.contains(spec_spdm_responder_auth());
                match role {
                    SpdmCertificateRole::Requester => if rsp && !req {
                        Check::Fail(ErrorView::ExtensionError(ExtensionErrorView::ExtendedKeyUsage(
                            "Requester certificate contains only Responder Auth EKU"@,
                        )))
                    } else {
                        Check::Pass
                    },
                    SpdmCertificateRole::Responder => if req && !rsp {
                        Check::Fail(ErrorView::ExtensionError(ExtensionErrorView::ExtendedKeyUsage(
                            "Responder certificate contains only Requester Auth EKU"@,
                        )))
                    } else {
                        Check::Pass
                    },
                }
            },
        },
    }
}

/// The SPDM authentication purpose of a role.
pub open spec fn spec_role_purpose(role: SpdmCertificateRole) -> Seq<u8> {
    match role {
        SpdmCertificateRole::Requester => spec_spdm_requester_auth(),
        SpdmCertificateRole::Responder => spec_spdm_responder_auth(),
    }
}

/// The other role.
pub open spec fn spec_other_role(role: SpdmCertificateRole) -> SpdmCertificateRole {
    match role {
        SpdmCertificateRole::Requester => SpdmCertificateRole::Responder,
        SpdmCertificateRole::Responder => SpdmCertificateRole::Requester,
    }
}

/// Law: for either role, a certificate whose extended key usage can be
/// read is refused exactly when that usage holds the other role's SPDM
/// purpose and not the role's own; so a certificate holding both purposes,
/// or neither, passes for both roles, and one without the extension
/// passes too.
pub proof fn lemma_eku_check_roles(c: CertView, role: SpdmCertificateRole)
    ensures
        spec_find_in_cert(c, spec_extended_key_usage()) is None ==> spec_eku_check(c, role) == Check::Pass,
        spec_find_in_cert(c, spec_extended_key_usage()) matches Some(x)
            ==> spec_parse_extended_key_usage(x.extn_value) matches Some(ps)
            ==> ((spec_eku_check(c, role) == Check::Pass) <==> (ps.contains(spec_role_purpose(role))
                || !ps.contains(spec_role_purpose(spec_other_role(role))))),
        spec_find_in_cert(c, spec_extended_key_usage()) matches Some(x)
            ==> spec_parse_extended_key_usage(x.extn_value) matches Some(ps)
            ==> ps.contains(spec_spdm_requester_auth()) && ps.contains(spec_spdm_responder_auth())
            ==> spec_eku_check(c, SpdmCertificateRole::Requester) == Check::Pass
                && spec_eku_check(c, SpdmCertificateRole::Responder) == Check::Pass,
{
    match spec_find_in_cert(c, spec_extended_key_usage()) {
        Some(x) => match spec_parse_extended_key_usage(x.extn_value) {
            Some(ps) => {
                let req = ps.contains(spec_spdm_requester_auth());
                let rsp = ps.contains(spec_spdm_responder_auth());
                match role {
                    SpdmCertificateRole::Requester => {
                        assert(spec_role_purpose(role) == spec_spdm_requester_auth());
                        assert(spec_role_purpose(spec_other_role(role)) == spec_spdm_responder_auth());
                        assert((spec_eku_check(c, role) == Check::Pass) <==> !(rsp && !req));
                    },
                    SpdmCertificateRole::Responder => {
                        assert(spec_role_purpose(role) == spec_spdm_responder_auth());
                        assert(spec_role_purpose(spec_other_role(role)) == spec_spdm_requester_auth());
                        assert((spec_eku_check(c, role) == Check::Pass) <==> !(req && !rsp));
                    },
                }
            },
            None => {},
        },
        None => {},
    }
}

/// Whether `needle` occurs as consecutive bytes in `hay`.
pub open spec fn spec_has_window(hay: Seq<u8>, needle: Seq<u8>) -> bool {
    exists|i: int| 0 <= i && i + needle.len() <= hay.len() && #[trigger] hay.subrange(i, i + needle.len()) == needle
}

/// The hardware identity check: a device certificate must have the SPDM
/// extension and the hardware identity identifier in it; an alias
/// certificate must not have that identifier there.
pub open spec fn spec_hardware_identity_check(c: CertView, model: SpdmCertificateModel) -> Check {
    match spec_find_in_cert(c, spec_spdm_extension()) {
        None => if model == SpdmCertificateModel::DeviceCert {
            Check::Fail(ErrorView::ExtensionError(ExtensionErrorView::MissingRequiredExtension(
                "DeviceCert requires SPDM extension with Hardware Identity"@,
            )))
        } else {
            Check::Pass
        },
        Some(x) => {
            let found = spec_has_window(x.extn_value, spec_hardware_identity());
            match model {
                SpdmCertificateModel::DeviceCert => if !found {
                    Check::Fail(ErrorView::ExtensionError(ExtensionErrorView::MissingRequiredExtension(
                        "DeviceCert MUST contain Hardware Identity OID"@,
                    )))
                } else {
                    Check::Pass
                },
                SpdmCertificateModel::AliasCert => if found {
                    Check::Fail(ErrorView::ExtensionError(ExtensionErrorView::InvalidValue(
                        "AliasCert MUST NOT contain Hardware Identity OID"@,
                    )))
                } else {
                    Check::Pass
                },
                SpdmCertificateModel::GenericCert => Check::Pass,
            }
        },
    }
}

/// The basic constraints check per model: device and alias certificates
/// must not be CAs.
pub open spec fn spec_basic_constraints_spdm_check(c: CertView, model: SpdmCertificateModel) -> Check {
    match spec_find_in_cert(c, spec_basic_constraints()) {
        None => Check::Pass,
        Some(x) => match spec_parse_basic_constraints(x.extn_value) {
            None => Check::Fail(ErrorView::ExtensionError(ExtensionErrorView::InvalidEncoding(
                "Failed to parse Basic Constraints: Asn1(Malformed)"@,
            ))),
            Some(bc) => if model != SpdmCertificateModel::GenericCert && bc.ca {
                Check::Fail(ErrorView::ExtensionError(ExtensionErrorView::BasicConstraints(
                    spec_model_name(model) + " MUST have cA=FALSE in Basic Constraints"@,
                )))
            } else {
                Check::Pass
            },
        },
    }
}

/// The OBJECT IDENTIFIER that DER bytes hold, when one TLV fills them.
pub open spec fn spec_oid_from_der(bytes: Seq<u8>) -> Option<Seq<u8>> {
    if bytes.len() > MAX_LEN {
        None
    } else {
        match spec_oid_at(bytes, 0, bytes.len() as int) {
            Some((o, n)) => if n == bytes.len() { Some(o) } else { None },
            None => None,
        }
    }
}

/// The check of a certificate's algorithms against the negotiated ones:
/// the hash of its signature algorithm; for an RSA key, its size; for
/// another key whose parameters content is a DER OBJECT IDENTIFIER, that
/// curve.
pub open spec fn spec_algorithms_check(c: CertView, base_asym_algo: u32, base_hash_algo: u32) -> Check {
    let sig = c.signature_algorithm.algorithm;
    let spki = c.tbs_certificate.subject_public_key_info;
    if !spec_signature_hash_negotiated(sig, base_hash_algo) {
        Check::Fail(ErrorView::AlgorithmError(
            "Signature hash algorithm not in negotiated algorithms: "@ + spec_oid_text(sig),
        ))
    } else if spki.algorithm.algorithm == spec_rsa_encryption() {
        match spec_encode_spki(spki) {
            None => Check::Fail(ErrorView::ValidationError("Failed to encode public key"@)),
            Some(d) => match spec_verify_rsa_key_size(d, base_asym_algo) {
                Ok(()) => Check::Pass,
                Err(e) => Check::Fail(e),
            },
        }
    } else {
        match spki.algorithm.parameters {
            None => Check::Pass,
            Some(p) => match spec_oid_from_der(p.value) {
                None => Check::Pass,
                Some(curve) => if spec_curve_negotiated(curve, base_asym_algo) {
                    Check::Pass
                } else {
                    Check::Fail(ErrorView::AlgorithmError(
                        "ECC curve not in negotiated algorithms: "@ + spec_oid_text(curve),
                    ))
                },
            },
        }
    }
}

/// All SPDM checks of a certificate, in order: the X.509 checks, the
/// extended key usage, the hardware identity, the basic constraints, and
/// the algorithms.
pub open spec fn spec_spdm_validate(
    known: Seq<Seq<u8>>,
    c: CertView,
    model: SpdmCertificateModel,
    role: SpdmCertificateRole,
    base_asym_algo: u32,
    base_hash_algo: u32,
    options: ValidationOptions,
    now: Option<u64>,
) -> Check {
    match spec_validate(known, c, options, now) {
        Check::Pass => match spec_eku_check(c, role) {
            Check::Pass => match spec_hardware_identity_check(c, model) {
                Check::Pass => match spec_basic_constraints_spdm_check(c, model) {
                    Check::Pass => spec_algorithms_check(c, base_asym_algo, base_hash_algo),
                    other => other,
                },
                other => other,
            },
            other => other,
        },
        other => other,
    }
}

/// Whether `needle` occurs as consecutive bytes in `hay`.
fn has_window(hay: &[u8], needle: &[u8]) -> (r: bool)
    requires
        needle.len() > 0,
    ensures
        r == spec_has_window(hay@, needle@),
{
    if hay.len() < needle.len() {
        return false;
    }
    let mut i: usize = 0;
    while i <= hay.len() - needle.len()
        invariant
            needle.len() > 0,
            needle.len() <= hay.len(),
            i <= hay.len() - needle.len() + 1,
            forall|k: int| 0 <= k < i ==> #[trigger] hay@.subrange(k, k + needle.len()) != needle@,
        decreases hay.len() - i,
    {
        let mut j: usize = 0;
        let mut same = true;
        while j < needle.len()
            invariant
                i + needle.len() <= hay.len(),
                j <= needle.len(),
                same <==> forall|m: int| 0 <= m < j ==> hay@[i + m] == needle@[m],
            decreases needle.len() - j,
        {
            if hay[i + j] != needle[j] {
                same = false;
            }
            j = j + 1;
        }
        if same {
            assert(hay@.subrange(i as int, i + needle.len()) =~= needle@);
            return true;
        }
        proof {
            if hay@.subrange(i as int, i + needle.len()) == needle@ {
                let m = choose|m: int| 0 <= m < needle.len() && hay@[i + m] != needle@[m];
                assert(hay@.subrange(i as int, i + needle.len())[m] == hay@[i + m]);
            }
        }
        i = i + 1;
    }
    proof {
        assert forall|k: int| 0 <= k && k + needle.len() <= hay.len() implies #[trigger] hay@.subrange(k, k + needle.len()) != needle@ by {
            assert(k < i);
        }
    }
    false
}

/// Reads an OBJECT IDENTIFIER from DER bytes it must fill (see
/// `spec_oid_from_der`).
fn oid_from_der(bytes: &[u8]) -> (r: Option<Oid>)
    ensures
        match r {
            Some(o) => spec_oid_from_der(bytes@) == Some(o@),
            None => spec_oid_from_der(bytes@) is None,
        },
{
    if bytes.len() > MAX_LEN {
        return None;
    }
    match read_oid(bytes, 0, bytes.len()) {
        Some((o, n)) => if n == bytes.len() { Some(o) } else { None },
        None => None,
    }
}

// ---------------------------------------------------------------------------
// SpdmValidator
// ---------------------------------------------------------------------------

/// The SPDM certificate validator.
pub struct SpdmValidator {
    validator: Validator<RingBackend>,
}

impl Default for SpdmValidator {
    fn default() -> (r: SpdmValidator)
        ensures
            r.known() == spec_known_extensions(),
    {
        SpdmValidator::new()
    }
}

impl SpdmValidator {
    /// The extensions the underlying X.509 validator knows.
    pub closed spec fn known(&self) -> Seq<Seq<u8>> {
        self.validator.known()
    }

    /// A validator with the `ring` backend.
    pub fn new() -> (r: SpdmValidator)
        ensures
            r.known() == spec_known_extensions(),
    {
        SpdmValidator { validator: Validator::new() }
    }

    /// Checks an SPDM certificate at the instant `now` (see
    /// `spec_spdm_validate`).
    pub fn validate_spdm_certificate_at(
        &self,
        cert: &Certificate,
        model: SpdmCertificateModel,
        role: SpdmCertificateRole,
        base_asym_algo: u32,
        base_hash_algo: u32,
        options: &ValidationOptions,
        now: Option<u64>,
    ) -> (r: Result<()>)
        ensures
            spec_outcome(r, spec_spdm_validate(self.known(), cert@, model, role, base_asym_algo, base_hash_algo, *options, now)),
    {
        match self.validator.validate_at(cert, options, now) {
            Ok(()) => {},
            Err(e) => return Err(e),
        }
        match self.validate_spdm_eku(cert, role) {
            Ok(()) => {},
            Err(e) => return Err(e),
        }
        match self.validate_spdm_extension(cert, model) {
            Ok(()) => {},
            Err(e) => return Err(e),
        }
        match self.validate_hardware_identity(cert, model) {
            Ok(()) => {},
            Err(e) => return Err(e),
        }
        match self.validate_basic_constraints_spdm(cert, model) {
            Ok(()) => {},
            Err(e) => return Err(e),
        }
        self.validate_algorithms(cert, base_asym_algo, base_hash_algo)
    }

    /// Checks an SPDM certificate with the given options (see
    /// `spec_spdm_validate`), reading the clock when the options ask for
    /// the validity period.
    pub fn validate_spdm_certificate_with_options(
        &self,
        cert: &Certificate,
        model: SpdmCertificateModel,
        role: SpdmCertificateRole,
        base_asym_algo: u32,
        base_hash_algo: u32,
        options: &ValidationOptions,
    ) -> (r: Result<()>)
        ensures
            !options.check_time ==> spec_outcome(
                r,
                spec_spdm_validate(self.known(), cert@, model, role, base_asym_algo, base_hash_algo, *options, None),
            ),
            exists|now: Option<u64>| spec_outcome(
                r,
                spec_spdm_validate(self.known(), cert@, model, role, base_asym_algo, base_hash_algo, *options, now),
            ),
    {
        let now = if options.check_time { crate::validator::current_unix_seconds() } else { None };
        self.validate_spdm_certificate_at(cert, model, role, base_asym_algo, base_hash_algo, options, now)
    }

    /// Checks an SPDM certificate with all checks on.
    pub fn validate_spdm_certificate(
        &self,
        cert: &Certificate,
        model: SpdmCertificateModel,
        role: SpdmCertificateRole,
        base_asym_algo: u32,
        base_hash_algo: u32,
    ) -> (r: Result<()>)
        ensures
            exists|now: Option<u64>| spec_outcome(
                r,
                spec_spdm_validate(
                    self.known(),
                    cert@,
                    model,
                    role,
                    base_asym_algo,
                    base_hash_algo,
                    ValidationOptions { check_time: true, check_signature: true, check_extensions: true, max_chain_depth: 10 },
                    now,
                ),
            ),
    {
        let options = ValidationOptions::default();
        self.validate_spdm_certificate_with_options(cert, model, role, base_asym_algo, base_hash_algo, &options)
    }

    /// Checks the SPDM extended key usages (see `spec_eku_check`).
    pub fn validate_spdm_eku(&self, cert: &Certificate, role: SpdmCertificateRole) -> (r: Result<()>)
        ensures
            spec_outcome(r, spec_eku_check(cert@, role)),
    {
        let eku_ext = match find_extension(cert, &extended_key_usage()) {
            Some(e) => e,
            None => return Ok(()),
        };
        let eku = match ExtendedKeyUsage::from_extension(eku_ext) {
            Ok(e) => e,
            Err(_) => {
                return Err(Error::ExtensionError(ExtensionError::InvalidEncoding(
                    text("Failed to parse EKU: Asn1(Malformed)"),
                )));
            },
        };
        let has_requester = eku.contains(&spdm_requester_auth());
        let has_responder = eku.contains(&spdm_responder_auth());
        match role {
            SpdmCertificateRole::Requester => {
                if has_responder && !has_requester {
                    return Err(Error::ExtensionError(ExtensionError::ExtendedKeyUsage(
                        text("Requester certificate contains only Responder Auth EKU"),
                    )));
                }
            },
            SpdmCertificateRole::Responder => {
                if has_requester && !has_responder {
                    return Err(Error::ExtensionError(ExtensionError::ExtendedKeyUsage(
                        text("Responder certificate contains only Requester Auth EKU"),
                    )));
                }
            },
        }
        Ok(())
    }

    /// Checks the SPDM extension: it is optional, and its content is not
    /// checked further, so this passes for every certificate.
    pub fn validate_spdm_extension(&self, cert: &Certificate, model: SpdmCertificateModel) -> (r: Result<()>)
        ensures
            r is Ok,
    {
        let _spdm_ext = find_extension(cert, &spdm_extension());
        Ok(())
    }

    /// Checks the hardware identity (see `spec_hardware_identity_check`).
    pub fn validate_hardware_identity(&self, cert: &Certificate, model: SpdmCertificateModel) -> (r: Result<()>)
        ensures
            spec_outcome(r, spec_hardware_identity_check(cert@, model)),
    {
        let spdm_ext = match find_extension(cert, &spdm_extension()) {
            Some(e) => e,
            None => {
                if model == SpdmCertificateModel::DeviceCert {
                    return Err(Error::ExtensionError(ExtensionError::MissingRequiredExtension(
                        text("DeviceCert requires SPDM extension with Hardware Identity"),
                    )));
                }
                return Ok(());
            },
        };
        let has_hw_identity = match self.check_hardware_identity_in_extension(spdm_ext.value()) {
            Ok(b) => b,
            Err(e) => return Err(e),
        };
        match model {
            SpdmCertificateModel::DeviceCert => {
                if !has_hw_identity {
                    return Err(Error::ExtensionError(ExtensionError::MissingRequiredExtension(
                        text("DeviceCert MUST contain Hardware Identity OID"),
                    )));
                }
            },
            SpdmCertificateModel::AliasCert => {
                if has_hw_identity {
                    return Err(Error::ExtensionError(ExtensionError::InvalidValue(
                        text("AliasCert MUST NOT contain Hardware Identity OID"),
                    )));
                }
            },
            SpdmCertificateModel::GenericCert => {},
        }
        Ok(())
    }

    /// Whether the hardware identity identifier occurs in the value of the
    /// SPDM extension (searched as consecutive bytes).
    fn check_hardware_identity_in_extension(&self, extn_value: &[u8]) -> (r: Result<bool>)
        ensures
            r == Ok::<bool, Error>(spec_has_window(extn_value@, spec_hardware_identity())),
    {
        let hw = hardware_identity();
        Ok(has_window(extn_value, hw.as_bytes()))
    }

    /// Checks the basic constraints per model (see
    /// `spec_basic_constraints_spdm_check`).
    pub fn validate_basic_constraints_spdm(&self, cert: &Certificate, model: SpdmCertificateModel) -> (r: Result<()>)
        ensures
            spec_outcome(r, spec_basic_constraints_spdm_check(cert@, model)),
    {
        let bc_ext = match find_extension(cert, &basic_constraints()) {
            Some(e) => e,
            None => return Ok(()),
        };
        let bc = match BasicConstraints::from_der(bc_ext.value()) {
            Ok(b) => b,
            Err(_) => {
                return Err(Error::ExtensionError(ExtensionError::InvalidEncoding(
                    text("Failed to parse Basic Constraints: Asn1(Malformed)"),
                )));
            },
        };
        match model {
            SpdmCertificateModel::DeviceCert | SpdmCertificateModel::AliasCert => {
                if bc.ca {
                    let m = text(model.name()).concat(" MUST have cA=FALSE in Basic Constraints");
                    return Err(Error::ExtensionError(ExtensionError::BasicConstraints(m)));
                }
            },
            SpdmCertificateModel::GenericCert => {},
        }
        Ok(())
    }

    /// Checks the certificate's algorithms against the negotiated ones
    /// (see `spec_algorithms_check`).
    fn validate_algorithms(&self, cert: &Certificate, base_asym_algo: u32, base_hash_algo: u32) -> (r: Result<()>)
        ensures
            spec_outcome(r, spec_algorithms_check(cert@, base_asym_algo, base_hash_algo)),
    {
        match verify_signature_algorithm(&cert.signature_algorithm.algorithm, base_asym_algo, base_hash_algo) {
            Ok(()) => {},
            Err(e) => return Err(e),
        }
        let spki = &cert.tbs_certificate.subject_public_key_info;
        if spki.algorithm.algorithm.same(&rsa_encryption()) {
            let pk_der = match spki.encode() {
                Some(d) => d,
                None => return Err(Error::ValidationError(text("Failed to encode public key"))),
            };
            let r = verify_rsa_key_size(pk_der.as_slice(), base_asym_algo);
            proof {
                match crate::error::spec_res(r) {
                    Ok(()) => {},
                    Err(e) => {},
                }
            }
            r
        } else {
            match &spki.algorithm.parameters {
                Some(params) => {
                    match oid_from_der(params.value.as_slice()) {
                        Some(curve_oid) => verify_ecc_curve(&curve_oid, base_asym_algo),
                        None => Ok(()),
                    }
                },
                None => Ok(()),
            }
        }
    }
}

} // verus!
