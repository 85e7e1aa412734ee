//! Certificate validation: validity periods, critical extensions, and
//! chains from a leaf to its root (issuer names, signatures, CA flags and
//! path length constraints).
use vstd::prelude::*;
use crate::certificate::{spec_encode_tbs, spec_find_ext, CertView, Certificate, ExtView};
use crate::crypto_backend::{spec_from_oid_with_curve, spec_unsupported_oid_error, CryptoBackend, RingBackend, SignatureAlgorithm};
use crate::der::{spec_oid_valid, AnyView};
use crate::error::{Asn1Error, ChainError, Error, ErrorView, ExtensionError, ExtensionErrorView, Result, TimeError};
use crate::extensions::{spec_parse_basic_constraints, BasicConstraints};
use crate::oid::{
    authority_key_identifier, basic_constraints, extended_key_usage, hardware_identity, key_usage,
    spdm_extension, spec_authority_key_identifier, spec_basic_constraints, spec_extended_key_usage,
    spec_hardware_identity, spec_key_usage, spec_oid_text, spec_spdm_extension,
    spec_subject_alt_name, spec_subject_key_identifier, spec_tcg_platform_certificate,
    subject_alt_name, subject_key_identifier, tcg_platform_certificate, Oid,
};

verus! {

// ---------------------------------------------------------------------------
// Validation options
// ---------------------------------------------------------------------------

/// What validation checks.
#[derive(Debug, Clone, Copy, PartialEq, Eq, Structural)]
pub struct ValidationOptions {
    /// Whether to check the validity period.
    pub check_time: bool,
    /// Whether to verify signatures.
    pub check_signature: bool,
    /// Whether to check extensions.
    pub check_extensions: bool,
    /// The greatest number of certificates in a chain.
    pub max_chain_depth: usize,
}

impl Default for ValidationOptions {
    fn default() -> (r: ValidationOptions)
        ensures
            r == (ValidationOptions { check_time: true, check_signature: true, check_extensions: true, max_chain_depth: 10 }),
    {
        ValidationOptions { check_time: true, check_signature: true, check_extensions: true, max_chain_depth: 10 }
    }
}

impl ValidationOptions {
    /// All checks on, chains of at most 10 certificates.
    pub fn new() -> (r: ValidationOptions)
        ensures
            r == (ValidationOptions { check_time: true, check_signature: true, check_extensions: true, max_chain_depth: 10 }),
    {
        ValidationOptions::default()
    }

    /// These options without the validity period check.
    pub fn skip_time_validation(self) -> (r: ValidationOptions)
        ensures
            r == (ValidationOptions { check_time: false, ..self }),
    {
        ValidationOptions { check_time: false, ..self }
    }

    /// These options without signature verification.
    pub fn skip_signature_validation(self) -> (r: ValidationOptions)
        ensures
            r == (ValidationOptions { check_signature: false, ..self }),
    {
        ValidationOptions { check_signature: false, ..self }
    }

    /// These options with another greatest chain length.
    pub fn with_max_chain_depth(self, depth: usize) -> (r: ValidationOptions)
        ensures
            r == (ValidationOptions { max_chain_depth: depth, ..self }),
    {
        ValidationOptions { max_chain_depth: depth, ..self }
    }
}

// ---------------------------------------------------------------------------
// Outcomes
// ---------------------------------------------------------------------------

/// The outcome of a check: it passes, it fails with a known error, or the
/// cryptographic backend refuses a signature (with an error of its own).
pub enum Check {
    Pass,
    Fail(ErrorView),
    Refused,
}

/// Whether a result is the outcome of a check.
pub open spec fn spec_outcome(r: Result<()>, c: Check) -> bool {
    match c {
        Check::Pass => r is Ok,
        Check::Fail(e) => r matches Err(x) && x@ == e,
        Check::Refused => r is Err,
    }
}

/// The latest instant, in seconds since the Unix epoch, that a date can
/// hold (the end of the year 9999).
pub const LATEST_SECONDS: u64 = 253_402_300_799;

/// The check of a certificate's validity period at the instant `now` (in
/// seconds since the Unix epoch; `None` when the clock could not be read).
pub open spec fn spec_time_check(c: CertView, now: Option<u64>) -> Check {
    match now {
        None => Check::Fail(ErrorView::TimeError(TimeError::InvalidTime)),
        Some(t) => if t > LATEST_SECONDS {
            Check::Fail(ErrorView::TimeError(TimeError::InvalidTime))
        } else if t < c.tbs_certificate.validity.not_before.unix_seconds {
            Check::Fail(ErrorView::TimeError(TimeError::NotYetValid))
        } else if t > c.tbs_certificate.validity.not_after.unix_seconds {
            Check::Fail(ErrorView::TimeError(TimeError::Expired))
        } else {
            Check::Pass
        },
    }
}

/// The extensions that validation knows: a critical extension outside this
/// list is refused.
pub open spec fn spec_known_extensions() -> Seq<Seq<u8>> {
    seq![
        spec_basic_constraints(),
        spec_key_usage(),
        spec_extended_key_usage(),
        spec_subject_alt_name(),
        spec_authority_key_identifier(),
        spec_subject_key_identifier(),
        spec_tcg_platform_certificate(),
        spec_hardware_identity(),
        spec_spdm_extension(),
    ]
}

/// The check that the first basic constraints extension, if any, can be
/// read.
pub open spec fn spec_basic_constraints_check(x: Seq<ExtView>) -> Check {
    match spec_find_ext(x, spec_basic_constraints()) {
        None => Check::Pass,
        Some(j) => if spec_parse_basic_constraints(x[j].extn_value) is Some {
            Check::Pass
        } else {
            Check::Fail(ErrorView::Asn1(Asn1Error::Malformed))
        },
    }
}

/// The check of the extensions from position `i` on: a critical extension
/// must be known, and a critical basic constraints extension requires
/// that the first basic constraints extension can be read.
pub open spec fn spec_extensions_from(known: Seq<Seq<u8>>, x: Seq<ExtView>, i: int) -> Check
    decreases x.len() - i,
{
    if i < 0 || i >= x.len() {
        Check::Pass
    } else if x[i].critical && !known.contains(x[i].extn_id) {
        Check::Fail(ErrorView::ExtensionError(ExtensionErrorView::UnknownCriticalExtension(spec_oid_text(x[i].extn_id))))
    } else if x[i].critical && x[i].extn_id == spec_basic_constraints() {
        match spec_basic_constraints_check(x) {
            Check::Pass => spec_extensions_from(known, x, i + 1),
            other => other,
        }
    } else {
        spec_extensions_from(known, x, i + 1)
    }
}

/// The check of a certificate's extensions.
pub open spec fn spec_extensions_check(known: Seq<Seq<u8>>, c: CertView) -> Check {
    match c.tbs_certificate.extensions {
        None => Check::Pass,
        Some(x) => spec_extensions_from(known, x, 0),
    }
}

/// The checks of one certificate on its own.
pub open spec fn spec_validate(known: Seq<Seq<u8>>, c: CertView, options: ValidationOptions, now: Option<u64>) -> Check {
    let t = if options.check_time { spec_time_check(c, now) } else { Check::Pass };
    match t {
        Check::Pass => if options.check_extensions { spec_extensions_check(known, c) } else { Check::Pass },
        other => other,
    }
}

/// The curve of an issuer's key: its algorithm parameters, when they are
/// an OBJECT IDENTIFIER.
pub open spec fn spec_key_curve(issuer: CertView) -> Option<Seq<u8>> {
    match issuer.tbs_certificate.subject_public_key_info.algorithm.parameters {
        Some(p) => if p.tag == 0x06 && spec_oid_valid(p.value) { Some(p.value) } else { None },
        None => None,
    }
}

/// The check of a certificate's signature with its issuer's key.
pub open spec fn spec_signature_check<B: CryptoBackend>(backend: B, c: CertView, issuer: CertView) -> Check {
    match spec_from_oid_with_curve(c.signature_algorithm.algorithm, spec_key_curve(issuer)) {
        None => Check::Fail(spec_unsupported_oid_error(c.signature_algorithm.algorithm)),
        Some(alg) => match spec_encode_tbs(c.tbs_certificate) {
            None => Check::Fail(ErrorView::Asn1(Asn1Error::Malformed)),
            Some(tbs) => match backend.spec_verify(
                alg,
                tbs,
                c.signature_value.bytes,
                issuer.tbs_certificate.subject_public_key_info.subject_public_key.bytes,
            ) {
                Ok(()) => Check::Pass,
                Err(e) => Check::Fail(e),
            },
        },
    }
}

/// The check that an issuer, `depth` certificates above the leaf, is a CA
/// whose path length constraint allows that depth.
pub open spec fn spec_issuer_is_ca(issuer: CertView, depth: int) -> Check {
    match issuer.tbs_certificate.extensions {
        None => Check::Fail(ErrorView::ChainError(ChainError::IssuerNotCA)),
        Some(x) => match spec_find_ext(x, spec_basic_constraints()) {
            None => Check::Fail(ErrorView::ChainError(ChainError::IssuerNotCA)),
            Some(j) => match spec_parse_basic_constraints(x[j].extn_value) {
                None => Check::Fail(ErrorView::Asn1(Asn1Error::Malformed)),
                Some(bc) => if !bc.ca {
                    Check::Fail(ErrorView::ChainError(ChainError::IssuerNotCA))
                } else {
                    match bc.path_len_constraint {
                        Some(pl) => if depth > pl {
                            Check::Fail(ErrorView::ChainError(ChainError::PathLengthExceeded))
                        } else {
                            Check::Pass
                        },
                        None => Check::Pass,
                    }
                },
            },
        },
    }
}

/// The path length check of the basic constraints extensions of one
/// certificate, from position `j` on, when `remaining` intermediate
/// certificates stand between it and the leaf.
pub open spec fn spec_path_len_exts(x: Seq<ExtView>, j: int, remaining: int) -> Check
    decreases x.len() - j,
{
    if j < 0 || j >= x.len() {
        Check::Pass
    } else if x[j].extn_id == spec_basic_constraints() {
        match spec_parse_basic_constraints(x[j].extn_value) {
            None => Check::Fail(ErrorView::Asn1(Asn1Error::Malformed)),
            Some(bc) => match bc.path_len_constraint {
                Some(pl) => if remaining > pl {
                    Check::Fail(ErrorView::ChainError(ChainError::PathLengthExceeded))
                } else {
                    spec_path_len_exts(x, j + 1, remaining)
                },
                None => spec_path_len_exts(x, j + 1, remaining),
            },
        }
    } else {
        spec_path_len_exts(x, j + 1, remaining)
    }
}

/// The path length check of the certificates from position `i` on: the
/// certificate at position `i` has `i - 1` intermediate certificates below
/// it, between it and the leaf (the leaf, at position 0, is not checked).
pub open spec fn spec_path_len_from(certs: Seq<CertView>, i: int) -> Check
    decreases certs.len() - i,
{
    if i < 1 || i >= certs.len() {
        Check::Pass
    } else {
        let t = match certs[i].tbs_certificate.extensions {
            None => Check::Pass,
            Some(x) => spec_path_len_exts(x, 0, i - 1),
        };
        match t {
            Check::Pass => spec_path_len_from(certs, i + 1),
            other => other,
        }
    }
}

/// The checks of a chain from position `i` on: each certificate on its
/// own, then, but for the last, that its issuer is the next certificate's
/// subject, its signature with the next certificate's key and that the
/// next certificate is a CA; the last certificate's signature with its own
/// key; and at the end the path length constraints.
pub open spec fn spec_chain_from<B: CryptoBackend>(
    known: Seq<Seq<u8>>,
    backend: B,
    certs: Seq<CertView>,
    options: ValidationOptions,
    now: Option<u64>,
    i: int,
) -> Check
    decreases certs.len() - i,
{
    if i < 0 || i >= certs.len() {
        spec_path_len_from(certs, 1)
    } else {
        let c = certs[i];
        match spec_validate(known, c, options, now) {
            Check::Pass => if i + 1 < certs.len() {
                let issuer = certs[i + 1];
                if c.tbs_certificate.issuer != issuer.tbs_certificate.subject {
                    Check::Fail(ErrorView::ChainError(ChainError::IssuerMismatch))
                } else {
                    let s = if options.check_signature { spec_signature_check(backend, c, issuer) } else { Check::Pass };
                    match s {
                        Check::Pass => match spec_issuer_is_ca(issuer, i) {
                            Check::Pass => spec_chain_from(known, backend, certs, options, now, i + 1),
                            other => other,
                        },
                        other => other,
                    }
                }
            } else {
                let s = if options.check_signature { spec_signature_check(backend, c, c) } else { Check::Pass };
                match s {
                    Check::Pass => spec_chain_from(known, backend, certs, options, now, i + 1),
                    other => other,
                }
            },
            other => other,
        }
    }
}

/// The checks of a chain, ordered from leaf to root.
pub open spec fn spec_validate_chain<B: CryptoBackend>(
    known: Seq<Seq<u8>>,
    backend: B,
    certs: Seq<CertView>,
    options: ValidationOptions,
    now: Option<u64>,
) -> Check {
    if certs.len() == 0 {
        Check::Fail(ErrorView::ChainError(ChainError::EmptyChain))
    } else if certs.len() > options.max_chain_depth {
        Check::Fail(ErrorView::ChainError(ChainError::ChainTooLong))
    } else {
        spec_chain_from(known, backend, certs, options, now, 0)
    }
}

/// What passing the chain checks from position `i` on gives at each
/// position from `i` on.
proof fn lemma_chain_from_pass<B: CryptoBackend>(
    known: Seq<Seq<u8>>,
    backend: B,
    certs: Seq<CertView>,
    options: ValidationOptions,
    now: Option<u64>,
    i: int,
)
    requires
        0 <= i,
        spec_chain_from(known, backend, certs, options, now, i) == Check::Pass,
    ensures
        forall|j: int| i <= j < certs.len() ==> spec_validate(known, #[trigger] certs[j], options, now) == Check::Pass,
        forall|j: int| #![trigger spec_issuer_is_ca(certs[j + 1], j)] i <= j < certs.len() - 1 ==> {
            &&& certs[j].tbs_certificate.issuer == certs[j + 1].tbs_certificate.subject
            &&& spec_issuer_is_ca(certs[j + 1], j) == Check::Pass
            &&& (options.check_signature ==> spec_signature_check(backend, certs[j], certs[j + 1]) == Check::Pass)
        },
        spec_path_len_from(certs, 1) == Check::Pass,
    decreases certs.len() - i,
{
    if i < certs.len() {
        let c = certs[i];
        let v = spec_validate(known, c, options, now);
        assert(v == Check::Pass);
        if i + 1 < certs.len() {
            let issuer = certs[i + 1];
            assert(c.tbs_certificate.issuer == issuer.tbs_certificate.subject);
            let sg = if options.check_signature { spec_signature_check(backend, c, issuer) } else { Check::Pass };
            assert(sg == Check::Pass);
            assert(spec_issuer_is_ca(issuer, i) == Check::Pass);
        }
        assert(spec_chain_from(known, backend, certs, options, now, i + 1) == Check::Pass);
        lemma_chain_from_pass(known, backend, certs, options, now, i + 1);
    }
}

/// A chain that passes the checks has from one certificate to as many as
/// the options allow; each certificate passes the checks on its own; each
/// but the root is issued by the next one, whose key verifies its signature
/// (when signatures are checked) and which is a CA whose path length
/// constraint, if any, allows the intermediate certificates below it; and
/// the path length constraints of the whole chain hold.
pub proof fn lemma_passing_chain<B: CryptoBackend>(
    known: Seq<Seq<u8>>,
    backend: B,
    certs: Seq<CertView>,
    options: ValidationOptions,
    now: Option<u64>,
)
    requires
        spec_validate_chain(known, backend, certs, options, now) == Check::Pass,
    ensures
        1 <= certs.len() <= options.max_chain_depth,
        forall|j: int| 0 <= j < certs.len() ==> spec_validate(known, #[trigger] certs[j], options, now) == Check::Pass,
        forall|j: int| #![trigger spec_issuer_is_ca(certs[j + 1], j)] 0 <= j < certs.len() - 1 ==> {
            &&& certs[j].tbs_certificate.issuer == certs[j + 1].tbs_certificate.subject
            &&& spec_issuer_is_ca(certs[j + 1], j) == Check::Pass
            &&& (options.check_signature ==> spec_signature_check(backend, certs[j], certs[j + 1]) == Check::Pass)
        },
        spec_path_len_from(certs, 1) == Check::Pass,
{
    lemma_chain_from_pass(known, backend, certs, options, now, 0);
}

/// Reads the system clock: whole seconds since the Unix epoch, or `None`
/// when the clock is before it. What comes back depends on the time of the
/// call; nothing is stated of it.
#[verifier::external_body]
pub(crate) fn current_unix_seconds() -> (r: Option<u64>) {
    match std::time::SystemTime::now().duration_since(std::time::UNIX_EPOCH) {
        Ok(d) => Some(d.as_secs()),
        Err(_) => None,
    }
}

// ---------------------------------------------------------------------------
// Validator
// ---------------------------------------------------------------------------

/// A certificate validator with a cryptographic backend.
pub struct Validator<B: CryptoBackend> {
    backend: B,
    known_extensions: Vec<Oid>,
}

impl Validator<RingBackend> {
    /// A validator with the `ring` backend.
    pub fn new() -> (r: Validator<RingBackend>)
        ensures
            r.known() == spec_known_extensions(),
            r.backend() == RingBackend,
    {
        Validator::with_backend(RingBackend)
    }
}

impl Default for Validator<RingBackend> {
    fn default() -> (r: Validator<RingBackend>)
        ensures
            r.known() == spec_known_extensions(),
            r.backend() == RingBackend,
    {
        Validator::new()
    }
}

impl<B: CryptoBackend> Validator<B> {
    /// The extensions this validator knows.
    pub closed spec fn known(&self) -> Seq<Seq<u8>> {
        self.known_extensions@.map_values(|o: Oid| o@)
    }

    /// The backend of this validator.
    pub closed spec fn backend(&self) -> B {
        self.backend
    }

    /// A validator with the given backend, knowing basic constraints, key
    /// usage, extended key usage, subject alternative name, authority and
    /// subject key identifiers, the TCG platform certificate, hardware
    /// identity and the SPDM extension.
    pub fn with_backend(backend: B) -> (r: Validator<B>)
        ensures
            r.known() == spec_known_extensions(),
            r.backend() == backend,
    {
        let known_extensions = vec![
            basic_constraints(),
            key_usage(),
            extended_key_usage(),
            subject_alt_name(),
            authority_key_identifier(),
            subject_key_identifier(),
            tcg_platform_certificate(),
            hardware_identity(),
            spdm_extension(),
        ];
        let r = Validator { backend, known_extensions };
        assert(r.known() =~= spec_known_extensions());
        r
    }

    /// Whether `oid` is a known extension.
    fn is_known(&self, oid: &Oid) -> (r: bool)
        ensures
            r == self.known().contains(oid@),
    {
        let mut i: usize = 0;
        while i < self.known_extensions.len()
            invariant
                i <= self.known_extensions.len(),
                forall|j: int| 0 <= j < i ==> self.known()[j] != oid@,
            decreases self.known_extensions.len() - i,
        {
            if self.known_extensions[i].same(oid) {
                assert(self.known()[i as int] == oid@);
                return true;
            }
            i = i + 1;
        }
        false
    }

    /// Checks a certificate at the instant `now` (see `spec_validate`).
    pub fn validate_at(&self, cert: &Certificate, options: &ValidationOptions, now: Option<u64>) -> (r: Result<()>)
        ensures
            spec_outcome(r, spec_validate(self.known(), cert@, *options, now)),
    {
        if options.check_time {
            match self.validate_time_at(cert, now) {
                Ok(()) => {},
                Err(e) => return Err(e),
            }
        }
        if options.check_extensions {
            return self.validate_extensions(cert);
        }
        Ok(())
    }

    /// Checks a certificate's validity period (at the current time) and
    /// extensions, as the options ask; signatures are checked with chains.
    pub fn validate(&self, cert: &Certificate, options: &ValidationOptions) -> (r: Result<()>)
        ensures
            !options.check_time ==> spec_outcome(r, spec_validate(self.known(), cert@, *options, None)),
            exists|now: Option<u64>| spec_outcome(r, spec_validate(self.known(), cert@, *options, now)),
    {
        let now = if options.check_time { current_unix_seconds() } else { None };
        self.validate_at(cert, options, now)
    }

    /// Checks a certificate's validity period at the instant `now`.
    fn validate_time_at(&self, cert: &Certificate, now: Option<u64>) -> (r: Result<()>)
        ensures
            spec_outcome(r, spec_time_check(cert@, now)),
    {
        let t = match now {
            Some(t) => t,
            None => return Err(Error::TimeError(TimeError::InvalidTime)),
        };
        if t > LATEST_SECONDS {
            return Err(Error::TimeError(TimeError::InvalidTime));
        }
        let validity = &cert.tbs_certificate.validity;
        if validity.not_before.is_after(t) {
            return Err(Error::TimeError(TimeError::NotYetValid));
        }
        if validity.not_after.is_before(t) {
            return Err(Error::TimeError(TimeError::Expired));
        }
        Ok(())
    }

    /// Checks that the first basic constraints extension, if any, can be
    /// read.
    fn validate_basic_constraints(&self, cert: &Certificate) -> (r: Result<()>)
        requires
            cert.tbs_certificate.extensions is Some,
        ensures
            spec_outcome(r, spec_basic_constraints_check(cert@.tbs_certificate.extensions.unwrap())),
    {
        let extensions = match &cert.tbs_certificate.extensions {
            Some(x) => x,
            None => return Ok(()),
        };
        match extensions.find(&basic_constraints()) {
            Some(ext) => match BasicConstraints::from_der(ext.value()) {
                Ok(_) => Ok(()),
                Err(e) => Err(e),
            },
            None => Ok(()),
        }
    }

    /// Checks a certificate's extensions (see `spec_extensions_check`).
    fn validate_extensions(&self, cert: &Certificate) -> (r: Result<()>)
        ensures
            spec_outcome(r, spec_extensions_check(self.known(), cert@)),
    {
        let extensions = match &cert.tbs_certificate.extensions {
            Some(x) => x,
            None => return Ok(()),
        };
        let ghost x = extensions@;
        let bc = basic_constraints();
        let mut i: usize = 0;
        while i < extensions.extensions.len()
            invariant
                i <= extensions.extensions.len(),
                x == extensions@,
                cert.tbs_certificate.extensions == Some(*extensions),
                bc@ == spec_basic_constraints(),
                spec_extensions_from(self.known(), x, 0) == spec_extensions_from(self.known(), x, i as int),
            decreases extensions.extensions.len() - i,
        {
            let ext = &extensions.extensions[i];
            assert(ext@ == x[i as int]);
            if ext.critical {
                if !self.is_known(&ext.extn_id) {
                    return Err(Error::ExtensionError(ExtensionError::UnknownCriticalExtension(ext.extn_id.to_text())));
                }
                if ext.extn_id.same(&bc) {
                    match self.validate_basic_constraints(cert) {
                        Ok(()) => {},
                        Err(e) => return Err(e),
                    }
                }
            }
            i = i + 1;
        }
        Ok(())
    }

    /// Verifies a certificate's signature with its issuer's key (see
    /// `spec_signature_check`).
    pub fn verify_signature(&self, cert: &Certificate, issuer: &Certificate) -> (r: Result<()>)
        ensures
            spec_outcome(r, spec_signature_check(self.backend(), cert@, issuer@)),
    {
        let curve: Option<Oid> = match &issuer.tbs_certificate.subject_public_key_info.algorithm.parameters {
            Some(p) => {
                if p.tag == 0x06 && crate::der::oid_content_valid(p.value.as_slice(), 0, p.value.len()) {
                    proof {
                        assert(p.value@.subrange(0, p.value.len() as int) =~= p.value@);
                    }
                    Some(Oid { bytes: crate::bytes::copy_bytes(p.value.as_slice()) })
                } else {
                    proof {
                        assert(p.value@.subrange(0, p.value.len() as int) =~= p.value@);
                    }
                    None
                }
            },
            None => None,
        };
        let sig_algo = match SignatureAlgorithm::from_oid_with_curve(&cert.signature_algorithm.algorithm, curve.as_ref()) {
            Ok(a) => a,
            Err(e) => return Err(e),
        };
        let tbs_bytes = match cert.tbs_certificate.to_der() {
            Ok(b) => b,
            Err(e) => return Err(e),
        };
        let signature = cert.signature_value.raw_bytes();
        let public_key = issuer.tbs_certificate.subject_public_key_info.subject_public_key.raw_bytes();
        self.backend.verify_signature(sig_algo, tbs_bytes.as_slice(), signature, public_key)
    }

    /// Checks that an issuer, `depth` certificates above the leaf, is a CA
    /// whose path length constraint allows that depth.
    fn verify_issuer_is_ca(&self, issuer: &Certificate, depth: usize) -> (r: Result<()>)
        ensures
            spec_outcome(r, spec_issuer_is_ca(issuer@, depth as int)),
    {
        let extensions = match &issuer.tbs_certificate.extensions {
            Some(x) => x,
            None => return Err(Error::ChainError(ChainError::IssuerNotCA)),
        };
        let ext = match extensions.find(&basic_constraints()) {
            Some(e) => e,
            None => return Err(Error::ChainError(ChainError::IssuerNotCA)),
        };
        let bc = match BasicConstraints::from_der(ext.value()) {
            Ok(b) => b,
            Err(e) => return Err(e),
        };
        if !bc.ca {
            return Err(Error::ChainError(ChainError::IssuerNotCA));
        }
        match bc.path_len_constraint {
            Some(pl) => {
                if depth > pl as usize {
                    return Err(Error::ChainError(ChainError::PathLengthExceeded));
                }
            },
            None => {},
        }
        Ok(())
    }

    /// Checks the path length constraints of a chain (see
    /// `spec_path_len_from`).
    fn validate_path_length_constraints(&self, chain: &CertificateChain) -> (r: Result<()>)
        ensures
            spec_outcome(r, spec_path_len_from(chain@, 1)),
    {
        let n = chain.certificates.len();
        let bc = basic_constraints();
        let mut i: usize = 1;
        while i < n
            invariant
                1 <= i,
                n == chain.certificates.len(),
                bc@ == spec_basic_constraints(),
                spec_path_len_from(chain@, 1) == spec_path_len_from(chain@, i as int),
            decreases n - i,
        {
            let cert = &chain.certificates[i];
            assert(cert@ == chain@[i as int]);
            match &cert.tbs_certificate.extensions {
                None => {},
                Some(extensions) => {
                    let remaining = i - 1;
                    let ghost x = extensions@;
                    let mut j: usize = 0;
                    while j < extensions.extensions.len()
                        invariant
                            j <= extensions.extensions.len(),
                            x == extensions@,
                            bc@ == spec_basic_constraints(),
                            1 <= i < n,
                            n == chain.certificates.len(),
                            remaining == i - 1,
                            cert@ == chain@[i as int],
                            cert.tbs_certificate.extensions == Some(*extensions),
                            spec_path_len_from(chain@, 1) == spec_path_len_from(chain@, i as int),
                            spec_path_len_exts(x, 0, remaining as int) == spec_path_len_exts(x, j as int, remaining as int),
                        decreases extensions.extensions.len() - j,
                    {
                        let ext = &extensions.extensions[j];
                        assert(ext@ == x[j as int]);
                        if ext.extn_id.same(&bc) {
                            let b = match BasicConstraints::from_der(ext.value()) {
                                Ok(b) => b,
                                Err(e) => return Err(e),
                            };
                            match b.path_len_constraint {
                                Some(pl) => {
                                    if remaining > pl as usize {
                                        return Err(Error::ChainError(ChainError::PathLengthExceeded));
                                    }
                                },
                                None => {},
                            }
                        }
                        j = j + 1;
                    }
                },
            }
            i = i + 1;
        }
        Ok(())
    }

    /// Checks a chain at the instant `now` (see `spec_validate_chain`).
    pub fn validate_chain_at(&self, chain: &CertificateChain, options: &ValidationOptions, now: Option<u64>) -> (r: Result<()>)
        ensures
            spec_outcome(r, spec_validate_chain(self.known(), self.backend(), chain@, *options, now)),
    {
        let n = chain.certificates.len();
        if n == 0 {
            return Err(Error::ChainError(ChainError::EmptyChain));
        }
        if n > options.max_chain_depth {
            return Err(Error::ChainError(ChainError::ChainTooLong));
        }
        let mut idx: usize = 0;
        while idx < n
            invariant
                n == chain.certificates.len(),
                0 < n <= options.max_chain_depth,
                spec_validate_chain(self.known(), self.backend(), chain@, *options, now)
                    == spec_chain_from(self.known(), self.backend(), chain@, *options, now, idx as int),
            decreases n - idx,
        {
            let cert = &chain.certificates[idx];
            assert(cert@ == chain@[idx as int]);
            match self.validate_at(cert, options, now) {
                Ok(()) => {},
                Err(e) => return Err(e),
            }
            if idx + 1 < n {
                let issuer = &chain.certificates[idx + 1];
                assert(issuer@ == chain@[idx + 1]);
                if !cert.tbs_certificate.issuer.same(&issuer.tbs_certificate.subject) {
                    return Err(Error::ChainError(ChainError::IssuerMismatch));
                }
                if options.check_signature {
                    match self.verify_signature(cert, issuer) {
                        Ok(()) => {},
                        Err(e) => return Err(e),
                    }
                }
                match self.verify_issuer_is_ca(issuer, idx) {
                    Ok(()) => {},
                    Err(e) => return Err(e),
                }
            } else {
                if options.check_signature {
                    match self.verify_signature(cert, cert) {
                        Ok(()) => {},
                        Err(e) => return Err(e),
                    }
                }
            }
            idx = idx + 1;
        }
        self.validate_path_length_constraints(chain)
    }

    /// Checks a chain, ordered from leaf to root, reading the clock once
    /// when the options ask for validity periods.
    pub fn validate_chain(&self, chain: &CertificateChain, options: &ValidationOptions) -> (r: Result<()>)
        ensures
            !options.check_time ==> spec_outcome(r, spec_validate_chain(self.known(), self.backend(), chain@, *options, None)),
            exists|now: Option<u64>| spec_outcome(r, spec_validate_chain(self.known(), self.backend(), chain@, *options, now)),
    {
        let now = if options.check_time { current_unix_seconds() } else { None };
        self.validate_chain_at(chain, options, now)
    }
}

// ---------------------------------------------------------------------------
// CertificateChain
// ---------------------------------------------------------------------------

/// A chain of certificates, from the leaf to the root.
pub struct CertificateChain {
    pub certificates: Vec<Certificate>,
}

impl View for CertificateChain {
    type V = Seq<CertView>;

    open spec fn view(&self) -> Seq<CertView> {
        self.certificates@.map_values(|c: Certificate| c@)
    }
}

impl CertificateChain {
    /// A chain of the given certificates.
    pub fn new(certificates: Vec<Certificate>) -> (r: CertificateChain)
        ensures
            r.certificates@ == certificates@,
    {
        CertificateChain { certificates }
    }

    /// A chain of one certificate.
    pub fn single(cert: Certificate) -> (r: CertificateChain)
        ensures
            r.certificates@ == seq![cert],
    {
        let mut v: Vec<Certificate> = Vec::new();
        v.push(cert);
        CertificateChain { certificates: v }
    }

    /// Appends a certificate (closer to the root).
    pub fn push(&mut self, cert: Certificate)
        ensures
            final(self).certificates@ == old(self).certificates@.push(cert),
    {
        self.certificates.push(cert);
    }

    /// The leaf certificate.
    pub fn leaf(&self) -> (r: Option<&Certificate>)
        ensures
            self.certificates.len() == 0 ==> r is None,
            self.certificates.len() > 0 ==> r == Some(&self.certificates@[0]),
    {
        if self.certificates.len() == 0 {
            None
        } else {
            Some(&self.certificates[0])
        }
    }

    /// The root certificate.
    pub fn root(&self) -> (r: Option<&Certificate>)
        ensures
            self.certificates.len() == 0 ==> r is None,
            self.certificates.len() > 0 ==> r == Some(&self.certificates@[self.certificates.len() - 1]),
    {
        if self.certificates.len() == 0 {
            None
        } else {
            Some(&self.certificates[self.certificates.len() - 1])
        }
    }

    /// The number of certificates.
    pub fn len(&self) -> (r: usize)
        ensures
            r == self.certificates.len(),
    {
        self.certificates.len()
    }

    /// Whether the chain is empty.
    pub fn is_empty(&self) -> (r: bool)
        ensures
            r == (self.certificates.len() == 0),
    {
        self.certificates.len() == 0
    }

    /// The certificates, from the leaf to the root.
    pub fn iter(&self) -> (r: &[Certificate])
        ensures
            r@ == self.certificates@,
    {
        self.certificates.as_slice()
    }
}

} // verus!
