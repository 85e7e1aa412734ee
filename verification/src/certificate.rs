//! X.509 v3 certificates (RFC 5280, section 4.1): their DER grammar, read
//! from bytes and written back.
use vstd::prelude::*;
use crate::bytes::copy_range;
use crate::der::{
    append, read_oid, read_tlv, spec_any_at, spec_bit_string_content, spec_bit_string_encode,
    spec_bool_content, spec_cat, spec_encode_any, spec_is_context, spec_oid_at, spec_tag_number,
    spec_tag_ok, spec_tlv, spec_uint_content, spec_uint_encode, spec_wrap, spec_wrap_opt, tag_ok,
    uint_content, uint_encode, wrap, bool_content, AnyValue, AnyView, BitString, BitStringView,
};
use crate::error::{Asn1Error, Error};
use crate::oid::Oid;
use ::der::Decode;

verus! {

// ---------------------------------------------------------------------------
// Version
// ---------------------------------------------------------------------------

/// The version of a certificate.
#[derive(Debug, Clone, Copy, PartialEq, Eq, Structural)]
pub enum Version {
    /// Version 1 (value 0).
    V1,
    /// Version 2 (value 1).
    V2,
    /// Version 3 (value 2), the default for new certificates.
    V3,
}

/// The integer value of a version.
pub open spec fn spec_version_value(v: Version) -> u8 {
    match v {
        Version::V1 => 0,
        Version::V2 => 1,
        Version::V3 => 2,
    }
}

/// The version with a given integer value.
pub open spec fn spec_version_from_value(value: u8) -> Option<Version> {
    if value == 0 {
        Some(Version::V1)
    } else if value == 1 {
        Some(Version::V2)
    } else if value == 2 {
        Some(Version::V3)
    } else {
        None
    }
}

impl Version {
    /// The integer value of this version.
    pub fn value(&self) -> (r: u8)
        ensures
            r == spec_version_value(*self),
    {
        match self {
            Version::V1 => 0,
            Version::V2 => 1,
            Version::V3 => 2,
        }
    }

    /// The version with the given integer value; values other than 0, 1
    /// and 2 are refused.
    pub fn from_value(value: u8) -> (r: Result<Version, Error>)
        ensures
            match spec_version_from_value(value) {
                Some(v) => r == Ok::<Version, Error>(v),
                None => r == Err::<Version, Error>(Error::Asn1(Asn1Error::InvalidValue)),
            },
    {
        if value == 0 {
            Ok(Version::V1)
        } else if value == 1 {
            Ok(Version::V2)
        } else if value == 2 {
            Ok(Version::V3)
        } else {
            Err(Error::Asn1(Asn1Error::InvalidValue))
        }
    }

    /// The text of this version: `v1`, `v2` or `v3`.
    pub fn to_text(&self) -> (r: String)
        ensures
            r@ == match *self {
                Version::V1 => "v1"@,
                Version::V2 => "v2"@,
                Version::V3 => "v3"@,
            },
    {
        match self {
            Version::V1 => "v1".to_owned(),
            Version::V2 => "v2".to_owned(),
            Version::V3 => "v3".to_owned(),
        }
    }
}

impl Default for Version {
    fn default() -> (r: Version)
        ensures
            r == Version::V3,
    {
        Version::V3
    }
}

/// Both directions of the version numbering agree.
pub proof fn lemma_version_value_round_trip(v: Version, value: u8)
    ensures
        spec_version_from_value(spec_version_value(v)) == Some(v),
        spec_version_from_value(value) matches Some(w) ==> spec_version_value(w) == value,
{
}

// ---------------------------------------------------------------------------
// AlgorithmIdentifier
// ---------------------------------------------------------------------------

/// An algorithm and its optional parameters.
#[derive(Debug, Clone, PartialEq, Eq)]
pub struct AlgorithmIdentifier {
    pub algorithm: Oid,
    pub parameters: Option<AnyValue>,
}

/// The mathematical value of an algorithm identifier.
pub struct AlgIdView {
    pub algorithm: Seq<u8>,
    pub parameters: Option<AnyView>,
}

impl View for AlgorithmIdentifier {
    type V = AlgIdView;

    open spec fn view(&self) -> AlgIdView {
        AlgIdView {
            algorithm: self.algorithm@,
            parameters: match self.parameters {
                Some(p) => Some(p@),
                None => None,
            },
        }
    }
}

/// The algorithm identifier whose SEQUENCE content is `s[c..e]`: an
/// OBJECT IDENTIFIER, then at most one value of any type.
pub open spec fn spec_alg_id_content(s: Seq<u8>, c: int, e: int) -> Option<AlgIdView> {
    match spec_oid_at(s, c, e) {
        Some((o, p)) => if p == e {
            Some(AlgIdView { algorithm: o, parameters: None })
        } else {
            match spec_any_at(s, p, e) {
                Some((a, q)) => if q == e {
                    Some(AlgIdView { algorithm: o, parameters: Some(a) })
                } else {
                    None
                },
                None => None,
            }
        },
        None => None,
    }
}

/// The algorithm identifier encoded by the SEQUENCE TLV at `s[i]`, and
/// where it ends.
pub open spec fn spec_alg_id_at(s: Seq<u8>, i: int, end: int) -> Option<(AlgIdView, int)> {
    match spec_tlv(s, i, end) {
        Some((t, c, e)) => if t == 0x30 {
            match spec_alg_id_content(s, c, e) {
                Some(a) => Some((a, e)),
                None => None,
            }
        } else {
            None
        },
        None => None,
    }
}

/// The DER encoding of an algorithm identifier.
pub open spec fn spec_encode_alg_id(a: AlgIdView) -> Option<Seq<u8>> {
    spec_wrap_opt(
        0x30,
        match a.parameters {
            Some(p) => spec_cat(spec_wrap(0x06, a.algorithm), spec_encode_any(p)),
            None => spec_wrap(0x06, a.algorithm),
        },
    )
}

impl AlgorithmIdentifier {
    /// An identifier with no parameters.
    pub fn new(algorithm: Oid) -> (r: AlgorithmIdentifier)
        ensures
            r@ == (AlgIdView { algorithm: algorithm@, parameters: None }),
    {
        AlgorithmIdentifier { algorithm, parameters: None }
    }

    /// An identifier with parameters.
    pub fn new_with_params(algorithm: Oid, parameters: AnyValue) -> (r: AlgorithmIdentifier)
        ensures
            r@ == (AlgIdView { algorithm: algorithm@, parameters: Some(parameters@) }),
    {
        AlgorithmIdentifier { algorithm, parameters: Some(parameters) }
    }

    /// Reads an algorithm identifier (see `spec_alg_id_at`).
    pub fn read(s: &[u8], i: usize, end: usize) -> (r: Option<(AlgorithmIdentifier, usize)>)
        requires
            end <= s.len(),
        ensures
            match r {
                Some((a, n)) => spec_alg_id_at(s@, i as int, end as int) == Some((a@, n as int)),
                None => spec_alg_id_at(s@, i as int, end as int) is None,
            },
    {
        let (t, c, e) = match read_tlv(s, i, end) {
            Some(x) => x,
            None => return None,
        };
        if t != 0x30 {
            return None;
        }
        let (o, p) = match read_oid(s, c, e) {
            Some(x) => x,
            None => return None,
        };
        if p == e {
            return Some((AlgorithmIdentifier { algorithm: o, parameters: None }, e));
        }
        match AnyValue::read(s, p, e) {
            Some((a, q)) => {
                if q == e {
                    Some((AlgorithmIdentifier { algorithm: o, parameters: Some(a) }, e))
                } else {
                    None
                }
            },
            None => None,
        }
    }

    /// Reads an algorithm identifier from DER bytes: the identifier must
    /// start at the first byte; bytes after it are ignored.
    pub fn from_der(bytes: &[u8]) -> (r: Result<AlgorithmIdentifier, Error>)
        ensures
            match r {
                Ok(a) => bytes.len() <= crate::der::MAX_LEN && spec_alg_id_at(bytes@, 0, bytes.len() as int) is Some && spec_alg_id_at(bytes@, 0, bytes.len() as int).unwrap().0 == a@,
                Err(e) => e == Error::Asn1(Asn1Error::Malformed) && (bytes.len() > crate::der::MAX_LEN
                    || spec_alg_id_at(bytes@, 0, bytes.len() as int) is None),
            },
    {
        if bytes.len() > crate::der::MAX_LEN {
            return Err(Error::Asn1(Asn1Error::Malformed));
        }
        match AlgorithmIdentifier::read(bytes, 0, bytes.len()) {
            Some((a, _)) => Ok(a),
            None => Err(Error::Asn1(Asn1Error::Malformed)),
        }
    }

    /// The DER encoding of this identifier.
    pub fn encode(&self) -> (r: Option<Vec<u8>>)
        ensures
            match r {
                Some(v) => spec_encode_alg_id(self@) == Some(v@),
                None => spec_encode_alg_id(self@) is None,
            },
    {
        let mut content = match wrap(0x06, self.algorithm.as_bytes()) {
            Some(v) => v,
            None => return None,
        };
        match &self.parameters {
            Some(p) => {
                let pe = match p.encode() {
                    Some(v) => v,
                    None => return None,
                };
                append(&mut content, pe.as_slice());
            },
            None => {},
        }
        wrap(0x30, content.as_slice())
    }

    /// A copy of this identifier.
    pub fn copy(&self) -> (r: AlgorithmIdentifier)
        ensures
            r@ == self@,
    {
        AlgorithmIdentifier {
            algorithm: self.algorithm.copy(),
            parameters: match &self.parameters {
                Some(p) => Some(p.copy()),
                None => None,
            },
        }
    }
}

// ---------------------------------------------------------------------------
// Time and Validity
// ---------------------------------------------------------------------------

/// The instant, in seconds since the Unix epoch, that `der` reads from a
/// UTCTime TLV; `None` when the TLV is not a valid UTCTime.
pub uninterp spec fn spec_utc_time_seconds(tlv: Seq<u8>) -> Option<u64>;

/// The instant, in seconds since the Unix epoch, that `der` reads from a
/// GeneralizedTime TLV; `None` when the TLV is not a valid
/// GeneralizedTime.
pub uninterp spec fn spec_generalized_time_seconds(tlv: Seq<u8>) -> Option<u64>;

/// Reads a UTCTime TLV with `::der::asn1::UtcTime::from_der` and gives its
/// instant in whole seconds since the Unix epoch; the result is
/// `spec_utc_time_seconds` of the TLV.
#[verifier::external_body]
fn utc_time_seconds(tlv: &[u8]) -> (r: Option<u64>)
    ensures
        r == spec_utc_time_seconds(tlv@),
{
    match ::der::asn1::UtcTime::from_der(tlv) {
        Ok(t) => Some(t.to_unix_duration().as_secs()),
        Err(_) => None,
    }
}

/// Reads a GeneralizedTime TLV with
/// `::der::asn1::GeneralizedTime::from_der` and gives its instant in whole
/// seconds since the Unix epoch; the result is
/// `spec_generalized_time_seconds` of the TLV.
#[verifier::external_body]
fn generalized_time_seconds(tlv: &[u8]) -> (r: Option<u64>)
    ensures
        r == spec_generalized_time_seconds(tlv@),
{
    match ::der::asn1::GeneralizedTime::from_der(tlv) {
        Ok(t) => Some(t.to_unix_duration().as_secs()),
        Err(_) => None,
    }
}

/// A time of a validity period: its tag (UTCTime or GeneralizedTime), its
/// content octets, and the instant they denote in seconds since the Unix
/// epoch.
#[derive(Debug, Clone, PartialEq, Eq)]
pub struct Time {
    pub tag: u8,
    pub value: Vec<u8>,
    pub unix_seconds: u64,
}

/// The mathematical value of a time.
pub struct TimeView {
    pub tag: u8,
    pub value: Seq<u8>,
    pub unix_seconds: u64,
}

impl View for Time {
    type V = TimeView;

    open spec fn view(&self) -> TimeView {
        TimeView { tag: self.tag, value: self.value@, unix_seconds: self.unix_seconds }
    }
}

/// The time encoded by the TLV at `s[i]`, and where it ends.
pub open spec fn spec_time_at(s: Seq<u8>, i: int, end: int) -> Option<(TimeView, int)> {
    match spec_tlv(s, i, end) {
        Some((t, c, e)) => {
            let secs = if t == 0x17 {
                spec_utc_time_seconds(s.subrange(i, e))
            } else if t == 0x18 {
                spec_generalized_time_seconds(s.subrange(i, e))
            } else {
                None
            };
            match secs {
                Some(x) => Some((TimeView { tag: t, value: s.subrange(c, e), unix_seconds: x }, e)),
                None => None,
            }
        },
        None => None,
    }
}

impl Time {
    /// Reads a time (see `spec_time_at`).
    pub fn read(s: &[u8], i: usize, end: usize) -> (r: Option<(Time, usize)>)
        requires
            end <= s.len(),
        ensures
            match r {
                Some((a, n)) => spec_time_at(s@, i as int, end as int) == Some((a@, n as int)),
                None => spec_time_at(s@, i as int, end as int) is None,
            },
    {
        let (t, c, e) = match read_tlv(s, i, end) {
            Some(x) => x,
            None => return None,
        };
        let tlv = copy_range(s, i, e);
        let secs = if t == 0x17 {
            utc_time_seconds(tlv.as_slice())
        } else if t == 0x18 {
            generalized_time_seconds(tlv.as_slice())
        } else {
            None
        };
        match secs {
            Some(x) => Some((Time { tag: t, value: copy_range(s, c, e), unix_seconds: x }, e)),
            None => None,
        }
    }

    /// Whether this time is strictly before the instant `seconds`.
    pub fn is_before(&self, seconds: u64) -> (r: bool)
        ensures
            r == (self.unix_seconds < seconds),
    {
        self.unix_seconds < seconds
    }

    /// Whether this time is strictly after the instant `seconds`.
    pub fn is_after(&self, seconds: u64) -> (r: bool)
        ensures
            r == (self.unix_seconds > seconds),
    {
        self.unix_seconds > seconds
    }

    /// A copy of this time.
    pub fn copy(&self) -> (r: Time)
        ensures
            r@ == self@,
    {
        Time { tag: self.tag, value: crate::bytes::copy_bytes(self.value.as_slice()), unix_seconds: self.unix_seconds }
    }
}

/// The validity period of a certificate.
#[derive(Debug, Clone, PartialEq, Eq)]
pub struct Validity {
    pub not_before: Time,
    pub not_after: Time,
}

/// The mathematical value of a validity period.
pub struct ValidityView {
    pub not_before: TimeView,
    pub not_after: TimeView,
}

impl View for Validity {
    type V = ValidityView;

    open spec fn view(&self) -> ValidityView {
        ValidityView { not_before: self.not_before@, not_after: self.not_after@ }
    }
}

/// The validity period encoded by the SEQUENCE TLV at `s[i]`, and where it
/// ends.
pub open spec fn spec_validity_at(s: Seq<u8>, i: int, end: int) -> Option<(ValidityView, int)> {
    match spec_tlv(s, i, end) {
        Some((t, c, e)) => if t == 0x30 {
            match spec_time_at(s, c, e) {
                Some((a, p)) => match spec_time_at(s, p, e) {
                    Some((b, q)) => if q == e {
                        Some((ValidityView { not_before: a, not_after: b }, e))
                    } else {
                        None
                    },
                    None => None,
                },
                None => None,
            }
        } else {
            None
        },
        None => None,
    }
}

/// The DER encoding of a validity period.
pub open spec fn spec_encode_validity(v: ValidityView) -> Option<Seq<u8>> {
    spec_wrap_opt(
        0x30,
        spec_cat(spec_wrap(v.not_before.tag, v.not_before.value), spec_wrap(v.not_after.tag, v.not_after.value)),
    )
}

impl Validity {
    /// Reads a validity period (see `spec_validity_at`).
    pub fn read(s: &[u8], i: usize, end: usize) -> (r: Option<(Validity, usize)>)
        requires
            end <= s.len(),
        ensures
            match r {
                Some((a, n)) => spec_validity_at(s@, i as int, end as int) == Some((a@, n as int)),
                None => spec_validity_at(s@, i as int, end as int) is None,
            },
    {
        let (t, c, e) = match read_tlv(s, i, end) {
            Some(x) => x,
            None => return None,
        };
        if t != 0x30 {
            return None;
        }
        let (a, p) = match Time::read(s, c, e) {
            Some(x) => x,
            None => return None,
        };
        let (b, q) = match Time::read(s, p, e) {
            Some(x) => x,
            None => return None,
        };
        if q != e {
            return None;
        }
        Some((Validity { not_before: a, not_after: b }, e))
    }

    /// The DER encoding of this validity period.
    pub fn encode(&self) -> (r: Option<Vec<u8>>)
        ensures
            match r {
                Some(v) => spec_encode_validity(self@) == Some(v@),
                None => spec_encode_validity(self@) is None,
            },
    {
        let mut content = match wrap(self.not_before.tag, self.not_before.value.as_slice()) {
            Some(v) => v,
            None => return None,
        };
        let b = match wrap(self.not_after.tag, self.not_after.value.as_slice()) {
            Some(v) => v,
            None => return None,
        };
        append(&mut content, b.as_slice());
        wrap(0x30, content.as_slice())
    }

    /// A copy of this validity period.
    pub fn copy(&self) -> (r: Validity)
        ensures
            r@ == self@,
    {
        Validity { not_before: self.not_before.copy(), not_after: self.not_after.copy() }
    }
}

// ---------------------------------------------------------------------------
// SubjectPublicKeyInfo
// ---------------------------------------------------------------------------

/// A public key and its algorithm.
#[derive(Debug, Clone, PartialEq, Eq)]
pub struct SubjectPublicKeyInfo {
    pub algorithm: AlgorithmIdentifier,
    pub subject_public_key: BitString,
}

/// The mathematical value of a public key information.
pub struct SpkiView {
    pub algorithm: AlgIdView,
    pub subject_public_key: BitStringView,
}

impl View for SubjectPublicKeyInfo {
    type V = SpkiView;

    open spec fn view(&self) -> SpkiView {
        SpkiView { algorithm: self.algorithm@, subject_public_key: self.subject_public_key@ }
    }
}

/// The BIT STRING TLV at `s[i]`, and where it ends.
pub open spec fn spec_bit_string_at(s: Seq<u8>, i: int, end: int) -> Option<(BitStringView, int)> {
    match spec_tlv(s, i, end) {
        Some((t, c, e)) => if t == 0x03 {
            match spec_bit_string_content(s.subrange(c, e)) {
                Some(b) => Some((b, e)),
                None => None,
            }
        } else {
            None
        },
        None => None,
    }
}

/// The public key information encoded by the SEQUENCE TLV at `s[i]`, and
/// where it ends.
pub open spec fn spec_spki_at(s: Seq<u8>, i: int, end: int) -> Option<(SpkiView, int)> {
    match spec_tlv(s, i, end) {
        Some((t, c, e)) => if t == 0x30 {
            match spec_alg_id_at(s, c, e) {
                Some((a, p)) => match spec_bit_string_at(s, p, e) {
                    Some((b, q)) => if q == e {
                        Some((SpkiView { algorithm: a, subject_public_key: b }, e))
                    } else {
                        None
                    },
                    None => None,
                },
                None => None,
            }
        } else {
            None
        },
        None => None,
    }
}

/// The public key information that DER bytes hold, when one TLV fills
/// them.
pub open spec fn spec_spki_from_der(bytes: Seq<u8>) -> Option<SpkiView> {
    if bytes.len() > crate::der::MAX_LEN {
        None
    } else {
        match spec_spki_at(bytes, 0, bytes.len() as int) {
            Some((v, n)) => if n == bytes.len() { Some(v) } else { None },
            None => None,
        }
    }
}

/// The DER encoding of a BIT STRING with the given tag.
pub open spec fn spec_encode_bit_string(tag: u8, b: BitStringView) -> Option<Seq<u8>> {
    spec_wrap(tag, spec_bit_string_encode(b))
}

/// The DER encoding of a public key information.
pub open spec fn spec_encode_spki(k: SpkiView) -> Option<Seq<u8>> {
    spec_wrap_opt(0x30, spec_cat(spec_encode_alg_id(k.algorithm), spec_encode_bit_string(0x03, k.subject_public_key)))
}

/// Reads a BIT STRING TLV (see `spec_bit_string_at`).
pub fn read_bit_string(s: &[u8], i: usize, end: usize) -> (r: Option<(BitString, usize)>)
    requires
        end <= s.len(),
    ensures
        match r {
            Some((a, n)) => spec_bit_string_at(s@, i as int, end as int) == Some((a@, n as int)),
            None => spec_bit_string_at(s@, i as int, end as int) is None,
        },
{
    let (t, c, e) = match read_tlv(s, i, end) {
        Some(x) => x,
        None => return None,
    };
    if t != 0x03 {
        return None;
    }
    match BitString::from_content(s, c, e) {
        Some(b) => Some((b, e)),
        None => None,
    }
}

/// Encodes a BIT STRING with the given tag.
pub fn encode_bit_string(tag: u8, b: &BitString) -> (r: Option<Vec<u8>>)
    ensures
        match r {
            Some(v) => spec_encode_bit_string(tag, b@) == Some(v@),
            None => spec_encode_bit_string(tag, b@) is None,
        },
{
    let c = b.content();
    wrap(tag, c.as_slice())
}

impl SubjectPublicKeyInfo {
    /// Reads a public key information (see `spec_spki_at`).
    pub fn read(s: &[u8], i: usize, end: usize) -> (r: Option<(SubjectPublicKeyInfo, usize)>)
        requires
            end <= s.len(),
        ensures
            match r {
                Some((a, n)) => spec_spki_at(s@, i as int, end as int) == Some((a@, n as int)),
                None => spec_spki_at(s@, i as int, end as int) is None,
            },
    {
        let (t, c, e) = match read_tlv(s, i, end) {
            Some(x) => x,
            None => return None,
        };
        if t != 0x30 {
            return None;
        }
        let (a, p) = match AlgorithmIdentifier::read(s, c, e) {
            Some(x) => x,
            None => return None,
        };
        let (b, q) = match read_bit_string(s, p, e) {
            Some(x) => x,
            None => return None,
        };
        if q != e {
            return None;
        }
        Some((SubjectPublicKeyInfo { algorithm: a, subject_public_key: b }, e))
    }

    /// Reads a public key information from DER bytes, which it must fill
    /// (see `spec_spki_from_der`).
    pub fn from_der(bytes: &[u8]) -> (r: Result<SubjectPublicKeyInfo, Error>)
        ensures
            match spec_spki_from_der(bytes@) {
                Some(v) => r matches Ok(a) && a@ == v,
                None => r == Err::<SubjectPublicKeyInfo, Error>(Error::Asn1(Asn1Error::Malformed)),
            },
    {
        if bytes.len() > crate::der::MAX_LEN {
            return Err(Error::Asn1(Asn1Error::Malformed));
        }
        match SubjectPublicKeyInfo::read(bytes, 0, bytes.len()) {
            Some((a, n)) => {
                if n == bytes.len() {
                    Ok(a)
                } else {
                    Err(Error::Asn1(Asn1Error::Malformed))
                }
            },
            None => Err(Error::Asn1(Asn1Error::Malformed)),
        }
    }

    /// The DER encoding of this public key information.
    pub fn encode(&self) -> (r: Option<Vec<u8>>)
        ensures
            match r {
                Some(v) => spec_encode_spki(self@) == Some(v@),
                None => spec_encode_spki(self@) is None,
            },
    {
        let mut content = match self.algorithm.encode() {
            Some(v) => v,
            None => return None,
        };
        let b = match encode_bit_string(0x03, &self.subject_public_key) {
            Some(v) => v,
            None => return None,
        };
        append(&mut content, b.as_slice());
        wrap(0x30, content.as_slice())
    }

    /// A copy of this public key information.
    pub fn copy(&self) -> (r: SubjectPublicKeyInfo)
        ensures
            r@ == self@,
    {
        SubjectPublicKeyInfo { algorithm: self.algorithm.copy(), subject_public_key: self.subject_public_key.copy() }
    }
}


// ---------------------------------------------------------------------------
// Extensions
// ---------------------------------------------------------------------------

/// One X.509 v3 extension.
#[derive(Debug, Clone, PartialEq, Eq)]
pub struct Extension {
    pub extn_id: Oid,
    pub critical: bool,
    pub extn_value: Vec<u8>,
}

/// The mathematical value of an extension.
pub struct ExtView {
    pub extn_id: Seq<u8>,
    pub critical: bool,
    pub extn_value: Seq<u8>,
}

impl View for Extension {
    type V = ExtView;

    open spec fn view(&self) -> ExtView {
        ExtView { extn_id: self.extn_id@, critical: self.critical, extn_value: self.extn_value@ }
    }
}

/// The optional `critical` BOOLEAN of an extension, at `s[p]`: its value
/// (false when absent) and where the next field starts. A byte that is not
/// a valid identifier octet there is refused.
pub open spec fn spec_critical_at(s: Seq<u8>, p: int, e: int) -> Option<(bool, int)> {
    if p < e && !spec_tag_ok(s[p]) {
        None
    } else if p < e && s[p] == 0x01 {
        match spec_tlv(s, p, e) {
            Some((_, bc, be)) => match spec_bool_content(s.subrange(bc, be)) {
                Some(b) => Some((b, be)),
                None => None,
            },
            None => None,
        }
    } else {
        Some((false, p))
    }
}

/// The OCTET STRING TLV at `s[i]`: its content and where it ends.
pub open spec fn spec_octet_string_at(s: Seq<u8>, i: int, end: int) -> Option<(Seq<u8>, int)> {
    match spec_tlv(s, i, end) {
        Some((t, c, e)) => if t == 0x04 { Some((s.subrange(c, e), e)) } else { None },
        None => None,
    }
}

/// The extension encoded by the SEQUENCE TLV at `s[i]`, and where it ends.
pub open spec fn spec_ext_at(s: Seq<u8>, i: int, end: int) -> Option<(ExtView, int)> {
    match spec_tlv(s, i, end) {
        Some((t, c, e)) => if t == 0x30 {
            match spec_oid_at(s, c, e) {
                Some((o, p)) => match spec_critical_at(s, p, e) {
                    Some((crit, q)) => match spec_octet_string_at(s, q, e) {
                        Some((v, r)) => if r == e {
                            Some((ExtView { extn_id: o, critical: crit, extn_value: v }, e))
                        } else {
                            None
                        },
                        None => None,
                    },
                    None => None,
                },
                None => None,
            }
        } else {
            None
        },
        None => None,
    }
}

/// The DER encoding of an extension (a false `critical` is left out).
pub open spec fn spec_encode_ext(x: ExtView) -> Option<Seq<u8>> {
    spec_wrap_opt(
        0x30,
        spec_cat(
            spec_cat(
                spec_wrap(0x06, x.extn_id),
                if x.critical { Some(seq![0x01u8, 0x01, 0xFF]) } else { Some(Seq::empty()) },
            ),
            spec_wrap(0x04, x.extn_value),
        ),
    )
}

/// The value of an extension's `critical` field when it is absent.
fn default_false() -> (r: bool)
    ensures
        !r,
{
    false
}

impl Extension {
    /// A new extension; a value longer than DER allows is refused.
    pub fn new(extn_id: Oid, critical: bool, extn_value: Vec<u8>) -> (r: Result<Extension, Error>)
        ensures
            extn_value.len() <= crate::der::MAX_LEN ==> (r matches Ok(x) && x@ == (ExtView {
                extn_id: extn_id@,
                critical: critical,
                extn_value: extn_value@,
            })),
            extn_value.len() > crate::der::MAX_LEN ==> r == Err::<Extension, Error>(Error::Asn1(Asn1Error::Malformed)),
    {
        if extn_value.len() > crate::der::MAX_LEN {
            return Err(Error::Asn1(Asn1Error::Malformed));
        }
        Ok(Extension { extn_id, critical, extn_value })
    }

    /// The value of this extension (the content of its OCTET STRING).
    pub fn value(&self) -> (r: &[u8])
        ensures
            r@ == self.extn_value@,
    {
        self.extn_value.as_slice()
    }

    /// Reads an extension (see `spec_ext_at`).
    pub fn read(s: &[u8], i: usize, end: usize) -> (r: Option<(Extension, usize)>)
        requires
            end <= s.len(),
        ensures
            match r {
                Some((a, n)) => spec_ext_at(s@, i as int, end as int) == Some((a@, n as int)),
                None => spec_ext_at(s@, i as int, end as int) is None,
            },
    {
        let (t, c, e) = match read_tlv(s, i, end) {
            Some(x) => x,
            None => return None,
        };
        if t != 0x30 {
            return None;
        }
        let (o, p) = match read_oid(s, c, e) {
            Some(x) => x,
            None => return None,
        };
        if p < e && !tag_ok(s[p]) {
            return None;
        }
        let mut critical = default_false();
        let mut q = p;
        if p < e && s[p] == 0x01 {
            let (_, bc, be) = match read_tlv(s, p, e) {
                Some(x) => x,
                None => return None,
            };
            match bool_content(s, bc, be) {
                Some(b) => {
                    critical = b;
                    q = be;
                },
                None => return None,
            }
        }
        let (vt, vc, ve) = match read_tlv(s, q, e) {
            Some(x) => x,
            None => return None,
        };
        if vt != 0x04 || ve != e {
            return None;
        }
        Some((Extension { extn_id: o, critical, extn_value: copy_range(s, vc, ve) }, e))
    }

    /// The DER encoding of this extension.
    pub fn encode(&self) -> (r: Option<Vec<u8>>)
        ensures
            match r {
                Some(v) => spec_encode_ext(self@) == Some(v@),
                None => spec_encode_ext(self@) is None,
            },
    {
        let mut content = match wrap(0x06, self.extn_id.as_bytes()) {
            Some(v) => v,
            None => return None,
        };
        if self.critical {
            content.push(0x01);
            content.push(0x01);
            content.push(0xFF);
        }
        let v = match wrap(0x04, self.extn_value.as_slice()) {
            Some(v) => v,
            None => return None,
        };
        let ghost c0 = content@;
        append(&mut content, v.as_slice());
        proof {
            let id = spec_wrap(0x06, self.extn_id@).unwrap();
            if self.critical {
                assert(c0 =~= id + seq![0x01u8, 0x01, 0xFF]);
            } else {
                assert(c0 =~= id + Seq::<u8>::empty());
            }
        }
        wrap(0x30, content.as_slice())
    }

    /// A copy of this extension.
    pub fn copy(&self) -> (r: Extension)
        ensures
            r@ == self@,
    {
        Extension {
            extn_id: self.extn_id.copy(),
            critical: self.critical,
            extn_value: crate::bytes::copy_bytes(self.extn_value.as_slice()),
        }
    }
}

/// The extensions of a certificate (a SEQUENCE OF Extension).
#[derive(Debug, Clone, PartialEq, Eq)]
pub struct Extensions {
    pub extensions: Vec<Extension>,
}

impl View for Extensions {
    type V = Seq<ExtView>;

    open spec fn view(&self) -> Seq<ExtView> {
        self.extensions@.map_values(|x: Extension| x@)
    }
}

/// The extensions encoded one after the other in `s[i..end]`.
pub open spec fn spec_ext_list(s: Seq<u8>, i: int, end: int) -> Option<Seq<ExtView>>
    decreases end - i,
{
    if i >= end {
        Some(Seq::empty())
    } else {
        match spec_ext_at(s, i, end) {
            Some((a, n)) => if i < n <= end {
                match spec_ext_list(s, n, end) {
                    Some(rest) => Some(seq![a] + rest),
                    None => None,
                }
            } else {
                None
            },
            None => None,
        }
    }
}

/// The extensions encoded by the SEQUENCE TLV at `s[i]`, and where it
/// ends.
pub open spec fn spec_exts_at(s: Seq<u8>, i: int, end: int) -> Option<(Seq<ExtView>, int)> {
    match spec_tlv(s, i, end) {
        Some((t, c, e)) => if t == 0x30 {
            match spec_ext_list(s, c, e) {
                Some(l) => Some((l, e)),
                None => None,
            }
        } else {
            None
        },
        None => None,
    }
}

/// Concatenated DER encodings of extensions.
pub open spec fn spec_encode_ext_list(r: Seq<ExtView>) -> Option<Seq<u8>>
    decreases r.len(),
{
    if r.len() == 0 {
        Some(Seq::empty())
    } else {
        spec_cat(spec_encode_ext_list(r.drop_last()), spec_encode_ext(r.last()))
    }
}

/// The DER encoding of a list of extensions.
pub open spec fn spec_encode_exts(r: Seq<ExtView>) -> Option<Seq<u8>> {
    spec_wrap_opt(0x30, spec_encode_ext_list(r))
}

/// When one extension fails to encode, so does the list it belongs to.
proof fn lemma_encode_ext_list_fails(r: Seq<ExtView>, k: int)
    requires
        0 <= k < r.len(),
        spec_encode_ext(r[k]) is None,
    ensures
        spec_encode_ext_list(r) is None,
    decreases r.len(),
{
    if k < r.len() - 1 {
        lemma_encode_ext_list_fails(r.drop_last(), k);
    }
}

/// The position of the first extension whose identifier is `oid`.
pub open spec fn spec_find_ext(r: Seq<ExtView>, oid: Seq<u8>) -> Option<int> {
    if exists|i: int| 0 <= i < r.len() && (#[trigger] r[i]).extn_id == oid {
        Some(choose|i: int| 0 <= i < r.len() && (#[trigger] r[i]).extn_id == oid
            && forall|j: int| 0 <= j < i ==> (#[trigger] r[j]).extn_id != oid)
    } else {
        None
    }
}

/// Reads the extensions of `s[i..end]` one after the other.
fn read_ext_list(s: &[u8], i: usize, end: usize) -> (r: Option<Vec<Extension>>)
    requires
        end <= s.len(),
    ensures
        match r {
            Some(v) => spec_ext_list(s@, i as int, end as int) == Some(v@.map_values(|a: Extension| a@)),
            None => spec_ext_list(s@, i as int, end as int) is None,
        },
{
    let mut out: Vec<Extension> = Vec::new();
    let mut p = i;
    while p < end
        invariant
            end <= s.len(),
            spec_ext_list(s@, i as int, end as int) == match spec_ext_list(s@, p as int, end as int) {
                Some(rest) => Some(out@.map_values(|a: Extension| a@) + rest),
                None => None::<Seq<ExtView>>,
            },
        decreases end - p,
    {
        match Extension::read(s, p, end) {
            Some((a, n)) => {
                proof {
                    assert(spec_tlv(s@, p as int, end as int) is Some);
                }
                let ghost old_out = out@.map_values(|a: Extension| a@);
                let ghost av = a@;
                out.push(a);
                proof {
                    assert(out@.map_values(|a: Extension| a@) =~= old_out.push(av));
                    match spec_ext_list(s@, n as int, end as int) {
                        Some(rest) => {
                            assert(old_out + (seq![av] + rest) =~= old_out.push(av) + rest);
                        },
                        None => {},
                    }
                }
                p = n;
            },
            None => {
                return None;
            },
        }
    }
    proof {
        assert(out@.map_values(|a: Extension| a@) + Seq::<ExtView>::empty() =~= out@.map_values(|a: Extension| a@));
    }
    Some(out)
}

impl Extensions {
    /// An empty list of extensions.
    pub fn new() -> (r: Extensions)
        ensures
            r@ == Seq::<ExtView>::empty(),
    {
        let r = Extensions { extensions: Vec::new() };
        assert(r@ =~= Seq::<ExtView>::empty());
        r
    }

    /// A list made of the given extensions.
    pub fn from_vec(extensions: Vec<Extension>) -> (r: Extensions)
        ensures
            r.extensions@ == extensions@,
    {
        Extensions { extensions }
    }

    /// Appends an extension.
    pub fn push(&mut self, extension: Extension)
        ensures
            final(self)@ == old(self)@.push(extension@),
    {
        let ghost o = self@;
        let ghost v = extension@;
        self.extensions.push(extension);
        assert(self@ =~= o.push(v));
    }

    /// The extensions, in order.
    pub fn iter(&self) -> (r: &[Extension])
        ensures
            r@ == self.extensions@,
    {
        self.extensions.as_slice()
    }

    /// The first extension whose identifier is `oid`.
    pub fn find(&self, oid: &Oid) -> (r: Option<&Extension>)
        ensures
            match spec_find_ext(self@, oid@) {
                Some(i) => r is Some && r.unwrap()@ == self@[i],
                None => r is None,
            },
    {
        let mut i: usize = 0;
        while i < self.extensions.len()
            invariant
                i <= self.extensions.len(),
                forall|j: int| 0 <= j < i ==> (#[trigger] self@[j]).extn_id != oid@,
            decreases self.extensions.len() - i,
        {
            if self.extensions[i].extn_id.same(oid) {
                proof {
                    let w = spec_find_ext(self@, oid@);
                    assert(self@[i as int].extn_id == oid@);
                    assert(w is Some);
                    let wi = w.unwrap();
                    if wi < i {
                        assert(false);
                    }
                    if wi > i {
                        assert(self@[i as int].extn_id != oid@);
                    }
                }
                return Some(&self.extensions[i]);
            }
            i = i + 1;
        }
        None
    }

    /// Whether the list is empty.
    pub fn is_empty(&self) -> (r: bool)
        ensures
            r == (self@.len() == 0),
    {
        self.extensions.len() == 0
    }

    /// The number of extensions.
    pub fn len(&self) -> (r: usize)
        ensures
            r == self@.len(),
    {
        self.extensions.len()
    }

    /// Reads a list of extensions (see `spec_exts_at`).
    pub fn read(s: &[u8], i: usize, end: usize) -> (r: Option<(Extensions, usize)>)
        requires
            end <= s.len(),
        ensures
            match r {
                Some((a, n)) => spec_exts_at(s@, i as int, end as int) == Some((a@, n as int)),
                None => spec_exts_at(s@, i as int, end as int) is None,
            },
    {
        let (t, c, e) = match read_tlv(s, i, end) {
            Some(x) => x,
            None => return None,
        };
        if t != 0x30 {
            return None;
        }
        match read_ext_list(s, c, e) {
            Some(v) => Some((Extensions { extensions: v }, e)),
            None => None,
        }
    }

    /// The DER encoding of this list of extensions.
    pub fn encode(&self) -> (r: Option<Vec<u8>>)
        ensures
            match r {
                Some(v) => spec_encode_exts(self@) == Some(v@),
                None => spec_encode_exts(self@) is None,
            },
    {
        let mut content: Vec<u8> = Vec::new();
        let mut k: usize = 0;
        while k < self.extensions.len()
            invariant
                k <= self.extensions.len(),
                spec_encode_ext_list(self@.subrange(0, k as int)) == Some(content@),
            decreases self.extensions.len() - k,
        {
            let e = match self.extensions[k].encode() {
                Some(e) => e,
                None => {
                    proof {
                        lemma_encode_ext_list_fails(self@, k as int);
                    }
                    return None;
                },
            };
            proof {
                let p = self@.subrange(0, k + 1);
                assert(p.drop_last() =~= self@.subrange(0, k as int));
                assert(p.last() == self.extensions@[k as int]@);
            }
            append(&mut content, e.as_slice());
            k = k + 1;
        }
        proof {
            assert(self@.subrange(0, k as int) =~= self@);
        }
        wrap(0x30, content.as_slice())
    }

    /// A copy of this list.
    pub fn copy(&self) -> (r: Extensions)
        ensures
            r@ == self@,
    {
        let mut out: Vec<Extension> = Vec::new();
        let mut k: usize = 0;
        while k < self.extensions.len()
            invariant
                k <= self.extensions.len(),
                out@.map_values(|a: Extension| a@) == self@.subrange(0, k as int),
            decreases self.extensions.len() - k,
        {
            let c = self.extensions[k].copy();
            let ghost old_out = out@.map_values(|a: Extension| a@);
            let ghost cv = c@;
            out.push(c);
            proof {
                assert(out@.map_values(|a: Extension| a@) =~= old_out.push(cv));
                assert(self@.subrange(0, k + 1) =~= self@.subrange(0, k as int).push(cv));
            }
            k = k + 1;
        }
        proof {
            assert(self@.subrange(0, k as int) =~= self@);
        }
        Extensions { extensions: out }
    }
}


// ---------------------------------------------------------------------------
// TBSCertificate
// ---------------------------------------------------------------------------

/// The optional context-specific field number `n` that starts at or after
/// `s[p]`: context-specific fields with a lower number are skipped, and
/// the search stops at the end, at a field that is not context-specific,
/// or at one with a higher number. Gives the field's TLV (its identifier
/// octet, where its content starts and ends) when found, and where the
/// next field starts; `None` when a byte that is not a valid identifier
/// octet, or a broken TLV, is met.
pub open spec fn spec_ctx_scan(s: Seq<u8>, p: int, e: int, n: u8) -> Option<(Option<(u8, int, int)>, int)>
    decreases e - p,
{
    if p >= e || p < 0 || e > s.len() {
        Some((None, p))
    } else if !spec_tag_ok(s[p]) {
        None
    } else if !spec_is_context(s[p]) || spec_tag_number(s[p]) > n {
        Some((None, p))
    } else {
        match spec_tlv(s, p, e) {
            None => None,
            Some((t, c2, e2)) => if spec_tag_number(t) == n {
                Some((Some((t, c2, e2)), e2))
            } else if p < e2 {
                spec_ctx_scan(s, e2, e, n)
            } else {
                None
            },
        }
    }
}

/// Finds an optional context-specific field (see `spec_ctx_scan`).
fn ctx_scan(s: &[u8], p: usize, e: usize, n: u8) -> (r: Option<(Option<(u8, usize, usize)>, usize)>)
    requires
        e <= s.len(),
    ensures
        match r {
            Some((Some((t, c, x)), q)) => spec_ctx_scan(s@, p as int, e as int, n) == Some(
                (Some((t, c as int, x as int)), q as int),
            ),
            Some((None, q)) => spec_ctx_scan(s@, p as int, e as int, n) == Some((None::<(u8, int, int)>, q as int)),
            None => spec_ctx_scan(s@, p as int, e as int, n) is None,
        },
        r matches Some((Some((_, c, x)), q)) ==> c <= x <= e && q == x,
{
    let mut q = p;
    while q < e
        invariant
            e <= s.len(),
            spec_ctx_scan(s@, p as int, e as int, n) == spec_ctx_scan(s@, q as int, e as int, n),
        decreases e - q,
    {
        let b = s[q];
        if !tag_ok(b) {
            return None;
        }
        if !(0x80 <= b && b <= 0xBF) || b % 32 > n {
            return Some((None, q));
        }
        match read_tlv(s, q, e) {
            None => return None,
            Some((t, c2, e2)) => {
                if t % 32 == n {
                    return Some((Some((t, c2, e2)), e2));
                }
                q = e2;
            },
        }
    }
    Some((None, q))
}

/// The version field at the start of a TBSCertificate's content: an
/// EXPLICIT `[0]` unsigned INTEGER; version 1 when it is absent, and also
/// when its value is not 0, 1 or 2.
pub open spec fn spec_version_field(s: Seq<u8>, c: int, e: int) -> Option<(Version, int)> {
    match spec_ctx_scan(s, c, e, 0) {
        None => None,
        Some((None, p)) => Some((Version::V1, p)),
        Some((Some((t, vc, ve)), p)) => if t != 0xA0 {
            None
        } else {
            match spec_tlv(s, vc, ve) {
                Some((it, ic, ie)) => if it == 0x02 && ie == ve {
                    match spec_uint_content(s.subrange(ic, ie)) {
                        Some(u) => Some((
                            if u.len() == 1 && u[0] <= 2 {
                                spec_version_from_value(u[0]).unwrap()
                            } else {
                                Version::V1
                            },
                            p,
                        )),
                        None => None,
                    }
                } else {
                    None
                },
                None => None,
            }
        },
    }
}

/// An optional IMPLICIT context-specific BIT STRING field number `n`
/// starting at `s[p]` (a unique identifier), and where the next field
/// starts.
pub open spec fn spec_unique_id_field(s: Seq<u8>, p: int, e: int, n: u8) -> Option<(Option<BitStringView>, int)> {
    match spec_ctx_scan(s, p, e, n) {
        None => None,
        Some((None, q)) => Some((None, q)),
        Some((Some((t, bc, be)), q)) => if t >= 0xA0 {
            None
        } else {
            match spec_bit_string_content(s.subrange(bc, be)) {
                Some(b) => Some((Some(b), q)),
                None => None,
            }
        },
    }
}

/// The optional EXPLICIT `[3]` extensions field starting at `s[p]`, and
/// where the next field starts.
pub open spec fn spec_extensions_field(s: Seq<u8>, p: int, e: int) -> Option<(Option<Seq<ExtView>>, int)> {
    match spec_ctx_scan(s, p, e, 3) {
        None => None,
        Some((None, q)) => Some((None, q)),
        Some((Some((t, xc, xe)), q)) => if t != 0xA3 {
            None
        } else {
            match spec_exts_at(s, xc, xe) {
                Some((x, n)) => if n == xe { Some((Some(x), q)) } else { None },
                None => None,
            }
        },
    }
}

/// The content of a certificate that the issuer signs.
#[derive(Debug, Clone, PartialEq, Eq)]
pub struct TBSCertificate {
    pub version: Version,
    pub serial_number_bytes: Vec<u8>,
    pub signature: AlgorithmIdentifier,
    pub issuer: crate::name::Name,
    pub validity: Validity,
    pub subject: crate::name::Name,
    pub subject_public_key_info: SubjectPublicKeyInfo,
    pub issuer_unique_id: Option<BitString>,
    pub subject_unique_id: Option<BitString>,
    pub extensions: Option<Extensions>,
}

/// The mathematical value of a TBSCertificate.
pub struct TbsView {
    pub version: Version,
    pub serial_number: Seq<u8>,
    pub signature: AlgIdView,
    pub issuer: Seq<Seq<crate::name::AtvView>>,
    pub validity: ValidityView,
    pub subject: Seq<Seq<crate::name::AtvView>>,
    pub subject_public_key_info: SpkiView,
    pub issuer_unique_id: Option<BitStringView>,
    pub subject_unique_id: Option<BitStringView>,
    pub extensions: Option<Seq<ExtView>>,
}

/// The view of an optional bit string.
pub open spec fn spec_opt_bits(b: Option<BitString>) -> Option<BitStringView> {
    match b {
        Some(x) => Some(x@),
        None => None,
    }
}

impl View for TBSCertificate {
    type V = TbsView;

    open spec fn view(&self) -> TbsView {
        TbsView {
            version: self.version,
            serial_number: self.serial_number_bytes@,
            signature: self.signature@,
            issuer: self.issuer@,
            validity: self.validity@,
            subject: self.subject@,
            subject_public_key_info: self.subject_public_key_info@,
            issuer_unique_id: spec_opt_bits(self.issuer_unique_id),
            subject_unique_id: spec_opt_bits(self.subject_unique_id),
            extensions: match self.extensions {
                Some(x) => Some(x@),
                None => None,
            },
        }
    }
}

/// The fields of a TBSCertificate from its version to its validity, and
/// where the next field starts.
pub open spec fn spec_tbs_head(s: Seq<u8>, c: int, e: int) -> Option<(Version, Seq<u8>, AlgIdView, Seq<Seq<crate::name::AtvView>>, ValidityView, int)> {
    match spec_version_field(s, c, e) {
        Some((v, p1)) => match spec_tlv(s, p1, e) {
            Some((st, sc, se)) => if st != 0x02 {
                None
            } else {
                match spec_uint_content(s.subrange(sc, se)) {
                    Some(serial) => match spec_alg_id_at(s, se, e) {
                        Some((sig, p3)) => match crate::name::spec_name_at(s, p3, e) {
                            Some((iss, p4)) => match spec_validity_at(s, p4, e) {
                                Some((val, p5)) => Some((v, serial, sig, iss, val, p5)),
                                None => None,
                            },
                            None => None,
                        },
                        None => None,
                    },
                    None => None,
                }
            },
            None => None,
        },
        None => None,
    }
}

/// The TBSCertificate whose SEQUENCE content is `s[c..e]`.
pub open spec fn spec_tbs_content(s: Seq<u8>, c: int, e: int) -> Option<TbsView> {
    match spec_tbs_head(s, c, e) {
        Some((v, serial, sig, iss, val, p5)) => match crate::name::spec_name_at(s, p5, e) {
            Some((sub, p6)) => match spec_spki_at(s, p6, e) {
                Some((spki, p7)) => match spec_unique_id_field(s, p7, e, 1) {
                    Some((iu, p8)) => match spec_unique_id_field(s, p8, e, 2) {
                        Some((su, p9)) => match spec_extensions_field(s, p9, e) {
                            Some((ex, p10)) => if p10 == e {
                                Some(TbsView {
                                    version: v,
                                    serial_number: serial,
                                    signature: sig,
                                    issuer: iss,
                                    validity: val,
                                    subject: sub,
                                    subject_public_key_info: spki,
                                    issuer_unique_id: iu,
                                    subject_unique_id: su,
                                    extensions: ex,
                                })
                            } else {
                                None
                            },
                            None => None,
                        },
                        None => None,
                    },
                    None => None,
                },
                None => None,
            },
            None => None,
        },
        None => None,
    }
}

/// The TBSCertificate encoded by the SEQUENCE TLV at `s[i]`, and where it
/// ends.
pub open spec fn spec_tbs_at(s: Seq<u8>, i: int, end: int) -> Option<(TbsView, int)> {
    match spec_tlv(s, i, end) {
        Some((t, c, e)) => if t == 0x30 {
            match spec_tbs_content(s, c, e) {
                Some(x) => Some((x, e)),
                None => None,
            }
        } else {
            None
        },
        None => None,
    }
}

/// The DER encoding of an optional unique identifier with the given tag.
pub open spec fn spec_encode_unique_id(tag: u8, b: Option<BitStringView>) -> Option<Seq<u8>> {
    match b {
        Some(x) => spec_encode_bit_string(tag, x),
        None => Some(Seq::empty()),
    }
}

/// The DER encoding of the version field (left out for version 1).
pub open spec fn spec_encode_version(v: Version) -> Option<Seq<u8>> {
    if v == Version::V1 {
        Some(Seq::empty())
    } else {
        spec_wrap_opt(0xA0, spec_wrap(0x02, spec_uint_encode(seq![spec_version_value(v)])))
    }
}

/// The DER encoding of the fields of a TBSCertificate from its version to
/// its validity.
pub open spec fn spec_encode_tbs_head(t: TbsView) -> Option<Seq<u8>> {
    spec_cat(
        spec_encode_version(t.version),
        spec_cat(
            spec_wrap(0x02, spec_uint_encode(t.serial_number)),
            spec_cat(
                spec_encode_alg_id(t.signature),
                spec_cat(crate::name::spec_encode_name(t.issuer), spec_encode_validity(t.validity)),
            ),
        ),
    )
}

/// The DER encoding of the optional extensions field.
pub open spec fn spec_encode_extensions_field(x: Option<Seq<ExtView>>) -> Option<Seq<u8>> {
    match x {
        Some(xx) => spec_wrap_opt(0xA3, spec_encode_exts(xx)),
        None => Some(Seq::empty()),
    }
}

/// The DER encoding of the fields of a TBSCertificate from its subject to
/// its extensions.
pub open spec fn spec_encode_tbs_tail(t: TbsView) -> Option<Seq<u8>> {
    spec_cat(
        crate::name::spec_encode_name(t.subject),
        spec_cat(
            spec_encode_spki(t.subject_public_key_info),
            spec_cat(
                spec_encode_unique_id(0x81, t.issuer_unique_id),
                spec_cat(
                    spec_encode_unique_id(0x82, t.subject_unique_id),
                    spec_encode_extensions_field(t.extensions),
                ),
            ),
        ),
    )
}

/// The DER encoding of a TBSCertificate's content.
pub open spec fn spec_encode_tbs_content(t: TbsView) -> Option<Seq<u8>> {
    spec_cat(spec_encode_tbs_head(t), spec_encode_tbs_tail(t))
}

/// The DER encoding of a TBSCertificate.
pub open spec fn spec_encode_tbs(t: TbsView) -> Option<Seq<u8>> {
    spec_wrap_opt(0x30, spec_encode_tbs_content(t))
}

/// Appends an encoding that may have failed; gives whether it succeeded.
fn append_opt(out: &mut Vec<u8>, part: Option<Vec<u8>>) -> (ok: bool)
    ensures
        match part {
            Some(p) => ok && final(out)@ == old(out)@ + p@,
            None => !ok,
        },
{
    match part {
        Some(p) => {
            append(out, p.as_slice());
            true
        },
        None => false,
    }
}

impl TBSCertificate {
    /// A version 3 TBSCertificate with no unique identifiers and no
    /// extensions.
    pub fn new(
        serial_number: Vec<u8>,
        signature: AlgorithmIdentifier,
        issuer: crate::name::Name,
        validity: Validity,
        subject: crate::name::Name,
        subject_public_key_info: SubjectPublicKeyInfo,
    ) -> (r: TBSCertificate)
        ensures
            r@ == (TbsView {
                version: Version::V3,
                serial_number: serial_number@,
                signature: signature@,
                issuer: issuer@,
                validity: validity@,
                subject: subject@,
                subject_public_key_info: subject_public_key_info@,
                issuer_unique_id: None,
                subject_unique_id: None,
                extensions: None,
            }),
    {
        TBSCertificate {
            version: Version::V3,
            serial_number_bytes: serial_number,
            signature,
            issuer,
            validity,
            subject,
            subject_public_key_info,
            issuer_unique_id: None,
            subject_unique_id: None,
            extensions: None,
        }
    }

    /// The serial number, as big-endian bytes.
    pub fn serial_number(&self) -> (r: &[u8])
        ensures
            r@ == self.serial_number_bytes@,
    {
        self.serial_number_bytes.as_slice()
    }

    /// This TBSCertificate with the given extensions.
    pub fn with_extensions(self, extensions: Extensions) -> (r: TBSCertificate)
        ensures
            r@ == (TbsView { extensions: Some(extensions@), ..self@ }),
    {
        let mut t = self;
        t.extensions = Some(extensions);
        t
    }

    /// Reads a TBSCertificate (see `spec_tbs_at`).
    pub fn read(s: &[u8], i: usize, end: usize) -> (r: Option<(TBSCertificate, usize)>)
        requires
            end <= s.len(),
        ensures
            match r {
                Some((a, n)) => spec_tbs_at(s@, i as int, end as int) == Some((a@, n as int)),
                None => spec_tbs_at(s@, i as int, end as int) is None,
            },
    {
        let (t, c, e) = match read_tlv(s, i, end) {
            Some(x) => x,
            None => return None,
        };
        if t != 0x30 {
            return None;
        }
        let (version, serial, signature, issuer, validity, p5) = match read_tbs_head(s, c, e) {
            Some(x) => x,
            None => return None,
        };
        let (subject, p6) = match crate::name::RDNSequence::read(s, p5, e) {
            Some(x) => x,
            None => return None,
        };
        let (spki, p7) = match SubjectPublicKeyInfo::read(s, p6, e) {
            Some(x) => x,
            None => return None,
        };
        let (iu, p8) = match read_unique_id(s, p7, e, 1) {
            Some(x) => x,
            None => return None,
        };
        let (su, p9) = match read_unique_id(s, p8, e, 2) {
            Some(x) => x,
            None => return None,
        };
        let (extensions, p10) = match read_extensions_field(s, p9, e) {
            Some(x) => x,
            None => return None,
        };
        if p10 != e {
            return None;
        }
        let r = TBSCertificate {
            version,
            serial_number_bytes: serial,
            signature,
            issuer,
            validity,
            subject,
            subject_public_key_info: spki,
            issuer_unique_id: iu,
            subject_unique_id: su,
            extensions,
        };
        Some((r, e))
    }

    /// The DER encoding of the fields from the version to the validity.
    fn encode_head(&self) -> (r: Option<Vec<u8>>)
        ensures
            match r {
                Some(v) => spec_encode_tbs_head(self@) == Some(v@),
                None => spec_encode_tbs_head(self@) is None,
            },
    {
        let ghost t = self@;
        let mut out: Vec<u8> = Vec::new();
        let v = encode_version(self.version);
        let a = wrap(0x02, uint_encode(self.serial_number_bytes.as_slice()).as_slice());
        let b = self.signature.encode();
        let c = self.issuer.encode();
        let d = self.validity.encode();
        if !append_opt(&mut out, v) { return None; }
        if !append_opt(&mut out, a) { return None; }
        if !append_opt(&mut out, b) { return None; }
        if !append_opt(&mut out, c) { return None; }
        if !append_opt(&mut out, d) { return None; }
        proof {
            let vv = spec_encode_version(t.version).unwrap();
            let av = spec_wrap(0x02, spec_uint_encode(t.serial_number)).unwrap();
            let bv = spec_encode_alg_id(t.signature).unwrap();
            let cv = crate::name::spec_encode_name(t.issuer).unwrap();
            let dv = spec_encode_validity(t.validity).unwrap();
            assert(out@ =~= vv + (av + (bv + (cv + dv))));
        }
        Some(out)
    }

    /// The DER encoding of the fields from the subject to the extensions.
    fn encode_tail(&self) -> (r: Option<Vec<u8>>)
        ensures
            match r {
                Some(v) => spec_encode_tbs_tail(self@) == Some(v@),
                None => spec_encode_tbs_tail(self@) is None,
            },
    {
        let ghost t = self@;
        let mut out: Vec<u8> = Vec::new();
        let f = self.subject.encode();
        let g = self.subject_public_key_info.encode();
        let h = encode_unique_id(0x81, &self.issuer_unique_id);
        let k = encode_unique_id(0x82, &self.subject_unique_id);
        let x = encode_extensions_field(&self.extensions);
        if !append_opt(&mut out, f) { return None; }
        if !append_opt(&mut out, g) { return None; }
        if !append_opt(&mut out, h) { return None; }
        if !append_opt(&mut out, k) { return None; }
        if !append_opt(&mut out, x) { return None; }
        proof {
            let fv = crate::name::spec_encode_name(t.subject).unwrap();
            let gv = spec_encode_spki(t.subject_public_key_info).unwrap();
            let hv = spec_encode_unique_id(0x81, t.issuer_unique_id).unwrap();
            let kv = spec_encode_unique_id(0x82, t.subject_unique_id).unwrap();
            let xv = spec_encode_extensions_field(t.extensions).unwrap();
            assert(out@ =~= fv + (gv + (hv + (kv + xv))));
        }
        Some(out)
    }

    /// The DER encoding of this TBSCertificate: the bytes the issuer signs.
    pub fn encode(&self) -> (r: Option<Vec<u8>>)
        ensures
            match r {
                Some(v) => spec_encode_tbs(self@) == Some(v@),
                None => spec_encode_tbs(self@) is None,
            },
    {
        let mut out = match self.encode_head() {
            Some(v) => v,
            None => return None,
        };
        let tail = match self.encode_tail() {
            Some(v) => v,
            None => return None,
        };
        append(&mut out, tail.as_slice());
        wrap(0x30, out.as_slice())
    }

    /// The DER encoding of this TBSCertificate.
    pub fn to_der(&self) -> (r: Result<Vec<u8>, Error>)
        ensures
            match spec_encode_tbs(self@) {
                Some(v) => r matches Ok(b) && b@ == v,
                None => r == Err::<Vec<u8>, Error>(Error::Asn1(Asn1Error::Malformed)),
            },
    {
        match self.encode() {
            Some(v) => Ok(v),
            None => Err(Error::Asn1(Asn1Error::Malformed)),
        }
    }

    /// A copy of this TBSCertificate.
    pub fn copy(&self) -> (r: TBSCertificate)
        ensures
            r@ == self@,
    {
        TBSCertificate {
            version: self.version,
            serial_number_bytes: crate::bytes::copy_bytes(self.serial_number_bytes.as_slice()),
            signature: self.signature.copy(),
            issuer: self.issuer.copy(),
            validity: self.validity.copy(),
            subject: self.subject.copy(),
            subject_public_key_info: self.subject_public_key_info.copy(),
            issuer_unique_id: match &self.issuer_unique_id {
                Some(b) => Some(b.copy()),
                None => None,
            },
            subject_unique_id: match &self.subject_unique_id {
                Some(b) => Some(b.copy()),
                None => None,
            },
            extensions: match &self.extensions {
                Some(x) => Some(x.copy()),
                None => None,
            },
        }
    }
}

/// Encodes the optional extensions field (see
/// `spec_encode_extensions_field`).
fn encode_extensions_field(x: &Option<Extensions>) -> (r: Option<Vec<u8>>)
    ensures
        ({
            let xv = match *x {
                Some(e) => Some(e@),
                None => None,
            };
            match r {
                Some(v) => spec_encode_extensions_field(xv) == Some(v@),
                None => spec_encode_extensions_field(xv) is None,
            }
        }),
{
    match x {
        Some(e) => match e.encode() {
            Some(v) => wrap(0xA3, v.as_slice()),
            None => None,
        },
        None => {
            let e: Vec<u8> = Vec::new();
            assert(e@ =~= Seq::<u8>::empty());
            Some(e)
        },
    }
}

/// Reads the version field (see `spec_version_field`).
fn read_version_field(s: &[u8], c: usize, e: usize) -> (r: Option<(Version, usize)>)
    requires
        e <= s.len(),
    ensures
        match r {
            Some((v, p)) => spec_version_field(s@, c as int, e as int) == Some((v, p as int)),
            None => spec_version_field(s@, c as int, e as int) is None,
        },
{
    let (vf, p1) = match ctx_scan(s, c, e, 0) {
        Some(x) => x,
        None => return None,
    };
    match vf {
        None => Some((Version::V1, p1)),
        Some((vt, vc, ve)) => {
            if vt != 0xA0 {
                return None;
            }
            let (it, ic, ie) = match read_tlv(s, vc, ve) {
                Some(x) => x,
                None => return None,
            };
            if it != 0x02 || ie != ve {
                return None;
            }
            let u = match uint_content(s, ic, ie) {
                Some(u) => u,
                None => return None,
            };
            if u.len() == 1 && u[0] <= 2 {
                match Version::from_value(u[0]) {
                    Ok(v) => Some((v, p1)),
                    Err(_) => Some((Version::V1, p1)),
                }
            } else {
                Some((Version::V1, p1))
            }
        },
    }
}

/// Reads the fields of a TBSCertificate from its version to its validity
/// (see `spec_tbs_head`).
fn read_tbs_head(s: &[u8], c: usize, e: usize) -> (r: Option<(Version, Vec<u8>, AlgorithmIdentifier, crate::name::Name, Validity, usize)>)
    requires
        e <= s.len(),
    ensures
        match r {
            Some((v, serial, sig, iss, val, p)) => spec_tbs_head(s@, c as int, e as int) == Some(
                (v, serial@, sig@, iss@, val@, p as int),
            ),
            None => spec_tbs_head(s@, c as int, e as int) is None,
        },
{
    let (version, p1) = match read_version_field(s, c, e) {
        Some(x) => x,
        None => return None,
    };
    let (st, sc, se) = match read_tlv(s, p1, e) {
        Some(x) => x,
        None => return None,
    };
    if st != 0x02 {
        return None;
    }
    let serial = match uint_content(s, sc, se) {
        Some(u) => u,
        None => return None,
    };
    let (signature, p3) = match AlgorithmIdentifier::read(s, se, e) {
        Some(x) => x,
        None => return None,
    };
    let (issuer, p4) = match crate::name::RDNSequence::read(s, p3, e) {
        Some(x) => x,
        None => return None,
    };
    let (validity, p5) = match Validity::read(s, p4, e) {
        Some(x) => x,
        None => return None,
    };
    Some((version, serial, signature, issuer, validity, p5))
}

/// Reads the optional extensions field (see `spec_extensions_field`).
fn read_extensions_field(s: &[u8], p: usize, e: usize) -> (r: Option<(Option<Extensions>, usize)>)
    requires
        e <= s.len(),
    ensures
        match r {
            Some((x, q)) => spec_extensions_field(s@, p as int, e as int) == Some((
                match x {
                    Some(xx) => Some(xx@),
                    None => None,
                },
                q as int,
            )),
            None => spec_extensions_field(s@, p as int, e as int) is None,
        },
{
    let (xf, q) = match ctx_scan(s, p, e, 3) {
        Some(x) => x,
        None => return None,
    };
    match xf {
        None => Some((None, q)),
        Some((xt, xc, xe)) => {
            if xt != 0xA3 {
                return None;
            }
            match Extensions::read(s, xc, xe) {
                Some((x, n)) => {
                    if n != xe {
                        return None;
                    }
                    Some((Some(x), q))
                },
                None => None,
            }
        },
    }
}

/// Reads an optional unique identifier (see `spec_unique_id_field`).
fn read_unique_id(s: &[u8], p: usize, e: usize, n: u8) -> (r: Option<(Option<BitString>, usize)>)
    requires
        e <= s.len(),
    ensures
        match r {
            Some((b, q)) => spec_unique_id_field(s@, p as int, e as int, n) == Some((spec_opt_bits(b), q as int)),
            None => spec_unique_id_field(s@, p as int, e as int, n) is None,
        },
{
    let (f, q) = match ctx_scan(s, p, e, n) {
        Some(x) => x,
        None => return None,
    };
    match f {
        None => Some((None, q)),
        Some((t, bc, be)) => {
            if t >= 0xA0 {
                return None;
            }
            match BitString::from_content(s, bc, be) {
                Some(b) => Some((Some(b), q)),
                None => None,
            }
        },
    }
}

/// Encodes the version field (see `spec_encode_version`).
fn encode_version(v: Version) -> (r: Option<Vec<u8>>)
    ensures
        match r {
            Some(x) => spec_encode_version(v) == Some(x@),
            None => spec_encode_version(v) is None,
        },
{
    if v == Version::V1 {
        let e: Vec<u8> = Vec::new();
        assert(e@ =~= Seq::<u8>::empty());
        return Some(e);
    }
    let value: Vec<u8> = vec![v.value()];
    assert(value@ =~= seq![spec_version_value(v)]);
    let inner = match wrap(0x02, uint_encode(value.as_slice()).as_slice()) {
        Some(x) => x,
        None => return None,
    };
    wrap(0xA0, inner.as_slice())
}

/// Encodes an optional unique identifier (see `spec_encode_unique_id`).
fn encode_unique_id(tag: u8, b: &Option<BitString>) -> (r: Option<Vec<u8>>)
    ensures
        match r {
            Some(x) => spec_encode_unique_id(tag, spec_opt_bits(*b)) == Some(x@),
            None => spec_encode_unique_id(tag, spec_opt_bits(*b)) is None,
        },
{
    match b {
        Some(x) => encode_bit_string(tag, x),
        None => {
            let e: Vec<u8> = Vec::new();
            assert(e@ =~= Seq::<u8>::empty());
            Some(e)
        },
    }
}


// ---------------------------------------------------------------------------
// Certificate
// ---------------------------------------------------------------------------

/// An X.509 certificate.
#[derive(Debug, Clone, PartialEq, Eq)]
pub struct Certificate {
    pub tbs_certificate: TBSCertificate,
    pub signature_algorithm: AlgorithmIdentifier,
    pub signature_value: BitString,
}

/// The mathematical value of a certificate.
pub struct CertView {
    pub tbs_certificate: TbsView,
    pub signature_algorithm: AlgIdView,
    pub signature_value: BitStringView,
}

impl View for Certificate {
    type V = CertView;

    open spec fn view(&self) -> CertView {
        CertView {
            tbs_certificate: self.tbs_certificate@,
            signature_algorithm: self.signature_algorithm@,
            signature_value: self.signature_value@,
        }
    }
}

/// The certificate encoded by the SEQUENCE TLV at `s[i]`, and where it
/// ends.
pub open spec fn spec_certificate_at(s: Seq<u8>, i: int, end: int) -> Option<(CertView, int)> {
    match spec_tlv(s, i, end) {
        Some((t, c, e)) => if t == 0x30 {
            match spec_tbs_at(s, c, e) {
                Some((tbs, p)) => match spec_alg_id_at(s, p, e) {
                    Some((a, q)) => match spec_bit_string_at(s, q, e) {
                        Some((b, r)) => if r == e {
                            Some((CertView { tbs_certificate: tbs, signature_algorithm: a, signature_value: b }, e))
                        } else {
                            None
                        },
                        None => None,
                    },
                    None => None,
                },
                None => None,
            }
        } else {
            None
        },
        None => None,
    }
}

/// The certificate that DER bytes start with, when they do (bytes after
/// it are ignored); inputs longer than `MAX_LEN` are refused.
#[verifier::opaque]
pub open spec fn spec_certificate_from_der(bytes: Seq<u8>) -> Option<CertView> {
    if bytes.len() > crate::der::MAX_LEN {
        None
    } else {
        match spec_certificate_at(bytes, 0, bytes.len() as int) {
            Some((c, _)) => Some(c),
            None => None,
        }
    }
}

/// The DER encoding of a certificate.
#[verifier::opaque]
pub open spec fn spec_encode_certificate(c: CertView) -> Option<Seq<u8>> {
    spec_wrap_opt(
        0x30,
        spec_cat(
            spec_encode_tbs(c.tbs_certificate),
            spec_cat(spec_encode_alg_id(c.signature_algorithm), spec_encode_bit_string(0x03, c.signature_value)),
        ),
    )
}

/// What `pem_rfc7468::decode_vec` gives for a PEM document: its type label
/// and its decoded content, or `None` when the document is not valid.
pub uninterp spec fn spec_pem_decode(pem: Seq<char>) -> Option<(Seq<char>, Seq<u8>)>;

/// What `pem_rfc7468::encode_string` gives for a label and content, with
/// LF line endings, or `None` when it fails.
pub uninterp spec fn spec_pem_encode(label: Seq<char>, content: Seq<u8>) -> Option<Seq<char>>;

/// Decodes a PEM document with `pem_rfc7468::decode_vec`: its label and
/// content (`spec_pem_decode` of the text), or the text of the error.
/// Which error text comes is not stated.
#[verifier::external_body]
fn pem_decode(pem: &str) -> (r: Result<(String, Vec<u8>), String>)
    ensures
        match r {
            Ok((label, bytes)) => spec_pem_decode(pem@) == Some((label@, bytes@)),
            Err(_) => spec_pem_decode(pem@) is None,
        },
{
    match pem_rfc7468::decode_vec(pem.as_bytes()) {
        Ok((label, bytes)) => Ok((label.to_string(), bytes)),
        Err(e) => Err(e.to_string()),
    }
}

/// Encodes content as a PEM document with LF line endings, with
/// `pem_rfc7468::encode_string`: the text (`spec_pem_encode` of the label
/// and content), or the text of the error. Which error text comes is not
/// stated.
#[verifier::external_body]
fn pem_encode(label: &str, content: &[u8]) -> (r: Result<String, String>)
    ensures
        match r {
            Ok(text) => spec_pem_encode(label@, content@) == Some(text@),
            Err(_) => spec_pem_encode(label@, content@) is None,
        },
{
    match pem_rfc7468::encode_string(label, pem_rfc7468::LineEnding::LF, content) {
        Ok(text) => Ok(text),
        Err(e) => Err(e.to_string()),
    }
}

impl Certificate {
    /// A certificate made of its three parts.
    pub fn new(
        tbs_certificate: TBSCertificate,
        signature_algorithm: AlgorithmIdentifier,
        signature_value: BitString,
    ) -> (r: Certificate)
        ensures
            r@ == (CertView {
                tbs_certificate: tbs_certificate@,
                signature_algorithm: signature_algorithm@,
                signature_value: signature_value@,
            }),
    {
        Certificate { tbs_certificate, signature_algorithm, signature_value }
    }

    /// Reads a certificate (see `spec_certificate_at`).
    pub fn read(s: &[u8], i: usize, end: usize) -> (r: Option<(Certificate, usize)>)
        requires
            end <= s.len(),
        ensures
            match r {
                Some((a, n)) => spec_certificate_at(s@, i as int, end as int) == Some((a@, n as int)),
                None => spec_certificate_at(s@, i as int, end as int) is None,
            },
    {
        let (t, c, e) = match read_tlv(s, i, end) {
            Some(x) => x,
            None => return None,
        };
        if t != 0x30 {
            return None;
        }
        let (tbs, p) = match TBSCertificate::read(s, c, e) {
            Some(x) => x,
            None => return None,
        };
        let (a, q) = match AlgorithmIdentifier::read(s, p, e) {
            Some(x) => x,
            None => return None,
        };
        let (b, r) = match read_bit_string(s, q, e) {
            Some(x) => x,
            None => return None,
        };
        if r != e {
            return None;
        }
        Some((Certificate { tbs_certificate: tbs, signature_algorithm: a, signature_value: b }, e))
    }

    /// Reads a certificate from DER bytes (see `spec_certificate_from_der`).
    pub fn from_der(bytes: &[u8]) -> (r: Result<Certificate, Error>)
        ensures
            match spec_certificate_from_der(bytes@) {
                Some(c) => r matches Ok(x) && x@ == c,
                None => r == Err::<Certificate, Error>(Error::Asn1(Asn1Error::Malformed)),
            },
    {
        proof {
            reveal(spec_certificate_from_der);
        }
        if bytes.len() > crate::der::MAX_LEN {
            return Err(Error::Asn1(Asn1Error::Malformed));
        }
        match Certificate::read(bytes, 0, bytes.len()) {
            Some((c, _)) => Ok(c),
            None => Err(Error::Asn1(Asn1Error::Malformed)),
        }
    }

    /// Reads a certificate from a PEM document labelled `CERTIFICATE`.
    pub fn from_pem(pem: &str) -> (r: Result<Certificate, Error>)
        ensures
            match spec_pem_decode(pem@) {
                None => r matches Err(Error::EncodingError(crate::error::EncodingError::InvalidPem(_))),
                Some((label, content)) => if label != "CERTIFICATE"@ {
                    r matches Err(Error::EncodingError(crate::error::EncodingError::InvalidPem(m))) && m@ == "Wrong PEM label"@
                } else {
                    match spec_certificate_from_der(content) {
                        Some(c) => r matches Ok(x) && x@ == c,
                        None => r == Err::<Certificate, Error>(Error::Asn1(Asn1Error::Malformed)),
                    }
                },
            },
    {
        let (label, content) = match pem_decode(pem) {
            Ok(x) => x,
            Err(m) => return Err(Error::EncodingError(crate::error::EncodingError::InvalidPem(m))),
        };
        let expected = "CERTIFICATE";
        proof {
            reveal_strlit("CERTIFICATE");
        }
        if !crate::bytes::chars_equal(label.as_str(), expected) {
            proof {
                reveal_strlit("Wrong PEM label");
            }
            return Err(Error::EncodingError(crate::error::EncodingError::InvalidPem(
                crate::error::text("Wrong PEM label"),
            )));
        }
        Certificate::from_der(content.as_slice())
    }

    /// The DER encoding of this certificate.
    pub fn encode(&self) -> (r: Option<Vec<u8>>)
        ensures
            match r {
                Some(v) => spec_encode_certificate(self@) == Some(v@),
                None => spec_encode_certificate(self@) is None,
            },
    {
        proof {
            reveal(spec_encode_certificate);
        }
        let mut out = match self.tbs_certificate.encode() {
            Some(v) => v,
            None => return None,
        };
        let a = match self.signature_algorithm.encode() {
            Some(v) => v,
            None => return None,
        };
        let b = match encode_bit_string(0x03, &self.signature_value) {
            Some(v) => v,
            None => return None,
        };
        let ghost o0 = out@;
        append(&mut out, a.as_slice());
        append(&mut out, b.as_slice());
        assert(out@ =~= o0 + (a@ + b@));
        wrap(0x30, out.as_slice())
    }

    /// The DER encoding of this certificate.
    pub fn to_der(&self) -> (r: Result<Vec<u8>, Error>)
        ensures
            match spec_encode_certificate(self@) {
                Some(v) => r matches Ok(b) && b@ == v,
                None => r == Err::<Vec<u8>, Error>(Error::Asn1(Asn1Error::Malformed)),
            },
    {
        match self.encode() {
            Some(v) => Ok(v),
            None => Err(Error::Asn1(Asn1Error::Malformed)),
        }
    }

    /// The PEM document (label `CERTIFICATE`, LF line endings) of this
    /// certificate.
    pub fn to_pem(&self) -> (r: Result<String, Error>)
        ensures
            match spec_encode_certificate(self@) {
                Some(v) => match spec_pem_encode("CERTIFICATE"@, v) {
                    Some(text) => r matches Ok(t) && t@ == text,
                    None => r matches Err(Error::EncodingError(crate::error::EncodingError::InvalidPem(_))),
                },
                None => r == Err::<String, Error>(Error::Asn1(Asn1Error::Malformed)),
            },
    {
        let der = match self.to_der() {
            Ok(d) => d,
            Err(e) => return Err(e),
        };
        match pem_encode("CERTIFICATE", der.as_slice()) {
            Ok(t) => Ok(t),
            Err(m) => Err(Error::EncodingError(crate::error::EncodingError::InvalidPem(m))),
        }
    }

    /// The DER encoding of the signed part of this certificate.
    pub fn tbs_certificate_der(&self) -> (r: Result<Vec<u8>, Error>)
        ensures
            match spec_encode_tbs(self@.tbs_certificate) {
                Some(v) => r matches Ok(b) && b@ == v,
                None => r == Err::<Vec<u8>, Error>(Error::Asn1(Asn1Error::Malformed)),
            },
    {
        self.tbs_certificate.to_der()
    }

    /// The signature octets.
    pub fn signature_bytes(&self) -> (r: &[u8])
        ensures
            r@ == self.signature_value.bytes@,
    {
        self.signature_value.raw_bytes()
    }

    /// The subject.
    pub fn subject(&self) -> (r: &crate::name::Name)
        ensures
            r == &self.tbs_certificate.subject,
    {
        &self.tbs_certificate.subject
    }

    /// The issuer.
    pub fn issuer(&self) -> (r: &crate::name::Name)
        ensures
            r == &self.tbs_certificate.issuer,
    {
        &self.tbs_certificate.issuer
    }

    /// The serial number, as big-endian bytes.
    pub fn serial_number(&self) -> (r: &[u8])
        ensures
            r@ == self.tbs_certificate.serial_number_bytes@,
    {
        self.tbs_certificate.serial_number()
    }

    /// The validity period.
    pub fn validity(&self) -> (r: &Validity)
        ensures
            r == &self.tbs_certificate.validity,
    {
        &self.tbs_certificate.validity
    }

    /// The version.
    pub fn version(&self) -> (r: Version)
        ensures
            r == self.tbs_certificate.version,
    {
        self.tbs_certificate.version
    }

    /// The extensions, when present.
    pub fn extensions(&self) -> (r: Option<&Extensions>)
        ensures
            match self.tbs_certificate.extensions {
                Some(x) => r == Some(&x),
                None => r is None,
            },
    {
        match &self.tbs_certificate.extensions {
            Some(x) => Some(x),
            None => None,
        }
    }

    /// Whether the certificate is a CA certificate by this simplified
    /// check: it answers false for every certificate; chain validation
    /// reads the basic constraints itself.
    pub fn is_ca(&self) -> (r: bool)
        ensures
            !r,
    {
        false
    }

    /// The subject's public key information.
    pub fn subject_public_key_info(&self) -> (r: &SubjectPublicKeyInfo)
        ensures
            r == &self.tbs_certificate.subject_public_key_info,
    {
        &self.tbs_certificate.subject_public_key_info
    }

    /// The signature algorithm.
    pub fn signature_algorithm(&self) -> (r: &AlgorithmIdentifier)
        ensures
            r == &self.signature_algorithm,
    {
        &self.signature_algorithm
    }

    /// A copy of this certificate.
    pub fn copy(&self) -> (r: Certificate)
        ensures
            r@ == self@,
    {
        Certificate {
            tbs_certificate: self.tbs_certificate.copy(),
            signature_algorithm: self.signature_algorithm.copy(),
            signature_value: self.signature_value.copy(),
        }
    }
}

/// The DER encoding of a certificate is never empty.
pub proof fn lemma_encode_certificate_nonempty(c: CertView)
    ensures
        spec_encode_certificate(c) matches Some(d) ==> d.len() >= 2,
{
    reveal(spec_encode_certificate);
}

} // verus!

verus! {

/// The version as text (`v1`, `v2`, `v3`).
pub open spec fn spec_version_text(v: Version) -> Seq<char> {
    match v {
        Version::V1 => "v1"@,
        Version::V2 => "v2"@,
        Version::V3 => "v3"@,
    }
}

/// A summary of a certificate, one field per line: version, serial number
/// (hexadecimal), signature algorithm (dotted identifier), issuer, validity
/// (each time as its ASN.1 string), subject, and the number of extensions
/// when it has them.
pub open spec fn spec_certificate_text(c: CertView) -> Seq<char> {
    let t = c.tbs_certificate;
    let head = "Certificate:\n  Version: "@ + spec_version_text(t.version) + "\n  Serial Number: "@
        + crate::text::spec_hex_encode(t.serial_number) + "\n  Signature Algorithm: "@
        + crate::oid::spec_oid_text(c.signature_algorithm.algorithm) + "\n  Issuer: "@
        + crate::name_strings::spec_name_text(t.issuer) + "\n  Validity:\n    Not Before: "@
        + crate::unicode::spec_byte_chars(t.validity.not_before.value) + "\n    Not After: "@
        + crate::unicode::spec_byte_chars(t.validity.not_after.value) + "\n  Subject: "@
        + crate::name_strings::spec_name_text(t.subject) + "\n"@;
    match t.extensions {
        Some(x) => head + "  Extensions: "@ + crate::text::spec_decimal(x.len()) + " extension(s)\n"@,
        None => head,
    }
}

impl Certificate {
    /// A summary of this certificate (see `spec_certificate_text`).
    pub fn to_text(&self) -> (r: String)
        ensures
            r@ == spec_certificate_text(self@),
    {
        let t = &self.tbs_certificate;
        let mut out = crate::error::text("Certificate:\n  Version: ");
        out.append(t.version.to_text().as_str());
        out.append("\n  Serial Number: ");
        out.append(crate::text::hex_encode(t.serial_number_bytes.as_slice()).as_str());
        out.append("\n  Signature Algorithm: ");
        out.append(self.signature_algorithm.algorithm.to_text().as_str());
        out.append("\n  Issuer: ");
        out.append(t.issuer.to_text().as_str());
        out.append("\n  Validity:\n    Not Before: ");
        out.append(crate::unicode::byte_chars(t.validity.not_before.value.as_slice()).as_str());
        out.append("\n    Not After: ");
        out.append(crate::unicode::byte_chars(t.validity.not_after.value.as_slice()).as_str());
        out.append("\n  Subject: ");
        out.append(t.subject.to_text().as_str());
        out.append("\n");
        match &t.extensions {
            Some(x) => {
                out.append("  Extensions: ");
                out.append(crate::text::decimal(x.len() as u64).as_str());
                out.append(" extension(s)\n");
                proof {
                    assert(x@.len() == x.extensions@.len());
                }
            },
            None => {},
        }
        out
    }
}

} // verus!
