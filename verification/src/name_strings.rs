//! Names as text: building attributes from strings, reading their values
//! back as strings, short attribute names, and the text of relative and
//! full distinguished names.
use vstd::prelude::*;
use vstd::utf8::{decode_utf8, encode_utf8, valid_utf8};
use crate::der::{spec_wrap, wrap, AnyValue, AnyView, MAX_LEN};
use crate::directory_string::{
    printable_bytes, spec_as_str, spec_ds_bytes, spec_ds_tag, spec_printable_bytes, DirStrView, DirectoryString,
};
use crate::error::{Asn1Error, Error};
use crate::name::{
    der_sort, lemma_sorted_unique, spec_atvs_dup, spec_atvs_in_der_order, spec_atvs_sorted,
    spec_find_attr, spec_name_at, AtvView, AttributeTypeAndValue, RDNSequence, RelativeDistinguishedName,
};
use crate::oid::{
    common_name, country_name, domain_component, email_address, given_name, locality_name, organization_name,
    organizational_unit_name, serial_number, spec_common_name, spec_country_name, spec_domain_component,
    spec_email_address, spec_given_name, spec_locality_name, spec_oid_text, spec_organization_name,
    spec_organizational_unit_name, spec_serial_number, spec_state_or_province_name, spec_street_address,
    spec_surname, spec_title, state_or_province_name, street_address, surname, title, Oid,
};
use crate::unicode::utf8_decode;

verus! {

// ---------------------------------------------------------------------------
// Attribute values
// ---------------------------------------------------------------------------

/// The attribute with type `oid` whose value is the DER encoding of a
/// directory string; `None` when that encoding would be too long.
pub open spec fn spec_atv_new(oid: Seq<u8>, d: DirStrView) -> Option<AtvView> {
    match spec_wrap(spec_ds_tag(d), spec_ds_bytes(d)) {
        Some(_) => Some(AtvView { oid, value: AnyView { tag: spec_ds_tag(d), value: spec_ds_bytes(d) } }),
        None => None,
    }
}

/// An attribute's value read as a directory string: empty content is
/// malformed; otherwise the content is taken as UTF-8 whatever its tag,
/// and content that is not UTF-8 is an invalid value.
pub open spec fn spec_atv_directory_string(a: AtvView) -> core::result::Result<DirStrView, Asn1Error> {
    let b = a.value.value;
    if b.len() == 0 {
        Err(Asn1Error::Malformed)
    } else if valid_utf8(b) {
        Ok(DirStrView::Utf8String(decode_utf8(b)))
    } else {
        Err(Asn1Error::InvalidValue)
    }
}

/// An attribute's value as text.
pub open spec fn spec_atv_value_as_str(a: AtvView) -> core::result::Result<Seq<char>, Asn1Error> {
    match spec_atv_directory_string(a) {
        Ok(d) => spec_as_str(d),
        Err(e) => Err(e),
    }
}

/// The short name of an attribute type, `OID` for one not listed.
pub open spec fn spec_attr_name(oid: Seq<u8>) -> Seq<char> {
    if oid == spec_common_name() {
        "CN"@
    } else if oid == spec_surname() {
        "SN"@
    } else if oid == spec_serial_number() {
        "SERIALNUMBER"@
    } else if oid == spec_country_name() {
        "C"@
    } else if oid == spec_locality_name() {
        "L"@
    } else if oid == spec_state_or_province_name() {
        "ST"@
    } else if oid == spec_street_address() {
        "STREET"@
    } else if oid == spec_organization_name() {
        "O"@
    } else if oid == spec_organizational_unit_name() {
        "OU"@
    } else if oid == spec_title() {
        "TITLE"@
    } else if oid == spec_given_name() {
        "GIVENNAME"@
    } else if oid == spec_domain_component() {
        "DC"@
    } else if oid == spec_email_address() {
        "emailAddress"@
    } else {
        "OID"@
    }
}

/// The text of an attribute: `name=value`, the dotted identifier in place
/// of an unlisted name, and `name=<error>` when the value is no text.
pub open spec fn spec_atv_text(a: AtvView) -> Seq<char> {
    let name = spec_attr_name(a.oid);
    match spec_atv_value_as_str(a) {
        Ok(v) => if name == "OID"@ {
            spec_oid_text(a.oid) + "="@ + v
        } else {
            name + "="@ + v
        },
        Err(_) => name + "=<error>"@,
    }
}

impl AttributeTypeAndValue {
    /// The attribute with type `oid` and a directory string value (see
    /// `spec_atv_new`); too long a value is malformed.
    pub fn new(oid: Oid, value: DirectoryString) -> (r: Result<AttributeTypeAndValue, Error>)
        ensures
            match spec_atv_new(oid@, value@) {
                Some(a) => r matches Ok(x) && x@ == a,
                None => r == Err::<AttributeTypeAndValue, Error>(Error::Asn1(Asn1Error::Malformed)),
            },
    {
        let tag = value.tag();
        let bytes = value.value_bytes();
        match wrap(tag, bytes.as_slice()) {
            Some(_) => Ok(AttributeTypeAndValue { oid, value: AnyValue { tag, value: bytes } }),
            None => Err(Error::Asn1(Asn1Error::Malformed)),
        }
    }

    /// The attribute with type `oid` and a UTF8String value.
    pub fn new_utf8(oid: Oid, value: &str) -> (r: Result<AttributeTypeAndValue, Error>)
        ensures
            match spec_atv_new(oid@, DirStrView::Utf8String(value@)) {
                Some(a) => r matches Ok(x) && x@ == a,
                None => r == Err::<AttributeTypeAndValue, Error>(Error::Asn1(Asn1Error::Malformed)),
            },
    {
        AttributeTypeAndValue::new(oid, DirectoryString::Utf8String(value.to_owned()))
    }

    /// The attribute with type `oid` and a PrintableString value; a string
    /// with a character outside PrintableString's is an invalid value.
    pub fn new_printable(oid: Oid, value: &str) -> (r: Result<AttributeTypeAndValue, Error>)
        ensures
            !spec_printable_bytes(encode_utf8(value@)) ==> r == Err::<AttributeTypeAndValue, Error>(
                Error::Asn1(Asn1Error::InvalidValue),
            ),
            spec_printable_bytes(encode_utf8(value@)) ==> match spec_atv_new(oid@, DirStrView::PrintableString(value@)) {
                Some(a) => r matches Ok(x) && x@ == a,
                None => r == Err::<AttributeTypeAndValue, Error>(Error::Asn1(Asn1Error::Malformed)),
            },
    {
        if !printable_bytes(value.as_bytes()) {
            return Err(Error::Asn1(Asn1Error::InvalidValue));
        }
        AttributeTypeAndValue::new(oid, DirectoryString::PrintableString(value.to_owned()))
    }

    /// This attribute's value as a directory string (see
    /// `spec_atv_directory_string`).
    pub fn directory_string(&self) -> (r: Result<DirectoryString, Error>)
        ensures
            match spec_atv_directory_string(self@) {
                Ok(d) => r matches Ok(x) && x@ == d,
                Err(e) => r == Err::<DirectoryString, Error>(Error::Asn1(e)),
            },
    {
        if self.value.value.len() == 0 {
            return Err(Error::Asn1(Asn1Error::Malformed));
        }
        match utf8_decode(self.value.value.as_slice()) {
            Some(s) => Ok(DirectoryString::Utf8String(s)),
            None => Err(Error::Asn1(Asn1Error::InvalidValue)),
        }
    }

    /// This attribute's value as text (see `spec_atv_value_as_str`).
    pub fn value_as_str(&self) -> (r: Result<String, Error>)
        ensures
            match spec_atv_value_as_str(self@) {
                Ok(s) => r matches Ok(x) && x@ == s,
                Err(e) => r == Err::<String, Error>(Error::Asn1(e)),
            },
    {
        match self.directory_string() {
            Ok(d) => d.as_str(),
            Err(e) => Err(e),
        }
    }

    /// The short name of this attribute's type (see `spec_attr_name`).
    pub fn attr_name(&self) -> (r: &'static str)
        ensures
            r@ == spec_attr_name(self@.oid),
    {
        proof {
            reveal_strlit("OID");
        }
        match listed_attr_name(&self.oid) {
            Some(n) => n,
            None => "OID",
        }
    }

    /// The text of this attribute (see `spec_atv_text`).
    pub fn to_text(&self) -> (r: String)
        ensures
            r@ == spec_atv_text(self@),
    {
        let listed = listed_attr_name(&self.oid);
        proof {
            reveal_strlit("OID");
            reveal_strlit("=");
            reveal_strlit("=<error>");
        }
        let mut out = match listed {
            Some(n) => n.to_owned(),
            None => "OID".to_owned(),
        };
        match self.value_as_str() {
            Ok(v) => {
                if listed.is_none() {
                    out = self.oid.to_text();
                }
                out.append("=");
                out.append(v.as_str());
                out
            },
            Err(_) => {
                out.append("=<error>");
                out
            },
        }
    }
}

/// The short name of a listed attribute type; `None` for another one.
fn listed_attr_name(o: &Oid) -> (r: Option<&'static str>)
    ensures
        match r {
            Some(n) => n@ == spec_attr_name(o@) && n@ != "OID"@,
            None => spec_attr_name(o@) == "OID"@,
        },
{
    proof {
        reveal_strlit("CN");
        reveal_strlit("SN");
        reveal_strlit("SERIALNUMBER");
        reveal_strlit("C");
        reveal_strlit("L");
        reveal_strlit("ST");
        reveal_strlit("STREET");
        reveal_strlit("O");
        reveal_strlit("OU");
        reveal_strlit("TITLE");
        reveal_strlit("GIVENNAME");
        reveal_strlit("DC");
        reveal_strlit("emailAddress");
        reveal_strlit("OID");
        assert("OID"@.len() == 3);
        assert("SERIALNUMBER"@.len() != 3);
        assert("TITLE"@.len() != 3);
        assert("GIVENNAME"@.len() != 3);
        assert("emailAddress"@.len() != 3);
        assert("STREET"@.len() != 3);
    }
    if o.same(&common_name()) {
        Some("CN")
    } else if o.same(&surname()) {
        Some("SN")
    } else if o.same(&serial_number()) {
        Some("SERIALNUMBER")
    } else if o.same(&country_name()) {
        Some("C")
    } else if o.same(&locality_name()) {
        Some("L")
    } else if o.same(&state_or_province_name()) {
        Some("ST")
    } else if o.same(&street_address()) {
        Some("STREET")
    } else if o.same(&organization_name()) {
        Some("O")
    } else if o.same(&organizational_unit_name()) {
        Some("OU")
    } else if o.same(&title()) {
        Some("TITLE")
    } else if o.same(&given_name()) {
        Some("GIVENNAME")
    } else if o.same(&domain_component()) {
        Some("DC")
    } else if o.same(&email_address()) {
        Some("emailAddress")
    } else {
        None
    }
}

// ---------------------------------------------------------------------------
// Relative distinguished names
// ---------------------------------------------------------------------------

/// The texts of attributes joined by `+`.
pub open spec fn spec_join_atv_texts(l: Seq<AtvView>) -> Seq<char>
    decreases l.len(),
{
    if l.len() == 0 {
        Seq::empty()
    } else if l.len() == 1 {
        spec_atv_text(l[0])
    } else {
        spec_join_atv_texts(l.drop_last()) + "+"@ + spec_atv_text(l.last())
    }
}

impl RelativeDistinguishedName {
    /// The relative distinguished name of one attribute.
    pub fn new(attr: AttributeTypeAndValue) -> (r: Result<RelativeDistinguishedName, Error>)
        ensures
            r matches Ok(x) && x@ == seq![attr@],
    {
        let ghost a = attr@;
        let r = RelativeDistinguishedName { attributes: vec![attr] };
        assert(r@ =~= seq![a]);
        Ok(r)
    }

    /// The relative distinguished name of several attributes, held in DER
    /// order; two attributes equal in that order are an invalid value.
    pub fn from_attributes(attrs: Vec<AttributeTypeAndValue>) -> (r: Result<RelativeDistinguishedName, Error>)
        ensures
            spec_atvs_dup(attrs@.map_values(|a: AttributeTypeAndValue| a@)) ==> r == Err::<
                RelativeDistinguishedName,
                Error,
            >(Error::Asn1(Asn1Error::InvalidValue)),
            !spec_atvs_dup(attrs@.map_values(|a: AttributeTypeAndValue| a@)) ==> (r matches Ok(x) && x@
                == spec_atvs_in_der_order(attrs@.map_values(|a: AttributeTypeAndValue| a@))),
    {
        let ghost l = attrs@.map_values(|a: AttributeTypeAndValue| a@);
        match der_sort(attrs) {
            Some(sorted) => {
                let r = RelativeDistinguishedName { attributes: sorted };
                proof {
                    let w = spec_atvs_in_der_order(l);
                    assert(spec_atvs_sorted(r@) && r@.to_set() == l.to_set());
                    assert(spec_atvs_sorted(w) && w.to_set() == l.to_set());
                    lemma_sorted_unique(r@, w);
                }
                Ok(r)
            },
            None => Err(Error::Asn1(Asn1Error::InvalidValue)),
        }
    }

    /// The first attribute, if any.
    pub fn first(&self) -> (r: Option<&AttributeTypeAndValue>)
        ensures
            self@.len() == 0 ==> r is None,
            self@.len() > 0 ==> (r matches Some(a) && a@ == self@[0]),
    {
        if self.attributes.len() == 0 {
            None
        } else {
            Some(&self.attributes[0])
        }
    }

    /// Whether this relative distinguished name has more than one attribute.
    pub fn is_multi_valued(&self) -> (r: bool)
        ensures
            r == (self@.len() > 1),
    {
        self.attributes.len() > 1
    }

    /// The text of this relative distinguished name: its attributes joined
    /// by `+`.
    pub fn to_text(&self) -> (r: String)
        ensures
            r@ == spec_join_atv_texts(self@),
    {
        let mut out = String::new();
        let mut k: usize = 0;
        proof {
            reveal_strlit("+");
            assert(self@.subrange(0, 0) =~= Seq::<AtvView>::empty());
        }
        while k < self.attributes.len()
            invariant
                k <= self.attributes.len(),
                out@ == spec_join_atv_texts(self@.subrange(0, k as int)),
            decreases self.attributes.len() - k,
        {
            let t = self.attributes[k].to_text();
            proof {
                let p = self@.subrange(0, k + 1);
                assert(p.drop_last() =~= self@.subrange(0, k as int));
                assert(p.last() == self.attributes@[k as int]@);
                if k == 0 {
                    assert(p.len() == 1);
                }
            }
            if k > 0 {
                out.append("+");
            }
            out.append(t.as_str());
            k = k + 1;
        }
        proof {
            assert(self@.subrange(0, k as int) =~= self@);
        }
        out
    }
}

// ---------------------------------------------------------------------------
// Distinguished names
// ---------------------------------------------------------------------------

/// The text of the first attribute of type `oid` in a name, when it has one
/// whose value is text.
pub open spec fn spec_attr_value(n: Seq<Seq<AtvView>>, oid: Seq<u8>) -> Option<Seq<char>> {
    match spec_find_attr(n, oid) {
        Some((i, j)) => match spec_atv_value_as_str(n[i][j]) {
            Ok(s) => Some(s),
            Err(_) => None,
        },
        None => None,
    }
}

/// The texts of relative distinguished names joined by `, `.
pub open spec fn spec_join_rdn_texts(l: Seq<Seq<AtvView>>) -> Seq<char>
    decreases l.len(),
{
    if l.len() == 0 {
        Seq::empty()
    } else if l.len() == 1 {
        spec_join_atv_texts(l[0])
    } else {
        spec_join_rdn_texts(l.drop_last()) + ", "@ + spec_join_atv_texts(l.last())
    }
}

/// The text of a distinguished name: its relative distinguished names from
/// the least significant to the most, joined by `, `.
pub open spec fn spec_name_text(n: Seq<Seq<AtvView>>) -> Seq<char> {
    spec_join_rdn_texts(n.reverse())
}

/// The distinguished name that DER bytes hold, when one TLV fills them.
pub open spec fn spec_name_from_der(b: Seq<u8>) -> Option<Seq<Seq<AtvView>>> {
    match spec_name_at(b, 0, b.len() as int) {
        Some((n, e)) => if e == b.len() { Some(n) } else { None },
        None => None,
    }
}

impl RDNSequence {
    /// The text of the first attribute of type `oid`, when there is one
    /// whose value is text.
    fn attr_value(&self, oid: &Oid) -> (r: Option<String>)
        ensures
            match spec_attr_value(self@, oid@) {
                Some(s) => r matches Some(x) && x@ == s,
                None => r is None,
            },
    {
        match self.find_attr(oid) {
            Some(a) => match a.value_as_str() {
                Ok(s) => Some(s),
                Err(_) => None,
            },
            None => None,
        }
    }

    /// The common name (CN), when there is one whose value is text.
    pub fn common_name(&self) -> (r: Option<String>)
        ensures
            match spec_attr_value(self@, spec_common_name()) {
                Some(s) => r matches Some(x) && x@ == s,
                None => r is None,
            },
    {
        self.attr_value(&common_name())
    }

    /// The organization (O), when there is one whose value is text.
    pub fn organization(&self) -> (r: Option<String>)
        ensures
            match spec_attr_value(self@, spec_organization_name()) {
                Some(s) => r matches Some(x) && x@ == s,
                None => r is None,
            },
    {
        self.attr_value(&organization_name())
    }

    /// The country (C), when there is one whose value is text.
    pub fn country(&self) -> (r: Option<String>)
        ensures
            match spec_attr_value(self@, spec_country_name()) {
                Some(s) => r matches Some(x) && x@ == s,
                None => r is None,
            },
    {
        self.attr_value(&country_name())
    }

    /// The text of this name (see `spec_name_text`).
    pub fn to_text(&self) -> (r: String)
        ensures
            r@ == spec_name_text(self@),
    {
        let ghost rev = self@.reverse();
        let n = self.rdns.len();
        let mut out = String::new();
        let mut k: usize = 0;
        proof {
            reveal_strlit(", ");
            assert(rev.subrange(0, 0) =~= Seq::<Seq<AtvView>>::empty());
        }
        while k < n
            invariant
                n == self.rdns.len(),
                rev == self@.reverse(),
                k <= n,
                out@ == spec_join_rdn_texts(rev.subrange(0, k as int)),
            decreases n - k,
        {
            let t = self.rdns[n - 1 - k].to_text();
            proof {
                let p = rev.subrange(0, k + 1);
                assert(p.drop_last() =~= rev.subrange(0, k as int));
                assert(p.last() == rev[k as int]);
                assert(rev[k as int] == self@[n - 1 - k]);
                assert(self@[n - 1 - k] == self.rdns@[n - 1 - k]@);
                if k == 0 {
                    assert(p.len() == 1);
                }
            }
            if k > 0 {
                out.append(", ");
            }
            out.append(t.as_str());
            k = k + 1;
        }
        proof {
            assert(rev.subrange(0, k as int) =~= rev);
        }
        out
    }

    /// The DER encoding of this name; too long a name is malformed.
    pub fn to_der(&self) -> (r: Result<Vec<u8>, Error>)
        ensures
            match crate::name::spec_encode_name(self@) {
                Some(v) => r matches Ok(x) && x@ == v,
                None => r == Err::<Vec<u8>, Error>(Error::Asn1(Asn1Error::Malformed)),
            },
    {
        match self.encode() {
            Some(v) => Ok(v),
            None => Err(Error::Asn1(Asn1Error::Malformed)),
        }
    }

    /// Reads a name that DER bytes hold exactly (see `spec_name_from_der`);
    /// other bytes are malformed.
    pub fn from_der(bytes: &[u8]) -> (r: Result<RDNSequence, Error>)
        ensures
            match spec_name_from_der(bytes@) {
                Some(n) => r matches Ok(x) && x@ == n,
                None => r == Err::<RDNSequence, Error>(Error::Asn1(Asn1Error::Malformed)),
            },
    {
        match RDNSequence::read(bytes, 0, bytes.len()) {
            Some((n, e)) => if e == bytes.len() {
                Ok(n)
            } else {
                Err(Error::Asn1(Asn1Error::Malformed))
            },
            None => Err(Error::Asn1(Asn1Error::Malformed)),
        }
    }
}

impl Default for RDNSequence {
    fn default() -> (r: RDNSequence)
        ensures
            r@ == Seq::<Seq<AtvView>>::empty(),
    {
        RDNSequence::new()
    }
}

} // verus!
