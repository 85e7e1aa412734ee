//! DirectoryString (RFC 5280, 4.1.2.4): the string types of attribute
//! values in names.
use vstd::prelude::*;
use vstd::utf8::{decode_utf8, encode_utf8, valid_utf8};
use crate::bytes::copy_bytes;
use crate::error::{Asn1Error, Error};
use crate::unicode::{
    be16_units, byte_chars, spec_be16_units, spec_byte_chars, spec_utf16_decode, spec_utf32_decode,
    spec_utf8_lossy, utf16_decode, utf32_decode, utf8_decode, utf8_lossy,
};

verus! {

/// A string value of a name attribute, by its ASN.1 string type.
#[derive(Debug, Clone, PartialEq, Eq)]
pub enum DirectoryString {
    /// TeletexString (T61String), tag 20: raw bytes.
    TeletexString(Vec<u8>),
    /// PrintableString, tag 19.
    PrintableString(String),
    /// UniversalString, tag 28: UTF-32 big-endian bytes.
    UniversalString(Vec<u8>),
    /// UTF8String, tag 12.
    Utf8String(String),
    /// BMPString, tag 30: UTF-16 big-endian bytes.
    BmpString(Vec<u8>),
    /// IA5String, tag 22.
    Ia5String(String),
}

/// The mathematical value of a directory string.
pub enum DirStrView {
    TeletexString(Seq<u8>),
    PrintableString(Seq<char>),
    UniversalString(Seq<u8>),
    Utf8String(Seq<char>),
    BmpString(Seq<u8>),
    Ia5String(Seq<char>),
}

impl View for DirectoryString {
    type V = DirStrView;

    open spec fn view(&self) -> DirStrView {
        match self {
            DirectoryString::TeletexString(b) => DirStrView::TeletexString(b@),
            DirectoryString::PrintableString(s) => DirStrView::PrintableString(s@),
            DirectoryString::UniversalString(b) => DirStrView::UniversalString(b@),
            DirectoryString::Utf8String(s) => DirStrView::Utf8String(s@),
            DirectoryString::BmpString(b) => DirStrView::BmpString(b@),
            DirectoryString::Ia5String(s) => DirStrView::Ia5String(s@),
        }
    }
}

/// The text of a directory string: the string types as they are; Teletex
/// bytes as UTF-8 when they are, else with invalid sequences replaced;
/// BMP bytes as UTF-16 big-endian (an odd length is malformed, an unpaired
/// surrogate invalid); Universal bytes as UTF-32 big-endian (a length that
/// is not a multiple of four is malformed, a unit that is no Unicode
/// scalar value invalid).
pub open spec fn spec_as_str(d: DirStrView) -> core::result::Result<Seq<char>, Asn1Error> {
    match d {
        DirStrView::Utf8String(s) => Ok(s),
        DirStrView::PrintableString(s) => Ok(s),
        DirStrView::Ia5String(s) => Ok(s),
        DirStrView::TeletexString(b) => if valid_utf8(b) {
            Ok(decode_utf8(b))
        } else {
            Ok(spec_utf8_lossy(b))
        },
        DirStrView::BmpString(b) => if b.len() % 2 != 0 {
            Err(Asn1Error::Malformed)
        } else {
            match spec_utf16_decode(spec_be16_units(b)) {
                Some(s) => Ok(s),
                None => Err(Asn1Error::InvalidValue),
            }
        },
        DirStrView::UniversalString(b) => if b.len() % 4 != 0 {
            Err(Asn1Error::Malformed)
        } else {
            match spec_utf32_decode(b) {
                Some(s) => Ok(s),
                None => Err(Asn1Error::InvalidValue),
            }
        },
    }
}

/// The identifier octet a directory string is encoded with. A
/// UniversalString is written with the TeletexString tag.
pub open spec fn spec_ds_tag(d: DirStrView) -> u8 {
    match d {
        DirStrView::Utf8String(_) => 0x0C,
        DirStrView::PrintableString(_) => 0x13,
        DirStrView::Ia5String(_) => 0x16,
        DirStrView::TeletexString(_) => 0x14,
        DirStrView::BmpString(_) => 0x1E,
        DirStrView::UniversalString(_) => 0x14,
    }
}

/// The content octets of a directory string: the UTF-8 encoding of the
/// string types, the bytes of the others.
pub open spec fn spec_ds_bytes(d: DirStrView) -> Seq<u8> {
    match d {
        DirStrView::Utf8String(s) => encode_utf8(s),
        DirStrView::PrintableString(s) => encode_utf8(s),
        DirStrView::Ia5String(s) => encode_utf8(s),
        DirStrView::TeletexString(b) => b,
        DirStrView::BmpString(b) => b,
        DirStrView::UniversalString(b) => b,
    }
}

/// Whether a byte is allowed in a PrintableString: letters, digits, space
/// and `'()+,-./:=?`.
pub open spec fn spec_printable_byte(b: u8) -> bool {
    ||| 0x41 <= b <= 0x5A
    ||| 0x61 <= b <= 0x7A
    ||| 0x30 <= b <= 0x39
    ||| b == 0x20 || b == 0x27 || b == 0x28 || b == 0x29 || b == 0x2B || b == 0x2C
    ||| b == 0x2D || b == 0x2E || b == 0x2F || b == 0x3A || b == 0x3D || b == 0x3F
}

/// Whether all bytes are allowed in a PrintableString.
pub open spec fn spec_printable_bytes(b: Seq<u8>) -> bool {
    forall|i: int| 0 <= i < b.len() ==> spec_printable_byte(#[trigger] b[i])
}

/// Whether all bytes are ASCII (allowed in an IA5String).
pub open spec fn spec_ia5_bytes(b: Seq<u8>) -> bool {
    forall|i: int| 0 <= i < b.len() ==> #[trigger] b[i] <= 0x7F
}

/// The directory string with identifier octet `tag` and content `b`:
/// UTF8String must be valid UTF-8, PrintableString and IA5String must keep
/// to their characters (such a failure is an invalid value); Teletex and
/// BMP keep their bytes; any other tag is malformed here.
pub open spec fn spec_ds_decode(tag: u8, b: Seq<u8>) -> core::result::Result<DirStrView, Asn1Error> {
    if tag == 0x0C {
        if valid_utf8(b) { Ok(DirStrView::Utf8String(decode_utf8(b))) } else { Err(Asn1Error::InvalidValue) }
    } else if tag == 0x13 {
        if spec_printable_bytes(b) { Ok(DirStrView::PrintableString(spec_byte_chars(b))) } else { Err(Asn1Error::InvalidValue) }
    } else if tag == 0x16 {
        if spec_ia5_bytes(b) { Ok(DirStrView::Ia5String(spec_byte_chars(b))) } else { Err(Asn1Error::InvalidValue) }
    } else if tag == 0x14 {
        Ok(DirStrView::TeletexString(b))
    } else if tag == 0x1E {
        Ok(DirStrView::BmpString(b))
    } else {
        Err(Asn1Error::Malformed)
    }
}

/// Checks bytes for a PrintableString.
pub fn printable_bytes(b: &[u8]) -> (r: bool)
    ensures
        r == spec_printable_bytes(b@),
{
    let mut i: usize = 0;
    while i < b.len()
        invariant
            i <= b.len(),
            forall|k: int| 0 <= k < i ==> spec_printable_byte(#[trigger] b@[k]),
        decreases b.len() - i,
    {
        let c = b[i];
        let ok = (0x41 <= c && c <= 0x5A) || (0x61 <= c && c <= 0x7A) || (0x30 <= c && c <= 0x39) || c == 0x20
            || c == 0x27 || c == 0x28 || c == 0x29 || c == 0x2B || c == 0x2C || c == 0x2D || c == 0x2E || c == 0x2F
            || c == 0x3A || c == 0x3D || c == 0x3F;
        if !ok {
            assert(!spec_printable_byte(b@[i as int]));
            return false;
        }
        i = i + 1;
    }
    true
}

/// Checks bytes for an IA5String.
pub fn ia5_bytes(b: &[u8]) -> (r: bool)
    ensures
        r == spec_ia5_bytes(b@),
{
    let mut i: usize = 0;
    while i < b.len()
        invariant
            i <= b.len(),
            forall|k: int| 0 <= k < i ==> #[trigger] b@[k] <= 0x7F,
        decreases b.len() - i,
    {
        if b[i] > 0x7F {
            return false;
        }
        i = i + 1;
    }
    true
}

/// The bytes of a string (its UTF-8 encoding).
fn string_bytes(s: &String) -> (r: Vec<u8>)
    ensures
        r@ == encode_utf8(s@),
{
    copy_bytes(s.as_str().as_bytes())
}

impl DirectoryString {
    /// The text of this string (see `spec_as_str`).
    pub fn as_str(&self) -> (r: Result<String, Error>)
        ensures
            match spec_as_str(self@) {
                Ok(s) => r matches Ok(x) && x@ == s,
                Err(e) => r == Err::<String, Error>(Error::Asn1(e)),
            },
    {
        match self {
            DirectoryString::Utf8String(s) => Ok(s.as_str().to_owned()),
            DirectoryString::PrintableString(s) => Ok(s.as_str().to_owned()),
            DirectoryString::Ia5String(s) => Ok(s.as_str().to_owned()),
            DirectoryString::TeletexString(bytes) => match utf8_decode(bytes.as_slice()) {
                Some(s) => Ok(s),
                None => Ok(utf8_lossy(bytes.as_slice())),
            },
            DirectoryString::BmpString(bytes) => {
                if bytes.len() % 2 != 0 {
                    return Err(Error::Asn1(Asn1Error::Malformed));
                }
                let units = be16_units(bytes.as_slice());
                match utf16_decode(units.as_slice()) {
                    Some(s) => Ok(s),
                    None => Err(Error::Asn1(Asn1Error::InvalidValue)),
                }
            },
            DirectoryString::UniversalString(bytes) => {
                if bytes.len() % 4 != 0 {
                    return Err(Error::Asn1(Asn1Error::Malformed));
                }
                match utf32_decode(bytes.as_slice()) {
                    Some(s) => Ok(s),
                    None => Err(Error::Asn1(Asn1Error::InvalidValue)),
                }
            },
        }
    }

    /// The text shown for this string: its text, or `<invalid encoding>`.
    pub fn to_text(&self) -> (r: String)
        ensures
            r@ == match spec_as_str(self@) {
                Ok(s) => s,
                Err(_) => "<invalid encoding>"@,
            },
    {
        match self.as_str() {
            Ok(s) => s,
            Err(_) => {
                proof {
                    reveal_strlit("<invalid encoding>");
                }
                "<invalid encoding>".to_owned()
            },
        }
    }

    /// The identifier octet this string is encoded with (see `spec_ds_tag`).
    pub fn tag(&self) -> (r: u8)
        ensures
            r == spec_ds_tag(self@),
    {
        match self {
            DirectoryString::Utf8String(_) => 0x0C,
            DirectoryString::PrintableString(_) => 0x13,
            DirectoryString::Ia5String(_) => 0x16,
            DirectoryString::TeletexString(_) => 0x14,
            DirectoryString::BmpString(_) => 0x1E,
            DirectoryString::UniversalString(_) => 0x14,
        }
    }

    /// The content octets of this string (see `spec_ds_bytes`).
    pub fn value_bytes(&self) -> (r: Vec<u8>)
        ensures
            r@ == spec_ds_bytes(self@),
    {
        match self {
            DirectoryString::Utf8String(s) => string_bytes(s),
            DirectoryString::PrintableString(s) => string_bytes(s),
            DirectoryString::Ia5String(s) => string_bytes(s),
            DirectoryString::TeletexString(b) => copy_bytes(b.as_slice()),
            DirectoryString::BmpString(b) => copy_bytes(b.as_slice()),
            DirectoryString::UniversalString(b) => copy_bytes(b.as_slice()),
        }
    }

    /// Reads a directory string from its identifier octet and content (see
    /// `spec_ds_decode`).
    pub fn decode_value(tag: u8, content: &[u8]) -> (r: Result<DirectoryString, Error>)
        ensures
            match spec_ds_decode(tag, content@) {
                Ok(d) => r matches Ok(x) && x@ == d,
                Err(e) => r == Err::<DirectoryString, Error>(Error::Asn1(e)),
            },
    {
        if tag == 0x0C {
            match utf8_decode(content) {
                Some(s) => Ok(DirectoryString::Utf8String(s)),
                None => Err(Error::Asn1(Asn1Error::InvalidValue)),
            }
        } else if tag == 0x13 {
            if printable_bytes(content) {
                Ok(DirectoryString::PrintableString(byte_chars(content)))
            } else {
                Err(Error::Asn1(Asn1Error::InvalidValue))
            }
        } else if tag == 0x16 {
            if ia5_bytes(content) {
                Ok(DirectoryString::Ia5String(byte_chars(content)))
            } else {
                Err(Error::Asn1(Asn1Error::InvalidValue))
            }
        } else if tag == 0x14 {
            Ok(DirectoryString::TeletexString(copy_bytes(content)))
        } else if tag == 0x1E {
            Ok(DirectoryString::BmpString(copy_bytes(content)))
        } else {
            Err(Error::Asn1(Asn1Error::Malformed))
        }
    }
}

} // verus!
