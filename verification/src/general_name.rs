//! GeneralName and the SubjectAltName extension (RFC 5280, 4.2.1.6).
use vstd::prelude::*;
use vstd::utf8::{decode_utf8, encode_utf8, valid_utf8};
use crate::bytes::{copy_bytes, copy_range};
use crate::der::{
    append, read_length, read_oid, read_tlv, spec_cat, spec_is_context, spec_length, spec_oid_at, spec_tag_ok,
    spec_tlv, spec_wrap, spec_wrap_opt, tag_ok, wrap,
};
use crate::error::{Asn1Error, Error};
use crate::name::{spec_encode_name, spec_name_at, AtvView, Name, RDNSequence};
use crate::name_strings::spec_name_text;
use crate::oid::{spec_oid_text, Oid};
use crate::text::{decimal, hex, spec_decimal, spec_hex};
use crate::unicode::utf8_decode;

verus! {

/// A name in the SubjectAltName extension, by its context-specific tag.
#[derive(Debug, Clone, PartialEq, Eq)]
pub enum GeneralName {
    /// otherName `[0]`: its content octets.
    OtherName(Vec<u8>),
    /// rfc822Name `[1]`: an email address.
    Rfc822Name(String),
    /// dNSName `[2]`: a DNS host name.
    DnsName(String),
    /// x400Address `[3]`: its content octets.
    X400Address(Vec<u8>),
    /// directoryName `[4]`: a distinguished name.
    DirectoryName(Name),
    /// ediPartyName `[5]`: its content octets.
    EdiPartyName(Vec<u8>),
    /// uniformResourceIdentifier `[6]`: a URI.
    Uri(String),
    /// iPAddress `[7]`: 4 octets for IPv4, 16 for IPv6.
    IpAddress(Vec<u8>),
    /// registeredID `[8]`: an object identifier.
    RegisteredId(Oid),
}

/// The mathematical value of a general name.
pub enum GnView {
    OtherName(Seq<u8>),
    Rfc822Name(Seq<char>),
    DnsName(Seq<char>),
    X400Address(Seq<u8>),
    DirectoryName(Seq<Seq<AtvView>>),
    EdiPartyName(Seq<u8>),
    Uri(Seq<char>),
    IpAddress(Seq<u8>),
    RegisteredId(Seq<u8>),
}

impl View for GeneralName {
    type V = GnView;

    open spec fn view(&self) -> GnView {
        match self {
            GeneralName::OtherName(b) => GnView::OtherName(b@),
            GeneralName::Rfc822Name(s) => GnView::Rfc822Name(s@),
            GeneralName::DnsName(s) => GnView::DnsName(s@),
            GeneralName::X400Address(b) => GnView::X400Address(b@),
            GeneralName::DirectoryName(n) => GnView::DirectoryName(n@),
            GeneralName::EdiPartyName(b) => GnView::EdiPartyName(b@),
            GeneralName::Uri(s) => GnView::Uri(s@),
            GeneralName::IpAddress(b) => GnView::IpAddress(b@),
            GeneralName::RegisteredId(o) => GnView::RegisteredId(o@),
        }
    }
}

/// The context-specific tag number of a general name.
pub open spec fn spec_gn_tag_number(g: GnView) -> u8 {
    match g {
        GnView::OtherName(_) => 0,
        GnView::Rfc822Name(_) => 1,
        GnView::DnsName(_) => 2,
        GnView::X400Address(_) => 3,
        GnView::DirectoryName(_) => 4,
        GnView::EdiPartyName(_) => 5,
        GnView::Uri(_) => 6,
        GnView::IpAddress(_) => 7,
        GnView::RegisteredId(_) => 8,
    }
}

/// The identifier octet of a general name: context-specific, constructed
/// for otherName, directoryName and ediPartyName.
pub open spec fn spec_gn_tag(g: GnView) -> u8 {
    let constructed = g is OtherName || g is DirectoryName || g is EdiPartyName;
    (0x80 + (if constructed { 0x20int } else { 0int }) + spec_gn_tag_number(g)) as u8
}

/// The DER encoding of a general name: its content octets (the UTF-8 of
/// the strings; the whole encoding of a directory name or of the
/// identifier) under its tag.
#[verifier::opaque]
pub open spec fn spec_encode_gn(g: GnView) -> Option<Seq<u8>> {
    let t = spec_gn_tag(g);
    match g {
        GnView::OtherName(b) => spec_wrap(t, b),
        GnView::Rfc822Name(s) => spec_wrap(t, encode_utf8(s)),
        GnView::DnsName(s) => spec_wrap(t, encode_utf8(s)),
        GnView::X400Address(b) => spec_wrap(t, b),
        GnView::DirectoryName(n) => spec_wrap_opt(t, spec_encode_name(n)),
        GnView::EdiPartyName(b) => spec_wrap(t, b),
        GnView::Uri(s) => spec_wrap(t, encode_utf8(s)),
        GnView::IpAddress(b) => spec_wrap(t, b),
        GnView::RegisteredId(o) => spec_wrap_opt(t, spec_wrap(0x06, o)),
    }
}

/// The header that starts at `s[i]`, read no further than `end`: its
/// identifier octet, where its content starts and the content length
/// (which may run past `end`).
pub open spec fn spec_header(s: Seq<u8>, i: int, end: int) -> Option<(u8, int, int)> {
    if 0 <= i < end <= s.len() && spec_tag_ok(s[i]) {
        match spec_length(s, i + 1, end) {
            Some((len, n)) => Some((s[i], i + 1 + n, len)),
            None => None,
        }
    } else {
        None
    }
}

/// The text a general name holds, from content octets `b` that must be
/// UTF-8 (else an invalid value).
pub open spec fn spec_gn_text(b: Seq<u8>) -> core::result::Result<Seq<char>, Asn1Error> {
    if valid_utf8(b) { Ok(decode_utf8(b)) } else { Err(Asn1Error::InvalidValue) }
}

/// The general name whose header (identifier octet `t`, content at `c`
/// of length `len`) was read from `s`, the reader stopping at `end`, and
/// where reading goes on. The tag must be context-specific with a number
/// up to 8; content octets must lie before `end`; the string names must
/// be UTF-8 (else an invalid value); a directory name and a registered
/// identifier are read as a whole DER Name and OBJECT IDENTIFIER from the
/// content's start. Any other failure is malformed.
#[verifier::opaque]
pub open spec fn spec_gn_decode(s: Seq<u8>, t: u8, c: int, len: int, end: int) -> core::result::Result<
    (GnView, int),
    Asn1Error,
> {
    let n = t % 32;
    let e = c + len;
    if !spec_is_context(t) || n > 8 {
        Err(Asn1Error::Malformed)
    } else if n == 4 {
        match spec_name_at(s, c, end) {
            Some((name, q)) => Ok((GnView::DirectoryName(name), q)),
            None => Err(Asn1Error::Malformed),
        }
    } else if n == 8 {
        match spec_oid_at(s, c, end) {
            Some((o, q)) => Ok((GnView::RegisteredId(o), q)),
            None => Err(Asn1Error::Malformed),
        }
    } else if e > end {
        Err(Asn1Error::Malformed)
    } else {
        let b = s.subrange(c, e);
        if n == 0 {
            Ok((GnView::OtherName(b), e))
        } else if n == 3 {
            Ok((GnView::X400Address(b), e))
        } else if n == 5 {
            Ok((GnView::EdiPartyName(b), e))
        } else if n == 7 {
            Ok((GnView::IpAddress(b), e))
        } else {
            match spec_gn_text(b) {
                Err(x) => Err(x),
                Ok(text) => if n == 1 {
                    Ok((GnView::Rfc822Name(text), e))
                } else if n == 2 {
                    Ok((GnView::DnsName(text), e))
                } else {
                    Ok((GnView::Uri(text), e))
                },
            }
        }
    }
}

/// The general name at `s[i]`, read no further than `end`.
#[verifier::opaque]
pub open spec fn spec_gn_at(s: Seq<u8>, i: int, end: int) -> core::result::Result<(GnView, int), Asn1Error> {
    match spec_header(s, i, end) {
        Some((t, c, len)) => spec_gn_decode(s, t, c, len, end),
        None => Err(Asn1Error::Malformed),
    }
}

/// The text of an IP address: dotted decimal for four octets; for sixteen,
/// eight groups joined by `:`, each the two octets' hexadecimal digits
/// without leading zeros (so `0x20, 0x01` gives `201`).
pub open spec fn spec_ip_text(b: Seq<u8>) -> Option<Seq<char>> {
    if b.len() == 4 {
        Some(spec_decimal(b[0] as nat) + "."@ + spec_decimal(b[1] as nat) + "."@ + spec_decimal(b[2] as nat) + "."@
            + spec_decimal(b[3] as nat))
    } else if b.len() == 16 {
        Some(spec_ipv6_groups(b, 8))
    } else {
        None
    }
}

/// The first `k` groups of an IPv6 address, joined by `:`.
pub open spec fn spec_ipv6_groups(b: Seq<u8>, k: nat) -> Seq<char>
    decreases k,
{
    if k == 0 {
        Seq::empty()
    } else if k == 1 {
        spec_hex(b[0] as nat) + spec_hex(b[1] as nat)
    } else {
        spec_ipv6_groups(b, (k - 1) as nat) + ":"@ + spec_hex(b[2 * (k - 1)] as nat) + spec_hex(
            b[2 * (k - 1) + 1] as nat,
        )
    }
}

/// The text of a general name.
pub open spec fn spec_gn_to_text(g: GnView) -> Seq<char> {
    match g {
        GnView::OtherName(_) => "otherName:<unsupported>"@,
        GnView::Rfc822Name(s) => "email:"@ + s,
        GnView::DnsName(s) => "DNS:"@ + s,
        GnView::X400Address(_) => "X400:<unsupported>"@,
        GnView::DirectoryName(n) => "DirName:"@ + spec_name_text(n),
        GnView::EdiPartyName(_) => "EDI:<unsupported>"@,
        GnView::Uri(s) => "URI:"@ + s,
        GnView::IpAddress(b) => match spec_ip_text(b) {
            Some(t) => "IP:"@ + t,
            None => "IP:<invalid>"@,
        },
        GnView::RegisteredId(o) => "RegID:"@ + spec_oid_text(o),
    }
}

/// Reads a header (see `spec_header`).
fn read_header(s: &[u8], i: usize, end: usize) -> (r: Option<(u8, usize, usize)>)
    requires
        end <= s.len(),
    ensures
        match r {
            Some((t, c, len)) => spec_header(s@, i as int, end as int) == Some((t, c as int, len as int)),
            None => spec_header(s@, i as int, end as int) is None,
        },
{
    if i >= end || !tag_ok(s[i]) {
        return None;
    }
    match read_length(s, i + 1, end) {
        Some((len, n)) => Some((s[i], i + 1 + n, len)),
        None => None,
    }
}

impl GeneralName {
    /// The context-specific tag number of this name.
    fn tag_number(&self) -> (r: u8)
        ensures
            r == spec_gn_tag_number(self@),
    {
        match self {
            GeneralName::OtherName(_) => 0,
            GeneralName::Rfc822Name(_) => 1,
            GeneralName::DnsName(_) => 2,
            GeneralName::X400Address(_) => 3,
            GeneralName::DirectoryName(_) => 4,
            GeneralName::EdiPartyName(_) => 5,
            GeneralName::Uri(_) => 6,
            GeneralName::IpAddress(_) => 7,
            GeneralName::RegisteredId(_) => 8,
        }
    }

    /// The identifier octet of this name (see `spec_gn_tag`).
    pub fn tag(&self) -> (r: u8)
        ensures
            r == spec_gn_tag(self@),
    {
        let n = self.tag_number();
        match self {
            GeneralName::OtherName(_) | GeneralName::DirectoryName(_) | GeneralName::EdiPartyName(_) => 0xA0 + n,
            _ => 0x80 + n,
        }
    }

    /// Reads a general name whose header was read (see `spec_gn_decode`).
    pub fn decode_value(s: &[u8], t: u8, c: usize, len: usize, end: usize) -> (r: Result<(GeneralName, usize), Error>)
        requires
            end <= s.len(),
            c <= end,
        ensures
            match spec_gn_decode(s@, t, c as int, len as int, end as int) {
                Ok((g, q)) => r matches Ok((x, p)) && x@ == g && p == q,
                Err(e) => r == Err::<(GeneralName, usize), Error>(Error::Asn1(e)),
            },
    {
        reveal(spec_gn_decode);
        let n = t % 32;
        if !(0x80 <= t && t <= 0xBF) || n > 8 {
            return Err(Error::Asn1(Asn1Error::Malformed));
        }
        if n == 4 {
            return match RDNSequence::read(s, c, end) {
                Some((name, q)) => Ok((GeneralName::DirectoryName(name), q)),
                None => Err(Error::Asn1(Asn1Error::Malformed)),
            };
        }
        if n == 8 {
            return match read_oid(s, c, end) {
                Some((o, q)) => Ok((GeneralName::RegisteredId(o), q)),
                None => Err(Error::Asn1(Asn1Error::Malformed)),
            };
        }
        if len > end - c {
            return Err(Error::Asn1(Asn1Error::Malformed));
        }
        let e = c + len;
        let b = copy_range(s, c, e);
        if n == 0 {
            Ok((GeneralName::OtherName(b), e))
        } else if n == 3 {
            Ok((GeneralName::X400Address(b), e))
        } else if n == 5 {
            Ok((GeneralName::EdiPartyName(b), e))
        } else if n == 7 {
            Ok((GeneralName::IpAddress(b), e))
        } else {
            let text = match utf8_decode(b.as_slice()) {
                Some(x) => x,
                None => return Err(Error::Asn1(Asn1Error::InvalidValue)),
            };
            if n == 1 {
                Ok((GeneralName::Rfc822Name(text), e))
            } else if n == 2 {
                Ok((GeneralName::DnsName(text), e))
            } else {
                Ok((GeneralName::Uri(text), e))
            }
        }
    }

    /// Reads the general name at `s[i]` (see `spec_gn_at`).
    pub fn read(s: &[u8], i: usize, end: usize) -> (r: Result<(GeneralName, usize), Error>)
        requires
            end <= s.len(),
        ensures
            match spec_gn_at(s@, i as int, end as int) {
                Ok((g, q)) => r matches Ok((x, p)) && x@ == g && p == q,
                Err(e) => r == Err::<(GeneralName, usize), Error>(Error::Asn1(e)),
            },
    {
        reveal(spec_gn_at);
        match read_header(s, i, end) {
            Some((t, c, len)) => {
                assert(c <= end);
                GeneralName::decode_value(s, t, c, len, end)
            },
            None => Err(Error::Asn1(Asn1Error::Malformed)),
        }
    }

    /// The DER encoding of this name (see `spec_encode_gn`).
    pub fn encode(&self) -> (r: Option<Vec<u8>>)
        ensures
            match r {
                Some(v) => spec_encode_gn(self@) == Some(v@),
                None => spec_encode_gn(self@) is None,
            },
    {
        reveal(spec_encode_gn);
        let t = self.tag();
        match self {
            GeneralName::OtherName(b) => wrap(t, b.as_slice()),
            GeneralName::Rfc822Name(s) => wrap(t, s.as_str().as_bytes()),
            GeneralName::DnsName(s) => wrap(t, s.as_str().as_bytes()),
            GeneralName::X400Address(b) => wrap(t, b.as_slice()),
            GeneralName::DirectoryName(n) => match n.encode() {
                Some(v) => wrap(t, v.as_slice()),
                None => None,
            },
            GeneralName::EdiPartyName(b) => wrap(t, b.as_slice()),
            GeneralName::Uri(s) => wrap(t, s.as_str().as_bytes()),
            GeneralName::IpAddress(b) => wrap(t, b.as_slice()),
            GeneralName::RegisteredId(o) => match wrap(0x06, o.as_bytes()) {
                Some(v) => wrap(t, v.as_slice()),
                None => None,
            },
        }
    }

    /// The text of this name's IP address (see `spec_ip_text`); `None` for
    /// another kind of name.
    pub fn ip_address_string(&self) -> (r: Option<String>)
        ensures
            match self@ {
                GnView::IpAddress(b) => match spec_ip_text(b) {
                    Some(t) => r matches Some(x) && x@ == t,
                    None => r is None,
                },
                _ => r is None,
            },
    {
        match self {
            GeneralName::IpAddress(b) => ip_text(b.as_slice()),
            _ => None,
        }
    }

    /// The text of this name (see `spec_gn_to_text`).
    pub fn to_text(&self) -> (r: String)
        ensures
            r@ == spec_gn_to_text(self@),
    {
        proof {
            reveal_strlit("otherName:<unsupported>");
            reveal_strlit("email:");
            reveal_strlit("DNS:");
            reveal_strlit("X400:<unsupported>");
            reveal_strlit("DirName:");
            reveal_strlit("EDI:<unsupported>");
            reveal_strlit("URI:");
            reveal_strlit("IP:");
            reveal_strlit("IP:<invalid>");
            reveal_strlit("RegID:");
        }
        match self {
            GeneralName::OtherName(_) => "otherName:<unsupported>".to_owned(),
            GeneralName::Rfc822Name(s) => "email:".to_owned().concat(s.as_str()),
            GeneralName::DnsName(s) => "DNS:".to_owned().concat(s.as_str()),
            GeneralName::X400Address(_) => "X400:<unsupported>".to_owned(),
            GeneralName::DirectoryName(n) => "DirName:".to_owned().concat(n.to_text().as_str()),
            GeneralName::EdiPartyName(_) => "EDI:<unsupported>".to_owned(),
            GeneralName::Uri(s) => "URI:".to_owned().concat(s.as_str()),
            GeneralName::IpAddress(_) => match self.ip_address_string() {
                Some(t) => "IP:".to_owned().concat(t.as_str()),
                None => "IP:<invalid>".to_owned(),
            },
            GeneralName::RegisteredId(o) => "RegID:".to_owned().concat(o.to_text().as_str()),
        }
    }
}

/// The text of an IP address (see `spec_ip_text`).
fn ip_text(b: &[u8]) -> (r: Option<String>)
    ensures
        match spec_ip_text(b@) {
            Some(t) => r matches Some(x) && x@ == t,
            None => r is None,
        },
{
    proof {
        reveal_strlit(".");
        reveal_strlit(":");
    }
    if b.len() == 4 {
        let mut out = decimal(b[0] as u64);
        out.append(".");
        out.append(decimal(b[1] as u64).as_str());
        out.append(".");
        out.append(decimal(b[2] as u64).as_str());
        out.append(".");
        out.append(decimal(b[3] as u64).as_str());
        Some(out)
    } else if b.len() == 16 {
        let mut out = String::new();
        let mut k: usize = 0;
        assert(out@ =~= spec_ipv6_groups(b@, 0));
        while k < 8
            invariant
                b.len() == 16,
                k <= 8,
                out@ == spec_ipv6_groups(b@, k as nat),
            decreases 8 - k,
        {
            if k > 0 {
                out.append(":");
            }
            out.append(hex(b[2 * k] as u64).as_str());
            out.append(hex(b[2 * k + 1] as u64).as_str());
            k = k + 1;
        }
        Some(out)
    } else {
        None
    }
}

// ---------------------------------------------------------------------------
// SubjectAltName
// ---------------------------------------------------------------------------

/// The SubjectAltName extension: a sequence of general names.
#[derive(Debug, Clone, PartialEq, Eq)]
pub struct SubjectAltName {
    pub names: Vec<GeneralName>,
}

impl View for SubjectAltName {
    type V = Seq<GnView>;

    open spec fn view(&self) -> Seq<GnView> {
        self.names@.map_values(|g: GeneralName| g@)
    }
}

/// The general names read one after the other from `s[i..end]`.
pub open spec fn spec_gn_list(s: Seq<u8>, i: int, end: int) -> core::result::Result<Seq<GnView>, Asn1Error>
    decreases end - i,
{
    if i >= end {
        Ok(Seq::empty())
    } else {
        match spec_gn_at(s, i, end) {
            Ok((g, q)) => if i < q <= end {
                match spec_gn_list(s, q, end) {
                    Ok(rest) => Ok(seq![g] + rest),
                    Err(e) => Err(e),
                }
            } else {
                Err(Asn1Error::Malformed)
            },
            Err(e) => Err(e),
        }
    }
}

/// The SubjectAltName that DER bytes hold: one SEQUENCE that fills them,
/// whose content is read as general names.
pub open spec fn spec_san_from_der(b: Seq<u8>) -> core::result::Result<Seq<GnView>, Asn1Error> {
    match spec_tlv(b, 0, b.len() as int) {
        Some((t, c, e)) => if t == 0x30 && e == b.len() {
            spec_gn_list(b, c, e)
        } else {
            Err(Asn1Error::Malformed)
        },
        None => Err(Asn1Error::Malformed),
    }
}

/// The DER encodings of general names, one after the other.
pub open spec fn spec_encode_gn_list(l: Seq<GnView>) -> Option<Seq<u8>>
    decreases l.len(),
{
    if l.len() == 0 {
        Some(Seq::empty())
    } else {
        spec_cat(spec_encode_gn_list(l.drop_last()), spec_encode_gn(l.last()))
    }
}

/// The DER encoding of a SubjectAltName.
pub open spec fn spec_encode_san(l: Seq<GnView>) -> Option<Seq<u8>> {
    spec_wrap_opt(0x30, spec_encode_gn_list(l))
}

/// The DNS names among general names, in order.
pub open spec fn spec_dns_names(l: Seq<GnView>) -> Seq<Seq<char>>
    decreases l.len(),
{
    if l.len() == 0 {
        Seq::empty()
    } else {
        let rest = spec_dns_names(l.drop_last());
        match l.last() {
            GnView::DnsName(s) => rest.push(s),
            _ => rest,
        }
    }
}

/// The email addresses among general names, in order.
pub open spec fn spec_email_addresses(l: Seq<GnView>) -> Seq<Seq<char>>
    decreases l.len(),
{
    if l.len() == 0 {
        Seq::empty()
    } else {
        let rest = spec_email_addresses(l.drop_last());
        match l.last() {
            GnView::Rfc822Name(s) => rest.push(s),
            _ => rest,
        }
    }
}

/// The URIs among general names, in order.
pub open spec fn spec_uris(l: Seq<GnView>) -> Seq<Seq<char>>
    decreases l.len(),
{
    if l.len() == 0 {
        Seq::empty()
    } else {
        let rest = spec_uris(l.drop_last());
        match l.last() {
            GnView::Uri(s) => rest.push(s),
            _ => rest,
        }
    }
}

/// The IP addresses among general names, in order.
pub open spec fn spec_ip_addresses(l: Seq<GnView>) -> Seq<Seq<u8>>
    decreases l.len(),
{
    if l.len() == 0 {
        Seq::empty()
    } else {
        let rest = spec_ip_addresses(l.drop_last());
        match l.last() {
            GnView::IpAddress(b) => rest.push(b),
            _ => rest,
        }
    }
}

/// The texts of general names joined by `, `.
pub open spec fn spec_san_text(l: Seq<GnView>) -> Seq<char>
    decreases l.len(),
{
    if l.len() == 0 {
        Seq::empty()
    } else if l.len() == 1 {
        spec_gn_to_text(l[0])
    } else {
        spec_san_text(l.drop_last()) + ", "@ + spec_gn_to_text(l.last())
    }
}

/// Copies a string.
fn copy_string(s: &String) -> (r: String)
    ensures
        r@ == s@,
{
    s.as_str().to_owned()
}

impl SubjectAltName {
    /// The extension holding the given names.
    pub fn new(names: Vec<GeneralName>) -> (r: SubjectAltName)
        ensures
            r.names@ == names@,
    {
        SubjectAltName { names }
    }

    /// The DNS names, in order.
    pub fn dns_names(&self) -> (r: Vec<String>)
        ensures
            r@.map_values(|s: String| s@) == spec_dns_names(self@),
    {
        let mut out: Vec<String> = Vec::new();
        let mut k: usize = 0;
        while k < self.names.len()
            invariant
                k <= self.names.len(),
                out@.map_values(|s: String| s@) == spec_dns_names(self@.subrange(0, k as int)),
            decreases self.names.len() - k,
        {
            let ghost before = out@.map_values(|s: String| s@);
            proof {
                let p = self@.subrange(0, k + 1);
                assert(p.drop_last() =~= self@.subrange(0, k as int));
                assert(p.last() == self.names@[k as int]@);
            }
            match &self.names[k] {
                GeneralName::DnsName(s) => {
                    let c = copy_string(s);
                    out.push(c);
                    assert(out@.map_values(|s: String| s@) =~= before.push(s@));
                },
                _ => {},
            }
            k = k + 1;
        }
        assert(self@.subrange(0, k as int) =~= self@);
        out
    }

    /// The email addresses, in order.
    pub fn email_addresses(&self) -> (r: Vec<String>)
        ensures
            r@.map_values(|s: String| s@) == spec_email_addresses(self@),
    {
        let mut out: Vec<String> = Vec::new();
        let mut k: usize = 0;
        while k < self.names.len()
            invariant
                k <= self.names.len(),
                out@.map_values(|s: String| s@) == spec_email_addresses(self@.subrange(0, k as int)),
            decreases self.names.len() - k,
        {
            let ghost before = out@.map_values(|s: String| s@);
            proof {
                let p = self@.subrange(0, k + 1);
                assert(p.drop_last() =~= self@.subrange(0, k as int));
                assert(p.last() == self.names@[k as int]@);
            }
            match &self.names[k] {
                GeneralName::Rfc822Name(s) => {
                    let c = copy_string(s);
                    out.push(c);
                    assert(out@.map_values(|s: String| s@) =~= before.push(s@));
                },
                _ => {},
            }
            k = k + 1;
        }
        assert(self@.subrange(0, k as int) =~= self@);
        out
    }

    /// The URIs, in order.
    pub fn uris(&self) -> (r: Vec<String>)
        ensures
            r@.map_values(|s: String| s@) == spec_uris(self@),
    {
        let mut out: Vec<String> = Vec::new();
        let mut k: usize = 0;
        while k < self.names.len()
            invariant
                k <= self.names.len(),
                out@.map_values(|s: String| s@) == spec_uris(self@.subrange(0, k as int)),
            decreases self.names.len() - k,
        {
            let ghost before = out@.map_values(|s: String| s@);
            proof {
                let p = self@.subrange(0, k + 1);
                assert(p.drop_last() =~= self@.subrange(0, k as int));
                assert(p.last() == self.names@[k as int]@);
            }
            match &self.names[k] {
                GeneralName::Uri(s) => {
                    let c = copy_string(s);
                    out.push(c);
                    assert(out@.map_values(|s: String| s@) =~= before.push(s@));
                },
                _ => {},
            }
            k = k + 1;
        }
        assert(self@.subrange(0, k as int) =~= self@);
        out
    }

    /// The IP addresses, in order.
    pub fn ip_addresses(&self) -> (r: Vec<Vec<u8>>)
        ensures
            r@.map_values(|b: Vec<u8>| b@) == spec_ip_addresses(self@),
    {
        let mut out: Vec<Vec<u8>> = Vec::new();
        let mut k: usize = 0;
        while k < self.names.len()
            invariant
                k <= self.names.len(),
                out@.map_values(|b: Vec<u8>| b@) == spec_ip_addresses(self@.subrange(0, k as int)),
            decreases self.names.len() - k,
        {
            let ghost before = out@.map_values(|b: Vec<u8>| b@);
            proof {
                let p = self@.subrange(0, k + 1);
                assert(p.drop_last() =~= self@.subrange(0, k as int));
                assert(p.last() == self.names@[k as int]@);
            }
            match &self.names[k] {
                GeneralName::IpAddress(b) => {
                    let c = copy_bytes(b.as_slice());
                    out.push(c);
                    assert(out@.map_values(|b: Vec<u8>| b@) =~= before.push(b@));
                },
                _ => {},
            }
            k = k + 1;
        }
        assert(self@.subrange(0, k as int) =~= self@);
        out
    }

    /// The text of this extension: its names joined by `, `.
    pub fn to_text(&self) -> (r: String)
        ensures
            r@ == spec_san_text(self@),
    {
        let mut out = String::new();
        let mut k: usize = 0;
        proof {
            reveal_strlit(", ");
            assert(self@.subrange(0, 0) =~= Seq::<GnView>::empty());
        }
        while k < self.names.len()
            invariant
                k <= self.names.len(),
                out@ == spec_san_text(self@.subrange(0, k as int)),
            decreases self.names.len() - k,
        {
            let t = self.names[k].to_text();
            proof {
                let p = self@.subrange(0, k + 1);
                assert(p.drop_last() =~= self@.subrange(0, k as int));
                assert(p.last() == self.names@[k as int]@);
                if k == 0 {
                    assert(p.len() == 1);
                }
            }
            if k > 0 {
                out.append(", ");
            }
            out.append(t.as_str());
            k = k + 1;
        }
        assert(self@.subrange(0, k as int) =~= self@);
        out
    }

    /// Reads the extension from DER bytes (see `spec_san_from_der`).
    pub fn from_der(bytes: &[u8]) -> (r: Result<SubjectAltName, Error>)
        ensures
            match spec_san_from_der(bytes@) {
                Ok(l) => r matches Ok(x) && x@ == l,
                Err(e) => r == Err::<SubjectAltName, Error>(Error::Asn1(e)),
            },
    {
        let (t, c, e) = match read_tlv(bytes, 0, bytes.len()) {
            Some(x) => x,
            None => return Err(Error::Asn1(Asn1Error::Malformed)),
        };
        if t != 0x30 || e != bytes.len() {
            return Err(Error::Asn1(Asn1Error::Malformed));
        }
        let names = match read_gn_list(bytes, c, e) {
            Ok(v) => v,
            Err(x) => return Err(x),
        };
        Ok(SubjectAltName { names })
    }

    /// The DER encoding of this extension (see `spec_encode_san`).
    pub fn encode(&self) -> (r: Option<Vec<u8>>)
        ensures
            match r {
                Some(v) => spec_encode_san(self@) == Some(v@),
                None => spec_encode_san(self@) is None,
            },
    {
        let mut content: Vec<u8> = Vec::new();
        let mut k: usize = 0;
        while k < self.names.len()
            invariant
                k <= self.names.len(),
                spec_encode_gn_list(self@.subrange(0, k as int)) == Some(content@),
            decreases self.names.len() - k,
        {
            let e = match self.names[k].encode() {
                Some(e) => e,
                None => {
                    proof {
                        lemma_encode_gn_list_fails(self@, k as int);
                    }
                    return None;
                },
            };
            proof {
                let p = self@.subrange(0, k + 1);
                assert(p.drop_last() =~= self@.subrange(0, k as int));
                assert(p.last() == self.names@[k as int]@);
            }
            append(&mut content, e.as_slice());
            k = k + 1;
        }
        assert(self@.subrange(0, k as int) =~= self@);
        wrap(0x30, content.as_slice())
    }
}

/// Reads the general names of `s[i..end]` one after the other (see
/// `spec_gn_list`).
#[verifier::rlimit(40)]
fn read_gn_list(s: &[u8], i: usize, end: usize) -> (r: Result<Vec<GeneralName>, Error>)
    requires
        end <= s.len(),
        i <= end,
    ensures
        match spec_gn_list(s@, i as int, end as int) {
            Ok(l) => r matches Ok(v) && v@.map_values(|g: GeneralName| g@) == l,
            Err(x) => r == Err::<Vec<GeneralName>, Error>(Error::Asn1(x)),
        },
{
    let mut names: Vec<GeneralName> = Vec::new();
    let mut p = i;
    while p < end
        invariant
            end <= s.len(),
            i <= p <= end,
            spec_gn_list(s@, i as int, end as int) == match spec_gn_list(s@, p as int, end as int) {
                Ok(rest) => Ok(names@.map_values(|g: GeneralName| g@) + rest),
                Err(x) => Err::<Seq<GnView>, Asn1Error>(x),
            },
        decreases end - p,
    {
        match GeneralName::read(s, p, end) {
            Ok((g, q)) => {
                if q <= p || q > end {
                    return Err(Error::Asn1(Asn1Error::Malformed));
                }
                let ghost before = names@.map_values(|g: GeneralName| g@);
                let ghost gv = g@;
                names.push(g);
                proof {
                    assert(names@.map_values(|g: GeneralName| g@) =~= before.push(gv));
                    match spec_gn_list(s@, q as int, end as int) {
                        Ok(rest) => {
                            assert(before + (seq![gv] + rest) =~= before.push(gv) + rest);
                        },
                        Err(_) => {},
                    }
                }
                p = q;
            },
            Err(x) => return Err(x),
        }
    }
    proof {
        assert(names@.map_values(|g: GeneralName| g@) + Seq::<GnView>::empty() =~= names@.map_values(
            |g: GeneralName| g@,
        ));
    }
    Ok(names)
}

/// When one name fails to encode, so does the list it belongs to.
proof fn lemma_encode_gn_list_fails(l: Seq<GnView>, k: int)
    requires
        0 <= k < l.len(),
        spec_encode_gn(l[k]) is None,
    ensures
        spec_encode_gn_list(l) is None,
    decreases l.len(),
{
    if k < l.len() - 1 {
        lemma_encode_gn_list_fails(l.drop_last(), k);
    }
}

} // verus!
