//! The content of the extensions that validation reads: basic constraints
//! (RFC 5280, section 4.2.1.9) and extended key usage (section 4.2.1.12).
use vstd::prelude::*;
use crate::certificate::Extension;
use crate::der::{
    bool_content, read_oid, read_tlv, spec_bool_content, spec_oid_at, spec_tag_ok, spec_tlv,
    spec_uint_content, tag_ok, uint_content, MAX_LEN,
};
use crate::error::{Asn1Error, Error};
use crate::oid::Oid;

verus! {

// ---------------------------------------------------------------------------
// BasicConstraints
// ---------------------------------------------------------------------------

/// The basic constraints of a certificate: whether its subject is a CA,
/// and the greatest number of CA certificates that may follow it in a
/// chain.
#[derive(Debug, Clone, Copy, PartialEq, Eq, Structural)]
pub struct BasicConstraints {
    pub ca: bool,
    pub path_len_constraint: Option<u8>,
}

/// The optional BOOLEAN `cA` at `s[p]` (false when absent), and where the
/// next field starts.
pub open spec fn spec_ca_field(s: Seq<u8>, p: int, e: int) -> Option<(bool, int)> {
    if p < e && !spec_tag_ok(s[p]) {
        None
    } else if p < e && s[p] == 0x01 {
        match spec_tlv(s, p, e) {
            Some((_, c, x)) => match spec_bool_content(s.subrange(c, x)) {
                Some(b) => Some((b, x)),
                None => None,
            },
            None => None,
        }
    } else {
        Some((false, p))
    }
}

/// The optional INTEGER `pathLenConstraint` (0 to 255) at `s[p]`, and
/// where the next field starts.
pub open spec fn spec_path_len_field(s: Seq<u8>, p: int, e: int) -> Option<(Option<u8>, int)> {
    if p < e && !spec_tag_ok(s[p]) {
        None
    } else if p < e && s[p] == 0x02 {
        match spec_tlv(s, p, e) {
            Some((_, c, x)) => match spec_uint_content(s.subrange(c, x)) {
                Some(u) => if u.len() == 1 { Some((Some(u[0]), x)) } else { None },
                None => None,
            },
            None => None,
        }
    } else {
        Some((None, p))
    }
}

/// The basic constraints that DER bytes hold: one SEQUENCE that fills
/// them.
pub open spec fn spec_parse_basic_constraints(bytes: Seq<u8>) -> Option<BasicConstraints> {
    if bytes.len() > MAX_LEN {
        None
    } else {
        match spec_tlv(bytes, 0, bytes.len() as int) {
            Some((t, c, e)) => if t == 0x30 && e == bytes.len() {
                match spec_ca_field(bytes, c, e) {
                    Some((ca, p)) => match spec_path_len_field(bytes, p, e) {
                        Some((pl, q)) => if q == e {
                            Some(BasicConstraints { ca, path_len_constraint: pl })
                        } else {
                            None
                        },
                        None => None,
                    },
                    None => None,
                }
            } else {
                None
            },
            None => None,
        }
    }
}

impl BasicConstraints {
    /// Reads basic constraints from DER bytes (see
    /// `spec_parse_basic_constraints`).
    pub fn from_der(bytes: &[u8]) -> (r: Result<BasicConstraints, Error>)
        ensures
            match spec_parse_basic_constraints(bytes@) {
                Some(b) => r == Ok::<BasicConstraints, Error>(b),
                None => r == Err::<BasicConstraints, Error>(Error::Asn1(Asn1Error::Malformed)),
            },
    {
        let err = Err(Error::Asn1(Asn1Error::Malformed));
        if bytes.len() > MAX_LEN {
            return err;
        }
        let (t, c, e) = match read_tlv(bytes, 0, bytes.len()) {
            Some(x) => x,
            None => return err,
        };
        if t != 0x30 || e != bytes.len() {
            return err;
        }
        if c < e && !tag_ok(bytes[c]) {
            return err;
        }
        let mut ca = false;
        let mut p = c;
        if c < e && bytes[c] == 0x01 {
            let (_, bc, be) = match read_tlv(bytes, c, e) {
                Some(x) => x,
                None => return err,
            };
            match bool_content(bytes, bc, be) {
                Some(b) => {
                    ca = b;
                    p = be;
                },
                None => return err,
            }
        }
        assert(spec_ca_field(bytes@, c as int, e as int) == Some((ca, p as int)));
        if p < e && !tag_ok(bytes[p]) {
            return err;
        }
        let mut pl: Option<u8> = None;
        let mut q = p;
        if p < e && bytes[p] == 0x02 {
            let (_, ic, ie) = match read_tlv(bytes, p, e) {
                Some(x) => x,
                None => return err,
            };
            match uint_content(bytes, ic, ie) {
                Some(u) => {
                    if u.len() != 1 {
                        return err;
                    }
                    pl = Some(u[0]);
                    q = ie;
                },
                None => return err,
            }
        }
        assert(spec_path_len_field(bytes@, p as int, e as int) == Some((pl, q as int)));
        if q != e {
            return err;
        }
        Ok(BasicConstraints { ca, path_len_constraint: pl })
    }
}

// ---------------------------------------------------------------------------
// ExtendedKeyUsage
// ---------------------------------------------------------------------------

/// The purposes for which a certificate's key may be used.
#[derive(Debug, Clone, PartialEq, Eq)]
pub struct ExtendedKeyUsage {
    pub key_purposes: Vec<Oid>,
}

impl View for ExtendedKeyUsage {
    type V = Seq<Seq<u8>>;

    open spec fn view(&self) -> Seq<Seq<u8>> {
        self.key_purposes@.map_values(|o: Oid| o@)
    }
}

/// The OBJECT IDENTIFIERs encoded one after the other in `s[i..end]`.
pub open spec fn spec_oid_list(s: Seq<u8>, i: int, end: int) -> Option<Seq<Seq<u8>>>
    decreases end - i,
{
    if i >= end {
        Some(Seq::empty())
    } else {
        match spec_oid_at(s, i, end) {
            Some((a, n)) => if i < n <= end {
                match spec_oid_list(s, n, end) {
                    Some(rest) => Some(seq![a] + rest),
                    None => None,
                }
            } else {
                None
            },
            None => None,
        }
    }
}

/// The key purposes that DER bytes hold: one SEQUENCE OF OBJECT IDENTIFIER
/// that fills them.
pub open spec fn spec_parse_extended_key_usage(bytes: Seq<u8>) -> Option<Seq<Seq<u8>>> {
    if bytes.len() > MAX_LEN {
        None
    } else {
        match spec_tlv(bytes, 0, bytes.len() as int) {
            Some((t, c, e)) => if t == 0x30 && e == bytes.len() {
                spec_oid_list(bytes, c, e)
            } else {
                None
            },
            None => None,
        }
    }
}

/// Reads the OBJECT IDENTIFIERs of `s[i..end]` one after the other.
fn read_oid_list(s: &[u8], i: usize, end: usize) -> (r: Option<Vec<Oid>>)
    requires
        end <= s.len(),
    ensures
        match r {
            Some(v) => spec_oid_list(s@, i as int, end as int) == Some(v@.map_values(|o: Oid| o@)),
            None => spec_oid_list(s@, i as int, end as int) is None,
        },
{
    let mut out: Vec<Oid> = Vec::new();
    let mut p = i;
    while p < end
        invariant
            end <= s.len(),
            spec_oid_list(s@, i as int, end as int) == match spec_oid_list(s@, p as int, end as int) {
                Some(rest) => Some(out@.map_values(|o: Oid| o@) + rest),
                None => None::<Seq<Seq<u8>>>,
            },
        decreases end - p,
    {
        match read_oid(s, p, end) {
            Some((a, n)) => {
                proof {
                    assert(spec_tlv(s@, p as int, end as int) is Some);
                }
                let ghost old_out = out@.map_values(|o: Oid| o@);
                let ghost av = a@;
                out.push(a);
                proof {
                    assert(out@.map_values(|o: Oid| o@) =~= old_out.push(av));
                    match spec_oid_list(s@, n as int, end as int) {
                        Some(rest) => {
                            assert(old_out + (seq![av] + rest) =~= old_out.push(av) + rest);
                        },
                        None => {},
                    }
                }
                p = n;
            },
            None => {
                return None;
            },
        }
    }
    proof {
        assert(out@.map_values(|o: Oid| o@) + Seq::<Seq<u8>>::empty() =~= out@.map_values(|o: Oid| o@));
    }
    Some(out)
}

impl ExtendedKeyUsage {
    /// Reads key purposes from DER bytes (see `spec_parse_extended_key_usage`).
    pub fn from_der(bytes: &[u8]) -> (r: Result<ExtendedKeyUsage, Error>)
        ensures
            match spec_parse_extended_key_usage(bytes@) {
                Some(v) => r matches Ok(x) && x@ == v,
                None => r == Err::<ExtendedKeyUsage, Error>(Error::Asn1(Asn1Error::Malformed)),
            },
    {
        if bytes.len() > MAX_LEN {
            return Err(Error::Asn1(Asn1Error::Malformed));
        }
        let (t, c, e) = match read_tlv(bytes, 0, bytes.len()) {
            Some(x) => x,
            None => return Err(Error::Asn1(Asn1Error::Malformed)),
        };
        if t != 0x30 || e != bytes.len() {
            return Err(Error::Asn1(Asn1Error::Malformed));
        }
        match read_oid_list(bytes, c, e) {
            Some(v) => Ok(ExtendedKeyUsage { key_purposes: v }),
            None => Err(Error::Asn1(Asn1Error::Malformed)),
        }
    }

    /// Reads the key purposes of an extended key usage extension.
    pub fn from_extension(ext: &Extension) -> (r: Result<ExtendedKeyUsage, Error>)
        ensures
            match spec_parse_extended_key_usage(ext.extn_value@) {
                Some(v) => r matches Ok(x) && x@ == v,
                None => r == Err::<ExtendedKeyUsage, Error>(Error::Asn1(Asn1Error::Malformed)),
            },
    {
        ExtendedKeyUsage::from_der(ext.value())
    }

    /// Whether `oid` is one of the key purposes.
    pub fn contains(&self, oid: &Oid) -> (r: bool)
        ensures
            r == self@.contains(oid@),
    {
        let mut i: usize = 0;
        while i < self.key_purposes.len()
            invariant
                i <= self.key_purposes.len(),
                forall|j: int| 0 <= j < i ==> self@[j] != oid@,
            decreases self.key_purposes.len() - i,
        {
            if self.key_purposes[i].same(oid) {
                assert(self@[i as int] == oid@);
                return true;
            }
            i = i + 1;
        }
        false
    }
}

} // verus!
