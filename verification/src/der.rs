//! The DER rules the certificate grammar rests on: identifier octets,
//! definite lengths, one TLV at a time, and the primitive values
//! (unsigned INTEGER, BOOLEAN, BIT STRING, OBJECT IDENTIFIER).
use vstd::prelude::*;
use crate::bytes::copy_range;

verus! {

/// The largest length a DER value (header included) may have here.
pub const MAX_LEN: usize = 0x0FFF_FFFF;

/// Whether an identifier octet names a tag that is accepted: one of the
/// universal tags in use, or an application, context-specific or private
/// tag with a low tag number (below 31).
pub open spec fn spec_tag_ok(b: u8) -> bool {
    ||| b == 0x01 || b == 0x02 || b == 0x03 || b == 0x04 || b == 0x05 || b == 0x06
    ||| b == 0x09 || b == 0x0A || b == 0x0C || b == 0x12 || b == 0x13 || b == 0x14
    ||| b == 0x15 || b == 0x16 || b == 0x17 || b == 0x18 || b == 0x1A || b == 0x1E
    ||| b == 0x30 || b == 0x31
    ||| ((0x40 <= b <= 0x7E || 0x80 <= b <= 0xBE || 0xC0 <= b <= 0xFE) && b % 32 != 31)
}

/// Whether an identifier octet is context-specific (class bits `10`).
pub open spec fn spec_is_context(b: u8) -> bool {
    0x80 <= b <= 0xBF
}

/// The tag number of an identifier octet (its low five bits).
pub open spec fn spec_tag_number(b: u8) -> u8 {
    b % 32
}

/// Checks an identifier octet.
pub fn tag_ok(b: u8) -> (r: bool)
    ensures
        r == spec_tag_ok(b),
{
    if b == 0x01 || b == 0x02 || b == 0x03 || b == 0x04 || b == 0x05 || b == 0x06 || b == 0x09
        || b == 0x0A || b == 0x0C || b == 0x12 || b == 0x13 || b == 0x14 || b == 0x15 || b == 0x16
        || b == 0x17 || b == 0x18 || b == 0x1A || b == 0x1E || b == 0x30 || b == 0x31 {
        true
    } else {
        (0x40 <= b && b <= 0x7E || 0x80 <= b && b <= 0xBE || 0xC0 <= b && b <= 0xFE) && b % 32 != 31
    }
}

/// The definite DER length whose first octet is `s[i]`, read no further
/// than `end`: the length and the number of octets that encode it.
/// Long forms use one to four octets, must be minimal, and must not
/// exceed `MAX_LEN`.
pub open spec fn spec_length(s: Seq<u8>, i: int, end: int) -> Option<(int, int)> {
    if !(0 <= i < end && end <= s.len()) {
        None
    } else {
        let b = s[i];
        if b < 0x80 {
            Some((b as int, 1))
        } else if b == 0x81 {
            if i + 1 < end && s[i + 1] >= 0x80 {
                Some((s[i + 1] as int, 2))
            } else {
                None
            }
        } else if b == 0x82 {
            if i + 2 < end {
                let v = s[i + 1] * 0x100 + s[i + 2];
                if v >= 0x100 { Some((v, 3)) } else { None }
            } else {
                None
            }
        } else if b == 0x83 {
            if i + 3 < end {
                let v = s[i + 1] * 0x10000 + s[i + 2] * 0x100 + s[i + 3];
                if v >= 0x10000 { Some((v, 4)) } else { None }
            } else {
                None
            }
        } else if b == 0x84 {
            if i + 4 < end {
                let v = s[i + 1] * 0x1000000 + s[i + 2] * 0x10000 + s[i + 3] * 0x100 + s[i + 4];
                if 0x1000000 <= v <= MAX_LEN { Some((v, 5)) } else { None }
            } else {
                None
            }
        } else {
            None
        }
    }
}

/// The TLV that starts at `s[i]` and ends no later than `end`: its tag,
/// the position where its content starts and the position where it ends.
pub open spec fn spec_tlv(s: Seq<u8>, i: int, end: int) -> Option<(u8, int, int)> {
    if 0 <= i < end <= s.len() && spec_tag_ok(s[i]) {
        match spec_length(s, i + 1, end) {
            Some((len, n)) => if i + 1 + n + len <= end {
                Some((s[i], i + 1 + n, i + 1 + n + len))
            } else {
                None
            },
            None => None,
        }
    } else {
        None
    }
}

/// Reads a length (see `spec_length`).
pub fn read_length(s: &[u8], i: usize, end: usize) -> (r: Option<(usize, usize)>)
    requires
        end <= s.len(),
    ensures
        match r {
            Some((len, n)) => spec_length(s@, i as int, end as int) == Some((len as int, n as int)),
            None => spec_length(s@, i as int, end as int) is None,
        },
{
    if i >= end {
        return None;
    }
    let b = s[i];
    if b < 0x80 {
        Some((b as usize, 1))
    } else if b == 0x81 {
        if end - i > 1 && s[i + 1] >= 0x80 {
            Some((s[i + 1] as usize, 2))
        } else {
            None
        }
    } else if b == 0x82 {
        if end - i > 2 {
            let v: usize = (s[i + 1] as usize) * 0x100 + (s[i + 2] as usize);
            if v >= 0x100 { Some((v, 3)) } else { None }
        } else {
            None
        }
    } else if b == 0x83 {
        if end - i > 3 {
            let v: usize = (s[i + 1] as usize) * 0x10000 + (s[i + 2] as usize) * 0x100 + (s[i + 3] as usize);
            if v >= 0x10000 { Some((v, 4)) } else { None }
        } else {
            None
        }
    } else if b == 0x84 {
        if end - i > 4 {
            let hi: u64 = s[i + 1] as u64;
            let v: u64 = hi * 0x1000000 + (s[i + 2] as u64) * 0x10000 + (s[i + 3] as u64) * 0x100 + (s[i + 4] as u64);
            if 0x1000000 <= v && v <= 0x0FFF_FFFF { Some((v as usize, 5)) } else { None }
        } else {
            None
        }
    } else {
        None
    }
}

/// Reads one TLV (see `spec_tlv`).
pub fn read_tlv(s: &[u8], i: usize, end: usize) -> (r: Option<(u8, usize, usize)>)
    requires
        end <= s.len(),
    ensures
        match r {
            Some((t, c, e)) => spec_tlv(s@, i as int, end as int) == Some((t, c as int, e as int)),
            None => spec_tlv(s@, i as int, end as int) is None,
        },
{
    if i >= end || !tag_ok(s[i]) {
        return None;
    }
    match read_length(s, i + 1, end) {
        Some((len, n)) => {
            let c = i + 1 + n;
            if len <= end - c {
                Some((s[i], c, c + len))
            } else {
                None
            }
        },
        None => None,
    }
}

// ---------------------------------------------------------------------------
// Encoding
// ---------------------------------------------------------------------------

/// The DER encoding of a length.
pub open spec fn spec_encode_length(len: nat) -> Seq<u8> {
    if len < 0x80 {
        seq![len as u8]
    } else if len < 0x100 {
        seq![0x81u8, len as u8]
    } else if len < 0x10000 {
        seq![0x82u8, (len / 0x100) as u8, (len % 0x100) as u8]
    } else if len < 0x1000000 {
        seq![0x83u8, (len / 0x10000) as u8, ((len / 0x100) % 0x100) as u8, (len % 0x100) as u8]
    } else {
        seq![
            0x84u8,
            (len / 0x1000000) as u8,
            ((len / 0x10000) % 0x100) as u8,
            ((len / 0x100) % 0x100) as u8,
            (len % 0x100) as u8,
        ]
    }
}

/// A TLV with the given tag around the given content: `None` when the
/// whole would be longer than `MAX_LEN`.
pub open spec fn spec_wrap(tag: u8, content: Seq<u8>) -> Option<Seq<u8>> {
    let out = seq![tag] + spec_encode_length(content.len()) + content;
    if out.len() <= MAX_LEN { Some(out) } else { None }
}

/// `spec_wrap` over a content that may itself have failed to encode.
pub open spec fn spec_wrap_opt(tag: u8, content: Option<Seq<u8>>) -> Option<Seq<u8>> {
    match content {
        Some(c) => spec_wrap(tag, c),
        None => None,
    }
}

/// Concatenation of two encodings that may have failed.
pub open spec fn spec_cat(a: Option<Seq<u8>>, b: Option<Seq<u8>>) -> Option<Seq<u8>> {
    match (a, b) {
        (Some(x), Some(y)) => Some(x + y),
        _ => None,
    }
}

/// Appends the DER encoding of a length.
pub fn push_length(out: &mut Vec<u8>, len: usize)
    requires
        len <= MAX_LEN,
    ensures
        final(out)@ == old(out)@ + spec_encode_length(len as nat),
{
    let ghost l = len as nat;
    if len < 0x80 {
        out.push(len as u8);
    } else if len < 0x100 {
        out.push(0x81);
        out.push(len as u8);
    } else if len < 0x10000 {
        out.push(0x82);
        out.push((len / 0x100) as u8);
        out.push((len % 0x100) as u8);
    } else if len < 0x1000000 {
        out.push(0x83);
        out.push((len / 0x10000) as u8);
        out.push(((len / 0x100) % 0x100) as u8);
        out.push((len % 0x100) as u8);
    } else {
        let v: u64 = len as u64;
        out.push(0x84);
        out.push(((v / 0x1000000) % 0x100) as u8);
        out.push(((v / 0x10000) % 0x100) as u8);
        out.push(((v / 0x100) % 0x100) as u8);
        out.push((v % 0x100) as u8);
        proof {
            assert((v / 0x1000000) % 0x100 == l / 0x1000000);
        }
    }
    assert(final(out)@ =~= old(out)@ + spec_encode_length(len as nat)) by {
        assert(spec_encode_length(len as nat) == spec_encode_length(l));
    }
}

/// The number of octets of the DER encoding of a length.
pub fn length_octets(len: usize) -> (r: usize)
    ensures
        r == spec_encode_length(len as nat).len(),
        1 <= r <= 5,
{
    if len < 0x80 {
        1
    } else if len < 0x100 {
        2
    } else if len < 0x10000 {
        3
    } else if len < 0x1000000 {
        4
    } else {
        5
    }
}

/// Encodes a TLV (see `spec_wrap`).
pub fn wrap(tag: u8, content: &[u8]) -> (r: Option<Vec<u8>>)
    ensures
        match r {
            Some(v) => spec_wrap(tag, content@) == Some(v@),
            None => spec_wrap(tag, content@) is None,
        },
{
    let n = length_octets(content.len());
    if content.len() > MAX_LEN - 1 - n {
        return None;
    }
    let mut out: Vec<u8> = Vec::new();
    out.push(tag);
    push_length(&mut out, content.len());
    let mut i: usize = 0;
    let ghost head = out@;
    while i < content.len()
        invariant
            i <= content.len(),
            out@ == head + content@.subrange(0, i as int),
        decreases content.len() - i,
    {
        out.push(content[i]);
        proof {
            assert(content@.subrange(0, i + 1) =~= content@.subrange(0, i as int).push(content@[i as int]));
        }
        i = i + 1;
    }
    proof {
        assert(content@.subrange(0, content.len() as int) =~= content@);
        assert(head =~= seq![tag] + spec_encode_length(content.len() as nat));
    }
    Some(out)
}

/// Appends `b` to `out`.
pub fn append(out: &mut Vec<u8>, b: &[u8])
    ensures
        final(out)@ == old(out)@ + b@,
{
    let mut i: usize = 0;
    let ghost head = out@;
    while i < b.len()
        invariant
            i <= b.len(),
            out@ == head + b@.subrange(0, i as int),
        decreases b.len() - i,
    {
        out.push(b[i]);
        proof {
            assert(b@.subrange(0, i + 1) =~= b@.subrange(0, i as int).push(b@[i as int]));
        }
        i = i + 1;
    }
    proof {
        assert(b@.subrange(0, b.len() as int) =~= b@);
    }
}

/// Reading back the encoding of a TLV gives its tag and content: the
/// content starts right after the header and runs to the end.
pub proof fn lemma_wrap_reads_back(tag: u8, content: Seq<u8>)
    requires
        spec_tag_ok(tag),
        spec_wrap(tag, content) is Some,
    ensures
        ({
            let out = spec_wrap(tag, content).unwrap();
            let h = (1 + spec_encode_length(content.len()).len()) as int;
            &&& spec_tlv(out, 0, out.len() as int) == Some((tag, h, out.len() as int))
            &&& out.subrange(h, out.len() as int) == content
        }),
{
    let out = spec_wrap(tag, content).unwrap();
    let l = content.len();
    let enc = spec_encode_length(l);
    let h = (1 + enc.len()) as int;
    assert(out == seq![tag] + enc + content);
    assert(out.len() == h + l);
    assert(out[0] == tag);
    assert forall|k: int| 0 <= k < enc.len() implies out[1 + k] == enc[k] by {
        assert(out[1 + k] == (seq![tag] + enc)[1 + k]);
    }
    if l < 0x80 {
        assert(spec_length(out, 1, out.len() as int) == Some((l as int, 1int)));
    } else if l < 0x100 {
        assert(out[2] == l as u8);
        assert(spec_length(out, 1, out.len() as int) == Some((l as int, 2int)));
    } else if l < 0x10000 {
        assert(out[2] == (l / 0x100) as u8);
        assert(out[3] == (l % 0x100) as u8);
        assert((l / 0x100) * 0x100 + l % 0x100 == l);
        assert(spec_length(out, 1, out.len() as int) == Some((l as int, 3int)));
    } else if l < 0x1000000 {
        assert(out[2] == (l / 0x10000) as u8);
        assert(out[3] == ((l / 0x100) % 0x100) as u8);
        assert(out[4] == (l % 0x100) as u8);
        assert((l / 0x10000) * 0x10000 + ((l / 0x100) % 0x100) * 0x100 + l % 0x100 == l) by {
            assert((l / 0x100) == (l / 0x10000) * 0x100 + (l / 0x100) % 0x100);
        }
        assert(spec_length(out, 1, out.len() as int) == Some((l as int, 4int)));
    } else {
        assert(l <= MAX_LEN);
        assert(out[2] == (l / 0x1000000) as u8);
        assert(out[3] == ((l / 0x10000) % 0x100) as u8);
        assert(out[4] == ((l / 0x100) % 0x100) as u8);
        assert(out[5] == (l % 0x100) as u8);
        assert((l / 0x1000000) * 0x1000000 + ((l / 0x10000) % 0x100) * 0x10000
            + ((l / 0x100) % 0x100) * 0x100 + l % 0x100 == l) by {
            assert((l / 0x100) == (l / 0x10000) * 0x100 + (l / 0x100) % 0x100);
            assert((l / 0x10000) == (l / 0x1000000) * 0x100 + (l / 0x10000) % 0x100);
        }
        assert(spec_length(out, 1, out.len() as int) == Some((l as int, 5int)));
    }
    assert(out.subrange(h, out.len() as int) =~= content);
}

// ---------------------------------------------------------------------------
// Primitive values
// ---------------------------------------------------------------------------

/// The unsigned INTEGER held by DER content octets, as big-endian bytes
/// without the sign octet: `None` when the content is empty, not minimal,
/// or negative.
pub open spec fn spec_uint_content(c: Seq<u8>) -> Option<Seq<u8>> {
    if c.len() == 0 {
        None
    } else if c.len() == 1 && c[0] == 0 {
        Some(c)
    } else if c[0] == 0 {
        if c[1] < 0x80 { None } else { Some(c.drop_first()) }
    } else if c[0] >= 0x80 {
        None
    } else {
        Some(c)
    }
}

/// Decodes unsigned INTEGER content (see `spec_uint_content`).
pub fn uint_content(s: &[u8], c: usize, e: usize) -> (r: Option<Vec<u8>>)
    requires
        c <= e <= s.len(),
    ensures
        match r {
            Some(v) => spec_uint_content(s@.subrange(c as int, e as int)) == Some(v@),
            None => spec_uint_content(s@.subrange(c as int, e as int)) is None,
        },
{
    let ghost cs = s@.subrange(c as int, e as int);
    if c == e {
        return None;
    }
    if e - c == 1 && s[c] == 0 {
        return Some(copy_range(s, c, e));
    }
    if s[c] == 0 {
        if s[c + 1] < 0x80 {
            None
        } else {
            let v = copy_range(s, c + 1, e);
            assert(v@ =~= cs.drop_first());
            Some(v)
        }
    } else if s[c] >= 0x80 {
        None
    } else {
        Some(copy_range(s, c, e))
    }
}

/// `bytes` without its leading zero octets, keeping at least one octet.
pub open spec fn spec_strip_zeros(bytes: Seq<u8>) -> Seq<u8>
    decreases bytes.len(),
{
    if bytes.len() > 1 && bytes[0] == 0 {
        spec_strip_zeros(bytes.drop_first())
    } else {
        bytes
    }
}

/// The DER content octets of an unsigned INTEGER given by big-endian
/// bytes: leading zeros dropped, and a zero octet put first when the
/// highest bit is set.
pub open spec fn spec_uint_encode(bytes: Seq<u8>) -> Seq<u8> {
    let b = spec_strip_zeros(bytes);
    if b.len() > 0 && b[0] >= 0x80 { seq![0u8] + b } else { b }
}

/// Encodes unsigned INTEGER content (see `spec_uint_encode`).
pub fn uint_encode(bytes: &[u8]) -> (r: Vec<u8>)
    ensures
        r@ == spec_uint_encode(bytes@),
{
    let mut i: usize = 0;
    assert(bytes@.subrange(0, bytes.len() as int) =~= bytes@);
    while i + 1 < bytes.len() && bytes[i] == 0
        invariant
            i <= bytes.len(),
            i + 1 <= bytes.len() || i == 0,
            spec_strip_zeros(bytes@) == spec_strip_zeros(bytes@.subrange(i as int, bytes.len() as int)),
        decreases bytes.len() - i,
    {
        proof {
            let t = bytes@.subrange(i as int, bytes.len() as int);
            assert(t.drop_first() =~= bytes@.subrange(i + 1, bytes.len() as int));
        }
        i = i + 1;
    }
    let ghost t = bytes@.subrange(i as int, bytes.len() as int);
    assert(spec_strip_zeros(t) == t);
    let mut out: Vec<u8> = Vec::new();
    if i < bytes.len() && bytes[i] >= 0x80 {
        out.push(0);
    }
    let rest = copy_range(bytes, i, bytes.len());
    append(&mut out, rest.as_slice());
    assert(out@ =~= spec_uint_encode(bytes@));
    out
}

/// The BOOLEAN held by DER content octets.
pub open spec fn spec_bool_content(c: Seq<u8>) -> Option<bool> {
    if c.len() != 1 {
        None
    } else if c[0] == 0x00 {
        Some(false)
    } else if c[0] == 0xFF {
        Some(true)
    } else {
        None
    }
}

/// Decodes BOOLEAN content (see `spec_bool_content`).
pub fn bool_content(s: &[u8], c: usize, e: usize) -> (r: Option<bool>)
    requires
        c <= e <= s.len(),
    ensures
        r == spec_bool_content(s@.subrange(c as int, e as int)),
{
    if e - c != 1 {
        None
    } else if s[c] == 0 {
        Some(false)
    } else if s[c] == 0xFF {
        Some(true)
    } else {
        None
    }
}

/// A BIT STRING: the number of unused bits in the last octet, and the
/// octets.
#[derive(Debug, Clone, PartialEq, Eq)]
pub struct BitString {
    pub unused_bits: u8,
    pub bytes: Vec<u8>,
}

/// The mathematical value of a BIT STRING.
pub struct BitStringView {
    pub unused_bits: u8,
    pub bytes: Seq<u8>,
}

impl View for BitString {
    type V = BitStringView;

    open spec fn view(&self) -> BitStringView {
        BitStringView { unused_bits: self.unused_bits, bytes: self.bytes@ }
    }
}

/// The BIT STRING held by DER content octets: the first octet counts the
/// unused bits (at most seven, and zero when no octet follows).
pub open spec fn spec_bit_string_content(c: Seq<u8>) -> Option<BitStringView> {
    if c.len() == 0 || c[0] > 7 || (c[0] != 0 && c.len() == 1) {
        None
    } else {
        Some(BitStringView { unused_bits: c[0], bytes: c.drop_first() })
    }
}

/// The DER content octets of a BIT STRING.
pub open spec fn spec_bit_string_encode(b: BitStringView) -> Seq<u8> {
    seq![b.unused_bits] + b.bytes
}

impl BitString {
    /// Decodes BIT STRING content (see `spec_bit_string_content`).
    pub fn from_content(s: &[u8], c: usize, e: usize) -> (r: Option<BitString>)
        requires
            c <= e <= s.len(),
        ensures
            match r {
                Some(b) => spec_bit_string_content(s@.subrange(c as int, e as int)) == Some(b@),
                None => spec_bit_string_content(s@.subrange(c as int, e as int)) is None,
            },
    {
        let ghost cs = s@.subrange(c as int, e as int);
        if c == e || s[c] > 7 || (s[c] != 0 && e - c == 1) {
            return None;
        }
        let bytes = copy_range(s, c + 1, e);
        assert(bytes@ =~= cs.drop_first());
        Some(BitString { unused_bits: s[c], bytes })
    }

    /// The octets of this bit string.
    pub fn raw_bytes(&self) -> (r: &[u8])
        ensures
            r@ == self.bytes@,
    {
        self.bytes.as_slice()
    }

    /// The DER content octets of this bit string.
    pub fn content(&self) -> (r: Vec<u8>)
        ensures
            r@ == spec_bit_string_encode(self@),
    {
        let mut out: Vec<u8> = Vec::new();
        out.push(self.unused_bits);
        append(&mut out, self.bytes.as_slice());
        out
    }

    /// A copy of this bit string.
    pub fn copy(&self) -> (r: BitString)
        ensures
            r@ == self@,
    {
        BitString { unused_bits: self.unused_bits, bytes: crate::bytes::copy_bytes(self.bytes.as_slice()) }
    }
}

/// Whether DER content octets are a valid OBJECT IDENTIFIER for
/// `const_oid` (at least three octets, at most 39, well-formed arcs).
pub uninterp spec fn spec_oid_valid(c: Seq<u8>) -> bool;

/// Checks OBJECT IDENTIFIER content octets with
/// `const_oid::ObjectIdentifier::from_bytes`; the result is
/// `spec_oid_valid` of the octets.
#[verifier::external_body]
fn oid_bytes_valid(c: &[u8]) -> (r: bool)
    ensures
        r == spec_oid_valid(c@),
{
    const_oid::ObjectIdentifier::from_bytes(c).is_ok()
}

/// Checks the OBJECT IDENTIFIER content octets `s[c..e]`.
pub fn oid_content_valid(s: &[u8], c: usize, e: usize) -> (r: bool)
    requires
        c <= e <= s.len(),
    ensures
        r == spec_oid_valid(s@.subrange(c as int, e as int)),
{
    let v = copy_range(s, c, e);
    oid_bytes_valid(v.as_slice())
}

} // verus!

verus! {

/// Any DER value: its identifier octet and its content octets.
#[derive(Debug, Clone, PartialEq, Eq)]
pub struct AnyValue {
    pub tag: u8,
    pub value: Vec<u8>,
}

/// The mathematical value of `AnyValue`.
pub struct AnyView {
    pub tag: u8,
    pub value: Seq<u8>,
}

impl View for AnyValue {
    type V = AnyView;

    open spec fn view(&self) -> AnyView {
        AnyView { tag: self.tag, value: self.value@ }
    }
}

/// The value of any TLV at `s[i]`, and where it ends.
pub open spec fn spec_any_at(s: Seq<u8>, i: int, end: int) -> Option<(AnyView, int)> {
    match spec_tlv(s, i, end) {
        Some((t, c, e)) => Some((AnyView { tag: t, value: s.subrange(c, e) }, e)),
        None => None,
    }
}

/// The content of an OBJECT IDENTIFIER TLV at `s[i]`, and where it ends.
pub open spec fn spec_oid_at(s: Seq<u8>, i: int, end: int) -> Option<(Seq<u8>, int)> {
    match spec_tlv(s, i, end) {
        Some((t, c, e)) => if t == 0x06 && spec_oid_valid(s.subrange(c, e)) {
            Some((s.subrange(c, e), e))
        } else {
            None
        },
        None => None,
    }
}

/// The DER encoding of any value.
pub open spec fn spec_encode_any(a: AnyView) -> Option<Seq<u8>> {
    spec_wrap(a.tag, a.value)
}

impl AnyValue {
    /// Reads any TLV (see `spec_any_at`).
    pub fn read(s: &[u8], i: usize, end: usize) -> (r: Option<(AnyValue, usize)>)
        requires
            end <= s.len(),
        ensures
            match r {
                Some((a, n)) => spec_any_at(s@, i as int, end as int) == Some((a@, n as int)),
                None => spec_any_at(s@, i as int, end as int) is None,
            },
    {
        match read_tlv(s, i, end) {
            Some((t, c, e)) => Some((AnyValue { tag: t, value: copy_range(s, c, e) }, e)),
            None => None,
        }
    }

    /// The DER encoding of this value.
    pub fn encode(&self) -> (r: Option<Vec<u8>>)
        ensures
            match r {
                Some(v) => spec_encode_any(self@) == Some(v@),
                None => spec_encode_any(self@) is None,
            },
    {
        wrap(self.tag, self.value.as_slice())
    }

    /// A copy of this value.
    pub fn copy(&self) -> (r: AnyValue)
        ensures
            r@ == self@,
    {
        AnyValue { tag: self.tag, value: crate::bytes::copy_bytes(self.value.as_slice()) }
    }

    /// Whether two values are the same.
    pub fn same(&self, other: &AnyValue) -> (r: bool)
        ensures
            r == (self@ == other@),
    {
        self.tag == other.tag && crate::bytes::bytes_equal(self.value.as_slice(), other.value.as_slice())
    }
}

/// Reads an OBJECT IDENTIFIER TLV (see `spec_oid_at`).
pub fn read_oid(s: &[u8], i: usize, end: usize) -> (r: Option<(crate::oid::Oid, usize)>)
    requires
        end <= s.len(),
    ensures
        match r {
            Some((o, n)) => spec_oid_at(s@, i as int, end as int) == Some((o@, n as int)),
            None => spec_oid_at(s@, i as int, end as int) is None,
        },
{
    match read_tlv(s, i, end) {
        Some((t, c, e)) => {
            if t == 0x06 && oid_content_valid(s, c, e) {
                Some((crate::oid::Oid { bytes: copy_range(s, c, e) }, e))
            } else {
                None
            }
        },
        None => None,
    }
}

/// Lexicographic comparison of byte strings (a proper prefix comes
/// first): negative, zero or positive.
pub open spec fn spec_lex_order(a: Seq<u8>, b: Seq<u8>) -> int
    decreases a.len(),
{
    if a.len() == 0 {
        if b.len() == 0 { 0 } else { -1 }
    } else if b.len() == 0 {
        1
    } else if a[0] < b[0] {
        -1
    } else if a[0] > b[0] {
        1
    } else {
        spec_lex_order(a.drop_first(), b.drop_first())
    }
}

/// Lexicographic order is a total order on byte strings.
pub proof fn lemma_lex_order(a: Seq<u8>, b: Seq<u8>)
    ensures
        spec_lex_order(a, b) == -spec_lex_order(b, a),
        -1 <= spec_lex_order(a, b) <= 1,
        spec_lex_order(a, b) == 0 <==> a == b,
    decreases a.len(),
{
    if a.len() == 0 || b.len() == 0 {
        if a.len() == 0 && b.len() == 0 {
            assert(a =~= b);
        } else {
            assert(a.len() != b.len());
        }
    } else if a[0] != b[0] {
        assert(a[0] != b[0]);
    } else {
        lemma_lex_order(a.drop_first(), b.drop_first());
        if a.drop_first() == b.drop_first() {
            assert(a =~= seq![a[0]] + a.drop_first());
            assert(b =~= seq![b[0]] + b.drop_first());
        } else {
            assert(a != b) by {
                if a == b {
                    assert(a.drop_first() =~= b.drop_first());
                }
            }
        }
    }
}

/// Lexicographic order is transitive.
pub proof fn lemma_lex_order_trans(a: Seq<u8>, b: Seq<u8>, c: Seq<u8>)
    requires
        spec_lex_order(a, b) < 0,
        spec_lex_order(b, c) < 0,
    ensures
        spec_lex_order(a, c) < 0,
    decreases a.len(),
{
    if a.len() > 0 && b.len() > 0 && c.len() > 0 && a[0] == b[0] && b[0] == c[0] {
        lemma_lex_order_trans(a.drop_first(), b.drop_first(), c.drop_first());
    }
}

/// Compares two byte strings lexicographically (see `spec_lex_order`).
pub fn lex_order(a: &[u8], b: &[u8]) -> (r: i8)
    ensures
        r as int == spec_lex_order(a@, b@),
{
    let mut i: usize = 0;
    assert(a@.subrange(0, a.len() as int) =~= a@);
    assert(b@.subrange(0, b.len() as int) =~= b@);
    while i < a.len() && i < b.len() && a[i] == b[i]
        invariant
            i <= a.len(),
            i <= b.len(),
            spec_lex_order(a@, b@) == spec_lex_order(
                a@.subrange(i as int, a.len() as int),
                b@.subrange(i as int, b.len() as int),
            ),
        decreases a.len() - i,
    {
        proof {
            let x = a@.subrange(i as int, a.len() as int);
            let y = b@.subrange(i as int, b.len() as int);
            assert(x.drop_first() =~= a@.subrange(i + 1, a.len() as int));
            assert(y.drop_first() =~= b@.subrange(i + 1, b.len() as int));
        }
        i = i + 1;
    }
    if i == a.len() {
        if i == b.len() { 0 } else { -1 }
    } else if i == b.len() {
        1
    } else if a[i] < b[i] {
        -1
    } else {
        1
    }
}

} // verus!
