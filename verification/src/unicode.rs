//! Text decoding: UTF-8 (as vstd states it), UTF-16 and UTF-32 big-endian
//! code units, and building strings one character at a time.
use vstd::prelude::*;
use vstd::utf8::{char_u32_cast, decode_utf8, valid_utf8};

verus! {

/// Whether a number is a Unicode scalar value (a code point that is not a
/// surrogate).
pub open spec fn spec_is_scalar(u: u32) -> bool {
    u < 0xD800 || (0xE000 <= u && u <= 0x10FFFF)
}

/// Decodes UTF-8 with `String::from_utf8`: `Some` exactly for valid
/// UTF-8, holding the characters it encodes.
#[verifier::external_body]
pub(crate) fn utf8_decode(bytes: &[u8]) -> (r: Option<String>)
    ensures
        r is Some <==> valid_utf8(bytes@),
        r matches Some(s) ==> s@ == decode_utf8(bytes@),
{
    String::from_utf8(bytes.to_vec()).ok()
}

/// What `String::from_utf8_lossy` makes of bytes (invalid sequences become
/// U+FFFD).
pub uninterp spec fn spec_utf8_lossy(bytes: Seq<u8>) -> Seq<char>;

/// Decodes UTF-8 with `String::from_utf8_lossy`; the result is
/// `spec_utf8_lossy` of the bytes.
#[verifier::external_body]
pub(crate) fn utf8_lossy(bytes: &[u8]) -> (r: String)
    ensures
        r@ == spec_utf8_lossy(bytes@),
{
    String::from_utf8_lossy(bytes).into_owned()
}

/// Whether a UTF-16 unit is not a surrogate.
pub open spec fn spec_is_plain_unit(a: u16) -> bool {
    a < 0xD800 || a >= 0xE000
}

/// Whether two UTF-16 units are a high surrogate and a low surrogate.
pub open spec fn spec_is_pair(a: u16, b: u16) -> bool {
    0xD800 <= a <= 0xDBFF && 0xDC00 <= b <= 0xDFFF
}

/// The code point of a surrogate pair.
pub open spec fn spec_pair_value(a: u16, b: u16) -> u32 {
    (0x10000 + (a - 0xD800) * 0x400 + (b - 0xDC00)) as u32
}

/// The characters of UTF-16 code units: a unit that is not a surrogate is
/// a character, a high surrogate followed by a low one is the character of
/// the pair, and an unpaired surrogate makes the units invalid (`None`).
pub open spec fn spec_utf16_decode(u: Seq<u16>) -> Option<Seq<char>>
    decreases u.len(),
{
    if u.len() == 0 {
        Some(Seq::empty())
    } else if spec_is_plain_unit(u[0]) {
        match spec_utf16_decode(u.subrange(1, u.len() as int)) {
            Some(r) => Some(seq![(u[0] as u32) as char] + r),
            None => None,
        }
    } else if u.len() >= 2 && spec_is_pair(u[0], u[1]) {
        match spec_utf16_decode(u.subrange(2, u.len() as int)) {
            Some(r) => Some(seq![spec_pair_value(u[0], u[1]) as char] + r),
            None => None,
        }
    } else {
        None
    }
}

/// Decodes UTF-16 code units (see `spec_utf16_decode`).
pub(crate) fn utf16_decode(units: &[u16]) -> (r: Option<String>)
    ensures
        match r {
            Some(s) => spec_utf16_decode(units@) == Some(s@),
            None => spec_utf16_decode(units@) is None,
        },
{
    let n = units.len();
    let mut out = String::new();
    let mut i: usize = 0;
    proof {
        assert(units@.subrange(0, n as int) =~= units@);
        let t = spec_utf16_decode(units@);
        if t is Some {
            assert(out@ + t->Some_0 =~= t->Some_0);
        }
    }
    while i < n
        invariant
            n == units.len(),
            i <= n,
            spec_utf16_decode(units@) == (match spec_utf16_decode(units@.subrange(i as int, n as int)) {
                Some(r) => Some(out@ + r),
                None => None::<Seq<char>>,
            }),
        decreases n - i,
    {
        let ghost rest = units@.subrange(i as int, n as int);
        let a = units[i];
        if a < 0xD800 || a >= 0xE000 {
            let c = match char_from_u32(a as u32) {
                Some(c) => c,
                None => return None,
            };
            proof {
                assert(rest[0] == a);
                assert(rest.subrange(1, rest.len() as int) =~= units@.subrange(i + 1, n as int));
                char_u32_cast(c, a as u32);
                let t = spec_utf16_decode(units@.subrange(i + 1, n as int));
                if t is Some {
                    assert(out@.push(c) + t->Some_0 =~= out@ + (seq![c] + t->Some_0));
                }
            }
            string_push(&mut out, c);
            i = i + 1;
        } else if a <= 0xDBFF && i + 1 < n && units[i + 1] >= 0xDC00 && units[i + 1] <= 0xDFFF {
            let b = units[i + 1];
            let v: u32 = 0x10000 + ((a - 0xD800) as u32) * 0x400 + ((b - 0xDC00) as u32);
            let c = match char_from_u32(v) {
                Some(c) => c,
                None => return None,
            };
            proof {
                assert(rest[0] == a && rest[1] == b);
                assert(v == spec_pair_value(a, b));
                assert(rest.subrange(2, rest.len() as int) =~= units@.subrange(i + 2, n as int));
                char_u32_cast(c, v);
                let t = spec_utf16_decode(units@.subrange(i + 2, n as int));
                if t is Some {
                    assert(out@.push(c) + t->Some_0 =~= out@ + (seq![c] + t->Some_0));
                }
            }
            string_push(&mut out, c);
            i = i + 2;
        } else {
            proof {
                assert(rest[0] == a);
                if rest.len() >= 2 {
                    assert(rest[1] == units[i + 1]);
                }
            }
            return None;
        }
    }
    proof {
        assert(units@.subrange(n as int, n as int) =~= Seq::<u16>::empty());
        assert(out@ + Seq::<char>::empty() =~= out@);
    }
    Some(out)
}

/// The character with a code point, by `char::from_u32`: `Some` exactly
/// for a Unicode scalar value.
#[verifier::external_body]
pub(crate) fn char_from_u32(u: u32) -> (r: Option<char>)
    ensures
        r is Some <==> spec_is_scalar(u),
        r matches Some(c) ==> c as u32 == u,
{
    char::from_u32(u)
}

/// Appends a character with `String::push`.
#[verifier::external_body]
pub(crate) fn string_push(s: &mut String, c: char)
    ensures
        final(s)@ == old(s)@.push(c),
{
    s.push(c)
}

/// The big-endian 16-bit units of bytes of even length.
pub open spec fn spec_be16_units(b: Seq<u8>) -> Seq<u16> {
    Seq::new(b.len() / 2, |i: int| (b[2 * i] * 0x100 + b[2 * i + 1]) as u16)
}

/// Reads big-endian 16-bit units (see `spec_be16_units`).
pub fn be16_units(b: &[u8]) -> (r: Vec<u16>)
    requires
        b.len() % 2 == 0,
    ensures
        r@ == spec_be16_units(b@),
{
    let mut out: Vec<u16> = Vec::new();
    let mut i: usize = 0;
    while i < b.len() / 2
        invariant
            b.len() % 2 == 0,
            i <= b.len() / 2,
            out@ =~= spec_be16_units(b@).subrange(0, i as int),
        decreases b.len() / 2 - i,
    {
        let u: u16 = (b[2 * i] as u16) * 0x100 + (b[2 * i + 1] as u16);
        out.push(u);
        i = i + 1;
    }
    out
}

/// The big-endian 32-bit value of the four bytes at `4 * i`.
pub open spec fn spec_be32(b: Seq<u8>, i: int) -> u32 {
    (b[4 * i] * 0x1000000 + b[4 * i + 1] * 0x10000 + b[4 * i + 2] * 0x100 + b[4 * i + 3]) as u32
}

/// The characters of UTF-32 big-endian bytes (of a length that is a
/// multiple of four): `None` when a unit is not a Unicode scalar value.
pub open spec fn spec_utf32_decode(b: Seq<u8>) -> Option<Seq<char>> {
    let n = b.len() / 4;
    if forall|i: int| 0 <= i < n ==> spec_is_scalar(#[trigger] spec_be32(b, i)) {
        Some(Seq::new(n, |i: int| spec_be32(b, i) as char))
    } else {
        None
    }
}

/// Decodes UTF-32 big-endian bytes (see `spec_utf32_decode`).
pub fn utf32_decode(b: &[u8]) -> (r: Option<String>)
    requires
        b.len() % 4 == 0,
    ensures
        match r {
            Some(s) => spec_utf32_decode(b@) == Some(s@),
            None => spec_utf32_decode(b@) is None,
        },
{
    let n = b.len() / 4;
    let mut out = String::new();
    let mut i: usize = 0;
    while i < n
        invariant
            n == b.len() / 4,
            i <= n,
            b.len() % 4 == 0,
            forall|k: int| 0 <= k < i ==> spec_is_scalar(#[trigger] spec_be32(b@, k)),
            out@ =~= Seq::new(i as nat, |k: int| spec_be32(b@, k) as char),
        decreases n - i,
    {
        let u: u32 = (b[4 * i] as u32) * 0x1000000 + (b[4 * i + 1] as u32) * 0x10000 + (b[4 * i + 2] as u32) * 0x100
            + (b[4 * i + 3] as u32);
        assert(u == spec_be32(b@, i as int));
        match char_from_u32(u) {
            Some(c) => {
                proof {
                    char_u32_cast(c, u);
                }
                string_push(&mut out, c);
            },
            None => {
                assert(!spec_is_scalar(spec_be32(b@, i as int)));
                return None;
            },
        }
        i = i + 1;
    }
    Some(out)
}

/// The characters of bytes taken one by one (Latin-1, here used for ASCII).
pub open spec fn spec_byte_chars(b: Seq<u8>) -> Seq<char> {
    Seq::new(b.len(), |i: int| b[i] as char)
}

/// A string of the characters of bytes taken one by one (see
/// `spec_byte_chars`).
pub fn byte_chars(b: &[u8]) -> (r: String)
    ensures
        r@ == spec_byte_chars(b@),
{
    let mut out = String::new();
    let mut i: usize = 0;
    while i < b.len()
        invariant
            i <= b.len(),
            out@ =~= spec_byte_chars(b@).subrange(0, i as int),
        decreases b.len() - i,
    {
        let c: char = b[i] as char;
        string_push(&mut out, c);
        i = i + 1;
    }
    out
}

} // verus!
