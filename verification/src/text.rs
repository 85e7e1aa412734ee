//! Numbers and bytes written as text: decimal and lowercase hexadecimal.
use vstd::prelude::*;

verus! {

/// The character of a digit (0 to 15) in lowercase hexadecimal.
pub open spec fn spec_digit_char(d: nat) -> char {
    if d == 0 { '0' }
    else if d == 1 { '1' }
    else if d == 2 { '2' }
    else if d == 3 { '3' }
    else if d == 4 { '4' }
    else if d == 5 { '5' }
    else if d == 6 { '6' }
    else if d == 7 { '7' }
    else if d == 8 { '8' }
    else if d == 9 { '9' }
    else if d == 10 { 'a' }
    else if d == 11 { 'b' }
    else if d == 12 { 'c' }
    else if d == 13 { 'd' }
    else if d == 14 { 'e' }
    else { 'f' }
}

/// The text of a digit (0 to 15) in lowercase hexadecimal.
fn digit_str(d: u64) -> (r: &'static str)
    requires
        d < 16,
    ensures
        r@ == seq![spec_digit_char(d as nat)],
{
    let r = match d {
        0 => "0",
        1 => "1",
        2 => "2",
        3 => "3",
        4 => "4",
        5 => "5",
        6 => "6",
        7 => "7",
        8 => "8",
        9 => "9",
        10 => "a",
        11 => "b",
        12 => "c",
        13 => "d",
        14 => "e",
        _ => "f",
    };
    proof {
        reveal_strlit("0");
        reveal_strlit("1");
        reveal_strlit("2");
        reveal_strlit("3");
        reveal_strlit("4");
        reveal_strlit("5");
        reveal_strlit("6");
        reveal_strlit("7");
        reveal_strlit("8");
        reveal_strlit("9");
        reveal_strlit("a");
        reveal_strlit("b");
        reveal_strlit("c");
        reveal_strlit("d");
        reveal_strlit("e");
        reveal_strlit("f");
    }
    r
}

/// The decimal text of a number, without leading zeros.
pub open spec fn spec_decimal(n: nat) -> Seq<char>
    decreases n,
{
    if n < 10 {
        seq![spec_digit_char(n)]
    } else {
        spec_decimal(n / 10) + seq![spec_digit_char(n % 10)]
    }
}

/// Writes a number in decimal.
pub fn decimal(n: u64) -> (r: String)
    ensures
        r@ == spec_decimal(n as nat),
    decreases n,
{
    if n < 10 {
        let mut s = String::new();
        s.append(digit_str(n));
        s
    } else {
        let mut s = decimal(n / 10);
        s.append(digit_str(n % 10));
        s
    }
}

/// The decimal text of an integer, with a minus sign when negative.
pub open spec fn spec_signed_decimal(n: int) -> Seq<char> {
    if n < 0 { seq!['-'] + spec_decimal((-n) as nat) } else { spec_decimal(n as nat) }
}

/// Writes a signed number in decimal.
pub fn signed_decimal(n: i64) -> (r: String)
    ensures
        r@ == spec_signed_decimal(n as int),
{
    if n < 0 {
        let mut s = String::new();
        s.append("-");
        proof {
            reveal_strlit("-");
        }
        let m: u64 = if n == i64::MIN { 0x8000_0000_0000_0000 } else { (-n) as u64 };
        let d = decimal(m);
        s.append(d.as_str());
        s
    } else {
        decimal(n as u64)
    }
}

/// The lowercase hexadecimal text of a number, without leading zeros.
pub open spec fn spec_hex(n: nat) -> Seq<char>
    decreases n,
{
    if n < 16 {
        seq![spec_digit_char(n)]
    } else {
        spec_hex(n / 16) + seq![spec_digit_char(n % 16)]
    }
}

/// Writes a number in lowercase hexadecimal, without leading zeros.
pub fn hex(n: u64) -> (r: String)
    ensures
        r@ == spec_hex(n as nat),
    decreases n,
{
    if n < 16 {
        let mut s = String::new();
        s.append(digit_str(n));
        s
    } else {
        let mut s = hex(n / 16);
        s.append(digit_str(n % 16));
        s
    }
}

/// The two lowercase hexadecimal digits of a byte.
pub open spec fn spec_hex2(b: u8) -> Seq<char> {
    seq![spec_digit_char((b / 16) as nat), spec_digit_char((b % 16) as nat)]
}

/// Writes a byte as two lowercase hexadecimal digits.
pub fn hex2(b: u8) -> (r: String)
    ensures
        r@ == spec_hex2(b),
{
    let mut s = String::new();
    s.append(digit_str((b / 16) as u64));
    s.append(digit_str((b % 16) as u64));
    s
}

/// The lowercase hexadecimal text of bytes, two digits each.
pub open spec fn spec_hex_encode(bytes: Seq<u8>) -> Seq<char>
    decreases bytes.len(),
{
    if bytes.len() == 0 {
        Seq::empty()
    } else {
        spec_hex_encode(bytes.drop_last()) + spec_hex2(bytes.last())
    }
}

/// Bytes in hexadecimal take two digits each: the digits at positions
/// `2 * i` and `2 * i + 1` are those of the byte at position `i`.
pub proof fn lemma_hex_encode_index(bytes: Seq<u8>)
    ensures
        spec_hex_encode(bytes).len() == 2 * bytes.len(),
        forall|i: int| 0 <= i < bytes.len() ==> spec_hex_encode(bytes).subrange(2 * i, 2 * i + 2) == spec_hex2(#[trigger] bytes[i]),
        forall|i: int| 0 <= i < bytes.len() ==> {
            &&& spec_hex_encode(bytes)[2 * i] == spec_hex_digits()[((#[trigger] bytes[i]) / 16) as int]
            &&& spec_hex_encode(bytes)[2 * i + 1] == spec_hex_digits()[(bytes[i] % 16) as int]
        },
    decreases bytes.len(),
{
    lemma_hex_encode_pairs(bytes);
    assert forall|i: int| 0 <= i < bytes.len() implies {
        &&& spec_hex_encode(bytes)[2 * i] == spec_hex_digits()[((#[trigger] bytes[i]) / 16) as int]
        &&& spec_hex_encode(bytes)[2 * i + 1] == spec_hex_digits()[(bytes[i] % 16) as int]
    } by {
        let h = spec_hex_encode(bytes);
        let p = h.subrange(2 * i, 2 * i + 2);
        assert(p == spec_hex2(bytes[i]));
        assert(h[2 * i] == p[0]);
        assert(h[2 * i + 1] == p[1]);
        lemma_hex_byte(bytes[i]);
    }
}

/// The two digits of a byte are its high and its low half's places among
/// the hexadecimal digits.
proof fn lemma_hex_byte(b: u8)
    ensures
        spec_hex2(b)[0] == spec_hex_digits()[(b / 16) as int],
        spec_hex2(b)[1] == spec_hex_digits()[(b % 16) as int],
{
    lemma_hex_digits();
    let hi = (b / 16) as int;
    let lo = (b % 16) as int;
    assert(spec_digit_char(hi as nat) == spec_hex_digits()[hi]);
    assert(spec_digit_char(lo as nat) == spec_hex_digits()[lo]);
}

/// The sixteen lowercase hexadecimal digits, in order.
pub open spec fn spec_hex_digits() -> Seq<char> {
    "0123456789abcdef"@
}

/// The digit of each value below sixteen is its place among the
/// hexadecimal digits.
proof fn lemma_hex_digits()
    ensures
        spec_hex_digits().len() == 16,
        forall|d: int| 0 <= d < 16 ==> spec_digit_char(d as nat) == #[trigger] spec_hex_digits()[d],
{
    reveal_strlit("0123456789abcdef");
}

proof fn lemma_hex_encode_pairs(bytes: Seq<u8>)
    ensures
        spec_hex_encode(bytes).len() == 2 * bytes.len(),
        forall|i: int| 0 <= i < bytes.len() ==> spec_hex_encode(bytes).subrange(2 * i, 2 * i + 2) == spec_hex2(#[trigger] bytes[i]),
    decreases bytes.len(),
{
    if bytes.len() > 0 {
        let dl = bytes.drop_last();
        lemma_hex_encode_pairs(dl);
        let h = spec_hex_encode(bytes);
        let hd = spec_hex_encode(dl);
        assert(h == hd + spec_hex2(bytes.last()));
        assert forall|i: int| 0 <= i < bytes.len() implies h.subrange(2 * i, 2 * i + 2) == spec_hex2(#[trigger] bytes[i]) by {
            if i < bytes.len() - 1 {
                assert(dl[i] == bytes[i]);
                assert(hd.subrange(2 * i, 2 * i + 2) == spec_hex2(dl[i]));
                assert(h.subrange(2 * i, 2 * i + 2) =~= hd.subrange(2 * i, 2 * i + 2));
            } else {
                assert(h.subrange(2 * i, 2 * i + 2) =~= spec_hex2(bytes.last()));
            }
        }
    }
}

/// Writes bytes in lowercase hexadecimal, two digits each.
pub fn hex_encode(bytes: &[u8]) -> (r: String)
    ensures
        r@ == spec_hex_encode(bytes@),
{
    let mut s = String::new();
    let mut i: usize = 0;
    while i < bytes.len()
        invariant
            i <= bytes.len(),
            s@ == spec_hex_encode(bytes@.subrange(0, i as int)),
        decreases bytes.len() - i,
    {
        let h = hex2(bytes[i]);
        s.append(h.as_str());
        proof {
            let p = bytes@.subrange(0, i + 1);
            assert(p.drop_last() =~= bytes@.subrange(0, i as int));
        }
        i = i + 1;
    }
    proof {
        assert(bytes@.subrange(0, i as int) =~= bytes@);
    }
    s
}

} // verus!
