//! Reading back what was written: a certificate encoded to DER reads back
//! as the same certificate, piece by piece (TLVs, identifiers, integers,
//! bit strings, algorithm identifiers, names, validity, public key
//! information, extensions, TBSCertificate).
use vstd::prelude::*;
use crate::der::{
    spec_is_context, spec_tag_number, spec_any_at, spec_bit_string_content, spec_bit_string_encode, spec_bool_content, spec_cat,
    spec_encode_any, spec_encode_length, spec_length, spec_oid_at, spec_oid_valid, spec_strip_zeros,
    spec_tag_ok, spec_tlv, spec_uint_content, spec_uint_encode, spec_wrap, spec_wrap_opt, AnyView,
    BitStringView, MAX_LEN,
};
use crate::name::{
    lemma_sorted_unique, spec_atv_at, spec_atv_list, spec_atvs_dup, spec_atvs_in_der_order, spec_atvs_sorted,
    spec_encode_atv, spec_encode_atv_list, spec_encode_name, spec_encode_rdn, spec_encode_rdn_list, spec_name_at,
    spec_rdn_at, spec_rdn_list, AtvView,
};
use crate::general_name::{
    spec_encode_gn, spec_encode_gn_list, spec_encode_san, spec_gn_at, spec_gn_decode, spec_gn_list, spec_header,
    spec_san_from_der, GnView,
};
use crate::name_strings::{spec_atv_new, spec_atv_value_as_str, spec_name_from_der};
use crate::directory_string::DirStrView;
use vstd::utf8::{decode_utf8, encode_utf8, encode_utf8_decode_utf8, encode_utf8_valid_utf8, valid_utf8};
use crate::certificate::{
    spec_certificate_at, spec_certificate_from_der, spec_encode_certificate, CertView,
    spec_encode_tbs, spec_encode_tbs_content, spec_encode_tbs_head, spec_encode_tbs_tail, spec_tbs_at,
    spec_tbs_content, spec_tbs_head, TbsView,
    spec_ctx_scan, spec_encode_extensions_field, spec_encode_unique_id, spec_encode_version, spec_extensions_field,
    spec_unique_id_field, spec_version_field, spec_version_from_value, spec_version_value, Version,
    spec_critical_at, spec_encode_ext, spec_encode_ext_list, spec_encode_exts, spec_ext_at, spec_ext_list,
    spec_exts_at, spec_octet_string_at, ExtView,
    spec_alg_id_at, spec_bit_string_at, spec_encode_alg_id, spec_encode_bit_string, spec_encode_spki,
    spec_encode_validity, spec_generalized_time_seconds, spec_spki_at, spec_time_at, spec_utc_time_seconds,
    spec_validity_at, AlgIdView, SpkiView, TimeView, ValidityView,
};

verus! {

// ---------------------------------------------------------------------------
// Positions in a byte string
// ---------------------------------------------------------------------------

/// Whether `w` lies in `s` at position `i`, before `end`.
pub open spec fn spec_lies_at(s: Seq<u8>, i: int, end: int, w: Seq<u8>) -> bool {
    &&& 0 <= i
    &&& i + w.len() <= end <= s.len()
    &&& s.subrange(i, i + w.len()) == w
}

/// The parts of a concatenation lie one after the other.
pub proof fn lemma_lies_at_cat(s: Seq<u8>, i: int, end: int, a: Seq<u8>, b: Seq<u8>)
    requires
        spec_lies_at(s, i, end, a + b),
    ensures
        spec_lies_at(s, i, end, a),
        spec_lies_at(s, i + a.len(), end, b),
{
    let w = a + b;
    let sw = s.subrange(i, i + w.len());
    assert(sw == w);
    assert(s.subrange(i, i + a.len()) =~= sw.subrange(0, a.len() as int));
    assert(w.subrange(0, a.len() as int) =~= a);
    assert(s.subrange(i + a.len(), i + a.len() + b.len()) =~= sw.subrange(a.len() as int, w.len() as int));
    assert(w.subrange(a.len() as int, w.len() as int) =~= b);
}

/// Concatenation of encodings that may have failed is associative.
pub proof fn lemma_cat_assoc(a: Option<Seq<u8>>, b: Option<Seq<u8>>, c: Option<Seq<u8>>)
    ensures
        spec_cat(spec_cat(a, b), c) == spec_cat(a, spec_cat(b, c)),
{
    match (a, b, c) {
        (Some(x), Some(y), Some(z)) => {
            assert(x + y + z =~= x + (y + z));
        },
        _ => {},
    }
}

/// Concatenating after nothing changes nothing.
pub proof fn lemma_cat_empty(a: Option<Seq<u8>>)
    ensures
        spec_cat(Some(Seq::empty()), a) == spec_cat(a, Some(Seq::empty())),
        spec_cat(a, Some(Seq::empty())) == a,
{
    match a {
        Some(x) => {
            assert(Seq::<u8>::empty() + x =~= x);
            assert(x + Seq::<u8>::empty() =~= x);
        },
        None => {},
    }
}

// ---------------------------------------------------------------------------
// TLVs
// ---------------------------------------------------------------------------

/// A TLV written at position `i` reads back with its tag, its content
/// right after its header, and its end.
pub proof fn lemma_tlv_reads_back(s: Seq<u8>, i: int, end: int, tag: u8, content: Seq<u8>)
    requires
        spec_tag_ok(tag),
        spec_wrap(tag, content) is Some,
        spec_lies_at(s, i, end, spec_wrap(tag, content).unwrap()),
    ensures
        ({
            let w = spec_wrap(tag, content).unwrap();
            let h = 1 + spec_encode_length(content.len()).len();
            &&& spec_tlv(s, i, end) == Some((tag, i + h, i + w.len()))
            &&& s.subrange(i + h, i + w.len()) == content
            &&& w.len() == h + content.len()
        }),
{
    let w = spec_wrap(tag, content).unwrap();
    let l = content.len();
    let enc = spec_encode_length(l);
    let h = (1 + enc.len()) as int;
    assert(w == seq![tag] + enc + content);
    assert(w.len() == h + l);
    assert forall|k: int| 0 <= k < w.len() implies s[i + k] == w[k] by {
        assert(s.subrange(i, i + w.len())[k] == s[i + k]);
    }
    assert(w[0] == tag);
    assert(s[i + 0] == w[0]);
    assert forall|k: int| 0 <= k < enc.len() implies s[i + 1 + k] == enc[k] by {
        assert(w[1 + k] == (seq![tag] + enc)[1 + k]);
        assert(s[i + (1 + k)] == w[1 + k]);
    }
    assert(s[i + 1 + 0] == enc[0]);
    if l < 0x80 {
        assert(spec_length(s, i + 1, end) == Some((l as int, 1int)));
    } else if l < 0x100 {
        assert(s[i + 2] == l as u8);
        assert(spec_length(s, i + 1, end) == Some((l as int, 2int)));
    } else if l < 0x10000 {
        assert(s[i + 2] == (l / 0x100) as u8);
        assert(s[i + 3] == (l % 0x100) as u8);
        assert((l / 0x100) * 0x100 + l % 0x100 == l);
        assert(spec_length(s, i + 1, end) == Some((l as int, 3int)));
    } else if l < 0x1000000 {
        assert(s[i + 2] == (l / 0x10000) as u8);
        assert(s[i + 3] == ((l / 0x100) % 0x100) as u8);
        assert(s[i + 4] == (l % 0x100) as u8);
        assert((l / 0x10000) * 0x10000 + ((l / 0x100) % 0x100) * 0x100 + l % 0x100 == l) by {
            assert((l / 0x100) == (l / 0x10000) * 0x100 + (l / 0x100) % 0x100);
        }
        assert(spec_length(s, i + 1, end) == Some((l as int, 4int)));
    } else {
        assert(l <= MAX_LEN);
        assert(s[i + 2] == (l / 0x1000000) as u8);
        assert(s[i + 3] == ((l / 0x10000) % 0x100) as u8);
        assert(s[i + 4] == ((l / 0x100) % 0x100) as u8);
        assert(s[i + 5] == (l % 0x100) as u8);
        assert((l / 0x1000000) * 0x1000000 + ((l / 0x10000) % 0x100) * 0x10000 + ((l / 0x100) % 0x100) * 0x100
            + l % 0x100 == l) by {
            assert((l / 0x100) == (l / 0x10000) * 0x100 + (l / 0x100) % 0x100);
            assert((l / 0x10000) == (l / 0x1000000) * 0x100 + (l / 0x10000) % 0x100);
        }
        assert(spec_length(s, i + 1, end) == Some((l as int, 5int)));
    }
    assert(s.subrange(i + h, i + w.len()) =~= content) by {
        assert forall|k: int| 0 <= k < l implies s.subrange(i + h, i + w.len())[k] == content[k] by {
            assert(w[h + k] == content[k]);
        }
    }
}

/// Any value written at position `i` reads back.
pub proof fn lemma_any_reads_back(s: Seq<u8>, i: int, end: int, a: AnyView)
    requires
        spec_tag_ok(a.tag),
        spec_encode_any(a) is Some,
        spec_lies_at(s, i, end, spec_encode_any(a).unwrap()),
    ensures
        spec_any_at(s, i, end) == Some((a, i + spec_encode_any(a).unwrap().len())),
{
    lemma_tlv_reads_back(s, i, end, a.tag, a.value);
}

/// A valid object identifier written at position `i` reads back.
pub proof fn lemma_oid_reads_back(s: Seq<u8>, i: int, end: int, o: Seq<u8>)
    requires
        spec_oid_valid(o),
        spec_wrap(0x06, o) is Some,
        spec_lies_at(s, i, end, spec_wrap(0x06, o).unwrap()),
    ensures
        spec_oid_at(s, i, end) == Some((o, i + spec_wrap(0x06, o).unwrap().len())),
{
    lemma_tlv_reads_back(s, i, end, 0x06, o);
}

// ---------------------------------------------------------------------------
// Primitive values
// ---------------------------------------------------------------------------

/// Whether big-endian bytes are the canonical form of an unsigned
/// integer: not empty, and without leading zero octets (but for zero).
pub open spec fn spec_uint_canonical(b: Seq<u8>) -> bool {
    b.len() > 0 && spec_strip_zeros(b) == b
}

/// Dropping leading zeros never lengthens.
proof fn lemma_strip_zeros_len(b: Seq<u8>)
    ensures
        spec_strip_zeros(b).len() <= b.len(),
    decreases b.len(),
{
    if b.len() > 1 && b[0] == 0 {
        lemma_strip_zeros_len(b.drop_first());
    }
}

/// The content octets of a canonical unsigned integer read back as it.
pub proof fn lemma_uint_reads_back(b: Seq<u8>)
    requires
        spec_uint_canonical(b),
    ensures
        spec_uint_content(spec_uint_encode(b)) == Some(b),
{
    let c = spec_uint_encode(b);
    if b[0] >= 0x80 {
        assert(c == seq![0u8] + b);
        assert(c.drop_first() =~= b);
    } else {
        assert(c == b);
        if b.len() > 1 && b[0] == 0 {
            lemma_strip_zeros_len(b.drop_first());
        }
    }
}

/// Whether a bit string can be written and read back: at most seven
/// unused bits, and none when there is no octet.
pub open spec fn spec_bit_string_wf(b: BitStringView) -> bool {
    b.unused_bits <= 7 && (b.unused_bits != 0 ==> b.bytes.len() > 0)
}

/// The content octets of a well-formed bit string read back as it.
pub proof fn lemma_bit_string_reads_back(b: BitStringView)
    requires
        spec_bit_string_wf(b),
    ensures
        spec_bit_string_content(spec_bit_string_encode(b)) == Some(b),
{
    let c = spec_bit_string_encode(b);
    assert(c.drop_first() =~= b.bytes);
}

/// A true BOOLEAN's content reads back.
pub proof fn lemma_true_reads_back()
    ensures
        spec_bool_content(seq![0xFFu8]) == Some(true),
        spec_wrap(0x01, seq![0xFFu8]) == Some(seq![0x01u8, 0x01, 0xFF]),
{
    assert(spec_encode_length(1) == seq![1u8]);
    assert(seq![0x01u8] + seq![1u8] + seq![0xFFu8] =~= seq![0x01u8, 0x01, 0xFF]);
}

// ---------------------------------------------------------------------------
// Algorithm identifiers, bit strings, public keys, times
// ---------------------------------------------------------------------------

/// The content of a TLV written at position `i` lies right after its
/// header.
pub proof fn lemma_content_lies(s: Seq<u8>, i: int, end: int, tag: u8, content: Seq<u8>)
    requires
        spec_tag_ok(tag),
        spec_wrap(tag, content) is Some,
        spec_lies_at(s, i, end, spec_wrap(tag, content).unwrap()),
    ensures
        ({
            let w = spec_wrap(tag, content).unwrap();
            let h = 1 + spec_encode_length(content.len()).len();
            &&& spec_tlv(s, i, end) == Some((tag, i + h, i + w.len()))
            &&& spec_lies_at(s, i + h, i + w.len(), content)
            &&& i + h + content.len() == i + w.len()
        }),
{
    lemma_tlv_reads_back(s, i, end, tag, content);
}

/// Whether an algorithm identifier can be written and read back: a valid
/// identifier, and parameters with an accepted tag.
pub open spec fn spec_alg_id_wf(a: AlgIdView) -> bool {
    &&& spec_oid_valid(a.algorithm)
    &&& (a.parameters matches Some(p) ==> spec_tag_ok(p.tag))
}

/// An algorithm identifier written at position `i` reads back.
pub proof fn lemma_alg_id_reads_back(s: Seq<u8>, i: int, end: int, a: AlgIdView)
    requires
        spec_alg_id_wf(a),
        spec_encode_alg_id(a) is Some,
        spec_lies_at(s, i, end, spec_encode_alg_id(a).unwrap()),
    ensures
        spec_alg_id_at(s, i, end) == Some((a, i + spec_encode_alg_id(a).unwrap().len())),
{
    let oe = spec_wrap(0x06, a.algorithm);
    let content = match a.parameters {
        Some(p) => spec_cat(oe, spec_encode_any(p)),
        None => oe,
    };
    let c = content.unwrap();
    lemma_content_lies(s, i, end, 0x30, c);
    let w = spec_wrap(0x30, c).unwrap();
    let h = 1 + spec_encode_length(c.len()).len();
    let (cs, ce) = (i + h, i + w.len());
    match a.parameters {
        Some(p) => {
            let pe = spec_encode_any(p).unwrap();
            lemma_lies_at_cat(s, cs, ce, oe.unwrap(), pe);
            lemma_oid_reads_back(s, cs, ce, a.algorithm);
            lemma_any_reads_back(s, cs + oe.unwrap().len(), ce, p);
            assert(pe.len() > 0);
        },
        None => {
            lemma_oid_reads_back(s, cs, ce, a.algorithm);
        },
    }
}

/// A well-formed bit string written at position `i` with tag `0x03`
/// reads back.
pub proof fn lemma_bit_string_at_reads_back(s: Seq<u8>, i: int, end: int, b: BitStringView)
    requires
        spec_bit_string_wf(b),
        spec_encode_bit_string(0x03, b) is Some,
        spec_lies_at(s, i, end, spec_encode_bit_string(0x03, b).unwrap()),
    ensures
        spec_bit_string_at(s, i, end) == Some((b, i + spec_encode_bit_string(0x03, b).unwrap().len())),
{
    lemma_tlv_reads_back(s, i, end, 0x03, spec_bit_string_encode(b));
    lemma_bit_string_reads_back(b);
}

/// Whether public key information can be written and read back.
pub open spec fn spec_spki_wf(k: SpkiView) -> bool {
    spec_alg_id_wf(k.algorithm) && spec_bit_string_wf(k.subject_public_key)
}

/// Public key information written at position `i` reads back.
pub proof fn lemma_spki_reads_back(s: Seq<u8>, i: int, end: int, k: SpkiView)
    requires
        spec_spki_wf(k),
        spec_encode_spki(k) is Some,
        spec_lies_at(s, i, end, spec_encode_spki(k).unwrap()),
    ensures
        spec_spki_at(s, i, end) == Some((k, i + spec_encode_spki(k).unwrap().len())),
{
    let ae = spec_encode_alg_id(k.algorithm).unwrap();
    let be = spec_encode_bit_string(0x03, k.subject_public_key).unwrap();
    let c = ae + be;
    lemma_content_lies(s, i, end, 0x30, c);
    let w = spec_wrap(0x30, c).unwrap();
    let h = 1 + spec_encode_length(c.len()).len();
    let (cs, ce) = (i + h, i + w.len());
    lemma_lies_at_cat(s, cs, ce, ae, be);
    lemma_alg_id_reads_back(s, cs, ce, k.algorithm);
    lemma_bit_string_at_reads_back(s, cs + ae.len(), ce, k.subject_public_key);
}

/// Whether a time can be written and read back: a UTCTime or a
/// GeneralizedTime whose encoding gives its number of seconds.
pub open spec fn spec_time_wf(t: TimeView) -> bool {
    match spec_wrap(t.tag, t.value) {
        Some(w) => (t.tag == 0x17 && spec_utc_time_seconds(w) == Some(t.unix_seconds)) || (t.tag == 0x18
            && spec_generalized_time_seconds(w) == Some(t.unix_seconds)),
        None => false,
    }
}

/// A time written at position `i` reads back.
pub proof fn lemma_time_reads_back(s: Seq<u8>, i: int, end: int, t: TimeView)
    requires
        spec_time_wf(t),
        spec_lies_at(s, i, end, spec_wrap(t.tag, t.value).unwrap()),
    ensures
        spec_time_at(s, i, end) == Some((t, i + spec_wrap(t.tag, t.value).unwrap().len())),
{
    lemma_tlv_reads_back(s, i, end, t.tag, t.value);
    let w = spec_wrap(t.tag, t.value).unwrap();
    assert(s.subrange(i, i + w.len()) == w);
}

/// Whether a validity period can be written and read back.
pub open spec fn spec_validity_wf(v: ValidityView) -> bool {
    spec_time_wf(v.not_before) && spec_time_wf(v.not_after)
}

/// A validity period written at position `i` reads back.
pub proof fn lemma_validity_reads_back(s: Seq<u8>, i: int, end: int, v: ValidityView)
    requires
        spec_validity_wf(v),
        spec_encode_validity(v) is Some,
        spec_lies_at(s, i, end, spec_encode_validity(v).unwrap()),
    ensures
        spec_validity_at(s, i, end) == Some((v, i + spec_encode_validity(v).unwrap().len())),
{
    let a = spec_wrap(v.not_before.tag, v.not_before.value).unwrap();
    let b = spec_wrap(v.not_after.tag, v.not_after.value).unwrap();
    let c = a + b;
    lemma_content_lies(s, i, end, 0x30, c);
    let w = spec_wrap(0x30, c).unwrap();
    let h = 1 + spec_encode_length(c.len()).len();
    let (cs, ce) = (i + h, i + w.len());
    lemma_lies_at_cat(s, cs, ce, a, b);
    lemma_time_reads_back(s, cs, ce, v.not_before);
    lemma_time_reads_back(s, cs + a.len(), ce, v.not_after);
}

// ---------------------------------------------------------------------------
// Names
// ---------------------------------------------------------------------------

/// Whether an attribute can be written and read back.
pub open spec fn spec_atv_wf(a: AtvView) -> bool {
    spec_oid_valid(a.oid) && spec_tag_ok(a.value.tag)
}

/// Whether a relative distinguished name can be written and read back:
/// its attributes can, and they are in strictly increasing DER order.
pub open spec fn spec_rdn_wf(r: Seq<AtvView>) -> bool {
    spec_atvs_sorted(r) && forall|j: int| 0 <= j < r.len() ==> spec_atv_wf(#[trigger] r[j])
}

/// Whether a distinguished name can be written and read back.
pub open spec fn spec_name_wf(n: Seq<Seq<AtvView>>) -> bool {
    forall|j: int| 0 <= j < n.len() ==> spec_rdn_wf(#[trigger] n[j])
}

/// An attribute written at position `i` reads back.
pub proof fn lemma_atv_reads_back(s: Seq<u8>, i: int, end: int, a: AtvView)
    requires
        spec_atv_wf(a),
        spec_encode_atv(a) is Some,
        spec_lies_at(s, i, end, spec_encode_atv(a).unwrap()),
    ensures
        spec_atv_at(s, i, end) == Some((a, i + spec_encode_atv(a).unwrap().len())),
{
    let oe = spec_wrap(0x06, a.oid).unwrap();
    let ve = spec_encode_any(a.value).unwrap();
    let c = oe + ve;
    lemma_content_lies(s, i, end, 0x30, c);
    let w = spec_wrap(0x30, c).unwrap();
    let h = 1 + spec_encode_length(c.len()).len();
    let (cs, ce) = (i + h, i + w.len());
    lemma_lies_at_cat(s, cs, ce, oe, ve);
    lemma_oid_reads_back(s, cs, ce, a.oid);
    lemma_any_reads_back(s, cs + oe.len(), ce, a.value);
}

/// The encoding of a list of attributes starts with that of its first.
pub proof fn lemma_encode_atv_list_first(l: Seq<AtvView>)
    requires
        l.len() > 0,
    ensures
        spec_encode_atv_list(l) == spec_cat(spec_encode_atv(l[0]), spec_encode_atv_list(l.drop_first())),
    decreases l.len(),
{
    let dl = l.drop_last();
    let df = l.drop_first();
    if l.len() > 1 {
        lemma_encode_atv_list_first(dl);
        assert(dl.drop_first() =~= df.drop_last());
        assert(df.last() == l.last());
        assert(dl[0] == l[0]);
        assert(spec_encode_atv_list(l) == spec_cat(spec_encode_atv_list(dl), spec_encode_atv(l.last())));
        assert(spec_encode_atv_list(df) == spec_cat(spec_encode_atv_list(df.drop_last()), spec_encode_atv(df.last())));
        lemma_cat_assoc(spec_encode_atv(l[0]), spec_encode_atv_list(dl.drop_first()), spec_encode_atv(l.last()));
    } else {
        assert(df.len() == 0);
        assert(dl.len() == 0);
        assert(l.last() == l[0]);
        assert(spec_encode_atv_list(l) == spec_cat(spec_encode_atv_list(dl), spec_encode_atv(l.last())));
        lemma_cat_empty(spec_encode_atv(l[0]));
    }
}

/// Attributes written one after the other from `p` to `e` read back.
proof fn lemma_atv_list_reads_back(s: Seq<u8>, p: int, e: int, l: Seq<AtvView>)
    requires
        forall|j: int| 0 <= j < l.len() ==> spec_atv_wf(#[trigger] l[j]),
        spec_encode_atv_list(l) is Some,
        spec_lies_at(s, p, e, spec_encode_atv_list(l).unwrap()),
        p + spec_encode_atv_list(l).unwrap().len() == e,
    ensures
        spec_atv_list(s, p, e) == Some(l),
    decreases l.len(),
{
    if l.len() == 0 {
        return;
    }
    lemma_encode_atv_list_first(l);
    let a = spec_encode_atv(l[0]).unwrap();
    let rest = spec_encode_atv_list(l.drop_first()).unwrap();
    lemma_lies_at_cat(s, p, e, a, rest);
    assert(spec_atv_wf(l[0]));
    lemma_atv_reads_back(s, p, e, l[0]);
    assert(a.len() > 0);
    assert forall|j: int| 0 <= j < l.drop_first().len() implies spec_atv_wf(#[trigger] l.drop_first()[j]) by {
        assert(l.drop_first()[j] == l[j + 1]);
    }
    lemma_atv_list_reads_back(s, p + a.len(), e, l.drop_first());
    assert(seq![l[0]] + l.drop_first() =~= l);
}

/// A relative distinguished name written at position `i` reads back.
pub proof fn lemma_rdn_reads_back(s: Seq<u8>, i: int, end: int, r: Seq<AtvView>)
    requires
        spec_rdn_wf(r),
        spec_encode_rdn(r) is Some,
        spec_lies_at(s, i, end, spec_encode_rdn(r).unwrap()),
    ensures
        spec_rdn_at(s, i, end) == Some((r, i + spec_encode_rdn(r).unwrap().len())),
{
    let c = spec_encode_atv_list(r).unwrap();
    lemma_content_lies(s, i, end, 0x31, c);
    let w = spec_wrap(0x31, c).unwrap();
    let h = 1 + spec_encode_length(c.len()).len();
    lemma_atv_list_reads_back(s, i + h, i + w.len(), r);
    if spec_atvs_dup(r) {
        let (a, b) = choose|a: int, b: int| 0 <= a < b < r.len() && crate::name::spec_atv_order(#[trigger] r[a], #[trigger] r[b]) == 0;
        assert(false);
    }
    let o = spec_atvs_in_der_order(r);
    assert(spec_atvs_sorted(r) && r.to_set() == r.to_set());
    lemma_sorted_unique(o, r);
}

/// The encoding of a list of relative distinguished names starts with
/// that of its first.
pub proof fn lemma_encode_rdn_list_first(l: Seq<Seq<AtvView>>)
    requires
        l.len() > 0,
    ensures
        spec_encode_rdn_list(l) == spec_cat(spec_encode_rdn(l[0]), spec_encode_rdn_list(l.drop_first())),
    decreases l.len(),
{
    let dl = l.drop_last();
    let df = l.drop_first();
    if l.len() > 1 {
        lemma_encode_rdn_list_first(dl);
        assert(dl.drop_first() =~= df.drop_last());
        assert(df.last() == l.last());
        assert(dl[0] == l[0]);
        assert(spec_encode_rdn_list(l) == spec_cat(spec_encode_rdn_list(dl), spec_encode_rdn(l.last())));
        assert(spec_encode_rdn_list(df) == spec_cat(spec_encode_rdn_list(df.drop_last()), spec_encode_rdn(df.last())));
        lemma_cat_assoc(spec_encode_rdn(l[0]), spec_encode_rdn_list(dl.drop_first()), spec_encode_rdn(l.last()));
    } else {
        assert(df.len() == 0);
        assert(dl.len() == 0);
        assert(l.last() == l[0]);
        assert(spec_encode_rdn_list(l) == spec_cat(spec_encode_rdn_list(dl), spec_encode_rdn(l.last())));
        lemma_cat_empty(spec_encode_rdn(l[0]));
    }
}

/// Relative distinguished names written one after the other from `p` to
/// `e` read back.
proof fn lemma_rdn_list_reads_back(s: Seq<u8>, p: int, e: int, l: Seq<Seq<AtvView>>)
    requires
        spec_name_wf(l),
        spec_encode_rdn_list(l) is Some,
        spec_lies_at(s, p, e, spec_encode_rdn_list(l).unwrap()),
        p + spec_encode_rdn_list(l).unwrap().len() == e,
    ensures
        spec_rdn_list(s, p, e) == Some(l),
    decreases l.len(),
{
    if l.len() == 0 {
        return;
    }
    lemma_encode_rdn_list_first(l);
    let a = spec_encode_rdn(l[0]).unwrap();
    let rest = spec_encode_rdn_list(l.drop_first()).unwrap();
    lemma_lies_at_cat(s, p, e, a, rest);
    assert(spec_rdn_wf(l[0]));
    lemma_rdn_reads_back(s, p, e, l[0]);
    assert(a.len() > 0);
    assert forall|j: int| 0 <= j < l.drop_first().len() implies spec_rdn_wf(#[trigger] l.drop_first()[j]) by {
        assert(l.drop_first()[j] == l[j + 1]);
    }
    lemma_rdn_list_reads_back(s, p + a.len(), e, l.drop_first());
    assert(seq![l[0]] + l.drop_first() =~= l);
}

/// A distinguished name written at position `i` reads back.
pub proof fn lemma_name_reads_back(s: Seq<u8>, i: int, end: int, n: Seq<Seq<AtvView>>)
    requires
        spec_name_wf(n),
        spec_encode_name(n) is Some,
        spec_lies_at(s, i, end, spec_encode_name(n).unwrap()),
    ensures
        spec_name_at(s, i, end) == Some((n, i + spec_encode_name(n).unwrap().len())),
{
    let c = spec_encode_rdn_list(n).unwrap();
    lemma_content_lies(s, i, end, 0x30, c);
    let w = spec_wrap(0x30, c).unwrap();
    let h = 1 + spec_encode_length(c.len()).len();
    lemma_rdn_list_reads_back(s, i + h, i + w.len(), n);
}

// ---------------------------------------------------------------------------
// Extensions
// ---------------------------------------------------------------------------

/// Whether an extension can be written and read back.
pub open spec fn spec_ext_wf(x: ExtView) -> bool {
    spec_oid_valid(x.extn_id)
}

/// Whether extensions can be written and read back.
pub open spec fn spec_exts_wf(l: Seq<ExtView>) -> bool {
    forall|j: int| 0 <= j < l.len() ==> spec_ext_wf(#[trigger] l[j])
}

/// An extension written at position `i` reads back.
pub proof fn lemma_ext_reads_back(s: Seq<u8>, i: int, end: int, x: ExtView)
    requires
        spec_ext_wf(x),
        spec_encode_ext(x) is Some,
        spec_lies_at(s, i, end, spec_encode_ext(x).unwrap()),
    ensures
        spec_ext_at(s, i, end) == Some((x, i + spec_encode_ext(x).unwrap().len())),
{
    let oe = spec_wrap(0x06, x.extn_id).unwrap();
    let ce: Seq<u8> = if x.critical { seq![0x01u8, 0x01, 0xFF] } else { Seq::empty() };
    let ve = spec_wrap(0x04, x.extn_value).unwrap();
    let c = oe + ce + ve;
    lemma_content_lies(s, i, end, 0x30, c);
    let w = spec_wrap(0x30, c).unwrap();
    let h = 1 + spec_encode_length(c.len()).len();
    let (cs, cend) = (i + h, i + w.len());
    lemma_lies_at_cat(s, cs, cend, oe + ce, ve);
    lemma_lies_at_cat(s, cs, cend, oe, ce);
    lemma_oid_reads_back(s, cs, cend, x.extn_id);
    let p = cs + oe.len();
    let q = p + ce.len();
    lemma_tlv_reads_back(s, q, cend, 0x04, x.extn_value);
    assert(s[q] == 0x04) by {
        assert(s.subrange(q, q + ve.len())[0] == s[q]);
        assert(ve[0] == 0x04);
    }
    if x.critical {
        lemma_true_reads_back();
        lemma_tlv_reads_back(s, p, cend, 0x01, seq![0xFFu8]);
        assert(s[p] == 0x01) by {
            assert(s.subrange(p, p + 3)[0] == s[p]);
        }
        assert(spec_critical_at(s, p, cend) == Some((true, q)));
    } else {
        assert(spec_critical_at(s, p, cend) == Some((false, q)));
    }
}

/// The encoding of a list of extensions starts with that of its first.
pub proof fn lemma_encode_ext_list_first(l: Seq<ExtView>)
    requires
        l.len() > 0,
    ensures
        spec_encode_ext_list(l) == spec_cat(spec_encode_ext(l[0]), spec_encode_ext_list(l.drop_first())),
    decreases l.len(),
{
    let dl = l.drop_last();
    let df = l.drop_first();
    if l.len() > 1 {
        lemma_encode_ext_list_first(dl);
        assert(dl.drop_first() =~= df.drop_last());
        assert(df.last() == l.last());
        assert(dl[0] == l[0]);
        assert(spec_encode_ext_list(l) == spec_cat(spec_encode_ext_list(dl), spec_encode_ext(l.last())));
        assert(spec_encode_ext_list(df) == spec_cat(spec_encode_ext_list(df.drop_last()), spec_encode_ext(df.last())));
        lemma_cat_assoc(spec_encode_ext(l[0]), spec_encode_ext_list(dl.drop_first()), spec_encode_ext(l.last()));
    } else {
        assert(df.len() == 0);
        assert(dl.len() == 0);
        assert(l.last() == l[0]);
        assert(spec_encode_ext_list(l) == spec_cat(spec_encode_ext_list(dl), spec_encode_ext(l.last())));
        lemma_cat_empty(spec_encode_ext(l[0]));
    }
}

/// Extensions written one after the other from `p` to `e` read back.
proof fn lemma_ext_list_reads_back(s: Seq<u8>, p: int, e: int, l: Seq<ExtView>)
    requires
        spec_exts_wf(l),
        spec_encode_ext_list(l) is Some,
        spec_lies_at(s, p, e, spec_encode_ext_list(l).unwrap()),
        p + spec_encode_ext_list(l).unwrap().len() == e,
    ensures
        spec_ext_list(s, p, e) == Some(l),
    decreases l.len(),
{
    if l.len() == 0 {
        return;
    }
    lemma_encode_ext_list_first(l);
    let a = spec_encode_ext(l[0]).unwrap();
    let rest = spec_encode_ext_list(l.drop_first()).unwrap();
    lemma_lies_at_cat(s, p, e, a, rest);
    assert(spec_ext_wf(l[0]));
    lemma_ext_reads_back(s, p, e, l[0]);
    assert(a.len() > 0);
    assert forall|j: int| 0 <= j < l.drop_first().len() implies spec_ext_wf(#[trigger] l.drop_first()[j]) by {
        assert(l.drop_first()[j] == l[j + 1]);
    }
    lemma_ext_list_reads_back(s, p + a.len(), e, l.drop_first());
    assert(seq![l[0]] + l.drop_first() =~= l);
}

/// Extensions written as a SEQUENCE at position `i` read back.
pub proof fn lemma_exts_reads_back(s: Seq<u8>, i: int, end: int, l: Seq<ExtView>)
    requires
        spec_exts_wf(l),
        spec_encode_exts(l) is Some,
        spec_lies_at(s, i, end, spec_encode_exts(l).unwrap()),
    ensures
        spec_exts_at(s, i, end) == Some((l, i + spec_encode_exts(l).unwrap().len())),
{
    let c = spec_encode_ext_list(l).unwrap();
    lemma_content_lies(s, i, end, 0x30, c);
    let w = spec_wrap(0x30, c).unwrap();
    let h = 1 + spec_encode_length(c.len()).len();
    lemma_ext_list_reads_back(s, i + h, i + w.len(), l);
}

// ---------------------------------------------------------------------------
// Optional fields of a TBSCertificate
// ---------------------------------------------------------------------------

/// The first octet of a TLV is its tag.
pub proof fn lemma_wrap_first(tag: u8, content: Seq<u8>)
    requires
        spec_wrap(tag, content) is Some,
    ensures
        spec_wrap(tag, content).unwrap().len() > 0,
        spec_wrap(tag, content).unwrap()[0] == tag,
{
}

/// The octet at a position of a byte string that lies at `i`.
pub proof fn lemma_lies_at_index(s: Seq<u8>, i: int, end: int, w: Seq<u8>, k: int)
    requires
        spec_lies_at(s, i, end, w),
        0 <= k < w.len(),
    ensures
        s[i + k] == w[k],
{
    assert(s.subrange(i, i + w.len())[k] == s[i + k]);
}

/// Whether, at `q`, a scan for the optional context-specific field number
/// `n` stops at once: at the end, or at an identifier octet that is not
/// context-specific or has a higher number.
pub open spec fn spec_next_ok(s: Seq<u8>, q: int, e: int, n: u8) -> bool {
    q == e || (q < e && spec_tag_ok(s[q]) && (!spec_is_context(s[q]) || spec_tag_number(s[q]) > n))
}

/// A scan that stops at once finds nothing.
pub proof fn lemma_scan_stops(s: Seq<u8>, q: int, e: int, n: u8)
    requires
        0 <= q <= e <= s.len(),
        spec_next_ok(s, q, e, n),
    ensures
        spec_ctx_scan(s, q, e, n) == Some((None::<(u8, int, int)>, q)),
{
}

/// The version field written at `c` reads back, when a field that is
/// not context-specific follows it.
pub proof fn lemma_version_field_reads_back(s: Seq<u8>, c: int, e: int, v: Version)
    requires
        spec_encode_version(v) is Some,
        spec_lies_at(s, c, e, spec_encode_version(v).unwrap()),
        spec_next_ok(s, c + spec_encode_version(v).unwrap().len(), e, 0),
        c + spec_encode_version(v).unwrap().len() < e,
    ensures
        spec_version_field(s, c, e) == Some((v, c + spec_encode_version(v).unwrap().len())),
{
    if v == Version::V1 {
        lemma_scan_stops(s, c, e, 0);
    } else {
        let u = seq![spec_version_value(v)];
        let ie = spec_uint_encode(u);
        assert(ie == u);
        let inner = spec_wrap(0x02, ie).unwrap();
        let w = spec_wrap(0xA0, inner).unwrap();
        lemma_content_lies(s, c, e, 0xA0, inner);
        let h = 1 + spec_encode_length(inner.len()).len();
        lemma_content_lies(s, c + h, c + w.len(), 0x02, ie);
        lemma_lies_at_index(s, c, e, w, 0);
        lemma_wrap_first(0xA0, inner);
        assert(spec_uint_content(u) == Some(u));
        assert(spec_version_from_value(spec_version_value(v)) == Some(v));
        assert(spec_ctx_scan(s, c, e, 0) == Some((Some((0xA0u8, c + h, c + w.len())), c + w.len())));
    }
}

/// An optional unique identifier written at `p` with tag `0x80 + n`
/// (`n` being 1 or 2) reads back, when what follows stops a scan.
pub proof fn lemma_unique_id_reads_back(s: Seq<u8>, p: int, e: int, n: u8, b: Option<BitStringView>)
    requires
        n == 1 || n == 2,
        b matches Some(x) ==> spec_bit_string_wf(x),
        spec_encode_unique_id((0x80 + n) as u8, b) is Some,
        spec_lies_at(s, p, e, spec_encode_unique_id((0x80 + n) as u8, b).unwrap()),
        spec_next_ok(s, p + spec_encode_unique_id((0x80 + n) as u8, b).unwrap().len(), e, n),
    ensures
        spec_unique_id_field(s, p, e, n) == Some((b, p + spec_encode_unique_id((0x80 + n) as u8, b).unwrap().len())),
{
    let t = (0x80 + n) as u8;
    match b {
        None => {
            lemma_scan_stops(s, p, e, n);
        },
        Some(x) => {
            let c = spec_bit_string_encode(x);
            let w = spec_wrap(t, c).unwrap();
            lemma_content_lies(s, p, e, t, c);
            lemma_lies_at_index(s, p, e, w, 0);
            lemma_wrap_first(t, c);
            lemma_bit_string_reads_back(x);
            let h = 1 + spec_encode_length(c.len()).len();
            assert(spec_ctx_scan(s, p, e, n) == Some((Some((t, p + h, p + w.len())), p + w.len())));
        },
    }
}

/// The optional extensions field written at `p` reads back, when it ends
/// the content.
pub proof fn lemma_extensions_field_reads_back(s: Seq<u8>, p: int, e: int, x: Option<Seq<ExtView>>)
    requires
        x matches Some(l) ==> spec_exts_wf(l),
        spec_encode_extensions_field(x) is Some,
        spec_lies_at(s, p, e, spec_encode_extensions_field(x).unwrap()),
        p + spec_encode_extensions_field(x).unwrap().len() == e,
    ensures
        spec_extensions_field(s, p, e) == Some((x, e)),
{
    match x {
        None => {
            lemma_scan_stops(s, p, e, 3);
        },
        Some(l) => {
            let c = spec_encode_exts(l).unwrap();
            let w = spec_wrap(0xA3, c).unwrap();
            lemma_content_lies(s, p, e, 0xA3, c);
            lemma_lies_at_index(s, p, e, w, 0);
            lemma_wrap_first(0xA3, c);
            let h = 1 + spec_encode_length(c.len()).len();
            lemma_exts_reads_back(s, p + h, p + w.len(), l);
            assert(spec_ctx_scan(s, p, e, 3) == Some((Some((0xA3u8, p + h, p + w.len())), p + w.len())));
        },
    }
}

// ---------------------------------------------------------------------------
// TBSCertificate
// ---------------------------------------------------------------------------

/// Whether a TBSCertificate can be written and read back: a canonical
/// serial number, and fields that can each be.
pub open spec fn spec_tbs_wf(t: TbsView) -> bool {
    &&& spec_uint_canonical(t.serial_number)
    &&& spec_alg_id_wf(t.signature)
    &&& spec_name_wf(t.issuer)
    &&& spec_validity_wf(t.validity)
    &&& spec_name_wf(t.subject)
    &&& spec_spki_wf(t.subject_public_key_info)
    &&& (t.issuer_unique_id matches Some(b) ==> spec_bit_string_wf(b))
    &&& (t.subject_unique_id matches Some(b) ==> spec_bit_string_wf(b))
    &&& (t.extensions matches Some(l) ==> spec_exts_wf(l))
}

/// The version and serial number of a TBSCertificate, written at `c`, read
/// back.
proof fn lemma_version_serial_reads_back(s: Seq<u8>, c: int, e: int, v: Version, serial: Seq<u8>)
    requires
        spec_uint_canonical(serial),
        spec_encode_version(v) is Some,
        spec_wrap(0x02, spec_uint_encode(serial)) is Some,
        spec_lies_at(s, c, e, spec_encode_version(v).unwrap()),
        spec_lies_at(s, c + spec_encode_version(v).unwrap().len(), e, spec_wrap(0x02, spec_uint_encode(serial)).unwrap()),
    ensures
        ({
            let p1 = c + spec_encode_version(v).unwrap().len();
            let p2 = p1 + spec_wrap(0x02, spec_uint_encode(serial)).unwrap().len();
            &&& spec_version_field(s, c, e) == Some((v, p1))
            &&& spec_tlv(s, p1, e) matches Some((st, sc, se)) && st == 0x02 && se == p2
                && spec_uint_content(s.subrange(sc, se)) == Some(serial)
        }),
{
    let p1 = c + spec_encode_version(v).unwrap().len();
    let se = spec_wrap(0x02, spec_uint_encode(serial)).unwrap();
    lemma_wrap_first(0x02, spec_uint_encode(serial));
    lemma_lies_at_index(s, p1, e, se, 0);
    lemma_version_field_reads_back(s, c, e, v);
    lemma_tlv_reads_back(s, p1, e, 0x02, spec_uint_encode(serial));
    lemma_uint_reads_back(serial);
}

/// The fields of a TBSCertificate from its version to its validity,
/// written at `c`, read back.
pub proof fn lemma_tbs_head_reads_back(s: Seq<u8>, c: int, e: int, t: TbsView)
    requires
        spec_tbs_wf(t),
        spec_encode_tbs_head(t) is Some,
        spec_lies_at(s, c, e, spec_encode_tbs_head(t).unwrap()),
    ensures
        spec_tbs_head(s, c, e) == Some((
            t.version,
            t.serial_number,
            t.signature,
            t.issuer,
            t.validity,
            c + spec_encode_tbs_head(t).unwrap().len(),
        )),
{
    let ve = spec_encode_version(t.version).unwrap();
    let se = spec_wrap(0x02, spec_uint_encode(t.serial_number)).unwrap();
    let ae = spec_encode_alg_id(t.signature).unwrap();
    let ie = spec_encode_name(t.issuer).unwrap();
    let de = spec_encode_validity(t.validity).unwrap();
    assert(spec_encode_tbs_head(t).unwrap() == ve + (se + (ae + (ie + de))));
    lemma_lies_at_cat(s, c, e, ve, se + (ae + (ie + de)));
    let p1 = c + ve.len();
    lemma_lies_at_cat(s, p1, e, se, ae + (ie + de));
    let p2 = p1 + se.len();
    lemma_lies_at_cat(s, p2, e, ae, ie + de);
    let p3 = p2 + ae.len();
    lemma_lies_at_cat(s, p3, e, ie, de);
    let p4 = p3 + ie.len();
    lemma_version_serial_reads_back(s, c, e, t.version, t.serial_number);
    lemma_alg_id_reads_back(s, p2, e, t.signature);
    lemma_name_reads_back(s, p3, e, t.issuer);
    lemma_validity_reads_back(s, p4, e, t.validity);
}

/// The optional fields of a TBSCertificate (unique identifiers and
/// extensions), written at `p` up to the content's end, read back.
pub proof fn lemma_tbs_optional_reads_back(s: Seq<u8>, p: int, e: int, t: TbsView)
    requires
        spec_tbs_wf(t),
        spec_encode_unique_id(0x81, t.issuer_unique_id) is Some,
        spec_encode_unique_id(0x82, t.subject_unique_id) is Some,
        spec_encode_extensions_field(t.extensions) is Some,
        spec_lies_at(
            s,
            p,
            e,
            spec_encode_unique_id(0x81, t.issuer_unique_id).unwrap() + (spec_encode_unique_id(
                0x82,
                t.subject_unique_id,
            ).unwrap() + spec_encode_extensions_field(t.extensions).unwrap()),
        ),
        p + spec_encode_unique_id(0x81, t.issuer_unique_id).unwrap().len() + spec_encode_unique_id(
            0x82,
            t.subject_unique_id,
        ).unwrap().len() + spec_encode_extensions_field(t.extensions).unwrap().len() == e,
    ensures
        ({
            let p8 = p + spec_encode_unique_id(0x81, t.issuer_unique_id).unwrap().len();
            let p9 = p8 + spec_encode_unique_id(0x82, t.subject_unique_id).unwrap().len();
            &&& spec_unique_id_field(s, p, e, 1) == Some((t.issuer_unique_id, p8))
            &&& spec_unique_id_field(s, p8, e, 2) == Some((t.subject_unique_id, p9))
            &&& spec_extensions_field(s, p9, e) == Some((t.extensions, e))
        }),
{
    let ue = spec_encode_unique_id(0x81, t.issuer_unique_id).unwrap();
    let we = spec_encode_unique_id(0x82, t.subject_unique_id).unwrap();
    let xe = spec_encode_extensions_field(t.extensions).unwrap();
    lemma_lies_at_cat(s, p, e, ue, we + xe);
    let p8 = p + ue.len();
    lemma_lies_at_cat(s, p8, e, we, xe);
    let p9 = p8 + we.len();
    // What follows each optional field stops the scan for it.
    match t.extensions {
        Some(l) => {
            lemma_wrap_first(0xA3, spec_encode_exts(l).unwrap());
            lemma_lies_at_index(s, p9, e, xe, 0);
        },
        None => {},
    }
    assert(spec_next_ok(s, p9, e, 2));
    match t.subject_unique_id {
        Some(b) => {
            lemma_wrap_first(0x82, spec_bit_string_encode(b));
            lemma_lies_at_index(s, p8, e, we, 0);
        },
        None => {},
    }
    assert(spec_next_ok(s, p8, e, 1));
    lemma_unique_id_reads_back(s, p, e, 1, t.issuer_unique_id);
    lemma_unique_id_reads_back(s, p8, e, 2, t.subject_unique_id);
    lemma_extensions_field_reads_back(s, p9, e, t.extensions);
}

/// The fields of a TBSCertificate from its subject to its extensions,
/// written at `p` up to the content's end, read back one after the other.
pub proof fn lemma_tbs_tail_reads_back(s: Seq<u8>, p: int, e: int, t: TbsView)
    requires
        spec_tbs_wf(t),
        spec_encode_tbs_tail(t) is Some,
        spec_lies_at(s, p, e, spec_encode_tbs_tail(t).unwrap()),
        p + spec_encode_tbs_tail(t).unwrap().len() == e,
    ensures
        ({
            let p6 = p + spec_encode_name(t.subject).unwrap().len();
            let p7 = p6 + spec_encode_spki(t.subject_public_key_info).unwrap().len();
            let p8 = p7 + spec_encode_unique_id(0x81, t.issuer_unique_id).unwrap().len();
            let p9 = p8 + spec_encode_unique_id(0x82, t.subject_unique_id).unwrap().len();
            &&& spec_name_at(s, p, e) == Some((t.subject, p6))
            &&& spec_spki_at(s, p6, e) == Some((t.subject_public_key_info, p7))
            &&& spec_unique_id_field(s, p7, e, 1) == Some((t.issuer_unique_id, p8))
            &&& spec_unique_id_field(s, p8, e, 2) == Some((t.subject_unique_id, p9))
            &&& spec_extensions_field(s, p9, e) == Some((t.extensions, e))
        }),
{
    let ne = spec_encode_name(t.subject).unwrap();
    let ke = spec_encode_spki(t.subject_public_key_info).unwrap();
    let ue = spec_encode_unique_id(0x81, t.issuer_unique_id).unwrap();
    let we = spec_encode_unique_id(0x82, t.subject_unique_id).unwrap();
    let xe = spec_encode_extensions_field(t.extensions).unwrap();
    assert(spec_encode_tbs_tail(t).unwrap() == ne + (ke + (ue + (we + xe))));
    lemma_lies_at_cat(s, p, e, ne, ke + (ue + (we + xe)));
    let p6 = p + ne.len();
    lemma_lies_at_cat(s, p6, e, ke, ue + (we + xe));
    let p7 = p6 + ke.len();
    lemma_name_reads_back(s, p, e, t.subject);
    lemma_spki_reads_back(s, p6, e, t.subject_public_key_info);
    lemma_tbs_optional_reads_back(s, p7, e, t);
}

/// A TBSCertificate written at position `i` reads back.
pub proof fn lemma_tbs_reads_back(s: Seq<u8>, i: int, end: int, t: TbsView)
    requires
        spec_tbs_wf(t),
        spec_encode_tbs(t) is Some,
        spec_lies_at(s, i, end, spec_encode_tbs(t).unwrap()),
    ensures
        spec_tbs_at(s, i, end) == Some((t, i + spec_encode_tbs(t).unwrap().len())),
{
    let he = spec_encode_tbs_head(t).unwrap();
    let te = spec_encode_tbs_tail(t).unwrap();
    let c = he + te;
    lemma_content_lies(s, i, end, 0x30, c);
    let w = spec_wrap(0x30, c).unwrap();
    let h = 1 + spec_encode_length(c.len()).len();
    let (cs, ce) = (i + h, i + w.len());
    lemma_lies_at_cat(s, cs, ce, he, te);
    lemma_tbs_head_reads_back(s, cs, ce, t);
    lemma_tbs_tail_reads_back(s, cs + he.len(), ce, t);
    assert(spec_tbs_content(s, cs, ce) == Some(t));
}

// ---------------------------------------------------------------------------
// Certificates
// ---------------------------------------------------------------------------

/// Whether a certificate can be written and read back: its
/// TBSCertificate, signature algorithm and signature can.
pub open spec fn spec_certificate_wf(c: CertView) -> bool {
    &&& spec_tbs_wf(c.tbs_certificate)
    &&& spec_alg_id_wf(c.signature_algorithm)
    &&& spec_bit_string_wf(c.signature_value)
}

/// A certificate written at position `i` reads back.
pub proof fn lemma_certificate_at_reads_back(s: Seq<u8>, i: int, end: int, c: CertView)
    requires
        spec_certificate_wf(c),
        spec_encode_certificate(c) is Some,
        spec_lies_at(s, i, end, spec_encode_certificate(c).unwrap()),
    ensures
        spec_certificate_at(s, i, end) == Some((c, i + spec_encode_certificate(c).unwrap().len())),
{
    reveal(spec_encode_certificate);
    let te = spec_encode_tbs(c.tbs_certificate).unwrap();
    let ae = spec_encode_alg_id(c.signature_algorithm).unwrap();
    let be = spec_encode_bit_string(0x03, c.signature_value).unwrap();
    let content = te + (ae + be);
    lemma_content_lies(s, i, end, 0x30, content);
    let w = spec_wrap(0x30, content).unwrap();
    let h = 1 + spec_encode_length(content.len()).len();
    let (cs, ce) = (i + h, i + w.len());
    lemma_lies_at_cat(s, cs, ce, te, ae + be);
    lemma_lies_at_cat(s, cs + te.len(), ce, ae, be);
    lemma_tbs_reads_back(s, cs, ce, c.tbs_certificate);
    lemma_alg_id_reads_back(s, cs + te.len(), ce, c.signature_algorithm);
    lemma_bit_string_at_reads_back(s, cs + te.len() + ae.len(), ce, c.signature_value);
}

/// Reading a certificate back from its DER encoding gives the same
/// certificate, whatever bytes follow the encoding (as long as the whole
/// stays within `MAX_LEN`).
pub proof fn lemma_certificate_round_trip(c: CertView, rest: Seq<u8>)
    requires
        spec_certificate_wf(c),
        spec_encode_certificate(c) is Some,
        spec_encode_certificate(c).unwrap().len() + rest.len() <= MAX_LEN,
    ensures
        spec_certificate_from_der(spec_encode_certificate(c).unwrap() + rest) == Some(c),
{
    reveal(spec_certificate_from_der);
    let w = spec_encode_certificate(c).unwrap();
    let s = w + rest;
    assert(s.subrange(0, w.len() as int) =~= w);
    lemma_certificate_at_reads_back(s, 0, s.len() as int, c);
}

/// DER bytes that encode a certificate, read and written back, give the
/// same bytes.
pub proof fn lemma_certificate_bytes_round_trip(c: CertView, rest: Seq<u8>)
    requires
        spec_certificate_wf(c),
        spec_encode_certificate(c) is Some,
        spec_encode_certificate(c).unwrap().len() + rest.len() <= MAX_LEN,
    ensures
        ({
            let w = spec_encode_certificate(c).unwrap();
            spec_certificate_from_der(w + rest) matches Some(d) && spec_encode_certificate(d) == Some(w)
        }),
{
    lemma_certificate_round_trip(c, rest);
}

// ---------------------------------------------------------------------------
// Names, attributes and alternative names on their own
// ---------------------------------------------------------------------------

/// Reading a distinguished name back from its DER encoding gives the same
/// name.
pub proof fn lemma_name_round_trip(n: Seq<Seq<AtvView>>)
    requires
        spec_name_wf(n),
        spec_encode_name(n) is Some,
    ensures
        spec_name_from_der(spec_encode_name(n).unwrap()) == Some(n),
{
    let w = spec_encode_name(n).unwrap();
    assert(w.subrange(0, w.len() as int) =~= w);
    lemma_name_reads_back(w, 0, w.len() as int, n);
}

/// The UTF-8 encoding of a non-empty string is not empty, is valid, and
/// decodes to the string.
pub proof fn lemma_utf8_text(t: Seq<char>)
    ensures
        valid_utf8(encode_utf8(t)),
        decode_utf8(encode_utf8(t)) == t,
        t.len() > 0 ==> encode_utf8(t).len() > 0,
{
    encode_utf8_valid_utf8(t);
    encode_utf8_decode_utf8(t);
    if t.len() > 0 && encode_utf8(t).len() == 0 {
        assert(encode_utf8(t) =~= Seq::<u8>::empty());
        assert(decode_utf8(Seq::<u8>::empty()) =~= Seq::<char>::empty());
    }
}

/// An attribute made from a non-empty UTF-8 string gives that string back
/// as its value.
pub proof fn lemma_utf8_attribute_round_trip(oid: Seq<u8>, t: Seq<char>)
    requires
        t.len() > 0,
        spec_atv_new(oid, DirStrView::Utf8String(t)) is Some,
    ensures
        spec_atv_value_as_str(spec_atv_new(oid, DirStrView::Utf8String(t)).unwrap()) == Ok::<Seq<char>, crate::error::Asn1Error>(t),
{
    lemma_utf8_text(t);
}

/// Whether a general name can be written and read back: a directory name
/// that can, a valid registered identifier.
#[verifier::opaque]
pub open spec fn spec_gn_wf(g: GnView) -> bool {
    match g {
        GnView::DirectoryName(n) => spec_name_wf(n),
        GnView::RegisteredId(o) => spec_oid_valid(o),
        _ => true,
    }
}

/// The content of a general name, as its encoding holds it.
pub open spec fn spec_gn_content(g: GnView) -> Seq<u8> {
    match g {
        GnView::OtherName(b) => b,
        GnView::Rfc822Name(x) => encode_utf8(x),
        GnView::DnsName(x) => encode_utf8(x),
        GnView::X400Address(b) => b,
        GnView::DirectoryName(n) => spec_encode_name(n).unwrap(),
        GnView::EdiPartyName(b) => b,
        GnView::Uri(x) => encode_utf8(x),
        GnView::IpAddress(b) => b,
        GnView::RegisteredId(o) => spec_wrap(0x06, o).unwrap(),
    }
}

/// Content octets of a byte-valued general name decode to it.
proof fn lemma_gn_decode_bytes(s: Seq<u8>, c: int, end: int, t: u8, b: Seq<u8>, g: GnView)
    requires
        spec_lies_at(s, c, end, b),
        0x80 <= t <= 0xBF,
        (t % 32 == 0 && g == GnView::OtherName(b)) || (t % 32 == 3 && g == GnView::X400Address(b)) || (t % 32 == 5
            && g == GnView::EdiPartyName(b)) || (t % 32 == 7 && g == GnView::IpAddress(b)),
    ensures
        spec_gn_decode(s, t, c, b.len() as int, end) == Ok::<(GnView, int), crate::error::Asn1Error>((g, c + b.len())),
{
    reveal(crate::general_name::spec_gn_decode);
    assert(s.subrange(c, c + b.len()) == b);
}

/// Content octets of a text-valued general name decode to it.
proof fn lemma_gn_decode_text(s: Seq<u8>, c: int, end: int, t: u8, x: Seq<char>, g: GnView)
    requires
        spec_lies_at(s, c, end, encode_utf8(x)),
        0x80 <= t <= 0xBF,
        (t % 32 == 1 && g == GnView::Rfc822Name(x)) || (t % 32 == 2 && g == GnView::DnsName(x)) || (t % 32 == 6
            && g == GnView::Uri(x)),
    ensures
        spec_gn_decode(s, t, c, encode_utf8(x).len() as int, end) == Ok::<(GnView, int), crate::error::Asn1Error>(
            (g, c + encode_utf8(x).len()),
        ),
{
    reveal(crate::general_name::spec_gn_decode);
    lemma_utf8_text(x);
    let b = encode_utf8(x);
    assert(s.subrange(c, c + b.len()) == b);
}

/// The encoding of a directory name, lying at `c`, decodes to it.
proof fn lemma_gn_decode_directory(s: Seq<u8>, c: int, end: int, n: Seq<Seq<AtvView>>)
    requires
        spec_name_wf(n),
        spec_encode_name(n) is Some,
        spec_lies_at(s, c, end, spec_encode_name(n).unwrap()),
    ensures
        spec_gn_decode(s, 0xA4, c, spec_encode_name(n).unwrap().len() as int, end) == Ok::<
            (GnView, int),
            crate::error::Asn1Error,
        >((GnView::DirectoryName(n), c + spec_encode_name(n).unwrap().len())),
{
    reveal(crate::general_name::spec_gn_decode);
    lemma_name_reads_back(s, c, end, n);
}

/// The encoding of a registered identifier, lying at `c`, decodes to it.
proof fn lemma_gn_decode_registered(s: Seq<u8>, c: int, end: int, o: Seq<u8>)
    requires
        spec_oid_valid(o),
        spec_wrap(0x06, o) is Some,
        spec_lies_at(s, c, end, spec_wrap(0x06, o).unwrap()),
    ensures
        spec_gn_decode(s, 0x88, c, spec_wrap(0x06, o).unwrap().len() as int, end) == Ok::<
            (GnView, int),
            crate::error::Asn1Error,
        >((GnView::RegisteredId(o), c + spec_wrap(0x06, o).unwrap().len())),
{
    reveal(crate::general_name::spec_gn_decode);
    lemma_oid_reads_back(s, c, end, o);
}

/// A general name written at position `i` reads back.
pub proof fn lemma_gn_reads_back(s: Seq<u8>, i: int, end: int, g: GnView)
    requires
        spec_gn_wf(g),
        spec_encode_gn(g) is Some,
        spec_lies_at(s, i, end, spec_encode_gn(g).unwrap()),
    ensures
        spec_gn_at(s, i, end) == Ok::<(GnView, int), crate::error::Asn1Error>((g, i + spec_encode_gn(g).unwrap().len())),
        spec_encode_gn(g).unwrap().len() > 0,
{
    reveal(spec_gn_at);
    reveal(spec_encode_gn);
    let t = crate::general_name::spec_gn_tag(g);
    let content = spec_gn_content(g);
    assert(spec_encode_gn(g) == spec_wrap(t, content));
    lemma_wrap_first(t, content);
    lemma_content_lies(s, i, end, t, content);
    let h = 1 + spec_encode_length(content.len()).len();
    assert(spec_header(s, i, end) == Some((t, i + h, content.len() as int)));
    reveal(spec_gn_wf);
    match g {
        GnView::OtherName(b) => lemma_gn_decode_bytes(s, i + h, end, t, b, g),
        GnView::X400Address(b) => lemma_gn_decode_bytes(s, i + h, end, t, b, g),
        GnView::EdiPartyName(b) => lemma_gn_decode_bytes(s, i + h, end, t, b, g),
        GnView::IpAddress(b) => lemma_gn_decode_bytes(s, i + h, end, t, b, g),
        GnView::Rfc822Name(x) => lemma_gn_decode_text(s, i + h, end, t, x, g),
        GnView::DnsName(x) => lemma_gn_decode_text(s, i + h, end, t, x, g),
        GnView::Uri(x) => lemma_gn_decode_text(s, i + h, end, t, x, g),
        GnView::DirectoryName(n) => lemma_gn_decode_directory(s, i + h, end, n),
        GnView::RegisteredId(o) => lemma_gn_decode_registered(s, i + h, end, o),
    }
}

/// The encoding of a list of general names starts with that of its first.
proof fn lemma_encode_gn_list_first(l: Seq<GnView>)
    requires
        l.len() > 0,
    ensures
        spec_encode_gn_list(l) == spec_cat(spec_encode_gn(l[0]), spec_encode_gn_list(l.drop_first())),
    decreases l.len(),
{
    let dl = l.drop_last();
    let df = l.drop_first();
    if l.len() > 1 {
        lemma_encode_gn_list_first(dl);
        assert(dl.drop_first() =~= df.drop_last());
        assert(df.last() == l.last());
        assert(dl[0] == l[0]);
        assert(spec_encode_gn_list(l) == spec_cat(spec_encode_gn_list(dl), spec_encode_gn(l.last())));
        assert(spec_encode_gn_list(df) == spec_cat(spec_encode_gn_list(df.drop_last()), spec_encode_gn(df.last())));
        lemma_cat_assoc(spec_encode_gn(l[0]), spec_encode_gn_list(dl.drop_first()), spec_encode_gn(l.last()));
    } else {
        assert(df.len() == 0);
        assert(dl.len() == 0);
        assert(l.last() == l[0]);
        assert(spec_encode_gn_list(l) == spec_cat(spec_encode_gn_list(dl), spec_encode_gn(l.last())));
        lemma_cat_empty(spec_encode_gn(l[0]));
    }
}

/// General names written one after the other from `p` to `e` read back.
#[verifier::rlimit(30)]
proof fn lemma_gn_list_reads_back(s: Seq<u8>, p: int, e: int, l: Seq<GnView>)
    requires
        forall|j: int| 0 <= j < l.len() ==> spec_gn_wf(#[trigger] l[j]),
        spec_encode_gn_list(l) is Some,
        spec_lies_at(s, p, e, spec_encode_gn_list(l).unwrap()),
        p + spec_encode_gn_list(l).unwrap().len() == e,
    ensures
        spec_gn_list(s, p, e) == Ok::<Seq<GnView>, crate::error::Asn1Error>(l),
    decreases l.len(),
{
    if l.len() == 0 {
        assert(l =~= Seq::<GnView>::empty());
        return;
    }
    lemma_encode_gn_list_first(l);
    let a = spec_encode_gn(l[0]).unwrap();
    let rest = spec_encode_gn_list(l.drop_first()).unwrap();
    lemma_lies_at_cat(s, p, e, a, rest);
    assert(spec_gn_wf(l[0]));
    lemma_gn_reads_back(s, p, e, l[0]);
    assert forall|j: int| 0 <= j < l.drop_first().len() implies spec_gn_wf(#[trigger] l.drop_first()[j]) by {
        assert(l.drop_first()[j] == l[j + 1]);
    }
    lemma_gn_list_reads_back(s, p + a.len(), e, l.drop_first());
    assert(seq![l[0]] + l.drop_first() =~= l);
}

/// Reading a SubjectAltName back from its DER encoding gives the same
/// names.
pub proof fn lemma_san_round_trip(l: Seq<GnView>)
    requires
        forall|j: int| 0 <= j < l.len() ==> spec_gn_wf(#[trigger] l[j]),
        spec_encode_san(l) is Some,
    ensures
        spec_san_from_der(spec_encode_san(l).unwrap()) == Ok::<Seq<GnView>, crate::error::Asn1Error>(l),
{
    let c = spec_encode_gn_list(l).unwrap();
    let w = spec_encode_san(l).unwrap();
    assert(w.subrange(0, w.len() as int) =~= w);
    lemma_content_lies(w, 0, w.len() as int, 0x30, c);
    let h = 1 + spec_encode_length(c.len()).len();
    lemma_gn_list_reads_back(w, h as int, w.len() as int, l);
}

} // verus!
