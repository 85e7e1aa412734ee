//! What is read can be written: a certificate read from DER is well formed,
//! writes back within the length limit (never longer than what it was read
//! from), and what it writes reads back as the same certificate.
use vstd::prelude::*;
use crate::der::{
    spec_is_context, spec_strip_zeros, spec_tag_number, spec_uint_content, spec_uint_encode,
    spec_any_at, spec_bit_string_content, spec_bit_string_encode, spec_cat, spec_encode_any, spec_encode_length,
    spec_length, spec_oid_at, spec_oid_valid, spec_tag_ok, spec_tlv, spec_wrap, MAX_LEN,
};
use crate::certificate::{
    spec_certificate_at, spec_certificate_from_der, spec_encode_certificate, spec_encode_tbs, spec_encode_tbs_content,
    spec_encode_tbs_head, spec_encode_tbs_tail, spec_tbs_at, spec_tbs_content, spec_tbs_head, CertView,
    spec_ctx_scan, spec_encode_extensions_field, spec_encode_unique_id, spec_encode_version, spec_extensions_field,
    spec_unique_id_field, spec_version_field, Version,
    spec_critical_at, spec_encode_ext, spec_encode_ext_list, spec_encode_exts, spec_ext_at, spec_ext_list,
    spec_exts_at, spec_octet_string_at,
    spec_alg_id_at, spec_bit_string_at, spec_encode_alg_id, spec_encode_bit_string, spec_encode_spki,
    spec_encode_validity, spec_spki_at, spec_time_at, spec_validity_at,
};
use crate::encoding_laws::{
    lemma_certificate_round_trip, spec_certificate_wf, spec_tbs_wf, spec_uint_canonical, spec_alg_id_wf,
    spec_atv_wf, spec_bit_string_wf, spec_spki_wf, spec_time_wf, spec_validity_wf,
};
use crate::name::{spec_atv_at, spec_atv_list, spec_encode_name, spec_encode_rdn, spec_encode_rdn_list, spec_name_at, spec_rdn_at, spec_rdn_list};
use crate::encoding_laws::{
    lemma_cat_assoc, lemma_cat_empty, lemma_encode_atv_list_first, lemma_encode_ext_list_first,
    lemma_encode_rdn_list_first, spec_ext_wf, spec_exts_wf, spec_name_wf, spec_rdn_wf,
};
use crate::name::{
    lemma_atv_order, lemma_sorted_unique, spec_atv_order, spec_atvs_dup, spec_atvs_in_der_order, spec_atvs_sorted,
    spec_encode_atv, spec_encode_atv_list, AtvView,
};

verus! {

// ---------------------------------------------------------------------------
// Sorting attributes into DER order
// ---------------------------------------------------------------------------

/// Inserts an attribute into a list in DER order, before the first that
/// is not below it.
pub open spec fn spec_insert_atv(o: Seq<AtvView>, x: AtvView) -> Seq<AtvView>
    decreases o.len(),
{
    if o.len() == 0 {
        seq![x]
    } else if spec_atv_order(x, o[0]) < 0 {
        seq![x] + o
    } else {
        seq![o[0]] + spec_insert_atv(o.drop_first(), x)
    }
}

/// Attributes sorted into DER order by insertion.
pub open spec fn spec_sort_atvs(l: Seq<AtvView>) -> Seq<AtvView>
    decreases l.len(),
{
    if l.len() == 0 {
        Seq::empty()
    } else {
        spec_insert_atv(spec_sort_atvs(l.drop_last()), l.last())
    }
}

/// Inserting adds exactly the element.
proof fn lemma_insert_atv_set(o: Seq<AtvView>, x: AtvView)
    ensures
        spec_insert_atv(o, x).to_set() == o.to_set().insert(x),
        spec_insert_atv(o, x).len() == o.len() + 1,
    decreases o.len(),
{
    if o.len() == 0 {
        assert(seq![x].to_set() =~= Set::<AtvView>::empty().insert(x)) by {
            assert(seq![x].to_set().contains(x)) by {
                assert(seq![x][0] == x);
            }
        }
        assert(o.to_set() =~= Set::<AtvView>::empty());
    } else if spec_atv_order(x, o[0]) < 0 {
        let r = seq![x] + o;
        assert(r.to_set() =~= o.to_set().insert(x)) by {
            assert forall|y: AtvView| r.to_set().contains(y) implies o.to_set().insert(x).contains(y) by {
                let k = choose|k: int| 0 <= k < r.len() && r[k] == y;
                if k > 0 {
                    assert(o[k - 1] == y);
                }
            }
            assert forall|y: AtvView| o.to_set().insert(x).contains(y) implies r.to_set().contains(y) by {
                if y == x {
                    assert(r[0] == y);
                } else {
                    let k = choose|k: int| 0 <= k < o.len() && o[k] == y;
                    assert(r[k + 1] == y);
                }
            }
        }
    } else {
        let t = o.drop_first();
        lemma_insert_atv_set(t, x);
        let r = seq![o[0]] + spec_insert_atv(t, x);
        let it = spec_insert_atv(t, x);
        assert(r.to_set() =~= o.to_set().insert(x)) by {
            assert forall|y: AtvView| r.to_set().contains(y) implies o.to_set().insert(x).contains(y) by {
                let k = choose|k: int| 0 <= k < r.len() && r[k] == y;
                if k == 0 {
                    assert(o[0] == y);
                } else {
                    assert(it[k - 1] == y);
                    assert(it.to_set().contains(y));
                    if y != x {
                        assert(t.to_set().contains(y));
                        let m = choose|m: int| 0 <= m < t.len() && t[m] == y;
                        assert(o[m + 1] == y);
                    }
                }
            }
            assert forall|y: AtvView| o.to_set().insert(x).contains(y) implies r.to_set().contains(y) by {
                if y == o[0] {
                    assert(r[0] == y);
                } else {
                    if y != x {
                        let k = choose|k: int| 0 <= k < o.len() && o[k] == y;
                        assert(k > 0);
                        assert(t[k - 1] == y);
                        assert(t.to_set().contains(y));
                    }
                    assert(it.to_set().contains(y));
                    let m = choose|m: int| 0 <= m < it.len() && it[m] == y;
                    assert(r[m + 1] == y);
                }
            }
        }
    }
}

/// Inserting an element that equals none of a strictly ordered list keeps
/// it strictly ordered.
proof fn lemma_insert_atv_sorted(o: Seq<AtvView>, x: AtvView)
    requires
        spec_atvs_sorted(o),
        forall|k: int| 0 <= k < o.len() ==> spec_atv_order(#[trigger] o[k], x) != 0,
    ensures
        spec_atvs_sorted(spec_insert_atv(o, x)),
    decreases o.len(),
{
    if o.len() == 0 {
        return;
    }
    let r = spec_insert_atv(o, x);
    if spec_atv_order(x, o[0]) < 0 {
        assert forall|i: int, j: int| 0 <= i < j < r.len() implies spec_atv_order(#[trigger] r[i], #[trigger] r[j]) < 0 by {
            if i == 0 {
                assert(r[j] == o[j - 1]);
                if j - 1 > 0 {
                    assert(spec_atv_order(o[0], o[j - 1]) < 0);
                    lemma_atv_order(x, o[0], o[j - 1]);
                }
            } else {
                assert(r[i] == o[i - 1] && r[j] == o[j - 1]);
            }
        }
    } else {
        let t = o.drop_first();
        assert(spec_atvs_sorted(t)) by {
            assert forall|i: int, j: int| 0 <= i < j < t.len() implies spec_atv_order(#[trigger] t[i], #[trigger] t[j]) < 0 by {
                assert(t[i] == o[i + 1] && t[j] == o[j + 1]);
            }
        }
        assert forall|k: int| 0 <= k < t.len() implies spec_atv_order(#[trigger] t[k], x) != 0 by {
            assert(t[k] == o[k + 1]);
        }
        lemma_insert_atv_sorted(t, x);
        lemma_insert_atv_set(t, x);
        let it = spec_insert_atv(t, x);
        assert(spec_atv_order(o[0], x) != 0);
        lemma_atv_order(o[0], x, x);
        assert(spec_atv_order(o[0], x) < 0);
        assert forall|i: int, j: int| 0 <= i < j < r.len() implies spec_atv_order(#[trigger] r[i], #[trigger] r[j]) < 0 by {
            if i == 0 {
                assert(r[j] == it[j - 1]);
                assert(it.to_set().contains(it[j - 1]));
                if it[j - 1] != x {
                    assert(t.to_set().contains(it[j - 1]));
                    let m = choose|m: int| 0 <= m < t.len() && t[m] == it[j - 1];
                    assert(o[m + 1] == it[j - 1]);
                    assert(spec_atv_order(o[0], o[m + 1]) < 0);
                }
            } else {
                assert(r[i] == it[i - 1] && r[j] == it[j - 1]);
            }
        }
    }
}

/// Sorting a list without two attributes equal in DER order gives a
/// strictly ordered list of the same attributes.
pub proof fn lemma_sort_atvs(l: Seq<AtvView>)
    requires
        !spec_atvs_dup(l),
    ensures
        spec_atvs_sorted(spec_sort_atvs(l)),
        spec_sort_atvs(l).to_set() == l.to_set(),
        spec_sort_atvs(l).len() == l.len(),
        spec_atvs_in_der_order(l) == spec_sort_atvs(l),
    decreases l.len(),
{
    if l.len() == 0 {
        assert(l.to_set() =~= Set::<AtvView>::empty());
        assert(Seq::<AtvView>::empty().to_set() =~= Set::<AtvView>::empty());
    } else {
        let d = l.drop_last();
        assert(!spec_atvs_dup(d)) by {
            if spec_atvs_dup(d) {
                let (a, b) = choose|a: int, b: int| 0 <= a < b < d.len() && spec_atv_order(#[trigger] d[a], #[trigger] d[b]) == 0;
                assert(d[a] == l[a] && d[b] == l[b]);
            }
        }
        lemma_sort_atvs(d);
        let o = spec_sort_atvs(d);
        let x = l.last();
        assert forall|k: int| 0 <= k < o.len() implies spec_atv_order(#[trigger] o[k], x) != 0 by {
            assert(o.to_set().contains(o[k]));
            assert(d.to_set().contains(o[k]));
            let m = choose|m: int| 0 <= m < d.len() && d[m] == o[k];
            assert(l[m] == o[k]);
            assert(l[l.len() - 1] == x);
        }
        lemma_insert_atv_sorted(o, x);
        lemma_insert_atv_set(o, x);
        assert(l.to_set() =~= d.to_set().insert(x)) by {
            assert forall|y: AtvView| l.to_set().contains(y) implies d.to_set().insert(x).contains(y) by {
                let k = choose|k: int| 0 <= k < l.len() && l[k] == y;
                if k < l.len() - 1 {
                    assert(d[k] == y);
                }
            }
            assert forall|y: AtvView| d.to_set().insert(x).contains(y) implies l.to_set().contains(y) by {
                if y == x {
                    assert(l[l.len() - 1] == y);
                } else {
                    let k = choose|k: int| 0 <= k < d.len() && d[k] == y;
                    assert(l[k] == y);
                }
            }
        }
    }
    let s = spec_sort_atvs(l);
    let w = spec_atvs_in_der_order(l);
    assert(spec_atvs_sorted(s) && s.to_set() == l.to_set());
    assert(spec_atvs_sorted(w) && w.to_set() == l.to_set());
    lemma_sorted_unique(w, s);
}

/// The encoding of a list that starts with `a`.
proof fn lemma_encode_atv_cons(a: AtvView, r: Seq<AtvView>)
    ensures
        spec_encode_atv_list(seq![a] + r) == spec_cat(spec_encode_atv(a), spec_encode_atv_list(r)),
{
    let l = seq![a] + r;
    lemma_encode_atv_list_first(l);
    assert(l[0] == a);
    assert(l.drop_first() =~= r);
}

/// Inserting an attribute adds its encoding's length.
proof fn lemma_insert_atv_encode(o: Seq<AtvView>, x: AtvView)
    requires
        spec_encode_atv_list(o) is Some,
        spec_encode_atv(x) is Some,
    ensures
        spec_encode_atv_list(spec_insert_atv(o, x)) is Some,
        spec_encode_atv_list(spec_insert_atv(o, x)).unwrap().len() == spec_encode_atv_list(o).unwrap().len()
            + spec_encode_atv(x).unwrap().len(),
    decreases o.len(),
{
    if o.len() == 0 {
        lemma_encode_atv_cons(x, o);
        assert(seq![x] + o =~= seq![x]);
    } else if spec_atv_order(x, o[0]) < 0 {
        lemma_encode_atv_cons(x, o);
    } else {
        let t = o.drop_first();
        lemma_encode_atv_list_first(o);
        lemma_insert_atv_encode(t, x);
        lemma_encode_atv_cons(o[0], spec_insert_atv(t, x));
    }
}

/// Sorting keeps the length of the encoding.
pub proof fn lemma_sort_atvs_encode(l: Seq<AtvView>)
    requires
        spec_encode_atv_list(l) is Some,
    ensures
        spec_encode_atv_list(spec_sort_atvs(l)) is Some,
        spec_encode_atv_list(spec_sort_atvs(l)).unwrap().len() == spec_encode_atv_list(l).unwrap().len(),
    decreases l.len(),
{
    if l.len() > 0 {
        let d = l.drop_last();
        assert(spec_encode_atv_list(l) == spec_cat(spec_encode_atv_list(d), spec_encode_atv(l.last())));
        lemma_sort_atvs_encode(d);
        lemma_insert_atv_encode(spec_sort_atvs(d), l.last());
    }
}

// ---------------------------------------------------------------------------
// TLVs
// ---------------------------------------------------------------------------

/// The bytes of a length that was read are its encoding.
proof fn lemma_length_bytes(s: Seq<u8>, i: int, end: int)
    requires
        spec_length(s, i, end) is Some,
    ensures
        ({
            let (len, n) = spec_length(s, i, end).unwrap();
            &&& 0 <= len <= MAX_LEN
            &&& s.subrange(i, i + n) == spec_encode_length(len as nat)
            &&& n == spec_encode_length(len as nat).len()
        }),
{
    let (len, n) = spec_length(s, i, end).unwrap();
    let enc = spec_encode_length(len as nat);
    let b = s[i];
    if b < 0x80 {
        assert(s.subrange(i, i + n) =~= enc);
    } else if b == 0x81 {
        assert(s.subrange(i, i + n) =~= enc);
    } else if b == 0x82 {
        let (x, y) = (s[i + 1] as int, s[i + 2] as int);
        assert(len == x * 0x100 + y);
        assert(len / 0x100 == x && len % 0x100 == y) by (nonlinear_arith)
            requires
                len == x * 0x100 + y,
                0 <= x < 0x100,
                0 <= y < 0x100,
        ;
        assert(s.subrange(i, i + n) =~= enc);
    } else if b == 0x83 {
        let (x, y, z) = (s[i + 1] as int, s[i + 2] as int, s[i + 3] as int);
        assert(len == x * 0x10000 + y * 0x100 + z);
        assert(len / 0x10000 == x && (len / 0x100) % 0x100 == y && len % 0x100 == z) by (nonlinear_arith)
            requires
                len == x * 0x10000 + y * 0x100 + z,
                0 <= x < 0x100,
                0 <= y < 0x100,
                0 <= z < 0x100,
        ;
        assert(s.subrange(i, i + n) =~= enc);
    } else {
        let (w, x, y, z) = (s[i + 1] as int, s[i + 2] as int, s[i + 3] as int, s[i + 4] as int);
        assert(len == w * 0x1000000 + x * 0x10000 + y * 0x100 + z);
        assert(len / 0x1000000 == w && (len / 0x10000) % 0x100 == x && (len / 0x100) % 0x100 == y && len % 0x100
            == z) by (nonlinear_arith)
            requires
                len == w * 0x1000000 + x * 0x10000 + y * 0x100 + z,
                0 <= w < 0x100,
                0 <= x < 0x100,
                0 <= y < 0x100,
                0 <= z < 0x100,
        ;
        assert(s.subrange(i, i + n) =~= enc);
    }
}

/// The bytes of a TLV that was read are the encoding of its tag and
/// content.
pub proof fn lemma_tlv_bytes(s: Seq<u8>, i: int, end: int)
    requires
        spec_tlv(s, i, end) is Some,
        s.len() <= MAX_LEN,
    ensures
        ({
            let (t, c, e) = spec_tlv(s, i, end).unwrap();
            &&& spec_tag_ok(t)
            &&& i < c <= e <= end
            &&& spec_wrap(t, s.subrange(c, e)) == Some(s.subrange(i, e))
            &&& c - i == 1 + spec_encode_length((e - c) as nat).len()
        }),
{
    let (t, c, e) = spec_tlv(s, i, end).unwrap();
    lemma_length_bytes(s, i + 1, end);
    let (len, n) = spec_length(s, i + 1, end).unwrap();
    let enc = spec_encode_length(len as nat);
    let content = s.subrange(c, e);
    assert(content.len() == len);
    let out = seq![t] + enc + content;
    assert(out =~= s.subrange(i, e)) by {
        assert forall|k: int| 0 <= k < out.len() implies out[k] == s.subrange(i, e)[k] by {
            if k == 0 {
            } else if k < 1 + n {
                assert(out[k] == enc[k - 1]);
                assert(s.subrange(i + 1, i + 1 + n)[k - 1] == s[i + k]);
            } else {
                assert(out[k] == content[k - 1 - n]);
            }
        }
    }
}

// ---------------------------------------------------------------------------
// Pieces that write back exactly as they were read
// ---------------------------------------------------------------------------

/// An identifier that was read is valid and writes back as its bytes.
pub proof fn lemma_oid_writes_back(s: Seq<u8>, i: int, end: int)
    requires
        spec_oid_at(s, i, end) is Some,
        s.len() <= MAX_LEN,
    ensures
        ({
            let (o, e) = spec_oid_at(s, i, end).unwrap();
            spec_oid_valid(o) && spec_wrap(0x06, o) == Some(s.subrange(i, e))
        }),
{
    lemma_tlv_bytes(s, i, end);
}

/// A value of any type that was read writes back as its bytes.
pub proof fn lemma_any_writes_back(s: Seq<u8>, i: int, end: int)
    requires
        spec_any_at(s, i, end) is Some,
        s.len() <= MAX_LEN,
    ensures
        ({
            let (a, e) = spec_any_at(s, i, end).unwrap();
            spec_tag_ok(a.tag) && spec_encode_any(a) == Some(s.subrange(i, e))
        }),
{
    lemma_tlv_bytes(s, i, end);
}

/// Adjacent pieces of a byte string join.
proof fn lemma_join(s: Seq<u8>, a: int, b: int, c: int)
    requires
        0 <= a <= b <= c <= s.len(),
    ensures
        s.subrange(a, b) + s.subrange(b, c) == s.subrange(a, c),
{
    assert(s.subrange(a, b) + s.subrange(b, c) =~= s.subrange(a, c));
}

/// An algorithm identifier that was read is well formed and writes back
/// as its bytes.
pub proof fn lemma_alg_id_writes_back(s: Seq<u8>, i: int, end: int)
    requires
        spec_alg_id_at(s, i, end) is Some,
        s.len() <= MAX_LEN,
    ensures
        ({
            let (a, e) = spec_alg_id_at(s, i, end).unwrap();
            spec_alg_id_wf(a) && spec_encode_alg_id(a) == Some(s.subrange(i, e))
        }),
{
    lemma_tlv_bytes(s, i, end);
    let (t, c, e) = spec_tlv(s, i, end).unwrap();
    lemma_oid_writes_back(s, c, e);
    let (o, p) = spec_oid_at(s, c, e).unwrap();
    if p != e {
        lemma_any_writes_back(s, p, e);
        lemma_join(s, c, p, e);
    }
}

/// A bit string that was read is well formed and writes back as its bytes.
pub proof fn lemma_bit_string_writes_back(s: Seq<u8>, i: int, end: int)
    requires
        spec_bit_string_at(s, i, end) is Some,
        s.len() <= MAX_LEN,
    ensures
        ({
            let (b, e) = spec_bit_string_at(s, i, end).unwrap();
            spec_bit_string_wf(b) && spec_encode_bit_string(0x03, b) == Some(s.subrange(i, e))
        }),
{
    lemma_tlv_bytes(s, i, end);
    let (t, c, e) = spec_tlv(s, i, end).unwrap();
    let b = spec_bit_string_content(s.subrange(c, e)).unwrap();
    assert(spec_bit_string_encode(b) =~= s.subrange(c, e));
}

/// Public key information that was read is well formed and writes back as
/// its bytes.
pub proof fn lemma_spki_writes_back(s: Seq<u8>, i: int, end: int)
    requires
        spec_spki_at(s, i, end) is Some,
        s.len() <= MAX_LEN,
    ensures
        ({
            let (k, e) = spec_spki_at(s, i, end).unwrap();
            spec_spki_wf(k) && spec_encode_spki(k) == Some(s.subrange(i, e))
        }),
{
    lemma_tlv_bytes(s, i, end);
    let (t, c, e) = spec_tlv(s, i, end).unwrap();
    lemma_alg_id_writes_back(s, c, e);
    let (a, p) = spec_alg_id_at(s, c, e).unwrap();
    lemma_bit_string_writes_back(s, p, e);
    lemma_join(s, c, p, e);
}

/// A time that was read is well formed and writes back as its bytes.
pub proof fn lemma_time_writes_back(s: Seq<u8>, i: int, end: int)
    requires
        spec_time_at(s, i, end) is Some,
        s.len() <= MAX_LEN,
    ensures
        ({
            let (t, e) = spec_time_at(s, i, end).unwrap();
            spec_time_wf(t) && spec_wrap(t.tag, t.value) == Some(s.subrange(i, e))
        }),
{
    lemma_tlv_bytes(s, i, end);
}

/// A validity period that was read is well formed and writes back as its
/// bytes.
pub proof fn lemma_validity_writes_back(s: Seq<u8>, i: int, end: int)
    requires
        spec_validity_at(s, i, end) is Some,
        s.len() <= MAX_LEN,
    ensures
        ({
            let (v, e) = spec_validity_at(s, i, end).unwrap();
            spec_validity_wf(v) && spec_encode_validity(v) == Some(s.subrange(i, e))
        }),
{
    lemma_tlv_bytes(s, i, end);
    let (t, c, e) = spec_tlv(s, i, end).unwrap();
    lemma_time_writes_back(s, c, e);
    let (a, p) = spec_time_at(s, c, e).unwrap();
    lemma_time_writes_back(s, p, e);
    lemma_join(s, c, p, e);
}

/// An attribute that was read is well formed and writes back as its bytes.
pub proof fn lemma_atv_writes_back(s: Seq<u8>, i: int, end: int)
    requires
        spec_atv_at(s, i, end) is Some,
        s.len() <= MAX_LEN,
    ensures
        ({
            let (a, e) = spec_atv_at(s, i, end).unwrap();
            spec_atv_wf(a) && spec_encode_atv(a) == Some(s.subrange(i, e))
        }),
{
    lemma_tlv_bytes(s, i, end);
    let (t, c, e) = spec_tlv(s, i, end).unwrap();
    lemma_oid_writes_back(s, c, e);
    let (o, p) = spec_oid_at(s, c, e).unwrap();
    lemma_any_writes_back(s, p, e);
    lemma_join(s, c, p, e);
}

/// Attributes that were read one after the other are well formed and
/// write back as their bytes.
pub proof fn lemma_atv_list_writes_back(s: Seq<u8>, p: int, e: int)
    requires
        spec_atv_list(s, p, e) is Some,
        s.len() <= MAX_LEN,
        0 <= p <= e <= s.len(),
    ensures
        ({
            let l = spec_atv_list(s, p, e).unwrap();
            &&& forall|j: int| 0 <= j < l.len() ==> spec_atv_wf(#[trigger] l[j])
            &&& spec_encode_atv_list(l) == Some(s.subrange(p, e))
        }),
    decreases e - p,
{
    let l = spec_atv_list(s, p, e).unwrap();
    if p >= e {
        assert(l =~= Seq::<AtvView>::empty());
        assert(s.subrange(p, e) =~= Seq::<u8>::empty());
        return;
    }
    let (a, n) = spec_atv_at(s, p, e).unwrap();
    lemma_atv_writes_back(s, p, e);
    lemma_atv_list_writes_back(s, n, e);
    let rest = spec_atv_list(s, n, e).unwrap();
    assert(l == seq![a] + rest);
    lemma_encode_atv_list_first(l);
    assert(l[0] == a);
    assert(l.drop_first() =~= rest);
    lemma_join(s, p, n, e);
    assert forall|j: int| 0 <= j < l.len() implies spec_atv_wf(#[trigger] l[j]) by {
        if j > 0 {
            assert(l[j] == rest[j - 1]);
        }
    }
}

// ---------------------------------------------------------------------------
// Names: written back in DER order, with the length they were read with
// ---------------------------------------------------------------------------

/// A TLV around content of the same length as another's has the same
/// length.
pub proof fn lemma_wrap_same_len(t: u8, a: Seq<u8>, b: Seq<u8>)
    requires
        a.len() == b.len(),
        spec_wrap(t, b) is Some,
    ensures
        spec_wrap(t, a) is Some,
        spec_wrap(t, a).unwrap().len() == spec_wrap(t, b).unwrap().len(),
{
}

/// A relative distinguished name that was read is well formed and writes
/// back (in DER order) with the length it was read with.
pub proof fn lemma_rdn_writes_back(s: Seq<u8>, i: int, end: int)
    requires
        spec_rdn_at(s, i, end) is Some,
        s.len() <= MAX_LEN,
    ensures
        ({
            let (r, e) = spec_rdn_at(s, i, end).unwrap();
            &&& spec_rdn_wf(r)
            &&& spec_encode_rdn(r) is Some
            &&& spec_encode_rdn(r).unwrap().len() == e - i
        }),
{
    lemma_tlv_bytes(s, i, end);
    let (t, c, e) = spec_tlv(s, i, end).unwrap();
    let list = spec_atv_list(s, c, e).unwrap();
    lemma_atv_list_writes_back(s, c, e);
    lemma_sort_atvs(list);
    lemma_sort_atvs_encode(list);
    let r = spec_sort_atvs(list);
    lemma_wrap_same_len(0x31, spec_encode_atv_list(r).unwrap(), s.subrange(c, e));
    assert forall|j: int| 0 <= j < r.len() implies spec_atv_wf(#[trigger] r[j]) by {
        assert(r.to_set().contains(r[j]));
        assert(list.to_set().contains(r[j]));
        let m = choose|m: int| 0 <= m < list.len() && list[m] == r[j];
        assert(spec_atv_wf(list[m]));
    }
}

/// Relative distinguished names that were read one after the other are
/// well formed and write back with the length they were read with.
pub proof fn lemma_rdn_list_writes_back(s: Seq<u8>, p: int, e: int)
    requires
        spec_rdn_list(s, p, e) is Some,
        s.len() <= MAX_LEN,
        0 <= p <= e <= s.len(),
    ensures
        ({
            let l = spec_rdn_list(s, p, e).unwrap();
            &&& spec_name_wf(l)
            &&& spec_encode_rdn_list(l) is Some
            &&& spec_encode_rdn_list(l).unwrap().len() == e - p
        }),
    decreases e - p,
{
    let l = spec_rdn_list(s, p, e).unwrap();
    if p >= e {
        assert(l =~= Seq::<Seq<AtvView>>::empty());
        return;
    }
    let (a, n) = spec_rdn_at(s, p, e).unwrap();
    lemma_rdn_writes_back(s, p, e);
    lemma_rdn_list_writes_back(s, n, e);
    let rest = spec_rdn_list(s, n, e).unwrap();
    assert(l == seq![a] + rest);
    lemma_encode_rdn_list_first(l);
    assert(l[0] == a);
    assert(l.drop_first() =~= rest);
    assert forall|j: int| 0 <= j < l.len() implies spec_rdn_wf(#[trigger] l[j]) by {
        if j > 0 {
            assert(l[j] == rest[j - 1]);
        }
    }
}

/// A distinguished name that was read is well formed and writes back with
/// the length it was read with.
pub proof fn lemma_name_writes_back(s: Seq<u8>, i: int, end: int)
    requires
        spec_name_at(s, i, end) is Some,
        s.len() <= MAX_LEN,
    ensures
        ({
            let (n, e) = spec_name_at(s, i, end).unwrap();
            &&& spec_name_wf(n)
            &&& spec_encode_name(n) is Some
            &&& spec_encode_name(n).unwrap().len() == e - i
        }),
{
    lemma_tlv_bytes(s, i, end);
    let (t, c, e) = spec_tlv(s, i, end).unwrap();
    lemma_rdn_list_writes_back(s, c, e);
    let l = spec_rdn_list(s, c, e).unwrap();
    lemma_wrap_same_len(0x30, spec_encode_rdn_list(l).unwrap(), s.subrange(c, e));
}

// ---------------------------------------------------------------------------
// Extensions: an explicit false `critical` is left out when written back
// ---------------------------------------------------------------------------

/// A TLV around shorter content is not longer.
pub proof fn lemma_wrap_shorter(t: u8, a: Seq<u8>, b: Seq<u8>)
    requires
        a.len() <= b.len(),
        spec_wrap(t, b) is Some,
    ensures
        spec_wrap(t, a) is Some,
        spec_wrap(t, a).unwrap().len() <= spec_wrap(t, b).unwrap().len(),
{
}

/// An extension that was read is well formed and writes back no longer
/// than it was read.
pub proof fn lemma_ext_writes_back(s: Seq<u8>, i: int, end: int)
    requires
        spec_ext_at(s, i, end) is Some,
        s.len() <= MAX_LEN,
    ensures
        ({
            let (x, e) = spec_ext_at(s, i, end).unwrap();
            &&& spec_ext_wf(x)
            &&& spec_encode_ext(x) is Some
            &&& spec_encode_ext(x).unwrap().len() <= e - i
        }),
{
    lemma_tlv_bytes(s, i, end);
    let (t, c, e) = spec_tlv(s, i, end).unwrap();
    lemma_oid_writes_back(s, c, e);
    let (o, p) = spec_oid_at(s, c, e).unwrap();
    let (crit, q) = spec_critical_at(s, p, e).unwrap();
    lemma_tlv_bytes(s, q, e);
    let (v, r) = spec_octet_string_at(s, q, e).unwrap();
    let ce: Seq<u8> = if crit { seq![0x01u8, 0x01, 0xFF] } else { Seq::empty() };
    if p < e && s[p] == 0x01 {
        lemma_tlv_bytes(s, p, e);
        let (bt, bc, be) = spec_tlv(s, p, e).unwrap();
        assert(be - bc == 1);
        assert(spec_encode_length(1) == seq![1u8]);
        assert(q == p + 3);
    } else {
        assert(q == p);
    }
    assert(ce.len() <= q - p);
    let content = s.subrange(c, p) + ce + s.subrange(q, e);
    assert(spec_encode_ext(spec_ext_at(s, i, end).unwrap().0) == spec_wrap(0x30, content));
    lemma_wrap_shorter(0x30, content, s.subrange(c, e));
}

/// Extensions that were read one after the other are well formed and
/// write back no longer than they were read.
pub proof fn lemma_ext_list_writes_back(s: Seq<u8>, p: int, e: int)
    requires
        spec_ext_list(s, p, e) is Some,
        s.len() <= MAX_LEN,
        0 <= p <= e <= s.len(),
    ensures
        ({
            let l = spec_ext_list(s, p, e).unwrap();
            &&& spec_exts_wf(l)
            &&& spec_encode_ext_list(l) is Some
            &&& spec_encode_ext_list(l).unwrap().len() <= e - p
        }),
    decreases e - p,
{
    let l = spec_ext_list(s, p, e).unwrap();
    if p >= e {
        assert(l =~= Seq::<crate::certificate::ExtView>::empty());
        return;
    }
    let (a, n) = spec_ext_at(s, p, e).unwrap();
    lemma_ext_writes_back(s, p, e);
    lemma_ext_list_writes_back(s, n, e);
    let rest = spec_ext_list(s, n, e).unwrap();
    assert(l == seq![a] + rest);
    lemma_encode_ext_list_first(l);
    assert(l[0] == a);
    assert(l.drop_first() =~= rest);
    assert forall|j: int| 0 <= j < l.len() implies spec_ext_wf(#[trigger] l[j]) by {
        if j > 0 {
            assert(l[j] == rest[j - 1]);
        }
    }
}

/// Extensions that were read as a SEQUENCE are well formed and write back
/// no longer than they were read.
pub proof fn lemma_exts_writes_back(s: Seq<u8>, i: int, end: int)
    requires
        spec_exts_at(s, i, end) is Some,
        s.len() <= MAX_LEN,
    ensures
        ({
            let (l, e) = spec_exts_at(s, i, end).unwrap();
            &&& spec_exts_wf(l)
            &&& spec_encode_exts(l) is Some
            &&& spec_encode_exts(l).unwrap().len() <= e - i
        }),
{
    lemma_tlv_bytes(s, i, end);
    let (t, c, e) = spec_tlv(s, i, end).unwrap();
    lemma_ext_list_writes_back(s, c, e);
    let l = spec_ext_list(s, c, e).unwrap();
    lemma_wrap_shorter(0x30, spec_encode_ext_list(l).unwrap(), s.subrange(c, e));
}

// ---------------------------------------------------------------------------
// Fields of a TBSCertificate
// ---------------------------------------------------------------------------

/// Unsigned INTEGER content that was read is canonical and writes back as
/// itself.
pub proof fn lemma_uint_writes_back(c: Seq<u8>)
    requires
        spec_uint_content(c) is Some,
    ensures
        spec_uint_canonical(spec_uint_content(c).unwrap()),
        spec_uint_encode(spec_uint_content(c).unwrap()) == c,
{
    let u = spec_uint_content(c).unwrap();
    if c.len() == 1 && c[0] == 0 {
        assert(spec_strip_zeros(u) == u);
    } else if c[0] == 0 {
        assert(u == c.drop_first());
        assert(spec_strip_zeros(u) == u);
        assert(seq![0u8] + u =~= c);
    } else {
        assert(spec_strip_zeros(u) == u);
    }
}

/// Bit string content that was read is well formed.
pub proof fn lemma_bit_string_content_wf(c: Seq<u8>)
    requires
        spec_bit_string_content(c) is Some,
    ensures
        spec_bit_string_wf(spec_bit_string_content(c).unwrap()),
        spec_bit_string_encode(spec_bit_string_content(c).unwrap()) == c,
{
    assert(spec_bit_string_encode(spec_bit_string_content(c).unwrap()) =~= c);
}

/// What a scan for an optional context-specific field finds: a TLV with
/// that number at or after where it started, the scan ending after it; or
/// nothing, the scan ending at or after where it started.
pub proof fn lemma_ctx_scan(s: Seq<u8>, p: int, e: int, n: u8)
    requires
        spec_ctx_scan(s, p, e, n) is Some,
        0 <= p <= e <= s.len(),
    ensures
        match spec_ctx_scan(s, p, e, n).unwrap() {
            (Some((t, c2, e2)), q) => q == e2 && exists|st: int|
                p <= st && #[trigger] spec_tlv(s, st, e) == Some((t, c2, e2)) && spec_is_context(t)
                    && spec_tag_number(t) == n,
            (None, q) => p <= q <= e,
        },
    decreases e - p,
{
    if p >= e {
    } else if !spec_is_context(s[p]) || spec_tag_number(s[p]) > n {
    } else {
        let (t, c2, e2) = spec_tlv(s, p, e).unwrap();
        if spec_tag_number(t) == n {
            assert(spec_tlv(s, p, e) == Some((t, c2, e2)));
        } else {
            lemma_ctx_scan(s, e2, e, n);
        }
    }
}

/// The version field that was read writes back no longer than it was read.
pub proof fn lemma_version_field_writes_back(s: Seq<u8>, c: int, e: int)
    requires
        spec_version_field(s, c, e) is Some,
        s.len() <= MAX_LEN,
        0 <= c <= e <= s.len(),
    ensures
        ({
            let (v, p) = spec_version_field(s, c, e).unwrap();
            &&& spec_encode_version(v) is Some
            &&& c <= p
            &&& spec_encode_version(v).unwrap().len() <= p - c
        }),
{
    lemma_ctx_scan(s, c, e, 0);
    match spec_ctx_scan(s, c, e, 0).unwrap() {
        (None, q) => {},
        (Some((t, vc, ve)), q) => {
            let st = choose|st: int| c <= st && #[trigger] spec_tlv(s, st, e) == Some((t, vc, ve)) && spec_is_context(t)
                && spec_tag_number(t) == 0;
            lemma_tlv_bytes(s, st, e);
            let (it, ic, ie) = spec_tlv(s, vc, ve).unwrap();
            let u = spec_uint_content(s.subrange(ic, ie)).unwrap();
            let (v, p) = spec_version_field(s, c, e).unwrap();
            if u.len() == 1 && u[0] <= 2 && u[0] != 0 {
                lemma_tlv_bytes(s, vc, ve);
                lemma_uint_writes_back(s.subrange(ic, ie));
                assert(spec_uint_encode(seq![crate::certificate::spec_version_value(v)]) == spec_uint_encode(u)) by {
                    assert(seq![crate::certificate::spec_version_value(v)] =~= u);
                }
                assert(spec_encode_version(v) == Some(s.subrange(st, ve)));
            }
        },
    }
}

/// An optional unique identifier that was read is well formed and writes
/// back no longer than it was read.
pub proof fn lemma_unique_id_writes_back(s: Seq<u8>, p: int, e: int, n: u8)
    requires
        spec_unique_id_field(s, p, e, n) is Some,
        n == 1 || n == 2,
        s.len() <= MAX_LEN,
        0 <= p <= e <= s.len(),
    ensures
        ({
            let (b, q) = spec_unique_id_field(s, p, e, n).unwrap();
            &&& (b matches Some(x) ==> spec_bit_string_wf(x))
            &&& spec_encode_unique_id((0x80 + n) as u8, b) is Some
            &&& p <= q
            &&& spec_encode_unique_id((0x80 + n) as u8, b).unwrap().len() <= q - p
        }),
{
    lemma_ctx_scan(s, p, e, n);
    match spec_ctx_scan(s, p, e, n).unwrap() {
        (None, q) => {},
        (Some((t, bc, be)), q) => {
            let st = choose|st: int| p <= st && #[trigger] spec_tlv(s, st, e) == Some((t, bc, be)) && spec_is_context(t)
                && spec_tag_number(t) == n;
            lemma_tlv_bytes(s, st, e);
            lemma_bit_string_content_wf(s.subrange(bc, be));
            assert(t == (0x80 + n) as u8);
        },
    }
}

/// The optional extensions field that was read is well formed and writes
/// back no longer than it was read.
pub proof fn lemma_extensions_field_writes_back(s: Seq<u8>, p: int, e: int)
    requires
        spec_extensions_field(s, p, e) is Some,
        s.len() <= MAX_LEN,
        0 <= p <= e <= s.len(),
    ensures
        ({
            let (x, q) = spec_extensions_field(s, p, e).unwrap();
            &&& (x matches Some(l) ==> spec_exts_wf(l))
            &&& spec_encode_extensions_field(x) is Some
            &&& p <= q
            &&& spec_encode_extensions_field(x).unwrap().len() <= q - p
        }),
{
    lemma_ctx_scan(s, p, e, 3);
    match spec_ctx_scan(s, p, e, 3).unwrap() {
        (None, q) => {},
        (Some((t, xc, xe)), q) => {
            let st = choose|st: int| p <= st && #[trigger] spec_tlv(s, st, e) == Some((t, xc, xe)) && spec_is_context(t)
                && spec_tag_number(t) == 3;
            lemma_tlv_bytes(s, st, e);
            lemma_exts_writes_back(s, xc, xe);
            let (l, m) = spec_exts_at(s, xc, xe).unwrap();
            lemma_wrap_shorter(0xA3, spec_encode_exts(l).unwrap(), s.subrange(xc, xe));
        },
    }
}

// ---------------------------------------------------------------------------
// TBSCertificate and certificate
// ---------------------------------------------------------------------------

/// The fields of a TBSCertificate from its version to its validity that
/// were read write back no longer than they were read.
#[verifier::rlimit(30)]
proof fn lemma_tbs_head_writes_back(s: Seq<u8>, c: int, e: int)
    requires
        spec_tbs_head(s, c, e) is Some,
        s.len() <= MAX_LEN,
        0 <= c <= e <= s.len(),
    ensures
        ({
            let (v, serial, sig, iss, val, p5) = spec_tbs_head(s, c, e).unwrap();
            &&& spec_uint_canonical(serial)
            &&& spec_alg_id_wf(sig)
            &&& spec_name_wf(iss)
            &&& spec_validity_wf(val)
            &&& c <= p5 <= e
            &&& spec_encode_version(v) is Some
            &&& spec_wrap(0x02, spec_uint_encode(serial)) is Some
            &&& spec_encode_alg_id(sig) is Some
            &&& spec_encode_name(iss) is Some
            &&& spec_encode_validity(val) is Some
            &&& spec_encode_version(v).unwrap().len() + spec_wrap(0x02, spec_uint_encode(serial)).unwrap().len()
                + spec_encode_alg_id(sig).unwrap().len() + spec_encode_name(iss).unwrap().len()
                + spec_encode_validity(val).unwrap().len() <= p5 - c
        }),
{
    lemma_version_field_writes_back(s, c, e);
    let (v, p1) = spec_version_field(s, c, e).unwrap();
    lemma_tlv_bytes(s, p1, e);
    let (st, sc, se) = spec_tlv(s, p1, e).unwrap();
    lemma_uint_writes_back(s.subrange(sc, se));
    lemma_alg_id_writes_back(s, se, e);
    let (sig, p3) = spec_alg_id_at(s, se, e).unwrap();
    lemma_name_writes_back(s, p3, e);
    let (iss, p4) = spec_name_at(s, p3, e).unwrap();
    lemma_validity_writes_back(s, p4, e);
}

/// The subject and public key information of a TBSCertificate that were
/// read write back as long as they were read.
proof fn lemma_tbs_subject_writes_back(s: Seq<u8>, p5: int, e: int)
    requires
        s.len() <= MAX_LEN,
        0 <= p5 <= e <= s.len(),
        spec_name_at(s, p5, e) matches Some((_, p6)) && spec_spki_at(s, p6, e) is Some,
    ensures
        ({
            let (sub, p6) = spec_name_at(s, p5, e).unwrap();
            let (spki, p7) = spec_spki_at(s, p6, e).unwrap();
            &&& spec_name_wf(sub)
            &&& spec_spki_wf(spki)
            &&& p5 <= p6 <= p7 <= e
            &&& spec_encode_name(sub) is Some
            &&& spec_encode_spki(spki) is Some
            &&& spec_encode_name(sub).unwrap().len() + spec_encode_spki(spki).unwrap().len() == p7 - p5
        }),
{
    lemma_name_writes_back(s, p5, e);
    let (sub, p6) = spec_name_at(s, p5, e).unwrap();
    lemma_spki_writes_back(s, p6, e);
    lemma_tlv_bytes(s, p6, e);
}

/// A TBSCertificate that was read is well formed and writes back no longer
/// than it was read.
#[verifier::rlimit(40)]
pub proof fn lemma_tbs_writes_back(s: Seq<u8>, i: int, end: int)
    requires
        spec_tbs_at(s, i, end) is Some,
        s.len() <= MAX_LEN,
    ensures
        ({
            let (t, e) = spec_tbs_at(s, i, end).unwrap();
            &&& spec_tbs_wf(t)
            &&& spec_encode_tbs(t) is Some
            &&& spec_encode_tbs(t).unwrap().len() <= e - i
        }),
{
    lemma_tlv_bytes(s, i, end);
    let (tg, c, e) = spec_tlv(s, i, end).unwrap();
    let t = spec_tbs_content(s, c, e).unwrap();
    lemma_tbs_head_writes_back(s, c, e);
    let (v, serial, sig, iss, val, p5) = spec_tbs_head(s, c, e).unwrap();
    lemma_tbs_subject_writes_back(s, p5, e);
    let (sub, p6) = spec_name_at(s, p5, e).unwrap();
    let (spki, p7) = spec_spki_at(s, p6, e).unwrap();
    lemma_unique_id_writes_back(s, p7, e, 1);
    let (iu, p8) = spec_unique_id_field(s, p7, e, 1).unwrap();
    lemma_unique_id_writes_back(s, p8, e, 2);
    let (su, p9) = spec_unique_id_field(s, p8, e, 2).unwrap();
    lemma_extensions_field_writes_back(s, p9, e);
    assert(spec_encode_tbs_head(t) is Some);
    assert(spec_encode_tbs_tail(t) is Some);
    assert(spec_encode_tbs_content(t) is Some);
    assert(spec_encode_tbs_content(t).unwrap().len() <= e - c);
    lemma_wrap_shorter(0x30, spec_encode_tbs_content(t).unwrap(), s.subrange(c, e));
}

/// A certificate that was read is well formed and writes back no longer
/// than it was read.
#[verifier::rlimit(40)]
pub proof fn lemma_certificate_at_writes_back(s: Seq<u8>, i: int, end: int)
    requires
        spec_certificate_at(s, i, end) is Some,
        s.len() <= MAX_LEN,
    ensures
        ({
            let (c, e) = spec_certificate_at(s, i, end).unwrap();
            &&& spec_certificate_wf(c)
            &&& spec_encode_certificate(c) is Some
            &&& spec_encode_certificate(c).unwrap().len() <= e - i
        }),
{
    lemma_tlv_bytes(s, i, end);
    let (tg, c, e) = spec_tlv(s, i, end).unwrap();
    lemma_tbs_writes_back(s, c, e);
    let (tbs, p) = spec_tbs_at(s, c, e).unwrap();
    lemma_alg_id_writes_back(s, p, e);
    let (a, q) = spec_alg_id_at(s, p, e).unwrap();
    lemma_bit_string_writes_back(s, q, e);
    let (b, r) = spec_bit_string_at(s, q, e).unwrap();
    let cert = spec_certificate_at(s, i, end).unwrap().0;
    assert(cert == CertView { tbs_certificate: tbs, signature_algorithm: a, signature_value: b });
    let te = spec_encode_tbs(tbs).unwrap();
    let content = te + (s.subrange(p, q) + s.subrange(q, e));
    assert(spec_cat(spec_encode_alg_id(a), spec_encode_bit_string(0x03, b)) == Some(s.subrange(p, q) + s.subrange(q, e)));
    assert(spec_cat(spec_encode_tbs(tbs), spec_cat(spec_encode_alg_id(a), spec_encode_bit_string(0x03, b))) == Some(content));
    assert(content.len() <= e - c);
    lemma_wrap_shorter(0x30, content, s.subrange(c, e));
    reveal(spec_encode_certificate);
}

/// A certificate read from DER bytes is well formed; written back, it is
/// no longer than the bytes it was read from, and it reads back as the same
/// certificate.
pub proof fn lemma_certificate_read_writes_back(b: Seq<u8>)
    requires
        spec_certificate_from_der(b) is Some,
    ensures
        ({
            let c = spec_certificate_from_der(b).unwrap();
            &&& spec_certificate_wf(c)
            &&& spec_encode_certificate(c) is Some
            &&& spec_encode_certificate(c).unwrap().len() <= b.len()
            &&& spec_certificate_from_der(spec_encode_certificate(c).unwrap()) == Some(c)
        }),
{
    reveal(spec_certificate_from_der);
    lemma_certificate_at_writes_back(b, 0, b.len() as int);
    let c = spec_certificate_from_der(b).unwrap();
    let w = spec_encode_certificate(c).unwrap();
    lemma_certificate_round_trip(c, Seq::empty());
    assert(w + Seq::<u8>::empty() =~= w);
}

/// Decoding DER bytes, encoding the certificate, decoding and encoding
/// again is lossless: the second decoding gives the same certificate and
/// the second encoding the same bytes as the first.
pub proof fn lemma_decode_encode_lossless(b: Seq<u8>)
    requires
        spec_certificate_from_der(b) is Some,
    ensures
        ({
            let c = spec_certificate_from_der(b).unwrap();
            let w = spec_encode_certificate(c).unwrap();
            &&& spec_encode_certificate(c) is Some
            &&& spec_certificate_from_der(w) == Some(c)
            &&& spec_encode_certificate(spec_certificate_from_der(w).unwrap()) == Some(w)
        }),
{
    lemma_certificate_read_writes_back(b);
}

/// DER bytes that the reader accepts write back to themselves exactly when
/// they are the encoding of a well-formed certificate; other accepted
/// bytes (non-canonical forms, or bytes after the certificate) write back
/// to other bytes.
pub proof fn lemma_reencode_exact_iff_canonical(b: Seq<u8>)
    requires
        spec_certificate_from_der(b) is Some,
    ensures
        spec_encode_certificate(spec_certificate_from_der(b).unwrap()) == Some(b)
            <==> exists|c2: CertView| spec_certificate_wf(c2) && #[trigger] spec_encode_certificate(c2) == Some(b),
{
    let c = spec_certificate_from_der(b).unwrap();
    lemma_certificate_read_writes_back(b);
    assert(b.len() <= MAX_LEN) by {
        reveal(spec_certificate_from_der);
    }
    if exists|c2: CertView| spec_certificate_wf(c2) && #[trigger] spec_encode_certificate(c2) == Some(b) {
        let c2 = choose|c2: CertView| spec_certificate_wf(c2) && #[trigger] spec_encode_certificate(c2) == Some(b);
        lemma_certificate_round_trip(c2, Seq::empty());
        assert(b + Seq::<u8>::empty() =~= b);
    }
    if spec_encode_certificate(c) == Some(b) {
        assert(spec_certificate_wf(c) && spec_encode_certificate(c) == Some(b));
    }
}

} // verus!
