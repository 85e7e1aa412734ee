//! Distinguished names (RFC 5280, section 4.1.2.4): attribute type and
//! value pairs, relative distinguished names (a SET OF such pairs, held in
//! DER order) and RDN sequences.
use vstd::prelude::*;
use crate::bytes::bytes_equal;
use crate::der::{
    read_oid, read_tlv, spec_any_at, spec_cat, spec_encode_any, spec_encode_length, spec_lex_order,
    spec_oid_at, spec_tlv, spec_wrap, spec_wrap_opt, lemma_lex_order, lemma_lex_order_trans,
    lex_order, append, wrap, AnyValue, AnyView, length_octets,
};
use crate::oid::Oid;

verus! {

// ---------------------------------------------------------------------------
// AttributeTypeAndValue
// ---------------------------------------------------------------------------

/// One attribute of a name: its type and its (DER) value.
#[derive(Debug, Clone, PartialEq, Eq)]
pub struct AttributeTypeAndValue {
    pub oid: Oid,
    pub value: AnyValue,
}

/// The mathematical value of an attribute.
pub struct AtvView {
    pub oid: Seq<u8>,
    pub value: AnyView,
}

impl View for AttributeTypeAndValue {
    type V = AtvView;

    open spec fn view(&self) -> AtvView {
        AtvView { oid: self.oid@, value: self.value@ }
    }
}

/// The attribute encoded by the SEQUENCE TLV at `s[i]`, and where it ends.
pub open spec fn spec_atv_at(s: Seq<u8>, i: int, end: int) -> Option<(AtvView, int)> {
    match spec_tlv(s, i, end) {
        Some((t, c, e)) => if t == 0x30 {
            match spec_oid_at(s, c, e) {
                Some((o, p)) => match spec_any_at(s, p, e) {
                    Some((a, q)) => if q == e { Some((AtvView { oid: o, value: a }, e)) } else { None },
                    None => None,
                },
                None => None,
            }
        } else {
            None
        },
        None => None,
    }
}

/// The DER encoding of an attribute.
pub open spec fn spec_encode_atv(a: AtvView) -> Option<Seq<u8>> {
    spec_wrap_opt(0x30, spec_cat(spec_wrap(0x06, a.oid), spec_encode_any(a.value)))
}

/// The length of the content of an attribute's DER encoding.
pub open spec fn spec_atv_content_len(a: AtvView) -> int {
    ((1 + spec_encode_length(a.oid.len()).len() + a.oid.len()) + (1 + spec_encode_length(
        a.value.value.len(),
    ).len() + a.value.value.len())) as int
}

/// The DER order of attributes within a SET: by encoded length, then by
/// type (shorter identifiers first, then octet by octet), then by the
/// content octets of the value.
pub open spec fn spec_atv_order(a: AtvView, b: AtvView) -> int {
    let la = spec_atv_content_len(a);
    let lb = spec_atv_content_len(b);
    if la < lb {
        -1
    } else if la > lb {
        1
    } else if a.oid.len() < b.oid.len() {
        -1
    } else if a.oid.len() > b.oid.len() {
        1
    } else if spec_lex_order(a.oid, b.oid) != 0 {
        spec_lex_order(a.oid, b.oid)
    } else {
        spec_lex_order(a.value.value, b.value.value)
    }
}

/// The DER order of attributes is a total preorder.
pub proof fn lemma_atv_order(a: AtvView, b: AtvView, c: AtvView)
    ensures
        spec_atv_order(a, b) == -spec_atv_order(b, a),
        spec_atv_order(a, b) < 0 && spec_atv_order(b, c) < 0 ==> spec_atv_order(a, c) < 0,
        spec_atv_order(a, b) == 0 && spec_atv_order(b, c) < 0 ==> spec_atv_order(a, c) < 0,
        spec_atv_order(a, b) < 0 && spec_atv_order(b, c) == 0 ==> spec_atv_order(a, c) < 0,
{
    lemma_lex_order(a.oid, b.oid);
    lemma_lex_order(b.oid, c.oid);
    lemma_lex_order(a.oid, c.oid);
    lemma_lex_order(a.value.value, b.value.value);
    lemma_lex_order(b.value.value, c.value.value);
    lemma_lex_order(a.value.value, c.value.value);
    if spec_lex_order(a.oid, b.oid) < 0 && spec_lex_order(b.oid, c.oid) < 0 {
        lemma_lex_order_trans(a.oid, b.oid, c.oid);
    }
    if spec_lex_order(a.value.value, b.value.value) < 0 && spec_lex_order(b.value.value, c.value.value) < 0 {
        lemma_lex_order_trans(a.value.value, b.value.value, c.value.value);
    }
}

impl AttributeTypeAndValue {
    /// Reads an attribute (see `spec_atv_at`).
    pub fn read(s: &[u8], i: usize, end: usize) -> (r: Option<(AttributeTypeAndValue, usize)>)
        requires
            end <= s.len(),
        ensures
            match r {
                Some((a, n)) => spec_atv_at(s@, i as int, end as int) == Some((a@, n as int)),
                None => spec_atv_at(s@, i as int, end as int) is None,
            },
    {
        let (t, c, e) = match read_tlv(s, i, end) {
            Some(x) => x,
            None => return None,
        };
        if t != 0x30 {
            return None;
        }
        let (oid, p) = match read_oid(s, c, e) {
            Some(x) => x,
            None => return None,
        };
        let (value, q) = match AnyValue::read(s, p, e) {
            Some(x) => x,
            None => return None,
        };
        if q != e {
            return None;
        }
        Some((AttributeTypeAndValue { oid, value }, e))
    }

    /// The DER encoding of this attribute.
    pub fn encode(&self) -> (r: Option<Vec<u8>>)
        ensures
            match r {
                Some(v) => spec_encode_atv(self@) == Some(v@),
                None => spec_encode_atv(self@) is None,
            },
    {
        let o = match wrap(0x06, self.oid.as_bytes()) {
            Some(o) => o,
            None => return None,
        };
        let v = match self.value.encode() {
            Some(v) => v,
            None => return None,
        };
        let mut content = o;
        append(&mut content, v.as_slice());
        wrap(0x30, content.as_slice())
    }

    /// The DER order of two attributes (see `spec_atv_order`).
    pub fn der_order(&self, other: &AttributeTypeAndValue) -> (r: i8)
        ensures
            r as int == spec_atv_order(self@, other@),
    {
        let la = self.content_len();
        let lb = other.content_len();
        if la < lb {
            -1
        } else if la > lb {
            1
        } else if self.oid.bytes.len() < other.oid.bytes.len() {
            -1
        } else if self.oid.bytes.len() > other.oid.bytes.len() {
            1
        } else {
            let c = lex_order(self.oid.as_bytes(), other.oid.as_bytes());
            if c != 0 {
                c
            } else {
                lex_order(self.value.value.as_slice(), other.value.value.as_slice())
            }
        }
    }

    /// The length of the content of this attribute's DER encoding.
    fn content_len(&self) -> (r: u128)
        ensures
            r as int == spec_atv_content_len(self@),
    {
        let a = self.oid.bytes.len() as u128;
        let b = self.value.value.len() as u128;
        1 + (length_octets(self.oid.bytes.len()) as u128) + a + 1 + (length_octets(
            self.value.value.len(),
        ) as u128) + b
    }

    /// A copy of this attribute.
    pub fn copy(&self) -> (r: AttributeTypeAndValue)
        ensures
            r@ == self@,
    {
        AttributeTypeAndValue { oid: self.oid.copy(), value: self.value.copy() }
    }

    /// Whether two attributes are the same.
    pub fn same(&self, other: &AttributeTypeAndValue) -> (r: bool)
        ensures
            r == (self@ == other@),
    {
        self.oid.same(&other.oid) && self.value.same(&other.value)
    }
}

// ---------------------------------------------------------------------------
// RelativeDistinguishedName
// ---------------------------------------------------------------------------

/// A relative distinguished name: a SET OF attributes, held in DER order.
#[derive(Debug, Clone, PartialEq, Eq)]
pub struct RelativeDistinguishedName {
    pub attributes: Vec<AttributeTypeAndValue>,
}

impl View for RelativeDistinguishedName {
    type V = Seq<AtvView>;

    open spec fn view(&self) -> Seq<AtvView> {
        self.attributes@.map_values(|a: AttributeTypeAndValue| a@)
    }
}

/// The attributes encoded one after the other in `s[i..end]`.
pub open spec fn spec_atv_list(s: Seq<u8>, i: int, end: int) -> Option<Seq<AtvView>>
    decreases end - i,
{
    if i >= end {
        Some(Seq::empty())
    } else {
        match spec_atv_at(s, i, end) {
            Some((a, n)) => if i < n <= end {
                match spec_atv_list(s, n, end) {
                    Some(rest) => Some(seq![a] + rest),
                    None => None,
                }
            } else {
                None
            },
            None => None,
        }
    }
}

/// Whether attributes are in strictly increasing DER order.
pub open spec fn spec_atvs_sorted(r: Seq<AtvView>) -> bool {
    forall|i: int, j: int| 0 <= i < j < r.len() ==> spec_atv_order(#[trigger] r[i], #[trigger] r[j]) < 0
}

/// Whether two of the attributes are equal in DER order (a duplicate in
/// a SET).
pub open spec fn spec_atvs_dup(r: Seq<AtvView>) -> bool {
    exists|i: int, j: int| 0 <= i < j < r.len() && spec_atv_order(#[trigger] r[i], #[trigger] r[j]) == 0
}

/// The attributes in DER order.
pub open spec fn spec_atvs_in_der_order(r: Seq<AtvView>) -> Seq<AtvView> {
    choose|o: Seq<AtvView>| spec_atvs_sorted(o) && o.to_set() == r.to_set()
}

/// The first elements of two strictly ordered sequences of attributes
/// with the same elements are the same.
proof fn lemma_sorted_first(a: Seq<AtvView>, b: Seq<AtvView>)
    requires
        spec_atvs_sorted(a),
        spec_atvs_sorted(b),
        a.to_set() == b.to_set(),
        a.len() > 0,
        b.len() > 0,
    ensures
        a[0] == b[0],
{
    assert(a.to_set().contains(a[0]));
    assert(b.to_set().contains(b[0]));
    let k = choose|k: int| 0 <= k < a.len() && a[k] == b[0];
    let m = choose|m: int| 0 <= m < b.len() && b[m] == a[0];
    if k != 0 && m != 0 {
        assert(spec_atv_order(a[0], a[k]) < 0);
        assert(spec_atv_order(b[0], b[m]) < 0);
        lemma_atv_order(a[0], b[0], a[0]);
    }
}

/// Dropping the first element of a strictly ordered sequence removes
/// exactly that element.
proof fn lemma_sorted_tail_set(a: Seq<AtvView>)
    requires
        spec_atvs_sorted(a),
        a.len() > 0,
    ensures
        a.drop_first().to_set() == a.to_set().remove(a[0]),
{
    let a1 = a.drop_first();
    assert forall|x: AtvView| a1.to_set().contains(x) implies a.to_set().remove(a[0]).contains(x) by {
        let i = choose|i: int| 0 <= i < a1.len() && a1[i] == x;
        assert(a[i + 1] == x);
        assert(spec_atv_order(a[0], a[i + 1]) < 0);
        lemma_atv_order(a[0], a[0], a[0]);
    }
    assert forall|x: AtvView| a.to_set().remove(a[0]).contains(x) implies a1.to_set().contains(x) by {
        let j = choose|j: int| 0 <= j < a.len() && a[j] == x;
        assert(a1[j - 1] == x);
    }
    assert(a1.to_set() =~= a.to_set().remove(a[0]));
}

/// Two strictly ordered sequences of attributes with the same elements
/// are the same.
pub proof fn lemma_sorted_unique(a: Seq<AtvView>, b: Seq<AtvView>)
    requires
        spec_atvs_sorted(a),
        spec_atvs_sorted(b),
        a.to_set() == b.to_set(),
    ensures
        a == b,
    decreases a.len(),
{
    if a.len() == 0 || b.len() == 0 {
        if a.len() > 0 {
            assert(a.to_set().contains(a[0]));
        }
        if b.len() > 0 {
            assert(b.to_set().contains(b[0]));
        }
        assert(a =~= b);
        return;
    }
    lemma_sorted_first(a, b);
    lemma_sorted_tail_set(a);
    lemma_sorted_tail_set(b);
    let a1 = a.drop_first();
    let b1 = b.drop_first();
    assert(spec_atvs_sorted(a1)) by {
        assert forall|i: int, j: int| 0 <= i < j < a1.len() implies spec_atv_order(#[trigger] a1[i], #[trigger] a1[j]) < 0 by {
            assert(a1[i] == a[i + 1] && a1[j] == a[j + 1]);
        }
    }
    assert(spec_atvs_sorted(b1)) by {
        assert forall|i: int, j: int| 0 <= i < j < b1.len() implies spec_atv_order(#[trigger] b1[i], #[trigger] b1[j]) < 0 by {
            assert(b1[i] == b[i + 1] && b1[j] == b[j + 1]);
        }
    }
    lemma_sorted_unique(a1, b1);
    assert(a =~= seq![a[0]] + a1);
    assert(b =~= seq![b[0]] + b1);
}

/// The relative distinguished name encoded by the SET TLV at `s[i]`, and
/// where it ends: its attributes are put in DER order, and two attributes
/// that are equal in that order are refused.
pub open spec fn spec_rdn_at(s: Seq<u8>, i: int, end: int) -> Option<(Seq<AtvView>, int)> {
    match spec_tlv(s, i, end) {
        Some((t, c, e)) => if t == 0x31 {
            match spec_atv_list(s, c, e) {
                Some(list) => if spec_atvs_dup(list) {
                    None
                } else {
                    Some((spec_atvs_in_der_order(list), e))
                },
                None => None,
            }
        } else {
            None
        },
        None => None,
    }
}

/// Concatenated DER encodings of attributes.
pub open spec fn spec_encode_atv_list(r: Seq<AtvView>) -> Option<Seq<u8>>
    decreases r.len(),
{
    if r.len() == 0 {
        Some(Seq::empty())
    } else {
        spec_cat(spec_encode_atv_list(r.drop_last()), spec_encode_atv(r.last()))
    }
}

/// The DER encoding of a relative distinguished name.
pub open spec fn spec_encode_rdn(r: Seq<AtvView>) -> Option<Seq<u8>> {
    spec_wrap_opt(0x31, spec_encode_atv_list(r))
}

/// Reads the attributes of `s[i..end]` one after the other.
fn read_atv_list(s: &[u8], i: usize, end: usize) -> (r: Option<Vec<AttributeTypeAndValue>>)
    requires
        end <= s.len(),
    ensures
        match r {
            Some(v) => spec_atv_list(s@, i as int, end as int) == Some(
                v@.map_values(|a: AttributeTypeAndValue| a@),
            ),
            None => spec_atv_list(s@, i as int, end as int) is None,
        },
{
    let mut out: Vec<AttributeTypeAndValue> = Vec::new();
    let mut p = i;
    while p < end
        invariant
            end <= s.len(),
            spec_atv_list(s@, i as int, end as int) == match spec_atv_list(s@, p as int, end as int) {
                Some(rest) => Some(out@.map_values(|a: AttributeTypeAndValue| a@) + rest),
                None => None::<Seq<AtvView>>,
            },
        decreases end - p,
    {
        match AttributeTypeAndValue::read(s, p, end) {
            Some((a, n)) => {
                proof {
                    assert(spec_tlv(s@, p as int, end as int) is Some);
                }
                let ghost old_out = out@.map_values(|a: AttributeTypeAndValue| a@);
                let ghost av = a@;
                out.push(a);
                proof {
                    assert(out@.map_values(|a: AttributeTypeAndValue| a@) =~= old_out.push(av));
                    match spec_atv_list(s@, n as int, end as int) {
                        Some(rest) => {
                            assert(old_out + (seq![av] + rest) =~= old_out.push(av) + rest);
                        },
                        None => {},
                    }
                }
                p = n;
            },
            None => {
                return None;
            },
        }
    }
    proof {
        assert(out@.map_values(|a: AttributeTypeAndValue| a@) + Seq::<AtvView>::empty()
            =~= out@.map_values(|a: AttributeTypeAndValue| a@));
    }
    Some(out)
}

/// Puts attributes in DER order; `None` when two of them are equal in that
/// order.
pub(crate) fn der_sort(list: Vec<AttributeTypeAndValue>) -> (r: Option<Vec<AttributeTypeAndValue>>)
    ensures
        ({
            let l = list@.map_values(|a: AttributeTypeAndValue| a@);
            match r {
                Some(v) => !spec_atvs_dup(l) && spec_atvs_sorted(v@.map_values(|a: AttributeTypeAndValue| a@))
                    && v@.map_values(|a: AttributeTypeAndValue| a@).to_set() == l.to_set(),
                None => spec_atvs_dup(l),
            }
        }),
{
    let ghost l = list@.map_values(|a: AttributeTypeAndValue| a@);
    let mut out: Vec<AttributeTypeAndValue> = Vec::new();
    let mut k: usize = 0;
    while k < list.len()
        invariant
            k <= list.len(),
            l == list@.map_values(|a: AttributeTypeAndValue| a@),
            spec_atvs_sorted(out@.map_values(|a: AttributeTypeAndValue| a@)),
            out@.map_values(|a: AttributeTypeAndValue| a@).to_set() == l.subrange(0, k as int).to_set(),
            !spec_atvs_dup(l.subrange(0, k as int)),
        decreases list.len() - k,
    {
        let ghost o = out@.map_values(|a: AttributeTypeAndValue| a@);
        let x = list[k].copy();
        let ghost xv = x@;
        assert(xv == l[k as int]);
        let mut j = out.len();
        while j > 0 && out[j - 1].der_order(&x) > 0
            invariant
                j <= out.len(),
                o == out@.map_values(|a: AttributeTypeAndValue| a@),
                xv == x@,
                forall|m: int| j <= m < out.len() ==> spec_atv_order(#[trigger] o[m], xv) > 0,
            decreases j,
        {
            j = j - 1;
        }
        if j > 0 && out[j - 1].der_order(&x) == 0 {
            proof {
                assert(o.to_set().contains(o[j - 1]));
                assert(l.subrange(0, k as int).to_set().contains(o[j - 1]));
                let i0 = choose|i0: int| 0 <= i0 < k && l.subrange(0, k as int)[i0] == o[j - 1];
                assert(l[i0] == o[j - 1]);
                assert(spec_atv_order(l[i0], l[k as int]) == 0);
            }
            return None;
        }
        proof {
            // Everything before position j is below x, everything after above.
            assert forall|m: int| 0 <= m < j implies spec_atv_order(#[trigger] o[m], xv) < 0 by {
                if m < j - 1 {
                    assert(spec_atv_order(o[m], o[j - 1]) < 0);
                    lemma_atv_order(o[m], o[j - 1], xv);
                }
            }
        }
        out.insert(j, x);
        proof {
            let o2 = out@.map_values(|a: AttributeTypeAndValue| a@);
            assert(o2 =~= o.insert(j as int, xv));
            assert forall|a: int, b: int| 0 <= a < b < o2.len() implies spec_atv_order(#[trigger] o2[a], #[trigger] o2[b]) < 0 by {
                if a < j && b == j {
                } else if a == j && b > j {
                    lemma_atv_order(o2[b], xv, xv);
                } else if a < j && b > j {
                    assert(o2[a] == o[a]);
                    assert(o2[b] == o[b - 1]);
                    assert(spec_atv_order(o[a], o[b - 1]) < 0);
                } else if b < j {
                    assert(spec_atv_order(o[a], o[b]) < 0);
                } else {
                    assert(o2[a] == o[a - 1]);
                    assert(o2[b] == o[b - 1]);
                    assert(spec_atv_order(o[a - 1], o[b - 1]) < 0);
                }
            }
            let lk1 = l.subrange(0, k + 1);
            assert(lk1 =~= l.subrange(0, k as int).push(xv));
            assert(o2.to_set() =~= o.to_set().insert(xv)) by {
                assert forall|y: AtvView| o2.to_set().contains(y) implies o.to_set().insert(xv).contains(y) by {
                    let i2 = choose|i2: int| 0 <= i2 < o2.len() && o2[i2] == y;
                    if i2 < j {
                        assert(o[i2] == y);
                    } else if i2 > j {
                        assert(o[i2 - 1] == y);
                    }
                }
                assert forall|y: AtvView| o.to_set().insert(xv).contains(y) implies o2.to_set().contains(y) by {
                    if y == xv {
                        assert(o2[j as int] == y);
                    } else {
                        let i2 = choose|i2: int| 0 <= i2 < o.len() && o[i2] == y;
                        if i2 < j {
                            assert(o2[i2] == y);
                        } else {
                            assert(o2[i2 + 1] == y);
                        }
                    }
                }
            }
            assert(lk1.to_set() =~= l.subrange(0, k as int).to_set().insert(xv)) by {
                assert forall|y: AtvView| lk1.to_set().contains(y) implies l.subrange(0, k as int).to_set().insert(xv).contains(y) by {
                    let i2 = choose|i2: int| 0 <= i2 < lk1.len() && lk1[i2] == y;
                    if i2 < k {
                        assert(l.subrange(0, k as int)[i2] == y);
                    }
                }
                assert forall|y: AtvView| l.subrange(0, k as int).to_set().insert(xv).contains(y) implies lk1.to_set().contains(y) by {
                    if y == xv {
                        assert(lk1[k as int] == y);
                    } else {
                        let i2 = choose|i2: int| 0 <= i2 < k && l.subrange(0, k as int)[i2] == y;
                        assert(lk1[i2] == y);
                    }
                }
            }
            // No duplicate among the first k + 1 attributes.
            if spec_atvs_dup(lk1) {
                let (a, b) = choose|a: int, b: int| 0 <= a < b < lk1.len() && spec_atv_order(#[trigger] lk1[a], #[trigger] lk1[b]) == 0;
                if b < k {
                    assert(l.subrange(0, k as int)[a] == lk1[a]);
                    assert(l.subrange(0, k as int)[b] == lk1[b]);
                    assert(spec_atvs_dup(l.subrange(0, k as int)));
                } else {
                    assert(lk1[b] == xv);
                    assert(o.to_set().contains(lk1[a])) by {
                        assert(l.subrange(0, k as int).to_set().contains(lk1[a])) by {
                            assert(l.subrange(0, k as int)[a] == lk1[a]);
                        }
                    }
                    let m = choose|m: int| 0 <= m < o.len() && o[m] == lk1[a];
                    if m < j {
                        assert(spec_atv_order(o[m], xv) < 0);
                    } else {
                        assert(spec_atv_order(o[m], xv) > 0);
                    }
                }
            }
        }
        k = k + 1;
    }
    proof {
        assert(l.subrange(0, list.len() as int) =~= l);
    }
    Some(out)
}

impl RelativeDistinguishedName {
    /// Reads a relative distinguished name (see `spec_rdn_at`).
    pub fn read(s: &[u8], i: usize, end: usize) -> (r: Option<(RelativeDistinguishedName, usize)>)
        requires
            end <= s.len(),
        ensures
            match r {
                Some((a, n)) => spec_rdn_at(s@, i as int, end as int) == Some((a@, n as int)),
                None => spec_rdn_at(s@, i as int, end as int) is None,
            },
    {
        let (t, c, e) = match read_tlv(s, i, end) {
            Some(x) => x,
            None => return None,
        };
        if t != 0x31 {
            return None;
        }
        let list = match read_atv_list(s, c, e) {
            Some(l) => l,
            None => return None,
        };
        let ghost lv = list@.map_values(|a: AttributeTypeAndValue| a@);
        match der_sort(list) {
            Some(sorted) => {
                let r = RelativeDistinguishedName { attributes: sorted };
                proof {
                    let w = spec_atvs_in_der_order(lv);
                    assert(spec_atvs_sorted(r@) && r@.to_set() == lv.to_set());
                    assert(spec_atvs_sorted(w) && w.to_set() == lv.to_set());
                    lemma_sorted_unique(r@, w);
                }
                Some((r, e))
            },
            None => None,
        }
    }

    /// The DER encoding of this relative distinguished name.
    pub fn encode(&self) -> (r: Option<Vec<u8>>)
        ensures
            match r {
                Some(v) => spec_encode_rdn(self@) == Some(v@),
                None => spec_encode_rdn(self@) is None,
            },
    {
        let mut content: Vec<u8> = Vec::new();
        let mut k: usize = 0;
        while k < self.attributes.len()
            invariant
                k <= self.attributes.len(),
                spec_encode_atv_list(self@.subrange(0, k as int)) == Some(content@),
            decreases self.attributes.len() - k,
        {
            let e = match self.attributes[k].encode() {
                Some(e) => e,
                None => {
                    proof {
                        lemma_encode_atv_list_fails(self@, k as int);
                    }
                    return None;
                },
            };
            proof {
                let p = self@.subrange(0, k + 1);
                assert(p.drop_last() =~= self@.subrange(0, k as int));
                assert(p.last() == self.attributes@[k as int]@);
            }
            append(&mut content, e.as_slice());
            k = k + 1;
        }
        proof {
            assert(self@.subrange(0, k as int) =~= self@);
        }
        wrap(0x31, content.as_slice())
    }

    /// A copy of this relative distinguished name.
    pub fn copy(&self) -> (r: RelativeDistinguishedName)
        ensures
            r@ == self@,
    {
        let mut out: Vec<AttributeTypeAndValue> = Vec::new();
        let mut k: usize = 0;
        while k < self.attributes.len()
            invariant
                k <= self.attributes.len(),
                out@.map_values(|a: AttributeTypeAndValue| a@) == self@.subrange(0, k as int),
            decreases self.attributes.len() - k,
        {
            let c = self.attributes[k].copy();
            let ghost old_out = out@.map_values(|a: AttributeTypeAndValue| a@);
            let ghost cv = c@;
            out.push(c);
            proof {
                assert(out@.map_values(|a: AttributeTypeAndValue| a@) =~= old_out.push(cv));
                assert(self@.subrange(0, k + 1) =~= self@.subrange(0, k as int).push(cv));
            }
            k = k + 1;
        }
        proof {
            assert(self@.subrange(0, k as int) =~= self@);
        }
        RelativeDistinguishedName { attributes: out }
    }

    /// Whether two relative distinguished names are the same.
    pub fn same(&self, other: &RelativeDistinguishedName) -> (r: bool)
        ensures
            r == (self@ == other@),
    {
        if self.attributes.len() != other.attributes.len() {
            assert(self@.len() != other@.len());
            return false;
        }
        let mut k: usize = 0;
        while k < self.attributes.len()
            invariant
                k <= self.attributes.len() == other.attributes.len(),
                forall|m: int| 0 <= m < k ==> self@[m] == other@[m],
            decreases self.attributes.len() - k,
        {
            if !self.attributes[k].same(&other.attributes[k]) {
                assert(self@[k as int] != other@[k as int]);
                return false;
            }
            k = k + 1;
        }
        assert(self@ =~= other@);
        true
    }
}

/// When one attribute fails to encode, so does the list of attributes it
/// belongs to.
proof fn lemma_encode_atv_list_fails(r: Seq<AtvView>, k: int)
    requires
        0 <= k < r.len(),
        spec_encode_atv(r[k]) is None,
    ensures
        spec_encode_atv_list(r) is None,
    decreases r.len(),
{
    if k < r.len() - 1 {
        lemma_encode_atv_list_fails(r.drop_last(), k);
    }
}


// ---------------------------------------------------------------------------
// RDNSequence
// ---------------------------------------------------------------------------

/// A distinguished name: a sequence of relative distinguished names, from
/// the most significant to the least.
#[derive(Debug, Clone, PartialEq, Eq)]
pub struct RDNSequence {
    pub rdns: Vec<RelativeDistinguishedName>,
}

/// A distinguished name.
pub type Name = RDNSequence;

impl View for RDNSequence {
    type V = Seq<Seq<AtvView>>;

    open spec fn view(&self) -> Seq<Seq<AtvView>> {
        self.rdns@.map_values(|r: RelativeDistinguishedName| r@)
    }
}

/// The relative distinguished names encoded one after the other in
/// `s[i..end]`.
pub open spec fn spec_rdn_list(s: Seq<u8>, i: int, end: int) -> Option<Seq<Seq<AtvView>>>
    decreases end - i,
{
    if i >= end {
        Some(Seq::empty())
    } else {
        match spec_rdn_at(s, i, end) {
            Some((a, n)) => if i < n <= end {
                match spec_rdn_list(s, n, end) {
                    Some(rest) => Some(seq![a] + rest),
                    None => None,
                }
            } else {
                None
            },
            None => None,
        }
    }
}

/// The distinguished name encoded by the SEQUENCE TLV at `s[i]`, and
/// where it ends.
pub open spec fn spec_name_at(s: Seq<u8>, i: int, end: int) -> Option<(Seq<Seq<AtvView>>, int)> {
    match spec_tlv(s, i, end) {
        Some((t, c, e)) => if t == 0x30 {
            match spec_rdn_list(s, c, e) {
                Some(l) => Some((l, e)),
                None => None,
            }
        } else {
            None
        },
        None => None,
    }
}

/// Concatenated DER encodings of relative distinguished names.
pub open spec fn spec_encode_rdn_list(r: Seq<Seq<AtvView>>) -> Option<Seq<u8>>
    decreases r.len(),
{
    if r.len() == 0 {
        Some(Seq::empty())
    } else {
        spec_cat(spec_encode_rdn_list(r.drop_last()), spec_encode_rdn(r.last()))
    }
}

/// The DER encoding of a distinguished name.
pub open spec fn spec_encode_name(n: Seq<Seq<AtvView>>) -> Option<Seq<u8>> {
    spec_wrap_opt(0x30, spec_encode_rdn_list(n))
}

/// When one relative distinguished name fails to encode, so does the list
/// it belongs to.
proof fn lemma_encode_rdn_list_fails(r: Seq<Seq<AtvView>>, k: int)
    requires
        0 <= k < r.len(),
        spec_encode_rdn(r[k]) is None,
    ensures
        spec_encode_rdn_list(r) is None,
    decreases r.len(),
{
    if k < r.len() - 1 {
        lemma_encode_rdn_list_fails(r.drop_last(), k);
    }
}

/// The first attribute of a distinguished name whose type is `oid`: the
/// position of its relative distinguished name and its position there.
pub open spec fn spec_find_attr(n: Seq<Seq<AtvView>>, oid: Seq<u8>) -> Option<(int, int)> {
    if exists|i: int, j: int| 0 <= i < n.len() && 0 <= j < n[i].len() && (#[trigger] n[i][j]).oid == oid {
        Some(choose|i: int, j: int| {
            &&& 0 <= i < n.len()
            &&& 0 <= j < n[i].len()
            &&& (#[trigger] n[i][j]).oid == oid
            &&& forall|a: int, b: int| 0 <= a < n.len() && 0 <= b < n[a].len() && (a < i || (a == i && b < j))
                ==> (#[trigger] n[a][b]).oid != oid
        })
    } else {
        None
    }
}

/// Reads the relative distinguished names of `s[i..end]` one after the
/// other.
fn read_rdn_list(s: &[u8], i: usize, end: usize) -> (r: Option<Vec<RelativeDistinguishedName>>)
    requires
        end <= s.len(),
    ensures
        match r {
            Some(v) => spec_rdn_list(s@, i as int, end as int) == Some(
                v@.map_values(|a: RelativeDistinguishedName| a@),
            ),
            None => spec_rdn_list(s@, i as int, end as int) is None,
        },
{
    let mut out: Vec<RelativeDistinguishedName> = Vec::new();
    let mut p = i;
    while p < end
        invariant
            end <= s.len(),
            spec_rdn_list(s@, i as int, end as int) == match spec_rdn_list(s@, p as int, end as int) {
                Some(rest) => Some(out@.map_values(|a: RelativeDistinguishedName| a@) + rest),
                None => None::<Seq<Seq<AtvView>>>,
            },
        decreases end - p,
    {
        match RelativeDistinguishedName::read(s, p, end) {
            Some((a, n)) => {
                proof {
                    assert(spec_tlv(s@, p as int, end as int) is Some);
                }
                let ghost old_out = out@.map_values(|a: RelativeDistinguishedName| a@);
                let ghost av = a@;
                out.push(a);
                proof {
                    assert(out@.map_values(|a: RelativeDistinguishedName| a@) =~= old_out.push(av));
                    match spec_rdn_list(s@, n as int, end as int) {
                        Some(rest) => {
                            assert(old_out + (seq![av] + rest) =~= old_out.push(av) + rest);
                        },
                        None => {},
                    }
                }
                p = n;
            },
            None => {
                return None;
            },
        }
    }
    proof {
        assert(out@.map_values(|a: RelativeDistinguishedName| a@) + Seq::<Seq<AtvView>>::empty()
            =~= out@.map_values(|a: RelativeDistinguishedName| a@));
    }
    Some(out)
}

impl RDNSequence {
    /// An empty distinguished name.
    pub fn new() -> (r: RDNSequence)
        ensures
            r@ == Seq::<Seq<AtvView>>::empty(),
    {
        let r = RDNSequence { rdns: Vec::new() };
        assert(r@ =~= Seq::<Seq<AtvView>>::empty());
        r
    }

    /// A distinguished name made of the given relative distinguished names.
    pub fn from_rdns(rdns: Vec<RelativeDistinguishedName>) -> (r: RDNSequence)
        ensures
            r.rdns@ == rdns@,
    {
        RDNSequence { rdns }
    }

    /// Appends a relative distinguished name.
    pub fn push(&mut self, rdn: RelativeDistinguishedName)
        ensures
            final(self)@ == old(self)@.push(rdn@),
    {
        let ghost o = self@;
        let ghost v = rdn@;
        self.rdns.push(rdn);
        assert(self@ =~= o.push(v));
    }

    /// The relative distinguished names, in order.
    pub fn iter(&self) -> (r: &[RelativeDistinguishedName])
        ensures
            r@ == self.rdns@,
    {
        self.rdns.as_slice()
    }

    /// Reads a distinguished name (see `spec_name_at`).
    pub fn read(s: &[u8], i: usize, end: usize) -> (r: Option<(RDNSequence, usize)>)
        requires
            end <= s.len(),
        ensures
            match r {
                Some((a, n)) => spec_name_at(s@, i as int, end as int) == Some((a@, n as int)),
                None => spec_name_at(s@, i as int, end as int) is None,
            },
    {
        let (t, c, e) = match read_tlv(s, i, end) {
            Some(x) => x,
            None => return None,
        };
        if t != 0x30 {
            return None;
        }
        let out = match read_rdn_list(s, c, e) {
            Some(v) => v,
            None => return None,
        };
        let r = RDNSequence { rdns: out };
        Some((r, e))
    }

    /// The DER encoding of this distinguished name.
    pub fn encode(&self) -> (r: Option<Vec<u8>>)
        ensures
            match r {
                Some(v) => spec_encode_name(self@) == Some(v@),
                None => spec_encode_name(self@) is None,
            },
    {
        let mut content: Vec<u8> = Vec::new();
        let mut k: usize = 0;
        while k < self.rdns.len()
            invariant
                k <= self.rdns.len(),
                spec_encode_rdn_list(self@.subrange(0, k as int)) == Some(content@),
            decreases self.rdns.len() - k,
        {
            let e = match self.rdns[k].encode() {
                Some(e) => e,
                None => {
                    proof {
                        lemma_encode_rdn_list_fails(self@, k as int);
                    }
                    return None;
                },
            };
            proof {
                let p = self@.subrange(0, k + 1);
                assert(p.drop_last() =~= self@.subrange(0, k as int));
                assert(p.last() == self.rdns@[k as int]@);
            }
            append(&mut content, e.as_slice());
            k = k + 1;
        }
        proof {
            assert(self@.subrange(0, k as int) =~= self@);
        }
        wrap(0x30, content.as_slice())
    }

    /// A copy of this distinguished name.
    pub fn copy(&self) -> (r: RDNSequence)
        ensures
            r@ == self@,
    {
        let mut out: Vec<RelativeDistinguishedName> = Vec::new();
        let mut k: usize = 0;
        while k < self.rdns.len()
            invariant
                k <= self.rdns.len(),
                out@.map_values(|a: RelativeDistinguishedName| a@) == self@.subrange(0, k as int),
            decreases self.rdns.len() - k,
        {
            let c = self.rdns[k].copy();
            let ghost old_out = out@.map_values(|a: RelativeDistinguishedName| a@);
            let ghost cv = c@;
            out.push(c);
            proof {
                assert(out@.map_values(|a: RelativeDistinguishedName| a@) =~= old_out.push(cv));
                assert(self@.subrange(0, k + 1) =~= self@.subrange(0, k as int).push(cv));
            }
            k = k + 1;
        }
        proof {
            assert(self@.subrange(0, k as int) =~= self@);
        }
        RDNSequence { rdns: out }
    }

    /// Whether two distinguished names are the same.
    pub fn same(&self, other: &RDNSequence) -> (r: bool)
        ensures
            r == (self@ == other@),
    {
        if self.rdns.len() != other.rdns.len() {
            assert(self@.len() != other@.len());
            return false;
        }
        let mut k: usize = 0;
        while k < self.rdns.len()
            invariant
                k <= self.rdns.len() == other.rdns.len(),
                forall|m: int| 0 <= m < k ==> self@[m] == other@[m],
            decreases self.rdns.len() - k,
        {
            if !self.rdns[k].same(&other.rdns[k]) {
                assert(self@[k as int] != other@[k as int]);
                return false;
            }
            k = k + 1;
        }
        assert(self@ =~= other@);
        true
    }

    /// The first attribute whose type is `oid`, searching the relative
    /// distinguished names in order.
    pub fn find_attr(&self, oid: &Oid) -> (r: Option<&AttributeTypeAndValue>)
        ensures
            match spec_find_attr(self@, oid@) {
                Some((i, j)) => r is Some && r.unwrap()@ == self@[i][j],
                None => r is None,
            },
    {
        let mut i: usize = 0;
        while i < self.rdns.len()
            invariant
                i <= self.rdns.len(),
                forall|a: int, b: int| 0 <= a < i && 0 <= b < self@[a].len() ==> (#[trigger] self@[a][b]).oid != oid@,
            decreases self.rdns.len() - i,
        {
            let rdn = &self.rdns[i];
            let mut j: usize = 0;
            while j < rdn.attributes.len()
                invariant
                    i < self.rdns.len(),
                    rdn == &self.rdns@[i as int],
                    j <= rdn.attributes.len(),
                    forall|a: int, b: int| 0 <= a < i && 0 <= b < self@[a].len() ==> (#[trigger] self@[a][b]).oid != oid@,
                    forall|b: int| 0 <= b < j ==> (#[trigger] self@[i as int][b]).oid != oid@,
                decreases rdn.attributes.len() - j,
            {
                if rdn.attributes[j].oid.same(oid) {
                    proof {
                        let n = self@;
                        assert(n[i as int][j as int].oid == oid@);
                        let w = spec_find_attr(n, oid@);
                        assert(w is Some);
                        let (wi, wj) = w.unwrap();
                        assert(n[wi][wj].oid == oid@);
                        if wi < i || (wi == i && wj < j) {
                            assert(false);
                        }
                        if wi > i || (wi == i && wj > j) {
                            assert(n[i as int][j as int].oid != oid@);
                        }
                    }
                    return Some(&rdn.attributes[j]);
                }
                j = j + 1;
            }
            proof {
                assert forall|a: int, b: int| 0 <= a < i + 1 && 0 <= b < self@[a].len() implies (#[trigger] self@[a][b]).oid != oid@ by {
                    if a == i {
                    }
                }
            }
            i = i + 1;
        }
        None
    }
}

} // verus!
