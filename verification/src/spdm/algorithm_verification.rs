//! SPDM algorithm negotiation values and the checks that tie a
//! certificate's algorithms to them (DSP0274 Tables 21 and 22).
use vstd::prelude::*;
use ::der::Decode;
use crate::error::{text, AlgorithmError, Error, ErrorView, KeyError, Result};
use crate::algorithms::SignatureAlgorithm;
use crate::crypto::{ring_verify, spec_ring_curve_bits, spec_ring_hash_bits, spec_ring_is_pss, spec_ring_verify, RingAlgorithm};
use crate::oid::{Oid, ecdsa_with_sha256, ecdsa_with_sha384, ecdsa_with_sha512, id_sha256, id_sha384, id_sha3_256, id_sha3_384, id_sha3_512, id_sha512, id_sm3_256, secp256r1, secp384r1, secp521r1, sha256_with_rsa_encryption, sha384_with_rsa_encryption, sha512_with_rsa_encryption, spec_ecdsa_with_sha256, spec_ecdsa_with_sha384, spec_ecdsa_with_sha512, spec_id_sha256, spec_id_sha384, spec_id_sha3_256, spec_id_sha3_384, spec_id_sha3_512, spec_id_sha512, spec_id_sm3_256, spec_secp256r1, spec_secp384r1, spec_secp521r1, spec_sha256_with_rsa_encryption, spec_sha384_with_rsa_encryption, spec_sha512_with_rsa_encryption};

verus! {

/// SPDM base asymmetric algorithms (the `BaseAsymAlgo` bit field).
#[derive(Debug, Clone, Copy, PartialEq, Eq, Structural)]
pub enum SpdmBaseAsymAlgo {
    RsaSsa2048,
    RsaPss2048,
    RsaSsa3072,
    RsaPss3072,
    EcdsaP256,
    RsaSsa4096,
    RsaPss4096,
    EcdsaP384,
    EcdsaP521,
    Sm2P256,
    Ed25519,
    Ed448,
}

/// The bit that stands for the `i`-th asymmetric algorithm, for `0 <= i < 12`.
pub open spec fn asym_algo_at(i: int) -> SpdmBaseAsymAlgo {
    if i == 0 { SpdmBaseAsymAlgo::RsaSsa2048 }
    else if i == 1 { SpdmBaseAsymAlgo::RsaPss2048 }
    else if i == 2 { SpdmBaseAsymAlgo::RsaSsa3072 }
    else if i == 3 { SpdmBaseAsymAlgo::RsaPss3072 }
    else if i == 4 { SpdmBaseAsymAlgo::EcdsaP256 }
    else if i == 5 { SpdmBaseAsymAlgo::RsaSsa4096 }
    else if i == 6 { SpdmBaseAsymAlgo::RsaPss4096 }
    else if i == 7 { SpdmBaseAsymAlgo::EcdsaP384 }
    else if i == 8 { SpdmBaseAsymAlgo::EcdsaP521 }
    else if i == 9 { SpdmBaseAsymAlgo::Sm2P256 }
    else if i == 10 { SpdmBaseAsymAlgo::Ed25519 }
    else { SpdmBaseAsymAlgo::Ed448 }
}

/// The bit position of an asymmetric algorithm in `BaseAsymAlgo`.
pub open spec fn asym_algo_bit(a: SpdmBaseAsymAlgo) -> int {
    match a {
        SpdmBaseAsymAlgo::RsaSsa2048 => 0,
        SpdmBaseAsymAlgo::RsaPss2048 => 1,
        SpdmBaseAsymAlgo::RsaSsa3072 => 2,
        SpdmBaseAsymAlgo::RsaPss3072 => 3,
        SpdmBaseAsymAlgo::EcdsaP256 => 4,
        SpdmBaseAsymAlgo::RsaSsa4096 => 5,
        SpdmBaseAsymAlgo::RsaPss4096 => 6,
        SpdmBaseAsymAlgo::EcdsaP384 => 7,
        SpdmBaseAsymAlgo::EcdsaP521 => 8,
        SpdmBaseAsymAlgo::Sm2P256 => 9,
        SpdmBaseAsymAlgo::Ed25519 => 10,
        SpdmBaseAsymAlgo::Ed448 => 11,
    }
}

/// Whether bit `i` of `bits` is set.
pub open spec fn bit_set(bits: u32, i: int) -> bool {
    bits & (1u32 << (i as u32)) != 0
}

/// The asymmetric algorithms among the first `n` bit positions of `bits`
/// whose bit is set, in increasing bit order.
pub open spec fn asym_algos_below(bits: u32, n: int) -> Seq<SpdmBaseAsymAlgo>
    decreases n,
{
    if n <= 0 {
        Seq::empty()
    } else if bit_set(bits, n - 1) {
        asym_algos_below(bits, n - 1).push(asym_algo_at(n - 1))
    } else {
        asym_algos_below(bits, n - 1)
    }
}

/// The asymmetric algorithms that a `BaseAsymAlgo` bit field names.
pub open spec fn spec_asym_from_bits(bits: u32) -> Seq<SpdmBaseAsymAlgo> {
    asym_algos_below(bits, 12)
}

impl SpdmBaseAsymAlgo {
    /// Lists the algorithms whose bit is set in `bits` (bits 0 to 11), in
    /// increasing bit order.
    pub fn from_bits(bits: u32) -> (r: Vec<SpdmBaseAsymAlgo>)
        ensures
            r@ == spec_asym_from_bits(bits),
    {
        let mut algos: Vec<SpdmBaseAsymAlgo> = Vec::new();
        let mut i: u32 = 0;
        while i < 12
            invariant
                i <= 12,
                algos@ == asym_algos_below(bits, i as int),
            decreases 12 - i,
        {
            if bits & (1u32 << i) != 0 {
                algos.push(Self::at(i));
            }
            i = i + 1;
        }
        algos
    }

    fn at(i: u32) -> (r: SpdmBaseAsymAlgo)
        requires
            i < 12,
        ensures
            r == asym_algo_at(i as int),
    {
        match i {
            0 => SpdmBaseAsymAlgo::RsaSsa2048,
            1 => SpdmBaseAsymAlgo::RsaPss2048,
            2 => SpdmBaseAsymAlgo::RsaSsa3072,
            3 => SpdmBaseAsymAlgo::RsaPss3072,
            4 => SpdmBaseAsymAlgo::EcdsaP256,
            5 => SpdmBaseAsymAlgo::RsaSsa4096,
            6 => SpdmBaseAsymAlgo::RsaPss4096,
            7 => SpdmBaseAsymAlgo::EcdsaP384,
            8 => SpdmBaseAsymAlgo::EcdsaP521,
            9 => SpdmBaseAsymAlgo::Sm2P256,
            10 => SpdmBaseAsymAlgo::Ed25519,
            _ => SpdmBaseAsymAlgo::Ed448,
        }
    }

    /// The RSA key size in bits for RSA algorithms.
    pub fn rsa_key_size(&self) -> (r: Option<usize>)
        ensures
            r == spec_rsa_key_size(*self),
    {
        match self {
            Self::RsaSsa2048 | Self::RsaPss2048 => Some(2048),
            Self::RsaSsa3072 | Self::RsaPss3072 => Some(3072),
            Self::RsaSsa4096 | Self::RsaPss4096 => Some(4096),
            _ => None,
        }
    }

    /// The curve identifier for the ECDSA algorithms.
    pub fn ecc_curve_oid(&self) -> (r: Option<Oid>)
        ensures
            r matches Some(o) ==> spec_ecc_curve_oid(*self) == Some(o@),
            r is None ==> spec_ecc_curve_oid(*self) is None,
    {
        match self {
            Self::EcdsaP256 => Some(secp256r1()),
            Self::EcdsaP384 => Some(secp384r1()),
            Self::EcdsaP521 => Some(secp521r1()),
            _ => None,
        }
    }

    /// Whether this is an RSA algorithm (RSASSA or RSAPSS).
    pub fn is_rsa(&self) -> (r: bool)
        ensures
            r == spec_rsa_key_size(*self) is Some,
    {
        match self {
            Self::RsaSsa2048 | Self::RsaPss2048 | Self::RsaSsa3072 | Self::RsaPss3072
            | Self::RsaSsa4096 | Self::RsaPss4096 => true,
            _ => false,
        }
    }

    /// Whether this is an elliptic curve algorithm (ECDSA P-256/384/521 or SM2).
    pub fn is_ecc(&self) -> (r: bool)
        ensures
            r == (*self == SpdmBaseAsymAlgo::EcdsaP256 || *self == SpdmBaseAsymAlgo::EcdsaP384
                || *self == SpdmBaseAsymAlgo::EcdsaP521 || *self == SpdmBaseAsymAlgo::Sm2P256),
    {
        match self {
            Self::EcdsaP256 | Self::EcdsaP384 | Self::EcdsaP521 | Self::Sm2P256 => true,
            _ => false,
        }
    }

    /// Whether this is an EdDSA algorithm (Ed25519 or Ed448).
    pub fn is_eddsa(&self) -> (r: bool)
        ensures
            r == (*self == SpdmBaseAsymAlgo::Ed25519 || *self == SpdmBaseAsymAlgo::Ed448),
    {
        match self {
            Self::Ed25519 | Self::Ed448 => true,
            _ => false,
        }
    }
}

/// The RSA key size of an asymmetric algorithm.
pub open spec fn spec_rsa_key_size(a: SpdmBaseAsymAlgo) -> Option<usize> {
    match a {
        SpdmBaseAsymAlgo::RsaSsa2048 | SpdmBaseAsymAlgo::RsaPss2048 => Some(2048usize),
        SpdmBaseAsymAlgo::RsaSsa3072 | SpdmBaseAsymAlgo::RsaPss3072 => Some(3072usize),
        SpdmBaseAsymAlgo::RsaSsa4096 | SpdmBaseAsymAlgo::RsaPss4096 => Some(4096usize),
        _ => None,
    }
}

/// The curve identifier of an ECDSA algorithm.
pub open spec fn spec_ecc_curve_oid(a: SpdmBaseAsymAlgo) -> Option<Seq<u8>> {
    match a {
        SpdmBaseAsymAlgo::EcdsaP256 => Some(spec_secp256r1()),
        SpdmBaseAsymAlgo::EcdsaP384 => Some(spec_secp384r1()),
        SpdmBaseAsymAlgo::EcdsaP521 => Some(spec_secp521r1()),
        _ => None,
    }
}

/// Law: an algorithm is listed by `from_bits` exactly when its bit is set.
pub proof fn lemma_asym_from_bits_membership(bits: u32, a: SpdmBaseAsymAlgo)
    ensures
        spec_asym_from_bits(bits).contains(a) <==> bit_set(bits, asym_algo_bit(a)),
{
    lemma_asym_below_membership(bits, 12, a);
}

/// All asymmetric algorithms, in increasing bit order.
pub open spec fn spec_all_asym_algos() -> Seq<SpdmBaseAsymAlgo> {
    Seq::new(12, |i: int| asym_algo_at(i))
}

proof fn lemma_asym_below_filter(bits: u32, n: int)
    requires
        0 <= n <= 12,
    ensures
        asym_algos_below(bits, n) == Seq::new(n as nat, |i: int| asym_algo_at(i)).filter(
            |a: SpdmBaseAsymAlgo| bit_set(bits, asym_algo_bit(a)),
        ),
    decreases n,
{
    reveal(Seq::filter);
    let s = Seq::new(n as nat, |i: int| asym_algo_at(i));
    if n > 0 {
        lemma_asym_below_filter(bits, n - 1);
        assert(s.drop_last() =~= Seq::new((n - 1) as nat, |i: int| asym_algo_at(i)));
        assert(s.last() == asym_algo_at(n - 1));
        assert(asym_algo_bit(asym_algo_at(n - 1)) == n - 1);
    } else {
        assert(s =~= Seq::<SpdmBaseAsymAlgo>::empty());
    }
}

/// Law: `from_bits` gives all asymmetric algorithms, in increasing bit
/// order, filtered to those whose bit is set; the bits from 12 on are not
/// looked at.
pub proof fn lemma_asym_from_bits_filter(bits: u32)
    ensures
        spec_asym_from_bits(bits) == spec_all_asym_algos().filter(|a: SpdmBaseAsymAlgo| bit_set(bits, asym_algo_bit(a))),
{
    lemma_asym_below_filter(bits, 12);
}

proof fn lemma_asym_below_membership(bits: u32, n: int, a: SpdmBaseAsymAlgo)
    requires
        0 <= n <= 12,
    ensures
        asym_algos_below(bits, n).contains(a) <==> (asym_algo_bit(a) < n && bit_set(bits, asym_algo_bit(a))),
    decreases n,
{
    if n > 0 {
        lemma_asym_below_membership(bits, n - 1, a);
        let prev = asym_algos_below(bits, n - 1);
        let x = asym_algo_at(n - 1);
        assert(asym_algo_bit(x) == n - 1);
        if bit_set(bits, n - 1) {
            let ps = prev.push(x);
            assert(asym_algos_below(bits, n) == ps);
            if a == x {
                assert(ps[prev.len() as int] == a);
            } else if prev.contains(a) {
                let k = choose|k: int| 0 <= k < prev.len() && #[trigger] prev[k] == a;
                assert(ps[k] == a);
            } else if ps.contains(a) {
                let k = choose|k: int| 0 <= k < ps.len() && #[trigger] ps[k] == a;
                if k < prev.len() {
                    assert(prev[k] == a);
                }
            }
        } else {
            if a == x {
                assert(!prev.contains(a));
            }
        }
    }
}

/// Law: `from_bits` lists the algorithms in strictly increasing bit order,
/// so none is listed twice.
pub proof fn lemma_asym_from_bits_ordered(bits: u32)
    ensures
        forall|i: int, j: int| 0 <= i < j < spec_asym_from_bits(bits).len()
            ==> asym_algo_bit(#[trigger] spec_asym_from_bits(bits)[i]) < asym_algo_bit(#[trigger] spec_asym_from_bits(bits)[j]),
{
    lemma_asym_below_ordered(bits, 12);
}

proof fn lemma_asym_below_ordered(bits: u32, n: int)
    requires
        0 <= n <= 12,
    ensures
        forall|i: int, j: int| 0 <= i < j < asym_algos_below(bits, n).len()
            ==> asym_algo_bit(#[trigger] asym_algos_below(bits, n)[i]) < asym_algo_bit(#[trigger] asym_algos_below(bits, n)[j]),
        forall|i: int| 0 <= i < asym_algos_below(bits, n).len() ==> asym_algo_bit(#[trigger] asym_algos_below(bits, n)[i]) < n,
    decreases n,
{
    if n > 0 {
        lemma_asym_below_ordered(bits, n - 1);
        let prev = asym_algos_below(bits, n - 1);
        let x = asym_algo_at(n - 1);
        assert(asym_algo_bit(x) == n - 1);
        if bit_set(bits, n - 1) {
            let ps = prev.push(x);
            assert(asym_algos_below(bits, n) == ps);
            assert forall|i: int| 0 <= i < ps.len() implies asym_algo_bit(#[trigger] ps[i]) < n by {
                if i < prev.len() {
                    assert(ps[i] == prev[i]);
                }
            }
            assert forall|i: int, j: int| 0 <= i < j < ps.len() implies asym_algo_bit(#[trigger] ps[i]) < asym_algo_bit(#[trigger] ps[j]) by {
                assert(ps[i] == prev[i]);
                if j < prev.len() {
                    assert(ps[j] == prev[j]);
                }
            }
        }
    }
}

// =============================================================================
// SPDM Base Hash Algorithm (DSP0274 Table 22)
// =============================================================================

/// SPDM base hash algorithms (the `BaseHashAlgo` bit field).
#[derive(Debug, Clone, Copy, PartialEq, Eq, Structural)]
pub enum SpdmBaseHashAlgo {
    Sha256,
    Sha384,
    Sha512,
    Sha3_256,
    Sha3_384,
    Sha3_512,
    Sm3_256,
}

/// The hash algorithm at bit position `i`, for `0 <= i < 7`.
pub open spec fn hash_algo_at(i: int) -> SpdmBaseHashAlgo {
    if i == 0 { SpdmBaseHashAlgo::Sha256 }
    else if i == 1 { SpdmBaseHashAlgo::Sha384 }
    else if i == 2 { SpdmBaseHashAlgo::Sha512 }
    else if i == 3 { SpdmBaseHashAlgo::Sha3_256 }
    else if i == 4 { SpdmBaseHashAlgo::Sha3_384 }
    else if i == 5 { SpdmBaseHashAlgo::Sha3_512 }
    else { SpdmBaseHashAlgo::Sm3_256 }
}

/// The bit position of a hash algorithm in `BaseHashAlgo`.
pub open spec fn hash_algo_bit(h: SpdmBaseHashAlgo) -> int {
    match h {
        SpdmBaseHashAlgo::Sha256 => 0,
        SpdmBaseHashAlgo::Sha384 => 1,
        SpdmBaseHashAlgo::Sha512 => 2,
        SpdmBaseHashAlgo::Sha3_256 => 3,
        SpdmBaseHashAlgo::Sha3_384 => 4,
        SpdmBaseHashAlgo::Sha3_512 => 5,
        SpdmBaseHashAlgo::Sm3_256 => 6,
    }
}

/// The hash algorithms among the first `n` bit positions of `bits` whose
/// bit is set, in increasing bit order.
pub open spec fn hash_algos_below(bits: u32, n: int) -> Seq<SpdmBaseHashAlgo>
    decreases n,
{
    if n <= 0 {
        Seq::empty()
    } else if bit_set(bits, n - 1) {
        hash_algos_below(bits, n - 1).push(hash_algo_at(n - 1))
    } else {
        hash_algos_below(bits, n - 1)
    }
}

/// The hash algorithms that a `BaseHashAlgo` bit field names.
pub open spec fn spec_hash_from_bits(bits: u32) -> Seq<SpdmBaseHashAlgo> {
    hash_algos_below(bits, 7)
}

/// The identifier of a hash algorithm.
pub open spec fn spec_hash_oid(h: SpdmBaseHashAlgo) -> Seq<u8> {
    match h {
        SpdmBaseHashAlgo::Sha256 => spec_id_sha256(),
        SpdmBaseHashAlgo::Sha384 => spec_id_sha384(),
        SpdmBaseHashAlgo::Sha512 => spec_id_sha512(),
        SpdmBaseHashAlgo::Sha3_256 => spec_id_sha3_256(),
        SpdmBaseHashAlgo::Sha3_384 => spec_id_sha3_384(),
        SpdmBaseHashAlgo::Sha3_512 => spec_id_sha3_512(),
        SpdmBaseHashAlgo::Sm3_256 => spec_id_sm3_256(),
    }
}

impl SpdmBaseHashAlgo {
    /// Lists the hash algorithms whose bit is set in `bits` (bits 0 to 6),
    /// in increasing bit order.
    pub fn from_bits(bits: u32) -> (r: Vec<SpdmBaseHashAlgo>)
        ensures
            r@ == spec_hash_from_bits(bits),
    {
        let mut algos: Vec<SpdmBaseHashAlgo> = Vec::new();
        let mut i: u32 = 0;
        while i < 7
            invariant
                i <= 7,
                algos@ == hash_algos_below(bits, i as int),
            decreases 7 - i,
        {
            if bits & (1u32 << i) != 0 {
                algos.push(Self::at(i));
            }
            i = i + 1;
        }
        algos
    }

    fn at(i: u32) -> (r: SpdmBaseHashAlgo)
        requires
            i < 7,
        ensures
            r == hash_algo_at(i as int),
    {
        match i {
            0 => SpdmBaseHashAlgo::Sha256,
            1 => SpdmBaseHashAlgo::Sha384,
            2 => SpdmBaseHashAlgo::Sha512,
            3 => SpdmBaseHashAlgo::Sha3_256,
            4 => SpdmBaseHashAlgo::Sha3_384,
            5 => SpdmBaseHashAlgo::Sha3_512,
            _ => SpdmBaseHashAlgo::Sm3_256,
        }
    }

    /// The identifier of this hash algorithm.
    pub fn oid(&self) -> (r: Oid)
        ensures
            r@ == spec_hash_oid(*self),
    {
        match self {
            Self::Sha256 => id_sha256(),
            Self::Sha384 => id_sha384(),
            Self::Sha512 => id_sha512(),
            Self::Sha3_256 => id_sha3_256(),
            Self::Sha3_384 => id_sha3_384(),
            Self::Sha3_512 => id_sha3_512(),
            Self::Sm3_256 => id_sm3_256(),
        }
    }
}

/// Law: a hash algorithm is listed by `from_bits` exactly when its bit is set.
pub proof fn lemma_hash_from_bits_membership(bits: u32, h: SpdmBaseHashAlgo)
    ensures
        spec_hash_from_bits(bits).contains(h) <==> bit_set(bits, hash_algo_bit(h)),
{
    lemma_hash_below_membership(bits, 7, h);
}

proof fn lemma_hash_below_membership(bits: u32, n: int, h: SpdmBaseHashAlgo)
    requires
        0 <= n <= 7,
    ensures
        hash_algos_below(bits, n).contains(h) <==> (hash_algo_bit(h) < n && bit_set(bits, hash_algo_bit(h))),
    decreases n,
{
    if n > 0 {
        lemma_hash_below_membership(bits, n - 1, h);
        let prev = hash_algos_below(bits, n - 1);
        let x = hash_algo_at(n - 1);
        assert(hash_algo_bit(x) == n - 1);
        if bit_set(bits, n - 1) {
            let ps = prev.push(x);
            assert(hash_algos_below(bits, n) == ps);
            if h == x {
                assert(ps[prev.len() as int] == h);
            } else if prev.contains(h) {
                let k = choose|k: int| 0 <= k < prev.len() && #[trigger] prev[k] == h;
                assert(ps[k] == h);
            } else if ps.contains(h) {
                let k = choose|k: int| 0 <= k < ps.len() && #[trigger] ps[k] == h;
                if k < prev.len() {
                    assert(prev[k] == h);
                }
            }
        } else {
            if h == x {
                assert(!prev.contains(h));
            }
        }
    }
}

/// Law: `from_bits` lists the hash algorithms in strictly increasing bit
/// order, so none is listed twice.
pub proof fn lemma_hash_from_bits_ordered(bits: u32)
    ensures
        forall|i: int, j: int| 0 <= i < j < spec_hash_from_bits(bits).len()
            ==> hash_algo_bit(#[trigger] spec_hash_from_bits(bits)[i]) < hash_algo_bit(#[trigger] spec_hash_from_bits(bits)[j]),
{
    lemma_hash_below_ordered(bits, 7);
}

/// All hash algorithms, in increasing bit order.
pub open spec fn spec_all_hash_algos() -> Seq<SpdmBaseHashAlgo> {
    Seq::new(7, |i: int| hash_algo_at(i))
}

proof fn lemma_hash_below_filter(bits: u32, n: int)
    requires
        0 <= n <= 7,
    ensures
        hash_algos_below(bits, n) == Seq::new(n as nat, |i: int| hash_algo_at(i)).filter(
            |h: SpdmBaseHashAlgo| bit_set(bits, hash_algo_bit(h)),
        ),
    decreases n,
{
    reveal(Seq::filter);
    let s = Seq::new(n as nat, |i: int| hash_algo_at(i));
    if n > 0 {
        lemma_hash_below_filter(bits, n - 1);
        assert(s.drop_last() =~= Seq::new((n - 1) as nat, |i: int| hash_algo_at(i)));
        assert(s.last() == hash_algo_at(n - 1));
        assert(hash_algo_bit(hash_algo_at(n - 1)) == n - 1);
    } else {
        assert(s =~= Seq::<SpdmBaseHashAlgo>::empty());
    }
}

/// Law: `from_bits` gives all hash algorithms, in increasing bit order,
/// filtered to those whose bit is set; the bits from 7 on are not looked
/// at.
pub proof fn lemma_hash_from_bits_filter(bits: u32)
    ensures
        spec_hash_from_bits(bits) == spec_all_hash_algos().filter(|h: SpdmBaseHashAlgo| bit_set(bits, hash_algo_bit(h))),
{
    lemma_hash_below_filter(bits, 7);
}

proof fn lemma_hash_below_ordered(bits: u32, n: int)
    requires
        0 <= n <= 7,
    ensures
        forall|i: int, j: int| 0 <= i < j < hash_algos_below(bits, n).len()
            ==> hash_algo_bit(#[trigger] hash_algos_below(bits, n)[i]) < hash_algo_bit(#[trigger] hash_algos_below(bits, n)[j]),
        forall|i: int| 0 <= i < hash_algos_below(bits, n).len() ==> hash_algo_bit(#[trigger] hash_algos_below(bits, n)[i]) < n,
    decreases n,
{
    if n > 0 {
        lemma_hash_below_ordered(bits, n - 1);
        let prev = hash_algos_below(bits, n - 1);
        let x = hash_algo_at(n - 1);
        assert(hash_algo_bit(x) == n - 1);
        if bit_set(bits, n - 1) {
            let ps = prev.push(x);
            assert(hash_algos_below(bits, n) == ps);
            assert forall|i: int| 0 <= i < ps.len() implies hash_algo_bit(#[trigger] ps[i]) < n by {
                if i < prev.len() {
                    assert(ps[i] == prev[i]);
                }
            }
            assert forall|i: int, j: int| 0 <= i < j < ps.len() implies hash_algo_bit(#[trigger] ps[i]) < hash_algo_bit(#[trigger] ps[j]) by {
                assert(ps[i] == prev[i]);
                if j < prev.len() {
                    assert(ps[j] == prev[j]);
                }
            }
        }
    }
}

// =============================================================================
// Algorithm verification
// =============================================================================

/// The hash of the six RSA PKCS#1 v1.5 and ECDSA signature algorithm
/// identifiers; `None` for any other identifier.
pub open spec fn spec_signature_hash(oid: Seq<u8>) -> Option<SpdmBaseHashAlgo> {
    if oid == spec_sha256_with_rsa_encryption() || oid == spec_ecdsa_with_sha256() {
        Some(SpdmBaseHashAlgo::Sha256)
    } else if oid == spec_sha384_with_rsa_encryption() || oid == spec_ecdsa_with_sha384() {
        Some(SpdmBaseHashAlgo::Sha384)
    } else if oid == spec_sha512_with_rsa_encryption() || oid == spec_ecdsa_with_sha512() {
        Some(SpdmBaseHashAlgo::Sha512)
    } else {
        None
    }
}

/// Whether a signature algorithm's hash is among the negotiated hash
/// algorithms.
pub open spec fn spec_signature_hash_negotiated(oid: Seq<u8>, base_hash_algo: u32) -> bool {
    match spec_signature_hash(oid) {
        Some(h) => bit_set(base_hash_algo, hash_algo_bit(h)),
        None => false,
    }
}

/// Law: the hash that a signature algorithm identifier is checked against
/// is the SHA-2 digest that the algorithm it names hashes with, for each
/// RSA PKCS#1 v1.5 and ECDSA identifier; other identifiers have none.
pub proof fn lemma_signature_hash_named(oid: Seq<u8>)
    ensures
        crate::algorithms::spec_signature_algorithm_from_oid(oid) matches Some(a)
            ==> spec_signature_hash(oid) matches Some(h)
                && spec_sha2_bits(h) == Some(crate::algorithms::spec_algorithm_hash_bits(a)),
        crate::algorithms::spec_signature_algorithm_from_oid(oid) is None ==> spec_signature_hash(oid) is None,
{
    crate::oid::lemma_signature_oids_distinct();
}

/// The bit of the negotiated hash field that stands for the SHA-2 digest
/// of the given size.
pub open spec fn spec_sha2_bit(bits: nat) -> int {
    if bits == 256 { 0 } else if bits == 384 { 1 } else { 2 }
}

/// Law: a certificate's signature algorithm passes the hash check exactly
/// when it is an RSA PKCS#1 v1.5 or ECDSA algorithm whose SHA-2 digest has
/// its bit set in the negotiated hash field.
pub proof fn lemma_signature_hash_negotiated_iff(oid: Seq<u8>, base_hash_algo: u32)
    ensures
        spec_signature_hash_negotiated(oid, base_hash_algo) <==> (
            crate::algorithms::spec_signature_algorithm_from_oid(oid) matches Some(a)
                && bit_set(base_hash_algo, spec_sha2_bit(crate::algorithms::spec_algorithm_hash_bits(a)))),
{
    lemma_signature_hash_named(oid);
}

fn signature_hash(oid: &Oid) -> (r: Option<SpdmBaseHashAlgo>)
    ensures
        r == spec_signature_hash(oid@),
{
    if oid.same(&sha256_with_rsa_encryption()) || oid.same(&ecdsa_with_sha256()) {
        Some(SpdmBaseHashAlgo::Sha256)
    } else if oid.same(&sha384_with_rsa_encryption()) || oid.same(&ecdsa_with_sha384()) {
        Some(SpdmBaseHashAlgo::Sha384)
    } else if oid.same(&sha512_with_rsa_encryption()) || oid.same(&ecdsa_with_sha512()) {
        Some(SpdmBaseHashAlgo::Sha512)
    } else {
        None
    }
}

fn hash_list_contains(list: &Vec<SpdmBaseHashAlgo>, h: SpdmBaseHashAlgo) -> (r: bool)
    ensures
        r == list@.contains(h),
{
    let mut i: usize = 0;
    while i < list.len()
        invariant
            i <= list.len(),
            forall|j: int| 0 <= j < i ==> list@[j] != h,
        decreases list.len() - i,
    {
        if list[i] == h {
            assert(list@[i as int] == h);
            return true;
        }
        i = i + 1;
    }
    false
}

/// Checks that the certificate's signature algorithm uses a negotiated hash
/// algorithm. Only the six RSA PKCS#1 v1.5 and ECDSA identifiers are
/// recognised; the asymmetric part is checked elsewhere.
pub fn verify_signature_algorithm(cert_sig_algo_oid: &Oid, _base_asym_algo: u32, base_hash_algo: u32) -> (r: Result<()>)
    ensures
        r is Ok <==> spec_signature_hash_negotiated(cert_sig_algo_oid@, base_hash_algo),
        r matches Err(e) ==> e@ == ErrorView::AlgorithmError(
            "Signature hash algorithm not in negotiated algorithms: "@ + crate::oid::spec_oid_text(cert_sig_algo_oid@),
        ),
{
    let hash_algos = SpdmBaseHashAlgo::from_bits(base_hash_algo);
    let hash_match = match signature_hash(cert_sig_algo_oid) {
        Some(h) => {
            proof {
                lemma_hash_from_bits_membership(base_hash_algo, h);
            }
            hash_list_contains(&hash_algos, h)
        },
        None => false,
    };
    if !hash_match {
        let message = text("Signature hash algorithm not in negotiated algorithms: ").concat(
            cert_sig_algo_oid.to_text().as_str(),
        );
        return Err(Error::AlgorithmError(AlgorithmError::Unsupported(message)));
    }
    Ok(())
}

/// Whether an elliptic curve is named by a negotiated ECDSA algorithm.
pub open spec fn spec_curve_negotiated(curve_oid: Seq<u8>, base_asym_algo: u32) -> bool {
    ||| curve_oid == spec_secp256r1() && bit_set(base_asym_algo, 4)
    ||| curve_oid == spec_secp384r1() && bit_set(base_asym_algo, 7)
    ||| curve_oid == spec_secp521r1() && bit_set(base_asym_algo, 8)
}

/// Checks that an elliptic curve is the curve of one of the negotiated
/// asymmetric algorithms (P-256, P-384 or P-521).
pub fn verify_ecc_curve(curve_oid: &Oid, base_asym_algo: u32) -> (r: Result<()>)
    ensures
        r is Ok <==> spec_curve_negotiated(curve_oid@, base_asym_algo),
        r matches Err(e) ==> e@ == ErrorView::AlgorithmError(
            "ECC curve not in negotiated algorithms: "@ + crate::oid::spec_oid_text(curve_oid@),
        ),
{
    let asym_algos = SpdmBaseAsymAlgo::from_bits(base_asym_algo);
    let mut curve_supported = false;
    let mut i: usize = 0;
    while i < asym_algos.len()
        invariant
            i <= asym_algos.len(),
            asym_algos@ == spec_asym_from_bits(base_asym_algo),
            curve_supported <==> exists|j: int| 0 <= j < i && spec_ecc_curve_oid(#[trigger] asym_algos@[j]) == Some(curve_oid@),
        decreases asym_algos.len() - i,
    {
        let supported = match asym_algos[i].ecc_curve_oid() {
            Some(algo_curve) => algo_curve.same(curve_oid),
            None => false,
        };
        if supported {
            assert(spec_ecc_curve_oid(asym_algos@[i as int]) == Some(curve_oid@));
        }
        curve_supported = curve_supported || supported;
        i = i + 1;
    }
    proof {
        lemma_asym_from_bits_membership(base_asym_algo, SpdmBaseAsymAlgo::EcdsaP256);
        lemma_asym_from_bits_membership(base_asym_algo, SpdmBaseAsymAlgo::EcdsaP384);
        lemma_asym_from_bits_membership(base_asym_algo, SpdmBaseAsymAlgo::EcdsaP521);
        let l = spec_asym_from_bits(base_asym_algo);
        if curve_supported {
            let j = choose|j: int| 0 <= j < l.len() && spec_ecc_curve_oid(#[trigger] l[j]) == Some(curve_oid@);
            assert(l.contains(l[j]));
        }
        if spec_curve_negotiated(curve_oid@, base_asym_algo) {
            if curve_oid@ == spec_secp256r1() && bit_set(base_asym_algo, 4) {
                let j = choose|j: int| 0 <= j < l.len() && l[j] == SpdmBaseAsymAlgo::EcdsaP256;
                assert(spec_ecc_curve_oid(l[j]) == Some(curve_oid@));
            } else if curve_oid@ == spec_secp384r1() && bit_set(base_asym_algo, 7) {
                let j = choose|j: int| 0 <= j < l.len() && l[j] == SpdmBaseAsymAlgo::EcdsaP384;
                assert(spec_ecc_curve_oid(l[j]) == Some(curve_oid@));
            } else {
                let j = choose|j: int| 0 <= j < l.len() && l[j] == SpdmBaseAsymAlgo::EcdsaP521;
                assert(spec_ecc_curve_oid(l[j]) == Some(curve_oid@));
            }
        }
    }
    if !curve_supported {
        let message = text("ECC curve not in negotiated algorithms: ").concat(curve_oid.to_text().as_str());
        return Err(Error::AlgorithmError(AlgorithmError::Unsupported(message)));
    }
    Ok(())
}

/// Whether a hash algorithm identifier is the identifier of a negotiated
/// hash algorithm.
pub open spec fn spec_hash_oid_negotiated(hash_oid: Seq<u8>, base_hash_algo: u32) -> bool {
    exists|i: int| 0 <= i < 7 && bit_set(base_hash_algo, i) && #[trigger] spec_hash_oid(hash_algo_at(i)) == hash_oid
}

/// Checks that a hash algorithm identifier is one of the negotiated hash
/// algorithms.
pub fn verify_hash_algorithm(hash_oid: &Oid, base_hash_algo: u32) -> (r: Result<()>)
    ensures
        r is Ok <==> spec_hash_oid_negotiated(hash_oid@, base_hash_algo),
        r matches Err(e) ==> e@ == ErrorView::AlgorithmError(
            "Hash algorithm not in negotiated algorithms: "@ + crate::oid::spec_oid_text(hash_oid@),
        ),
{
    let hash_algos = SpdmBaseHashAlgo::from_bits(base_hash_algo);
    let mut hash_supported = false;
    let mut i: usize = 0;
    while i < hash_algos.len()
        invariant
            i <= hash_algos.len(),
            hash_algos@ == spec_hash_from_bits(base_hash_algo),
            hash_supported <==> exists|j: int| 0 <= j < i && spec_hash_oid(#[trigger] hash_algos@[j]) == hash_oid@,
        decreases hash_algos.len() - i,
    {
        let supported = hash_algos[i].oid().same(hash_oid);
        if supported {
            assert(spec_hash_oid(hash_algos@[i as int]) == hash_oid@);
        }
        hash_supported = hash_supported || supported;
        i = i + 1;
    }
    proof {
        let l = spec_hash_from_bits(base_hash_algo);
        if hash_supported {
            let j = choose|j: int| 0 <= j < l.len() && spec_hash_oid(#[trigger] l[j]) == hash_oid@;
            assert(l.contains(l[j]));
            lemma_hash_from_bits_membership(base_hash_algo, l[j]);
            assert(hash_algo_at(hash_algo_bit(l[j])) == l[j]);
            assert(spec_hash_oid(hash_algo_at(hash_algo_bit(l[j]))) == hash_oid@);
        }
        if spec_hash_oid_negotiated(hash_oid@, base_hash_algo) {
            let i = choose|i: int| 0 <= i < 7 && bit_set(base_hash_algo, i) && #[trigger] spec_hash_oid(hash_algo_at(i)) == hash_oid@;
            let h = hash_algo_at(i);
            assert(hash_algo_bit(h) == i);
            lemma_hash_from_bits_membership(base_hash_algo, h);
            let j = choose|j: int| 0 <= j < l.len() && l[j] == h;
            assert(spec_hash_oid(l[j]) == hash_oid@);
        }
    }
    if !hash_supported {
        let message = text("Hash algorithm not in negotiated algorithms: ").concat(hash_oid.to_text().as_str());
        return Err(Error::AlgorithmError(AlgorithmError::Unsupported(message)));
    }
    Ok(())
}


// =============================================================================
// RSA key size
// =============================================================================

/// Whether an RSA key size is the size of one of the negotiated RSA
/// algorithms.
pub open spec fn spec_rsa_size_negotiated(size: usize, base_asym_algo: u32) -> bool {
    exists|a: SpdmBaseAsymAlgo| spec_asym_from_bits(base_asym_algo).contains(a) && spec_rsa_key_size(a) == Some(size)
}

/// Whether an RSA algorithm is negotiated.
pub open spec fn spec_rsa_negotiated(base_asym_algo: u32) -> bool {
    exists|a: SpdmBaseAsymAlgo| spec_asym_from_bits(base_asym_algo).contains(a) && spec_rsa_key_size(a) is Some
}

/// The key sizes of the negotiated RSA algorithms.
fn rsa_sizes(base_asym_algo: u32) -> (r: Vec<usize>)
    ensures
        forall|s: usize| r@.contains(s) <==> spec_rsa_size_negotiated(s, base_asym_algo),
        r@.len() == 0 <==> !spec_rsa_negotiated(base_asym_algo),
{
    let algos = SpdmBaseAsymAlgo::from_bits(base_asym_algo);
    let ghost l = algos@;
    let mut out: Vec<usize> = Vec::new();
    let mut i: usize = 0;
    while i < algos.len()
        invariant
            i <= algos.len(),
            l == algos@,
            forall|s: usize| out@.contains(s) <==> exists|j: int| 0 <= j < i && spec_rsa_key_size(#[trigger] l[j]) == Some(s),
            out@.len() == 0 <==> forall|j: int| 0 <= j < i ==> spec_rsa_key_size(#[trigger] l[j]) is None,
        decreases algos.len() - i,
    {
        match algos[i].rsa_key_size() {
            Some(size) => {
                let ghost o = out@;
                out.push(size);
                proof {
                    assert forall|s: usize| out@.contains(s) <==> exists|j: int| 0 <= j < i + 1 && spec_rsa_key_size(#[trigger] l[j]) == Some(s) by {
                        if out@.contains(s) {
                            let k = choose|k: int| 0 <= k < out@.len() && out@[k] == s;
                            if k < o.len() {
                                assert(o.contains(s));
                            } else {
                                assert(spec_rsa_key_size(l[i as int]) == Some(s));
                            }
                        }
                        if exists|j: int| 0 <= j < i + 1 && spec_rsa_key_size(#[trigger] l[j]) == Some(s) {
                            let j = choose|j: int| 0 <= j < i + 1 && spec_rsa_key_size(#[trigger] l[j]) == Some(s);
                            if j < i {
                                assert(o.contains(s));
                                let k = choose|k: int| 0 <= k < o.len() && o[k] == s;
                                assert(out@[k] == s);
                            } else {
                                assert(out@[o.len() as int] == s);
                            }
                        }
                    }
                }
            },
            None => {
                proof {
                    assert forall|s: usize| out@.contains(s) <==> exists|j: int| 0 <= j < i + 1 && spec_rsa_key_size(#[trigger] l[j]) == Some(s) by {
                        if exists|j: int| 0 <= j < i + 1 && spec_rsa_key_size(#[trigger] l[j]) == Some(s) {
                            let j = choose|j: int| 0 <= j < i + 1 && spec_rsa_key_size(#[trigger] l[j]) == Some(s);
                            assert(j < i);
                        }
                    }
                }
            },
        }
        i = i + 1;
    }
    proof {
        assert forall|s: usize| out@.contains(s) <==> spec_rsa_size_negotiated(s, base_asym_algo) by {
            if out@.contains(s) {
                let j = choose|j: int| 0 <= j < l.len() && spec_rsa_key_size(#[trigger] l[j]) == Some(s);
                assert(l.contains(l[j]));
            }
            if spec_rsa_size_negotiated(s, base_asym_algo) {
                let a = choose|a: SpdmBaseAsymAlgo| l.contains(a) && spec_rsa_key_size(a) == Some(s);
                let j = choose|j: int| 0 <= j < l.len() && l[j] == a;
                assert(spec_rsa_key_size(l[j]) == Some(s));
            }
        }
        if spec_rsa_negotiated(base_asym_algo) {
            let a = choose|a: SpdmBaseAsymAlgo| l.contains(a) && spec_rsa_key_size(a) is Some;
            let j = choose|j: int| 0 <= j < l.len() && l[j] == a;
            assert(spec_rsa_key_size(l[j]) is Some);
        }
        if out@.len() != 0 {
            let s = out@[0];
            assert(out@.contains(s));
            let j = choose|j: int| 0 <= j < l.len() && spec_rsa_key_size(#[trigger] l[j]) == Some(s);
            assert(l.contains(l[j]));
        }
    }
    out
}

/// What scanning the bytes of an RSA public key for its modulus gives.
pub enum RsaScan {
    /// The key is refused, with this message.
    Refused(Seq<char>),
    /// The size of the modulus in bits.
    Bits(usize),
}

/// The big-endian value of `n` length octets from `kb[start]` on, kept to
/// the low bits of a `usize` as each octet is shifted in.
pub open spec fn spec_long_len(kb: Seq<u8>, start: int, n: int) -> usize
    decreases n,
{
    if n <= 0 {
        0
    } else {
        (spec_long_len(kb, start, n - 1) << 8usize) | (kb[start + n - 1] as usize)
    }
}

/// The number of leading zero bits of an octet.
pub open spec fn spec_leading_zeros8(b: u8) -> int {
    if b >= 0x80 { 0 }
    else if b >= 0x40 { 1 }
    else if b >= 0x20 { 2 }
    else if b >= 0x10 { 3 }
    else if b >= 0x08 { 4 }
    else if b >= 0x04 { 5 }
    else if b >= 0x02 { 6 }
    else if b >= 0x01 { 7 }
    else { 8 }
}

/// The number of leading zero bits of an octet.
fn leading_zeros8(b: u8) -> (r: usize)
    ensures
        r == spec_leading_zeros8(b),
{
    if b >= 0x80 { 0 }
    else if b >= 0x40 { 1 }
    else if b >= 0x20 { 2 }
    else if b >= 0x10 { 3 }
    else if b >= 0x08 { 4 }
    else if b >= 0x04 { 5 }
    else if b >= 0x02 { 6 }
    else if b >= 0x01 { 7 }
    else { 8 }
}

/// The message for an RSA public key whose modulus header does not fit
/// its bytes.
pub open spec fn spec_malformed_rsa() -> Seq<char> {
    "Malformed RSA public key"@
}

/// The size in bits of the modulus once its length `ml` is read and `idx`
/// is the position after that length: a leading zero (sign) octet is not
/// counted, and neither are the leading zero bits of the first octet that
/// is counted.
pub open spec fn spec_modulus_bits(kb: Seq<u8>, ml: usize, idx: int) -> RsaScan {
    let lead = 0 <= idx < kb.len() && kb[idx] == 0;
    let ksb: int = if lead { ml - 1 } else { ml as int };
    let first: int = if lead { idx + 1 } else { idx };
    if ksb < 0 || ksb * 8 > usize::MAX {
        RsaScan::Refused(spec_malformed_rsa())
    } else {
        let lz: int = if ksb > 0 && 0 <= first < kb.len() { spec_leading_zeros8(kb[first]) } else { 0 };
        RsaScan::Bits((ksb * 8 - lz) as usize)
    }
}

/// Scans an RSAPublicKey (SEQUENCE of INTEGERs) for the size of its
/// modulus: the SEQUENCE tag is checked and its length skipped, then the
/// INTEGER tag of the modulus is checked and its length read.
pub open spec fn spec_rsa_scan(kb: Seq<u8>) -> RsaScan {
    if kb.len() < 4 {
        RsaScan::Refused("RSA public key too short"@)
    } else if kb[0] != 0x30 {
        RsaScan::Refused("Invalid RSA public key format"@)
    } else {
        let idx1: int = if kb[1] >= 0x80 { (kb[1] - 0x80) + 2 } else { 2 };
        if idx1 >= kb.len() || kb[idx1] != 0x02 {
            RsaScan::Refused("Cannot find RSA modulus"@)
        } else {
            let idx2 = idx1 + 1;
            if idx2 >= kb.len() {
                RsaScan::Refused(spec_malformed_rsa())
            } else if kb[idx2] >= 0x80 {
                let n: int = kb[idx2] - 0x80;
                if idx2 + 1 + n > kb.len() {
                    RsaScan::Refused(spec_malformed_rsa())
                } else {
                    spec_modulus_bits(kb, spec_long_len(kb, idx2 + 1, n), idx2 + 1 + n)
                }
            } else {
                spec_modulus_bits(kb, kb[idx2] as usize, idx2 + 1)
            }
        }
    }
}

/// What estimating an RSA key size gives.
pub enum RsaEstimate {
    /// The size of the modulus in bits, 2000 or more.
    Size(usize),
    /// The key is smaller than 2000 bits (its size in bits).
    Weak(usize),
    /// The key is refused, with this message.
    Refused(Seq<char>),
}

/// What `spki::SubjectPublicKeyInfo::from_der` gives for DER bytes: the
/// bytes of the subject public key, or the debug text of its error.
pub uninterp spec fn spec_spki_decode(der: Seq<u8>) -> core::result::Result<Seq<u8>, Seq<char>>;

/// Reads DER bytes with `spki::SubjectPublicKeyInfo::from_der`: the bytes
/// of the subject public key, or the debug text of the error; the result
/// is `spec_spki_decode` of the bytes.
#[verifier::external_body]
fn spki_decode(der: &[u8]) -> (r: core::result::Result<Vec<u8>, String>)
    ensures
        match r {
            Ok(k) => spec_spki_decode(der@) == Ok::<Seq<u8>, Seq<char>>(k@),
            Err(t) => spec_spki_decode(der@) == Err::<Seq<u8>, Seq<char>>(t@),
        },
{
    match spki::SubjectPublicKeyInfo::<::der::Any, ::der::asn1::BitString>::from_der(der) {
        Ok(k) => Ok(k.subject_public_key.raw_bytes().to_vec()),
        Err(e) => Err(format!("{:?}", e)),
    }
}

/// The size of the RSA key of a DER SubjectPublicKeyInfo: the size of its
/// modulus in bits; keys smaller than 2000 bits are weak.
pub open spec fn spec_estimate_rsa_key_size(der: Seq<u8>) -> RsaEstimate {
    match spec_spki_decode(der) {
        Err(t) => RsaEstimate::Refused("Failed to parse RSA public key: "@ + t),
        Ok(kb) => match spec_rsa_scan(kb) {
            RsaScan::Refused(m) => RsaEstimate::Refused(m),
            RsaScan::Bits(bits) => if bits >= 2000 {
                RsaEstimate::Size(bits)
            } else {
                RsaEstimate::Weak(bits)
            },
        },
    }
}

/// The size in bits of the modulus that ends its length at `idx` (see
/// `spec_modulus_bits`).
fn modulus_bits(kb: &[u8], ml: usize, idx: usize) -> (r: Result<usize>)
    ensures
        match spec_modulus_bits(kb@, ml, idx as int) {
            RsaScan::Refused(m) => r matches Err(e) && e@ == ErrorView::AlgorithmError(m),
            RsaScan::Bits(b) => r == Ok::<usize, Error>(b),
        },
{
    let lead = idx < kb.len() && kb[idx] == 0x00;
    if lead && ml == 0 {
        return Err(Error::AlgorithmError(AlgorithmError::Unsupported(text("Malformed RSA public key"))));
    }
    let ksb: usize = if lead { ml - 1 } else { ml };
    if ksb > usize::MAX / 8 {
        return Err(Error::AlgorithmError(AlgorithmError::Unsupported(text("Malformed RSA public key"))));
    }
    let first: usize = if lead { idx + 1 } else { idx };
    let lz: usize = if ksb > 0 && first < kb.len() { leading_zeros8(kb[first]) } else { 0 };
    proof {
        assert(ksb * 8 <= usize::MAX) by (nonlinear_arith)
            requires ksb <= usize::MAX / 8;
    }
    if ksb > 0 {
        assert(ksb * 8 >= 8);
    }
    Ok(ksb * 8 - lz)
}

/// Scans key bytes for the size of the modulus (see `spec_rsa_scan`).
pub fn rsa_scan(kb: &[u8]) -> (r: Result<usize>)
    ensures
        match spec_rsa_scan(kb@) {
            RsaScan::Refused(m) => r matches Err(e) && e@ == ErrorView::AlgorithmError(m),
            RsaScan::Bits(b) => r == Ok::<usize, Error>(b),
        },
{
    if kb.len() < 4 {
        return Err(Error::AlgorithmError(AlgorithmError::Unsupported(text("RSA public key too short"))));
    }
    let mut idx: usize = 0;
    if kb[idx] != 0x30 {
        return Err(Error::AlgorithmError(AlgorithmError::Unsupported(text("Invalid RSA public key format"))));
    }
    idx = idx + 1;
    let b1: u8 = kb[idx];
    if b1 & 0x80 != 0 {
        let len_bytes = (b1 & 0x7F) as usize;
        assert(b1 & 0x7F == b1 - 0x80 && b1 >= 0x80) by (bit_vector)
            requires b1 & 0x80 != 0;
        idx = idx + len_bytes + 1;
    } else {
        assert(b1 < 0x80) by (bit_vector)
            requires b1 & 0x80 == 0;
        idx = idx + 1;
    }
    if idx >= kb.len() || kb[idx] != 0x02 {
        return Err(Error::AlgorithmError(AlgorithmError::Unsupported(text("Cannot find RSA modulus"))));
    }
    idx = idx + 1;
    if idx >= kb.len() {
        return Err(Error::AlgorithmError(AlgorithmError::Unsupported(text("Malformed RSA public key"))));
    }
    let ghost idx2 = idx as int;
    let b2: u8 = kb[idx];
    if b2 & 0x80 != 0 {
        let len_bytes = (b2 & 0x7F) as usize;
        assert(b2 & 0x7F == b2 - 0x80 && b2 >= 0x80) by (bit_vector)
            requires b2 & 0x80 != 0;
        if len_bytes > kb.len() - idx - 1 {
            return Err(Error::AlgorithmError(AlgorithmError::Unsupported(text("Malformed RSA public key"))));
        }
        idx = idx + 1;
        let mut len: usize = 0;
        let mut k: usize = 0;
        while k < len_bytes
            invariant
                k <= len_bytes,
                idx == idx2 + 1 + k,
                idx2 + 1 + len_bytes <= kb.len(),
                len == spec_long_len(kb@, idx2 + 1, k as int),
            decreases len_bytes - k,
        {
            len = (len << 8) | (kb[idx] as usize);
            idx = idx + 1;
            k = k + 1;
        }
        modulus_bits(kb, len, idx)
    } else {
        assert(b2 < 0x80) by (bit_vector)
            requires b2 & 0x80 == 0;
        modulus_bits(kb, b2 as usize, idx + 1)
    }
}

/// Estimates the size of the RSA key of a DER SubjectPublicKeyInfo (see
/// `spec_estimate_rsa_key_size`).
pub fn estimate_rsa_key_size(der: &[u8]) -> (r: Result<usize>)
    ensures
        match spec_estimate_rsa_key_size(der@) {
            RsaEstimate::Size(n) => r == Ok::<usize, Error>(n),
            RsaEstimate::Weak(bits) => r matches Err(e) && e@ == ErrorView::KeyError("RSA"@, bits),
            RsaEstimate::Refused(m) => r matches Err(e) && e@ == ErrorView::AlgorithmError(m),
        },
{
    let key_bytes = match spki_decode(der) {
        Ok(k) => k,
        Err(t) => {
            let message = text("Failed to parse RSA public key: ").concat(t.as_str());
            return Err(Error::AlgorithmError(AlgorithmError::Unsupported(message)));
        },
    };
    let key_size_bits = match rsa_scan(key_bytes.as_slice()) {
        Ok(b) => b,
        Err(e) => return Err(e),
    };
    if key_size_bits >= 2000 {
        Ok(key_size_bits)
    } else {
        Err(Error::KeyError(KeyError::WeakKey { algorithm: text("RSA"), bits: key_size_bits }))
    }
}

/// The check of an RSA key's size against the negotiated RSA algorithms:
/// the size of its modulus must be one of theirs.
pub open spec fn spec_verify_rsa_key_size(der: Seq<u8>, base_asym_algo: u32) -> core::result::Result<(), ErrorView> {
    if !spec_rsa_negotiated(base_asym_algo) {
        Err(ErrorView::AlgorithmError("No RSA algorithms in negotiated base_asym_algo"@))
    } else {
        match spec_estimate_rsa_key_size(der) {
            RsaEstimate::Size(n) => if spec_rsa_size_negotiated(n, base_asym_algo) {
                Ok(())
            } else {
                Err(ErrorView::KeyError("RSA"@, n))
            },
            RsaEstimate::Weak(bits) => Err(ErrorView::KeyError("RSA"@, bits)),
            RsaEstimate::Refused(m) => Err(ErrorView::AlgorithmError(m)),
        }
    }
}

/// Checks that an RSA public key (a DER SubjectPublicKeyInfo) has the size
/// of one of the negotiated RSA algorithms (see `spec_verify_rsa_key_size`).
pub fn verify_rsa_key_size(public_key_der: &[u8], base_asym_algo: u32) -> (r: Result<()>)
    ensures
        crate::error::spec_res(r) == spec_verify_rsa_key_size(public_key_der@, base_asym_algo),
{
    let supported_sizes = rsa_sizes(base_asym_algo);
    if supported_sizes.len() == 0 {
        return Err(Error::AlgorithmError(AlgorithmError::Unsupported(
            text("No RSA algorithms in negotiated base_asym_algo"),
        )));
    }
    let key_size_bits = match estimate_rsa_key_size(public_key_der) {
        Ok(b) => b,
        Err(e) => return Err(e),
    };
    let mut found = false;
    let mut i: usize = 0;
    while i < supported_sizes.len()
        invariant
            i <= supported_sizes.len(),
            found <==> exists|j: int| 0 <= j < i && supported_sizes@[j] == key_size_bits,
        decreases supported_sizes.len() - i,
    {
        if supported_sizes[i] == key_size_bits {
            found = true;
        }
        i = i + 1;
    }
    if !found {
        return Err(Error::KeyError(KeyError::WeakKey { algorithm: text("RSA"), bits: key_size_bits }));
    }
    proof {
        let j = choose|j: int| 0 <= j < supported_sizes@.len() && supported_sizes@[j] == key_size_bits;
        assert(supported_sizes@.contains(key_size_bits));
    }
    Ok(())
}


// =============================================================================
// Signatures with negotiated algorithms
// =============================================================================

/// The name of a hash algorithm as its debug text shows it.
pub open spec fn spec_hash_algo_name(h: SpdmBaseHashAlgo) -> Seq<char> {
    match h {
        SpdmBaseHashAlgo::Sha256 => "Sha256"@,
        SpdmBaseHashAlgo::Sha384 => "Sha384"@,
        SpdmBaseHashAlgo::Sha512 => "Sha512"@,
        SpdmBaseHashAlgo::Sha3_256 => "Sha3_256"@,
        SpdmBaseHashAlgo::Sha3_384 => "Sha3_384"@,
        SpdmBaseHashAlgo::Sha3_512 => "Sha3_512"@,
        SpdmBaseHashAlgo::Sm3_256 => "Sm3_256"@,
    }
}

/// The name of an asymmetric algorithm as its debug text shows it.
pub open spec fn spec_asym_algo_name(a: SpdmBaseAsymAlgo) -> Seq<char> {
    match a {
        SpdmBaseAsymAlgo::RsaSsa2048 => "RsaSsa2048"@,
        SpdmBaseAsymAlgo::RsaPss2048 => "RsaPss2048"@,
        SpdmBaseAsymAlgo::RsaSsa3072 => "RsaSsa3072"@,
        SpdmBaseAsymAlgo::RsaPss3072 => "RsaPss3072"@,
        SpdmBaseAsymAlgo::EcdsaP256 => "EcdsaP256"@,
        SpdmBaseAsymAlgo::RsaSsa4096 => "RsaSsa4096"@,
        SpdmBaseAsymAlgo::RsaPss4096 => "RsaPss4096"@,
        SpdmBaseAsymAlgo::EcdsaP384 => "EcdsaP384"@,
        SpdmBaseAsymAlgo::EcdsaP521 => "EcdsaP521"@,
        SpdmBaseAsymAlgo::Sm2P256 => "Sm2P256"@,
        SpdmBaseAsymAlgo::Ed25519 => "Ed25519"@,
        SpdmBaseAsymAlgo::Ed448 => "Ed448"@,
    }
}

impl SpdmBaseHashAlgo {
    /// The name of this algorithm as its debug text shows it.
    pub fn name(&self) -> (r: &'static str)
        ensures
            r@ == spec_hash_algo_name(*self),
    {
        match self {
            SpdmBaseHashAlgo::Sha256 => "Sha256",
            SpdmBaseHashAlgo::Sha384 => "Sha384",
            SpdmBaseHashAlgo::Sha512 => "Sha512",
            SpdmBaseHashAlgo::Sha3_256 => "Sha3_256",
            SpdmBaseHashAlgo::Sha3_384 => "Sha3_384",
            SpdmBaseHashAlgo::Sha3_512 => "Sha3_512",
            SpdmBaseHashAlgo::Sm3_256 => "Sm3_256",
        }
    }
}

impl SpdmBaseAsymAlgo {
    /// The name of this algorithm as its debug text shows it.
    pub fn name(&self) -> (r: &'static str)
        ensures
            r@ == spec_asym_algo_name(*self),
    {
        match self {
            SpdmBaseAsymAlgo::RsaSsa2048 => "RsaSsa2048",
            SpdmBaseAsymAlgo::RsaPss2048 => "RsaPss2048",
            SpdmBaseAsymAlgo::RsaSsa3072 => "RsaSsa3072",
            SpdmBaseAsymAlgo::RsaPss3072 => "RsaPss3072",
            SpdmBaseAsymAlgo::EcdsaP256 => "EcdsaP256",
            SpdmBaseAsymAlgo::RsaSsa4096 => "RsaSsa4096",
            SpdmBaseAsymAlgo::RsaPss4096 => "RsaPss4096",
            SpdmBaseAsymAlgo::EcdsaP384 => "EcdsaP384",
            SpdmBaseAsymAlgo::EcdsaP521 => "EcdsaP521",
            SpdmBaseAsymAlgo::Sm2P256 => "Sm2P256",
            SpdmBaseAsymAlgo::Ed25519 => "Ed25519",
            SpdmBaseAsymAlgo::Ed448 => "Ed448",
        }
    }
}

/// The `ring` algorithm for a negotiated hash and asymmetric algorithm:
/// ECDSA P-256 and P-384 with SHA-256 or SHA-384, and RSASSA (PKCS#1 v1.5)
/// and RSAPSS of 2048, 3072 or 4096 bits with SHA-256, SHA-384 or SHA-512.
pub open spec fn spec_spdm_ring_algorithm(h: SpdmBaseHashAlgo, a: SpdmBaseAsymAlgo) -> Option<RingAlgorithm> {
    let rsa_ssa = a == SpdmBaseAsymAlgo::RsaSsa2048 || a == SpdmBaseAsymAlgo::RsaSsa3072 || a == SpdmBaseAsymAlgo::RsaSsa4096;
    let rsa_pss = a == SpdmBaseAsymAlgo::RsaPss2048 || a == SpdmBaseAsymAlgo::RsaPss3072 || a == SpdmBaseAsymAlgo::RsaPss4096;
    if h == SpdmBaseHashAlgo::Sha256 && a == SpdmBaseAsymAlgo::EcdsaP256 {
        Some(RingAlgorithm::EcdsaP256Sha256)
    } else if h == SpdmBaseHashAlgo::Sha384 && a == SpdmBaseAsymAlgo::EcdsaP256 {
        Some(RingAlgorithm::EcdsaP256Sha384)
    } else if h == SpdmBaseHashAlgo::Sha256 && a == SpdmBaseAsymAlgo::EcdsaP384 {
        Some(RingAlgorithm::EcdsaP384Sha256)
    } else if h == SpdmBaseHashAlgo::Sha384 && a == SpdmBaseAsymAlgo::EcdsaP384 {
        Some(RingAlgorithm::EcdsaP384Sha384)
    } else if rsa_ssa && h == SpdmBaseHashAlgo::Sha256 {
        Some(RingAlgorithm::RsaPkcs1Sha256)
    } else if rsa_ssa && h == SpdmBaseHashAlgo::Sha384 {
        Some(RingAlgorithm::RsaPkcs1Sha384)
    } else if rsa_ssa && h == SpdmBaseHashAlgo::Sha512 {
        Some(RingAlgorithm::RsaPkcs1Sha512)
    } else if rsa_pss && h == SpdmBaseHashAlgo::Sha256 {
        Some(RingAlgorithm::RsaPssSha256)
    } else if rsa_pss && h == SpdmBaseHashAlgo::Sha384 {
        Some(RingAlgorithm::RsaPssSha384)
    } else if rsa_pss && h == SpdmBaseHashAlgo::Sha512 {
        Some(RingAlgorithm::RsaPssSha512)
    } else {
        None
    }
}

/// The size in bits of a negotiated SHA-2 hash algorithm (`None` for the
/// others).
pub open spec fn spec_sha2_bits(h: SpdmBaseHashAlgo) -> Option<nat> {
    match h {
        SpdmBaseHashAlgo::Sha256 => Some(256),
        SpdmBaseHashAlgo::Sha384 => Some(384),
        SpdmBaseHashAlgo::Sha512 => Some(512),
        _ => None,
    }
}

/// The size in bits of the curve of a negotiated ECDSA algorithm (`None`
/// for the others).
pub open spec fn spec_asym_curve_bits(a: SpdmBaseAsymAlgo) -> Option<nat> {
    match a {
        SpdmBaseAsymAlgo::EcdsaP256 => Some(256),
        SpdmBaseAsymAlgo::EcdsaP384 => Some(384),
        SpdmBaseAsymAlgo::EcdsaP521 => Some(521),
        _ => None,
    }
}

/// Whether a negotiated asymmetric algorithm is RSASSA (PKCS#1 v1.5).
pub open spec fn spec_asym_is_rsa_ssa(a: SpdmBaseAsymAlgo) -> bool {
    a == SpdmBaseAsymAlgo::RsaSsa2048 || a == SpdmBaseAsymAlgo::RsaSsa3072 || a == SpdmBaseAsymAlgo::RsaSsa4096
}

/// Whether a negotiated asymmetric algorithm is RSAPSS.
pub open spec fn spec_asym_is_rsa_pss(a: SpdmBaseAsymAlgo) -> bool {
    a == SpdmBaseAsymAlgo::RsaPss2048 || a == SpdmBaseAsymAlgo::RsaPss3072 || a == SpdmBaseAsymAlgo::RsaPss4096
}

/// Law: a signature checked for a negotiated hash and asymmetric algorithm
/// is checked with the `ring` algorithm of exactly that hash and, for
/// ECDSA, that curve, and for RSA that padding; every pair that `ring` can
/// check (ECDSA P-256 or P-384 with SHA-256 or SHA-384, RSASSA or RSAPSS
/// with SHA-256, SHA-384 or SHA-512) is checked, and no other.
pub proof fn lemma_spdm_ring_algorithm_matches(h: SpdmBaseHashAlgo, a: SpdmBaseAsymAlgo)
    ensures
        spec_spdm_ring_algorithm(h, a) matches Some(r) ==> {
            &&& spec_sha2_bits(h) == Some(spec_ring_hash_bits(r))
            &&& spec_ring_curve_bits(r) == spec_asym_curve_bits(a)
            &&& spec_ring_is_pss(r) == spec_asym_is_rsa_pss(a)
        },
        spec_spdm_ring_algorithm(h, a) is Some <==> (
            (spec_asym_curve_bits(a) == Some(256nat) || spec_asym_curve_bits(a) == Some(384nat))
                && (spec_sha2_bits(h) == Some(256nat) || spec_sha2_bits(h) == Some(384nat))
            || (spec_asym_is_rsa_ssa(a) || spec_asym_is_rsa_pss(a)) && spec_sha2_bits(h) is Some),
{
}

/// The `ring` algorithm for a negotiated hash and asymmetric algorithm
/// (see `spec_spdm_ring_algorithm`).
fn spdm_ring_algorithm(h: SpdmBaseHashAlgo, a: SpdmBaseAsymAlgo) -> (r: Option<RingAlgorithm>)
    ensures
        r == spec_spdm_ring_algorithm(h, a),
{
    match (h, a) {
        (SpdmBaseHashAlgo::Sha256, SpdmBaseAsymAlgo::EcdsaP256) => Some(RingAlgorithm::EcdsaP256Sha256),
        (SpdmBaseHashAlgo::Sha384, SpdmBaseAsymAlgo::EcdsaP256) => Some(RingAlgorithm::EcdsaP256Sha384),
        (SpdmBaseHashAlgo::Sha256, SpdmBaseAsymAlgo::EcdsaP384) => Some(RingAlgorithm::EcdsaP384Sha256),
        (SpdmBaseHashAlgo::Sha384, SpdmBaseAsymAlgo::EcdsaP384) => Some(RingAlgorithm::EcdsaP384Sha384),
        (SpdmBaseHashAlgo::Sha256, SpdmBaseAsymAlgo::RsaSsa2048)
        | (SpdmBaseHashAlgo::Sha256, SpdmBaseAsymAlgo::RsaSsa3072)
        | (SpdmBaseHashAlgo::Sha256, SpdmBaseAsymAlgo::RsaSsa4096) => Some(RingAlgorithm::RsaPkcs1Sha256),
        (SpdmBaseHashAlgo::Sha384, SpdmBaseAsymAlgo::RsaSsa2048)
        | (SpdmBaseHashAlgo::Sha384, SpdmBaseAsymAlgo::RsaSsa3072)
        | (SpdmBaseHashAlgo::Sha384, SpdmBaseAsymAlgo::RsaSsa4096) => Some(RingAlgorithm::RsaPkcs1Sha384),
        (SpdmBaseHashAlgo::Sha512, SpdmBaseAsymAlgo::RsaSsa2048)
        | (SpdmBaseHashAlgo::Sha512, SpdmBaseAsymAlgo::RsaSsa3072)
        | (SpdmBaseHashAlgo::Sha512, SpdmBaseAsymAlgo::RsaSsa4096) => Some(RingAlgorithm::RsaPkcs1Sha512),
        (SpdmBaseHashAlgo::Sha256, SpdmBaseAsymAlgo::RsaPss2048)
        | (SpdmBaseHashAlgo::Sha256, SpdmBaseAsymAlgo::RsaPss3072)
        | (SpdmBaseHashAlgo::Sha256, SpdmBaseAsymAlgo::RsaPss4096) => Some(RingAlgorithm::RsaPssSha256),
        (SpdmBaseHashAlgo::Sha384, SpdmBaseAsymAlgo::RsaPss2048)
        | (SpdmBaseHashAlgo::Sha384, SpdmBaseAsymAlgo::RsaPss3072)
        | (SpdmBaseHashAlgo::Sha384, SpdmBaseAsymAlgo::RsaPss4096) => Some(RingAlgorithm::RsaPssSha384),
        (SpdmBaseHashAlgo::Sha512, SpdmBaseAsymAlgo::RsaPss2048)
        | (SpdmBaseHashAlgo::Sha512, SpdmBaseAsymAlgo::RsaPss3072)
        | (SpdmBaseHashAlgo::Sha512, SpdmBaseAsymAlgo::RsaPss4096) => Some(RingAlgorithm::RsaPssSha512),
        _ => None,
    }
}

/// The message for an algorithm combination that is not supported, with
/// the given lead text.
pub open spec fn spec_combination_text(lead: Seq<char>, h: SpdmBaseHashAlgo, a: SpdmBaseAsymAlgo) -> Seq<char> {
    lead + "hash="@ + spec_hash_algo_name(h) + ", asym="@ + spec_asym_algo_name(a)
}

/// Builds the message for an algorithm combination that is not supported.
fn combination_text(lead: &str, h: SpdmBaseHashAlgo, a: SpdmBaseAsymAlgo) -> (r: String)
    ensures
        r@ == spec_combination_text(lead@, h, a),
{
    let mut m = text(lead);
    m.append("hash=");
    m.append(h.name());
    m.append(", asym=");
    m.append(a.name());
    m
}

/// The public key that signs, given as a DER certificate or as a DER
/// SubjectPublicKeyInfo (an RFC 7250 raw public key): the certificate's
/// subject public key when the bytes are a certificate, else the key of the
/// SubjectPublicKeyInfo, else `None`.
pub open spec fn spec_signer_key(der: Seq<u8>) -> Option<Seq<u8>> {
    match crate::certificate::spec_certificate_from_der(der) {
        Some(c) => Some(c.tbs_certificate.subject_public_key_info.subject_public_key.bytes),
        None => match crate::certificate::spec_spki_from_der(der) {
            Some(k) => Some(k.subject_public_key.bytes),
            None => None,
        },
    }
}

/// Reads the public key that signs (see `spec_signer_key`).
fn signer_key(der: &[u8]) -> (r: Option<Vec<u8>>)
    ensures
        match spec_signer_key(der@) {
            Some(k) => r matches Some(v) && v@ == k,
            None => r is None,
        },
{
    match crate::certificate::Certificate::from_der(der) {
        Ok(cert) => {
            let k = cert.tbs_certificate.subject_public_key_info.subject_public_key.raw_bytes();
            Some(crate::bytes::copy_bytes(k))
        },
        Err(_) => match crate::certificate::SubjectPublicKeyInfo::from_der(der) {
            Ok(spki) => {
                let k = spki.subject_public_key.raw_bytes();
                Some(crate::bytes::copy_bytes(k))
            },
            Err(_) => None,
        },
    }
}

/// Verifies a signature over `data` with the public key of a DER
/// certificate, for a negotiated hash and asymmetric algorithm. The
/// certificate must parse; the combination must be one `ring` supports
/// (see `spec_spdm_ring_algorithm`).
pub fn verify_signature(
    base_hash_algo: SpdmBaseHashAlgo,
    base_asym_algo: SpdmBaseAsymAlgo,
    public_cert_der: &[u8],
    data: &[u8],
    signature: &[u8],
) -> (r: Result<()>)
    ensures
        match spec_signer_key(public_cert_der@) {
            None => r matches Err(e) && e@ == ErrorView::Asn1(crate::error::Asn1Error::Malformed),
            Some(key) => match spec_spdm_ring_algorithm(base_hash_algo, base_asym_algo) {
                Some(ra) => if spec_ring_verify(ra, key, data@, signature@) {
                    r is Ok
                } else {
                    r matches Err(e) && e@ == ErrorView::SignatureFailed
                },
                None => r matches Err(e) && e@ == ErrorView::AlgorithmError(
                    spec_combination_text("Unsupported algorithm combination: "@, base_hash_algo, base_asym_algo),
                ),
            },
        },
{
    let public_key = match signer_key(public_cert_der) {
        Some(k) => k,
        None => return Err(Error::Asn1(crate::error::Asn1Error::Malformed)),
    };
    let public_key = public_key.as_slice();
    match spdm_ring_algorithm(base_hash_algo, base_asym_algo) {
        Some(alg) => {
            if ring_verify(alg, public_key, data, signature) {
                Ok(())
            } else {
                Err(Error::signature_failed())
            }
        },
        None => Err(Error::unsupported_algorithm(
            combination_text("Unsupported algorithm combination: ", base_hash_algo, base_asym_algo),
        )),
    }
}

/// The X.509 signature algorithm for a negotiated hash and asymmetric
/// algorithm: ECDSA P-256 with SHA-256 or SHA-384, ECDSA P-384 with SHA-384
/// (also when SHA-256 was negotiated), and RSA (RSASSA or RSAPSS, taken
/// as PKCS#1 v1.5) with SHA-256, SHA-384 or SHA-512.
pub open spec fn spec_map_spdm_to_signature_algorithm(h: SpdmBaseHashAlgo, a: SpdmBaseAsymAlgo) -> Option<SignatureAlgorithm> {
    let rsa = spec_rsa_key_size(a) is Some;
    if a == SpdmBaseAsymAlgo::EcdsaP256 && h == SpdmBaseHashAlgo::Sha256 {
        Some(SignatureAlgorithm::EcdsaSha256)
    } else if a == SpdmBaseAsymAlgo::EcdsaP256 && h == SpdmBaseHashAlgo::Sha384 {
        Some(SignatureAlgorithm::EcdsaSha384)
    } else if a == SpdmBaseAsymAlgo::EcdsaP384 && (h == SpdmBaseHashAlgo::Sha256 || h == SpdmBaseHashAlgo::Sha384) {
        Some(SignatureAlgorithm::EcdsaSha384)
    } else if rsa && h == SpdmBaseHashAlgo::Sha256 {
        Some(SignatureAlgorithm::RsaSha256)
    } else if rsa && h == SpdmBaseHashAlgo::Sha384 {
        Some(SignatureAlgorithm::RsaSha384)
    } else if rsa && h == SpdmBaseHashAlgo::Sha512 {
        Some(SignatureAlgorithm::RsaSha512)
    } else {
        None
    }
}

/// Maps a negotiated hash and asymmetric algorithm to an X.509 signature
/// algorithm (see `spec_map_spdm_to_signature_algorithm`).
pub fn map_spdm_to_signature_algorithm(hash_algo: SpdmBaseHashAlgo, asym_algo: SpdmBaseAsymAlgo) -> (r: Result<SignatureAlgorithm>)
    ensures
        match spec_map_spdm_to_signature_algorithm(hash_algo, asym_algo) {
            Some(s) => r == Ok::<SignatureAlgorithm, Error>(s),
            None => r matches Err(e) && e@ == ErrorView::AlgorithmError(
                spec_combination_text("Unsupported SPDM algorithm combination: "@, hash_algo, asym_algo),
            ),
        },
{
    let rsa = asym_algo.is_rsa();
    match (hash_algo, asym_algo) {
        (SpdmBaseHashAlgo::Sha256, SpdmBaseAsymAlgo::EcdsaP256) => Ok(SignatureAlgorithm::EcdsaSha256),
        (SpdmBaseHashAlgo::Sha384, SpdmBaseAsymAlgo::EcdsaP256) => Ok(SignatureAlgorithm::EcdsaSha384),
        (SpdmBaseHashAlgo::Sha256, SpdmBaseAsymAlgo::EcdsaP384) => Ok(SignatureAlgorithm::EcdsaSha384),
        (SpdmBaseHashAlgo::Sha384, SpdmBaseAsymAlgo::EcdsaP384) => Ok(SignatureAlgorithm::EcdsaSha384),
        (SpdmBaseHashAlgo::Sha256, _) if rsa => Ok(SignatureAlgorithm::RsaSha256),
        (SpdmBaseHashAlgo::Sha384, _) if rsa => Ok(SignatureAlgorithm::RsaSha384),
        (SpdmBaseHashAlgo::Sha512, _) if rsa => Ok(SignatureAlgorithm::RsaSha512),
        _ => Err(Error::AlgorithmError(AlgorithmError::Unsupported(
            combination_text("Unsupported SPDM algorithm combination: ", hash_algo, asym_algo),
        ))),
    }
}

} // verus!
