//! Scalars of the BLS12-381 scalar field, stored in canonical big-endian
//! encoding and modelled in specifications as natural numbers below the
//! field order.

use blsful::inner_types::{ExpandMsgXmd, Field, Scalar};
use rand::RngCore;
use vstd::arithmetic::div_mod::{
    lemma_fundamental_div_mod, lemma_fundamental_div_mod_converse, lemma_mod_twice,
    lemma_mul_mod_noop_general, lemma_small_mod,
};
use vstd::arithmetic::mul::{lemma_mul_is_associative, lemma_mul_is_commutative};
use vstd::prelude::*;

verus! {

/// The prime order of the BLS12-381 scalar field.
pub open spec fn field_order() -> nat {
    0x73eda753299d7d483339d80809a1d80553bda402fffe5bfeffffffff00000001nat
}

/// Big-endian integer value of a byte string.
pub open spec fn be_val(s: Seq<u8>) -> nat
    decreases s.len(),
{
    if s.len() == 0 {
        0
    } else {
        be_val(s.drop_last()) * 256 + (s.last() as nat)
    }
}

/// Addition in the scalar field.
pub open spec fn add_q(a: nat, b: nat) -> nat {
    (a + b) % field_order()
}

/// Multiplication in the scalar field.
pub open spec fn mul_q(a: nat, b: nat) -> nat {
    (a * b) % field_order()
}

/// Subtraction in the scalar field.
pub open spec fn sub_q(a: nat, b: nat) -> nat {
    add_q(a, (field_order() - b % field_order()) as nat)
}

/// The multiplicative inverse in the scalar field, where one exists.
pub open spec fn inv_q(a: nat) -> nat {
    choose|b: nat| b < field_order() && mul_q(a, b) == 1
}

/// The values of a sequence of elements.
pub open spec fn seq_vals(s: Seq<Element>) -> Seq<nat> {
    s.map_values(|e: Element| e@)
}

/// Every element of the sequence is canonical.
pub open spec fn all_wf(s: Seq<Element>) -> bool {
    forall|i: int| 0 <= i < s.len() ==> s[i].wf()
}

/// An element of the scalar field: an identifier, a hashed value, or a
/// polynomial coefficient.  Holds the canonical 32-byte big-endian encoding.
#[derive(Clone, Copy, Debug, PartialEq, Eq, Hash)]
pub struct Element {
    bytes: [u8; 32],
}

impl View for Element {
    type V = nat;

    closed spec fn view(&self) -> nat {
        be_val(self.bytes@)
    }
}

/// Big-endian values are injective on byte strings of equal length.
pub proof fn lemma_be_val_injective(a: Seq<u8>, b: Seq<u8>)
    requires
        a.len() == b.len(),
        be_val(a) == be_val(b),
    ensures
        a == b,
    decreases a.len(),
{
    if a.len() > 0 {
        let va = be_val(a.drop_last()) as int;
        let vb = be_val(b.drop_last()) as int;
        let n = field_order() as int;
        assert(va * 256 + a.last() == vb * 256 + b.last());
        lemma_fundamental_div_mod_converse(va * 256 + a.last(), 256, va, a.last() as int);
        lemma_fundamental_div_mod_converse(vb * 256 + b.last(), 256, vb, b.last() as int);
        assert(a.last() == b.last());
        assert(be_val(a.drop_last()) == be_val(b.drop_last()));
        lemma_be_val_injective(a.drop_last(), b.drop_last());
        assert(a =~= a.drop_last().push(a.last()));
        assert(b =~= b.drop_last().push(b.last()));
    } else {
        assert(a =~= b);
    }
}

/// A byte string of zeros has value zero.
pub proof fn lemma_be_val_zero(s: Seq<u8>)
    requires
        forall|i: int| 0 <= i < s.len() ==> s[i] == 0,
    ensures
        be_val(s) == 0,
    decreases s.len(),
{
    if s.len() > 0 {
        lemma_be_val_zero(s.drop_last());
    }
}

/// A field element has at most one multiplicative inverse, so `inv_q`
/// names exactly the inverse that an executable inversion returns.
pub proof fn lemma_inv_unique(a: nat, b: nat)
    requires
        b < field_order(),
        mul_q(a, b) == 1,
    ensures
        inv_q(a) == b,
        mul_q(a, inv_q(a)) == 1,
        inv_q(a) < field_order(),
{
    assert(b < field_order() && mul_q(a, b) == 1);
    let c = inv_q(a);
    assert(c < field_order() && mul_q(a, c) == 1);
    let n = field_order() as int;
    let ai = a as int;
    let bi = b as int;
    let ci = c as int;
    // c == c * (a * b) == (a * c) * b == b (mod n)
    assert((ci * (ai * bi)) % n == ci % n) by {
        lemma_mul_mod_noop_general(ci, ai * bi, n);
        assert((ci * ((ai * bi) % n)) % n == (ci * (ai * bi)) % n);
        assert((ai * bi) % n == 1);
        lemma_mod_twice(ci, n);
    }
    assert(((ai * ci) * bi) % n == bi % n) by {
        lemma_mul_mod_noop_general(ai * ci, bi, n);
        assert((((ai * ci) % n) * bi) % n == ((ai * ci) * bi) % n);
        assert((ai * ci) % n == 1);
        lemma_mul_mod_noop_general(1int, bi, n);
        lemma_mod_twice(bi, n);
    }
    assert(ci * (ai * bi) == (ai * ci) * bi) by {
        lemma_mul_is_associative(ci, ai, bi);
        lemma_mul_is_commutative(ci, ai);
    }
    lemma_small_mod(c, field_order());
    lemma_small_mod(b, field_order());
}

/// An element's encoding determines its value, and its value its encoding.
pub proof fn lemma_element_bytes(e: Element)
    ensures
        e.byte_view().len() == 32,
        be_val(e.byte_view()) == e@,
{
}

/// Two canonical scalars with one value are one scalar.
pub proof fn lemma_element_injective(a: Element, b: Element)
    requires
        a@ == b@,
    ensures
        a == b,
{
    lemma_be_val_injective(a.bytes@, b.bytes@);
    assert(a.bytes@ =~= b.bytes@);
    assert(a.bytes =~= b.bytes);
}

/// Multiplication by zero in the field gives zero.
pub proof fn lemma_mul_q_zero(a: nat)
    ensures
        mul_q(0, a) == 0,
        mul_q(a, 0) == 0,
{
    lemma_small_mod(0, field_order());
}

/// One is neutral for field multiplication of canonical values.
pub proof fn lemma_mul_q_one_right(a: nat)
    requires
        a < field_order(),
    ensures
        mul_q(a, 1) == a,
        mul_q(1, a) == a,
{
    lemma_small_mod(a, field_order());
    lemma_mul_is_commutative(a as int, 1int);
}

/// Field multiplication is commutative.
pub proof fn lemma_mul_q_comm(a: nat, b: nat)
    ensures
        mul_q(a, b) == mul_q(b, a),
{
    lemma_mul_is_commutative(a as int, b as int);
}

/// Field multiplication is associative.
pub proof fn lemma_mul_q_assoc(a: nat, b: nat, c: nat)
    ensures
        mul_q(mul_q(a, b), c) == mul_q(a, mul_q(b, c)),
{
    let n = field_order() as int;
    let ai = a as int;
    let bi = b as int;
    let ci = c as int;
    assert((((ai * bi) % n) * ci) % n == ((ai * bi) * ci) % n) by {
        lemma_mul_mod_noop_general(ai * bi, ci, n);
    }
    assert((ai * ((bi * ci) % n)) % n == (ai * (bi * ci)) % n) by {
        lemma_mul_mod_noop_general(ai, bi * ci, n);
    }
    lemma_mul_is_associative(ai, bi, ci);
}

/// Field addition is associative.
pub proof fn lemma_add_q_assoc(a: nat, b: nat, c: nat)
    ensures
        add_q(add_q(a, b), c) == add_q(a, add_q(b, c)),
{
    let n = field_order() as int;
    let ai = a as int;
    let bi = b as int;
    let ci = c as int;
    vstd::arithmetic::div_mod::lemma_add_mod_noop_right(ci, ai + bi, n);
    vstd::arithmetic::div_mod::lemma_add_mod_noop_right(ai, bi + ci, n);
    assert(((ai + bi) % n + ci) % n == (ci + (ai + bi) % n) % n);
}

/// A four-way regrouping of field sums.
pub proof fn lemma_add_q_four(p: nat, q: nat, r: nat, s: nat)
    ensures
        add_q(add_q(p, q), add_q(r, s)) == add_q(add_q(p, r), add_q(q, s)),
{
    lemma_add_q_assoc(p, q, (add_q(r, s)));
    lemma_add_q_assoc(q, r, s);
    assert(add_q(q, add_q(r, s)) == add_q(add_q(q, r), s));
    assert(add_q(q, r) == add_q(r, q));
    lemma_add_q_assoc(r, q, s);
    assert(add_q(add_q(r, q), s) == add_q(r, add_q(q, s)));
    lemma_add_q_assoc(p, r, (add_q(q, s)));
}

/// Field multiplication distributes over field addition.
pub proof fn lemma_mul_q_distrib(a: nat, b: nat, c: nat)
    ensures
        mul_q(a, add_q(b, c)) == add_q(mul_q(a, b), mul_q(a, c)),
{
    let n = field_order() as int;
    let ai = a as int;
    let bi = b as int;
    let ci = c as int;
    assert((ai * ((bi + ci) % n)) % n == (ai * (bi + ci)) % n) by {
        lemma_mul_mod_noop_general(ai, bi + ci, n);
    }
    assert(ai * (bi + ci) == ai * bi + ai * ci) by {
        vstd::arithmetic::mul::lemma_mul_is_distributive_add(ai, bi, ci);
    }
    assert((ai * bi + ai * ci) % n == ((ai * bi) % n + (ai * ci) % n) % n) by {
        vstd::arithmetic::div_mod::lemma_add_mod_noop(ai * bi, ai * ci, n);
    }
}

/// Adding zero in the field leaves a canonical value unchanged.
pub proof fn lemma_add_q_zero(a: nat)
    requires
        a < field_order(),
    ensures
        add_q(a, 0) == a,
        add_q(0, a) == a,
{
    lemma_small_mod(a, field_order());
}

/// For canonical values, the field difference is zero exactly on equal values.
pub proof fn lemma_sub_q_eq_zero(a: nat, b: nat)
    requires
        a < field_order(),
        b < field_order(),
    ensures
        (sub_q(a, b) == 0) <==> (a == b),
{
    let n = field_order() as int;
    lemma_small_mod(b, field_order());
    if a == b {
        assert((a + (field_order() - b)) == field_order());
        lemma_small_mod(0, field_order());
        vstd::arithmetic::div_mod::lemma_mod_self_0(n);
    } else if a > b {
        assert(a + (field_order() - b) == field_order() + (a - b));
        vstd::arithmetic::div_mod::lemma_mod_add_multiples_vanish((a - b) as int, n);
        lemma_small_mod((a - b) as nat, field_order());
    } else {
        assert(a + (field_order() - b) == field_order() - (b - a));
        lemma_small_mod((field_order() - (b - a)) as nat, field_order());
    }
}

/// Subtracting zero in the field leaves a canonical value unchanged.
pub proof fn lemma_sub_q_zero(a: nat)
    requires
        a < field_order(),
    ensures
        sub_q(a, 0) == a,
{
    let n = field_order() as int;
    assert(0nat % field_order() == 0) by {
        lemma_small_mod(0, field_order());
    }
    assert((a + field_order()) % field_order() == a) by {
        vstd::arithmetic::div_mod::lemma_mod_add_multiples_vanish(a as int, n);
        lemma_small_mod(a, field_order());
    }
}

impl Element {
    /// A stored scalar is always canonical: its value lies below the field order.
    pub open spec fn wf(&self) -> bool {
        self@ < field_order()
    }

    /// The canonical big-endian encoding, at the specification level.
    pub closed spec fn byte_view(&self) -> Seq<u8> {
        self.bytes@
    }

    /// The zero scalar.
    pub fn zero() -> (r: Element)
        ensures
            r@ == 0,
            r.wf(),
    {
        let b = [0u8; 32];
        proof {
            lemma_be_val_zero(b@);
        }
        Element { bytes: b }
    }

    /// Return the multiplicative identity element
    pub fn one() -> (r: Element)
        ensures
            r@ == 1,
            r.wf(),
    {
        let mut b = [0u8; 32];
        b[31] = 1;
        proof {
            assert(b@.last() == 1);
            lemma_be_val_zero(b@.drop_last());
        }
        Element { bytes: b }
    }

    /// Return the byte representation
    pub fn to_bytes(&self) -> (r: [u8; 32])
        ensures
            be_val(r@) == self@,
            r@ == self.byte_view(),
    {
        self.bytes
    }

    /// Decode a canonical big-endian encoding; reject a value at or above
    /// the field order.
    /// Relies on blstrs_plus's Scalar::from_be_bytes, which accepts exactly
    /// the canonical encodings.
    #[verifier::external_body]
    pub fn from_bytes(b: &[u8; 32]) -> (r: Option<Element>)
        ensures
            r is Some <==> be_val(b@) < field_order(),
            r is Some ==> r.unwrap()@ == be_val(b@) && r.unwrap().byte_view() == b@,
    {
        if bool::from(Scalar::from_be_bytes(b).is_some()) {
            Some(Element { bytes: *b })
        } else {
            None
        }
    }

    /// Construct an element by hashing the specified bytes
    pub fn hash(d: &[u8]) -> (r: Element)
        ensures
            r@ == hash_to_scalar_of(d@),
            r.wf(),
    {
        sc_hash(d)
    }

    /// Construct a random element
    pub fn random() -> (r: Element)
        ensures
            r.wf(),
    {
        sc_random()
    }

    /// The scalar congruent to a small integer.
    pub fn from_u64(x: u64) -> (r: Element)
        ensures
            r@ == x as nat,
            r.wf(),
    {
        sc_from_u64(x)
    }

    /// Value equality of canonical scalars.
    pub fn eq_elem(&self, other: &Element) -> (r: bool)
        ensures
            r == (self@ == other@),
    {
        let mut i: usize = 0;
        while i < 32
            invariant
                0 <= i <= 32,
                forall|j: int| 0 <= j < i ==> self.bytes@[j] == other.bytes@[j],
            decreases 32 - i,
        {
            if self.bytes[i] != other.bytes[i] {
                proof {
                    assert(self.bytes@ != other.bytes@);
                    if self@ == other@ {
                        lemma_be_val_injective(self.bytes@, other.bytes@);
                    }
                }
                return false;
            }
            i += 1;
        }
        proof {
            assert(self.bytes@ =~= other.bytes@);
        }
        true
    }

    /// Whether the scalar is zero.
    pub fn is_zero(&self) -> (r: bool)
        ensures
            r == (self@ == 0),
    {
        self.eq_elem(&Element::zero())
    }
}

/// What hashing bytes to a scalar under the fixed key-generation salt returns.
pub uninterp spec fn hash_to_scalar_of(data: Seq<u8>) -> nat;

/// Relies on blstrs_plus's Scalar::hash (expand-message-XMD over SHA-256,
/// here under the fixed salt "VB-ACC-KEYGEN-SALT-"): the canonical result
/// depends on the input bytes alone.
#[verifier::external_body]
fn sc_hash(data: &[u8]) -> (r: Element)
    ensures
        r@ == hash_to_scalar_of(data@),
        r.wf(),
{
    let s = Scalar::hash::<ExpandMsgXmd<sha2::Sha256>>(data, b"VB-ACC-KEYGEN-SALT-");
    Element { bytes: s.to_be_bytes() }
}

/// Relies on Scalar::from_bytes_wide: 64 uniform bytes reduce to a canonical
/// scalar.  Nothing further is promised of the random result.
#[verifier::external_body]
fn sc_random() -> (r: Element)
    ensures
        r.wf(),
{
    let mut wide = [0u8; 64];
    rand::rngs::OsRng.fill_bytes(&mut wide);
    Element { bytes: Scalar::from_bytes_wide(&wide).to_be_bytes() }
}

/// Relies on Scalar::from(u64), the canonical embedding of small integers.
#[verifier::external_body]
fn sc_from_u64(x: u64) -> (r: Element)
    ensures
        r@ == x as nat,
        r.wf(),
{
    Element { bytes: Scalar::from(x).to_be_bytes() }
}

/// Relies on Scalar addition, which is addition modulo the field order.
#[verifier::external_body]
pub(crate) fn sc_add(a: &Element, b: &Element) -> (r: Element)
    requires
        a.wf(),
        b.wf(),
    ensures
        r@ == add_q(a@, b@),
        r.wf(),
{
    let s = Scalar::from_be_bytes(&a.bytes).unwrap() + Scalar::from_be_bytes(&b.bytes).unwrap();
    Element { bytes: s.to_be_bytes() }
}

/// Relies on Scalar subtraction, which is subtraction modulo the field order.
#[verifier::external_body]
pub(crate) fn sc_sub(a: &Element, b: &Element) -> (r: Element)
    requires
        a.wf(),
        b.wf(),
    ensures
        r@ == sub_q(a@, b@),
        r.wf(),
{
    let s = Scalar::from_be_bytes(&a.bytes).unwrap() - Scalar::from_be_bytes(&b.bytes).unwrap();
    Element { bytes: s.to_be_bytes() }
}

/// Relies on Scalar multiplication, which is multiplication modulo the
/// field order.
#[verifier::external_body]
pub(crate) fn sc_mul(a: &Element, b: &Element) -> (r: Element)
    requires
        a.wf(),
        b.wf(),
    ensures
        r@ == mul_q(a@, b@),
        r.wf(),
{
    let s = Scalar::from_be_bytes(&a.bytes).unwrap() * Scalar::from_be_bytes(&b.bytes).unwrap();
    Element { bytes: s.to_be_bytes() }
}

/// Relies on Scalar::invert: defined exactly on the non-zero scalars, and
/// the result is the multiplicative inverse.
#[verifier::external_body]
pub(crate) fn sc_invert(a: &Element) -> (r: Option<Element>)
    requires
        a.wf(),
    ensures
        r is Some <==> a@ != 0,
        r is Some ==> r.unwrap().wf() && mul_q(a@, r.unwrap()@) == 1,
{
    let s = Scalar::from_be_bytes(&a.bytes).unwrap();
    Option::<Scalar>::from(s.invert()).map(|i| Element { bytes: i.to_be_bytes() })
}

} // verus!
