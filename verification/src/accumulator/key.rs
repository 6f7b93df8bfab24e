//! The accumulator's secret and public keys, and the batch add/remove
//! algebra: products of shifted identifiers and the coefficient polynomial
//! that lets an offline witness holder cross a batch update.

use crate::field::{
    add_q, all_wf, be_val, field_order, inv_q, lemma_inv_unique, mul_q, seq_vals, Element,
};
use crate::group::{g2_gen, g2_generator, g2_mul, g2_valid_of};
use crate::polynomial::{poly_add, poly_mul_linear, poly_scale, poly_sub, Polynomial};
use vstd::prelude::*;

verus! {

/// The product of (x + alpha) over a sequence of values, in the scalar field.
pub open spec fn prod_add(xs: Seq<nat>, alpha: nat) -> nat
    decreases xs.len(),
{
    if xs.len() == 0 {
        1
    } else {
        mul_q(prod_add(xs.drop_last(), alpha), add_q(xs.last(), alpha))
    }
}

/// The coefficients of the product of linear factors (x_i − x).
pub open spec fn lin_prod(xs: Seq<nat>) -> Seq<nat>
    decreases xs.len(),
{
    if xs.len() == 0 {
        seq![1nat]
    } else {
        poly_mul_linear(lin_prod(xs.drop_last()), xs.last())
    }
}

/// The first `s` terms of the addition polynomial
/// v_A(x) = sum over s of (prod of the first s shifted additions) times
/// (prod over later additions j of (a_j − x)).
pub open spec fn v_a_sum(adds: Seq<nat>, alpha: nat, s: int) -> Seq<nat>
    decreases s,
{
    if s <= 0 {
        Seq::<nat>::empty()
    } else {
        poly_add(
            v_a_sum(adds, alpha, s - 1),
            poly_scale(
                lin_prod(adds.skip(s)),
                prod_add(adds.take(s - 1), alpha),
            ),
        )
    }
}

/// The first `s` terms of the deletion polynomial
/// v_D(x) = sum over s of (inverse of the product of the first s shifted
/// deletions) times (prod over earlier deletions j of (d_j − x)).
pub open spec fn v_d_sum(dels: Seq<nat>, alpha: nat, s: int) -> Seq<nat>
    decreases s,
{
    if s <= 0 {
        Seq::<nat>::empty()
    } else {
        poly_add(
            v_d_sum(dels, alpha, s - 1),
            poly_scale(
                lin_prod(dels.take(s - 1)),
                inv_q(prod_add(dels.take(s), alpha)),
            ),
        )
    }
}

/// The coefficient polynomial of a batch update:
/// v_A − v_D · (prod of shifted additions).
pub open spec fn update_poly(adds: Seq<nat>, dels: Seq<nat>, alpha: nat) -> Seq<nat> {
    poly_sub(
        v_a_sum(adds, alpha, adds.len() as int),
        poly_scale(v_d_sum(dels, alpha, dels.len() as int), prod_add(adds, alpha)),
    )
}

/// A product of shifted values is a canonical field value.
pub proof fn lemma_prod_add_bound(xs: Seq<nat>, alpha: nat)
    ensures
        prod_add(xs, alpha) < field_order(),
    decreases xs.len(),
{
    if xs.len() > 0 {
        lemma_prod_add_bound(xs.drop_last(), alpha);
    }
}

/// A product of shifted values unfolds at its first factor.
pub proof fn lemma_prod_add_first(s: Seq<nat>, alpha: nat)
    requires
        s.len() > 0,
    ensures
        prod_add(s, alpha) == mul_q(add_q(s[0], alpha), prod_add(s.drop_first(), alpha)),
    decreases s.len(),
{
    let f0 = add_q(s[0], alpha);
    if s.len() == 1 {
        assert(s.drop_last() =~= Seq::<nat>::empty());
        assert(s.drop_first() =~= Seq::<nat>::empty());
        assert(s.last() == s[0]);
        crate::field::lemma_mul_q_comm(1, f0);
        crate::field::lemma_mul_q_one_right(f0);
    } else {
        lemma_prod_add_first(s.drop_last(), alpha);
        assert(s.drop_last()[0] == s[0]);
        assert(s.drop_last().drop_first() =~= s.drop_first().drop_last());
        assert(s.drop_first().last() == s.last());
        let mid = prod_add(s.drop_first().drop_last(), alpha);
        let fl = add_q(s.last(), alpha);
        crate::field::lemma_mul_q_assoc(f0, mid, fl);
    }
}

/// A product of shifted values splits at any point into the product over
/// the prefix times the product over the rest.
pub proof fn lemma_prod_add_split(xs: Seq<nat>, alpha: nat, t: int)
    requires
        0 <= t <= xs.len(),
    ensures
        prod_add(xs, alpha) == mul_q(prod_add(xs.take(t), alpha), prod_add(xs.skip(t), alpha)),
    decreases xs.len() - t,
{
    if t == xs.len() {
        assert(xs.take(t) =~= xs);
        assert(xs.skip(t) =~= Seq::<nat>::empty());
        lemma_prod_add_bound(xs, alpha);
        crate::field::lemma_mul_q_one_right(prod_add(xs, alpha));
    } else {
        lemma_prod_add_split(xs, alpha, t + 1);
        let head = prod_add(xs.take(t), alpha);
        let shifted = add_q(xs[t], alpha);
        let rest = prod_add(xs.skip(t + 1), alpha);
        assert(xs.take(t + 1).drop_last() =~= xs.take(t));
        assert(xs.take(t + 1).last() == xs[t]);
        lemma_prod_add_first(xs.skip(t), alpha);
        assert(xs.skip(t)[0] == xs[t]);
        assert(xs.skip(t).drop_first() =~= xs.skip(t + 1));
        crate::field::lemma_mul_q_assoc(head, shifted, rest);
    }
}

/// A product of k linear factors has k + 1 coefficients.
pub proof fn lemma_lin_prod_len(xs: Seq<nat>)
    ensures
        lin_prod(xs).len() == xs.len() + 1,
    decreases xs.len(),
{
    if xs.len() > 0 {
        lemma_lin_prod_len(xs.drop_last());
    }
}

/// The addition polynomial has as many coefficients as there are additions.
pub proof fn lemma_v_a_sum_len(adds: Seq<nat>, alpha: nat, s: int)
    requires
        0 <= s <= adds.len(),
    ensures
        v_a_sum(adds, alpha, s).len() == if s == 0 {
            0int
        } else {
            adds.len() as int
        },
    decreases s,
{
    if s > 0 {
        lemma_v_a_sum_len(adds, alpha, s - 1);
        lemma_lin_prod_len(adds.skip(s));
    }
}

/// The deletion polynomial has as many coefficients as there are deletions.
pub proof fn lemma_v_d_sum_len(dels: Seq<nat>, alpha: nat, s: int)
    requires
        0 <= s <= dels.len(),
    ensures
        v_d_sum(dels, alpha, s).len() == s,
    decreases s,
{
    if s > 0 {
        lemma_v_d_sum_len(dels, alpha, s - 1);
        lemma_lin_prod_len(dels.take(s - 1));
    }
}

/// The coefficient vector of a batch update with at least as many deletions
/// as additions has max(|additions|, |deletions| + 1) − 1 entries.
pub proof fn lemma_update_poly_len(adds: Seq<nat>, dels: Seq<nat>, alpha: nat)
    requires
        dels.len() >= adds.len(),
    ensures
        update_poly(adds, dels, alpha).len() + 1 == if adds.len() >= dels.len() + 1 {
            adds.len() as int
        } else {
            dels.len() + 1int
        },
{
    lemma_v_a_sum_len(adds, alpha, adds.len() as int);
    lemma_v_d_sum_len(dels, alpha, dels.len() as int);
}

/// Every prefix of the shifted deletions has an invertible product.
pub open spec fn prefixes_invertible(dels: Seq<nat>, alpha: nat) -> bool {
    forall|s: int| 0 < s <= dels.len() ==> prod_add(#[trigger] dels.take(s), alpha) != 0
}

/// The accumulator's secret: the scalar that shifts every accumulated
/// identifier.
#[derive(Clone, Copy, Debug)]
pub struct SecretKey(pub Element);

/// The witness (or signing) public key: a G2 point carrying the secret.
#[derive(Clone, Copy, Debug, PartialEq, Eq)]
pub struct PublicKey {
    bytes: [u8; 96],
}

impl View for PublicKey {
    type V = Seq<u8>;

    closed spec fn view(&self) -> Seq<u8> {
        self.bytes@
    }
}

impl PublicKey {
    /// A public key always holds a valid compressed G2 encoding.
    pub open spec fn wf(&self) -> bool {
        g2_valid_of(self@)
    }

    /// Return the byte representation for this public key
    pub fn to_bytes(&self) -> (r: [u8; 96])
        ensures
            r@ == self@,
    {
        self.bytes
    }

    /// Decode a public key, rejecting bytes that are no valid G2 encoding.
    pub fn from_bytes(b: &[u8; 96]) -> (r: Option<PublicKey>)
        ensures
            r is Some <==> g2_valid_of(b@),
            r is Some ==> r.unwrap()@ == b@ && r.unwrap().wf(),
    {
        if crate::group::g2_is_valid(b) {
            Some(PublicKey { bytes: *b })
        } else {
            None
        }
    }

    /// Wrap an already validated compressed G2 point.
    pub fn from_point(b: [u8; 96]) -> (r: PublicKey)
        requires
            g2_valid_of(b@),
        ensures
            r@ == b@,
            r.wf(),
    {
        PublicKey { bytes: b }
    }

    /// The public key of a secret key over the fixed G2 generator.
    pub fn from_secret_key(sk: &SecretKey) -> (r: PublicKey)
        requires
            sk.wf(),
        ensures
            r@ == crate::group::g2_mul_of(g2_gen(), sk.0@),
            r.wf(),
    {
        let g = g2_generator();
        PublicKey { bytes: g2_mul(&g, &sk.0) }
    }
}

impl SecretKey {
    /// A secret key is a canonical scalar.
    pub open spec fn wf(&self) -> bool {
        self.0.wf()
    }

    /// Create a new secret key: random without a seed, or derived by
    /// hashing the seed under the fixed key-generation salt.
    pub fn new(seed: Option<&[u8]>) -> (r: SecretKey)
        ensures
            r.wf(),
            seed is Some ==> r.0@ == crate::field::hash_to_scalar_of(seed.unwrap()@),
    {
        match seed {
            Some(d) => SecretKey(Element::hash(d)),
            None => SecretKey(Element::random()),
        }
    }

    /// Return the raw byte representation of the key
    pub fn to_bytes(&self) -> (r: [u8; 32])
        ensures
            be_val(r@) == self.0@,
    {
        self.0.to_bytes()
    }

    /// Decode a canonical scalar as a secret key.
    pub fn from_bytes(b: &[u8; 32]) -> (r: Option<SecretKey>)
        ensures
            r is Some <==> be_val(b@) < field_order(),
            r is Some ==> r.unwrap().0@ == be_val(b@) && r.unwrap().wf(),
    {
        match Element::from_bytes(b) {
            Some(e) => Some(SecretKey(e)),
            None => None,
        }
    }

    /// The product of the first `k` shifted values.
    pub(crate) fn batch_additions_prefix(&self, values: &[Element], k: usize) -> (r: Element)
        requires
            self.wf(),
            all_wf(values@),
            k <= values@.len(),
        ensures
            r@ == prod_add(seq_vals(values@).take(k as int), self.0@),
            r.wf(),
    {
        let mut acc = Element::one();
        let mut i: usize = 0;
        while i < k
            invariant
                self.wf(),
                all_wf(values@),
                k <= values@.len(),
                0 <= i <= k,
                acc.wf(),
                acc@ == prod_add(seq_vals(values@).take(i as int), self.0@),
            decreases k - i,
        {
            let shifted = crate::field::sc_add(&values[i], &self.0);
            acc = crate::field::sc_mul(&acc, &shifted);
            proof {
                let vs = seq_vals(values@);
                assert(vs.take(i + 1).drop_last() =~= vs.take(i as int));
                assert(vs.take(i + 1).last() == values@[i as int]@);
            }
            i += 1;
        }
        acc
    }

    /// Compute the batch add elements value: the field product of every
    /// accumulated value shifted by the secret.
    pub fn batch_additions(&self, additions: &[Element]) -> (r: Element)
        requires
            self.wf(),
            all_wf(additions@),
        ensures
            r@ == prod_add(seq_vals(additions@), self.0@),
            r.wf(),
    {
        let r = self.batch_additions_prefix(additions, additions.len());
        proof {
            assert(seq_vals(additions@).take(additions@.len() as int) =~= seq_vals(additions@));
        }
        r
    }

    /// Compute the batch remove elements value: the inverse of the batch
    /// addition product.  Fails exactly when that product is zero, the
    /// "member equals the negated secret" collision.
    pub fn batch_deletions(&self, deletions: &[Element]) -> (r: Option<Element>)
        requires
            self.wf(),
            all_wf(deletions@),
        ensures
            r is Some <==> prod_add(seq_vals(deletions@), self.0@) != 0,
            r is Some ==> r.unwrap().wf() && r.unwrap()@ == inv_q(
                prod_add(seq_vals(deletions@), self.0@),
            ) && mul_q(prod_add(seq_vals(deletions@), self.0@), r.unwrap()@) == 1,
    {
        let p = self.batch_additions(deletions);
        match crate::field::sc_invert(&p) {
            Some(inv) => {
                proof {
                    lemma_inv_unique(p@, inv@);
                }
                Some(inv)
            }
            None => None,
        }
    }

    /// As `batch_deletions`, over a prefix of the slice.
    pub(crate) fn batch_deletions_prefix(&self, values: &[Element], k: usize) -> (r: Option<
        Element,
    >)
        requires
            self.wf(),
            all_wf(values@),
            k <= values@.len(),
        ensures
            r is Some <==> prod_add(seq_vals(values@).take(k as int), self.0@) != 0,
            r is Some ==> r.unwrap().wf() && r.unwrap()@ == inv_q(
                prod_add(seq_vals(values@).take(k as int), self.0@),
            ),
    {
        let p = self.batch_additions_prefix(values, k);
        match crate::field::sc_invert(&p) {
            Some(inv) => {
                proof {
                    lemma_inv_unique(p@, inv@);
                }
                Some(inv)
            }
            None => None,
        }
    }

    /// Create the batch polynomial coefficients: the dense coefficients of
    /// v_A − v_D · (prod of shifted additions).  Fails exactly when some
    /// prefix of the shifted deletions has product zero.
    pub fn create_coefficients(&self, additions: &[Element], deletions: &[Element]) -> (r:
        Option<Vec<Element>>)
        requires
            self.wf(),
            all_wf(additions@),
            all_wf(deletions@),
            additions@.len() < usize::MAX,
            deletions@.len() < usize::MAX,
        ensures
            r is Some <==> prefixes_invertible(seq_vals(deletions@), self.0@),
            r is Some ==> seq_vals(r.unwrap()@) == update_poly(
                seq_vals(additions@),
                seq_vals(deletions@),
                self.0@,
            ),
            r is Some ==> all_wf(r.unwrap()@),
    {
        let ghost avs = seq_vals(additions@);
        let ghost dvs = seq_vals(deletions@);
        let m = deletions.len();
        let n = additions.len();

        let mut v_d = Polynomial::new();
        let mut s: usize = 0;
        while s < m
            invariant
                self.wf(),
                all_wf(additions@),
                all_wf(deletions@),
                avs == seq_vals(additions@),
                dvs == seq_vals(deletions@),
                m == deletions@.len(),
                m < usize::MAX,
                0 <= s <= m,
                v_d.wf(),
                v_d@ == v_d_sum(dvs, self.0@, s as int),
                forall|t: int| 0 < t <= s ==> prod_add(#[trigger] dvs.take(t), self.0@) != 0,
            decreases m - s,
        {
            let c = match self.batch_deletions_prefix(deletions, s + 1) {
                Some(c) => c,
                None => {
                    proof {
                        assert(!prefixes_invertible(dvs, self.0@));
                    }
                    return None;
                }
            };
            let mut poly = Polynomial::new();
            poly.push(Element::one());
            proof {
                assert(poly@ =~= lin_prod(dvs.take(0)));
            }
            let mut j: usize = 0;
            while j < s
                invariant
                    self.wf(),
                    all_wf(deletions@),
                    dvs == seq_vals(deletions@),
                    s < m,
                    m == deletions@.len(),
                    m < usize::MAX,
                    0 <= j <= s,
                    poly.wf(),
                    poly@ == lin_prod(dvs.take(j as int)),
                    poly@.len() == j + 1,
                decreases s - j,
            {
                proof {
                    assert(lin_prod(dvs.take(j as int)).len() == j + 1);
                }
                poly.mul_linear(&deletions[j]);
                proof {
                    assert(dvs.take(j + 1).drop_last() =~= dvs.take(j as int));
                    assert(dvs.take(j + 1).last() == deletions@[j as int]@);
                }
                j += 1;
            }
            poly.mul_scalar(&c);
            v_d.add_poly(&poly);
            s += 1;
        }

        let adds_value = self.batch_additions(additions);
        v_d.mul_scalar(&adds_value);

        let mut v_a = Polynomial::new();
        let mut s: usize = 0;
        while s < n
            invariant
                self.wf(),
                all_wf(additions@),
                avs == seq_vals(additions@),
                n == additions@.len(),
                n < usize::MAX,
                0 <= s <= n,
                v_a.wf(),
                v_a@ == v_a_sum(avs, self.0@, s as int),
            decreases n - s,
        {
            let c = self.batch_additions_prefix(additions, s);
            let mut poly = Polynomial::new();
            poly.push(Element::one());
            proof {
                assert(poly@ =~= lin_prod(avs.subrange(s + 1, s + 1)));
            }
            let mut j: usize = s + 1;
            while j < n
                invariant
                    self.wf(),
                    all_wf(additions@),
                    avs == seq_vals(additions@),
                    s < n,
                    n == additions@.len(),
                    n < usize::MAX,
                    s + 1 <= j <= n,
                    poly.wf(),
                    poly@ == lin_prod(avs.subrange(s + 1, j as int)),
                    poly@.len() == j - s,
                decreases n - j,
            {
                poly.mul_linear(&additions[j]);
                proof {
                    assert(avs.subrange(s + 1, j + 1).drop_last() =~= avs.subrange(
                        s + 1,
                        j as int,
                    ));
                    assert(avs.subrange(s + 1, j + 1).last() == additions@[j as int]@);
                }
                j += 1;
            }
            poly.mul_scalar(&c);
            proof {
                assert(avs.subrange(s + 1, n as int) =~= avs.skip(s + 1));
            }
            v_a.add_poly(&poly);
            s += 1;
        }

        v_a.sub_poly(&v_d);

        let mut out: Vec<Element> = Vec::new();
        let mut i: usize = 0;
        let len = v_a.len();
        while i < len
            invariant
                len == v_a@.len(),
                v_a.wf(),
                0 <= i <= len,
                out@.len() == i,
                forall|j: int| 0 <= j < i ==> out@[j]@ == v_a@[j],
                forall|j: int| 0 <= j < i ==> out@[j].wf(),
            decreases len - i,
        {
            out.push(v_a.get(i));
            i += 1;
        }
        proof {
            assert(seq_vals(out@) =~= update_poly(avs, dvs, self.0@));
        }
        Some(out)
    }
}

} // verus!
