//! The accumulator value: a single G1 point, advanced by adding and
//! removing shifted identifiers in the exponent.

use crate::accumulator::key::{prod_add, update_poly, SecretKey};
use crate::field::{add_q, all_wf, inv_q, mul_q, seq_vals, Element};
use crate::group::{g1_gen, g1_mul_of, g1_valid_of};
use vstd::prelude::*;

verus! {

/// A coefficient for updating witnesses across a batch update.
#[derive(Clone, Copy, Debug, PartialEq, Eq)]
pub struct Coefficient {
    bytes: [u8; 48],
}

impl View for Coefficient {
    type V = Seq<u8>;

    closed spec fn view(&self) -> Seq<u8> {
        self.bytes@
    }
}

impl Coefficient {
    /// A coefficient always holds a valid compressed G1 encoding.
    pub open spec fn wf(&self) -> bool {
        g1_valid_of(self@)
    }

    /// The byte representation of this coefficient
    pub fn to_bytes(&self) -> (r: [u8; 48])
        ensures
            r@ == self@,
    {
        self.bytes
    }

    /// Decode a coefficient, rejecting bytes that are no valid G1 encoding.
    pub fn from_bytes(b: &[u8; 48]) -> (r: Option<Coefficient>)
        ensures
            r is Some <==> g1_valid_of(b@),
            r is Some ==> r.unwrap()@ == b@ && r.unwrap().wf(),
    {
        if crate::group::g1_is_valid(b) {
            Some(Coefficient { bytes: *b })
        } else {
            None
        }
    }

    /// Wrap an already validated compressed G1 point.
    pub fn from_point(b: [u8; 48]) -> (r: Coefficient)
        requires
            g1_valid_of(b@),
        ensures
            r@ == b@,
            r.wf(),
    {
        Coefficient { bytes: b }
    }
}

/// A universal bilinear accumulator: one G1 point committing to the set.
#[derive(Clone, Copy, Debug, PartialEq, Eq)]
pub struct Accumulator {
    bytes: [u8; 48],
}

impl View for Accumulator {
    type V = Seq<u8>;

    closed spec fn view(&self) -> Seq<u8> {
        self.bytes@
    }
}

impl Accumulator {
    /// An accumulator always holds a valid compressed G1 encoding.
    pub open spec fn wf(&self) -> bool {
        g1_valid_of(self@)
    }

    /// Convert accumulator to bytes
    pub fn to_bytes(&self) -> (r: [u8; 48])
        ensures
            r@ == self@,
    {
        self.bytes
    }

    /// Decode an accumulator, rejecting bytes that are no valid G1 encoding.
    pub fn from_bytes(b: &[u8; 48]) -> (r: Option<Accumulator>)
        ensures
            r is Some <==> g1_valid_of(b@),
            r is Some ==> r.unwrap()@ == b@ && r.unwrap().wf(),
    {
        if crate::group::g1_is_valid(b) {
            Some(Accumulator { bytes: *b })
        } else {
            None
        }
    }

    /// Wrap an already validated compressed G1 point.
    pub fn from_point(b: [u8; 48]) -> (r: Accumulator)
        requires
            g1_valid_of(b@),
        ensures
            r@ == b@,
            r.wf(),
    {
        Accumulator { bytes: b }
    }

    /// The accumulator at the fixed G1 generator.
    pub fn at_generator() -> (r: Accumulator)
        ensures
            r@ == g1_gen(),
            r.wf(),
    {
        Accumulator { bytes: crate::group::g1_generator() }
    }

    /// Create a random accumulator from 64 uniform bytes.
    pub fn random(seed: &[u8; 64]) -> (r: Accumulator)
        ensures
            r@ == crate::group::hash_to_g1_of(seed@),
            r.wf(),
    {
        Accumulator { bytes: crate::group::hash_to_g1(seed) }
    }

    /// Initialize a new accumulator prefilled with entries
    /// Each member is assumed to be hashed
    pub fn with_elements(key: &SecretKey, m: &[Element]) -> (r: Accumulator)
        requires
            key.wf(),
            all_wf(m@),
        ensures
            r@ == g1_mul_of(g1_gen(), prod_add(seq_vals(m@), key.0@)),
            r.wf(),
    {
        let y = key.batch_additions(m);
        let g = crate::group::g1_generator();
        Accumulator { bytes: crate::group::g1_mul(&g, &y) }
    }

    /// Add many members
    pub fn add_elements(&self, key: &SecretKey, m: &[Element]) -> (r: Accumulator)
        requires
            self.wf(),
            key.wf(),
            all_wf(m@),
        ensures
            r@ == g1_mul_of(self@, prod_add(seq_vals(m@), key.0@)),
            r.wf(),
    {
        let y = key.batch_additions(m);
        Accumulator { bytes: crate::group::g1_mul(&self.bytes, &y) }
    }

    /// Add many members
    pub fn add_elements_assign(&mut self, key: &SecretKey, m: &[Element])
        requires
            old(self).wf(),
            key.wf(),
            all_wf(m@),
        ensures
            final(self)@ == g1_mul_of(old(self)@, prod_add(seq_vals(m@), key.0@)),
            final(self).wf(),
    {
        let next = self.add_elements(key, m);
        *self = next;
    }

    /// Add a value to the accumulator: multiply by the shifted identifier.
    pub fn add(&self, key: &SecretKey, value: Element) -> (r: Accumulator)
        requires
            self.wf(),
            key.wf(),
            value.wf(),
        ensures
            r@ == g1_mul_of(self@, add_q(key.0@, value@)),
            r.wf(),
    {
        let shifted = crate::field::sc_add(&key.0, &value);
        Accumulator { bytes: crate::group::g1_mul(&self.bytes, &shifted) }
    }

    /// Add a value an update this accumulator
    pub fn add_assign(&mut self, key: &SecretKey, value: Element)
        requires
            old(self).wf(),
            key.wf(),
            value.wf(),
        ensures
            final(self)@ == g1_mul_of(old(self)@, add_q(key.0@, value@)),
            final(self).wf(),
    {
        let next = self.add(key, value);
        *self = next;
    }

    /// Remove a value from the accumulator and return a new accumulator
    /// without `value`.  Fails exactly when the shifted value is zero.
    pub fn remove(&self, key: &SecretKey, value: Element) -> (r: Option<Accumulator>)
        requires
            self.wf(),
            key.wf(),
            value.wf(),
        ensures
            r is Some <==> add_q(key.0@, value@) != 0,
            r is Some ==> r.unwrap()@ == g1_mul_of(self@, inv_q(add_q(key.0@, value@)))
                && r.unwrap().wf(),
    {
        let shifted = crate::field::sc_add(&key.0, &value);
        match crate::field::sc_invert(&shifted) {
            Some(v) => {
                proof {
                    crate::field::lemma_inv_unique(shifted@, v@);
                }
                Some(Accumulator { bytes: crate::group::g1_mul(&self.bytes, &v) })
            }
            None => None,
        }
    }

    /// Remove a value from the accumulator if it exists
    pub fn remove_assign(&mut self, key: &SecretKey, value: Element) -> (r: bool)
        requires
            old(self).wf(),
            key.wf(),
            value.wf(),
        ensures
            r <==> add_q(key.0@, value@) != 0,
            r ==> final(self)@ == g1_mul_of(old(self)@, inv_q(add_q(key.0@, value@))),
            !r ==> *final(self) == *old(self),
            final(self).wf(),
    {
        match self.remove(key, value) {
            Some(next) => {
                *self = next;
                true
            }
            None => false,
        }
    }

    /// Remove multiple values and return a new accumulator.  Fails exactly
    /// when the product of the shifted values is zero.
    pub fn remove_elements(&self, key: &SecretKey, deletions: &[Element]) -> (r: Option<
        Accumulator,
    >)
        requires
            self.wf(),
            key.wf(),
            all_wf(deletions@),
        ensures
            r is Some <==> prod_add(seq_vals(deletions@), key.0@) != 0,
            r is Some ==> r.unwrap()@ == g1_mul_of(
                self@,
                inv_q(prod_add(seq_vals(deletions@), key.0@)),
            ) && r.unwrap().wf(),
    {
        match key.batch_deletions(deletions) {
            Some(v) => Some(Accumulator { bytes: crate::group::g1_mul(&self.bytes, &v) }),
            None => None,
        }
    }

    /// Remove multiple values
    pub fn remove_elements_assign(&mut self, key: &SecretKey, deletions: &[Element]) -> (r: bool)
        requires
            old(self).wf(),
            key.wf(),
            all_wf(deletions@),
        ensures
            r <==> prod_add(seq_vals(deletions@), key.0@) != 0,
            r ==> final(self)@ == g1_mul_of(
                old(self)@,
                inv_q(prod_add(seq_vals(deletions@), key.0@)),
            ),
            !r ==> *final(self) == *old(self),
            final(self).wf(),
    {
        match self.remove_elements(key, deletions) {
            Some(next) => {
                *self = next;
                true
            }
            None => false,
        }
    }

    /// Perform a batch addition and deletion: advance the accumulator by
    /// the shifted additions and inverted shifted deletions, and return the
    /// coefficient vector that lets an offline witness holder follow.
    pub fn update(&self, key: &SecretKey, additions: &[Element], deletions: &[Element]) -> (r:
        Option<(Accumulator, Vec<Coefficient>)>)
        requires
            self.wf(),
            key.wf(),
            all_wf(additions@),
            all_wf(deletions@),
            additions@.len() < usize::MAX,
            deletions@.len() < usize::MAX,
        ensures
            r is Some <==> prod_add(seq_vals(deletions@), key.0@) != 0,
            r is Some ==> r.unwrap().0@ == g1_mul_of(
                self@,
                mul_q(
                    prod_add(seq_vals(additions@), key.0@),
                    inv_q(prod_add(seq_vals(deletions@), key.0@)),
                ),
            ) && r.unwrap().0.wf(),
            r is Some ==> coefficients_match(
                r.unwrap().1@,
                self@,
                seq_vals(additions@),
                seq_vals(deletions@),
                key.0@,
            ),
    {
        let mut a = *self;
        match a.update_assign(key, additions, deletions) {
            Some(c) => Some((a, c)),
            None => None,
        }
    }

    /// Perform a batch addition and deletion in place; see `update`.
    pub fn update_assign(
        &mut self,
        key: &SecretKey,
        additions: &[Element],
        deletions: &[Element],
    ) -> (r: Option<Vec<Coefficient>>)
        requires
            old(self).wf(),
            key.wf(),
            all_wf(additions@),
            all_wf(deletions@),
            additions@.len() < usize::MAX,
            deletions@.len() < usize::MAX,
        ensures
            r is Some <==> prod_add(seq_vals(deletions@), key.0@) != 0,
            r is Some ==> final(self)@ == g1_mul_of(
                old(self)@,
                mul_q(
                    prod_add(seq_vals(additions@), key.0@),
                    inv_q(prod_add(seq_vals(deletions@), key.0@)),
                ),
            ),
            r is None ==> *final(self) == *old(self),
            final(self).wf(),
            r is Some ==> coefficients_match(
                r.unwrap()@,
                old(self)@,
                seq_vals(additions@),
                seq_vals(deletions@),
                key.0@,
            ),
    {
        let ghost dvs = seq_vals(deletions@);
        let ghost alpha = key.0@;
        let mut a = key.batch_additions(additions);
        let d = match key.batch_deletions(deletions) {
            Some(d) => d,
            None => {
                return None;
            }
        };
        proof {
            assert forall|t: int| 0 < t <= dvs.len() implies prod_add(
                #[trigger] dvs.take(t),
                alpha,
            ) != 0 by {
                if prod_add(dvs.take(t), alpha) == 0 {
                    crate::accumulator::key::lemma_prod_add_split(dvs, alpha, t);
                    crate::field::lemma_mul_q_zero(prod_add(dvs.skip(t), alpha));
                }
            }
        }
        let coefficients = match key.create_coefficients(additions, deletions) {
            Some(c) => c,
            None => {
                proof {
                    assert(prod_add(dvs.take(dvs.len() as int), alpha) != 0 ==> prod_add(
                        dvs,
                        alpha,
                    ) != 0) by {
                        assert(dvs.take(dvs.len() as int) =~= dvs);
                    }
                    assert(false);
                }
                return None;
            }
        };
        a = crate::field::sc_mul(&a, &d);

        let mut out: Vec<Coefficient> = Vec::new();
        let mut i: usize = 0;
        let n = coefficients.len();
        while i < n
            invariant
                n == coefficients@.len(),
                all_wf(coefficients@),
                self == old(self),
                old(self).wf(),
                0 <= i <= n,
                out@.len() == i,
                forall|j: int|
                    0 <= j < i ==> (#[trigger] out@[j])@ == g1_mul_of(
                        old(self)@,
                        seq_vals(coefficients@)[j],
                    ),
                forall|j: int| 0 <= j < i ==> out@[j].wf(),
            decreases n - i,
        {
            proof {
                assert(seq_vals(coefficients@)[i as int] == coefficients@[i as int]@);
            }
            let c = crate::group::g1_mul(&self.bytes, &coefficients[i]);
            out.push(Coefficient { bytes: c });
            i += 1;
        }
        let next = crate::group::g1_mul(&self.bytes, &a);
        self.bytes = next;
        Some(out)
    }
}

/// The returned G1 coefficients are the prior accumulator raised to each
/// coefficient of the update polynomial.
pub open spec fn coefficients_match(
    out: Seq<Coefficient>,
    prior: Seq<u8>,
    adds: Seq<nat>,
    dels: Seq<nat>,
    alpha: nat,
) -> bool {
    &&& out.len() == update_poly(adds, dels, alpha).len()
    &&& forall|j: int|
        0 <= j < out.len() ==> (#[trigger] out[j])@ == g1_mul_of(
            prior,
            update_poly(adds, dels, alpha)[j],
        )
    &&& forall|j: int| 0 <= j < out.len() ==> out[j].wf()
}

} // verus!
