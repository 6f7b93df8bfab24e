//! A membership witness: the G1 certificate that one identifier is in the
//! accumulated set.

use crate::accumulator::acc::{Accumulator, Coefficient};
use crate::accumulator::key::{PublicKey, SecretKey};
use crate::field::{add_q, all_wf, inv_q, mul_q, seq_vals, sub_q, Element};
use crate::group::{
    g1_add_of, g1_mul_of, g1_valid_of, g2_add_of, g2_gen, g2_mul_of, pairing_of,
};
use vstd::prelude::*;

verus! {

/// The product of (x_i − y) over a sequence of values, in the scalar field.
pub open spec fn prod_sub_eval(xs: Seq<nat>, y: nat) -> nat
    decreases xs.len(),
{
    if xs.len() == 0 {
        1
    } else {
        mul_q(prod_sub_eval(xs.drop_last(), y), sub_q(xs.last(), y))
    }
}

/// Powers of y in the scalar field.
pub open spec fn pow_q(y: nat, k: nat) -> nat
    decreases k,
{
    if k == 0 {
        1nat
    } else {
        mul_q(pow_q(y, (k - 1) as nat), y)
    }
}

/// Fold the update coefficients, scaled by rising powers of y, onto a base
/// G1 point.
pub open spec fn coeff_terms(base: Seq<u8>, coeffs: Seq<Coefficient>, y: nat) -> Seq<u8>
    decreases coeffs.len(),
{
    if coeffs.len() == 0 {
        base
    } else {
        g1_add_of(
            coeff_terms(base, coeffs.drop_last(), y),
            g1_mul_of(coeffs.last()@, pow_q(y, (coeffs.len() - 1) as nat)),
        )
    }
}

/// All update coefficients hold valid G1 encodings.
pub open spec fn coeffs_wf(s: Seq<Coefficient>) -> bool {
    forall|i: int| 0 <= i < s.len() ==> (#[trigger] s[i]).wf()
}

/// A membership witness C for an identifier y, satisfying
/// e(C, P2·y + Q) = e(V, P2) against the accumulator V.
#[derive(Clone, Copy, Debug, PartialEq, Eq)]
pub struct MembershipWitness {
    bytes: [u8; 48],
}

impl View for MembershipWitness {
    type V = Seq<u8>;

    closed spec fn view(&self) -> Seq<u8> {
        self.bytes@
    }
}

impl MembershipWitness {
    /// A witness always holds a valid compressed G1 encoding.
    pub open spec fn wf(&self) -> bool {
        g1_valid_of(self@)
    }

    /// The byte representation of this witness.
    pub fn to_bytes(&self) -> (r: [u8; 48])
        ensures
            r@ == self@,
    {
        self.bytes
    }

    /// Decode a witness, rejecting bytes that are no valid G1 encoding.
    pub fn from_bytes(b: &[u8; 48]) -> (r: Option<MembershipWitness>)
        ensures
            r is Some <==> g1_valid_of(b@),
            r is Some ==> r.unwrap()@ == b@ && r.unwrap().wf(),
    {
        if crate::group::g1_is_valid(b) {
            Some(MembershipWitness { bytes: *b })
        } else {
            None
        }
    }

    /// Wrap an already validated compressed G1 point.
    pub fn from_point(b: [u8; 48]) -> (r: MembershipWitness)
        requires
            g1_valid_of(b@),
        ensures
            r@ == b@,
            r.wf(),
    {
        MembershipWitness { bytes: b }
    }

    /// Create the witness for `y` against an accumulator, using the secret
    /// key: the accumulator divided by the shifted identifier.  Fails
    /// exactly when the shifted identifier is zero.
    pub fn new(y: Element, accumulator: Accumulator, key: &SecretKey) -> (r: Option<
        MembershipWitness,
    >)
        requires
            y.wf(),
            accumulator.wf(),
            key.wf(),
        ensures
            r is Some <==> add_q(y@, key.0@) != 0,
            r is Some ==> r.unwrap()@ == g1_mul_of(accumulator@, inv_q(add_q(y@, key.0@)))
                && r.unwrap().wf(),
    {
        let shifted = crate::field::sc_add(&y, &key.0);
        match crate::field::sc_invert(&shifted) {
            Some(v) => {
                proof {
                    crate::field::lemma_inv_unique(shifted@, v@);
                }
                let acc_bytes = accumulator.to_bytes();
                Some(MembershipWitness { bytes: crate::group::g1_mul(&acc_bytes, &v) })
            }
            None => None,
        }
    }

    /// Verify the witness: the pairing of the witness with P2·y + Q must
    /// equal the pairing of the accumulator with P2, over the fixed G2
    /// generator P2.
    pub fn verify(&self, y: Element, pubkey: PublicKey, accumulator: Accumulator) -> (r: bool)
        requires
            self.wf(),
            y.wf(),
            pubkey.wf(),
            accumulator.wf(),
        ensures
            r == (pairing_of(self@, g2_add_of(g2_mul_of(g2_gen(), y@), pubkey@)) == pairing_of(
                accumulator@,
                g2_gen(),
            )),
    {
        let p2 = crate::group::g2_generator();
        let pk_bytes = pubkey.to_bytes();
        let rhs_g2 = crate::group::g2_add(&crate::group::g2_mul(&p2, &y), &pk_bytes);
        let acc_bytes = accumulator.to_bytes();
        let lhs = crate::group::pair(&self.bytes, &rhs_g2);
        let rhs = crate::group::pair(&acc_bytes, &p2);
        crate::group::bytes_eq(
            vstd::array::array_as_slice(&lhs),
            vstd::array::array_as_slice(&rhs),
        )
    }

    /// Rewrite the witness across a batch update: multiply by the product
    /// of (addition − y), add the coefficient vector scaled by powers of y,
    /// and divide by the product of (deletion − y).  Fails with `Deleted`
    /// exactly when that last product is zero: y was among the deletions.
    pub fn batch_update_assign(
        &mut self,
        y: Element,
        additions: &[Element],
        deletions: &[Element],
        coefficients: &[Coefficient],
    ) -> (r: Result<(), crate::error::Error>)
        requires
            old(self).wf(),
            y.wf(),
            all_wf(additions@),
            all_wf(deletions@),
            coeffs_wf(coefficients@),
        ensures
            r is Ok <==> prod_sub_eval(seq_vals(deletions@), y@) != 0,
            r is Ok ==> final(self)@ == g1_mul_of(
                coeff_terms(
                    g1_mul_of(old(self)@, prod_sub_eval(seq_vals(additions@), y@)),
                    coefficients@,
                    y@,
                ),
                inv_q(prod_sub_eval(seq_vals(deletions@), y@)),
            ),
            r is Err ==> *final(self) == *old(self) && r == Result::<(), crate::error::Error>::Err(
                crate::error::Error::Deleted,
            ),
            final(self).wf(),
    {
        let ghost avs = seq_vals(additions@);
        let ghost dvs = seq_vals(deletions@);

        // The product of (a − y) over the additions.
        let mut da = Element::one();
        let mut i: usize = 0;
        while i < additions.len()
            invariant
                all_wf(additions@),
                avs == seq_vals(additions@),
                y.wf(),
                0 <= i <= additions@.len(),
                da.wf(),
                da@ == prod_sub_eval(avs.take(i as int), y@),
            decreases additions@.len() - i,
        {
            da = crate::field::sc_mul(&da, &crate::field::sc_sub(&additions[i], &y));
            proof {
                assert(avs.take(i + 1).drop_last() =~= avs.take(i as int));
                assert(avs.take(i + 1).last() == additions@[i as int]@);
            }
            i += 1;
        }
        proof {
            assert(avs.take(additions@.len() as int) =~= avs);
        }

        // The product of (d − y) over the deletions.
        let mut dd = Element::one();
        let mut i: usize = 0;
        while i < deletions.len()
            invariant
                all_wf(deletions@),
                dvs == seq_vals(deletions@),
                y.wf(),
                0 <= i <= deletions@.len(),
                dd.wf(),
                dd@ == prod_sub_eval(dvs.take(i as int), y@),
            decreases deletions@.len() - i,
        {
            dd = crate::field::sc_mul(&dd, &crate::field::sc_sub(&deletions[i], &y));
            proof {
                assert(dvs.take(i + 1).drop_last() =~= dvs.take(i as int));
                assert(dvs.take(i + 1).last() == deletions@[i as int]@);
            }
            i += 1;
        }
        proof {
            assert(dvs.take(deletions@.len() as int) =~= dvs);
        }

        let dd_inv = match crate::field::sc_invert(&dd) {
            Some(v) => v,
            None => {
                return Err(crate::error::Error::Deleted);
            }
        };
        proof {
            crate::field::lemma_inv_unique(dd@, dd_inv@);
        }

        let mut point = crate::group::g1_mul(&self.bytes, &da);
        let mut y_pow = Element::one();
        let mut k: usize = 0;
        while k < coefficients.len()
            invariant
                coeffs_wf(coefficients@),
                y.wf(),
                0 <= k <= coefficients@.len(),
                y_pow.wf(),
                y_pow@ == pow_q(y@, k as nat),
                g1_valid_of(point@),
                point@ == coeff_terms(
                    g1_mul_of(old(self)@, prod_sub_eval(seq_vals(additions@), y@)),
                    coefficients@.take(k as int),
                    y@,
                ),
            decreases coefficients@.len() - k,
        {
            let cb = coefficients[k].to_bytes();
            let term = crate::group::g1_mul(&cb, &y_pow);
            point = crate::group::g1_add(&point, &term);
            y_pow = crate::field::sc_mul(&y_pow, &y);
            proof {
                assert(coefficients@.take(k + 1).drop_last() =~= coefficients@.take(k as int));
                assert(coefficients@.take(k + 1).last() == coefficients@[k as int]);
            }
            k += 1;
        }
        proof {
            assert(coefficients@.take(coefficients@.len() as int) =~= coefficients@);
        }
        self.bytes = crate::group::g1_mul(&point, &dd_inv);
        Ok(())
    }
}

} // verus!
