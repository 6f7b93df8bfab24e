//! Threshold secret sharing of scalars: share generation as polynomial
//! evaluation, precomputed Lagrange coefficients, and reconstruction of
//! scalars and of G1 points, with an optional extra-share validity check.

use crate::field::{
    all_wf, field_order, inv_q, lemma_inv_unique, lemma_sub_q_eq_zero, mul_q, seq_vals, sub_q,
    Element,
};
use crate::group::{g1_add_of, g1_id, g1_mul_of, g1_valid_of};
use crate::polynomial::{poly_eval, poly_wf, Polynomial};
use vstd::prelude::*;

verus! {

/// The x-coordinates of a share list.
pub open spec fn share_xs(s: Seq<(Element, Element)>) -> Seq<nat> {
    s.map_values(|p: (Element, Element)| p.0@)
}

/// The values of a share list.
pub open spec fn share_vals(s: Seq<(Element, Element)>) -> Seq<nat> {
    s.map_values(|p: (Element, Element)| p.1@)
}

/// Every coordinate and value in a share list is canonical.
pub open spec fn shares_wf(s: Seq<(Element, Element)>) -> bool {
    forall|i: int| 0 <= i < s.len() ==> (#[trigger] s[i]).0.wf() && s[i].1.wf()
}

/// A share list carries evaluations of one polynomial of `threshold`
/// coefficients whose constant term is the secret, at points 1, 2, ....
pub open spec fn is_sharing_of(
    shares: Seq<(Element, Element)>,
    coeffs: Seq<nat>,
    threshold: int,
    num_shares: int,
    secret: nat,
) -> bool {
    &&& coeffs.len() == threshold
    &&& poly_wf(coeffs)
    &&& coeffs[0] == secret
    &&& shares.len() == num_shares
    &&& forall|i: int|
        0 <= i < num_shares ==> (#[trigger] shares[i]).0@ == i + 1 && shares[i].1@ == poly_eval(
            coeffs,
            (i + 1) as nat,
        )
}

/// Divide a secret into Shamir shares with the given threshold: pick a
/// random polynomial of `threshold` coefficients whose constant term is the
/// secret, and emit its value at the points 1, ..., num_shares.
pub fn shamir_share(threshold: usize, num_shares: usize, secret: Element) -> (r: Vec<
    (Element, Element),
>)
    requires
        threshold >= 1,
        num_shares < u64::MAX,
        secret.wf(),
    ensures
        exists|coeffs: Seq<nat>|
            is_sharing_of(r@, coeffs, threshold as int, num_shares as int, secret@),
        shares_wf(r@),
{
    let mut poly = Polynomial::new();
    poly.push(secret);
    let mut i: usize = 1;
    while i < threshold
        invariant
            poly.wf(),
            poly@.len() == i,
            1 <= i <= threshold,
            poly@[0] == secret@,
        decreases threshold - i,
    {
        poly.push(Element::random());
        i += 1;
    }

    let mut shares: Vec<(Element, Element)> = Vec::new();
    let mut i: usize = 0;
    while i < num_shares
        invariant
            poly.wf(),
            poly@.len() == threshold,
            poly@[0] == secret@,
            num_shares < u64::MAX,
            0 <= i <= num_shares,
            shares@.len() == i,
            forall|j: int|
                0 <= j < i ==> (#[trigger] shares@[j]).0@ == j + 1 && shares@[j].1@ == poly_eval(
                    poly@,
                    (j + 1) as nat,
                ),
            shares_wf(shares@),
        decreases num_shares - i,
    {
        let x = Element::from_u64((i as u64) + 1);
        let v = poly.eval(&x);
        shares.push((x, v));
        i += 1;
    }
    proof {
        assert(is_sharing_of(
            shares@,
            poly@,
            threshold as int,
            num_shares as int,
            secret@,
        ));
    }
    shares
}

/// The product of the values of a sequence, in the scalar field.
pub open spec fn prod_seq(xs: Seq<nat>) -> nat
    decreases xs.len(),
{
    if xs.len() == 0 {
        1
    } else {
        mul_q(prod_seq(xs.drop_last()), xs.last())
    }
}

/// The partial Lagrange coefficient for share `i`: the product of all
/// `threshold` x-coordinates, divided by x_i, and by (x_ii − x_i) for each
/// of the first `k` other shares ii.
pub open spec fn lagrange_partial(xs: Seq<nat>, t: int, i: int, k: int) -> nat
    decreases k,
{
    if k <= 0 {
        prod_seq(xs.take(t))
    } else {
        mul_q(
            lagrange_partial(xs, t, i, k - 1),
            if k - 1 == i {
                inv_q(xs[i])
            } else {
                inv_q(sub_q(xs[k - 1], xs[i]))
            },
        )
    }
}

/// The Lagrange coefficient for share `i` over the first `t` shares,
/// reconstructing the polynomial's value at zero.
pub open spec fn lagrange_coeff(xs: Seq<nat>, t: int, i: int) -> nat {
    lagrange_partial(xs, t, i, t)
}

/// The partial first check coefficient: the product of the `t`
/// x-coordinates times x_0, divided by (x_i − x_t) for the first `k`
/// shares i ≥ 1.
pub open spec fn check0_partial(xs: Seq<nat>, t: int, k: int) -> nat
    decreases k,
{
    if k <= 1 {
        mul_q(prod_seq(xs.take(t)), xs[0])
    } else {
        mul_q(check0_partial(xs, t, k - 1), inv_q(sub_q(xs[k - 1], xs[t])))
    }
}

/// The check coefficient for share `i` ≥ 1: the Lagrange coefficient
/// rescaled from interpolation through share 0 to interpolation through
/// share `t`.
pub open spec fn check_coeff(xs: Seq<nat>, t: int, i: int) -> nat {
    mul_q(
        lagrange_coeff(xs, t, i),
        mul_q(
            mul_q(mul_q(xs[t], inv_q(xs[0])), sub_q(xs[0], xs[i])),
            inv_q(sub_q(xs[t], xs[i])),
        ),
    )
}

/// The x-coordinates admit the needed inversions: all of the first `t` are
/// non-zero and pairwise distinct, and, where the extra check share is
/// used, distinct from the check share's coordinate.
pub open spec fn shamir_points_ok(xs: Seq<nat>, t: int, with_check: bool) -> bool {
    &&& forall|i: int| 0 <= i < t ==> xs[i] != 0
    &&& forall|i: int, ii: int| 0 <= i < t && 0 <= ii < t && i != ii ==> xs[i] != xs[ii]
    &&& (with_check ==> forall|i: int| 1 <= i < t ==> xs[i] != xs[t])
}

/// Produce the coefficients necessary to rebuild a secret from the first
/// `threshold` shares, and, where an extra share is available, the check
/// coefficients that rebuild it through the extra share instead.
/// Fails exactly when two of the used x-coordinates coincide or one is zero.
pub fn shamir_coefficients(threshold: usize, shares: &[(Element, Element)]) -> (r: Option<
    (Vec<Element>, Option<Vec<Element>>),
>)
    requires
        1 <= threshold,
        threshold < usize::MAX,
        shares@.len() >= threshold,
        shares_wf(shares@),
    ensures
        r is Some <==> shamir_points_ok(
            share_xs(shares@),
            threshold as int,
            shares@.len() > threshold,
        ),
        r is Some ==> ({
            let (cs, checks) = r.unwrap();
            &&& cs@.len() == threshold
            &&& all_wf(cs@)
            &&& forall|i: int|
                0 <= i < threshold ==> (#[trigger] cs@[i])@ == lagrange_coeff(
                    share_xs(shares@),
                    threshold as int,
                    i,
                )
            &&& (checks is Some <==> shares@.len() > threshold)
            &&& checks is Some ==> ({
                let ch = checks.unwrap();
                &&& ch@.len() == threshold
                &&& all_wf(ch@)
                &&& ch@[0]@ == check0_partial(
                    share_xs(shares@),
                    threshold as int,
                    threshold as int,
                )
                &&& forall|i: int|
                    1 <= i < threshold ==> (#[trigger] ch@[i])@ == check_coeff(
                        share_xs(shares@),
                        threshold as int,
                        i,
                    )
            })
        }),
{
    let ghost xs = share_xs(shares@);
    let ghost t = threshold as int;

    // The product of the x-coordinates of the shares that will be used.
    let mut product = Element::one();
    let mut i: usize = 0;
    while i < threshold
        invariant
            threshold <= shares@.len(),
            shares_wf(shares@),
            xs == share_xs(shares@),
            0 <= i <= threshold,
            product.wf(),
            product@ == prod_seq(xs.take(i as int)),
        decreases threshold - i,
    {
        product = crate::field::sc_mul(&product, &shares[i].0);
        proof {
            assert(xs.take(i + 1).drop_last() =~= xs.take(i as int));
            assert(xs.take(i + 1).last() == shares@[i as int].0@);
        }
        i += 1;
    }

    let mut coefficients: Vec<Element> = Vec::new();
    let mut i: usize = 0;
    while i < threshold
        invariant
            1 <= threshold <= shares@.len(),
            shares_wf(shares@),
            xs == share_xs(shares@),
            t == threshold as int,
            product.wf(),
            product@ == prod_seq(xs.take(t)),
            0 <= i <= threshold,
            coefficients@.len() == i,
            all_wf(coefficients@),
            forall|j: int|
                0 <= j < i ==> (#[trigger] coefficients@[j])@ == lagrange_coeff(xs, t, j),
            forall|j: int| 0 <= j < i ==> xs[j] != 0,
            forall|j: int, jj: int| 0 <= j < i && 0 <= jj < t && j != jj ==> xs[j] != xs[jj],
        decreases threshold - i,
    {
        let mut c = product;
        let mut ii: usize = 0;
        while ii < threshold
            invariant
                1 <= threshold <= shares@.len(),
                shares_wf(shares@),
                xs == share_xs(shares@),
                t == threshold as int,
                i < threshold,
                0 <= ii <= threshold,
                c.wf(),
                c@ == lagrange_partial(xs, t, i as int, ii as int),
                xs[i as int] != 0 || ii <= i,
                forall|jj: int| 0 <= jj < ii && jj != i ==> xs[jj] != xs[i as int],
            decreases threshold - ii,
        {
            if ii == i {
                let inv = match crate::field::sc_invert(&shares[i].0) {
                    Some(v) => v,
                    None => {
                        proof {
                            assert(!shamir_points_ok(xs, t, shares@.len() > t));
                        }
                        return None;
                    }
                };
                proof {
                    lemma_inv_unique(shares@[i as int].0@, inv@);
                }
                c = crate::field::sc_mul(&c, &inv);
            } else {
                let diff = crate::field::sc_sub(&shares[ii].0, &shares[i].0);
                let inv = match crate::field::sc_invert(&diff) {
                    Some(v) => v,
                    None => {
                        proof {
                            lemma_sub_q_eq_zero(xs[ii as int], xs[i as int]);
                            assert(xs[ii as int] == xs[i as int]);
                            assert(!shamir_points_ok(xs, t, shares@.len() > t));
                        }
                        return None;
                    }
                };
                proof {
                    lemma_inv_unique(diff@, inv@);
                    lemma_sub_q_eq_zero(xs[ii as int], xs[i as int]);
                }
                c = crate::field::sc_mul(&c, &inv);
            }
            ii += 1;
        }
        coefficients.push(c);
        i += 1;
    }

    if shares.len() > threshold {
        // The check coefficients rebuild through share `threshold` in place
        // of share 0; they are a cheap shift of the main coefficients.
        let x0inv = match crate::field::sc_invert(&shares[0].0) {
            Some(v) => v,
            None => {
                proof {
                    assert(xs[0] != 0);
                    assert(false);
                }
                return None;
            }
        };
        proof {
            lemma_inv_unique(shares@[0].0@, x0inv@);
        }
        let adjustment = crate::field::sc_mul(&shares[threshold].0, &x0inv);
        let mut check0 = crate::field::sc_mul(&product, &shares[0].0);
        let mut checks: Vec<Element> = Vec::new();
        checks.push(check0);
        let mut i: usize = 1;
        while i < threshold
            invariant
                1 <= threshold < shares@.len(),
                shares_wf(shares@),
                xs == share_xs(shares@),
                t == threshold as int,
                adjustment.wf(),
                adjustment@ == mul_q(xs[t], inv_q(xs[0])),
                all_wf(coefficients@),
                coefficients@.len() == threshold,
                forall|j: int|
                    0 <= j < threshold ==> (#[trigger] coefficients@[j])@ == lagrange_coeff(
                        xs,
                        t,
                        j,
                    ),
                1 <= i <= threshold,
                checks@.len() == i,
                all_wf(checks@),
                checks@[0]@ == check0_partial(xs, t, i as int),
                forall|j: int| 1 <= j < i ==> (#[trigger] checks@[j])@ == check_coeff(xs, t, j),
                forall|j: int| 1 <= j < i ==> xs[j] != xs[t],
            decreases threshold - i,
        {
            let diff_it = crate::field::sc_sub(&shares[threshold].0, &shares[i].0);
            let inv_it = match crate::field::sc_invert(&diff_it) {
                Some(v) => v,
                None => {
                    proof {
                        lemma_sub_q_eq_zero(xs[t], xs[i as int]);
                        assert(!shamir_points_ok(xs, t, true));
                    }
                    return None;
                }
            };
            let diff_ti = crate::field::sc_sub(&shares[i].0, &shares[threshold].0);
            let inv_ti = match crate::field::sc_invert(&diff_ti) {
                Some(v) => v,
                None => {
                    proof {
                        lemma_sub_q_eq_zero(xs[i as int], xs[t]);
                        assert(!shamir_points_ok(xs, t, true));
                    }
                    return None;
                }
            };
            proof {
                lemma_inv_unique(diff_it@, inv_it@);
                lemma_inv_unique(diff_ti@, inv_ti@);
                lemma_sub_q_eq_zero(xs[t], xs[i as int]);
            }
            let scale = crate::field::sc_mul(
                &crate::field::sc_mul(&adjustment, &crate::field::sc_sub(&shares[0].0, &shares[i].0)),
                &inv_it,
            );
            let ci = crate::field::sc_mul(&coefficients[i], &scale);
            checks.push(ci);
            let c0 = crate::field::sc_mul(&checks[0], &inv_ti);
            checks[0] = c0;
            i += 1;
        }
        proof {
            assert(shamir_points_ok(xs, t, true));
        }
        Some((coefficients, Some(checks)))
    } else {
        proof {
            assert(shamir_points_ok(xs, t, false));
        }
        Some((coefficients, None))
    }
}

/// The field dot product of share values against coefficients.
pub open spec fn dot_q(vals: Seq<nat>, cs: Seq<nat>) -> nat
    decreases cs.len(),
{
    if cs.len() == 0 {
        0
    } else {
        crate::field::add_q(
            dot_q(vals, cs.drop_last()),
            mul_q(vals[cs.len() - 1], cs.last()),
        )
    }
}

/// The value the check coefficients rebuild: the check share times the
/// first check coefficient, plus shares 1..t against theirs.
pub open spec fn check_dot_q(shares: Seq<(Element, Element)>, checks: Seq<nat>, t: int) -> nat {
    dot_skip1_q(shares, checks, t, mul_q(checks[0], shares[t].1@))
}

/// Fold shares 1..k against check coefficients 1..k onto a base value.
pub open spec fn dot_skip1_q(
    shares: Seq<(Element, Element)>,
    checks: Seq<nat>,
    k: int,
    base: nat,
) -> nat
    decreases k,
{
    if k <= 1 {
        base
    } else {
        crate::field::add_q(
            dot_skip1_q(shares, checks, k - 1, base),
            mul_q(checks[k - 1], shares[k - 1].1@),
        )
    }
}

/// Rebuild the shared scalar: the dot product of the shares against the
/// precomputed coefficients.  Where check coefficients are given, also
/// rebuild through the extra share, and refuse the result on a mismatch:
/// such disagreement of t+1 points on a degree t−1 polynomial signals a
/// malicious server.
pub fn shamir_rebuild_scalar(
    shares: &[(Element, Element)],
    coefficients: &[Element],
    check_coefficients: &Option<Vec<Element>>,
) -> (r: Option<Element>)
    requires
        shares_wf(shares@),
        all_wf(coefficients@),
        1 <= coefficients@.len(),
        shares@.len() >= coefficients@.len(),
        check_coefficients is Some ==> shares@.len() > coefficients@.len(),
        check_coefficients is Some ==> check_coefficients.unwrap()@.len() == coefficients@.len(),
        check_coefficients is Some ==> all_wf(check_coefficients.unwrap()@),
    ensures
        ({
            let main = dot_q(share_vals(shares@), seq_vals(coefficients@));
            match *check_coefficients {
                Some(ref checks) => {
                    &&& r is Some <==> main == check_dot_q(
                        shares@,
                        seq_vals(checks@),
                        coefficients@.len() as int,
                    )
                    &&& r is Some ==> r.unwrap()@ == main && r.unwrap().wf()
                }
                None => r is Some && r.unwrap()@ == main && r.unwrap().wf(),
            }
        }),
{
    let ghost cs = seq_vals(coefficients@);
    let ghost vals = share_vals(shares@);
    let t = coefficients.len();
    let mut result = Element::zero();
    let mut i: usize = 0;
    while i < t
        invariant
            shares_wf(shares@),
            all_wf(coefficients@),
            cs == seq_vals(coefficients@),
            vals == share_vals(shares@),
            t == coefficients@.len(),
            shares@.len() >= t,
            0 <= i <= t,
            result.wf(),
            result@ == dot_q(vals, cs.take(i as int)),
        decreases t - i,
    {
        let term = crate::field::sc_mul(&shares[i].1, &coefficients[i]);
        result = crate::field::sc_add(&result, &term);
        proof {
            assert(cs.take(i + 1).drop_last() =~= cs.take(i as int));
            assert(cs.take(i + 1).last() == coefficients@[i as int]@);
            assert(vals[i as int] == shares@[i as int].1@);
        }
        i += 1;
    }
    proof {
        assert(cs.take(t as int) =~= cs);
    }
    match check_coefficients {
        Some(checks) => {
            let ghost chs = seq_vals(checks@);
            let mut check_result = crate::field::sc_mul(&checks[0], &shares[t].1);
            let ghost base = check_result@;
            let mut i: usize = 1;
            while i < t
                invariant
                    shares_wf(shares@),
                    all_wf(checks@),
                    chs == seq_vals(checks@),
                    t == coefficients@.len(),
                    checks@.len() == t,
                    shares@.len() > t,
                    base == mul_q(chs[0], shares@[t as int].1@),
                    1 <= i <= t,
                    check_result.wf(),
                    check_result@ == dot_skip1_q(shares@, chs, i as int, base),
                decreases t - i,
            {
                let term = crate::field::sc_mul(&checks[i], &shares[i].1);
                check_result = crate::field::sc_add(&check_result, &term);
                proof {
                    assert(chs[i as int] == checks@[i as int]@);
                }
                i += 1;
            }
            if check_result.eq_elem(&result) {
                Some(result)
            } else {
                None
            }
        }
        None => Some(result),
    }
}

/// The sum of a coefficient list, in the scalar field.
pub open spec fn sum_q(cs: Seq<nat>) -> nat
    decreases cs.len(),
{
    if cs.len() == 0 {
        0
    } else {
        crate::field::add_q(sum_q(cs.drop_last()), cs.last())
    }
}

/// Share values transformed by v -> a·v + b.
pub open spec fn affine_vals(vals: Seq<nat>, a: nat, b: nat) -> Seq<nat> {
    Seq::new(vals.len(), |i: int| crate::field::add_q(mul_q(a, vals[i]), b))
}

/// Reconstruction is affine in the shares: transforming every share value
/// by v -> a·v + b turns the reconstruction into a times the original
/// reconstruction plus b times the sum of the coefficients.  Reconstruction
/// coefficients that resolve a sharing sum to one, so affine-transformed
/// shares rebuild to the same affine transformation of the secret.
pub proof fn lemma_rebuild_affine(vals: Seq<nat>, cs: Seq<nat>, a: nat, b: nat)
    requires
        vals.len() >= cs.len(),
    ensures
        dot_q(affine_vals(vals, a, b), cs) == crate::field::add_q(
            mul_q(a, dot_q(vals, cs)),
            mul_q(b, sum_q(cs)),
        ),
    decreases cs.len(),
{
    let w = affine_vals(vals, a, b);
    if cs.len() == 0 {
        crate::field::lemma_mul_q_zero(a);
        crate::field::lemma_mul_q_zero(b);
        crate::field::lemma_add_q_zero(0);
    } else {
        lemma_rebuild_affine(vals, cs.drop_last(), a, b);
        let k = cs.len() - 1;
        let c = cs.last();
        let v = vals[k as int];
        let dp = dot_q(vals, cs.drop_last());
        let sp = sum_q(cs.drop_last());
        assert(w[k as int] == crate::field::add_q(mul_q(a, v), b));
        // (a·v + b)·c  =  a·(v·c) + b·c
        crate::field::lemma_mul_q_comm(crate::field::add_q(mul_q(a, v), b), c);
        crate::field::lemma_mul_q_distrib(c, mul_q(a, v), b);
        crate::field::lemma_mul_q_comm(c, mul_q(a, v));
        crate::field::lemma_mul_q_comm(c, b);
        crate::field::lemma_mul_q_assoc(a, v, c);
        // regroup the four summands and refold the distributed products
        crate::field::lemma_add_q_four(
            mul_q(a, dp),
            mul_q(b, sp),
            mul_q(a, mul_q(v, c)),
            mul_q(b, c),
        );
        crate::field::lemma_mul_q_distrib(a, dp, mul_q(v, c));
        crate::field::lemma_mul_q_distrib(b, sp, c);
    }
}

/// The reconstruction coefficient of the first of two shares at the
/// points 1 and 2 is two.
proof fn lemma_two_point_first_coeff()
    ensures
        lagrange_coeff(seq![1nat, 2nat], 2, 0) == 2,
{
    let xs = seq![1nat, 2nat];
    let q = field_order();
    reveal_with_fuel(prod_seq, 4);
    reveal_with_fuel(lagrange_partial, 4);
    assert(xs.take(2) =~= xs);
    assert(xs.take(1).drop_last() =~= Seq::<nat>::empty());
    assert(xs.drop_last() =~= xs.take(1));
    crate::field::lemma_mul_q_one_right(1);
    assert(prod_seq(xs.take(1)) == 1);
    crate::field::lemma_mul_q_one_right(2);
    crate::field::lemma_mul_q_comm(1, 2);
    assert(prod_seq(xs) == 2);
    // the needed inverses: 1 is its own inverse, and x_1 - x_0 is one
    lemma_inv_unique(1, 1);
    assert(sub_q(2, 1) == 1) by {
        assert(1nat % q == 1) by {
            vstd::arithmetic::div_mod::lemma_small_mod(1, q);
        }
        assert((2int + ((q as int) - 1)) % (q as int) == 1int) by {
            vstd::arithmetic::div_mod::lemma_mod_add_multiples_vanish(1, q as int);
            vstd::arithmetic::div_mod::lemma_small_mod(1, q);
        }
    }
    assert(lagrange_partial(xs, 2, 0, 1) == mul_q(2, inv_q(1)));
    assert(lagrange_partial(xs, 2, 0, 2) == mul_q(mul_q(2, 1), inv_q(1)));
}

/// The reconstruction coefficient of the second of two shares at the
/// points 1 and 2 is minus one.
proof fn lemma_two_point_second_coeff()
    ensures
        lagrange_coeff(seq![1nat, 2nat], 2, 1) == (field_order() - 1) as nat,
{
    let xs = seq![1nat, 2nat];
    let q = field_order();
    let qm1 = (q - 1) as nat;
    let half = 0x39f6d3a994cebea4199cec0404d0ec02a9ded2017fff2dff7fffffff80000001nat;
    reveal_with_fuel(prod_seq, 4);
    reveal_with_fuel(lagrange_partial, 4);
    assert(xs.take(2) =~= xs);
    assert(xs.take(1).drop_last() =~= Seq::<nat>::empty());
    assert(xs.take(1).drop_last() =~= Seq::<nat>::empty());
    assert(xs.drop_last() =~= xs.take(1));
    crate::field::lemma_mul_q_one_right(1);
    crate::field::lemma_mul_q_one_right(2);
    crate::field::lemma_mul_q_comm(1, 2);
    assert(prod_seq(xs) == 2);
    // x_0 - x_1 is minus one, which is its own inverse
    assert(sub_q(1, 2) == qm1) by {
        assert(2nat % q == 2) by {
            vstd::arithmetic::div_mod::lemma_small_mod(2, q);
        }
        assert((1int + ((q as int) - 2)) % (q as int) == qm1 as int) by {
            vstd::arithmetic::div_mod::lemma_small_mod(qm1, q);
        }
    }
    assert(mul_q(qm1, qm1) == 1) by {
        assert(((q as int) - 1) * ((q as int) - 1) == ((q as int) - 2) * (q as int) + 1) by (nonlinear_arith)
            requires
                q >= 2,
        ;
        assert((((q as int) - 2) * (q as int) + 1) % (q as int) == 1int % (q as int)) by {
            vstd::arithmetic::div_mod::lemma_mod_multiples_vanish(
                (q - 2) as int,
                1,
                q as int,
            );
        }
        vstd::arithmetic::div_mod::lemma_small_mod(1, q);
    }
    lemma_inv_unique(qm1, qm1);
    // 2 inverts to half, as 2 * half is one more than the field order
    assert(mul_q(2, half) == 1) by {
        assert(2 * (half as int) == (q as int) + 1);
        assert(((q as int) + 1) % (q as int) == 1int % (q as int)) by {
            vstd::arithmetic::div_mod::lemma_mod_add_multiples_vanish(1, q as int);
        }
        vstd::arithmetic::div_mod::lemma_small_mod(1, q);
    }
    lemma_inv_unique(2, half);
    assert(lagrange_partial(xs, 2, 1, 1) == mul_q(2, qm1));
    assert(mul_q(2, qm1) == (q - 2) as nat) by {
        assert(2 * ((q as int) - 1) == (q as int) + ((q as int) - 2));
        assert(((q as int) + ((q as int) - 2)) % (q as int) == ((q as int) - 2) % (q as int))
            by {
            vstd::arithmetic::div_mod::lemma_mod_add_multiples_vanish((q - 2) as int, q as int);
        }
        vstd::arithmetic::div_mod::lemma_small_mod((q - 2) as nat, q);
    }
    assert(lagrange_partial(xs, 2, 1, 2) == mul_q((q - 2) as nat, half));
    assert(mul_q((q - 2) as nat, half) == qm1) by {
        assert(((q as int) - 2) * (half as int) == ((half as int) - 2) * (q as int) + ((q as int) - 1)) by (nonlinear_arith)
            requires
                2 * (half as int) == (q as int) + 1,
                q >= 3,
                half >= 2,
        ;
        assert((((half - 2) as int) * (q as int) + ((q as int) - 1)) % (q as int) == ((
        q as int) - 1) % (q as int)) by {
            vstd::arithmetic::div_mod::lemma_mod_multiples_vanish(
                (half - 2) as int,
                (q as int) - 1,
                q as int,
            );
        }
        vstd::arithmetic::div_mod::lemma_small_mod(qm1, q);
    }
}

/// Reconstruction returns the secret for the smallest threshold: a share
/// polynomial of two coefficients, evaluated at the points 1 and 2, rebuilds
/// to its constant term under the precomputed reconstruction coefficients.
pub proof fn lemma_two_point_sharing_rebuilds(secret: nat, slope: nat)
    requires
        secret < field_order(),
        slope < field_order(),
    ensures
        ({
            let coeffs = seq![secret, slope];
            let xs = seq![1nat, 2nat];
            let vals = seq![poly_eval(coeffs, 1), poly_eval(coeffs, 2)];
            let ls = seq![lagrange_coeff(xs, 2, 0), lagrange_coeff(xs, 2, 1)];
            dot_q(vals, ls) == secret
        }),
{
    let q = field_order();
    let qm1 = (q - 1) as nat;
    let coeffs = seq![secret, slope];
    let xs = seq![1nat, 2nat];
    let v1 = poly_eval(coeffs, 1);
    let v2 = poly_eval(coeffs, 2);
    let ls = seq![lagrange_coeff(xs, 2, 0), lagrange_coeff(xs, 2, 1)];
    reveal_with_fuel(poly_eval, 4);
    reveal_with_fuel(dot_q, 4);
    lemma_two_point_first_coeff();
    lemma_two_point_second_coeff();

    // the two share values
    assert(coeffs.drop_first() =~= seq![slope]);
    assert(seq![slope].drop_first() =~= Seq::<nat>::empty());
    crate::field::lemma_mul_q_zero(1);
    crate::field::lemma_mul_q_zero(2);
    crate::field::lemma_add_q_zero(slope);
    assert(poly_eval(seq![slope], 1) == slope);
    assert(poly_eval(seq![slope], 2) == slope);
    crate::field::lemma_mul_q_one_right(slope);
    crate::field::lemma_mul_q_comm(1, slope);
    assert(v1 == crate::field::add_q(secret, slope));
    crate::field::lemma_mul_q_comm(2, slope);
    assert(v2 == crate::field::add_q(secret, mul_q(2, slope)));

    // the dot product, unfolded
    assert(ls.drop_last() =~= seq![2nat]);
    assert(seq![2nat].drop_last() =~= Seq::<nat>::empty());
    crate::field::lemma_add_q_zero(mul_q(v1, 2));
    assert(dot_q(vals_of(secret, slope), ls) == crate::field::add_q(
        mul_q(v1, 2),
        mul_q(v2, qm1),
    )) by {
        assert(vals_of(secret, slope)[0] == v1);
        assert(vals_of(secret, slope)[1] == v2);
    }

    // expand both products and regroup
    crate::field::lemma_mul_q_comm(v1, 2);
    crate::field::lemma_mul_q_distrib(2, secret, slope);
    crate::field::lemma_mul_q_comm(v2, qm1);
    crate::field::lemma_mul_q_distrib(qm1, secret, mul_q(2, slope));
    crate::field::lemma_add_q_four(
        mul_q(2, secret),
        mul_q(2, slope),
        mul_q(qm1, secret),
        mul_q(qm1, mul_q(2, slope)),
    );

    // the secret parts collapse to the secret
    assert(crate::field::add_q(mul_q(2, secret), mul_q(qm1, secret)) == secret) by {
        crate::field::lemma_mul_q_comm(2, secret);
        crate::field::lemma_mul_q_comm(qm1, secret);
        crate::field::lemma_mul_q_distrib(secret, 2, qm1);
        assert(crate::field::add_q(2, qm1) == 1) by {
            assert(((q as int) + 1) % (q as int) == 1int % (q as int)) by {
                vstd::arithmetic::div_mod::lemma_mod_add_multiples_vanish(1, q as int);
            }
            vstd::arithmetic::div_mod::lemma_small_mod(1, q);
        }
        crate::field::lemma_mul_q_one_right(secret);
    }

    // the slope parts cancel
    let u = mul_q(2, slope);
    assert(crate::field::add_q(u, mul_q(qm1, u)) == 0) by {
        crate::field::lemma_mul_q_one_right(u);
        crate::field::lemma_mul_q_comm(1, u);
        crate::field::lemma_mul_q_comm(qm1, u);
        crate::field::lemma_mul_q_distrib(u, 1, qm1);
        assert(crate::field::add_q(1, qm1) == 0) by {
            vstd::arithmetic::div_mod::lemma_mod_self_0(q as int);
        }
        crate::field::lemma_mul_q_zero(u);
    }

    crate::field::lemma_add_q_zero(secret);
}

/// The share values of a two-coefficient polynomial at the points 1 and 2.
spec fn vals_of(secret: nat, slope: nat) -> Seq<nat> {
    seq![
        poly_eval(seq![secret, slope], 1),
        poly_eval(seq![secret, slope], 2),
    ]
}

/// The G1 combination of point shares against scalar coefficients.
pub open spec fn g1_dot(points: Seq<Seq<u8>>, cs: Seq<nat>) -> Seq<u8>
    decreases cs.len(),
{
    if cs.len() == 0 {
        g1_id()
    } else {
        g1_add_of(
            g1_dot(points, cs.drop_last()),
            g1_mul_of(points[cs.len() - 1], cs.last()),
        )
    }
}

/// The G1 value the check coefficients rebuild.
pub open spec fn g1_check_dot(
    shares: Seq<(Element, [u8; 48])>,
    checks: Seq<nat>,
    t: int,
) -> Seq<u8> {
    g1_skip1_dot(shares, checks, t, g1_mul_of(shares[t].1@, checks[0]))
}

/// Fold the point shares 1..k against check coefficients 1..k onto a base.
pub open spec fn g1_skip1_dot(
    shares: Seq<(Element, [u8; 48])>,
    checks: Seq<nat>,
    k: int,
    base: Seq<u8>,
) -> Seq<u8>
    decreases k,
{
    if k <= 1 {
        base
    } else {
        g1_add_of(
            g1_skip1_dot(shares, checks, k - 1, base),
            g1_mul_of(shares[k - 1].1@, checks[k - 1]),
        )
    }
}

/// Point shares are canonical scalars paired with valid G1 encodings.
pub open spec fn point_shares_wf(s: Seq<(Element, [u8; 48])>) -> bool {
    forall|i: int| 0 <= i < s.len() ==> (#[trigger] s[i]).0.wf() && g1_valid_of(s[i].1@)
}

/// The point views of point shares.
pub open spec fn point_share_vals(s: Seq<(Element, [u8; 48])>) -> Seq<Seq<u8>> {
    s.map_values(|p: (Element, [u8; 48])| p.1@)
}

/// Rebuild the shared G1 point, as `shamir_rebuild_scalar` does for
/// scalars, with the same validity check against a malicious server.
pub fn shamir_rebuild_point(
    shares: &[(Element, [u8; 48])],
    coefficients: &[Element],
    check_coefficients: &Option<Vec<Element>>,
) -> (r: Option<[u8; 48]>)
    requires
        point_shares_wf(shares@),
        all_wf(coefficients@),
        1 <= coefficients@.len(),
        shares@.len() >= coefficients@.len(),
        check_coefficients is Some ==> shares@.len() > coefficients@.len(),
        check_coefficients is Some ==> check_coefficients.unwrap()@.len() == coefficients@.len(),
        check_coefficients is Some ==> all_wf(check_coefficients.unwrap()@),
    ensures
        ({
            let main = g1_dot(point_share_vals(shares@), seq_vals(coefficients@));
            match *check_coefficients {
                Some(ref checks) => {
                    &&& r is Some <==> main == g1_check_dot(
                        shares@,
                        seq_vals(checks@),
                        coefficients@.len() as int,
                    )
                    &&& r is Some ==> r.unwrap()@ == main && g1_valid_of(r.unwrap()@)
                }
                None => r is Some && r.unwrap()@ == main && g1_valid_of(r.unwrap()@),
            }
        }),
{
    let ghost cs = seq_vals(coefficients@);
    let ghost pts = point_share_vals(shares@);
    let t = coefficients.len();
    let mut result = crate::group::g1_identity();
    let mut i: usize = 0;
    while i < t
        invariant
            point_shares_wf(shares@),
            all_wf(coefficients@),
            cs == seq_vals(coefficients@),
            pts == point_share_vals(shares@),
            t == coefficients@.len(),
            shares@.len() >= t,
            0 <= i <= t,
            g1_valid_of(result@),
            result@ == g1_dot(pts, cs.take(i as int)),
        decreases t - i,
    {
        let term = crate::group::g1_mul(&shares[i].1, &coefficients[i]);
        result = crate::group::g1_add(&result, &term);
        proof {
            assert(cs.take(i + 1).drop_last() =~= cs.take(i as int));
            assert(cs.take(i + 1).last() == coefficients@[i as int]@);
            assert(pts[i as int] == shares@[i as int].1@);
        }
        i += 1;
    }
    proof {
        assert(cs.take(t as int) =~= cs);
    }
    match check_coefficients {
        Some(checks) => {
            let ghost chs = seq_vals(checks@);
            let mut check_result = crate::group::g1_mul(&shares[t].1, &checks[0]);
            let mut i: usize = 1;
            while i < t
                invariant
                    point_shares_wf(shares@),
                    all_wf(checks@),
                    chs == seq_vals(checks@),
                    t == coefficients@.len(),
                    checks@.len() == t,
                    shares@.len() > t,
                    1 <= i <= t,
                    g1_valid_of(check_result@),
                    check_result@ == g1_skip1_dot(
                        shares@,
                        chs,
                        i as int,
                        g1_mul_of(shares@[t as int].1@, chs[0]),
                    ),
                decreases t - i,
            {
                let term = crate::group::g1_mul(&shares[i].1, &checks[i]);
                check_result = crate::group::g1_add(&check_result, &term);
                proof {
                    assert(chs[i as int] == checks@[i as int]@);
                }
                i += 1;
            }
            if crate::group::bytes_eq(
                vstd::array::array_as_slice(&check_result),
                vstd::array::array_as_slice(&result),
            ) {
                Some(result)
            } else {
                None
            }
        }
        None => Some(result),
    }
}

} // verus!
