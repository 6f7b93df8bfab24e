//! Dense polynomials over the scalar field, used for witness-update
//! coefficients and for the windowed evaluation of deletion products.

use crate::field::{add_q, field_order, mul_q, sub_q, Element};
use vstd::prelude::*;

verus! {

/// Coefficient `i` of a polynomial, zero beyond its degree.
pub open spec fn at0(p: Seq<nat>, i: int) -> nat {
    if 0 <= i < p.len() {
        p[i]
    } else {
        0
    }
}

/// Every coefficient is canonical.
pub open spec fn poly_wf(p: Seq<nat>) -> bool {
    forall|i: int| 0 <= i < p.len() ==> p[i] < field_order()
}

/// The coefficients of `k`·p.
pub open spec fn poly_scale(p: Seq<nat>, k: nat) -> Seq<nat> {
    Seq::new(p.len(), |i: int| mul_q(k, p[i]))
}

/// The coefficients of a + b, the longer length prevailing.
pub open spec fn poly_add(a: Seq<nat>, b: Seq<nat>) -> Seq<nat> {
    Seq::new(
        if a.len() >= b.len() {
            a.len()
        } else {
            b.len()
        },
        |i: int| add_q(at0(a, i), at0(b, i)),
    )
}

/// The coefficients of a − b, the longer length prevailing.
pub open spec fn poly_sub(a: Seq<nat>, b: Seq<nat>) -> Seq<nat> {
    Seq::new(
        if a.len() >= b.len() {
            a.len()
        } else {
            b.len()
        },
        |i: int| sub_q(at0(a, i), at0(b, i)),
    )
}

/// The coefficients of (c − x)·p.
pub open spec fn poly_mul_linear(p: Seq<nat>, c: nat) -> Seq<nat> {
    Seq::new(p.len() + 1, |i: int| sub_q(mul_q(c, at0(p, i)), at0(p, i - 1)))
}

/// Evaluation of a polynomial at `x` in the scalar field.
pub open spec fn poly_eval(p: Seq<nat>, x: nat) -> nat
    decreases p.len(),
{
    if p.len() == 0 {
        0
    } else {
        add_q(p[0], mul_q(x, poly_eval(p.drop_first(), x)))
    }
}

/// A dense scalar polynomial; index `i` holds the coefficient of `x^i`.
#[derive(Clone, Debug)]
pub struct Polynomial {
    coeffs: Vec<Element>,
}

impl View for Polynomial {
    type V = Seq<nat>;

    closed spec fn view(&self) -> Seq<nat> {
        self.coeffs@.map_values(|e: Element| e@)
    }
}

impl Polynomial {
    /// All stored coefficients are canonical scalars.
    pub open spec fn wf(&self) -> bool {
        poly_wf(self@)
    }

    /// The zero polynomial, with no coefficients.
    pub fn new() -> (r: Polynomial)
        ensures
            r@ == Seq::<nat>::empty(),
            r.wf(),
    {
        let r = Polynomial { coeffs: Vec::new() };
        proof {
            assert(r@ =~= Seq::<nat>::empty());
        }
        r
    }

    /// The number of coefficients.
    pub fn len(&self) -> (r: usize)
        ensures
            r == self@.len(),
    {
        self.coeffs.len()
    }

    /// The coefficient of `x^i`.
    pub fn get(&self, i: usize) -> (r: Element)
        requires
            i < self@.len(),
        ensures
            r@ == self@[i as int],
            self.wf() ==> r.wf(),
    {
        self.coeffs[i]
    }

    /// Append a top coefficient.
    pub fn push(&mut self, v: Element)
        ensures
            final(self)@ == old(self)@.push(v@),
            old(self).wf() && v.wf() ==> final(self).wf(),
    {
        self.coeffs.push(v);
        proof {
            assert(self@ =~= old(self)@.push(v@));
        }
    }

    /// Multiply every coefficient by `k`, in place.
    pub fn mul_scalar(&mut self, k: &Element)
        requires
            old(self).wf(),
            k.wf(),
        ensures
            final(self)@ == poly_scale(old(self)@, k@),
            final(self).wf(),
    {
        let n = self.coeffs.len();
        let mut out: Vec<Element> = Vec::new();
        let mut i: usize = 0;
        while i < n
            invariant
                n == old(self)@.len(),
                self == old(self),
                old(self).wf(),
                k.wf(),
                0 <= i <= n,
                out@.len() == i,
                forall|j: int|
                    0 <= j < i ==> out@.map_values(|e: Element| e@)[j] == mul_q(
                        k@,
                        old(self)@[j],
                    ),
                forall|j: int| 0 <= j < i ==> out@[j].wf(),
            decreases n - i,
        {
            proof {
                assert(self@[i as int] == self.coeffs@[i as int]@);
            }
            out.push(crate::field::sc_mul(k, &self.coeffs[i]));
            i += 1;
        }
        self.coeffs = out;
        proof {
            assert(self@ =~= poly_scale(old(self)@, k@));
        }
    }

    /// Add another polynomial, in place, growing as needed.
    pub fn add_poly(&mut self, other: &Polynomial)
        requires
            old(self).wf(),
            other.wf(),
        ensures
            final(self)@ == poly_add(old(self)@, other@),
            final(self).wf(),
    {
        let n = if self.coeffs.len() >= other.coeffs.len() {
            self.coeffs.len()
        } else {
            other.coeffs.len()
        };
        let mut out: Vec<Element> = Vec::new();
        let mut i: usize = 0;
        while i < n
            invariant
                n == if old(self)@.len() >= other@.len() {
                    old(self)@.len()
                } else {
                    other@.len()
                },
                self == old(self),
                old(self).wf(),
                other.wf(),
                0 <= i <= n,
                out@.len() == i,
                forall|j: int|
                    0 <= j < i ==> out@.map_values(|e: Element| e@)[j] == add_q(
                        at0(old(self)@, j),
                        at0(other@, j),
                    ),
                forall|j: int| 0 <= j < i ==> out@[j].wf(),
            decreases n - i,
        {
            proof {
                if i < self.coeffs@.len() {
                    assert(self@[i as int] == self.coeffs@[i as int]@);
                }
                if i < other.coeffs@.len() {
                    assert(other@[i as int] == other.coeffs@[i as int]@);
                }
            }
            let a = if i < self.coeffs.len() {
                self.coeffs[i]
            } else {
                Element::zero()
            };
            let b = if i < other.coeffs.len() {
                other.coeffs[i]
            } else {
                Element::zero()
            };
            out.push(crate::field::sc_add(&a, &b));
            i += 1;
        }
        self.coeffs = out;
        proof {
            assert(self@ =~= poly_add(old(self)@, other@));
        }
    }

    /// Subtract another polynomial, in place, growing as needed.
    pub fn sub_poly(&mut self, other: &Polynomial)
        requires
            old(self).wf(),
            other.wf(),
        ensures
            final(self)@ == poly_sub(old(self)@, other@),
            final(self).wf(),
    {
        let n = if self.coeffs.len() >= other.coeffs.len() {
            self.coeffs.len()
        } else {
            other.coeffs.len()
        };
        let mut out: Vec<Element> = Vec::new();
        let mut i: usize = 0;
        while i < n
            invariant
                n == if old(self)@.len() >= other@.len() {
                    old(self)@.len()
                } else {
                    other@.len()
                },
                self == old(self),
                old(self).wf(),
                other.wf(),
                0 <= i <= n,
                out@.len() == i,
                forall|j: int|
                    0 <= j < i ==> out@.map_values(|e: Element| e@)[j] == sub_q(
                        at0(old(self)@, j),
                        at0(other@, j),
                    ),
                forall|j: int| 0 <= j < i ==> out@[j].wf(),
            decreases n - i,
        {
            proof {
                if i < self.coeffs@.len() {
                    assert(self@[i as int] == self.coeffs@[i as int]@);
                }
                if i < other.coeffs@.len() {
                    assert(other@[i as int] == other.coeffs@[i as int]@);
                }
            }
            let a = if i < self.coeffs.len() {
                self.coeffs[i]
            } else {
                Element::zero()
            };
            let b = if i < other.coeffs.len() {
                other.coeffs[i]
            } else {
                Element::zero()
            };
            out.push(crate::field::sc_sub(&a, &b));
            i += 1;
        }
        self.coeffs = out;
        proof {
            assert(self@ =~= poly_sub(old(self)@, other@));
        }
    }

    /// Multiply by the linear factor (c − x), in place.
    pub fn mul_linear(&mut self, c: &Element)
        requires
            old(self).wf(),
            c.wf(),
            old(self)@.len() < usize::MAX,
        ensures
            final(self)@ == poly_mul_linear(old(self)@, c@),
            final(self).wf(),
    {
        let n = self.coeffs.len();
        let mut out: Vec<Element> = Vec::new();
        let mut i: usize = 0;
        while i <= n
            invariant
                n == old(self)@.len(),
                self == old(self),
                old(self).wf(),
                c.wf(),
                n < usize::MAX,
                0 <= i <= n + 1,
                out@.len() == i,
                forall|j: int|
                    0 <= j < i ==> out@.map_values(|e: Element| e@)[j] == sub_q(
                        mul_q(c@, at0(old(self)@, j)),
                        at0(old(self)@, j - 1),
                    ),
                forall|j: int| 0 <= j < i ==> out@[j].wf(),
            decreases n + 1 - i,
        {
            proof {
                if i < self.coeffs@.len() {
                    assert(self@[i as int] == self.coeffs@[i as int]@);
                }
                if i >= 1 {
                    assert(self@[i as int - 1] == self.coeffs@[i as int - 1]@);
                }
            }
            let hi = if i < n {
                crate::field::sc_mul(c, &self.coeffs[i])
            } else {
                Element::zero()
            };
            let r = if i >= 1 {
                crate::field::sc_sub(&hi, &self.coeffs[i - 1])
            } else {
                hi
            };
            proof {
                assert(mul_q(c@, 0) == 0) by {
                    vstd::arithmetic::div_mod::lemma_small_mod(0, field_order());
                }
                if i == 0 {
                    crate::field::lemma_sub_q_zero(r@);
                }
            }
            out.push(r);
            i += 1;
        }
        self.coeffs = out;
        proof {
            assert(self@ =~= poly_mul_linear(old(self)@, c@));
        }
    }

    /// Evaluate the polynomial at `x`.
    pub fn eval(&self, x: &Element) -> (r: Element)
        requires
            self.wf(),
            x.wf(),
        ensures
            r@ == poly_eval(self@, x@),
            r.wf(),
    {
        let n = self.coeffs.len();
        let mut acc = Element::zero();
        let mut i: usize = n;
        while i > 0
            invariant
                n == self@.len(),
                self.wf(),
                x.wf(),
                0 <= i <= n,
                acc.wf(),
                acc@ == poly_eval(self@.skip(i as int), x@),
            decreases i,
        {
            i -= 1;
            proof {
                assert(self@[i as int] == self.coeffs@[i as int]@);
            }
            let acc2 = crate::field::sc_add(
                &self.coeffs[i],
                &crate::field::sc_mul(x, &acc),
            );
            proof {
                let tail = self@.skip(i as int);
                assert(tail.len() > 0);
                assert(tail[0] == self@[i as int]);
                assert(tail.drop_first() =~= self@.skip(i as int + 1));
            }
            acc = acc2;
        }
        proof {
            assert(self@.skip(0) =~= self@);
        }
        acc
    }
}

} // verus!
