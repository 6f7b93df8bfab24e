//! An ALLOSAUR server: it holds the accumulator history, the deletion log,
//! and the stored witnesses, and answers witness issuance and windowed
//! update queries.

use crate::accumulator::key::{lin_prod, PublicKey, SecretKey};
use crate::accumulator::{Accumulator, MembershipWitness};
use crate::field::{
    add_q, inv_q, lemma_inv_unique, lemma_sub_q_eq_zero, mul_q, seq_vals, sub_q, Element,
};
use crate::group::{g1_add_of, g1_id, g1_mul_of, g1_sub_of, g1_valid_of, g2_mul_of};
use crate::polynomial::{at0, Polynomial};
use crate::transcript::{
    transcript_scalar_of, L_CHALLENGE, L_COMMITMENT, L_USER_PUB_KEY, L_USER_SIGNATURE_PROOF,
};
use crate::utils::{AccParams, PublicKeys, UserID};
use vstd::prelude::*;

verus! {

/// Evaluation of the first `k` coefficients of a polynomial at the secret
/// point, using the caller's shares of its rising powers: the constant term
/// plus each higher coefficient times the matching power share.
pub open spec fn share_eval_k(p: Seq<nat>, sh: Seq<nat>, k: int) -> nat
    decreases k,
{
    if k <= 1 {
        at0(p, 0)
    } else {
        add_q(share_eval_k(p, sh, k - 1), mul_q(at0(p, k - 1), at0(sh, k - 2)))
    }
}

/// Evaluation of a whole polynomial against power shares.
pub open spec fn share_eval(p: Seq<nat>, sh: Seq<nat>) -> nat {
    share_eval_k(p, sh, p.len() as int)
}

/// The G1 combination of a window of accumulators against evaluations.
pub open spec fn acc_combo(accs: Seq<Seq<u8>>, start: int, evals: Seq<nat>, k: int) -> Seq<u8>
    decreases k,
{
    if k <= 0 {
        g1_id()
    } else {
        g1_add_of(
            acc_combo(accs, start, evals, k - 1),
            g1_mul_of(accs[start + k - 1], evals[k - 1]),
        )
    }
}

/// The evaluations of the partial products of one deletion window: entry
/// `i` evaluates the product of the window's first `i` linear factors.
pub open spec fn chunk_evals(dels: Seq<nat>, lo: int, cnt: int, sh: Seq<nat>) -> Seq<nat> {
    Seq::new(cnt as nat, |i: int| share_eval(lin_prod(dels.subrange(lo, lo + i)), sh))
}

/// How many windows of `step` deletions cover `d` of them.
pub open spec fn num_chunks(d: int, step: int) -> int
    decreases d,
{
    if d <= 0 || step <= 0 {
        0
    } else {
        1 + num_chunks(
            if d - step > 0 {
                d - step
            } else {
                0
            },
            step,
        )
    }
}

/// A chunk count is never negative.
pub proof fn lemma_num_chunks_nonneg(d: int, step: int)
    ensures
        num_chunks(d, step) >= 0,
    decreases d,
{
    if d > 0 && step > 0 {
        lemma_num_chunks_nonneg(
            if d - step > 0 {
                d - step
            } else {
                0
            },
            step,
        );
    }
}

/// The Schnorr check a server makes before issuing a witness: the carried
/// challenge must equal the transcript challenge over the user's public key
/// and the recomputed commitment K1·z + U·c.
pub open spec fn schnorr_ok(k1: Seq<u8>, u: Seq<u8>, challenge: nat, response: nat) -> bool {
    challenge == transcript_scalar_of(
        L_USER_SIGNATURE_PROOF@,
        seq![
            (L_USER_PUB_KEY@, u),
            (L_COMMITMENT@, g1_add_of(g1_mul_of(k1, response), g1_mul_of(u, challenge))),
        ],
        L_CHALLENGE@,
    )
}

/// The compressed views of a list of accumulators.
pub open spec fn accs_views(s: Seq<Accumulator>) -> Seq<Seq<u8>> {
    s.map_values(|a: Accumulator| a@)
}

/// Evaluate a window polynomial against the power shares: its constant
/// term, plus each higher coefficient times the matching share.
fn share_eval_exec(p: &Polynomial, sh: &[Element]) -> (r: Element)
    requires
        p.wf(),
        crate::field::all_wf(sh@),
        1 <= p@.len(),
        p@.len() <= sh@.len() + 1,
    ensures
        r@ == share_eval(p@, seq_vals(sh@)),
        r.wf(),
{
    let n = p.len();
    let mut r = p.get(0);
    let mut i: usize = 1;
    while i < n
        invariant
            p.wf(),
            crate::field::all_wf(sh@),
            n == p@.len(),
            n <= sh@.len() + 1,
            1 <= i <= n,
            r.wf(),
            r@ == share_eval_k(p@, seq_vals(sh@), i as int),
        decreases n - i,
    {
        proof {
            assert(seq_vals(sh@)[i - 1] == sh@[i - 1]@);
        }
        let term = crate::field::sc_mul(&p.get(i), &sh[i - 1]);
        r = crate::field::sc_add(&r, &term);
        i += 1;
    }
    r
}

/// An ALLOSAUR server
#[derive(Clone, Debug)]
pub struct Server {
    accumulators: Vec<Accumulator>,
    wit_secret_key: SecretKey,
    public_keys: PublicKeys,
    sign_secret_key: SecretKey,
    all_users: Vec<UserID>,
    all_witnesses: Vec<(UserID, MembershipWitness)>,
    deletions: Vec<UserID>,
}

impl Server {
    /// The accumulator history, oldest first.
    pub closed spec fn accs(&self) -> Seq<Accumulator> {
        self.accumulators@
    }

    /// The accumulator secret.
    pub closed spec fn alpha(&self) -> nat {
        self.wit_secret_key.0@
    }

    /// The signing secret.
    pub closed spec fn sign_secret(&self) -> nat {
        self.sign_secret_key.0@
    }

    /// The published keys.
    pub closed spec fn keys(&self) -> PublicKeys {
        self.public_keys
    }

    /// Every identifier ever added.
    pub closed spec fn users(&self) -> Seq<UserID> {
        self.all_users@
    }

    /// The stored witnesses of the users not yet deleted.
    pub closed spec fn wits(&self) -> Seq<(UserID, MembershipWitness)> {
        self.all_witnesses@
    }

    /// The deletion log, oldest first.
    pub closed spec fn dels(&self) -> Seq<UserID> {
        self.deletions@
    }

    /// Whether a witness is stored for the identifier.
    pub open spec fn has_wit(&self, y: Element) -> bool {
        exists|i: int| 0 <= i < self.wits().len() && (#[trigger] self.wits()[i]).0@ == y@
    }

    /// The server's state is consistent: at least one accumulator, one more
    /// accumulator than deletions, valid points, canonical scalars, and
    /// pairwise distinct stored witness keys.
    pub open spec fn wf(&self) -> bool {
        &&& self.accs().len() >= 1
        &&& self.accs().len() == self.dels().len() + 1
        &&& forall|i: int| 0 <= i < self.accs().len() ==> (#[trigger] self.accs()[i]).wf()
        &&& self.alpha() < crate::field::field_order()
        &&& self.sign_secret() < crate::field::field_order()
        &&& self.keys().wf()
        &&& forall|i: int| 0 <= i < self.users().len() ==> (#[trigger] self.users()[i]).wf()
        &&& forall|i: int|
            0 <= i < self.wits().len() ==> (#[trigger] self.wits()[i]).0.wf()
                && self.wits()[i].1.wf()
        &&& forall|i: int, j: int|
            0 <= i < self.wits().len() && 0 <= j < self.wits().len() && i != j ==> (
            #[trigger] self.wits()[i]).0@ != (#[trigger] self.wits()[j]).0@
        &&& forall|i: int| 0 <= i < self.dels().len() ==> (#[trigger] self.dels()[i]).wf()
    }

    /// Creates a new server with random parameters
    pub fn new(params: &AccParams) -> (s: Server)
        requires
            params.wf(),
        ensures
            s.wf(),
            s.accs().len() == 1,
            s.users().len() == 0,
            s.wits().len() == 0,
            s.dels().len() == 0,
            s.keys().witness_key@ == g2_mul_of(params.s_p2(), s.alpha()),
            s.keys().sign_key@ == g2_mul_of(params.s_k2(), s.sign_secret()),
            exists|v: nat|
                v < crate::field::field_order() && s.accs()[0]@ == #[trigger] g1_mul_of(
                    params.s_p1(),
                    v,
                ),
    {
        let alpha = SecretKey::new(None);
        let s_m = SecretKey::new(None);
        let p2 = params.get_p2();
        let k2 = params.get_k2();
        let q = crate::group::g2_mul(&p2, &alpha.0);
        let q_m = crate::group::g2_mul(&k2, &s_m.0);
        let v0 = SecretKey::new(None);
        let p1 = params.get_p1();
        let v = crate::group::g1_mul(&p1, &v0.0);
        let mut accumulators: Vec<Accumulator> = Vec::new();
        accumulators.push(Accumulator::from_point(v));
        let server = Server {
            accumulators,
            wit_secret_key: alpha,
            sign_secret_key: s_m,
            public_keys: PublicKeys {
                witness_key: PublicKey::from_point(q),
                sign_key: PublicKey::from_point(q_m),
            },
            all_users: Vec::new(),
            all_witnesses: Vec::new(),
            deletions: Vec::new(),
        };
        proof {
            assert(server.accs()[0]@ == g1_mul_of(params.s_p1(), v0.0@));
        }
        server
    }

    /// Find the stored witness index for an identifier.
    fn find_wit(&self, y: &Element) -> (r: Option<usize>)
        ensures
            r is Some ==> 0 <= r.unwrap() < self.wits().len() && self.wits()[r.unwrap() as int].0@
                == y@,
            r is None ==> !self.has_wit(*y),
    {
        let mut i: usize = 0;
        let n = self.all_witnesses.len();
        while i < n
            invariant
                n == self.wits().len(),
                0 <= i <= n,
                forall|j: int| 0 <= j < i ==> (#[trigger] self.wits()[j]).0@ != y@,
            decreases n - i,
        {
            if self.all_witnesses[i].0.eq_elem(y) {
                return Some(i);
            }
            i += 1;
        }
        None
    }

    /// "Adds" a new element by creating a witness for it and inserting it
    /// into the internal list.  Refused when a witness is already stored,
    /// or when the shifted identifier degenerates to zero.
    pub fn add(&mut self, y: UserID) -> (r: Option<MembershipWitness>)
        requires
            old(self).wf(),
            y.wf(),
        ensures
            final(self).wf(),
            r is Some <==> !old(self).has_wit(y) && add_q(y@, old(self).alpha()) != 0,
            r is None ==> *final(self) == *old(self),
            r is Some ==> ({
                let w = r.unwrap();
                &&& w@ == g1_mul_of(
                    old(self).accs().last()@,
                    inv_q(add_q(y@, old(self).alpha())),
                )
                &&& final(self).users() == old(self).users().push(y)
                &&& final(self).wits() == old(self).wits().push((y, w))
                &&& final(self).accs() == old(self).accs()
                &&& final(self).dels() == old(self).dels()
                &&& final(self).alpha() == old(self).alpha()
                &&& final(self).sign_secret() == old(self).sign_secret()
                &&& final(self).keys() == old(self).keys()
            }),
    {
        match self.find_wit(&y) {
            Some(_) => None,
            None => {
                let last = self.accumulators[self.accumulators.len() - 1];
                let wit = match MembershipWitness::new(y, last, &self.wit_secret_key) {
                    Some(w) => w,
                    None => {
                        return None;
                    }
                };
                self.all_users.push(y);
                self.all_witnesses.push((y, wit));
                proof {
                    assert forall|i: int| 0 <= i < old(self).wits().len() implies (
                    #[trigger] old(self).wits()[i]).0@ != y@ by {
                        if old(self).wits()[i].0@ == y@ {
                            assert(old(self).has_wit(y));
                        }
                    }
                    assert(self.wits() =~= old(self).wits().push((y, wit)));
                    assert(self.users() =~= old(self).users().push(y));
                    assert forall|i: int| 0 <= i < self.users().len() implies (
                    #[trigger] self.users()[i]).wf() by {
                        if i < old(self).users().len() {
                            assert(self.users()[i] == old(self).users()[i]);
                        } else {
                            assert(self.users()[i] == y);
                        }
                    }
                    assert forall|i: int| 0 <= i < self.wits().len() implies (
                    #[trigger] self.wits()[i]).0.wf() && self.wits()[i].1.wf() by {
                        if i < old(self).wits().len() {
                            assert(self.wits()[i] == old(self).wits()[i]);
                        } else {
                            assert(self.wits()[i] == (y, wit));
                        }
                    }
                    assert forall|i: int, j: int|
                        0 <= i < self.wits().len() && 0 <= j < self.wits().len() && i != j implies (
                    #[trigger] self.wits()[i]).0@ != (#[trigger] self.wits()[j]).0@ by {
                        if i < old(self).wits().len() {
                            assert(self.wits()[i] == old(self).wits()[i]);
                        } else {
                            assert(self.wits()[i] == (y, wit));
                        }
                        if j < old(self).wits().len() {
                            assert(self.wits()[j] == old(self).wits()[j]);
                        } else {
                            assert(self.wits()[j] == (y, wit));
                        }
                    }
                }
                Some(wit)
            }
        }
    }

    /// Deletes an element: the deleted user's stored witness becomes the
    /// next accumulator, and every surviving stored witness is rewritten as
    /// (C − V')·(y_deleted − y_survivor)⁻¹.  When the number of users is
    /// large this is slow.  Refused when no witness is stored for the
    /// identifier.
    pub fn delete(&mut self, user_id: UserID) -> (r: Option<Accumulator>)
        requires
            old(self).wf(),
            user_id.wf(),
        ensures
            final(self).wf(),
            r is Some <==> old(self).has_wit(user_id),
            r is None ==> *final(self) == *old(self),
            r is Some ==> ({
                let new_acc = r.unwrap();
                &&& exists|idx: int|
                    0 <= idx < old(self).wits().len()
                        && (#[trigger] old(self).wits()[idx]).0@ == user_id@
                        && new_acc@ == old(self).wits()[idx].1@
                        && ({
                        let rest = old(self).wits().remove(idx);
                        &&& final(self).wits().len() == rest.len()
                        &&& forall|j: int|
                            0 <= j < rest.len() ==> (#[trigger] final(self).wits()[j]).0
                                == rest[j].0 && final(self).wits()[j].1@ == g1_mul_of(
                                g1_sub_of(rest[j].1@, new_acc@),
                                inv_q(sub_q(user_id@, rest[j].0@)),
                            )
                    })
                &&& final(self).accs() == old(self).accs().push(new_acc)
                &&& final(self).dels() == old(self).dels().push(user_id)
                &&& final(self).users() == old(self).users()
                &&& final(self).alpha() == old(self).alpha()
                &&& final(self).sign_secret() == old(self).sign_secret()
                &&& final(self).keys() == old(self).keys()
            }),
    {
        let idx = match self.find_wit(&user_id) {
            Some(i) => i,
            None => {
                return None;
            }
        };
        let ghost old_wits = self.wits();
        let wit = self.all_witnesses[idx].1;
        let new_accumulator = Accumulator::from_point(wit.to_bytes());
        self.all_witnesses.remove(idx);
        self.accumulators.push(new_accumulator);

        let acc_bytes = new_accumulator.to_bytes();
        let n = self.all_witnesses.len();
        let ghost rest = old_wits.remove(idx as int);
        proof {
            old_wits.remove_ensures(idx as int);
            assert forall|i: int| 0 <= i < rest.len() implies (#[trigger] rest[i]).0.wf()
                && rest[i].1.wf() && rest[i].0@ != user_id@ by {
                if i < idx {
                    assert(rest[i] == old_wits[i]);
                } else {
                    assert(rest[i] == old_wits[i + 1]);
                }
            }
            assert forall|i: int, jj: int|
                0 <= i < rest.len() && 0 <= jj < rest.len() && i != jj implies (
            #[trigger] rest[i]).0@ != (#[trigger] rest[jj]).0@ by {
                if i < idx {
                    assert(rest[i] == old_wits[i]);
                } else {
                    assert(rest[i] == old_wits[i + 1]);
                }
                if jj < idx {
                    assert(rest[jj] == old_wits[jj]);
                } else {
                    assert(rest[jj] == old_wits[jj + 1]);
                }
            }
            assert(self.all_witnesses@ =~= rest);
        }
        let ghost accs_now = self.accs();
        let ghost dels_now = self.dels();
        let mut j: usize = 0;
        while j < n
            invariant
                n == rest.len(),
                self.all_witnesses@.len() == n,
                self.accs() == accs_now,
                self.dels() == dels_now,
                self.users() == old(self).users(),
                self.alpha() == old(self).alpha(),
                self.sign_secret() == old(self).sign_secret(),
                self.keys() == old(self).keys(),
                user_id.wf(),
                acc_bytes@ == new_accumulator@,
                g1_valid_of(acc_bytes@),
                forall|i: int|
                    0 <= i < n ==> (#[trigger] rest[i]).0.wf() && rest[i].1.wf(),
                forall|i: int, jj: int|
                    0 <= i < n && 0 <= jj < n && i != jj ==> (#[trigger] rest[i]).0@ != (
                    #[trigger] rest[jj]).0@,
                forall|i: int| 0 <= i < n ==> (#[trigger] rest[i]).0@ != user_id@,
                0 <= j <= n,
                forall|i: int| j <= i < n ==> self.all_witnesses@[i] == rest[i],
                forall|i: int|
                    0 <= i < j ==> (#[trigger] self.all_witnesses@[i]).0 == rest[i].0
                        && self.all_witnesses@[i].1@ == g1_mul_of(
                        g1_sub_of(rest[i].1@, acc_bytes@),
                        inv_q(sub_q(user_id@, rest[i].0@)),
                    ) && self.all_witnesses@[i].1.wf(),
            decreases n - j,
        {
            proof {
                assert(self.all_witnesses@[j as int] == rest[j as int]);
            }
            let other_y = self.all_witnesses[j].0;
            let other_wit = self.all_witnesses[j].1;
            let diff = crate::field::sc_sub(&user_id, &other_y);
            let inv = match crate::field::sc_invert(&diff) {
                Some(v) => v,
                None => {
                    proof {
                        lemma_sub_q_eq_zero(user_id@, other_y@);
                        assert(false);
                    }
                    return None;
                }
            };
            proof {
                lemma_inv_unique(diff@, inv@);
            }
            let wb = other_wit.to_bytes();
            let t = crate::group::g1_mul(&crate::group::g1_sub(&wb, &acc_bytes), &inv);
            self.all_witnesses[j] = (other_y, MembershipWitness::from_point(t));
            j += 1;
        }
        self.deletions.push(user_id);
        proof {
            assert(self.accs() =~= old(self).accs().push(new_accumulator));
            assert(self.dels() =~= old(self).dels().push(user_id));
            assert forall|i: int| 0 <= i < self.accs().len() implies (
            #[trigger] self.accs()[i]).wf() by {
                if i < old(self).accs().len() {
                    assert(self.accs()[i] == old(self).accs()[i]);
                } else {
                    assert(self.accs()[i] == new_accumulator);
                }
            }
            assert forall|i: int| 0 <= i < self.dels().len() implies (
            #[trigger] self.dels()[i]).wf() by {
                if i < old(self).dels().len() {
                    assert(self.dels()[i] == old(self).dels()[i]);
                } else {
                    assert(self.dels()[i] == user_id);
                }
            }
            assert(0 <= idx < old(self).wits().len() && (old(self).wits()[idx as int]).0@
                == user_id@ && new_accumulator@ == old(self).wits()[idx as int].1@);
        }
        Some(new_accumulator)
    }

    /// Uses the secret key to quickly delete an element: the accumulator
    /// advances, but the other users' stored witnesses are not updated, so
    /// survivors must run the update protocol.  Refused when no witness is
    /// stored, or when the shifted identifier degenerates to zero.
    pub fn quick_delete(&mut self, y: UserID) -> (r: Option<Accumulator>)
        requires
            old(self).wf(),
            y.wf(),
        ensures
            final(self).wf(),
            r is Some <==> old(self).has_wit(y) && add_q(y@, old(self).alpha()) != 0,
            r is None ==> *final(self) == *old(self),
            r is Some ==> ({
                let new_acc = r.unwrap();
                &&& new_acc@ == g1_mul_of(
                    old(self).accs().last()@,
                    inv_q(add_q(y@, old(self).alpha())),
                )
                &&& exists|idx: int|
                    0 <= idx < old(self).wits().len()
                        && (#[trigger] old(self).wits()[idx]).0@ == y@
                        && final(self).wits() == old(self).wits().remove(idx)
                &&& final(self).accs() == old(self).accs().push(new_acc)
                &&& final(self).dels() == old(self).dels().push(y)
                &&& final(self).users() == old(self).users()
                &&& final(self).alpha() == old(self).alpha()
                &&& final(self).sign_secret() == old(self).sign_secret()
                &&& final(self).keys() == old(self).keys()
            }),
    {
        let idx = match self.find_wit(&y) {
            Some(i) => i,
            None => {
                return None;
            }
        };
        let shifted = crate::field::sc_add(&y, &self.wit_secret_key.0);
        let inv = match crate::field::sc_invert(&shifted) {
            Some(v) => v,
            None => {
                return None;
            }
        };
        proof {
            lemma_inv_unique(shifted@, inv@);
        }
        let ghost old_wits = self.wits();
        self.all_witnesses.remove(idx);
        proof {
            old_wits.remove_ensures(idx as int);
            assert forall|i: int| 0 <= i < self.all_witnesses@.len() implies (
            #[trigger] self.all_witnesses@[i]).0.wf() && self.all_witnesses@[i].1.wf() by {
                if i < idx {
                    assert(self.all_witnesses@[i] == old_wits[i]);
                } else {
                    assert(self.all_witnesses@[i] == old_wits[i + 1]);
                }
            }
            assert forall|i: int, jj: int|
                0 <= i < self.all_witnesses@.len() && 0 <= jj < self.all_witnesses@.len() && i
                    != jj implies (#[trigger] self.all_witnesses@[i]).0@ != (
            #[trigger] self.all_witnesses@[jj]).0@ by {
                if i < idx {
                    assert(self.all_witnesses@[i] == old_wits[i]);
                } else {
                    assert(self.all_witnesses@[i] == old_wits[i + 1]);
                }
                if jj < idx {
                    assert(self.all_witnesses@[jj] == old_wits[jj]);
                } else {
                    assert(self.all_witnesses@[jj] == old_wits[jj + 1]);
                }
            }
        }
        let last = self.accumulators[self.accumulators.len() - 1];
        let lb = last.to_bytes();
        let new_accumulator = Accumulator::from_point(crate::group::g1_mul(&lb, &inv));
        self.accumulators.push(new_accumulator);
        self.deletions.push(y);
        proof {
            assert(self.users() == old(self).users());
            assert forall|i: int| 0 <= i < self.users().len() implies (
            #[trigger] self.users()[i]).wf() by {
                assert(self.users()[i] == old(self).users()[i]);
            }
            assert(self.accs() =~= old(self).accs().push(new_accumulator));
            assert(self.dels() =~= old(self).dels().push(y));
            assert forall|i: int| 0 <= i < self.accs().len() implies (
            #[trigger] self.accs()[i]).wf() by {
                if i < old(self).accs().len() {
                    assert(self.accs()[i] == old(self).accs()[i]);
                } else {
                    assert(self.accs()[i] == new_accumulator);
                }
            }
            assert forall|i: int| 0 <= i < self.dels().len() implies (
            #[trigger] self.dels()[i]).wf() by {
                if i < old(self).dels().len() {
                    assert(self.dels()[i] == old(self).dels()[i]);
                } else {
                    assert(self.dels()[i] == y);
                }
            }
        }
        Some(new_accumulator)
    }

    /// Given a user ID y and a signature proof (via challenge and response),
    /// returns (C, R) such that C is the stored witness for y and R is a
    /// long-term signature of the user's public key.  Refused when no
    /// witness is stored, when the Schnorr check fails, or when the
    /// identifier shifted by the signing secret degenerates to zero.
    pub fn witness(
        &self,
        params: &AccParams,
        y: &UserID,
        challenge: &Element,
        response: &Element,
        user_pub_key: &[u8; 48],
    ) -> (r: Option<(MembershipWitness, [u8; 48])>)
        requires
            self.wf(),
            params.wf(),
            y.wf(),
            challenge.wf(),
            response.wf(),
            g1_valid_of(user_pub_key@),
        ensures
            r is Some <==> self.has_wit(*y) && schnorr_ok(
                params.s_k1(),
                user_pub_key@,
                challenge@,
                response@,
            ) && add_q(y@, self.sign_secret()) != 0,
            r is Some ==> ({
                let (wit, signature) = r.unwrap();
                &&& exists|i: int|
                    0 <= i < self.wits().len() && (#[trigger] self.wits()[i]).0@ == y@ && wit
                        == self.wits()[i].1
                &&& signature@ == g1_mul_of(
                    g1_add_of(user_pub_key@, params.s_k0()),
                    inv_q(add_q(y@, self.sign_secret())),
                )
                &&& g1_valid_of(signature@)
                &&& wit.wf()
            }),
    {
        let idx = match self.find_wit(y) {
            Some(i) => i,
            None => {
                return None;
            }
        };
        // Check the Schnorr proof that the user knows a secret key for
        // this public key.
        let k1 = params.get_k1();
        let commitment = crate::group::g1_add(
            &crate::group::g1_mul(&k1, response),
            &crate::group::g1_mul(user_pub_key, challenge),
        );
        let mut transcript = crate::transcript::ts_new(
            vstd::array::array_as_slice(&L_USER_SIGNATURE_PROOF),
        );
        crate::transcript::ts_append(
            &mut transcript,
            vstd::array::array_as_slice(&L_USER_PUB_KEY),
            vstd::array::array_as_slice(user_pub_key),
        );
        crate::transcript::ts_append(
            &mut transcript,
            vstd::array::array_as_slice(&L_COMMITMENT),
            vstd::array::array_as_slice(&commitment),
        );
        let check = Element::from_transcript(
            vstd::array::array_as_slice(&L_CHALLENGE),
            &mut transcript,
        );
        proof {
            assert(Seq::<(Seq<u8>, Seq<u8>)>::empty().push(
                (L_USER_PUB_KEY@, user_pub_key@),
            ).push((L_COMMITMENT@, commitment@)) =~= seq![
                (L_USER_PUB_KEY@, user_pub_key@),
                (L_COMMITMENT@, commitment@),
            ]);
        }
        if !check.eq_elem(challenge) {
            return None;
        }
        // Look up the stored witness and sign y and (user_pub_key + K0)
        // with the signing secret key.
        let acc_witness = self.all_witnesses[idx].1;
        let shifted = crate::field::sc_add(y, &self.sign_secret_key.0);
        let inv = match crate::field::sc_invert(&shifted) {
            Some(v) => v,
            None => {
                return None;
            }
        };
        proof {
            lemma_inv_unique(shifted@, inv@);
        }
        let k0 = params.get_k0();
        let signature = crate::group::g1_mul(&crate::group::g1_add(user_pub_key, &k0), &inv);
        Some((acc_witness, signature))
    }

    /// Given shares of the powers of a user's identifier, evaluate the
    /// deletion windows since the user's epoch: for each window of
    /// `y_shares.len()` deletions this returns the share-evaluation of the
    /// product of (deletion − y), and the combination of the bridged
    /// accumulators against the shares of the window's partial products.
    /// The two returned vectors can each be used as C ← (C − W)·(1/d).
    /// A request spanning more epochs than the deletion log is answered
    /// with empty vectors.
    pub fn update(&self, num_epochs: usize, y_shares: &[Element]) -> (r: (
        Vec<Element>,
        Vec<[u8; 48]>,
    ))
        requires
            self.wf(),
            1 <= y_shares@.len(),
            crate::field::all_wf(y_shares@),
            self.dels().len() + y_shares@.len() < usize::MAX,
        ensures
            num_epochs > self.dels().len() ==> r.0@.len() == 0 && r.1@.len() == 0,
            num_epochs <= self.dels().len() ==> ({
                let dvs = seq_vals(self.dels());
                let shvs = seq_vals(y_shares@);
                let step = y_shares@.len() as int;
                let d = num_epochs as int;
                let n_del = self.dels().len() as int;
                let start = n_del - d;
                let astart = self.accs().len() - d;
                let count = num_chunks(d, step);
                &&& r.0@.len() == count
                &&& r.1@.len() == count
                &&& crate::field::all_wf(r.0@)
                &&& forall|j: int| 0 <= j < count ==> g1_valid_of((#[trigger] r.1@[j])@)
                &&& forall|j: int|
                    0 <= j < count ==> ({
                        let lo = start + j * step;
                        let hi = if lo + step <= n_del {
                            lo + step
                        } else {
                            n_del
                        };
                        (#[trigger] r.0@[j])@ == share_eval(lin_prod(dvs.subrange(lo, hi)), shvs)
                    })
                &&& forall|j: int|
                    0 <= j < count ==> ({
                        let lo = start + j * step;
                        let hi = if lo + step <= n_del {
                            lo + step
                        } else {
                            n_del
                        };
                        (#[trigger] r.1@[j])@ == acc_combo(
                            accs_views(self.accs()),
                            astart + j * step,
                            chunk_evals(dvs, lo, hi - lo, shvs),
                            hi - lo,
                        )
                    })
            }),
    {
        let ghost dvs = seq_vals(self.dels());
        let ghost shvs = seq_vals(y_shares@);
        let n_del = self.deletions.len();
        let n_acc = self.accumulators.len();
        let step = y_shares.len();

        // A request over more epochs than the server retains.
        if num_epochs > n_del {
            return (Vec::new(), Vec::new());
        }

        let ghost d = num_epochs as int;
        let ghost start = n_del - d;
        let ghost astart = n_acc - d;
        let ghost count = num_chunks(d, step as int);

        let mut ds: Vec<Element> = Vec::new();
        let mut vs: Vec<[u8; 48]> = Vec::new();
        let mut del_start: usize = n_del - num_epochs;
        let mut acc_start: usize = n_acc - num_epochs;

        while del_start < n_del
            invariant
                self.wf(),
                1 <= step == y_shares@.len(),
                crate::field::all_wf(y_shares@),
                dvs == seq_vals(self.dels()),
                shvs == seq_vals(y_shares@),
                n_del == self.dels().len(),
                n_acc == self.accs().len(),
                n_del + step < usize::MAX,
                num_epochs <= n_del,
                d == num_epochs as int,
                start == n_del - d,
                astart == n_acc - d,
                count == num_chunks(d, step as int),
                ds@.len() == vs@.len(),
                del_start == start + ds@.len() * step,
                acc_start == astart + ds@.len() * step,
                del_start <= n_del + step,
                count == ds@.len() + num_chunks(n_del - del_start, step as int),
                crate::field::all_wf(ds@),
                forall|j: int| 0 <= j < vs@.len() ==> g1_valid_of((#[trigger] vs@[j])@),
                forall|j: int|
                    0 <= j < ds@.len() ==> ({
                        let lo = start + j * step;
                        let hi = if lo + step <= n_del {
                            lo + step
                        } else {
                            n_del as int
                        };
                        (#[trigger] ds@[j])@ == share_eval(lin_prod(dvs.subrange(lo, hi)), shvs)
                    }),
                forall|j: int|
                    0 <= j < vs@.len() ==> ({
                        let lo = start + j * step;
                        let hi = if lo + step <= n_del {
                            lo + step
                        } else {
                            n_del as int
                        };
                        (#[trigger] vs@[j])@ == acc_combo(
                            accs_views(self.accs()),
                            astart + j * step,
                            chunk_evals(dvs, lo, hi - lo, shvs),
                            hi - lo,
                        )
                    }),
            decreases n_del + step - del_start,
        {
            let lo = del_start;
            let hi = if lo + step <= n_del {
                lo + step
            } else {
                n_del
            };
            let cnt = hi - lo;

            // Build the window polynomial, evaluating each partial product
            // against the power shares as it grows.
            let mut d_poly = Polynomial::new();
            d_poly.push(Element::one());
            proof {
                assert(d_poly@ =~= lin_prod(dvs.subrange(lo as int, lo as int)));
            }
            let mut evals: Vec<Element> = Vec::new();
            let mut i: usize = 0;
            while i < cnt
                invariant
                    self.wf(),
                    1 <= step == y_shares@.len(),
                    crate::field::all_wf(y_shares@),
                    dvs == seq_vals(self.dels()),
                    shvs == seq_vals(y_shares@),
                    n_del == self.dels().len(),
                    lo + cnt <= n_del,
                    cnt <= step,
                    step < usize::MAX,
                    0 <= i <= cnt,
                    d_poly.wf(),
                    d_poly@ == lin_prod(dvs.subrange(lo as int, lo + i)),
                    d_poly@.len() == i + 1,
                    evals@.len() == i,
                    crate::field::all_wf(evals@),
                    forall|ii: int|
                        0 <= ii < i ==> (#[trigger] evals@[ii])@ == share_eval(
                            lin_prod(dvs.subrange(lo as int, lo + ii)),
                            shvs,
                        ),
                decreases cnt - i,
            {
                proof {
                    crate::accumulator::key::lemma_lin_prod_len(dvs.subrange(lo as int, lo + i));
                }
                evals.push(share_eval_exec(&d_poly, y_shares));
                proof {
                    assert(dvs[lo + i] == self.dels()[lo + i]@);
                }
                d_poly.mul_linear(&self.deletions[lo + i]);
                proof {
                    assert(dvs.subrange(lo as int, lo + i + 1).drop_last() =~= dvs.subrange(
                        lo as int,
                        lo + i,
                    ));
                    assert(dvs.subrange(lo as int, lo + i + 1).last() == dvs[lo + i]);
                }
                i += 1;
            }

            // The share-evaluation of the whole window polynomial.
            proof {
                crate::accumulator::key::lemma_lin_prod_len(dvs.subrange(lo as int, hi as int));
            }
            let d_val = share_eval_exec(&d_poly, y_shares);
            ds.push(d_val);

            // Combine the bridged accumulators against the evaluations.
            let mut v_point = crate::group::g1_identity();
            let mut i: usize = 0;
            while i < cnt
                invariant
                    self.wf(),
                    n_acc == self.accs().len(),
                    acc_start + cnt <= n_acc,
                    0 <= i <= cnt,
                    evals@.len() == cnt,
                    crate::field::all_wf(evals@),
                    g1_valid_of(v_point@),
                    v_point@ == acc_combo(
                        accs_views(self.accs()),
                        acc_start as int,
                        seq_vals(evals@),
                        i as int,
                    ),
                decreases cnt - i,
            {
                proof {
                    assert(accs_views(self.accs())[acc_start + i] == self.accs()[acc_start
                        + i]@);
                    assert(seq_vals(evals@)[i as int] == evals@[i as int]@);
                }
                let ab = self.accumulators[acc_start + i].to_bytes();
                let term = crate::group::g1_mul(&ab, &evals[i]);
                v_point = crate::group::g1_add(&v_point, &term);
                i += 1;
            }
            proof {
                assert(seq_vals(evals@) =~= chunk_evals(dvs, lo as int, cnt as int, shvs));
            }
            vs.push(v_point);

            let ghost j = ds@.len() - 1;
            let ghost rem = n_del - del_start;
            del_start += step;
            acc_start += step;
            proof {
                assert((j + 1) * step == j * step + step) by (nonlinear_arith);
                assert(rem > 0);
                if rem - step > 0 {
                    assert(num_chunks(rem, step as int) == 1 + num_chunks(
                        rem - step,
                        step as int,
                    ));
                } else {
                    assert(num_chunks(rem, step as int) == 1 + num_chunks(0, step as int));
                    assert(num_chunks(0, step as int) == 0);
                    assert(num_chunks(rem - step, step as int) == 0);
                }
            }
        }
        proof {
            assert(num_chunks(n_del - del_start, step as int) == 0);
        }
        (ds, vs)
    }

    /// The latest epoch of the accumulator
    pub fn get_epoch(&self) -> (r: usize)
        ensures
            r == self.accs().len(),
    {
        self.accumulators.len()
    }

    /// Get the most recent accumulator
    pub fn get_accumulator(&self) -> (r: Accumulator)
        requires
            self.wf(),
        ensures
            r == self.accs().last(),
            r.wf(),
    {
        self.accumulators[self.accumulators.len() - 1]
    }

    /// Get the witness public key
    pub fn get_witness_public_key(&self) -> (r: PublicKey)
        ensures
            r == self.keys().witness_key,
    {
        self.public_keys.witness_key
    }

    /// Get the signing public key
    pub fn get_sign_public_key(&self) -> (r: PublicKey)
        ensures
            r == self.keys().sign_key,
    {
        self.public_keys.sign_key
    }

    /// Get the public keys
    pub fn get_public_keys(&self) -> (r: PublicKeys)
        ensures
            r == self.keys(),
    {
        self.public_keys
    }
}

} // verus!
