//! A user: an identifier, its witness bundle, and the client side of the
//! threshold witness-update protocol: Shamir-masked queries over the powers
//! of the identifier, and reassembly of the answers into a fresh witness.

use crate::accumulator::key::SecretKey;
use crate::accumulator::witness::pow_q;
use crate::accumulator::{Accumulator, MembershipWitness};
use crate::error::Error;
use crate::field::{all_wf, inv_q, lemma_inv_unique, mul_q, seq_vals, Element};
use crate::group::{g1_mul_of, g1_sub_of, g1_valid_of};
use crate::polynomial::{poly_eval, poly_wf};
use crate::servers::Server;
use crate::shamir::{
    check0_partial, check_coeff, check_dot_q, dot_q, g1_check_dot, g1_dot, lagrange_coeff,
    point_share_vals, point_shares_wf, shamir_points_ok, share_vals, share_xs, shares_wf,
};
use crate::transcript::{L_CHALLENGE, L_COMMITMENT, L_USER_PUB_KEY, L_USER_SIGNATURE_PROOF};
use crate::utils::{AccParams, PublicKeys, UserID};
use crate::witness::{MembershipProof, Witness};
use vstd::prelude::*;

verus! {

/// A user update message
#[derive(Clone, Debug)]
pub struct UserUpdate {
    /// The difference in epochs between the user's witness and the servers
    pub epoch_diff: usize,
    /// The secret shares of the powers of the user's ID, one row per server
    pub y_shares: Vec<Vec<Element>>,
    /// The evaluation points tagging each server's shares
    pub y_values: Vec<Element>,
}

/// Share row `j` across the servers carries a (threshold)-sharing of the
/// secret: some polynomial with the secret as constant term, evaluated at
/// the points 1, 2, ....
pub open spec fn power_shared(
    y_shares: Seq<Vec<Element>>,
    num_servers: int,
    j: int,
    threshold: int,
    secret: nat,
) -> bool {
    exists|coeffs: Seq<nat>|
        coeffs.len() == threshold && poly_wf(coeffs) && coeffs[0] == secret && forall|s: int|
            0 <= s < num_servers ==> (#[trigger] y_shares[s])@[j]@ == poly_eval(
                coeffs,
                (s + 1) as nat,
            )
}

/// Power list `jj` carries a (threshold)-sharing of the secret across the
/// servers: some polynomial with the secret as constant term, evaluated at
/// the points 1, 2, ....
pub open spec fn power_list_shared(
    power_shares: Seq<Vec<(Element, Element)>>,
    num_servers: int,
    jj: int,
    threshold: int,
    secret: nat,
) -> bool {
    exists|coeffs: Seq<nat>|
        coeffs.len() == threshold && poly_wf(coeffs) && coeffs[0] == secret && forall|s: int|
            0 <= s < num_servers ==> (#[trigger] power_shares[jj]@[s]).1@ == poly_eval(
                coeffs,
                (s + 1) as nat,
            )
}

/// The scalar shares of chunk `j` as reported by the servers: the server's
/// tag point paired with its evaluation.
pub open spec fn d_shares_at(
    dvs: Seq<(Vec<Element>, Vec<[u8; 48]>)>,
    y_values: Seq<Element>,
    num: int,
    j: int,
) -> Seq<(Element, Element)> {
    Seq::new(num as nat, |s: int| (y_values[s], dvs[s].0@[j]))
}

/// The point shares of chunk `j` as reported by the servers.
pub open spec fn v_shares_at(
    dvs: Seq<(Vec<Element>, Vec<[u8; 48]>)>,
    y_values: Seq<Element>,
    num: int,
    j: int,
) -> Seq<(Element, [u8; 48])> {
    Seq::new(num as nat, |s: int| (y_values[s], dvs[s].1@[j]))
}

/// The Lagrange coefficients over the first `t` tag points.
pub open spec fn lag_coeffs(xs: Seq<nat>, t: int) -> Seq<nat> {
    Seq::new(t as nat, |i: int| lagrange_coeff(xs, t, i))
}

/// The reconstructed scalar of chunk `j`.
pub open spec fn chunk_d(
    dvs: Seq<(Vec<Element>, Vec<[u8; 48]>)>,
    y_values: Seq<Element>,
    num: int,
    t: int,
    j: int,
) -> nat {
    dot_q(
        share_vals(d_shares_at(dvs, y_values, num, j)),
        lag_coeffs(share_xs(d_shares_at(dvs, y_values, num, 0)), t),
    )
}

/// The reconstructed point of chunk `j`.
pub open spec fn chunk_v(
    dvs: Seq<(Vec<Element>, Vec<[u8; 48]>)>,
    y_values: Seq<Element>,
    num: int,
    t: int,
    j: int,
) -> Seq<u8> {
    g1_dot(
        point_share_vals(v_shares_at(dvs, y_values, num, j)),
        lag_coeffs(share_xs(d_shares_at(dvs, y_values, num, 0)), t),
    )
}

/// The check-coefficient values derived from the first `t` tag points and
/// the extra tag point at index `t`.
pub open spec fn check_vals(xs: Seq<nat>, t: int) -> Seq<nat> {
    Seq::new(
        t as nat,
        |i: int|
            if i == 0 {
                check0_partial(xs, t, t)
            } else {
                check_coeff(xs, t, i)
            },
    )
}

/// Chunk `j`'s scalar reconstruction agrees with its rebuilding through the
/// extra check share; trivially so when no extra share is carried.
pub open spec fn chunk_scalar_ok(
    dvs: Seq<(Vec<Element>, Vec<[u8; 48]>)>,
    y_values: Seq<Element>,
    num: int,
    t: int,
    j: int,
) -> bool {
    num > t ==> chunk_d(dvs, y_values, num, t, j) == check_dot_q(
        d_shares_at(dvs, y_values, num, j),
        check_vals(share_xs(d_shares_at(dvs, y_values, num, 0)), t),
        t,
    )
}

/// Chunk `j`'s point reconstruction agrees with its rebuilding through the
/// extra check share; trivially so when no extra share is carried.
pub open spec fn chunk_point_ok(
    dvs: Seq<(Vec<Element>, Vec<[u8; 48]>)>,
    y_values: Seq<Element>,
    num: int,
    t: int,
    j: int,
) -> bool {
    num > t ==> chunk_v(dvs, y_values, num, t, j) == g1_check_dot(
        v_shares_at(dvs, y_values, num, j),
        check_vals(share_xs(d_shares_at(dvs, y_values, num, 0)), t),
        t,
    )
}

/// The whole response reassembles: either there is nothing to bridge, or
/// the tag points admit the coefficients and every chunk passes both
/// validity checks and rebuilds to a non-zero scalar.
pub open spec fn responses_ok(
    dvs: Seq<(Vec<Element>, Vec<[u8; 48]>)>,
    y_values: Seq<Element>,
    num: int,
    t: int,
) -> bool {
    let n_chunks = dvs[0].0@.len() as int;
    let xs = share_xs(d_shares_at(dvs, y_values, num, 0));
    n_chunks == 0 || (shamir_points_ok(xs, t, num > t) && forall|j: int|
        0 <= j < n_chunks ==> #[trigger] chunk_scalar_ok(dvs, y_values, num, t, j)
            && chunk_d(dvs, y_values, num, t, j) != 0 && chunk_point_ok(dvs, y_values, num, t, j))
}

/// The reassembly stops at chunk `j` as a deletion: every earlier chunk
/// passed whole, and chunk `j` passes its scalar check but rebuilds to
/// zero — the user's identifier was among that window's deletions.
pub open spec fn deleted_at(
    dvs: Seq<(Vec<Element>, Vec<[u8; 48]>)>,
    y_values: Seq<Element>,
    num: int,
    t: int,
    j: int,
) -> bool {
    &&& forall|jj: int|
        0 <= jj < j ==> #[trigger] chunk_scalar_ok(dvs, y_values, num, t, jj) && chunk_d(
            dvs,
            y_values,
            num,
            t,
            jj,
        ) != 0 && chunk_point_ok(dvs, y_values, num, t, jj)
    &&& chunk_scalar_ok(dvs, y_values, num, t, j)
    &&& chunk_d(dvs, y_values, num, t, j) == 0
}

/// The witness after folding the first `n` chunks: each chunk rewrites
/// C to (C − v)·d⁻¹.
pub open spec fn apply_chunks(
    c: Seq<u8>,
    dvs: Seq<(Vec<Element>, Vec<[u8; 48]>)>,
    y_values: Seq<Element>,
    num: int,
    t: int,
    n: int,
) -> Seq<u8>
    decreases n,
{
    if n <= 0 {
        c
    } else {
        g1_mul_of(
            g1_sub_of(
                apply_chunks(c, dvs, y_values, num, t, n - 1),
                chunk_v(dvs, y_values, num, t, n - 1),
            ),
            inv_q(chunk_d(dvs, y_values, num, t, n - 1)),
        )
    }
}

/// The data a user needs to track
#[derive(Clone, Debug)]
pub struct User {
    /// ID value y
    pub id: UserID,
    /// Wrapper type for (x, C, R_m)
    pub witness: Option<Witness>,
    /// Latest accumulator for the witness
    pub accumulator: Accumulator,
    /// The accumulator's public keys
    pub public_keys: PublicKeys,
    /// the epoch when the witness was last known to be valid
    pub epoch: usize,
}

impl User {
    /// The user's scalars are canonical and its points valid.
    pub open spec fn wf(&self) -> bool {
        &&& self.id.wf()
        &&& self.witness matches Some(w) ==> w.wf()
        &&& self.accumulator.wf()
        &&& self.public_keys.wf()
    }

    /// New "empty" user
    pub fn new(server: &Server, id: UserID) -> (r: User)
        requires
            server.wf(),
            id.wf(),
        ensures
            r.wf(),
            r.id == id,
            r.witness is None,
            r.accumulator == server.accs().last(),
            r.public_keys == server.keys(),
            r.epoch == server.accs().len(),
    {
        User {
            id,
            witness: None,
            accumulator: server.get_accumulator(),
            public_keys: server.get_public_keys(),
            epoch: server.get_epoch(),
        }
    }

    /// Generates a random user and uses the secret keys provided to create
    /// a witness for the new random user.  Fails only on the negligible
    /// collisions where a shifted identifier is zero.
    pub fn random(
        alpha: &SecretKey,
        s: &SecretKey,
        acc_params: &AccParams,
        accumulator: Accumulator,
        public_keys: PublicKeys,
        epoch: usize,
    ) -> (r: Option<User>)
        requires
            alpha.wf(),
            s.wf(),
            acc_params.wf(),
            accumulator.wf(),
            public_keys.wf(),
        ensures
            r is Some ==> ({
                let u = r.unwrap();
                &&& u.wf()
                &&& u.witness is Some
                &&& u.accumulator == accumulator
                &&& u.public_keys == public_keys
                &&& u.epoch == epoch
            }),
    {
        let id = Element::random();
        let long_term_secret = Element::random();
        let shifted = crate::field::sc_add(&s.0, &id);
        let inv = match crate::field::sc_invert(&shifted) {
            Some(v) => v,
            None => {
                return None;
            }
        };
        let k1 = acc_params.get_k1();
        let k0 = acc_params.get_k0();
        let signature = crate::group::g1_mul(
            &crate::group::g1_add(&crate::group::g1_mul(&k1, &long_term_secret), &k0),
            &inv,
        );
        let wit = match MembershipWitness::new(id, accumulator, alpha) {
            Some(w) => w,
            None => {
                return None;
            }
        };
        Some(
            User {
                id,
                witness: Some(
                    Witness { signature, witness: wit, secret_key: SecretKey(long_term_secret) },
                ),
                accumulator,
                public_keys,
                epoch,
            },
        )
    }

    /// Get the accumulator for this user
    pub fn get_accumulator(&self) -> (r: Accumulator)
        ensures
            r == self.accumulator,
    {
        self.accumulator
    }

    /// Get the ID for this user
    pub fn get_id(&self) -> (r: UserID)
        ensures
            r == self.id,
    {
        self.id
    }

    /// Creates a new witness for the user: generate a fresh long-term
    /// secret, prove knowledge of it by Schnorr, and ask the given server
    /// for a witness and long-term signature.  On refusal by the server the
    /// user is left unchanged.
    pub fn create_witness(&mut self, params: &AccParams, server: &Server)
        requires
            old(self).wf(),
            params.wf(),
            server.wf(),
        ensures
            final(self).wf(),
            final(self).id == old(self).id,
            final(self).public_keys == old(self).public_keys,
            *final(self) == *old(self) || (final(self).witness is Some && final(self).epoch
                == server.accs().len() && final(self).accumulator == server.accs().last()),
            !server.has_wit(old(self).id) ==> *final(self) == *old(self),
            *final(self) != *old(self) ==> server.has_wit(old(self).id) && final(self).witness
                is Some && exists|i: int|
                0 <= i < server.wits().len() && (#[trigger] server.wits()[i]).0@ == old(self).id@
                    && final(self).witness.unwrap().witness == server.wits()[i].1,
    {
        let key = SecretKey::new(None);
        let k1 = params.get_k1();
        let user_pub_key = crate::group::g1_mul(&k1, &key.0);
        // Create a Schnorr proof of knowledge of the new secret.
        let k = Element::random();
        let k_point = crate::group::g1_mul(&k1, &k);
        let mut transcript = crate::transcript::ts_new(
            vstd::array::array_as_slice(&L_USER_SIGNATURE_PROOF),
        );
        crate::transcript::ts_append(
            &mut transcript,
            vstd::array::array_as_slice(&L_USER_PUB_KEY),
            vstd::array::array_as_slice(&user_pub_key),
        );
        crate::transcript::ts_append(
            &mut transcript,
            vstd::array::array_as_slice(&L_COMMITMENT),
            vstd::array::array_as_slice(&k_point),
        );
        let challenge = Element::from_transcript(
            vstd::array::array_as_slice(&L_CHALLENGE),
            &mut transcript,
        );
        let response = crate::field::sc_sub(&k, &crate::field::sc_mul(&challenge, &key.0));
        // Send the Schnorr proof and the ID to the server.
        match server.witness(params, &self.id, &challenge, &response, &user_pub_key) {
            Some((witness, signature)) => {
                self.witness = Some(Witness { secret_key: key, witness, signature });
                self.epoch = server.get_epoch();
                self.accumulator = server.get_accumulator();
                proof {
                    let i = choose|i: int|
                        0 <= i < server.wits().len() && (#[trigger] server.wits()[i]).0@
                            == old(self).id@ && witness == server.wits()[i].1;
                    assert(0 <= i < server.wits().len() && server.wits()[i].0@ == old(self).id@
                        && self.witness.unwrap().witness == server.wits()[i].1);
                }
            }
            None => {}
        }
    }

    /// Prepares the secret shares that will be sent to each server during
    /// the threshold update: choose a window size k, form the powers
    /// y, ..., y^(k−1), and split each power into one Shamir share per
    /// server.  Refused exactly when the threshold exceeds the number of
    /// servers or is one or less.
    pub fn prepare_for_update(&self, new_epoch: usize, num_servers: usize, threshold: usize) -> (r:
        Result<UserUpdate, Error>)
        requires
            self.wf(),
            new_epoch >= self.epoch,
            new_epoch - self.epoch < usize::MAX / 256,
            num_servers < u64::MAX,
        ensures
            r is Err <==> num_servers < threshold || threshold <= 1,
            r is Err ==> r == Result::<UserUpdate, Error>::Err(Error::InvalidThreshold),
            r is Ok ==> ({
                let u = r.unwrap();
                &&& u.epoch_diff == new_epoch - self.epoch
                &&& u.y_values@.len() == num_servers
                &&& forall|s: int|
                    0 <= s < num_servers ==> (#[trigger] u.y_values@[s])@ == s + 1
                        && u.y_values@[s].wf()
                &&& u.y_shares@.len() == num_servers
                &&& u.y_shares@[0]@.len() >= 1
                &&& u.y_shares@[0]@.len() <= 5 * (new_epoch - self.epoch) + 5
                &&& forall|s: int|
                    0 <= s < num_servers ==> (#[trigger] u.y_shares@[s])@.len() == u.y_shares@[0]@.len()
                &&& forall|s: int| 0 <= s < num_servers ==> all_wf((#[trigger] u.y_shares@[s])@)
                &&& forall|j: int|
                    0 <= j < u.y_shares@[0]@.len() ==> #[trigger] power_shared(
                        u.y_shares@,
                        num_servers as int,
                        j,
                        threshold as int,
                        pow_q(self.id@, (j + 1) as nat),
                    )
            }),
    {
        if num_servers < threshold {
            return Err(Error::InvalidThreshold);
        }
        if threshold <= 1 {
            return Err(Error::InvalidThreshold);
        }

        let d = new_epoch - self.epoch;

        // Window size: balance the request against the response, biasing
        // toward fewer responses, and never below two.
        let mut k: usize = 2;
        while 2 * k < 5 * ((d + k - 1) / k)
            invariant
                d < usize::MAX / 32,
                2 <= k,
                k <= 5 * d + 5,
            decreases 5 * d + 10 - 2 * k,
        {
            proof {
                let ki = k as int;
                let di = d as int;
                assert((di + ki - 1) / ki <= di + 1) by {
                    assert(di + ki - 1 <= (di + 1) * ki) by (nonlinear_arith)
                        requires
                            ki >= 1,
                            di >= 0,
                    ;
                    vstd::arithmetic::div_mod::lemma_div_is_ordered(
                        di + ki - 1,
                        (di + 1) * ki,
                        ki,
                    );
                    vstd::arithmetic::div_mod::lemma_div_by_multiple(di + 1, ki);
                }
            }
            k += 1;
        }

        // One sharing per power of the identifier.
        let mut power_shares: Vec<Vec<(Element, Element)>> = Vec::new();
        let mut y_power = self.id;
        proof {
            crate::field::lemma_mul_q_one_right(self.id@);
            assert(pow_q(self.id@, 1) == mul_q(pow_q(self.id@, 0), self.id@));
        }
        let mut j: usize = 0;
        while j < k - 1
            invariant
                self.wf(),
                2 <= k,
                2 <= threshold <= num_servers,
                num_servers < u64::MAX,
                0 <= j <= k - 1,
                y_power.wf(),
                y_power@ == pow_q(self.id@, (j + 1) as nat),
                power_shares@.len() == j,
                forall|jj: int|
                    0 <= jj < j ==> (#[trigger] power_shares@[jj])@.len() == num_servers,
                forall|jj: int| 0 <= jj < j ==> shares_wf((#[trigger] power_shares@[jj])@),
                forall|jj: int, s: int|
                    0 <= jj < j && 0 <= s < num_servers ==> (#[trigger] power_shares@[jj]@[s]).0@
                        == s + 1,
                forall|jj: int|
                    0 <= jj < j ==> #[trigger] power_list_shared(
                        power_shares@,
                        num_servers as int,
                        jj,
                        threshold as int,
                        pow_q(self.id@, (jj + 1) as nat),
                    ),
            decreases k - 1 - j,
        {
            let shares = crate::shamir::shamir_share(threshold, num_servers, y_power);
            let ghost prev = power_shares@;
            power_shares.push(shares);
            let next_power = crate::field::sc_mul(&y_power, &self.id);
            proof {
                assert(pow_q(self.id@, (j + 2) as nat) == mul_q(
                    pow_q(self.id@, (j + 1) as nat),
                    self.id@,
                ));
            }
            proof {
                let coeffs = choose|c: Seq<nat>|
                    crate::shamir::is_sharing_of(
                        shares@,
                        c,
                        threshold as int,
                        num_servers as int,
                        y_power@,
                    );
                assert(coeffs.len() == threshold && poly_wf(coeffs) && coeffs[0] == pow_q(
                    self.id@,
                    (j + 1) as nat,
                ) && forall|s: int|
                    0 <= s < num_servers ==> (#[trigger] shares@[s]).1@ == poly_eval(
                        coeffs,
                        (s + 1) as nat,
                    ));
                assert(power_shares@[j as int] == shares);
                assert(power_list_shared(
                    power_shares@,
                    num_servers as int,
                    j as int,
                    threshold as int,
                    pow_q(self.id@, (j + 1) as nat),
                ));
                assert forall|jj: int| 0 <= jj < j implies #[trigger] power_list_shared(
                    power_shares@,
                    num_servers as int,
                    jj,
                    threshold as int,
                    pow_q(self.id@, (jj + 1) as nat),
                ) by {
                    assert(power_list_shared(
                        prev,
                        num_servers as int,
                        jj,
                        threshold as int,
                        pow_q(self.id@, (jj + 1) as nat),
                    ));
                    let c2 = choose|c: Seq<nat>|
                        c.len() == threshold && poly_wf(c) && c[0] == pow_q(
                            self.id@,
                            (jj + 1) as nat,
                        ) && forall|s: int|
                            0 <= s < num_servers ==> (#[trigger] prev[jj]@[s]).1@ == poly_eval(
                                c,
                                (s + 1) as nat,
                            );
                    assert(power_shares@[jj] == prev[jj]);
                    assert forall|s: int| 0 <= s < num_servers implies (
                    #[trigger] power_shares@[jj]@[s]).1@ == poly_eval(c2, (s + 1) as nat) by {
                        assert((prev[jj]@[s]).1@ == poly_eval(c2, (s + 1) as nat));
                    }
                }
            }
            y_power = next_power;
            j += 1;
        }

        // Transpose into one row of shares per server, tagged by the
        // server's evaluation point.
        let mut y_values: Vec<Element> = Vec::new();
        let mut y_shares: Vec<Vec<Element>> = Vec::new();
        let mut s: usize = 0;
        while s < num_servers
            invariant
                2 <= k,
                num_servers < u64::MAX,
                power_shares@.len() == k - 1,
                forall|jj: int|
                    0 <= jj < k - 1 ==> (#[trigger] power_shares@[jj])@.len() == num_servers,
                forall|jj: int| 0 <= jj < k - 1 ==> shares_wf((#[trigger] power_shares@[jj])@),
                forall|jj: int, ss: int|
                    0 <= jj < k - 1 && 0 <= ss < num_servers ==> (
                    #[trigger] power_shares@[jj]@[ss]).0@ == ss + 1,
                0 <= s <= num_servers,
                y_values@.len() == s,
                forall|ss: int|
                    0 <= ss < s ==> (#[trigger] y_values@[ss])@ == ss + 1 && y_values@[ss].wf(),
                y_shares@.len() == s,
                forall|ss: int| 0 <= ss < s ==> (#[trigger] y_shares@[ss])@.len() == k - 1,
                forall|ss: int| 0 <= ss < s ==> all_wf((#[trigger] y_shares@[ss])@),
                forall|ss: int, jj: int|
                    0 <= ss < s && 0 <= jj < k - 1 ==> #[trigger] y_shares@[ss]@[jj]
                        == power_shares@[jj]@[ss].1,
            decreases num_servers - s,
        {
            y_values.push(Element::from_u64((s as u64) + 1));
            let mut row: Vec<Element> = Vec::new();
            let mut j: usize = 0;
            while j < k - 1
                invariant
                    2 <= k,
                    s < num_servers,
                    power_shares@.len() == k - 1,
                    forall|jj: int|
                        0 <= jj < k - 1 ==> (#[trigger] power_shares@[jj])@.len() == num_servers,
                    forall|jj: int| 0 <= jj < k - 1 ==> shares_wf((#[trigger] power_shares@[jj])@),
                    0 <= j <= k - 1,
                    row@.len() == j,
                    all_wf(row@),
                    forall|jj: int|
                        0 <= jj < j ==> (#[trigger] row@[jj]) == power_shares@[jj]@[s as int].1,
                decreases k - 1 - j,
            {
                row.push(power_shares[j][s].1);
                j += 1;
            }
            y_shares.push(row);
            s += 1;
        }

        let ghost id_v = self.id@;
        proof {
            assert forall|j2: int|
                0 <= j2 < y_shares@[0]@.len() implies #[trigger] power_shared(
                y_shares@,
                num_servers as int,
                j2,
                threshold as int,
                pow_q(id_v, (j2 + 1) as nat),
            ) by {
                assert(y_shares@[0]@.len() == k - 1);
                assert(power_list_shared(
                    power_shares@,
                    num_servers as int,
                    j2,
                    threshold as int,
                    pow_q(id_v, (j2 + 1) as nat),
                ));
                let coeffs = choose|c: Seq<nat>|
                    c.len() == threshold && poly_wf(c) && c[0] == pow_q(id_v, (j2 + 1) as nat)
                        && forall|ss: int|
                        0 <= ss < num_servers ==> (#[trigger] power_shares@[j2]@[ss]).1@
                            == poly_eval(c, (ss + 1) as nat);
                assert forall|ss: int| 0 <= ss < num_servers implies (
                #[trigger] y_shares@[ss])@[j2]@ == poly_eval(coeffs, (ss + 1) as nat) by {
                    assert(y_shares@[ss]@[j2] == power_shares@[j2]@[ss].1);
                }
            }
        }
        Ok(UserUpdate { epoch_diff: d, y_shares, y_values })
    }

    /// Check whether the chunk counts the servers returned are consistent.
    fn consistent_chunks(dvs: &[(Vec<Element>, Vec<[u8; 48]>)], num: usize) -> (r: bool)
        requires
            num <= dvs@.len(),
            num >= 1,
        ensures
            r == (forall|i: int|
                0 <= i < num ==> (#[trigger] dvs@[i]).0@.len() == dvs@[0].0@.len() && dvs@[i].1@.len() == dvs@[0].0@.len()),
    {
        let n_chunks = dvs[0].0.len();
        let mut i: usize = 0;
        while i < num
            invariant
                num <= dvs@.len(),
                n_chunks == dvs@[0].0@.len(),
                0 <= i <= num,
                forall|ii: int|
                    0 <= ii < i ==> (#[trigger] dvs@[ii]).0@.len() == n_chunks && dvs@[ii].1@.len() == n_chunks,
            decreases num - i,
        {
            if dvs[i].0.len() != n_chunks || dvs[i].1.len() != n_chunks {
                return false;
            }
            i += 1;
        }
        true
    }

    /// Finalizes an update from the servers' responses: reassemble each
    /// chunk's shares, reconstruct the scalar and point with one set of
    /// Lagrange coefficients, and rewrite the witness chunk by chunk as
    /// C ← (C − v)·d⁻¹.  A zero scalar chunk means the user was deleted; a
    /// failed validity check or degenerate tag points signal a malicious
    /// server.
    pub fn post_update(
        &self,
        old_witness: MembershipWitness,
        threshold: usize,
        y_shares: &[Vec<Element>],
        y_values: &[Element],
        dvs: &[(Vec<Element>, Vec<[u8; 48]>)],
    ) -> (r: Result<MembershipWitness, Error>)
        requires
            old_witness.wf(),
            1 <= threshold < usize::MAX,
            threshold <= y_shares@.len(),
            y_values@.len() >= y_shares@.len(),
            dvs@.len() >= y_shares@.len(),
            all_wf(y_values@),
            forall|i: int| 0 <= i < dvs@.len() ==> all_wf((#[trigger] dvs@[i]).0@),
            forall|i: int, j: int|
                0 <= i < dvs@.len() && 0 <= j < dvs@[i].1@.len() ==> g1_valid_of(
                    (#[trigger] dvs@[i].1@[j])@,
                ),
            forall|i: int|
                0 <= i < y_shares@.len() ==> (#[trigger] dvs@[i]).0@.len() == dvs@[0].0@.len()
                    && dvs@[i].1@.len() == dvs@[0].0@.len(),
        ensures
            ({
                let num = y_shares@.len() as int;
                let t = threshold as int;
                let n_chunks = dvs@[0].0@.len() as int;
                let with_check = num > t;
                let xs = share_xs(d_shares_at(dvs@, y_values@, num, 0));
                &&& r is Ok <==> responses_ok(dvs@, y_values@, num, t)
                &&& r is Ok ==> r.unwrap().wf()
                &&& r is Ok ==> r.unwrap()@ == apply_chunks(
                    old_witness@,
                    dvs@,
                    y_values@,
                    num,
                    t,
                    n_chunks,
                ) && (forall|j: int|
                    0 <= j < n_chunks ==> chunk_d(dvs@, y_values@, num, t, j) != 0)
                &&& (r == Result::<MembershipWitness, Error>::Err(Error::Deleted) <==> n_chunks
                    > 0 && shamir_points_ok(xs, t, with_check) && exists|j: int|
                    0 <= j < n_chunks && deleted_at(dvs@, y_values@, num, t, j))
                &&& r is Err ==> r == Result::<MembershipWitness, Error>::Err(Error::Deleted) || r
                    == Result::<MembershipWitness, Error>::Err(Error::MaliciousServer)
            }),
    {
        let num = y_shares.len();
        let n_chunks = dvs[0].0.len();
        if n_chunks == 0 {
            proof {
                assert(apply_chunks(old_witness@, dvs@, y_values@, num as int, threshold as int, 0)
                    == old_witness@);
                assert(responses_ok(dvs@, y_values@, num as int, threshold as int));
            }
            return Ok(old_witness);
        }

        let ghost t = threshold as int;
        let ghost numi = num as int;

        // The shares of the first scalar chunk fix the Lagrange
        // coefficients for every chunk.
        let mut first_shares: Vec<(Element, Element)> = Vec::new();
        let mut s: usize = 0;
        while s < num
            invariant
                num <= y_shares@.len(),
                y_values@.len() >= num,
                dvs@.len() >= num,
                all_wf(y_values@),
                forall|i: int| 0 <= i < dvs@.len() ==> all_wf((#[trigger] dvs@[i]).0@),
                forall|i: int|
                    0 <= i < num ==> (#[trigger] dvs@[i]).0@.len() == dvs@[0].0@.len(),
                n_chunks == dvs@[0].0@.len(),
                n_chunks > 0,
                0 <= s <= num,
                first_shares@.len() == s,
                forall|ss: int|
                    0 <= ss < s ==> (#[trigger] first_shares@[ss]) == (
                        y_values@[ss],
                        dvs@[ss].0@[0],
                    ),
                shares_wf(first_shares@),
            decreases num - s,
        {
            proof {
                assert(dvs@[s as int].0@.len() == dvs@[0].0@.len());
            }
            first_shares.push((y_values[s], dvs[s].0[0]));
            s += 1;
        }
        proof {
            assert(first_shares@ =~= d_shares_at(dvs@, y_values@, numi, 0));
        }

        let (coefficients, check_coefficients) = match crate::shamir::shamir_coefficients(
            threshold,
            vstd::slice::slice_subrange(first_shares.as_slice(), 0, first_shares.len()),
        ) {
            Some(c) => c,
            None => {
                proof {
                    assert(first_shares@.subrange(0, first_shares@.len() as int)
                        =~= first_shares@);
                    assert(!responses_ok(dvs@, y_values@, numi, t));
                }
                return Err(Error::MaliciousServer);
            }
        };

        let ghost xs = share_xs(d_shares_at(dvs@, y_values@, numi, 0));
        let ghost lag = lag_coeffs(xs, t);
        proof {
            assert(first_shares@.subrange(0, first_shares@.len() as int) =~= first_shares@);
            assert forall|i: int| 0 <= i < threshold implies seq_vals(coefficients@)[i] == lag[i] by {
                assert(coefficients@[i]@ == lagrange_coeff(xs, t, i));
            }
            assert(seq_vals(coefficients@) =~= lag);
            if num > threshold {
                let checks = check_coefficients.unwrap();
                assert forall|i: int| 0 <= i < threshold implies seq_vals(checks@)[i]
                    == check_vals(xs, t)[i] by {
                    if i == 0 {
                        assert(checks@[0]@ == check0_partial(xs, t, t));
                    } else {
                        assert(checks@[i]@ == check_coeff(xs, t, i));
                    }
                }
                assert(seq_vals(checks@) =~= check_vals(xs, t));
            }
        }

        let mut new_witness = old_witness;
        let mut j: usize = 0;
        while j < n_chunks
            invariant
                old_witness.wf(),
                1 <= threshold < usize::MAX,
                threshold <= y_shares@.len(),
                y_values@.len() >= y_shares@.len(),
                dvs@.len() >= y_shares@.len(),
                all_wf(y_values@),
                forall|i: int| 0 <= i < dvs@.len() ==> all_wf((#[trigger] dvs@[i]).0@),
                forall|i: int, jj: int|
                    0 <= i < dvs@.len() && 0 <= jj < dvs@[i].1@.len() ==> g1_valid_of(
                        (#[trigger] dvs@[i].1@[jj])@,
                    ),
                forall|i: int|
                    0 <= i < y_shares@.len() ==> (#[trigger] dvs@[i]).0@.len() == dvs@[0].0@.len()
                        && dvs@[i].1@.len() == dvs@[0].0@.len(),
                num == y_shares@.len(),
                numi == num as int,
                t == threshold as int,
                n_chunks == dvs@[0].0@.len(),
                n_chunks > 0,
                xs == share_xs(d_shares_at(dvs@, y_values@, numi, 0)),
                lag == lag_coeffs(xs, t),
                coefficients@.len() == threshold,
                all_wf(coefficients@),
                seq_vals(coefficients@) == lag,
                check_coefficients is Some <==> num > threshold,
                check_coefficients is Some ==> check_coefficients.unwrap()@.len() == threshold,
                check_coefficients is Some ==> all_wf(check_coefficients.unwrap()@),
                shamir_points_ok(xs, t, num > t),
                check_coefficients is Some ==> seq_vals(check_coefficients.unwrap()@)
                    == check_vals(xs, t),
                0 <= j <= n_chunks,
                new_witness.wf(),
                new_witness@ == apply_chunks(old_witness@, dvs@, y_values@, numi, t, j as int),
                forall|jj: int|
                    0 <= jj < j ==> #[trigger] chunk_scalar_ok(dvs@, y_values@, numi, t, jj),
                forall|jj: int|
                    0 <= jj < j ==> (#[trigger] chunk_d(dvs@, y_values@, numi, t, jj)) != 0,
                forall|jj: int|
                    0 <= jj < j ==> #[trigger] chunk_point_ok(dvs@, y_values@, numi, t, jj),
            decreases n_chunks - j,
        {
            // Reassemble this chunk's scalar and point shares.
            let mut d_shares: Vec<(Element, Element)> = Vec::new();
            let mut v_shares: Vec<(Element, [u8; 48])> = Vec::new();
            let mut s: usize = 0;
            while s < num
                invariant
                    num <= y_shares@.len(),
                    y_values@.len() >= num,
                    dvs@.len() >= num,
                    all_wf(y_values@),
                    forall|i: int| 0 <= i < dvs@.len() ==> all_wf((#[trigger] dvs@[i]).0@),
                    forall|i: int, jj: int|
                        0 <= i < dvs@.len() && 0 <= jj < dvs@[i].1@.len() ==> g1_valid_of(
                            (#[trigger] dvs@[i].1@[jj])@,
                        ),
                    forall|i: int|
                        0 <= i < num ==> (#[trigger] dvs@[i]).0@.len() == dvs@[0].0@.len() && dvs@[i].1@.len() == dvs@[0].0@.len(),
                    n_chunks == dvs@[0].0@.len(),
                    j < n_chunks,
                    0 <= s <= num,
                    d_shares@.len() == s,
                    v_shares@.len() == s,
                    forall|ss: int|
                        0 <= ss < s ==> (#[trigger] d_shares@[ss]) == (
                            y_values@[ss],
                            dvs@[ss].0@[j as int],
                        ),
                    forall|ss: int|
                        0 <= ss < s ==> (#[trigger] v_shares@[ss]) == (
                            y_values@[ss],
                            dvs@[ss].1@[j as int],
                        ),
                    shares_wf(d_shares@),
                    point_shares_wf(v_shares@),
                decreases num - s,
            {
                proof {
                    assert(dvs@[s as int].0@.len() == dvs@[0].0@.len());
                    assert(dvs@[s as int].1@.len() == dvs@[0].0@.len());
                }
                d_shares.push((y_values[s], dvs[s].0[j]));
                v_shares.push((y_values[s], dvs[s].1[j]));
                s += 1;
            }
            proof {
                assert(d_shares@ =~= d_shares_at(dvs@, y_values@, numi, j as int));
                assert(v_shares@ =~= v_shares_at(dvs@, y_values@, numi, j as int));
                assert(share_xs(d_shares_at(dvs@, y_values@, numi, j as int)) =~= xs);
            }

            let d_chunk = match crate::shamir::shamir_rebuild_scalar(
                vstd::slice::slice_subrange(d_shares.as_slice(), 0, d_shares.len()),
                vstd::slice::slice_subrange(coefficients.as_slice(), 0, coefficients.len()),
                &check_coefficients,
            ) {
                Some(d) => d,
                None => {
                    proof {
                        assert(d_shares@.subrange(0, d_shares@.len() as int) =~= d_shares@);
                        assert(coefficients@.subrange(0, coefficients@.len() as int)
                            =~= coefficients@);
                        if num > threshold {
                            assert(!chunk_scalar_ok(dvs@, y_values@, numi, t, j as int));
                            assert(!responses_ok(dvs@, y_values@, numi, t));
                            assert forall|j2: int| 0 <= j2 < n_chunks implies !deleted_at(
                                dvs@,
                                y_values@,
                                numi,
                                t,
                                j2,
                            ) by {
                                if deleted_at(dvs@, y_values@, numi, t, j2) {
                                    if j2 < j {
                                        assert(chunk_d(dvs@, y_values@, numi, t, j2) != 0);
                                    } else if j2 == j {
                                        assert(chunk_scalar_ok(dvs@, y_values@, numi, t, j as int));
                                    } else {
                                        assert(chunk_scalar_ok(dvs@, y_values@, numi, t, j as int));
                                    }
                                }
                            }
                        } else {
                            assert(false);
                        }
                    }
                    return Err(Error::MaliciousServer);
                }
            };
            proof {
                assert(d_shares@.subrange(0, d_shares@.len() as int) =~= d_shares@);
                assert(coefficients@.subrange(0, coefficients@.len() as int) =~= coefficients@);
                assert(d_chunk@ == chunk_d(dvs@, y_values@, numi, t, j as int));
                assert(chunk_scalar_ok(dvs@, y_values@, numi, t, j as int));
            }
            if d_chunk.is_zero() {
                proof {
                    assert(deleted_at(dvs@, y_values@, numi, t, j as int));
                    assert(!responses_ok(dvs@, y_values@, numi, t));
                }
                return Err(Error::Deleted);
            }
            let v_chunk = match crate::shamir::shamir_rebuild_point(
                vstd::slice::slice_subrange(v_shares.as_slice(), 0, v_shares.len()),
                vstd::slice::slice_subrange(coefficients.as_slice(), 0, coefficients.len()),
                &check_coefficients,
            ) {
                Some(v) => v,
                None => {
                    proof {
                        assert(v_shares@.subrange(0, v_shares@.len() as int) =~= v_shares@);
                        assert(coefficients@.subrange(0, coefficients@.len() as int)
                            =~= coefficients@);
                        if num > threshold {
                            assert(!chunk_point_ok(dvs@, y_values@, numi, t, j as int));
                            assert(!responses_ok(dvs@, y_values@, numi, t));
                            assert forall|j2: int| 0 <= j2 < n_chunks implies !deleted_at(
                                dvs@,
                                y_values@,
                                numi,
                                t,
                                j2,
                            ) by {
                                if deleted_at(dvs@, y_values@, numi, t, j2) {
                                    if j2 < j {
                                        assert(chunk_d(dvs@, y_values@, numi, t, j2) != 0);
                                    } else if j2 == j {
                                        assert(chunk_d(dvs@, y_values@, numi, t, j as int) != 0);
                                    } else {
                                        assert(chunk_point_ok(dvs@, y_values@, numi, t, j as int));
                                    }
                                }
                            }
                        } else {
                            assert(false);
                        }
                    }
                    return Err(Error::MaliciousServer);
                }
            };
            let d_inv = match crate::field::sc_invert(&d_chunk) {
                Some(v) => v,
                None => {
                    proof {
                        assert(false);
                    }
                    return Err(Error::Deleted);
                }
            };
            proof {
                lemma_inv_unique(d_chunk@, d_inv@);
                assert(d_shares@.subrange(0, d_shares@.len() as int) =~= d_shares@);
                assert(v_shares@.subrange(0, v_shares@.len() as int) =~= v_shares@);
                assert(coefficients@.subrange(0, coefficients@.len() as int) =~= coefficients@);
                assert(d_chunk@ == chunk_d(dvs@, y_values@, numi, t, j as int));
                assert(v_chunk@ == chunk_v(dvs@, y_values@, numi, t, j as int));
                assert(chunk_point_ok(dvs@, y_values@, numi, t, j as int));
            }
            let wb = new_witness.to_bytes();
            let next = crate::group::g1_mul(&crate::group::g1_sub(&wb, &v_chunk), &d_inv);
            new_witness = MembershipWitness::from_point(next);
            j += 1;
        }
        proof {
            assert forall|j2: int| 0 <= j2 < n_chunks implies #[trigger] chunk_scalar_ok(
                dvs@,
                y_values@,
                numi,
                t,
                j2,
            ) && chunk_d(dvs@, y_values@, numi, t, j2) != 0 && chunk_point_ok(
                dvs@,
                y_values@,
                numi,
                t,
                j2,
            ) by {}
            assert forall|j2: int| 0 <= j2 < n_chunks implies chunk_d(
                dvs@,
                y_values@,
                numi,
                t,
                j2,
            ) != 0 by {
                assert(chunk_scalar_ok(dvs@, y_values@, numi, t, j2));
            }
            assert(responses_ok(dvs@, y_values@, numi, t));
            assert forall|j2: int| 0 <= j2 < n_chunks implies !deleted_at(
                dvs@,
                y_values@,
                numi,
                t,
                j2,
            ) by {
                if deleted_at(dvs@, y_values@, numi, t, j2) {
                    assert(chunk_d(dvs@, y_values@, numi, t, j2) != 0);
                }
            }
        }
        Ok(new_witness)
    }

    /// Updates to the latest available epoch, from a set of servers.  The
    /// user's state is only rewritten when every reconstruction succeeds;
    /// any failure leaves it untouched so retry is possible.
    pub fn update(&mut self, servers: &[Server], threshold: usize) -> (r: Result<(), Error>)
        requires
            old(self).wf(),
            servers@.len() >= 1,
            forall|i: int| 0 <= i < servers@.len() ==> (#[trigger] servers@[i]).wf(),
            servers@[0].accs().len() >= old(self).epoch,
            servers@[0].accs().len() - old(self).epoch < usize::MAX / 256,
            servers@.len() < usize::MAX,
            forall|i: int|
                0 <= i < servers@.len() ==> (#[trigger] servers@[i]).dels().len() + (usize::MAX
                    / 32) < usize::MAX,
            servers@.len() < u64::MAX,
        ensures
            final(self).wf(),
            final(self).id == old(self).id,
            final(self).public_keys == old(self).public_keys,
            r is Err ==> *final(self) == *old(self),
            r == Result::<(), Error>::Err(Error::NoWitness) <==> old(self).witness is None,
            old(self).witness is Some ==> (r == Result::<(), Error>::Err(Error::InvalidThreshold)
                <==> servers@.len() < threshold || threshold <= 1),
            old(self).witness is Some && threshold <= servers@.len() && threshold > 1 ==> (r
                == Result::<(), Error>::Err(Error::InsufficientEpochs) <==> old(self).epoch == 0),
            old(self).witness is Some && threshold <= servers@.len() && threshold > 1
                && servers@[0].accs().len() == old(self).epoch ==> r is Ok,
            r is Ok ==> final(self).witness is Some && final(self).epoch == servers@[0].accs().len() && final(self).accumulator == servers@[0].accs().last(),
    {
        let wit = match &self.witness {
            Some(w) => w.witness,
            None => {
                return Err(Error::NoWitness);
            }
        };
        // Precompute the shares.
        let upd = match self.prepare_for_update(
            servers[0].get_epoch(),
            servers.len(),
            threshold,
        ) {
            Ok(u) => u,
            Err(e) => {
                return Err(e);
            }
        };

        // Ask every server directly.
        let mut dvs: Vec<(Vec<Element>, Vec<[u8; 48]>)> = Vec::new();
        let mut i: usize = 0;
        while i < servers.len()
            invariant
                forall|ii: int| 0 <= ii < servers@.len() ==> (#[trigger] servers@[ii]).wf(),
                forall|ii: int|
                    0 <= ii < servers@.len() ==> (#[trigger] servers@[ii]).dels().len()
                        + (usize::MAX / 32) < usize::MAX,
                upd.y_shares@.len() == servers@.len(),
                upd.y_shares@[0]@.len() >= 1,
                forall|s: int|
                    0 <= s < servers@.len() ==> (#[trigger] upd.y_shares@[s])@.len()
                        == upd.y_shares@[0]@.len(),
                forall|s: int|
                    0 <= s < servers@.len() ==> all_wf((#[trigger] upd.y_shares@[s])@),
                upd.y_shares@[0]@.len() < usize::MAX / 32,
                0 <= i <= servers@.len(),
                dvs@.len() == i,
                forall|ii: int| 0 <= ii < i ==> all_wf((#[trigger] dvs@[ii]).0@),
                forall|ii: int, jj: int|
                    0 <= ii < i && 0 <= jj < dvs@[ii].1@.len() ==> g1_valid_of(
                        (#[trigger] dvs@[ii].1@[jj])@,
                    ),
                forall|ii: int|
                    0 <= ii < i ==> (#[trigger] dvs@[ii]).0@.len() == if upd.epoch_diff
                        > servers@[ii].dels().len() {
                        0int
                    } else {
                        crate::servers::num_chunks(
                            upd.epoch_diff as int,
                            upd.y_shares@[0]@.len() as int,
                        )
                    } && dvs@[ii].1@.len() == dvs@[ii].0@.len(),
            decreases servers@.len() - i,
        {
            proof {
                assert(upd.y_shares@[i as int]@.len() == upd.y_shares@[0]@.len());
            }
            let row = &upd.y_shares[i];
            let (ds, vs) = servers[i].update(
                upd.epoch_diff,
                vstd::slice::slice_subrange(row.as_slice(), 0, row.len()),
            );
            dvs.push((ds, vs));
            i += 1;
        }

        // A server that answered with fewer epochs than requested, or
        // responses of uneven shape, cannot be used.  The first replica's
        // answer is empty exactly when the requested span exceeds its
        // deletion log, which a consistent replica reaches only from a user
        // epoch of zero.
        proof {
            assert(servers@[0].accs().len() == servers@[0].dels().len() + 1);
            if upd.epoch_diff >= 1 {
                crate::servers::lemma_num_chunks_nonneg(
                    upd.epoch_diff - upd.y_shares@[0]@.len() as int,
                    upd.y_shares@[0]@.len() as int,
                );
                crate::servers::lemma_num_chunks_nonneg(0, upd.y_shares@[0]@.len() as int);
                assert(crate::servers::num_chunks(
                    upd.epoch_diff as int,
                    upd.y_shares@[0]@.len() as int,
                ) >= 1);
            }
        }
        if upd.epoch_diff > 0 && dvs[0].0.len() == 0 {
            return Err(Error::InsufficientEpochs);
        }
        proof {
            if upd.epoch_diff == 0 {
                assert forall|ii: int| 0 <= ii < servers@.len() implies (
                #[trigger] dvs@[ii]).0@.len() == 0 && dvs@[ii].1@.len() == 0 by {
                    assert(crate::servers::num_chunks(0, upd.y_shares@[0]@.len() as int) == 0);
                }
            }
        }
        if !Self::consistent_chunks(
            vstd::slice::slice_subrange(dvs.as_slice(), 0, dvs.len()),
            servers.len(),
        ) {
            return Err(Error::MaliciousServer);
        }

        // Post-process and adopt the new witness, accumulator, and epoch.
        match self.post_update(
            wit,
            threshold,
            vstd::slice::slice_subrange(upd.y_shares.as_slice(), 0, upd.y_shares.len()),
            vstd::slice::slice_subrange(upd.y_values.as_slice(), 0, upd.y_values.len()),
            vstd::slice::slice_subrange(dvs.as_slice(), 0, dvs.len()),
        ) {
            Ok(new_witness) => {
                let old_bundle = match &self.witness {
                    Some(w) => *w,
                    None => {
                        proof {
                            assert(false);
                        }
                        return Err(Error::NoWitness);
                    }
                };
                self.witness = Some(
                    Witness {
                        secret_key: old_bundle.secret_key,
                        witness: new_witness,
                        signature: old_bundle.signature,
                    },
                );
                self.accumulator = servers[0].get_accumulator();
                self.epoch = servers[0].get_epoch();
                Ok(())
            }
            Err(e) => Err(e),
        }
    }

    /// Constructs a membership proof, where the user holds a witness that
    /// verifies against its stored accumulator.
    pub fn make_membership_proof(
        &self,
        params: &AccParams,
        public_keys: &PublicKeys,
        ephemeral_challenge: &[u8; 32],
    ) -> (r: Option<MembershipProof>)
        requires
            self.wf(),
            params.wf(),
            public_keys.wf(),
        ensures
            r is Some <==> self.witness is Some && crate::witness::witness_checks(
                self.accumulator,
                *public_keys,
                *params,
                self.id,
                self.witness.unwrap(),
            ),
            r is Some ==> r.unwrap().wf(),
    {
        match &self.witness {
            None => None,
            Some(witness) => Witness::make_membership_proof(
                witness,
                &self.id,
                &self.accumulator,
                params,
                public_keys,
                ephemeral_challenge,
            ),
        }
    }

    /// Checks whether the user has a valid witness for the given
    /// accumulator, against the user's own copy of the public keys.
    pub fn check_witness(&self, params: &AccParams, accumulator: &Accumulator) -> (r: Result<
        (),
        Error,
    >)
        requires
            self.wf(),
            params.wf(),
            accumulator.wf(),
        ensures
            r is Ok <==> self.witness is Some && crate::witness::witness_checks(
                *accumulator,
                self.public_keys,
                *params,
                self.id,
                self.witness.unwrap(),
            ),
            self.witness is None ==> r == Result::<(), Error>::Err(Error::NoWitness),
    {
        match &self.witness {
            Some(witness) => Witness::verify(
                accumulator,
                &self.public_keys,
                params,
                &self.id,
                witness,
            ),
            None => Err(Error::NoWitness),
        }
    }
}

} // verus!
