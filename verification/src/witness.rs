//! The user-side witness bundle and the non-interactive zero-knowledge
//! membership proof: commitment, Fiat-Shamir challenge, response, and the
//! verifier's algebraic reconstruction of the commitments.

use crate::accumulator::{Accumulator, MembershipWitness, SecretKey};
use crate::error::Error;
use crate::field::{add_q, be_val, field_order, mul_q, Element};
use crate::group::{
    g1_add_of, g1_mul_of, g1_sub_of, g1_valid_of, g2_add_of, g2_mul_of, gt_add_of, pairing_of,
};
use crate::transcript::{
    transcript_scalar_of, FsTranscript, L_ACCUMULATOR, L_BASIC_MEMBERSHIP_PROOF, L_CHALLENGE,
    L_EPHEMERAL_CHALLENGE, L_PI_1, L_PI_2, L_R_POINT, L_SIGNATURE_PUBLIC_KEY, L_T_1, L_T_2,
    L_U_1, L_U_2, L_WITNESS_PUBLIC_KEY,
};
use crate::utils::{params_log, AccParams, PublicKeys, UserID};
use vstd::prelude::*;

verus! {

/// A proof response: the nonce plus the challenge times the secret, so that
/// the verifier's reconstruction, which subtracts the challenge-scaled
/// commitments, cancels exactly.
pub fn schnorr(k: &Element, secret: &Element, challenge: &Element) -> (r: Element)
    requires
        k.wf(),
        secret.wf(),
        challenge.wf(),
    ensures
        r@ == add_q(k@, mul_q(challenge@, secret@)),
        r.wf(),
{
    crate::field::sc_add(k, &crate::field::sc_mul(challenge, secret))
}

/// Data type containing all the witness-related information a user needs
/// (though they still need an accumulator to incorporate into a proof)
#[derive(Clone, Copy, Debug)]
pub struct Witness {
    /// The user's secret key
    pub secret_key: SecretKey,
    /// The user's membership witness
    pub witness: MembershipWitness,
    /// The user's algebraic signature
    pub signature: [u8; 48],
}

/// The two pairing equations a witness bundle must satisfy: the membership
/// equation against the accumulator, and the signature equation against the
/// signing key.
pub open spec fn witness_checks(
    accumulator: Accumulator,
    public_keys: PublicKeys,
    params: AccParams,
    y: Element,
    witness: Witness,
) -> bool {
    &&& pairing_of(
        witness.witness@,
        g2_add_of(g2_mul_of(params.s_p2(), y@), public_keys.witness_key@),
    ) == pairing_of(accumulator@, params.s_p2())
    &&& pairing_of(
        witness.signature@,
        g2_add_of(g2_mul_of(params.s_k2(), y@), public_keys.sign_key@),
    ) == pairing_of(
        g1_add_of(g1_mul_of(params.s_k1(), witness.secret_key.0@), params.s_k0()),
        params.s_k2(),
    )
}

impl Witness {
    /// The bundle holds canonical scalars and valid points.
    pub open spec fn wf(&self) -> bool {
        self.secret_key.wf() && self.witness.wf() && g1_valid_of(self.signature@)
    }

    /// Verifies a witness directly, using the user's ID and their witness
    /// (including secret key): both pairing equations must hold.
    pub fn verify(
        accumulator: &Accumulator,
        public_keys: &PublicKeys,
        params: &AccParams,
        y: &UserID,
        witness: &Witness,
    ) -> (r: Result<(), Error>)
        requires
            accumulator.wf(),
            public_keys.wf(),
            params.wf(),
            y.wf(),
            witness.wf(),
        ensures
            r is Ok <==> witness_checks(*accumulator, *public_keys, *params, *y, *witness),
            r is Err ==> r == Result::<(), Error>::Err(Error::VerificationFailed),
    {
        let p2 = params.get_p2();
        let wb = witness.witness.to_bytes();
        let wk = public_keys.witness_key.to_bytes();
        let acc_bytes = accumulator.to_bytes();
        let lhs1 = crate::group::pair(
            &wb,
            &crate::group::g2_add(&crate::group::g2_mul(&p2, y), &wk),
        );
        let rhs1 = crate::group::pair(&acc_bytes, &p2);
        let first = crate::group::bytes_eq(
            vstd::array::array_as_slice(&lhs1),
            vstd::array::array_as_slice(&rhs1),
        );

        let k2 = params.get_k2();
        let sk = public_keys.sign_key.to_bytes();
        let lhs2 = crate::group::pair(
            &witness.signature,
            &crate::group::g2_add(&crate::group::g2_mul(&k2, y), &sk),
        );
        let k0 = params.get_k0();
        let k1 = params.get_k1();
        let rhs2 = crate::group::pair(
            &crate::group::g1_add(&crate::group::g1_mul(&k1, &witness.secret_key.0), &k0),
            &k2,
        );
        let second = crate::group::bytes_eq(
            vstd::array::array_as_slice(&lhs2),
            vstd::array::array_as_slice(&rhs2),
        );
        if first && second {
            Ok(())
        } else {
            Err(Error::VerificationFailed)
        }
    }

    /// Constructs a membership proof.  Fails exactly when the carried
    /// witness does not satisfy both pairing equations.
    pub fn make_membership_proof(
        witness: &Witness,
        user_id: &UserID,
        accumulator: &Accumulator,
        params: &AccParams,
        public_keys: &PublicKeys,
        ephemeral_challenge: &[u8; 32],
    ) -> (r: Option<MembershipProof>)
        requires
            witness.wf(),
            user_id.wf(),
            accumulator.wf(),
            params.wf(),
            public_keys.wf(),
        ensures
            r is Some <==> witness_checks(
                *accumulator,
                *public_keys,
                *params,
                *user_id,
                *witness,
            ),
            r is Some ==> r.unwrap().wf(),
            r is Some ==> exists|com: MembershipProofCommitting|
                proof_opens(
                    r.unwrap(),
                    com,
                    *witness,
                    *user_id,
                    *params,
                    *public_keys,
                    *accumulator,
                    ephemeral_challenge@,
                ),
    {
        // Refuse to prove with an invalid witness.
        match Self::verify(accumulator, public_keys, params, user_id, witness) {
            Ok(_) => {}
            Err(_) => {
                return None;
            }
        }

        // Create the commitment.
        let mpc = MembershipProofCommitting::new(witness, params, public_keys);

        // Commit to the public parameters, the commitment points, and the
        // caller's ephemeral challenge, then draw the challenge scalar.
        let mut transcript = crate::transcript::ts_new(
            vstd::array::array_as_slice(&L_BASIC_MEMBERSHIP_PROOF),
        );
        let wk = public_keys.witness_key.to_bytes();
        crate::transcript::ts_append(
            &mut transcript,
            vstd::array::array_as_slice(&L_SIGNATURE_PUBLIC_KEY),
            vstd::array::array_as_slice(&wk),
        );
        let sk = public_keys.sign_key.to_bytes();
        crate::transcript::ts_append(
            &mut transcript,
            vstd::array::array_as_slice(&L_WITNESS_PUBLIC_KEY),
            vstd::array::array_as_slice(&sk),
        );
        let ab = accumulator.to_bytes();
        crate::transcript::ts_append(
            &mut transcript,
            vstd::array::array_as_slice(&L_ACCUMULATOR),
            vstd::array::array_as_slice(&ab),
        );
        params.add_to_transcript(&mut transcript);
        mpc.get_bytes_for_challenge(&mut transcript);
        crate::transcript::ts_append(
            &mut transcript,
            vstd::array::array_as_slice(&L_EPHEMERAL_CHALLENGE),
            vstd::array::array_as_slice(ephemeral_challenge),
        );
        proof {
            assert(transcript.log() =~= membership_log(
                *public_keys,
                *accumulator,
                *params,
                mpc.u_1@,
                mpc.u_2@,
                mpc.r_point@,
                mpc.t_1@,
                mpc.t_2@,
                mpc.pi_1@,
                mpc.pi_2@,
                ephemeral_challenge@,
            ));
        }
        let challenge = Element::from_transcript(
            vstd::array::array_as_slice(&L_CHALLENGE),
            &mut transcript,
        );
        let proof = mpc.gen_proof(witness, user_id, challenge);
        proof {
            assert(proof_opens(
                proof,
                mpc,
                *witness,
                *user_id,
                *params,
                *public_keys,
                *accumulator,
                ephemeral_challenge@,
            ));
        }
        Some(proof)
    }

    /// Verifies a membership proof: rebuild the commitment points from the
    /// responses, replay the transcript, and accept exactly when the carried
    /// challenge equals the recomputed one.
    pub fn check_membership_proof(
        proof: &MembershipProof,
        params: &AccParams,
        public_keys: &PublicKeys,
        accumulator: &Accumulator,
        ephemeral_challenge: &[u8; 32],
    ) -> (r: bool)
        requires
            proof.wf(),
            params.wf(),
            public_keys.wf(),
            accumulator.wf(),
        ensures
            r == (proof.challenge@ == membership_challenge(
                *params,
                *public_keys,
                *accumulator,
                *proof,
                ephemeral_challenge@,
            )),
    {
        let mut transcript = crate::transcript::ts_new(
            vstd::array::array_as_slice(&L_BASIC_MEMBERSHIP_PROOF),
        );
        let wk = public_keys.witness_key.to_bytes();
        crate::transcript::ts_append(
            &mut transcript,
            vstd::array::array_as_slice(&L_SIGNATURE_PUBLIC_KEY),
            vstd::array::array_as_slice(&wk),
        );
        let sk = public_keys.sign_key.to_bytes();
        crate::transcript::ts_append(
            &mut transcript,
            vstd::array::array_as_slice(&L_WITNESS_PUBLIC_KEY),
            vstd::array::array_as_slice(&sk),
        );
        let ab = accumulator.to_bytes();
        crate::transcript::ts_append(
            &mut transcript,
            vstd::array::array_as_slice(&L_ACCUMULATOR),
            vstd::array::array_as_slice(&ab),
        );
        params.add_to_transcript(&mut transcript);
        proof.get_bytes_for_challenge(params, public_keys, accumulator, &mut transcript);
        crate::transcript::ts_append(
            &mut transcript,
            vstd::array::array_as_slice(&L_EPHEMERAL_CHALLENGE),
            vstd::array::array_as_slice(ephemeral_challenge),
        );
        proof {
            assert(transcript.log() =~= membership_log(
                *public_keys,
                *accumulator,
                *params,
                proof.u_1@,
                proof.u_2@,
                proof.r@,
                recon_t1(*params, *proof),
                recon_t2(*params, *proof),
                recon_pi1(*params, *public_keys, *proof),
                recon_pi2(*params, *public_keys, *accumulator, *proof),
                ephemeral_challenge@,
            ));
        }
        let challenge = Element::from_transcript(
            vstd::array::array_as_slice(&L_CHALLENGE),
            &mut transcript,
        );
        challenge.eq_elem(&proof.challenge)
    }
}

/// The labelled messages a membership-proof transcript absorbs, in order:
/// the two public keys, the accumulator, the four commitment bases, the
/// five proof points, the two pairing values, and the ephemeral challenge.
pub open spec fn membership_log(
    public_keys: PublicKeys,
    accumulator: Accumulator,
    params: AccParams,
    u1: Seq<u8>,
    u2: Seq<u8>,
    rp: Seq<u8>,
    t1: Seq<u8>,
    t2: Seq<u8>,
    pi1: Seq<u8>,
    pi2: Seq<u8>,
    eph: Seq<u8>,
) -> Seq<(Seq<u8>, Seq<u8>)> {
    seq![
        (L_SIGNATURE_PUBLIC_KEY@, public_keys.witness_key@),
        (L_WITNESS_PUBLIC_KEY@, public_keys.sign_key@),
        (L_ACCUMULATOR@, accumulator@),
    ] + params_log(params) + seq![
        (L_U_1@, u1),
        (L_U_2@, u2),
        (L_R_POINT@, rp),
        (L_T_1@, t1),
        (L_T_2@, t2),
        (L_PI_1@, pi1),
        (L_PI_2@, pi2),
        (L_EPHEMERAL_CHALLENGE@, eph),
    ]
}

/// The verifier's reconstruction T1' = X1·s1 + Y1·s2 + Z1·s3 − R·c.
pub open spec fn recon_t1(params: AccParams, p: MembershipProof) -> Seq<u8> {
    g1_sub_of(
        g1_add_of(
            g1_add_of(
                g1_mul_of(params.s_x1(), p.s_1@),
                g1_mul_of(params.s_y1(), p.s_2@),
            ),
            g1_mul_of(params.s_z1(), p.s_3@),
        ),
        g1_mul_of(p.r@, p.challenge@),
    )
}

/// The verifier's reconstruction T2' = X1·s4 + Y1·s5 + Z1·s6 − R·s7.
pub open spec fn recon_t2(params: AccParams, p: MembershipProof) -> Seq<u8> {
    g1_sub_of(
        g1_add_of(
            g1_add_of(
                g1_mul_of(params.s_x1(), p.s_4@),
                g1_mul_of(params.s_y1(), p.s_5@),
            ),
            g1_mul_of(params.s_z1(), p.s_6@),
        ),
        g1_mul_of(p.r@, p.s_7@),
    )
}

/// The verifier's reconstruction
/// π1' = e(K1·s0 − U1·s7 + Z1·s4 + K0·c, K2) · e(Z1·s1 − U1·c, Q_m).
pub open spec fn recon_pi1(params: AccParams, public_keys: PublicKeys, p: MembershipProof) -> Seq<
    u8,
> {
    gt_add_of(
        pairing_of(
            g1_add_of(
                g1_add_of(
                    g1_sub_of(
                        g1_mul_of(params.s_k1(), p.s_0@),
                        g1_mul_of(p.u_1@, p.s_7@),
                    ),
                    g1_mul_of(params.s_z1(), p.s_4@),
                ),
                g1_mul_of(params.s_k0(), p.challenge@),
            ),
            params.s_k2(),
        ),
        pairing_of(
            g1_sub_of(g1_mul_of(params.s_z1(), p.s_1@), g1_mul_of(p.u_1@, p.challenge@)),
            public_keys.sign_key@,
        ),
    )
}

/// The verifier's reconstruction
/// π2' = e(Z1·s5 − U2·s7 + V·c, P2) · e(Z1·s2 − U2·c, Q).
pub open spec fn recon_pi2(
    params: AccParams,
    public_keys: PublicKeys,
    accumulator: Accumulator,
    p: MembershipProof,
) -> Seq<u8> {
    gt_add_of(
        pairing_of(
            g1_add_of(
                g1_sub_of(
                    g1_mul_of(params.s_z1(), p.s_5@),
                    g1_mul_of(p.u_2@, p.s_7@),
                ),
                g1_mul_of(accumulator@, p.challenge@),
            ),
            params.s_p2(),
        ),
        pairing_of(
            g1_sub_of(g1_mul_of(params.s_z1(), p.s_2@), g1_mul_of(p.u_2@, p.challenge@)),
            public_keys.witness_key@,
        ),
    )
}

/// The challenge a verifier recomputes for a proof: the transcript scalar
/// over the public inputs, the proof's points, and its reconstructions.
pub open spec fn membership_challenge(
    params: AccParams,
    public_keys: PublicKeys,
    accumulator: Accumulator,
    p: MembershipProof,
    eph: Seq<u8>,
) -> nat {
    transcript_scalar_of(
        L_BASIC_MEMBERSHIP_PROOF@,
        membership_log(
            public_keys,
            accumulator,
            params,
            p.u_1@,
            p.u_2@,
            p.r@,
            recon_t1(params, p),
            recon_t2(params, p),
            recon_pi1(params, public_keys, p),
            recon_pi2(params, public_keys, accumulator, p),
            eph,
        ),
        L_CHALLENGE@,
    )
}

/// The commit (blinding) step of the membership proof: three blinders,
/// eight nonces, and the committed points they generate.
pub struct MembershipProofCommitting {
    /// The blinders r1, r2, r3.
    pub r: [Element; 3],
    /// The nonces k0 ... k7.
    pub k: [Element; 8],
    /// U1 = R_sig + Z1·r1.
    pub u_1: [u8; 48],
    /// U2 = C + Z1·r2.
    pub u_2: [u8; 48],
    /// R = X1·r1 + Y1·r2 + Z1·r3.
    pub r_point: [u8; 48],
    /// T1 = X1·k1 + Y1·k2 + Z1·k3.
    pub t_1: [u8; 48],
    /// T2 = X1·k4 + Y1·k5 + Z1·k6 − R·k7.
    pub t_2: [u8; 48],
    /// π1 = e(K1·k0 − U1·k7, K2) · e(Z1, K2·k4 + Q_m·k1).
    pub pi_1: [u8; 576],
    /// π2 = e(Z1·k5 − U2·k7, P2) · e(Z1, Q·k2).
    pub pi_2: [u8; 576],
}

/// The committed points are exactly the commitments that the stored
/// blinders and nonces generate over the given witness and parameters.
pub open spec fn committing_opens(
    com: MembershipProofCommitting,
    witness: Witness,
    params: AccParams,
    public_keys: PublicKeys,
) -> bool {
    &&& forall|i: int| 0 <= i < 3 ==> (#[trigger] com.r[i]).wf()
    &&& forall|i: int| 0 <= i < 8 ==> (#[trigger] com.k[i]).wf()
    &&& com.u_1@ == g1_add_of(witness.signature@, g1_mul_of(params.s_z1(), com.r[0]@))
    &&& com.u_2@ == g1_add_of(witness.witness@, g1_mul_of(params.s_z1(), com.r[1]@))
    &&& com.r_point@ == g1_add_of(
        g1_add_of(
            g1_mul_of(params.s_x1(), com.r[0]@),
            g1_mul_of(params.s_y1(), com.r[1]@),
        ),
        g1_mul_of(params.s_z1(), com.r[2]@),
    )
    &&& com.t_1@ == g1_add_of(
        g1_add_of(
            g1_mul_of(params.s_x1(), com.k[1]@),
            g1_mul_of(params.s_y1(), com.k[2]@),
        ),
        g1_mul_of(params.s_z1(), com.k[3]@),
    )
    &&& com.t_2@ == g1_sub_of(
        g1_add_of(
            g1_add_of(
                g1_mul_of(params.s_x1(), com.k[4]@),
                g1_mul_of(params.s_y1(), com.k[5]@),
            ),
            g1_mul_of(params.s_z1(), com.k[6]@),
        ),
        g1_mul_of(com.r_point@, com.k[7]@),
    )
    &&& com.pi_1@ == gt_add_of(
        pairing_of(
            g1_sub_of(
                g1_mul_of(params.s_k1(), com.k[0]@),
                g1_mul_of(com.u_1@, com.k[7]@),
            ),
            params.s_k2(),
        ),
        pairing_of(
            params.s_z1(),
            g2_add_of(
                g2_mul_of(params.s_k2(), com.k[4]@),
                g2_mul_of(public_keys.sign_key@, com.k[1]@),
            ),
        ),
    )
    &&& com.pi_2@ == gt_add_of(
        pairing_of(
            g1_sub_of(
                g1_mul_of(params.s_z1(), com.k[5]@),
                g1_mul_of(com.u_2@, com.k[7]@),
            ),
            params.s_p2(),
        ),
        pairing_of(params.s_z1(), g2_mul_of(public_keys.witness_key@, com.k[2]@)),
    )
    &&& g1_valid_of(com.u_1@)
    &&& g1_valid_of(com.u_2@)
    &&& g1_valid_of(com.r_point@)
    &&& g1_valid_of(com.t_1@)
    &&& g1_valid_of(com.t_2@)
}

/// A proof is the opening of a commitment: its points are the committed
/// ones, its challenge is the Fiat-Shamir challenge over them, and each
/// response is the matching nonce minus the challenge times its secret.
pub open spec fn proof_opens(
    p: MembershipProof,
    com: MembershipProofCommitting,
    witness: Witness,
    user_id: Element,
    params: AccParams,
    public_keys: PublicKeys,
    accumulator: Accumulator,
    eph: Seq<u8>,
) -> bool {
    &&& committing_opens(com, witness, params, public_keys)
    &&& p.u_1 == com.u_1
    &&& p.u_2 == com.u_2
    &&& p.r == com.r_point
    &&& p.challenge@ == transcript_scalar_of(
        L_BASIC_MEMBERSHIP_PROOF@,
        membership_log(
            public_keys,
            accumulator,
            params,
            com.u_1@,
            com.u_2@,
            com.r_point@,
            com.t_1@,
            com.t_2@,
            com.pi_1@,
            com.pi_2@,
            eph,
        ),
        L_CHALLENGE@,
    )
    &&& p.s_0@ == add_q(com.k[0]@, mul_q(p.challenge@, witness.secret_key.0@))
    &&& p.s_1@ == add_q(com.k[1]@, mul_q(p.challenge@, com.r[0]@))
    &&& p.s_2@ == add_q(com.k[2]@, mul_q(p.challenge@, com.r[1]@))
    &&& p.s_3@ == add_q(com.k[3]@, mul_q(p.challenge@, com.r[2]@))
    &&& p.s_4@ == add_q(com.k[4]@, mul_q(p.challenge@, mul_q(com.r[0]@, user_id@)))
    &&& p.s_5@ == add_q(com.k[5]@, mul_q(p.challenge@, mul_q(com.r[1]@, user_id@)))
    &&& p.s_6@ == add_q(com.k[6]@, mul_q(p.challenge@, mul_q(com.r[2]@, user_id@)))
    &&& p.s_7@ == add_q(com.k[7]@, mul_q(p.challenge@, user_id@))
}

impl MembershipProofCommitting {
    /// Create a new membership proof committing phase: draw the blinders
    /// and nonces and form the committed points.
    pub fn new(witness: &Witness, params: &AccParams, public_keys: &PublicKeys) -> (r:
        MembershipProofCommitting)
        requires
            witness.wf(),
            params.wf(),
            public_keys.wf(),
        ensures
            committing_opens(r, *witness, *params, *public_keys),
    {
        let r: [Element; 3] = [Element::random(), Element::random(), Element::random()];
        let k: [Element; 8] = [
            Element::random(),
            Element::random(),
            Element::random(),
            Element::random(),
            Element::random(),
            Element::random(),
            Element::random(),
            Element::random(),
        ];

        let z1 = params.get_z1();
        let x1 = params.get_x1();
        let y1 = params.get_y1();
        let k0b = params.get_k0();
        let k1b = params.get_k1();
        let k2b = params.get_k2();
        let p2 = params.get_p2();
        let qm = public_keys.sign_key.to_bytes();
        let q = public_keys.witness_key.to_bytes();

        // U1 = R_sig + Z1·r1
        let u_1 = crate::group::g1_add(&witness.signature, &crate::group::g1_mul(&z1, &r[0]));
        // U2 = C + Z1·r2
        let wb = witness.witness.to_bytes();
        let u_2 = crate::group::g1_add(&wb, &crate::group::g1_mul(&z1, &r[1]));
        // R = X1·r1 + Y1·r2 + Z1·r3
        let r_point = crate::group::g1_add(
            &crate::group::g1_add(
                &crate::group::g1_mul(&x1, &r[0]),
                &crate::group::g1_mul(&y1, &r[1]),
            ),
            &crate::group::g1_mul(&z1, &r[2]),
        );
        // T1 = X1·k1 + Y1·k2 + Z1·k3
        let t_1 = crate::group::g1_add(
            &crate::group::g1_add(
                &crate::group::g1_mul(&x1, &k[1]),
                &crate::group::g1_mul(&y1, &k[2]),
            ),
            &crate::group::g1_mul(&z1, &k[3]),
        );
        // T2 = X1·k4 + Y1·k5 + Z1·k6 − R·k7
        let t_2 = crate::group::g1_sub(
            &crate::group::g1_add(
                &crate::group::g1_add(
                    &crate::group::g1_mul(&x1, &k[4]),
                    &crate::group::g1_mul(&y1, &k[5]),
                ),
                &crate::group::g1_mul(&z1, &k[6]),
            ),
            &crate::group::g1_mul(&r_point, &k[7]),
        );
        // π1 = e(K1·k0 − U1·k7, K2) · e(Z1, K2·k4 + Q_m·k1)
        let pi_1 = crate::group::pair_add(
            &crate::group::g1_sub(
                &crate::group::g1_mul(&k1b, &k[0]),
                &crate::group::g1_mul(&u_1, &k[7]),
            ),
            &k2b,
            &z1,
            &crate::group::g2_add(
                &crate::group::g2_mul(&k2b, &k[4]),
                &crate::group::g2_mul(&qm, &k[1]),
            ),
        );
        // π2 = e(Z1·k5 − U2·k7, P2) · e(Z1, Q·k2)
        let pi_2 = crate::group::pair_add(
            &crate::group::g1_sub(
                &crate::group::g1_mul(&z1, &k[5]),
                &crate::group::g1_mul(&u_2, &k[7]),
            ),
            &p2,
            &z1,
            &crate::group::g2_mul(&q, &k[2]),
        );

        MembershipProofCommitting { r, k, u_1, u_2, r_point, t_1, t_2, pi_1, pi_2 }
    }

    /// Append the committed points to the challenge transcript, in order:
    /// U1, U2, R, T1, T2, π1, π2.
    pub fn get_bytes_for_challenge(&self, transcript: &mut FsTranscript)
        ensures
            final(transcript).domain() == old(transcript).domain(),
            final(transcript).log() == old(transcript).log() + seq![
                (L_U_1@, self.u_1@),
                (L_U_2@, self.u_2@),
                (L_R_POINT@, self.r_point@),
                (L_T_1@, self.t_1@),
                (L_T_2@, self.t_2@),
                (L_PI_1@, self.pi_1@),
                (L_PI_2@, self.pi_2@),
            ],
    {
        crate::transcript::ts_append(
            transcript,
            vstd::array::array_as_slice(&L_U_1),
            vstd::array::array_as_slice(&self.u_1),
        );
        crate::transcript::ts_append(
            transcript,
            vstd::array::array_as_slice(&L_U_2),
            vstd::array::array_as_slice(&self.u_2),
        );
        crate::transcript::ts_append(
            transcript,
            vstd::array::array_as_slice(&L_R_POINT),
            vstd::array::array_as_slice(&self.r_point),
        );
        crate::transcript::ts_append(
            transcript,
            vstd::array::array_as_slice(&L_T_1),
            vstd::array::array_as_slice(&self.t_1),
        );
        crate::transcript::ts_append(
            transcript,
            vstd::array::array_as_slice(&L_T_2),
            vstd::array::array_as_slice(&self.t_2),
        );
        crate::transcript::ts_append(
            transcript,
            vstd::array::array_as_slice(&L_PI_1),
            vstd::array::array_as_slice(&self.pi_1),
        );
        crate::transcript::ts_append(
            transcript,
            vstd::array::array_as_slice(&L_PI_2),
            vstd::array::array_as_slice(&self.pi_2),
        );
        proof {
            assert(transcript.log() =~= old(transcript).log() + seq![
                (L_U_1@, self.u_1@),
                (L_U_2@, self.u_2@),
                (L_R_POINT@, self.r_point@),
                (L_T_1@, self.t_1@),
                (L_T_2@, self.t_2@),
                (L_PI_1@, self.pi_1@),
                (L_PI_2@, self.pi_2@),
            ]);
        }
    }

    /// Given the challenge value, compute the Fiat-Shamir responses and
    /// assemble the proof.
    pub fn gen_proof(&self, witness: &Witness, user_id: &UserID, challenge_hash: Element) -> (p:
        MembershipProof)
        requires
            forall|i: int| 0 <= i < 3 ==> (#[trigger] self.r[i]).wf(),
            forall|i: int| 0 <= i < 8 ==> (#[trigger] self.k[i]).wf(),
            g1_valid_of(self.u_1@),
            g1_valid_of(self.u_2@),
            g1_valid_of(self.r_point@),
            witness.wf(),
            user_id.wf(),
            challenge_hash.wf(),
        ensures
            p.u_1 == self.u_1,
            p.u_2 == self.u_2,
            p.r == self.r_point,
            p.challenge == challenge_hash,
            p.s_0@ == add_q(self.k[0]@, mul_q(challenge_hash@, witness.secret_key.0@)),
            p.s_1@ == add_q(self.k[1]@, mul_q(challenge_hash@, self.r[0]@)),
            p.s_2@ == add_q(self.k[2]@, mul_q(challenge_hash@, self.r[1]@)),
            p.s_3@ == add_q(self.k[3]@, mul_q(challenge_hash@, self.r[2]@)),
            p.s_4@ == add_q(self.k[4]@, mul_q(challenge_hash@, mul_q(self.r[0]@, user_id@))),
            p.s_5@ == add_q(self.k[5]@, mul_q(challenge_hash@, mul_q(self.r[1]@, user_id@))),
            p.s_6@ == add_q(self.k[6]@, mul_q(challenge_hash@, mul_q(self.r[2]@, user_id@))),
            p.s_7@ == add_q(self.k[7]@, mul_q(challenge_hash@, user_id@)),
            p.wf(),
    {
        let s0 = schnorr(&self.k[0], &witness.secret_key.0, &challenge_hash);
        let s1 = schnorr(&self.k[1], &self.r[0], &challenge_hash);
        let s2 = schnorr(&self.k[2], &self.r[1], &challenge_hash);
        let s3 = schnorr(&self.k[3], &self.r[2], &challenge_hash);
        let s4 = schnorr(
            &self.k[4],
            &crate::field::sc_mul(&self.r[0], user_id),
            &challenge_hash,
        );
        let s5 = schnorr(
            &self.k[5],
            &crate::field::sc_mul(&self.r[1], user_id),
            &challenge_hash,
        );
        let s6 = schnorr(
            &self.k[6],
            &crate::field::sc_mul(&self.r[2], user_id),
            &challenge_hash,
        );
        let s7 = schnorr(&self.k[7], user_id, &challenge_hash);

        MembershipProof {
            u_1: self.u_1,
            u_2: self.u_2,
            r: self.r_point,
            challenge: challenge_hash,
            s_0: s0,
            s_1: s1,
            s_2: s2,
            s_3: s3,
            s_4: s4,
            s_5: s5,
            s_6: s6,
            s_7: s7,
        }
    }
}

/// A zero-knowledge membership proof: three committed points, the
/// Fiat-Shamir challenge, and eight responses.
#[derive(Clone, Copy, Debug, PartialEq, Eq)]
pub struct MembershipProof {
    /// The blinded signature U1.
    pub u_1: [u8; 48],
    /// The blinded membership witness U2.
    pub u_2: [u8; 48],
    /// The blinder commitment R.
    pub r: [u8; 48],
    /// The Fiat-Shamir challenge.
    pub challenge: Element,
    /// The response for the long-term secret key.
    pub s_0: Element,
    /// The response for the first blinder.
    pub s_1: Element,
    /// The response for the second blinder.
    pub s_2: Element,
    /// The response for the third blinder.
    pub s_3: Element,
    /// The response for the first blinder times the identifier.
    pub s_4: Element,
    /// The response for the second blinder times the identifier.
    pub s_5: Element,
    /// The response for the third blinder times the identifier.
    pub s_6: Element,
    /// The response for the identifier.
    pub s_7: Element,
}

/// The fixed 432-byte layout of a proof: the three points, then the
/// challenge and the eight responses, each 32 bytes big-endian.
pub open spec fn proof_encoding(p: MembershipProof) -> Seq<u8> {
    p.u_1@ + p.u_2@ + p.r@ + p.challenge.byte_view() + p.s_0.byte_view() + p.s_1.byte_view()
        + p.s_2.byte_view() + p.s_3.byte_view() + p.s_4.byte_view() + p.s_5.byte_view()
        + p.s_6.byte_view() + p.s_7.byte_view()
}

/// Whether 432 bytes decode under the fixed layout: the three point
/// segments are valid compressed G1 encodings, and the challenge and the
/// eight response segments are canonical big-endian scalars.
pub open spec fn proof_bytes_ok(input: Seq<u8>) -> bool {
    &&& g1_valid_of(input.subrange(0, 48))
    &&& g1_valid_of(input.subrange(48, 96))
    &&& g1_valid_of(input.subrange(96, 144))
    &&& be_val(input.subrange(144, 176)) < field_order()
    &&& be_val(input.subrange(176, 208)) < field_order()
    &&& be_val(input.subrange(208, 240)) < field_order()
    &&& be_val(input.subrange(240, 272)) < field_order()
    &&& be_val(input.subrange(272, 304)) < field_order()
    &&& be_val(input.subrange(304, 336)) < field_order()
    &&& be_val(input.subrange(336, 368)) < field_order()
    &&& be_val(input.subrange(368, 400)) < field_order()
    &&& be_val(input.subrange(400, 432)) < field_order()
}

/// An encoded well-formed proof decodes: its encoding satisfies the layout
/// conditions the decoder accepts.  With the decoder's contracts and the
/// injectivity of the encoding, decoding an encoded well-formed proof
/// returns exactly that proof.
pub proof fn lemma_proof_encoding_decodes(p: MembershipProof)
    requires
        p.wf(),
    ensures
        proof_bytes_ok(proof_encoding(p)),
{
    crate::field::lemma_element_bytes(p.challenge);
    crate::field::lemma_element_bytes(p.s_0);
    crate::field::lemma_element_bytes(p.s_1);
    crate::field::lemma_element_bytes(p.s_2);
    crate::field::lemma_element_bytes(p.s_3);
    crate::field::lemma_element_bytes(p.s_4);
    crate::field::lemma_element_bytes(p.s_5);
    crate::field::lemma_element_bytes(p.s_6);
    crate::field::lemma_element_bytes(p.s_7);
    let e = proof_encoding(p);
    assert(e.subrange(0, 48) =~= p.u_1@);
    assert(e.subrange(48, 96) =~= p.u_2@);
    assert(e.subrange(96, 144) =~= p.r@);
    assert(e.subrange(144, 176) =~= p.challenge.byte_view());
    assert(e.subrange(176, 208) =~= p.s_0.byte_view());
    assert(e.subrange(208, 240) =~= p.s_1.byte_view());
    assert(e.subrange(240, 272) =~= p.s_2.byte_view());
    assert(e.subrange(272, 304) =~= p.s_3.byte_view());
    assert(e.subrange(304, 336) =~= p.s_4.byte_view());
    assert(e.subrange(336, 368) =~= p.s_5.byte_view());
    assert(e.subrange(368, 400) =~= p.s_6.byte_view());
    assert(e.subrange(400, 432) =~= p.s_7.byte_view());
}

/// A proof's encoding determines the proof: the byte layout is injective.
/// With the contracts of `to_bytes` and `from_bytes`, decoding an encoded
/// well-formed proof returns exactly that proof.
pub proof fn lemma_proof_encoding_injective(p: MembershipProof, q: MembershipProof)
    requires
        proof_encoding(p) == proof_encoding(q),
    ensures
        p == q,
{
    crate::field::lemma_element_bytes(p.challenge);
    crate::field::lemma_element_bytes(p.s_0);
    crate::field::lemma_element_bytes(p.s_1);
    crate::field::lemma_element_bytes(p.s_2);
    crate::field::lemma_element_bytes(p.s_3);
    crate::field::lemma_element_bytes(p.s_4);
    crate::field::lemma_element_bytes(p.s_5);
    crate::field::lemma_element_bytes(p.s_6);
    crate::field::lemma_element_bytes(p.s_7);
    crate::field::lemma_element_bytes(q.challenge);
    crate::field::lemma_element_bytes(q.s_0);
    crate::field::lemma_element_bytes(q.s_1);
    crate::field::lemma_element_bytes(q.s_2);
    crate::field::lemma_element_bytes(q.s_3);
    crate::field::lemma_element_bytes(q.s_4);
    crate::field::lemma_element_bytes(q.s_5);
    crate::field::lemma_element_bytes(q.s_6);
    crate::field::lemma_element_bytes(q.s_7);
    let ep = proof_encoding(p);
    let eq_ = proof_encoding(q);
    assert(p.u_1@ =~= eq_.subrange(0, 48));
    assert(q.u_1@ =~= eq_.subrange(0, 48));
    assert(p.u_1 =~= q.u_1);
    assert(p.u_2@ =~= eq_.subrange(48, 96));
    assert(q.u_2@ =~= eq_.subrange(48, 96));
    assert(p.u_2 =~= q.u_2);
    assert(p.r@ =~= eq_.subrange(96, 144));
    assert(q.r@ =~= eq_.subrange(96, 144));
    assert(p.r =~= q.r);
    assert(p.challenge.byte_view() =~= eq_.subrange(144, 176));
    assert(q.challenge.byte_view() =~= eq_.subrange(144, 176));
    crate::field::lemma_element_injective(p.challenge, q.challenge);
    assert(p.s_0.byte_view() =~= eq_.subrange(176, 208));
    assert(q.s_0.byte_view() =~= eq_.subrange(176, 208));
    crate::field::lemma_element_injective(p.s_0, q.s_0);
    assert(p.s_1.byte_view() =~= eq_.subrange(208, 240));
    assert(q.s_1.byte_view() =~= eq_.subrange(208, 240));
    crate::field::lemma_element_injective(p.s_1, q.s_1);
    assert(p.s_2.byte_view() =~= eq_.subrange(240, 272));
    assert(q.s_2.byte_view() =~= eq_.subrange(240, 272));
    crate::field::lemma_element_injective(p.s_2, q.s_2);
    assert(p.s_3.byte_view() =~= eq_.subrange(272, 304));
    assert(q.s_3.byte_view() =~= eq_.subrange(272, 304));
    crate::field::lemma_element_injective(p.s_3, q.s_3);
    assert(p.s_4.byte_view() =~= eq_.subrange(304, 336));
    assert(q.s_4.byte_view() =~= eq_.subrange(304, 336));
    crate::field::lemma_element_injective(p.s_4, q.s_4);
    assert(p.s_5.byte_view() =~= eq_.subrange(336, 368));
    assert(q.s_5.byte_view() =~= eq_.subrange(336, 368));
    crate::field::lemma_element_injective(p.s_5, q.s_5);
    assert(p.s_6.byte_view() =~= eq_.subrange(368, 400));
    assert(q.s_6.byte_view() =~= eq_.subrange(368, 400));
    crate::field::lemma_element_injective(p.s_6, q.s_6);
    assert(p.s_7.byte_view() =~= eq_.subrange(400, 432));
    assert(q.s_7.byte_view() =~= eq_.subrange(400, 432));
    crate::field::lemma_element_injective(p.s_7, q.s_7);
}

/// Write a byte string into a buffer at an offset.
fn put_bytes(dst: &mut [u8; 432], off: usize, src: &[u8])
    requires
        off + src@.len() <= 432,
    ensures
        forall|i: int|
            0 <= i < 432 ==> final(dst)@[i] == if off <= i < off + src@.len() {
                src@[i - off]
            } else {
                old(dst)@[i]
            },
{
    let n = src.len();
    let mut j: usize = 0;
    while j < n
        invariant
            n == src@.len(),
            off + n <= 432,
            0 <= j <= n,
            forall|i: int|
                0 <= i < 432 ==> dst@[i] == if off <= i < off + j {
                    src@[i - off]
                } else {
                    old(dst)@[i]
                },
        decreases n - j,
    {
        dst[off + j] = src[j];
        j += 1;
    }
}

/// Read 48 bytes from a buffer at an offset.
fn take48(src: &[u8; 432], off: usize) -> (r: [u8; 48])
    requires
        off + 48 <= 432,
    ensures
        r@ == src@.subrange(off as int, off + 48),
{
    let mut out = [0u8; 48];
    let mut j: usize = 0;
    while j < 48
        invariant
            off + 48 <= 432,
            0 <= j <= 48,
            forall|i: int| 0 <= i < j ==> out@[i] == src@[off + i],
        decreases 48 - j,
    {
        out[j] = src[off + j];
        j += 1;
    }
    proof {
        assert(out@ =~= src@.subrange(off as int, off + 48));
    }
    out
}

/// Read 32 bytes from a buffer at an offset.
fn take32(src: &[u8; 432], off: usize) -> (r: [u8; 32])
    requires
        off + 32 <= 432,
    ensures
        r@ == src@.subrange(off as int, off + 32),
{
    let mut out = [0u8; 32];
    let mut j: usize = 0;
    while j < 32
        invariant
            off + 32 <= 432,
            0 <= j <= 32,
            forall|i: int| 0 <= i < j ==> out@[i] == src@[off + i],
        decreases 32 - j,
    {
        out[j] = src[off + j];
        j += 1;
    }
    proof {
        assert(out@ =~= src@.subrange(off as int, off + 32));
    }
    out
}

impl MembershipProof {
    /// The proof's points are valid encodings and its scalars canonical.
    pub open spec fn wf(&self) -> bool {
        &&& g1_valid_of(self.u_1@)
        &&& g1_valid_of(self.u_2@)
        &&& g1_valid_of(self.r@)
        &&& self.challenge.wf()
        &&& self.s_0.wf()
        &&& self.s_1.wf()
        &&& self.s_2.wf()
        &&& self.s_3.wf()
        &&& self.s_4.wf()
        &&& self.s_5.wf()
        &&& self.s_6.wf()
        &&& self.s_7.wf()
    }

    /// Get the 432-byte representation of the proof.
    pub fn to_bytes(&self) -> (r: [u8; 432])
        ensures
            r@ == proof_encoding(*self),
    {
        let mut res = [0u8; 432];
        put_bytes(&mut res, 0, vstd::array::array_as_slice(&self.u_1));
        put_bytes(&mut res, 48, vstd::array::array_as_slice(&self.u_2));
        put_bytes(&mut res, 96, vstd::array::array_as_slice(&self.r));
        let cb = self.challenge.to_bytes();
        put_bytes(&mut res, 144, vstd::array::array_as_slice(&cb));
        let b0 = self.s_0.to_bytes();
        put_bytes(&mut res, 176, vstd::array::array_as_slice(&b0));
        let b1 = self.s_1.to_bytes();
        put_bytes(&mut res, 208, vstd::array::array_as_slice(&b1));
        let b2 = self.s_2.to_bytes();
        put_bytes(&mut res, 240, vstd::array::array_as_slice(&b2));
        let b3 = self.s_3.to_bytes();
        put_bytes(&mut res, 272, vstd::array::array_as_slice(&b3));
        let b4 = self.s_4.to_bytes();
        put_bytes(&mut res, 304, vstd::array::array_as_slice(&b4));
        let b5 = self.s_5.to_bytes();
        put_bytes(&mut res, 336, vstd::array::array_as_slice(&b5));
        let b6 = self.s_6.to_bytes();
        put_bytes(&mut res, 368, vstd::array::array_as_slice(&b6));
        let b7 = self.s_7.to_bytes();
        put_bytes(&mut res, 400, vstd::array::array_as_slice(&b7));
        proof {
            crate::field::lemma_element_bytes(self.challenge);
            crate::field::lemma_element_bytes(self.s_0);
            crate::field::lemma_element_bytes(self.s_1);
            crate::field::lemma_element_bytes(self.s_2);
            crate::field::lemma_element_bytes(self.s_3);
            crate::field::lemma_element_bytes(self.s_4);
            crate::field::lemma_element_bytes(self.s_5);
            crate::field::lemma_element_bytes(self.s_6);
            crate::field::lemma_element_bytes(self.s_7);
            assert(res@ =~= proof_encoding(*self));
        }
        res
    }

    /// Decode a 432-byte representation.  Succeeds exactly when every point
    /// segment is a valid G1 encoding and every scalar segment canonical; on
    /// success the decoded proof re-encodes to the input.
    pub fn from_bytes(input: &[u8; 432]) -> (r: Result<MembershipProof, Error>)
        ensures
            r is Ok <==> proof_bytes_ok(input@),
            r is Ok ==> proof_encoding(r.unwrap()) == input@ && r.unwrap().wf(),
            r is Err ==> r == Result::<MembershipProof, Error>::Err(Error::InvalidByteSequence),
    {
        let u_1 = take48(input, 0);
        if !crate::group::g1_is_valid(&u_1) {
            return Err(Error::InvalidByteSequence);
        }
        let u_2 = take48(input, 48);
        if !crate::group::g1_is_valid(&u_2) {
            return Err(Error::InvalidByteSequence);
        }
        let rp = take48(input, 96);
        if !crate::group::g1_is_valid(&rp) {
            return Err(Error::InvalidByteSequence);
        }
        let cb = take32(input, 144);
        let challenge = match Element::from_bytes(&cb) {
            Some(e) => e,
            None => {
                return Err(Error::InvalidByteSequence);
            }
        };
        let b0 = take32(input, 176);
        let s_0 = match Element::from_bytes(&b0) {
            Some(e) => e,
            None => {
                return Err(Error::InvalidByteSequence);
            }
        };
        let b1 = take32(input, 208);
        let s_1 = match Element::from_bytes(&b1) {
            Some(e) => e,
            None => {
                return Err(Error::InvalidByteSequence);
            }
        };
        let b2 = take32(input, 240);
        let s_2 = match Element::from_bytes(&b2) {
            Some(e) => e,
            None => {
                return Err(Error::InvalidByteSequence);
            }
        };
        let b3 = take32(input, 272);
        let s_3 = match Element::from_bytes(&b3) {
            Some(e) => e,
            None => {
                return Err(Error::InvalidByteSequence);
            }
        };
        let b4 = take32(input, 304);
        let s_4 = match Element::from_bytes(&b4) {
            Some(e) => e,
            None => {
                return Err(Error::InvalidByteSequence);
            }
        };
        let b5 = take32(input, 336);
        let s_5 = match Element::from_bytes(&b5) {
            Some(e) => e,
            None => {
                return Err(Error::InvalidByteSequence);
            }
        };
        let b6 = take32(input, 368);
        let s_6 = match Element::from_bytes(&b6) {
            Some(e) => e,
            None => {
                return Err(Error::InvalidByteSequence);
            }
        };
        let b7 = take32(input, 400);
        let s_7 = match Element::from_bytes(&b7) {
            Some(e) => e,
            None => {
                return Err(Error::InvalidByteSequence);
            }
        };
        let p = MembershipProof {
            u_1,
            u_2,
            r: rp,
            challenge,
            s_0,
            s_1,
            s_2,
            s_3,
            s_4,
            s_5,
            s_6,
            s_7,
        };
        proof {
            assert(proof_encoding(p) =~= input@);
        }
        Ok(p)
    }

    /// Reconstruct T1, T2, π1, π2 from the responses and add them, with the
    /// proof's own points, to the transcript.
    pub fn get_bytes_for_challenge(
        &self,
        params: &AccParams,
        public_keys: &PublicKeys,
        accumulator: &Accumulator,
        transcript: &mut FsTranscript,
    )
        requires
            self.wf(),
            params.wf(),
            public_keys.wf(),
            accumulator.wf(),
        ensures
            final(transcript).domain() == old(transcript).domain(),
            final(transcript).log() == old(transcript).log() + seq![
                (L_U_1@, self.u_1@),
                (L_U_2@, self.u_2@),
                (L_R_POINT@, self.r@),
                (L_T_1@, recon_t1(*params, *self)),
                (L_T_2@, recon_t2(*params, *self)),
                (L_PI_1@, recon_pi1(*params, *public_keys, *self)),
                (L_PI_2@, recon_pi2(*params, *public_keys, *accumulator, *self)),
            ],
    {
        let x1 = params.get_x1();
        let y1 = params.get_y1();
        let z1 = params.get_z1();
        let k0 = params.get_k0();
        let k1 = params.get_k1();
        let k2 = params.get_k2();
        let p2 = params.get_p2();
        let q = public_keys.witness_key.to_bytes();
        let qm = public_keys.sign_key.to_bytes();
        let ab = accumulator.to_bytes();

        let t_1 = crate::group::g1_sub(
            &crate::group::g1_add(
                &crate::group::g1_add(
                    &crate::group::g1_mul(&x1, &self.s_1),
                    &crate::group::g1_mul(&y1, &self.s_2),
                ),
                &crate::group::g1_mul(&z1, &self.s_3),
            ),
            &crate::group::g1_mul(&self.r, &self.challenge),
        );
        let t_2 = crate::group::g1_sub(
            &crate::group::g1_add(
                &crate::group::g1_add(
                    &crate::group::g1_mul(&x1, &self.s_4),
                    &crate::group::g1_mul(&y1, &self.s_5),
                ),
                &crate::group::g1_mul(&z1, &self.s_6),
            ),
            &crate::group::g1_mul(&self.r, &self.s_7),
        );
        let pi_1 = crate::group::pair_add(
            &crate::group::g1_add(
                &crate::group::g1_add(
                    &crate::group::g1_sub(
                        &crate::group::g1_mul(&k1, &self.s_0),
                        &crate::group::g1_mul(&self.u_1, &self.s_7),
                    ),
                    &crate::group::g1_mul(&z1, &self.s_4),
                ),
                &crate::group::g1_mul(&k0, &self.challenge),
            ),
            &k2,
            &crate::group::g1_sub(
                &crate::group::g1_mul(&z1, &self.s_1),
                &crate::group::g1_mul(&self.u_1, &self.challenge),
            ),
            &qm,
        );
        let pi_2 = crate::group::pair_add(
            &crate::group::g1_add(
                &crate::group::g1_sub(
                    &crate::group::g1_mul(&z1, &self.s_5),
                    &crate::group::g1_mul(&self.u_2, &self.s_7),
                ),
                &crate::group::g1_mul(&ab, &self.challenge),
            ),
            &p2,
            &crate::group::g1_sub(
                &crate::group::g1_mul(&z1, &self.s_2),
                &crate::group::g1_mul(&self.u_2, &self.challenge),
            ),
            &q,
        );
        crate::transcript::ts_append(
            transcript,
            vstd::array::array_as_slice(&L_U_1),
            vstd::array::array_as_slice(&self.u_1),
        );
        crate::transcript::ts_append(
            transcript,
            vstd::array::array_as_slice(&L_U_2),
            vstd::array::array_as_slice(&self.u_2),
        );
        crate::transcript::ts_append(
            transcript,
            vstd::array::array_as_slice(&L_R_POINT),
            vstd::array::array_as_slice(&self.r),
        );
        crate::transcript::ts_append(
            transcript,
            vstd::array::array_as_slice(&L_T_1),
            vstd::array::array_as_slice(&t_1),
        );
        crate::transcript::ts_append(
            transcript,
            vstd::array::array_as_slice(&L_T_2),
            vstd::array::array_as_slice(&t_2),
        );
        crate::transcript::ts_append(
            transcript,
            vstd::array::array_as_slice(&L_PI_1),
            vstd::array::array_as_slice(&pi_1),
        );
        crate::transcript::ts_append(
            transcript,
            vstd::array::array_as_slice(&L_PI_2),
            vstd::array::array_as_slice(&pi_2),
        );
        proof {
            assert(transcript.log() =~= old(transcript).log() + seq![
                (L_U_1@, self.u_1@),
                (L_U_2@, self.u_2@),
                (L_R_POINT@, self.r@),
                (L_T_1@, recon_t1(*params, *self)),
                (L_T_2@, recon_t2(*params, *self)),
                (L_PI_1@, recon_pi1(*params, *public_keys, *self)),
                (L_PI_2@, recon_pi2(*params, *public_keys, *accumulator, *self)),
            ]);
        }
    }
}

} // verus!
