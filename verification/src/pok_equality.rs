//! Proof of knowledge of two discrete logarithms: given public `y1`, `y2`,
//! `a1`, `a2`, `b1` and `b2`, prove knowledge of `x1` and `x2` such that
//! `a1 * x1 + a2 * x2 = y1` and `b1 * x1 + b2 * x2 = y2`.
//!
//! 1. The prover chooses two random scalars `r1` and `r2` and commits to
//!    `t1 = a1 * r1 + a2 * r2`, `t2 = b1 * r1 + b2 * r2`.
//! 2. The transcript of `a1, a2, b1, b2, y1, y2, t1, t2` is hashed into a
//!    challenge `c` (Fiat-Shamir).
//! 3. The prover sends the responses `s1 = r1 + c * x1` and `s2 = r2 + c * x2`.
//! 4. The verifier accepts when `a1 * s1 + a2 * s2 - y1 * c = t1` and
//!    `b1 * s1 + b2 * s2 - y2 * c = t2`.
//!
//! All algebra is stated over the views of `crate::algebra`: a point stands
//! for its discrete logarithm and a scalar for its residue, both integers
//! modulo `group_order()`.

use vstd::prelude::*;
use vstd::arithmetic::div_mod::{
    lemma_add_mod_noop, lemma_add_mod_noop_right, lemma_mul_mod_noop_left,
    lemma_mul_mod_noop_right, lemma_small_mod, lemma_sub_mod_noop,
};
use vstd::slice::{slice_index_get, slice_subrange};
use crate::algebra::{
    fr_add, fr_comp_bytes, fr_eq, fr_mul, fr_read_compressed, fr_read_uncompressed,
    fr_uncomp_bytes, fr_val, fr_write_compressed, fr_write_uncompressed, fr_zeroize, g1_add,
    g1_comp_bytes, g1_dlog, g1_eq, g1_in_subgroup, g1_mul, g1_read_compressed,
    g1_read_uncompressed, g1_sub, g1_uncomp_bytes, g1_write_compressed, g1_write_uncompressed,
    group_order, serialization_invalid_data, GroupElement, Scalar,
};
use crate::error::SchnorrError;
use ark_serialize::SerializationError;

verus! {

/// `(g1 * x1 + g2 * x2) % group_order()`: the discrete logarithm of the
/// linear combination of two subgroup points with scalar coefficients.
pub open spec fn lin_comb(g1: int, x1: int, g2: int, x2: int) -> int {
    (g1 * x1 + g2 * x2) % group_order()
}

/// The residue of a response scalar `blinding + witness * challenge`.
pub open spec fn response_val(blinding: int, witness: int, challenge: int) -> int {
    (blinding + witness * challenge) % group_order()
}

/// One verification equation over discrete logarithms and residues:
/// `g1 * s1 + g2 * s2 - y * c = t` in the group, that is, modulo the order.
pub open spec fn verify_equation(g1: int, g2: int, y: int, t: int, s1: int, s2: int, c: int) -> bool {
    (g1 * s1 + g2 * s2 - y * c) % group_order() == t
}

/// The challenge transcript: the compressed encodings of the generators,
/// the targets and the commitments, in this fixed order. The order is part
/// of the wire contract and must not be altered.
pub open spec fn transcript_bytes(
    a1: GroupElement,
    a2: GroupElement,
    b1: GroupElement,
    b2: GroupElement,
    y1: GroupElement,
    y2: GroupElement,
    t1: GroupElement,
    t2: GroupElement,
) -> Seq<u8> {
    g1_comp_bytes(a1) + g1_comp_bytes(a2) + g1_comp_bytes(b1) + g1_comp_bytes(b2) + g1_comp_bytes(
        y1,
    ) + g1_comp_bytes(y2) + g1_comp_bytes(t1) + g1_comp_bytes(t2)
}

/// Whether all six public inputs of a statement lie in the prime-order
/// subgroup; under this the verification result is pinned exactly.
pub open spec fn statement_in_subgroup(
    a1: GroupElement,
    a2: GroupElement,
    b1: GroupElement,
    b2: GroupElement,
    y1: GroupElement,
    y2: GroupElement,
) -> bool {
    g1_in_subgroup(a1) && g1_in_subgroup(a2) && g1_in_subgroup(b1) && g1_in_subgroup(b2)
        && g1_in_subgroup(y1) && g1_in_subgroup(y2)
}

/// Protocol for proving knowledge of two discrete logs. The commitments
/// `t1`, `t2` are public; the witnesses and blindings are secret, live only
/// between creation and proof generation, and are erased at consumption.
pub struct PokProtocol {
    pub t1: GroupElement,
    pub t2: GroupElement,
    blinding1: Scalar,
    witness1: Scalar,
    blinding2: Scalar,
    witness2: Scalar,
}

/// Proof of knowledge of two discrete logs. Holds only public data.
pub struct PokProof {
    pub t1: GroupElement,
    pub t2: GroupElement,
    pub response1: Scalar,
    pub response2: Scalar,
}

/// The full compressed wire encoding of a proof: the ordered tuple
/// `(t1, t2, response1, response2)`.
pub open spec fn proof_comp_bytes(p: PokProof) -> Seq<u8> {
    g1_comp_bytes(p.t1) + g1_comp_bytes(p.t2) + fr_comp_bytes(p.response1) + fr_comp_bytes(
        p.response2,
    )
}

/// The encoding lengths of a proof's fields in compressed form.
pub open spec fn proof_comp_wf(p: PokProof) -> bool {
    g1_comp_bytes(p.t1).len() == 48 && g1_comp_bytes(p.t2).len() == 48 && fr_comp_bytes(
        p.response1,
    ).len() == 32 && fr_comp_bytes(p.response2).len() == 32
}

/// The full uncompressed wire encoding of a proof.
pub open spec fn proof_uncomp_bytes(p: PokProof) -> Seq<u8> {
    g1_uncomp_bytes(p.t1) + g1_uncomp_bytes(p.t2) + fr_uncomp_bytes(p.response1) + fr_uncomp_bytes(
        p.response2,
    )
}

/// The encoding lengths of a proof's fields in uncompressed form.
pub open spec fn proof_uncomp_wf(p: PokProof) -> bool {
    g1_uncomp_bytes(p.t1).len() == 96 && g1_uncomp_bytes(p.t2).len() == 96 && fr_uncomp_bytes(
        p.response1,
    ).len() == 32 && fr_uncomp_bytes(p.response2).len() == 32
}

/// Two proofs carrying the same commitments and the same response
/// residues: everything any contract of this module depends on. A decoder
/// pins its result to this equivalence, since a scalar is determined by
/// its encoding only up to the residue it represents.
pub open spec fn proof_equiv(p: PokProof, q: PokProof) -> bool {
    p.t1 == q.t1 && p.t2 == q.t2 && fr_val(p.response1) == fr_val(q.response1) && fr_val(
        p.response2,
    ) == fr_val(q.response2)
}

/// A proof whose commitments lie in the prime-order subgroup, as every
/// honestly generated proof's do.
pub open spec fn proof_in_subgroup(p: PokProof) -> bool {
    g1_in_subgroup(p.t1) && g1_in_subgroup(p.t2)
}

/// Appends the compressed encoding of one point to the transcript. An
/// encoder failure would surface as a `Serialization` error, but the
/// in-memory sink cannot fail, so success is promised.
fn write_point(p: &GroupElement, writer: &mut Vec<u8>) -> (r: Result<(), SchnorrError>)
    ensures
        r is Ok,
        final(writer)@ == old(writer)@ + g1_comp_bytes(*p),
{
    match g1_write_compressed(p, writer) {
        Ok(_) => Ok(()),
        Err(e) => Err(SchnorrError::Serialization(e)),
    }
}

/// Compares two byte slices for equality.
fn bytes_eq(a: &[u8], b: &[u8]) -> (r: bool)
    ensures
        r == (a@ == b@),
{
    if a.len() != b.len() {
        return false;
    }
    let mut i: usize = 0;
    while i < a.len()
        invariant
            i <= a@.len(),
            a@.len() == b@.len(),
            forall|k: int| 0 <= k < i ==> a@[k] == b@[k],
        decreases a@.len() - i,
    {
        if *slice_index_get(a, i) != *slice_index_get(b, i) {
            return false;
        }
        i = i + 1;
    }
    proof {
        assert(a@ =~= b@);
    }
    true
}

impl PokProtocol {
    /// The first commitment (specification-only view; the field itself is
    /// public, but the datatype is opaque to specifications outside this
    /// module because it also holds secret fields).
    pub closed spec fn spec_t1(self) -> GroupElement {
        self.t1
    }

    /// The second commitment (specification-only view).
    pub closed spec fn spec_t2(self) -> GroupElement {
        self.t2
    }

    /// The first secret blinding scalar (specification-only view).
    pub closed spec fn spec_blinding1(self) -> Scalar {
        self.blinding1
    }

    /// The first secret witness scalar (specification-only view).
    pub closed spec fn spec_witness1(self) -> Scalar {
        self.witness1
    }

    /// The second secret blinding scalar (specification-only view).
    pub closed spec fn spec_blinding2(self) -> Scalar {
        self.blinding2
    }

    /// The second secret witness scalar (specification-only view).
    pub closed spec fn spec_witness2(self) -> Scalar {
        self.witness2
    }

    /// The first commitment, pinned to its specification view so callers
    /// can relate the public field to the contracts of this module (the
    /// field itself cannot appear in public specifications).
    pub fn commitment_t1(&self) -> (r: GroupElement)
        ensures
            r == self.spec_t1(),
    {
        self.t1
    }

    /// The second commitment, pinned to its specification view.
    pub fn commitment_t2(&self) -> (r: GroupElement)
        ensures
            r == self.spec_t2(),
    {
        self.t2
    }

    /// Commits to the blindings: `t1 = a1 * blinding1 + a2 * blinding2` and
    /// `t2 = b1 * blinding1 + b2 * blinding2`. No input validation is
    /// performed and no error is possible; the caller is responsible for
    /// supplying cryptographically secure, single-use blinding values.
    pub fn init(
        witness1: Scalar,
        blinding1: Scalar,
        a1: &GroupElement,
        a2: &GroupElement,
        witness2: Scalar,
        blinding2: Scalar,
        b1: &GroupElement,
        b2: &GroupElement,
    ) -> (p: Self)
        ensures
            p.spec_witness1() == witness1,
            p.spec_blinding1() == blinding1,
            p.spec_witness2() == witness2,
            p.spec_blinding2() == blinding2,
            g1_in_subgroup(*a1) && g1_in_subgroup(*a2) ==> g1_in_subgroup(p.spec_t1()) && g1_dlog(
                p.spec_t1(),
            ) == lin_comb(g1_dlog(*a1), fr_val(blinding1), g1_dlog(*a2), fr_val(blinding2)),
            g1_in_subgroup(*b1) && g1_in_subgroup(*b2) ==> g1_in_subgroup(p.spec_t2()) && g1_dlog(
                p.spec_t2(),
            ) == lin_comb(g1_dlog(*b1), fr_val(blinding1), g1_dlog(*b2), fr_val(blinding2)),
    {
        let m1 = g1_mul(a1, &blinding1);
        let m2 = g1_mul(a2, &blinding2);
        let t1 = g1_add(&m1, &m2);
        let n1 = g1_mul(b1, &blinding1);
        let n2 = g1_mul(b2, &blinding2);
        let t2 = g1_add(&n1, &n2);
        proof {
            if g1_in_subgroup(*a1) && g1_in_subgroup(*a2) {
                lemma_add_mod_noop(
                    g1_dlog(*a1) * fr_val(blinding1),
                    g1_dlog(*a2) * fr_val(blinding2),
                    group_order(),
                );
            }
            if g1_in_subgroup(*b1) && g1_in_subgroup(*b2) {
                lemma_add_mod_noop(
                    g1_dlog(*b1) * fr_val(blinding1),
                    g1_dlog(*b2) * fr_val(blinding2),
                    group_order(),
                );
            }
        }
        PokProtocol { t1, t2, blinding1, witness1, blinding2, witness2 }
    }

    /// Serializes, in fixed order, the compressed encodings of
    /// `a1, a2, b1, b2, y1, y2` and this protocol's commitments into the
    /// transcript. Borrows only public data; may be called any number of
    /// times before proof generation. The `Result` carries the error class
    /// of fallible sinks; with the in-memory buffer used here, success is
    /// guaranteed.
    pub fn challenge_contribution(
        &self,
        a1: &GroupElement,
        a2: &GroupElement,
        b1: &GroupElement,
        b2: &GroupElement,
        y1: &GroupElement,
        y2: &GroupElement,
        writer: &mut Vec<u8>,
    ) -> (r: Result<(), SchnorrError>)
        ensures
            r is Ok,
            final(writer)@ == old(writer)@ + transcript_bytes(
                *a1,
                *a2,
                *b1,
                *b2,
                *y1,
                *y2,
                self.spec_t1(),
                self.spec_t2(),
            ),
    {
        Self::compute_challenge_contribution(a1, a2, b1, b2, y1, y2, &self.t1, &self.t2, writer)
    }

    /// Consumes the protocol (one-time use) and computes the responses
    /// `response1 = blinding1 + witness1 * challenge` and
    /// `response2 = blinding2 + witness2 * challenge`. The secret scalars
    /// are erased as part of this consumption.
    pub fn gen_proof(self, challenge: &Scalar) -> (proof: PokProof)
        ensures
            proof.t1 == self.spec_t1(),
            proof.t2 == self.spec_t2(),
            fr_val(proof.response1) == response_val(
                fr_val(self.spec_blinding1()),
                fr_val(self.spec_witness1()),
                fr_val(*challenge),
            ),
            fr_val(proof.response2) == response_val(
                fr_val(self.spec_blinding2()),
                fr_val(self.spec_witness2()),
                fr_val(*challenge),
            ),
    {
        let mut this = self;
        let wc1 = fr_mul(&this.witness1, challenge);
        let response1 = fr_add(&this.blinding1, &wc1);
        let wc2 = fr_mul(&this.witness2, challenge);
        let response2 = fr_add(&this.blinding2, &wc2);
        proof {
            lemma_add_mod_noop_right(
                fr_val(this.blinding1),
                fr_val(this.witness1) * fr_val(*challenge),
                group_order(),
            );
            lemma_add_mod_noop_right(
                fr_val(this.blinding2),
                fr_val(this.witness2) * fr_val(*challenge),
                group_order(),
            );
        }
        fr_zeroize(&mut this.blinding1);
        fr_zeroize(&mut this.witness1);
        fr_zeroize(&mut this.blinding2);
        fr_zeroize(&mut this.witness2);
        PokProof { t1: this.t1, t2: this.t2, response1, response2 }
    }

    /// Serializes, in fixed order, the compressed encodings of
    /// `a1, a2, b1, b2, y1, y2, t1, t2` into the transcript. This ordering
    /// is the wire contract both prover and verifier hash. The `Result`
    /// carries the error class of fallible sinks; the in-memory buffer
    /// cannot fail, so `Ok` is promised.
    pub fn compute_challenge_contribution(
        a1: &GroupElement,
        a2: &GroupElement,
        b1: &GroupElement,
        b2: &GroupElement,
        y1: &GroupElement,
        y2: &GroupElement,
        t1: &GroupElement,
        t2: &GroupElement,
        writer: &mut Vec<u8>,
    ) -> (r: Result<(), SchnorrError>)
        ensures
            r is Ok,
            final(writer)@ == old(writer)@ + transcript_bytes(
                *a1,
                *a2,
                *b1,
                *b2,
                *y1,
                *y2,
                *t1,
                *t2,
            ),
    {
        match write_point(a1, writer) {
            Ok(_) => {},
            Err(e) => {
                return Err(e);
            },
        }
        match write_point(a2, writer) {
            Ok(_) => {},
            Err(e) => {
                return Err(e);
            },
        }
        match write_point(b1, writer) {
            Ok(_) => {},
            Err(e) => {
                return Err(e);
            },
        }
        match write_point(b2, writer) {
            Ok(_) => {},
            Err(e) => {
                return Err(e);
            },
        }
        match write_point(y1, writer) {
            Ok(_) => {},
            Err(e) => {
                return Err(e);
            },
        }
        match write_point(y2, writer) {
            Ok(_) => {},
            Err(e) => {
                return Err(e);
            },
        }
        match write_point(t1, writer) {
            Ok(_) => {},
            Err(e) => {
                return Err(e);
            },
        }
        match write_point(t2, writer) {
            Ok(_) => {},
            Err(e) => {
                return Err(e);
            },
        }
        proof {
            assert(writer@ =~= old(writer)@ + transcript_bytes(
                *a1,
                *a2,
                *b1,
                *b2,
                *y1,
                *y2,
                *t1,
                *t2,
            ));
        }
        Ok(())
    }
}

impl Clone for PokProtocol {
    /// An identical protocol instance. Cloning duplicates the secrets; the
    /// clone is subject to the same single-use obligation as the original.
    fn clone(&self) -> (r: Self)
        ensures
            r == *self,
    {
        PokProtocol {
            t1: self.t1,
            t2: self.t2,
            blinding1: self.blinding1,
            witness1: self.witness1,
            blinding2: self.blinding2,
            witness2: self.witness2,
        }
    }
}

impl Clone for PokProof {
    /// An identical proof value.
    fn clone(&self) -> (r: Self)
        ensures
            r == *self,
    {
        PokProof { t1: self.t1, t2: self.t2, response1: self.response1, response2: self.response2 }
    }
}

impl Drop for PokProtocol {
    /// Erases the secret scalars whenever the protocol's storage is
    /// reclaimed, including early abandonment without proof generation.
    fn drop(&mut self)
        opens_invariants none
        no_unwind
    {
        fr_zeroize(&mut self.blinding1);
        fr_zeroize(&mut self.witness1);
        fr_zeroize(&mut self.blinding2);
        fr_zeroize(&mut self.witness2);
    }
}

impl PokProof {
    /// Serializes the same transcript as the protocol's version, from the
    /// proof's own commitments, so the verifier can reproduce it.
    pub fn challenge_contribution(
        &self,
        a1: &GroupElement,
        a2: &GroupElement,
        b1: &GroupElement,
        b2: &GroupElement,
        y1: &GroupElement,
        y2: &GroupElement,
        writer: &mut Vec<u8>,
    ) -> (r: Result<(), SchnorrError>)
        ensures
            r is Ok,
            final(writer)@ == old(writer)@ + transcript_bytes(
                *a1,
                *a2,
                *b1,
                *b2,
                *y1,
                *y2,
                self.t1,
                self.t2,
            ),
    {
        PokProtocol::compute_challenge_contribution(
            a1,
            a2,
            b1,
            b2,
            y1,
            y2,
            &self.t1,
            &self.t2,
            writer,
        )
    }

    /// Checks `a1 * response1 + a2 * response2 - y1 * challenge == t1` and
    /// `b1 * response1 + b2 * response2 - y2 * challenge == t2`. A `false`
    /// result is the expected negative outcome of an invalid proof, not an
    /// error.
    pub fn verify(
        &self,
        y1: &GroupElement,
        y2: &GroupElement,
        a1: &GroupElement,
        a2: &GroupElement,
        b1: &GroupElement,
        b2: &GroupElement,
        challenge: &Scalar,
    ) -> (r: bool)
        ensures
            statement_in_subgroup(*a1, *a2, *b1, *b2, *y1, *y2) && g1_in_subgroup(self.t1)
                && g1_in_subgroup(self.t2) ==> r == (verify_equation(
                g1_dlog(*a1),
                g1_dlog(*a2),
                g1_dlog(*y1),
                g1_dlog(self.t1),
                fr_val(self.response1),
                fr_val(self.response2),
                fr_val(*challenge),
            ) && verify_equation(
                g1_dlog(*b1),
                g1_dlog(*b2),
                g1_dlog(*y2),
                g1_dlog(self.t2),
                fr_val(self.response1),
                fr_val(self.response2),
                fr_val(*challenge),
            )),
    {
        let m1 = g1_mul(a1, &self.response1);
        let m2 = g1_mul(a2, &self.response2);
        let sum1 = g1_add(&m1, &m2);
        let yc1 = g1_mul(y1, challenge);
        let lhs1 = g1_sub(&sum1, &yc1);
        let result1 = g1_eq(&lhs1, &self.t1);

        let n1 = g1_mul(b1, &self.response1);
        let n2 = g1_mul(b2, &self.response2);
        let sum2 = g1_add(&n1, &n2);
        let yc2 = g1_mul(y2, challenge);
        let lhs2 = g1_sub(&sum2, &yc2);
        let result2 = g1_eq(&lhs2, &self.t2);

        proof {
            if statement_in_subgroup(*a1, *a2, *b1, *b2, *y1, *y2) {
                lemma_linear_combination_mod(
                    g1_dlog(*a1) * fr_val(self.response1),
                    g1_dlog(*a2) * fr_val(self.response2),
                    g1_dlog(*y1) * fr_val(*challenge),
                );
                lemma_linear_combination_mod(
                    g1_dlog(*b1) * fr_val(self.response1),
                    g1_dlog(*b2) * fr_val(self.response2),
                    g1_dlog(*y2) * fr_val(*challenge),
                );
            }
        }
        result1 && result2
    }

    /// Writes the compressed wire encoding `(t1, t2, response1, response2)`.
    pub fn serialize_compressed(&self, writer: &mut Vec<u8>) -> (r: Result<(), SerializationError>)
        ensures
            r is Ok,
            final(writer)@ == old(writer)@ + proof_comp_bytes(*self),
            proof_comp_wf(*self),
    {
        match g1_write_compressed(&self.t1, writer) {
            Ok(_) => {},
            Err(e) => {
                return Err(e);
            },
        }
        match g1_write_compressed(&self.t2, writer) {
            Ok(_) => {},
            Err(e) => {
                return Err(e);
            },
        }
        match fr_write_compressed(&self.response1, writer) {
            Ok(_) => {},
            Err(e) => {
                return Err(e);
            },
        }
        match fr_write_compressed(&self.response2, writer) {
            Ok(_) => {},
            Err(e) => {
                return Err(e);
            },
        }
        proof {
            assert(writer@ =~= old(writer)@ + proof_comp_bytes(*self));
        }
        Ok(())
    }

    /// Writes the uncompressed wire encoding `(t1, t2, response1, response2)`.
    pub fn serialize_uncompressed(&self, writer: &mut Vec<u8>) -> (r: Result<
        (),
        SerializationError,
    >)
        ensures
            r is Ok,
            final(writer)@ == old(writer)@ + proof_uncomp_bytes(*self),
            proof_uncomp_wf(*self),
    {
        match g1_write_uncompressed(&self.t1, writer) {
            Ok(_) => {},
            Err(e) => {
                return Err(e);
            },
        }
        match g1_write_uncompressed(&self.t2, writer) {
            Ok(_) => {},
            Err(e) => {
                return Err(e);
            },
        }
        match fr_write_uncompressed(&self.response1, writer) {
            Ok(_) => {},
            Err(e) => {
                return Err(e);
            },
        }
        match fr_write_uncompressed(&self.response2, writer) {
            Ok(_) => {},
            Err(e) => {
                return Err(e);
            },
        }
        proof {
            assert(writer@ =~= old(writer)@ + proof_uncomp_bytes(*self));
        }
        Ok(())
    }

    /// Decodes the compressed wire encoding. A successful decode
    /// re-encodes to the input bytes, and the encoding of any proof whose
    /// commitments lie in the subgroup decodes back to an equivalent
    /// proof.
    pub fn deserialize_compressed(bytes: &[u8]) -> (r: Result<PokProof, SerializationError>)
        ensures
            r matches Ok(p) ==> bytes@ == proof_comp_bytes(p) && proof_comp_wf(p)
                && proof_in_subgroup(p),
            r is Err ==> forall|p: PokProof|
                proof_comp_wf(p) && proof_in_subgroup(p) ==> bytes@ != #[trigger] proof_comp_bytes(
                    p,
                ),
            r matches Ok(q) ==> forall|p: PokProof|
                proof_comp_wf(p) && proof_in_subgroup(p) && bytes@ == #[trigger] proof_comp_bytes(
                    p,
                ) ==> proof_equiv(p, q),
    {
        if bytes.len() != 160 {
            proof {
                assert forall|p: PokProof| proof_comp_wf(p) implies bytes@
                    != #[trigger] proof_comp_bytes(p) by {
                    assert(proof_comp_bytes(p).len() == 160);
                }
            }
            return Err(serialization_invalid_data());
        }
        let c1 = slice_subrange(bytes, 0, 48);
        let c2 = slice_subrange(bytes, 48, 96);
        let c3 = slice_subrange(bytes, 96, 128);
        let c4 = slice_subrange(bytes, 128, 160);
        proof {
            assert forall|p: PokProof| proof_comp_wf(p) && bytes@ == #[trigger] proof_comp_bytes(
                p,
            ) implies c1@ == g1_comp_bytes(p.t1) && c2@ == g1_comp_bytes(p.t2) && c3@
                == fr_comp_bytes(p.response1) && c4@ == fr_comp_bytes(p.response2) by {
                lemma_comp_split(p, bytes@);
            }
        }
        let t1 = match g1_read_compressed(c1) {
            Ok(v) => v,
            Err(e) => {
                return Err(e);
            },
        };
        let t2 = match g1_read_compressed(c2) {
            Ok(v) => v,
            Err(e) => {
                return Err(e);
            },
        };
        let response1 = match fr_read_compressed(c3) {
            Ok(v) => v,
            Err(e) => {
                return Err(e);
            },
        };
        let response2 = match fr_read_compressed(c4) {
            Ok(v) => v,
            Err(e) => {
                return Err(e);
            },
        };
        let q = PokProof { t1, t2, response1, response2 };
        proof {
            assert(bytes@ =~= proof_comp_bytes(q));
        }
        Ok(q)
    }

    /// Decodes the uncompressed wire encoding, with the same round-trip
    /// guarantees as the compressed form; a successful decode re-encodes
    /// to the exact input, which this function enforces by re-encoding
    /// the decoded commitments (the underlying reader alone also accepts
    /// a flagless all-zero spelling of the identity). The curve's
    /// uncompressed decoder validates flags and canonical coordinates and
    /// runs the subgroup test that presumes the curve equation, but never
    /// the curve equation itself, so subgroup membership of the decoded
    /// commitments is not promised here.
    pub fn deserialize_uncompressed(bytes: &[u8]) -> (r: Result<PokProof, SerializationError>)
        ensures
            r matches Ok(p) ==> bytes@ == proof_uncomp_bytes(p) && proof_uncomp_wf(p),
            r is Err ==> forall|p: PokProof|
                proof_uncomp_wf(p) && proof_in_subgroup(p) ==> bytes@
                    != #[trigger] proof_uncomp_bytes(p),
            r matches Ok(q) ==> forall|p: PokProof|
                proof_uncomp_wf(p) && proof_in_subgroup(p) && bytes@
                    == #[trigger] proof_uncomp_bytes(p) ==> proof_equiv(p, q),
    {
        if bytes.len() != 256 {
            proof {
                assert forall|p: PokProof| proof_uncomp_wf(p) implies bytes@
                    != #[trigger] proof_uncomp_bytes(p) by {
                    assert(proof_uncomp_bytes(p).len() == 256);
                }
            }
            return Err(serialization_invalid_data());
        }
        let c1 = slice_subrange(bytes, 0, 96);
        let c2 = slice_subrange(bytes, 96, 192);
        let c3 = slice_subrange(bytes, 192, 224);
        let c4 = slice_subrange(bytes, 224, 256);
        proof {
            assert forall|p: PokProof| proof_uncomp_wf(p) && bytes@ == #[trigger] proof_uncomp_bytes(
                p,
            ) implies c1@ == g1_uncomp_bytes(p.t1) && c2@ == g1_uncomp_bytes(p.t2) && c3@
                == fr_uncomp_bytes(p.response1) && c4@ == fr_uncomp_bytes(p.response2) by {
                lemma_uncomp_split(p, bytes@);
            }
        }
        let t1 = match g1_read_uncompressed(c1) {
            Ok(v) => v,
            Err(e) => {
                return Err(e);
            },
        };
        // The underlying reader also accepts a flagless all-zero spelling
        // of the identity, so canonicity is enforced here: the decoded
        // point must re-encode to the exact input field.
        let mut enc1: Vec<u8> = Vec::new();
        match g1_write_uncompressed(&t1, &mut enc1) {
            Ok(_) => {},
            Err(e) => {
                return Err(e);
            },
        }
        if !bytes_eq(enc1.as_slice(), c1) {
            proof {
                assert forall|p: PokProof|
                    proof_uncomp_wf(p) && proof_in_subgroup(p) implies bytes@
                    != #[trigger] proof_uncomp_bytes(p) by {
                    if bytes@ == proof_uncomp_bytes(p) {
                        lemma_uncomp_split(p, bytes@);
                    }
                }
            }
            return Err(serialization_invalid_data());
        }
        let t2 = match g1_read_uncompressed(c2) {
            Ok(v) => v,
            Err(e) => {
                return Err(e);
            },
        };
        let mut enc2: Vec<u8> = Vec::new();
        match g1_write_uncompressed(&t2, &mut enc2) {
            Ok(_) => {},
            Err(e) => {
                return Err(e);
            },
        }
        if !bytes_eq(enc2.as_slice(), c2) {
            proof {
                assert forall|p: PokProof|
                    proof_uncomp_wf(p) && proof_in_subgroup(p) implies bytes@
                    != #[trigger] proof_uncomp_bytes(p) by {
                    if bytes@ == proof_uncomp_bytes(p) {
                        lemma_uncomp_split(p, bytes@);
                    }
                }
            }
            return Err(serialization_invalid_data());
        }
        let response1 = match fr_read_uncompressed(c3) {
            Ok(v) => v,
            Err(e) => {
                return Err(e);
            },
        };
        let response2 = match fr_read_uncompressed(c4) {
            Ok(v) => v,
            Err(e) => {
                return Err(e);
            },
        };
        let q = PokProof { t1, t2, response1, response2 };
        proof {
            assert(bytes@ =~= proof_uncomp_bytes(q));
        }
        Ok(q)
    }
}

impl PartialEq for PokProof {
    /// Structural equality: the same commitments and the same responses.
    fn eq(&self, other: &Self) -> (r: bool) {
        g1_eq(&self.t1, &other.t1) && g1_eq(&self.t2, &other.t2) && fr_eq(
            &self.response1,
            &other.response1,
        ) && fr_eq(&self.response2, &other.response2)
    }
}

impl vstd::std_specs::cmp::PartialEqSpecImpl for PokProof {
    open spec fn obeys_eq_spec() -> bool {
        true
    }

    open spec fn eq_spec(&self, other: &Self) -> bool {
        self.t1 == other.t1 && self.t2 == other.t2 && fr_val(self.response1) == fr_val(
            other.response1,
        ) && fr_val(self.response2) == fr_val(other.response2)
    }
}

/// The bytes of a compressed proof encoding split at the fields' fixed
/// offsets.
proof fn lemma_comp_split(p: PokProof, bytes: Seq<u8>)
    requires
        proof_comp_wf(p),
        bytes == proof_comp_bytes(p),
    ensures
        bytes.len() == 160,
        bytes.subrange(0, 48) == g1_comp_bytes(p.t1),
        bytes.subrange(48, 96) == g1_comp_bytes(p.t2),
        bytes.subrange(96, 128) == fr_comp_bytes(p.response1),
        bytes.subrange(128, 160) == fr_comp_bytes(p.response2),
{
    assert(bytes.subrange(0, 48) =~= g1_comp_bytes(p.t1));
    assert(bytes.subrange(48, 96) =~= g1_comp_bytes(p.t2));
    assert(bytes.subrange(96, 128) =~= fr_comp_bytes(p.response1));
    assert(bytes.subrange(128, 160) =~= fr_comp_bytes(p.response2));
}

/// The bytes of an uncompressed proof encoding split at the fields' fixed
/// offsets.
proof fn lemma_uncomp_split(p: PokProof, bytes: Seq<u8>)
    requires
        proof_uncomp_wf(p),
        bytes == proof_uncomp_bytes(p),
    ensures
        bytes.len() == 256,
        bytes.subrange(0, 96) == g1_uncomp_bytes(p.t1),
        bytes.subrange(96, 192) == g1_uncomp_bytes(p.t2),
        bytes.subrange(192, 224) == fr_uncomp_bytes(p.response1),
        bytes.subrange(224, 256) == fr_uncomp_bytes(p.response2),
{
    assert(bytes.subrange(0, 96) =~= g1_uncomp_bytes(p.t1));
    assert(bytes.subrange(96, 192) =~= g1_uncomp_bytes(p.t2));
    assert(bytes.subrange(192, 224) =~= fr_uncomp_bytes(p.response1));
    assert(bytes.subrange(224, 256) =~= fr_uncomp_bytes(p.response2));
}

/// Folding the modulus through `p1 + p2 - p3` step by step, as the group
/// operations do, agrees with reducing the whole expression once.
proof fn lemma_linear_combination_mod(p1: int, p2: int, p3: int)
    ensures
        (((p1 % group_order() + p2 % group_order()) % group_order()) - p3 % group_order())
            % group_order() == (p1 + p2 - p3) % group_order(),
{
    lemma_add_mod_noop(p1, p2, group_order());
    lemma_sub_mod_noop(p1 + p2, p3, group_order());
}

/// Congruent summands and subtrahends give congruent sums: if `x`, `y`, `z`
/// agree with `x2`, `y2`, `z2` modulo `m`, then so does `x + y - z` with
/// `x2 + y2 - z2`.
proof fn lemma_sub_add_mod_congruent(x: int, y: int, z: int, x2: int, y2: int, z2: int, m: int)
    requires
        m > 0,
        x % m == x2 % m,
        y % m == y2 % m,
        z % m == z2 % m,
    ensures
        (x + y - z) % m == (x2 + y2 - z2) % m,
{
    lemma_add_mod_noop(x, y, m);
    lemma_add_mod_noop(x2, y2, m);
    lemma_sub_mod_noop(x + y, z, m);
    lemma_sub_mod_noop(x2 + y2, z2, m);
}

/// Two expressions equal modulo `m` differ by a multiple of `m`.
proof fn lemma_mod_difference_zero(x: int, y: int, m: int)
    requires
        m > 0,
        x % m == y % m,
    ensures
        (x - y) % m == 0,
{
    lemma_sub_mod_noop(x, y, m);
    lemma_small_mod(0nat, m as nat);
}

/// Completeness of one verification equation: whenever the target is the
/// stated linear combination of the witnesses, the commitment is the linear
/// combination of the blindings, and the responses are formed as
/// `blinding + witness * challenge`, the equation holds — for every
/// challenge. Applied to both generator pairs, this says an honestly
/// generated proof always verifies.
#[verifier::rlimit(50)]
pub proof fn lemma_completeness(g1: int, g2: int, x1: int, x2: int, r1: int, r2: int, c: int)
    ensures
        verify_equation(
            g1,
            g2,
            lin_comb(g1, x1, g2, x2),
            lin_comb(g1, r1, g2, r2),
            response_val(r1, x1, c),
            response_val(r2, x2, c),
            c,
        ),
{
    let q = group_order();
    let s1 = response_val(r1, x1, c);
    let s2 = response_val(r2, x2, c);
    let y = lin_comb(g1, x1, g2, x2);
    lemma_mul_mod_noop_right(g1, r1 + x1 * c, q);
    lemma_mul_mod_noop_right(g2, r2 + x2 * c, q);
    lemma_mul_mod_noop_left(g1 * x1 + g2 * x2, c, q);
    assert(g1 * ((r1 + x1 * c) % q) == g1 * s1) by (nonlinear_arith)
        requires
            s1 == (r1 + x1 * c) % q,
    ;
    assert(g2 * ((r2 + x2 * c) % q) == g2 * s2) by (nonlinear_arith)
        requires
            s2 == (r2 + x2 * c) % q,
    ;
    assert(((g1 * x1 + g2 * x2) % q) * c == y * c) by (nonlinear_arith)
        requires
            y == (g1 * x1 + g2 * x2) % q,
    ;
    lemma_sub_add_mod_congruent(
        g1 * s1,
        g2 * s2,
        y * c,
        g1 * (r1 + x1 * c),
        g2 * (r2 + x2 * c),
        (g1 * x1 + g2 * x2) * c,
        q,
    );
    assert(g1 * (r1 + x1 * c) + g2 * (r2 + x2 * c) - (g1 * x1 + g2 * x2) * c == g1 * r1 + g2
        * r2) by (nonlinear_arith);
}

/// Completeness of the whole protocol, in the shapes the contracts of
/// `init`, `gen_proof` and `verify` produce: when the targets are the
/// stated combinations of the witnesses, the commitments the combinations
/// of the blindings (as `init` ensures), and the responses formed as
/// `gen_proof` ensures, both verification equations hold, so `verify`
/// returns `true` — for every challenge scalar.
pub proof fn lemma_honest_proof_verifies(
    a1: int,
    a2: int,
    b1: int,
    b2: int,
    x1: int,
    x2: int,
    r1: int,
    r2: int,
    c: int,
    y1: int,
    y2: int,
    t1: int,
    t2: int,
    s1: int,
    s2: int,
)
    requires
        y1 == lin_comb(a1, x1, a2, x2),
        y2 == lin_comb(b1, x1, b2, x2),
        t1 == lin_comb(a1, r1, a2, r2),
        t2 == lin_comb(b1, r1, b2, r2),
        s1 == response_val(r1, x1, c),
        s2 == response_val(r2, x2, c),
    ensures
        verify_equation(a1, a2, y1, t1, s1, s2, c),
        verify_equation(b1, b2, y2, t2, s1, s2, c),
{
    lemma_completeness(a1, a2, x1, x2, r1, r2, c);
    lemma_completeness(b1, b2, x1, x2, r1, r2, c);
}

/// Prover-computed and verifier-computed challenge transcripts are
/// byte-for-byte identical for the same public inputs whenever the proof
/// carries the protocol's commitments, as `gen_proof` guarantees.
pub proof fn lemma_transcript_agreement(
    protocol: &PokProtocol,
    proof: &PokProof,
    a1: &GroupElement,
    a2: &GroupElement,
    b1: &GroupElement,
    b2: &GroupElement,
    y1: &GroupElement,
    y2: &GroupElement,
)
    requires
        proof.t1 == protocol.spec_t1(),
        proof.t2 == protocol.spec_t2(),
    ensures
        transcript_bytes(*a1, *a2, *b1, *b2, *y1, *y2, protocol.spec_t1(), protocol.spec_t2())
            == transcript_bytes(*a1, *a2, *b1, *b2, *y1, *y2, proof.t1, proof.t2),
{
}

/// Changing a commitment in an accepted equation makes it fail: the
/// equation's left side is untouched, so any different commitment value
/// mismatches.
pub proof fn lemma_sensitivity_commitment(
    g1: int,
    g2: int,
    y: int,
    t: int,
    tb: int,
    s1: int,
    s2: int,
    c: int,
)
    requires
        verify_equation(g1, g2, y, t, s1, s2, c),
        tb != t,
    ensures
        !verify_equation(g1, g2, y, tb, s1, s2, c),
{
}

/// Changing the first response makes an accepted equation fail, except in
/// the degenerate case where the change is invisible modulo the order
/// (`g1 * (s1b - s1)` a multiple of the order).
pub proof fn lemma_sensitivity_response1(
    g1: int,
    g2: int,
    y: int,
    t: int,
    s1: int,
    s1b: int,
    s2: int,
    c: int,
)
    requires
        verify_equation(g1, g2, y, t, s1, s2, c),
        (g1 * (s1b - s1)) % group_order() != 0,
    ensures
        !verify_equation(g1, g2, y, t, s1b, s2, c),
{
    let q = group_order();
    if verify_equation(g1, g2, y, t, s1b, s2, c) {
        lemma_mod_difference_zero(g1 * s1b + g2 * s2 - y * c, g1 * s1 + g2 * s2 - y * c, q);
        assert((g1 * s1b + g2 * s2 - y * c) - (g1 * s1 + g2 * s2 - y * c) == g1 * (s1b
            - s1)) by (nonlinear_arith);
    }
}

/// Changing the second response makes an accepted equation fail, except in
/// the degenerate case where the change is invisible modulo the order.
pub proof fn lemma_sensitivity_response2(
    g1: int,
    g2: int,
    y: int,
    t: int,
    s1: int,
    s2: int,
    s2b: int,
    c: int,
)
    requires
        verify_equation(g1, g2, y, t, s1, s2, c),
        (g2 * (s2b - s2)) % group_order() != 0,
    ensures
        !verify_equation(g1, g2, y, t, s1, s2b, c),
{
    let q = group_order();
    if verify_equation(g1, g2, y, t, s1, s2b, c) {
        lemma_mod_difference_zero(g1 * s1 + g2 * s2b - y * c, g1 * s1 + g2 * s2 - y * c, q);
        assert((g1 * s1 + g2 * s2b - y * c) - (g1 * s1 + g2 * s2 - y * c) == g2 * (s2b
            - s2)) by (nonlinear_arith);
    }
}

/// Changing the first generator makes an accepted equation fail, except in
/// the degenerate case where the change is invisible modulo the order.
pub proof fn lemma_sensitivity_generator1(
    g1: int,
    g1b: int,
    g2: int,
    y: int,
    t: int,
    s1: int,
    s2: int,
    c: int,
)
    requires
        verify_equation(g1, g2, y, t, s1, s2, c),
        ((g1b - g1) * s1) % group_order() != 0,
    ensures
        !verify_equation(g1b, g2, y, t, s1, s2, c),
{
    let q = group_order();
    if verify_equation(g1b, g2, y, t, s1, s2, c) {
        lemma_mod_difference_zero(g1b * s1 + g2 * s2 - y * c, g1 * s1 + g2 * s2 - y * c, q);
        assert((g1b * s1 + g2 * s2 - y * c) - (g1 * s1 + g2 * s2 - y * c) == (g1b - g1)
            * s1) by (nonlinear_arith);
    }
}

/// Changing the second generator makes an accepted equation fail, except in
/// the degenerate case where the change is invisible modulo the order.
pub proof fn lemma_sensitivity_generator2(
    g1: int,
    g2: int,
    g2b: int,
    y: int,
    t: int,
    s1: int,
    s2: int,
    c: int,
)
    requires
        verify_equation(g1, g2, y, t, s1, s2, c),
        ((g2b - g2) * s2) % group_order() != 0,
    ensures
        !verify_equation(g1, g2b, y, t, s1, s2, c),
{
    let q = group_order();
    if verify_equation(g1, g2b, y, t, s1, s2, c) {
        lemma_mod_difference_zero(g1 * s1 + g2b * s2 - y * c, g1 * s1 + g2 * s2 - y * c, q);
        assert((g1 * s1 + g2b * s2 - y * c) - (g1 * s1 + g2 * s2 - y * c) == (g2b - g2)
            * s2) by (nonlinear_arith);
    }
}

/// Changing the target makes an accepted equation fail, except in the
/// degenerate case where the change is invisible modulo the order.
pub proof fn lemma_sensitivity_target(
    g1: int,
    g2: int,
    y: int,
    yb: int,
    t: int,
    s1: int,
    s2: int,
    c: int,
)
    requires
        verify_equation(g1, g2, y, t, s1, s2, c),
        ((y - yb) * c) % group_order() != 0,
    ensures
        !verify_equation(g1, g2, yb, t, s1, s2, c),
{
    let q = group_order();
    if verify_equation(g1, g2, yb, t, s1, s2, c) {
        lemma_mod_difference_zero(g1 * s1 + g2 * s2 - yb * c, g1 * s1 + g2 * s2 - y * c, q);
        assert((g1 * s1 + g2 * s2 - yb * c) - (g1 * s1 + g2 * s2 - y * c) == (y - yb)
            * c) by (nonlinear_arith);
    }
}

/// Changing the challenge makes an accepted equation fail, except in the
/// degenerate case where the change is invisible modulo the order.
pub proof fn lemma_sensitivity_challenge(
    g1: int,
    g2: int,
    y: int,
    t: int,
    s1: int,
    s2: int,
    c: int,
    cb: int,
)
    requires
        verify_equation(g1, g2, y, t, s1, s2, c),
        (y * (c - cb)) % group_order() != 0,
    ensures
        !verify_equation(g1, g2, y, t, s1, s2, cb),
{
    let q = group_order();
    if verify_equation(g1, g2, y, t, s1, s2, cb) {
        lemma_mod_difference_zero(g1 * s1 + g2 * s2 - y * cb, g1 * s1 + g2 * s2 - y * c, q);
        assert((g1 * s1 + g2 * s2 - y * cb) - (g1 * s1 + g2 * s2 - y * c) == y * (c
            - cb)) by (nonlinear_arith);
    }
}

} // verus!
