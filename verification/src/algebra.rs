//! Trusted boundary around the elliptic-curve algebra library.
//!
//! The protocol works over the prime-order group `G1` of the BLS12-381 curve
//! and its scalar field. Curve points and field elements are opaque to the
//! verifier, so the library holds them in opaque handle types and gives each
//! value a mathematical view through uninterpreted spec functions:
//!
//! - `fr_val(s)` is the residue in `[0, group_order())` that the scalar `s`
//!   represents.
//! - `g1_dlog(p)` is the discrete logarithm of `p` with respect to a fixed
//!   generator of the prime-order subgroup, an integer in
//!   `[0, group_order())`. It exists mathematically for every subgroup point
//!   (the subgroup is cyclic of prime order) even though no program can
//!   compute it; contracts only ever relate discrete logarithms of different
//!   points, which is exactly how the group operations act on them.
//! - `g1_in_subgroup(p)` says that `p` lies in that prime-order subgroup, the
//!   precondition for `g1_dlog` to mean anything.
//!
//! Every wrapper states, over these views, what the algebra library's
//! documentation promises of the one call its body makes.

use vstd::prelude::*;
use ark_ec::{AffineRepr, CurveGroup};
use ark_ff::{Field, PrimeField, UniformRand};
use ark_serialize::{CanonicalDeserialize, CanonicalSerialize, SerializationError};
use blake2::{Blake2b512, Digest};
use zeroize::Zeroize;

verus! {

/// The order of the prime-order group (the scalar field modulus of BLS12-381),
/// as a mathematical integer. All protocol algebra is stated modulo this prime.
pub open spec fn group_order() -> int {
    0x73eda753299d7d483339d80809a1d80553bda402fffe5bfeffffffff00000001int
}

/// A group element: a point on the curve in affine coordinates. Opaque;
/// all reasoning goes through `g1_dlog` and `g1_in_subgroup`.
#[verifier::external_body]
pub struct GroupElement {
    inner: ark_bls12_381::G1Affine,
}

/// A group element in projective coordinates, as returned by cofactor
/// clearing; convert with the affine conversion below.
#[verifier::external_body]
pub struct ProjectivePoint {
    inner: ark_bls12_381::G1Projective,
}

/// An element of the curve's scalar field. Opaque; all reasoning goes
/// through `fr_val`.
#[verifier::external_body]
pub struct Scalar {
    inner: ark_bls12_381::Fr,
}

#[verifier::external_type_specification]
#[verifier::external_body]
pub struct ExSerializationError(SerializationError);

#[verifier::external_type_specification]
#[verifier::external_body]
pub struct ExStdRng(ark_std::rand::rngs::StdRng);

/// The residue in `[0, group_order())` that a scalar represents.
pub uninterp spec fn fr_val(s: Scalar) -> int;

/// The discrete logarithm of a subgroup point with respect to a fixed
/// generator; meaningful only when `g1_in_subgroup` holds.
pub uninterp spec fn g1_dlog(p: GroupElement) -> int;

/// Whether the point lies in the prime-order subgroup.
pub uninterp spec fn g1_in_subgroup(p: GroupElement) -> bool;

/// Whether the point satisfies the curve equation.
pub uninterp spec fn g1_on_curve(p: GroupElement) -> bool;

/// The canonical compressed encoding of a point (48 bytes).
pub uninterp spec fn g1_comp_bytes(p: GroupElement) -> Seq<u8>;

/// The canonical uncompressed encoding of a point (96 bytes).
pub uninterp spec fn g1_uncomp_bytes(p: GroupElement) -> Seq<u8>;

/// The canonical compressed encoding of a scalar (32 bytes, little endian).
pub uninterp spec fn fr_comp_bytes(s: Scalar) -> Seq<u8>;

/// The canonical uncompressed encoding of a scalar (identical layout, but a
/// distinct codec in the serialization library, so named separately).
pub uninterp spec fn fr_uncomp_bytes(s: Scalar) -> Seq<u8>;

/// The BLAKE2b-512 digest of a byte string (64 bytes).
pub uninterp spec fn blake2b512_of(bytes: Seq<u8>) -> Seq<u8>;

/// What `Field::from_random_bytes` decodes from a byte string.
pub uninterp spec fn fr_decoded(bytes: Seq<u8>) -> Option<Scalar>;

/// What `AffineRepr::from_random_bytes` decodes from a byte string.
pub uninterp spec fn g1_decoded(bytes: Seq<u8>) -> Option<GroupElement>;

/// The result of multiplying a point by the curve cofactor, as a projective point.
pub uninterp spec fn g1_cleared_cofactor(p: GroupElement) -> ProjectivePoint;

/// The affine form of a projective point.
pub uninterp spec fn g1_proj_affine(p: ProjectivePoint) -> GroupElement;

/// Whether a projective point lies in the prime-order subgroup.
pub uninterp spec fn g1_proj_in_subgroup(p: ProjectivePoint) -> bool;

impl Clone for GroupElement {
    /// The same point.
    #[verifier::external_body]
    fn clone(&self) -> (r: Self)
        ensures
            r == *self,
    {
        GroupElement { inner: self.inner }
    }
}

impl Copy for GroupElement {}

impl Clone for ProjectivePoint {
    /// The same point.
    #[verifier::external_body]
    fn clone(&self) -> (r: Self)
        ensures
            r == *self,
    {
        ProjectivePoint { inner: self.inner }
    }
}

impl Copy for ProjectivePoint {}

impl Clone for Scalar {
    /// The same scalar.
    #[verifier::external_body]
    fn clone(&self) -> (r: Self)
        ensures
            r == *self,
    {
        Scalar { inner: self.inner }
    }
}

impl Copy for Scalar {}

/// Relies on `AffineRepr::mul_bigint` (with `PrimeField::into_bigint` for the
/// exponent and `CurveGroup::into_affine` for the result): scalar
/// multiplication multiplies the discrete logarithm by the scalar's residue,
/// modulo the group order, and stays in the subgroup.
#[verifier::external_body]
pub fn g1_mul(a: &GroupElement, s: &Scalar) -> (r: GroupElement)
    ensures
        g1_in_subgroup(*a) ==> g1_in_subgroup(r) && g1_dlog(r) == (g1_dlog(*a) * fr_val(*s))
            % group_order(),
{
    GroupElement { inner: a.inner.mul_bigint(s.inner.into_bigint()).into_affine() }
}

/// Relies on point addition (`Projective: Add`, via `AffineRepr::into_group`
/// and `CurveGroup::into_affine`): addition adds discrete logarithms modulo
/// the group order and stays in the subgroup.
#[verifier::external_body]
pub fn g1_add(a: &GroupElement, b: &GroupElement) -> (r: GroupElement)
    ensures
        g1_in_subgroup(*a) && g1_in_subgroup(*b) ==> g1_in_subgroup(r) && g1_dlog(r) == (g1_dlog(
            *a,
        ) + g1_dlog(*b)) % group_order(),
{
    GroupElement { inner: (a.inner.into_group() + b.inner.into_group()).into_affine() }
}

/// Relies on point subtraction (`Projective: Sub`): subtraction subtracts
/// discrete logarithms modulo the group order and stays in the subgroup.
#[verifier::external_body]
pub fn g1_sub(a: &GroupElement, b: &GroupElement) -> (r: GroupElement)
    ensures
        g1_in_subgroup(*a) && g1_in_subgroup(*b) ==> g1_in_subgroup(r) && g1_dlog(r) == (g1_dlog(
            *a,
        ) - g1_dlog(*b)) % group_order(),
{
    GroupElement { inner: (a.inner.into_group() - b.inner.into_group()).into_affine() }
}

/// Relies on `PartialEq` for affine points: equality is structural equality
/// of coordinates, which on the subgroup coincides with equality of discrete
/// logarithms (the logarithm is a bijection there).
#[verifier::external_body]
pub fn g1_eq(a: &GroupElement, b: &GroupElement) -> (r: bool)
    ensures
        r == (*a == *b),
        g1_in_subgroup(*a) && g1_in_subgroup(*b) ==> (r <==> g1_dlog(*a) == g1_dlog(*b)),
{
    a.inner == b.inner
}

/// Relies on `AffineRepr::generator`: the fixed generator of the
/// prime-order subgroup.
#[verifier::external_body]
pub fn g1_generator() -> (r: GroupElement)
    ensures
        g1_in_subgroup(r),
{
    GroupElement { inner: ark_bls12_381::G1Affine::generator() }
}

/// Relies on `UniformRand::rand` for projective points (with
/// `CurveGroup::into_affine`): a uniformly random element of the
/// prime-order subgroup. Nothing more can be promised of a random value.
#[verifier::external_body]
pub fn g1_rand(rng: &mut ark_std::rand::rngs::StdRng) -> (r: GroupElement)
    ensures
        g1_in_subgroup(r),
{
    GroupElement { inner: ark_bls12_381::G1Projective::rand(rng).into_affine() }
}

/// Relies on the `From<u64>` conversion for field elements: the scalar
/// representing `n` modulo the field order.
#[verifier::external_body]
pub fn scalar_from_u64(n: u64) -> (r: Scalar)
    ensures
        fr_val(r) == n as int % group_order(),
{
    Scalar { inner: ark_bls12_381::Fr::from(n) }
}

/// Relies on `PartialEq` for field elements: equality of scalars is
/// equality of the residues they represent.
#[verifier::external_body]
pub fn fr_eq(a: &Scalar, b: &Scalar) -> (r: bool)
    ensures
        r == (fr_val(*a) == fr_val(*b)),
{
    a.inner == b.inner
}

/// Relies on scalar field addition: residues add modulo the field order.
#[verifier::external_body]
pub(crate) fn fr_add(a: &Scalar, b: &Scalar) -> (r: Scalar)
    ensures
        fr_val(r) == (fr_val(*a) + fr_val(*b)) % group_order(),
{
    Scalar { inner: a.inner + b.inner }
}

/// Relies on scalar field multiplication: residues multiply modulo the field order.
#[verifier::external_body]
pub(crate) fn fr_mul(a: &Scalar, b: &Scalar) -> (r: Scalar)
    ensures
        fr_val(r) == (fr_val(*a) * fr_val(*b)) % group_order(),
{
    Scalar { inner: a.inner * b.inner }
}

/// Relies on `zeroize::Zeroize` for field elements: the value is overwritten
/// with zero limbs, which represent the zero element, and the write is not
/// elided by the compiler.
#[verifier::external_body]
pub(crate) fn fr_zeroize(s: &mut Scalar)
    ensures
        fr_val(*final(s)) == 0,
    opens_invariants none
    no_unwind
{
    s.inner.zeroize()
}

/// Relies on `UniformRand::rand`: a scalar drawn from the supplied randomness
/// source. Nothing can be promised of a random value.
#[verifier::external_body]
pub(crate) fn fr_rand(rng: &mut ark_std::rand::rngs::StdRng) -> (r: Scalar) {
    Scalar { inner: UniformRand::rand(rng) }
}

/// Relies on `CanonicalSerialize::serialize_compressed` for points:
/// exactly the canonical 48-byte compressed encoding is appended. The only
/// failure source in the encoder is the sink, and writing to a growable
/// buffer cannot fail, so success is promised.
#[verifier::external_body]
pub(crate) fn g1_write_compressed(p: &GroupElement, out: &mut Vec<u8>) -> (r: Result<
    (),
    SerializationError,
>)
    ensures
        r is Ok,
        r is Ok ==> final(out)@ == old(out)@ + g1_comp_bytes(*p) && g1_comp_bytes(*p).len() == 48,
{
    p.inner.serialize_compressed(out)
}

/// Relies on `CanonicalSerialize::serialize_uncompressed` for points:
/// exactly the canonical 96-byte uncompressed encoding is appended; the
/// growable sink cannot fail, so success is promised.
#[verifier::external_body]
pub(crate) fn g1_write_uncompressed(p: &GroupElement, out: &mut Vec<u8>) -> (r: Result<
    (),
    SerializationError,
>)
    ensures
        r is Ok,
        r is Ok ==> final(out)@ == old(out)@ + g1_uncomp_bytes(*p) && g1_uncomp_bytes(*p).len()
            == 96,
{
    p.inner.serialize_uncompressed(out)
}

/// Relies on `CanonicalSerialize::serialize_compressed` for scalars:
/// exactly the canonical 32-byte encoding is appended; the growable sink
/// cannot fail, so success is promised.
#[verifier::external_body]
pub(crate) fn fr_write_compressed(s: &Scalar, out: &mut Vec<u8>) -> (r: Result<
    (),
    SerializationError,
>)
    ensures
        r is Ok,
        r is Ok ==> final(out)@ == old(out)@ + fr_comp_bytes(*s) && fr_comp_bytes(*s).len() == 32,
{
    s.inner.serialize_compressed(out)
}

/// Relies on `CanonicalSerialize::serialize_uncompressed` for scalars:
/// exactly the canonical 32-byte encoding is appended; the growable sink
/// cannot fail, so success is promised.
#[verifier::external_body]
pub(crate) fn fr_write_uncompressed(s: &Scalar, out: &mut Vec<u8>) -> (r: Result<
    (),
    SerializationError,
>)
    ensures
        r is Ok,
        r is Ok ==> final(out)@ == old(out)@ + fr_uncomp_bytes(*s) && fr_uncomp_bytes(*s).len()
            == 32,
{
    s.inner.serialize_uncompressed(out)
}

/// Relies on `CanonicalDeserialize::deserialize_compressed` for points,
/// which for this curve is its own decoder (not the generic one): flags
/// are validated, an infinity flag demands an all-zero abscissa, the
/// ordinate is solved from the curve equation per the sign flag, and the
/// subgroup is checked — so a successful decode re-encodes to the exact
/// input and the canonical encoding of any subgroup point decodes back to
/// that point and to nothing else. Off the subgroup the encoding loses
/// the ordinate, so nothing is claimed there. The decoder reads from a
/// reader and ignores what follows, hence the exact-length precondition.
#[verifier::external_body]
pub(crate) fn g1_read_compressed(b: &[u8]) -> (r: Result<GroupElement, SerializationError>)
    requires
        b@.len() == 48,
    ensures
        r matches Ok(q) ==> b@ == g1_comp_bytes(q) && g1_in_subgroup(q) && (forall|p: GroupElement|
            g1_in_subgroup(p) && #[trigger] g1_comp_bytes(p) == b@ ==> p == q),
        r is Err ==> forall|p: GroupElement|
            g1_in_subgroup(p) ==> #[trigger] g1_comp_bytes(p) != b@,
{
    match ark_bls12_381::G1Affine::deserialize_compressed(b) {
        Ok(inner) => Ok(GroupElement { inner }),
        Err(e) => Err(e),
    }
}

/// Relies on `CanonicalDeserialize::deserialize_uncompressed` for points,
/// which for this curve is its own decoder: flags are validated (a sort
/// flag is rejected in uncompressed form, an infinity flag demands
/// all-zero coordinates), both coordinates must be canonical field bytes,
/// and the canonical encoding of any subgroup point decodes back to that
/// point and to nothing else. No more is claimed of a successful decode:
/// the identity also has a second, flagless all-zero spelling that this
/// reader accepts (the identity is the zero coordinate pair here), so the
/// accepted input need not be canonical — callers that owe canonicity
/// re-encode the result and compare. The checked uncompressed path runs
/// only the subgroup test that presumes the curve equation, never the
/// curve equation itself, so membership of the result is not claimed
/// either. The decoder ignores trailing input, hence the exact-length
/// precondition.
#[verifier::external_body]
pub(crate) fn g1_read_uncompressed(b: &[u8]) -> (r: Result<GroupElement, SerializationError>)
    requires
        b@.len() == 96,
    ensures
        r matches Ok(q) ==> (forall|p: GroupElement|
            g1_in_subgroup(p) && #[trigger] g1_uncomp_bytes(p) == b@ ==> p == q),
        r is Err ==> forall|p: GroupElement|
            g1_in_subgroup(p) ==> #[trigger] g1_uncomp_bytes(p) != b@,
{
    match ark_bls12_381::G1Affine::deserialize_uncompressed(b) {
        Ok(inner) => Ok(GroupElement { inner }),
        Err(e) => Err(e),
    }
}

/// Relies on `CanonicalDeserialize::deserialize_compressed` for scalars,
/// which reads exactly 32 little-endian bytes (hence the exact-length
/// precondition) and rejects values at or above the modulus: a successful
/// decode re-encodes to the input bytes, the encoding determines the
/// residue a scalar represents, and non-canonical bytes — which no
/// scalar's encoding ever equals — are rejected.
#[verifier::external_body]
pub(crate) fn fr_read_compressed(b: &[u8]) -> (r: Result<Scalar, SerializationError>)
    requires
        b@.len() == 32,
    ensures
        r matches Ok(q) ==> b@ == fr_comp_bytes(q) && (forall|s: Scalar|
            #[trigger] fr_comp_bytes(s) == b@ ==> fr_val(s) == fr_val(q)),
        r is Err ==> forall|s: Scalar| #[trigger] fr_comp_bytes(s) != b@,
{
    match ark_bls12_381::Fr::deserialize_compressed(b) {
        Ok(inner) => Ok(Scalar { inner }),
        Err(e) => Err(e),
    }
}

/// Relies on `CanonicalDeserialize::deserialize_uncompressed` for scalars,
/// with the same canonical round-trip guarantees.
#[verifier::external_body]
pub(crate) fn fr_read_uncompressed(b: &[u8]) -> (r: Result<Scalar, SerializationError>)
    requires
        b@.len() == 32,
    ensures
        r matches Ok(q) ==> b@ == fr_uncomp_bytes(q) && (forall|s: Scalar|
            #[trigger] fr_uncomp_bytes(s) == b@ ==> fr_val(s) == fr_val(q)),
        r is Err ==> forall|s: Scalar| #[trigger] fr_uncomp_bytes(s) != b@,
{
    match ark_bls12_381::Fr::deserialize_uncompressed(b) {
        Ok(inner) => Ok(Scalar { inner }),
        Err(e) => Err(e),
    }
}

/// Relies on `Digest::digest` for BLAKE2b-512: a 64-byte digest that depends
/// on the input bytes alone.
#[verifier::external_body]
pub(crate) fn blake2b512_digest(b: &[u8]) -> (r: Vec<u8>)
    ensures
        r@ == blake2b512_of(b@),
        r@.len() == 64,
{
    Blake2b512::digest(b).to_vec()
}

/// Relies on `Field::from_random_bytes` for scalars: the result depends on
/// the input bytes alone.
#[verifier::external_body]
pub(crate) fn fr_from_random_bytes(b: &[u8]) -> (r: Option<Scalar>)
    ensures
        r == fr_decoded(b@),
{
    match ark_bls12_381::Fr::from_random_bytes(b) {
        Some(inner) => Some(Scalar { inner }),
        None => None,
    }
}

/// Relies on `AffineRepr::from_random_bytes` for points: the result depends
/// on the input bytes alone, and a decoded point satisfies the curve
/// equation (its other coordinate is solved from the curve equation).
#[verifier::external_body]
pub(crate) fn g1_from_random_bytes(b: &[u8]) -> (r: Option<GroupElement>)
    ensures
        r == g1_decoded(b@),
        r matches Some(p) ==> g1_on_curve(p),
{
    match ark_bls12_381::G1Affine::from_random_bytes(b) {
        Some(inner) => Some(GroupElement { inner }),
        None => None,
    }
}

/// Relies on `AffineRepr::mul_by_cofactor_to_group`: the result depends on
/// the point alone, and multiplying a curve point by the cofactor lands in
/// the prime-order subgroup.
#[verifier::external_body]
pub(crate) fn g1_mul_by_cofactor_to_group(p: &GroupElement) -> (r: ProjectivePoint)
    ensures
        r == g1_cleared_cofactor(*p),
        g1_on_curve(*p) ==> g1_proj_in_subgroup(r),
{
    ProjectivePoint { inner: p.inner.mul_by_cofactor_to_group() }
}

/// Relies on `CurveGroup::into_affine`: the affine form of a projective
/// point depends on the point alone and represents the same group element,
/// so subgroup membership carries over.
#[verifier::external_body]
pub(crate) fn g1_into_affine(p: &ProjectivePoint) -> (r: GroupElement)
    ensures
        r == g1_proj_affine(*p),
        g1_proj_in_subgroup(*p) ==> g1_in_subgroup(r),
{
    GroupElement { inner: p.inner.into_affine() }
}

/// Relies on the `SerializationError::InvalidData` constructor: the error
/// value reported when no attempt of a decode loop yields valid data.
#[verifier::external_body]
pub(crate) fn serialization_invalid_data() -> SerializationError {
    SerializationError::InvalidData
}

} // verus!
