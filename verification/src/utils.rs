//! Hashing and random-sampling utilities.
//!
//! The try-and-increment functions map arbitrary bytes to a field or group
//! element: digest the input, try to decode the digest, and on failure
//! re-hash the input with a separator tag and an incrementing little-endian
//! counter appended. The retry loop's timing leaks information about the
//! input, so these are only for public inputs (setup parameters, challenge
//! derivation) — never for secret bytes.

use vstd::prelude::*;
use vstd::slice::slice_to_vec;
use crate::algebra::{
    blake2b512_digest, blake2b512_of, fr_decoded, fr_from_random_bytes, fr_rand,
    g1_cleared_cofactor, g1_decoded, g1_from_random_bytes, g1_in_subgroup, g1_into_affine,
    g1_mul_by_cofactor_to_group, g1_proj_affine, g1_proj_in_subgroup, serialization_invalid_data,
    GroupElement, ProjectivePoint, Scalar,
};
use crate::error::SchnorrError;

verus! {

/// Marker for a container of sampled values whose length is known exactly
/// and which can be traversed from either end without re-sampling. The two
/// corresponding iterator capabilities of `std` cannot be named as
/// supertraits under the verifier, so the marker carries the intent and is
/// implemented by the vector of samples that `n_rand` returns.
pub trait DoubleEndedExactSizeIterator {

}

impl DoubleEndedExactSizeIterator for Vec<Scalar> {

}

/// The retry cap of the try-and-increment loops: decoding a 64-byte digest
/// fails with probability well under one half per attempt, so reaching the
/// cap has negligible probability; it exists so the loops are bounded.
pub const MAX_HASH_ATTEMPTS: u64 = 65536;

/// The literal separator tag `-attempt-` placed between the input and the
/// retry counter.
pub open spec fn attempt_tag() -> Seq<u8> {
    seq![45u8, 97u8, 116u8, 116u8, 101u8, 109u8, 112u8, 116u8, 45u8]
}

/// The eight little-endian base-256 digits of a counter value.
pub open spec fn u64_le_bytes(j: u64) -> Seq<u8> {
    seq![
        (j % 256) as u8,
        ((j / 256) % 256) as u8,
        ((j / 65536) % 256) as u8,
        ((j / 16777216) % 256) as u8,
        ((j / 4294967296) % 256) as u8,
        ((j / 1099511627776) % 256) as u8,
        ((j / 281474976710656) % 256) as u8,
        ((j / 72057594037927936) % 256) as u8,
    ]
}

/// The bytes hashed on attempt `j`: the input itself first, then the input
/// with the separator tag and the counter appended.
pub open spec fn attempt_input(bytes: Seq<u8>, j: u64) -> Seq<u8> {
    if j == 0 {
        bytes
    } else {
        bytes + attempt_tag() + u64_le_bytes(j)
    }
}

/// What attempt `j` of hashing to a field element decodes to.
pub open spec fn fr_attempt(bytes: Seq<u8>, j: u64) -> Option<Scalar> {
    fr_decoded(blake2b512_of(attempt_input(bytes, j)))
}

/// What attempt `j` of hashing to a curve point decodes to.
pub open spec fn g1_attempt(bytes: Seq<u8>, j: u64) -> Option<GroupElement> {
    g1_decoded(blake2b512_of(attempt_input(bytes, j)))
}

/// Builds the bytes hashed on attempt `j`.
fn build_attempt_input(bytes: &[u8], j: u64) -> (r: Vec<u8>)
    ensures
        r@ == attempt_input(bytes@, j),
{
    let mut v: Vec<u8> = slice_to_vec(bytes);
    if j != 0 {
        v.push(45u8);
        v.push(97u8);
        v.push(116u8);
        v.push(116u8);
        v.push(101u8);
        v.push(109u8);
        v.push(112u8);
        v.push(116u8);
        v.push(45u8);
        v.push((j % 256) as u8);
        v.push(((j / 256) % 256) as u8);
        v.push(((j / 65536) % 256) as u8);
        v.push(((j / 16777216) % 256) as u8);
        v.push(((j / 4294967296) % 256) as u8);
        v.push(((j / 1099511627776) % 256) as u8);
        v.push(((j / 281474976710656) % 256) as u8);
        v.push(((j / 72057594037927936) % 256) as u8);
        proof {
            assert(v@ =~= attempt_input(bytes@, j));
        }
    }
    v
}

/// Hash bytes to a field element by try-and-increment: the result is the
/// decode of the first successful attempt, and an error comes only when
/// every attempt under the cap fails to decode. Vulnerable to timing
/// attack; only for public inputs.
#[verifier::rlimit(50)]
pub fn field_elem_from_try_and_incr(bytes: &[u8]) -> (r: Result<Scalar, SchnorrError>)
    ensures
        r matches Ok(s) ==> exists|j: u64|
            0 <= j < MAX_HASH_ATTEMPTS && #[trigger] fr_attempt(bytes@, j) == Some(s) && (forall|
                k: u64,
            |
                0 <= k < j ==> fr_attempt(bytes@, k) is None),
        r matches Err(e) ==> e is Serialization && (forall|j: u64|
            0 <= j < MAX_HASH_ATTEMPTS ==> fr_attempt(bytes@, j) is None),
{
    let mut j: u64 = 0;
    while j < MAX_HASH_ATTEMPTS
        invariant
            j <= MAX_HASH_ATTEMPTS,
            forall|k: u64| 0 <= k < j ==> fr_attempt(bytes@, k) is None,
        decreases MAX_HASH_ATTEMPTS - j,
    {
        let input = build_attempt_input(bytes, j);
        let hash = blake2b512_digest(input.as_slice());
        match fr_from_random_bytes(hash.as_slice()) {
            Some(s) => {
                proof {
                    assert(fr_attempt(bytes@, j) == Some(s));
                }
                return Ok(s);
            },
            None => {},
        }
        j = j + 1;
    }
    Err(SchnorrError::Serialization(serialization_invalid_data()))
}

/// Hash bytes to a point of the prime-order subgroup, in projective
/// coordinates: the first successfully decoded curve point, multiplied by
/// the cofactor. Vulnerable to timing attack; only for public inputs.
#[verifier::rlimit(50)]
pub fn projective_group_elem_from_try_and_incr(bytes: &[u8]) -> (r: Result<
    ProjectivePoint,
    SchnorrError,
>)
    ensures
        r matches Ok(p) ==> g1_proj_in_subgroup(p) && exists|j: u64|
            0 <= j < MAX_HASH_ATTEMPTS && ((#[trigger] g1_attempt(bytes@, j)) matches Some(g)
                && p == g1_cleared_cofactor(g)) && (forall|k: u64|
                0 <= k < j ==> g1_attempt(bytes@, k) is None),
        r matches Err(e) ==> e is Serialization && (forall|j: u64|
            0 <= j < MAX_HASH_ATTEMPTS ==> g1_attempt(bytes@, j) is None),
{
    let mut j: u64 = 0;
    while j < MAX_HASH_ATTEMPTS
        invariant
            j <= MAX_HASH_ATTEMPTS,
            forall|k: u64| 0 <= k < j ==> g1_attempt(bytes@, k) is None,
        decreases MAX_HASH_ATTEMPTS - j,
    {
        let input = build_attempt_input(bytes, j);
        let hash = blake2b512_digest(input.as_slice());
        match g1_from_random_bytes(hash.as_slice()) {
            Some(g) => {
                proof {
                    assert(g1_attempt(bytes@, j) == Some(g));
                }
                return Ok(g1_mul_by_cofactor_to_group(&g));
            },
            None => {},
        }
        j = j + 1;
    }
    Err(SchnorrError::Serialization(serialization_invalid_data()))
}

/// Hash bytes to a point of the prime-order subgroup, in affine
/// coordinates. Vulnerable to timing attack; only for public inputs.
pub fn affine_group_elem_from_try_and_incr(bytes: &[u8]) -> (r: Result<GroupElement, SchnorrError>)
    ensures
        r matches Ok(p) ==> g1_in_subgroup(p) && exists|j: u64|
            0 <= j < MAX_HASH_ATTEMPTS && ((#[trigger] g1_attempt(bytes@, j)) matches Some(g)
                && p == g1_proj_affine(g1_cleared_cofactor(g))) && (forall|k: u64|
                0 <= k < j ==> g1_attempt(bytes@, k) is None),
        r matches Err(e) ==> e is Serialization && (forall|j: u64|
            0 <= j < MAX_HASH_ATTEMPTS ==> g1_attempt(bytes@, j) is None),
{
    match projective_group_elem_from_try_and_incr(bytes) {
        Ok(p) => Ok(g1_into_affine(&p)),
        Err(e) => Err(e),
    }
}

/// Generates one random scalar using the given `rng`.
pub fn rand(rng: &mut ark_std::rand::rngs::StdRng) -> Scalar {
    fr_rand(rng)
}

/// Generates `count` random scalars using the supplied `rng`, materialized
/// in sampling order; the vector can be traversed from either end without
/// re-sampling.
pub fn n_rand(rng: &mut ark_std::rand::rngs::StdRng, count: usize) -> (r: Vec<Scalar>)
    ensures
        r@.len() == count,
{
    let mut out: Vec<Scalar> = Vec::new();
    let mut i: usize = 0;
    while i < count
        invariant
            out@.len() == i,
            i <= count,
        decreases count - i,
    {
        out.push(fr_rand(rng));
        i = i + 1;
    }
    out
}

} // verus!
