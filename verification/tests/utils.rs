use ark_ff::Field;
use ark_serialize::CanonicalSerialize;
use ark_std::rand::rngs::StdRng;
use ark_std::rand::SeedableRng;
use blake2::{Blake2b512, Digest};
use schnorr_pok::algebra::g1_generator;
use schnorr_pok::pok_equality::PokProof;
use schnorr_pok::algebra::{fr_eq, g1_eq};
use schnorr_pok::utils::{
    affine_group_elem_from_try_and_incr, field_elem_from_try_and_incr, n_rand,
    projective_group_elem_from_try_and_incr, rand,
};

#[test]
fn field_elem_hashing_is_deterministic() {
    let a = field_elem_from_try_and_incr(b"test message").unwrap();
    let b = field_elem_from_try_and_incr(b"test message").unwrap();
    assert!(fr_eq(&a, &b));
}

#[test]
fn field_elem_hashing_separates_inputs() {
    let a = field_elem_from_try_and_incr(b"domain one").unwrap();
    let b = field_elem_from_try_and_incr(b"domain two").unwrap();
    assert!(!fr_eq(&a, &b));
}

#[test]
fn field_elem_hashing_accepts_empty_input() {
    let a = field_elem_from_try_and_incr(b"").unwrap();
    let b = field_elem_from_try_and_incr(b"").unwrap();
    assert!(fr_eq(&a, &b));
}

#[test]
fn group_elem_hashing_is_deterministic() {
    let a = affine_group_elem_from_try_and_incr(b"generator seed").unwrap();
    let b = affine_group_elem_from_try_and_incr(b"generator seed").unwrap();
    assert!(g1_eq(&a, &b));
    let _ = projective_group_elem_from_try_and_incr(b"generator seed").unwrap();
}

#[test]
fn group_elem_hashing_separates_inputs() {
    let a = affine_group_elem_from_try_and_incr(b"seed a").unwrap();
    let b = affine_group_elem_from_try_and_incr(b"seed b").unwrap();
    assert!(!g1_eq(&a, &b));
}

#[test]
fn n_rand_produces_count_elements() {
    let mut rng = StdRng::seed_from_u64(7u64);
    assert_eq!(n_rand(&mut rng, 0).len(), 0);
    assert_eq!(n_rand(&mut rng, 1).len(), 1);
    assert_eq!(n_rand(&mut rng, 10).len(), 10);
}

#[test]
fn rand_draws_from_the_given_source() {
    // the same seed gives the same stream, a different seed another one
    let mut rng1 = StdRng::seed_from_u64(42u64);
    let mut rng2 = StdRng::seed_from_u64(42u64);
    let a = rand(&mut rng1);
    let b = rand(&mut rng2);
    assert!(fr_eq(&a, &b));
    let c = rand(&mut rng1);
    assert!(!fr_eq(&a, &c));
}

#[test]
fn field_elem_hashing_matches_reference_digest() {
    let message = b"reference digest check";

    // Recompute the try-and-increment result independently: digest the
    // message (appending "-attempt-" and a little-endian counter on
    // retries) until the digest decodes as a field element.
    let mut expected: Option<ark_bls12_381::Fr> = None;
    let mut j: u64 = 0;
    while expected.is_none() {
        let input = if j == 0 {
            message.to_vec()
        } else {
            let mut v = message.to_vec();
            v.extend_from_slice(b"-attempt-");
            v.extend_from_slice(&j.to_le_bytes());
            v
        };
        expected = ark_bls12_381::Fr::from_random_bytes(&Blake2b512::digest(&input));
        j += 1;
    }
    let mut expected_bytes = vec![];
    expected.unwrap().serialize_compressed(&mut expected_bytes).unwrap();

    // The library's scalar is opaque; compare through the proof encoding,
    // whose last two fields are the responses' canonical 32-byte encodings.
    let s = field_elem_from_try_and_incr(message).unwrap();
    let g = g1_generator();
    let probe = PokProof { t1: g, t2: g, response1: s, response2: s };
    let mut probe_bytes = vec![];
    probe.serialize_compressed(&mut probe_bytes).unwrap();
    assert_eq!(&probe_bytes[96..128], &expected_bytes[..]);
    assert_eq!(&probe_bytes[128..160], &expected_bytes[..]);
}
