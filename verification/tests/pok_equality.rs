use ark_std::rand::rngs::StdRng;
use ark_std::rand::SeedableRng;
use schnorr_pok::algebra::{fr_eq, g1_add, g1_eq, g1_generator, g1_mul, g1_rand, scalar_from_u64, GroupElement, Scalar};
use schnorr_pok::error::SchnorrError;
use schnorr_pok::pok_equality::{PokProof, PokProtocol};
use schnorr_pok::utils::field_elem_from_try_and_incr;

fn lin_comb(g1: &GroupElement, x1: &Scalar, g2: &GroupElement, x2: &Scalar) -> GroupElement {
    g1_add(&g1_mul(g1, x1), &g1_mul(g2, x2))
}

fn challenge_of(bytes: &[u8]) -> Scalar {
    field_elem_from_try_and_incr(bytes).unwrap()
}

#[test]
fn pok2equality() {
    let mut rng = StdRng::seed_from_u64(0u64);

    // private values
    let witness1 = schnorr_pok::utils::rand(&mut rng);
    let witness2 = schnorr_pok::utils::rand(&mut rng);
    let blinding1 = schnorr_pok::utils::rand(&mut rng);
    let blinding2 = schnorr_pok::utils::rand(&mut rng);
    // public values
    let a1 = g1_rand(&mut rng);
    let a2 = g1_rand(&mut rng);
    let b1 = g1_rand(&mut rng);
    let b2 = g1_rand(&mut rng);
    let y1 = lin_comb(&a1, &witness1, &a2, &witness2);
    let y2 = lin_comb(&b1, &witness1, &b2, &witness2);

    // PROVER part
    let protocol = PokProtocol::init(witness1, blinding1, &a1, &a2, witness2, blinding2, &b1, &b2);
    let mut chal_contrib_prover = vec![];
    protocol
        .challenge_contribution(&a1, &a2, &b1, &b2, &y1, &y2, &mut chal_contrib_prover)
        .unwrap();
    let challenge_prover = challenge_of(&chal_contrib_prover);
    let proof = protocol.clone().gen_proof(&challenge_prover);

    // VERIFIER part
    let mut chal_contrib_verifier = vec![];
    proof
        .challenge_contribution(&a1, &a2, &b1, &b2, &y1, &y2, &mut chal_contrib_verifier)
        .unwrap();
    let challenge_verifier = challenge_of(&chal_contrib_verifier);

    assert!(proof.verify(&y1, &y2, &a1, &a2, &b1, &b2, &challenge_verifier));

    // sanity check
    assert_eq!(chal_contrib_prover, chal_contrib_verifier);
    assert!(fr_eq(&challenge_prover, &challenge_verifier));
}

#[test]
fn concrete_scenario() {
    // a1 = G, a2 = 2G, b1 = 3G, b2 = G; x1 = 5, x2 = 7;
    // y1 = 5G + 2*7G = 19G, y2 = 3*5G + 7G = 22G; blindings 11, 13.
    let g = g1_generator();
    let a1 = g;
    let a2 = g1_mul(&g, &scalar_from_u64(2));
    let b1 = g1_mul(&g, &scalar_from_u64(3));
    let b2 = g;
    let x1 = scalar_from_u64(5);
    let x2 = scalar_from_u64(7);
    let r1 = scalar_from_u64(11);
    let r2 = scalar_from_u64(13);
    let y1 = g1_mul(&g, &scalar_from_u64(19));
    let y2 = g1_mul(&g, &scalar_from_u64(22));
    assert!(g1_eq(&y1, &lin_comb(&a1, &x1, &a2, &x2)));
    assert!(g1_eq(&y2, &lin_comb(&b1, &x1, &b2, &x2)));

    let protocol = PokProtocol::init(x1, r1, &a1, &a2, x2, r2, &b1, &b2);
    let mut transcript = vec![];
    protocol
        .challenge_contribution(&a1, &a2, &b1, &b2, &y1, &y2, &mut transcript)
        .unwrap();
    let challenge = challenge_of(&transcript);
    let proof = protocol.gen_proof(&challenge);
    assert!(proof.verify(&y1, &y2, &a1, &a2, &b1, &b2, &challenge));

    // replaying the same proof against y1' = 20G must fail
    let y1_wrong = g1_mul(&g, &scalar_from_u64(20));
    assert!(!proof.verify(&y1_wrong, &y2, &a1, &a2, &b1, &b2, &challenge));
}

fn accepted_instance() -> (
    GroupElement,
    GroupElement,
    GroupElement,
    GroupElement,
    GroupElement,
    GroupElement,
    Scalar,
    PokProof,
) {
    let g = g1_generator();
    let a1 = g;
    let a2 = g1_mul(&g, &scalar_from_u64(2));
    let b1 = g1_mul(&g, &scalar_from_u64(3));
    let b2 = g;
    let x1 = scalar_from_u64(5);
    let x2 = scalar_from_u64(7);
    let y1 = lin_comb(&a1, &x1, &a2, &x2);
    let y2 = lin_comb(&b1, &x1, &b2, &x2);
    let protocol = PokProtocol::init(
        x1,
        scalar_from_u64(11),
        &a1,
        &a2,
        x2,
        scalar_from_u64(13),
        &b1,
        &b2,
    );
    let mut transcript = vec![];
    protocol
        .challenge_contribution(&a1, &a2, &b1, &b2, &y1, &y2, &mut transcript)
        .unwrap();
    let challenge = challenge_of(&transcript);
    let proof = protocol.gen_proof(&challenge);
    assert!(proof.verify(&y1, &y2, &a1, &a2, &b1, &b2, &challenge));
    (a1, a2, b1, b2, y1, y2, challenge, proof)
}

#[test]
fn sensitivity_to_single_mutations() {
    let (a1, a2, b1, b2, y1, y2, challenge, proof) = accepted_instance();
    let g = g1_generator();
    let off_point = g1_mul(&g, &scalar_from_u64(12345));
    let off_scalar = scalar_from_u64(54321);

    let tampered = PokProof { t1: g1_add(&proof.t1, &g), ..proof.clone() };
    assert!(!tampered.verify(&y1, &y2, &a1, &a2, &b1, &b2, &challenge));

    let tampered = PokProof { t2: g1_add(&proof.t2, &g), ..proof.clone() };
    assert!(!tampered.verify(&y1, &y2, &a1, &a2, &b1, &b2, &challenge));

    let tampered = PokProof { response1: off_scalar, ..proof.clone() };
    assert!(!tampered.verify(&y1, &y2, &a1, &a2, &b1, &b2, &challenge));

    let tampered = PokProof { response2: off_scalar, ..proof.clone() };
    assert!(!tampered.verify(&y1, &y2, &a1, &a2, &b1, &b2, &challenge));

    assert!(!proof.verify(&off_point, &y2, &a1, &a2, &b1, &b2, &challenge));
    assert!(!proof.verify(&y1, &off_point, &a1, &a2, &b1, &b2, &challenge));
    assert!(!proof.verify(&y1, &y2, &off_point, &a2, &b1, &b2, &challenge));
    assert!(!proof.verify(&y1, &y2, &a1, &off_point, &b1, &b2, &challenge));
    assert!(!proof.verify(&y1, &y2, &a1, &a2, &off_point, &b2, &challenge));
    assert!(!proof.verify(&y1, &y2, &a1, &a2, &b1, &off_point, &challenge));
    assert!(!proof.verify(&y1, &y2, &a1, &a2, &b1, &b2, &off_scalar));
}

#[test]
fn transcript_prover_verifier_agreement() {
    let (a1, a2, b1, b2, y1, y2, _challenge, proof) = accepted_instance();
    let x1 = scalar_from_u64(5);
    let x2 = scalar_from_u64(7);
    let protocol = PokProtocol::init(
        x1,
        scalar_from_u64(11),
        &a1,
        &a2,
        x2,
        scalar_from_u64(13),
        &b1,
        &b2,
    );
    let mut from_protocol = vec![];
    protocol
        .challenge_contribution(&a1, &a2, &b1, &b2, &y1, &y2, &mut from_protocol)
        .unwrap();
    let mut from_proof = vec![];
    proof
        .challenge_contribution(&a1, &a2, &b1, &b2, &y1, &y2, &mut from_proof)
        .unwrap();
    assert_eq!(from_protocol, from_proof);
    // eight compressed points of 48 bytes each
    assert_eq!(from_proof.len(), 8 * 48);
}

#[test]
fn compressed_serialization_round_trip() {
    let (.., proof) = accepted_instance();
    let mut bytes = vec![];
    proof.serialize_compressed(&mut bytes).unwrap();
    assert_eq!(bytes.len(), 160);
    let decoded = PokProof::deserialize_compressed(&bytes).unwrap();
    assert!(decoded == proof);
    let mut again = vec![];
    decoded.serialize_compressed(&mut again).unwrap();
    assert_eq!(bytes, again);
}

#[test]
fn uncompressed_serialization_round_trip() {
    let (.., proof) = accepted_instance();
    let mut bytes = vec![];
    proof.serialize_uncompressed(&mut bytes).unwrap();
    assert_eq!(bytes.len(), 256);
    let decoded = PokProof::deserialize_uncompressed(&bytes).unwrap();
    assert!(decoded == proof);
    let mut again = vec![];
    decoded.serialize_uncompressed(&mut again).unwrap();
    assert_eq!(bytes, again);
}

#[test]
fn deserialization_rejects_bad_input() {
    assert!(PokProof::deserialize_compressed(&[0u8; 159]).is_err());
    assert!(PokProof::deserialize_compressed(&[0u8; 161]).is_err());
    // 160 bytes that are not a valid point encoding
    assert!(PokProof::deserialize_compressed(&[0u8; 160]).is_err());
    assert!(PokProof::deserialize_uncompressed(&[0u8; 255]).is_err());
    // all-zero point fields spell the identity without its infinity flag:
    // a non-canonical record, which the decoder must reject
    assert!(PokProof::deserialize_uncompressed(&[0u8; 256]).is_err());
    // an uncompressed record whose first point carries the compressed flag
    let mut wrong_flags = vec![0u8; 256];
    wrong_flags[0] = 0x80;
    assert!(PokProof::deserialize_uncompressed(&wrong_flags).is_err());
}

#[test]
fn wire_format_is_canonical_bls12_381() {
    // The compressed encoding of the BLS12-381 G1 generator is a fixed,
    // publicly documented 48-byte string; the transcript and the proof
    // encoding must use exactly that canonical codec.
    let generator_compressed: [u8; 48] = [
        0x97, 0xf1, 0xd3, 0xa7, 0x31, 0x97, 0xd7, 0x94, 0x26, 0x95, 0x63, 0x8c, 0x4f, 0xa9, 0xac,
        0x0f, 0xc3, 0x68, 0x8c, 0x4f, 0x97, 0x74, 0xb9, 0x05, 0xa1, 0x4e, 0x3a, 0x3f, 0x17, 0x1b,
        0xac, 0x58, 0x6c, 0x55, 0xe8, 0x3f, 0xf9, 0x7a, 0x1a, 0xef, 0xfb, 0x3a, 0xf0, 0x0a, 0xdb,
        0x22, 0xc6, 0xbb,
    ];
    let g = g1_generator();
    let proof = PokProof {
        t1: g,
        t2: g,
        response1: scalar_from_u64(5),
        response2: scalar_from_u64(7),
    };
    let mut bytes = vec![];
    proof.serialize_compressed(&mut bytes).unwrap();
    assert_eq!(&bytes[0..48], &generator_compressed);
    assert_eq!(&bytes[48..96], &generator_compressed);
    // scalars are serialized as 32-byte little-endian integers
    let mut five = vec![5u8];
    five.extend(std::iter::repeat(0u8).take(31));
    assert_eq!(&bytes[96..128], &five[..]);
    let mut seven = vec![7u8];
    seven.extend(std::iter::repeat(0u8).take(31));
    assert_eq!(&bytes[128..160], &seven[..]);

    let mut transcript = vec![];
    proof
        .challenge_contribution(&g, &g, &g, &g, &g, &g, &mut transcript)
        .unwrap();
    assert_eq!(transcript.len(), 8 * 48);
    for chunk in transcript.chunks(48) {
        assert_eq!(chunk, &generator_compressed);
    }
}

#[test]
fn serialization_error_variant() {
    let e = ark_serialize::SerializationError::InvalidData;
    let wrapped = SchnorrError::from(e);
    assert!(matches!(wrapped, SchnorrError::Serialization(_)));
}

#[test]
fn uncompressed_identity_encodes_canonically() {
    // A proof whose commitments are the identity round-trips through the
    // canonical (infinity-flagged) encoding, and only through it.
    let g = g1_generator();
    let identity = g1_mul(&g, &scalar_from_u64(0));
    let proof = PokProof {
        t1: identity,
        t2: identity,
        response1: scalar_from_u64(5),
        response2: scalar_from_u64(7),
    };
    let mut bytes = vec![];
    proof.serialize_uncompressed(&mut bytes).unwrap();
    assert_eq!(bytes.len(), 256);
    // the canonical identity encoding carries the infinity flag
    assert_eq!(bytes[0], 0x40);
    assert_eq!(bytes[96], 0x40);
    let decoded = PokProof::deserialize_uncompressed(&bytes).unwrap();
    assert!(decoded == proof);
    let mut again = vec![];
    decoded.serialize_uncompressed(&mut again).unwrap();
    assert_eq!(bytes, again);

    // the same proof, spelled with flagless all-zero identity fields, is
    // not canonical and is rejected
    let mut flagless = bytes.clone();
    flagless[0] = 0x00;
    flagless[96] = 0x00;
    assert!(PokProof::deserialize_uncompressed(&flagless).is_err());
}
