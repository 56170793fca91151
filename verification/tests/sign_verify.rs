use ark_bls12_381::Fr;
use ark_ff::{PrimeField, UniformRand};
use schnorr_sig::scalar::Scalar;
use schnorr_sig::schnorr::SchnorrSig;

fn random_scalar() -> Scalar {
    let drawn = Fr::rand(&mut rand::thread_rng());
    Scalar::from_limbs(drawn.into_bigint().0).unwrap()
}

#[test]
fn test_sign_verify() {
    let (sk, pk) = SchnorrSig::generate_keypair();
    let msg = b"Hello world!";

    let sig = SchnorrSig::sign(sk, msg);
    let verify = SchnorrSig::verify(pk, msg, sig);

    assert_eq!(verify, true);
}

#[test]
fn test_sign_verify_tampered_message() {
    let (sk, pk) = SchnorrSig::generate_keypair();

    let msg = b"Hello world!";
    let tampered_msg = b"Hello world!!";

    let sig = SchnorrSig::sign(sk, msg);
    let verify = SchnorrSig::verify(pk, tampered_msg, sig);

    assert_eq!(verify, false);
}

#[test]
fn test_sign_verify_tampered_signature() {
    let (sk, pk) = SchnorrSig::generate_keypair();

    let msg = b"Hello world!";

    let (ut, _) = SchnorrSig::sign(sk, msg);
    let verify = SchnorrSig::verify(pk, msg, (ut, random_scalar()));

    assert_eq!(verify, false);
}

#[test]
fn test_sign_verify_tampered_secret_key() {
    let (_, pk) = SchnorrSig::generate_keypair();
    let (tampered_sk, _) = SchnorrSig::generate_keypair();

    let msg = b"Hello world!";

    let tampered_sig = SchnorrSig::sign(tampered_sk, msg);
    let tampered_verify = SchnorrSig::verify(pk, msg, tampered_sig);

    assert_eq!(tampered_verify, false);
}

#[test]
fn hello_world_scenario() {
    let (sk, pk) = SchnorrSig::generate_keypair();
    let sig = SchnorrSig::sign(sk, b"Hello world!");
    assert!(SchnorrSig::verify(pk, b"Hello world!", sig));
    assert!(!SchnorrSig::verify(pk, b"Hello world!!", sig));
    assert!(!SchnorrSig::verify(pk, b"Hello world!", (sig.0, random_scalar())));
}

#[test]
fn every_signature_of_a_key_is_accepted() {
    let (sk, pk) = SchnorrSig::generate_keypair();
    let long = vec![0xa5u8; 10_000];
    let messages: Vec<&[u8]> = vec![b"", b"a", b"Hello world!", &long];
    for msg in messages {
        let sig = SchnorrSig::sign(sk, msg);
        assert!(SchnorrSig::verify(pk, msg, sig));
    }
}

#[test]
fn the_empty_message_is_signed_like_any_other() {
    let (sk, pk) = SchnorrSig::generate_keypair();
    let sig = SchnorrSig::sign(sk, b"");
    assert!(SchnorrSig::verify(pk, b"", sig));
    assert!(!SchnorrSig::verify(pk, b"\0", sig));
}

#[test]
fn a_changed_message_is_rejected() {
    let (sk, pk) = SchnorrSig::generate_keypair();
    let msg = b"pay 100 to alice".to_vec();
    let sig = SchnorrSig::sign(sk, &msg);
    for i in 0..msg.len() {
        let mut changed = msg.clone();
        changed[i] ^= 1;
        assert!(!SchnorrSig::verify(pk, &changed, sig));
    }
    assert!(!SchnorrSig::verify(pk, &msg[..msg.len() - 1], sig));
}

#[test]
fn a_changed_response_is_rejected() {
    let (sk, pk) = SchnorrSig::generate_keypair();
    let msg = b"Hello world!";
    let (commitment, response) = SchnorrSig::sign(sk, msg);
    let mut limbs = response.to_limbs();
    limbs[0] ^= 1;
    let changed = Scalar::from_limbs(limbs).unwrap();
    assert!(changed != response);
    assert!(!SchnorrSig::verify(pk, msg, (commitment, changed)));
    assert!(SchnorrSig::verify(pk, msg, (commitment, response)));
}

#[test]
fn a_changed_commitment_is_rejected() {
    let (sk, pk) = SchnorrSig::generate_keypair();
    let msg = b"Hello world!";
    let (commitment, response) = SchnorrSig::sign(sk, msg);
    let (other_commitment, _) = SchnorrSig::sign(sk, msg);
    assert!(other_commitment != commitment);
    assert!(!SchnorrSig::verify(pk, msg, (other_commitment, response)));
}

#[test]
fn another_key_rejects_the_signature() {
    let sk1 = Scalar::from_limbs([7, 0, 0, 0]).unwrap();
    let sk2 = Scalar::from_limbs([8, 0, 0, 0]).unwrap();
    let pk1 = SchnorrSig::public_key(&sk1);
    let pk2 = SchnorrSig::public_key(&sk2);
    let msg = b"Hello world!";
    let sig = SchnorrSig::sign(sk1, msg);
    assert!(SchnorrSig::verify(pk1, msg, sig));
    assert!(!SchnorrSig::verify(pk2, msg, sig));
}

#[test]
fn two_signatures_of_one_message_differ() {
    let (sk, pk) = SchnorrSig::generate_keypair();
    let msg = b"Hello world!";
    let first = SchnorrSig::sign(sk, msg);
    let second = SchnorrSig::sign(sk, msg);
    assert!(first.0 != second.0);
    assert!(first.1 != second.1);
    assert!(SchnorrSig::verify(pk, msg, first));
    assert!(SchnorrSig::verify(pk, msg, second));
}

#[test]
fn two_key_pairs_differ() {
    let (sk1, pk1) = SchnorrSig::generate_keypair();
    let (sk2, pk2) = SchnorrSig::generate_keypair();
    assert!(sk1 != sk2);
    assert!(pk1 != pk2);
}

#[test]
fn the_public_key_belongs_to_the_secret_key() {
    let (sk, pk) = SchnorrSig::generate_keypair();
    assert!(SchnorrSig::public_key(&sk) == pk);
}

#[test]
fn one_nonce_gives_one_signature() {
    let sk = Scalar::from_limbs([5, 0, 0, 0]).unwrap();
    let nonce = Scalar::from_limbs([11, 22, 33, 44]).unwrap();
    let msg = b"Hello world!";
    let first = SchnorrSig::sign_with_nonce(sk, msg, nonce);
    let second = SchnorrSig::sign_with_nonce(sk, msg, nonce);
    assert!(first.0 == second.0);
    assert!(first.1 == second.1);
    assert!(SchnorrSig::verify(SchnorrSig::public_key(&sk), msg, first));
}

#[test]
fn two_nonces_give_two_commitments() {
    let sk = Scalar::from_limbs([5, 0, 0, 0]).unwrap();
    let msg = b"Hello world!";
    let first = SchnorrSig::sign_with_nonce(sk, msg, Scalar::from_limbs([1, 0, 0, 0]).unwrap());
    let second = SchnorrSig::sign_with_nonce(sk, msg, Scalar::from_limbs([2, 0, 0, 0]).unwrap());
    assert!(first.0 != second.0);
}

#[test]
fn signature_with_nonce_one() {
    // With the nonce 1 the commitment is the generator, and the response is
    // 1 + 5 * c for the challenge c of "Hello world!" and the generator.
    let sk = Scalar::from_limbs([5, 0, 0, 0]).unwrap();
    let nonce = Scalar::from_limbs([1, 0, 0, 0]).unwrap();
    let (commitment, response) = SchnorrSig::sign_with_nonce(sk, b"Hello world!", nonce);
    assert!(commitment == SchnorrSig::public_key(&nonce));
    assert_eq!(
        response.to_limbs(),
        [
            0xfe9dbe8909e9bdef,
            0xc0911b59340562c7,
            0xd0bc01fdd9f31f66,
            0x47e5be46febc7c0a
        ]
    );
    assert!(SchnorrSig::verify(
        SchnorrSig::public_key(&sk),
        b"Hello world!",
        (commitment, response)
    ));
}

#[test]
fn the_zero_key_signs_with_its_nonce() {
    // Under the secret key 0 the response is the nonce, whatever the message.
    let sk = Scalar::from_limbs([0, 0, 0, 0]).unwrap();
    let nonce = Scalar::from_limbs([9, 8, 7, 6]).unwrap();
    let (commitment, response) = SchnorrSig::sign_with_nonce(sk, b"Hello world!", nonce);
    assert!(response == nonce);
    let pk = SchnorrSig::public_key(&sk);
    assert!(SchnorrSig::verify(pk, b"Hello world!", (commitment, response)));
    assert!(SchnorrSig::verify(pk, b"Hello world!!", (commitment, response)));
}

#[test]
fn the_response_wraps_around_the_order() {
    // sk = r - 1 and nonce = r - 1: z = (r - 1) + (r - 1) * c = -(1 + c) mod r.
    let top = [
        0xffffffff00000000,
        0x53bda402fffe5bfe,
        0x3339d80809a1d805,
        0x73eda753299d7d48,
    ];
    let sk = Scalar::from_limbs(top).unwrap();
    let nonce = Scalar::from_limbs(top).unwrap();
    let msg = b"Hello world!";
    let (commitment, response) = SchnorrSig::sign_with_nonce(sk, msg, nonce);
    let c = SchnorrSig::hash_message_and_ut(msg, &commitment);
    let expected = -(Fr::from(1u64) + Fr::from_bigint(ark_ff::BigInt::new(c.to_limbs())).unwrap());
    assert_eq!(response.to_limbs(), expected.into_bigint().0);
    assert!(SchnorrSig::verify(
        SchnorrSig::public_key(&sk),
        msg,
        (commitment, response)
    ));
}
