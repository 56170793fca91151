//! The signature scheme: key generation, signing and verification.
//!
//! A secret key is a scalar `sk`, its public key the generator multiplied by
//! `sk`. A signature on a message is a commitment `U`, the generator
//! multiplied by a fresh nonce, and a response `z = nonce + sk * c`, where the
//! challenge `c` is derived by hashing the message and the commitment. It is
//! accepted when the generator multiplied by `z` is `U` plus the public key
//! multiplied by `c`.

use crate::digest::{sha256, sha256_digest, DIGEST_LEN};
use crate::group::{
    discrete_log, generator_multiple, group_add, group_mul, is_group_element,
    lemma_log_is_unique, mul_generator, point_add, point_mul, GroupElement,
};
use crate::scalar::{field_add, field_mul, le_value, order, random_scalar, reduce_le_bytes, Scalar};
use vstd::arithmetic::div_mod::{lemma_add_mod_noop_right, lemma_mod_bound};
use vstd::prelude::*;

verus! {

/// The challenge that binds a commitment to a message: the digest of the
/// message followed by the commitment's encoding, read as an integer, least
/// significant byte first, and reduced modulo the group order.
pub open spec fn challenge(message: Seq<u8>, commitment: Seq<u8>) -> nat {
    le_value(sha256(message + commitment)) % order()
}

/// `public_key` is the public key of the secret key `secret_key`.
pub open spec fn is_key_pair(secret_key: nat, public_key: Seq<u8>) -> bool {
    &&& secret_key < order()
    &&& is_group_element(public_key)
    &&& public_key == generator_multiple(secret_key)
}

/// `commitment` and `response` are a signature on `message` under the secret
/// key `secret_key`: the response is the commitment's nonce plus the secret
/// key times the challenge.
pub open spec fn is_signature(
    secret_key: nat,
    message: Seq<u8>,
    commitment: Seq<u8>,
    response: nat,
) -> bool {
    &&& is_group_element(commitment)
    &&& response == (discrete_log(commitment) + secret_key * challenge(message, commitment))
        % order()
}

/// The verification equation read in the exponent: `response` is the
/// discrete logarithm of `commitment` plus that of `public_key` times the
/// challenge.
pub open spec fn accepts(
    public_key: Seq<u8>,
    message: Seq<u8>,
    commitment: Seq<u8>,
    response: nat,
) -> bool {
    response == (discrete_log(commitment) + discrete_log(public_key) * challenge(
        message,
        commitment,
    )) % order()
}

/// The verification equation as it is computed: the generator multiplied by
/// `response` is `commitment` plus `public_key` multiplied by the challenge.
pub open spec fn equation_holds(
    public_key: Seq<u8>,
    message: Seq<u8>,
    commitment: Seq<u8>,
    response: nat,
) -> bool {
    generator_multiple(response) == group_add(
        commitment,
        group_mul(public_key, challenge(message, commitment)),
    )
}

/// A challenge is a scalar.
pub proof fn lemma_challenge_is_scalar(message: Seq<u8>, commitment: Seq<u8>)
    ensures
        challenge(message, commitment) < order(),
{
    lemma_mod_bound(le_value(sha256(message + commitment)) as int, order() as int);
}

/// The Schnorr signature scheme over the group G1 of BLS12-381, with SHA-256
/// for the challenge.
pub struct SchnorrSig {}

impl SchnorrSig {
    /// A fresh key pair: a secret key drawn at random, and its public key.
    pub fn generate_keypair() -> (pair: (Scalar, GroupElement))
        ensures
            is_key_pair(pair.0@, pair.1@),
    {
        let private_key = random_scalar();
        let public_key = Self::public_key(&private_key);
        (private_key, public_key)
    }

    /// The public key of a secret key: the generator multiplied by it.
    pub fn public_key(private_key: &Scalar) -> (public_key: GroupElement)
        ensures
            is_key_pair(private_key@, public_key@),
    {
        proof {
            use_type_invariant(private_key);
        }
        mul_generator(private_key)
    }

    /// Signs `message` with a nonce drawn at random.
    pub fn sign(private_key: Scalar, message: &[u8]) -> (signature: (GroupElement, Scalar))
        ensures
            is_signature(private_key@, message@, signature.0@, signature.1@),
    {
        let alpha_t = random_scalar();
        Self::sign_with_nonce(private_key, message, alpha_t)
    }

    /// Signs `message` with the nonce `nonce`. The nonce has to be fresh: two
    /// signatures under one key with one nonce give the key away.
    pub fn sign_with_nonce(private_key: Scalar, message: &[u8], nonce: Scalar) -> (signature: (
        GroupElement,
        Scalar,
    ))
        ensures
            signature.0@ == generator_multiple(nonce@),
            signature.1@ == (nonce@ + private_key@ * challenge(message@, signature.0@)) % order(),
            is_signature(private_key@, message@, signature.0@, signature.1@),
    {
        proof {
            use_type_invariant(&private_key);
            use_type_invariant(&nonce);
        }
        let u_t = mul_generator(&nonce);
        let c = Self::hash_message_and_ut(message, &u_t);
        proof {
            use_type_invariant(&c);
        }
        let alpha_c = field_mul(&private_key, &c);
        proof {
            use_type_invariant(&alpha_c);
        }
        let alpha_z = field_add(&nonce, &alpha_c);
        proof {
            lemma_log_is_unique(nonce@, u_t@);
            lemma_add_mod_noop_right(
                nonce@ as int,
                (private_key@ * c@) as int,
                order() as int,
            );
        }
        (u_t, alpha_z)
    }

    /// The challenge for `message` and the commitment `u_t`.
    pub fn hash_message_and_ut(message: &[u8], u_t: &GroupElement) -> (c: Scalar)
        ensures
            c@ == challenge(message@, u_t@),
    {
        let encoding = u_t.to_bytes();
        let mut input: Vec<u8> = Vec::new();
        input.extend_from_slice(message);
        input.extend_from_slice(encoding.as_slice());
        assert(input@ =~= message@ + u_t@);
        let digest = sha256_digest(input.as_slice());
        Self::challenge_from_digest(&digest)
    }

    /// The scalar that a digest stands for: the digest read as an integer,
    /// least significant byte first, and reduced modulo the group order.
    pub fn challenge_from_digest(digest: &[u8; DIGEST_LEN]) -> (c: Scalar)
        ensures
            c@ == le_value(digest@) % order(),
    {
        reduce_le_bytes(digest.as_slice())
    }

    /// Whether `signature` is accepted as a signature on `message` under
    /// `public_key`.
    pub fn verify(public_key: GroupElement, message: &[u8], signature: (GroupElement, Scalar)) -> (ok:
        bool)
        ensures
            ok == accepts(public_key@, message@, signature.0@, signature.1@),
            ok == equation_holds(public_key@, message@, signature.0@, signature.1@),
    {
        let (u_t, alpha_z) = signature;
        proof {
            use_type_invariant(&public_key);
            use_type_invariant(&u_t);
            use_type_invariant(&alpha_z);
        }
        let c = Self::hash_message_and_ut(message, &u_t);
        proof {
            use_type_invariant(&c);
        }
        let g = mul_generator(&alpha_z);
        let u_c = point_mul(&public_key, &c);
        let g_prime = point_add(&u_t, &u_c);
        proof {
            let scaled = (discrete_log(public_key@) * c@) % order();
            let expected = (discrete_log(u_t@) + discrete_log(public_key@) * c@) % order();
            lemma_mod_bound((discrete_log(public_key@) * c@) as int, order() as int);
            lemma_log_is_unique(scaled, u_c@);
            lemma_add_mod_noop_right(
                discrete_log(u_t@) as int,
                (discrete_log(public_key@) * c@) as int,
                order() as int,
            );
            assert(g_prime@ == generator_multiple(expected));
            lemma_mod_bound(
                (discrete_log(u_t@) + discrete_log(public_key@) * c@) as int,
                order() as int,
            );
            lemma_log_is_unique(expected, g_prime@);
            lemma_log_is_unique(alpha_z@, g@);
        }
        g == g_prime
    }
}

} // verus!
