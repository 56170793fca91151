//! What follows from the contracts of the scheme: which signatures are
//! accepted, and which are not.

use crate::group::{
    discrete_log, is_group_element, is_log_of, lemma_discrete_log, lemma_log_is_unique,
    lemma_same_log_same_element, GroupElement,
};
use crate::scalar::{order, Scalar};
use crate::schnorr::{
    accepts, challenge, is_key_pair, is_signature, lemma_challenge_is_scalar, SchnorrSig,
};
use vstd::arithmetic::div_mod::{
    lemma_mod_equivalence, lemma_mul_mod_noop_right, lemma_small_mod,
};
use vstd::arithmetic::mul::{lemma_mul_is_associative, lemma_mul_is_commutative};
use vstd::prelude::*;

verus! {

/// `b` is an inverse of `a` modulo the group order.
pub open spec fn is_inverse(a: nat, b: nat) -> bool {
    (a * b) % order() == 1
}

/// Adding the same number to both sides keeps a congruence, and taking it
/// away does too.
proof fn lemma_add_cancels(n: nat, a: nat, b: nat)
    ensures
        (n + a) % order() == (n + b) % order() <==> a % order() == b % order(),
{
    let m = order() as int;
    lemma_mod_equivalence((n + a) as int, (n + b) as int, m);
    lemma_mod_equivalence(a as int, b as int, m);
    assert((n + a) as int - (n + b) as int == a as int - b as int);
}

/// A factor that has an inverse can be cancelled from a congruence between
/// two scalars.
proof fn lemma_mul_cancels(a: nat, inverse: nat, x: nat, y: nat)
    requires
        is_inverse(a, inverse),
        x < order(),
        y < order(),
        (a * x) % order() == (a * y) % order(),
    ensures
        x == y,
{
    lemma_inverse_undoes(a, inverse, x);
    lemma_inverse_undoes(a, inverse, y);
}

/// Multiplying by a number and then by its inverse gives a scalar back.
proof fn lemma_inverse_undoes(a: nat, inverse: nat, x: nat)
    requires
        is_inverse(a, inverse),
        x < order(),
    ensures
        (inverse * ((a * x) % order())) % order() == x,
{
    let m = order() as int;
    lemma_mul_mod_noop_right(inverse as int, (a * x) as int, m);
    lemma_mul_is_associative(inverse as int, a as int, x as int);
    lemma_mul_is_commutative(inverse as int, a as int);
    lemma_mul_is_commutative((a * inverse) as int, x as int);
    assert(inverse * (a * x) == x * (a * inverse));
    lemma_mul_mod_noop_right(x as int, (a * inverse) as int, m);
    assert(x * 1 == x);
    lemma_small_mod(x, order());
}

/// Completeness: a signature made with a secret key is accepted under the
/// public key of that secret key, for the message that was signed.
pub proof fn lemma_signature_is_accepted(
    secret_key: nat,
    public_key: Seq<u8>,
    message: Seq<u8>,
    commitment: Seq<u8>,
    response: nat,
)
    requires
        is_key_pair(secret_key, public_key),
        is_signature(secret_key, message, commitment, response),
    ensures
        accepts(public_key, message, commitment, response),
{
    lemma_log_is_unique(secret_key, public_key);
}

/// Completeness, of the functions themselves: whatever `sign` returns for a
/// secret key and a message, `verify` returns `true` for it under the public
/// key of that secret key and for that message.
pub proof fn lemma_sign_then_verify(
    secret_key: Scalar,
    public_key: GroupElement,
    message: &[u8],
    signature: (GroupElement, Scalar),
    ok: bool,
)
    requires
        is_key_pair(secret_key@, public_key@),
        call_ensures(SchnorrSig::sign, (secret_key, message), signature),
        call_ensures(SchnorrSig::verify, (public_key, message, signature), ok),
    ensures
        ok,
{
    lemma_signature_is_accepted(
        secret_key@,
        public_key@,
        message@,
        signature.0@,
        signature.1@,
    );
}

/// The challenge is determined by the message and the commitment: two
/// derivations from the same two give the same scalar.
pub proof fn lemma_challenge_is_determined(
    message: &[u8],
    commitment: &GroupElement,
    first: Scalar,
    second: Scalar,
)
    requires
        call_ensures(SchnorrSig::hash_message_and_ut, (message, commitment), first),
        call_ensures(SchnorrSig::hash_message_and_ut, (message, commitment), second),
    ensures
        first@ == second@,
{
}

/// Nothing else is accepted: what is accepted under a public key, with a
/// group element for its commitment, is a signature made with the secret key
/// of that public key.
pub proof fn lemma_accepted_is_signature(
    secret_key: nat,
    public_key: Seq<u8>,
    message: Seq<u8>,
    commitment: Seq<u8>,
    response: nat,
)
    requires
        is_key_pair(secret_key, public_key),
        is_group_element(commitment),
        accepts(public_key, message, commitment, response),
    ensures
        is_signature(secret_key, message, commitment, response),
{
    lemma_log_is_unique(secret_key, public_key);
}

/// A signature on one message is accepted for another message exactly when
/// the secret key times the challenge is the same for both, modulo the group
/// order.
pub proof fn lemma_other_message(
    secret_key: nat,
    public_key: Seq<u8>,
    message: Seq<u8>,
    other_message: Seq<u8>,
    commitment: Seq<u8>,
    response: nat,
)
    requires
        is_key_pair(secret_key, public_key),
        is_signature(secret_key, message, commitment, response),
    ensures
        accepts(public_key, other_message, commitment, response) <==> (secret_key * challenge(
            other_message,
            commitment,
        )) % order() == (secret_key * challenge(message, commitment)) % order(),
{
    lemma_log_is_unique(secret_key, public_key);
    lemma_add_cancels(
        discrete_log(commitment),
        secret_key * challenge(other_message, commitment),
        secret_key * challenge(message, commitment),
    );
}

/// Under a secret key that has an inverse modulo the group order, a
/// signature on one message is rejected for every message with another
/// challenge.
pub proof fn lemma_other_message_is_rejected(
    secret_key: nat,
    inverse: nat,
    public_key: Seq<u8>,
    message: Seq<u8>,
    other_message: Seq<u8>,
    commitment: Seq<u8>,
    response: nat,
)
    requires
        is_key_pair(secret_key, public_key),
        is_inverse(secret_key, inverse),
        is_signature(secret_key, message, commitment, response),
        challenge(other_message, commitment) != challenge(message, commitment),
    ensures
        !accepts(public_key, other_message, commitment, response),
{
    lemma_other_message(secret_key, public_key, message, other_message, commitment, response);
    lemma_challenge_is_scalar(other_message, commitment);
    lemma_challenge_is_scalar(message, commitment);
    if accepts(public_key, other_message, commitment, response) {
        lemma_mul_cancels(
            secret_key,
            inverse,
            challenge(other_message, commitment),
            challenge(message, commitment),
        );
    }
}

/// A signature whose response was replaced by another number is rejected.
pub proof fn lemma_other_response_is_rejected(
    secret_key: nat,
    public_key: Seq<u8>,
    message: Seq<u8>,
    commitment: Seq<u8>,
    response: nat,
    other_response: nat,
)
    requires
        is_key_pair(secret_key, public_key),
        is_signature(secret_key, message, commitment, response),
        other_response != response,
    ensures
        !accepts(public_key, message, commitment, other_response),
{
    lemma_log_is_unique(secret_key, public_key);
}

/// A signature whose commitment was replaced by another group element is
/// rejected, unless the replacement changes the challenge.
pub proof fn lemma_other_commitment_is_rejected(
    secret_key: nat,
    public_key: Seq<u8>,
    message: Seq<u8>,
    commitment: Seq<u8>,
    other_commitment: Seq<u8>,
    response: nat,
)
    requires
        is_key_pair(secret_key, public_key),
        is_signature(secret_key, message, commitment, response),
        is_group_element(other_commitment),
        other_commitment != commitment,
        challenge(message, other_commitment) == challenge(message, commitment),
    ensures
        !accepts(public_key, message, other_commitment, response),
{
    let m = order() as int;
    let shift = secret_key * challenge(message, commitment);
    lemma_log_is_unique(secret_key, public_key);
    lemma_same_log_same_element(commitment, other_commitment);
    lemma_discrete_log(commitment);
    lemma_discrete_log(other_commitment);
    lemma_mod_equivalence(
        (discrete_log(other_commitment) + shift) as int,
        (discrete_log(commitment) + shift) as int,
        m,
    );
    lemma_mod_equivalence(discrete_log(other_commitment) as int, discrete_log(commitment) as int, m);
    lemma_small_mod(discrete_log(other_commitment), order());
    lemma_small_mod(discrete_log(commitment), order());
}

/// A signature made with one secret key is accepted under the public key of
/// another exactly when the two secret keys, times the challenge, are the
/// same modulo the group order.
pub proof fn lemma_other_key(
    secret_key: nat,
    other_secret_key: nat,
    other_public_key: Seq<u8>,
    message: Seq<u8>,
    commitment: Seq<u8>,
    response: nat,
)
    requires
        is_key_pair(other_secret_key, other_public_key),
        is_signature(secret_key, message, commitment, response),
    ensures
        accepts(other_public_key, message, commitment, response) <==> (other_secret_key
            * challenge(message, commitment)) % order() == (secret_key * challenge(
            message,
            commitment,
        )) % order(),
{
    lemma_log_is_unique(other_secret_key, other_public_key);
    lemma_add_cancels(
        discrete_log(commitment),
        other_secret_key * challenge(message, commitment),
        secret_key * challenge(message, commitment),
    );
}

/// Where the challenge has an inverse modulo the group order, a signature
/// made with one secret key is rejected under the public key of every other.
pub proof fn lemma_other_key_is_rejected(
    secret_key: nat,
    other_secret_key: nat,
    other_public_key: Seq<u8>,
    inverse: nat,
    message: Seq<u8>,
    commitment: Seq<u8>,
    response: nat,
)
    requires
        secret_key < order(),
        is_key_pair(other_secret_key, other_public_key),
        is_signature(secret_key, message, commitment, response),
        is_inverse(challenge(message, commitment), inverse),
        other_secret_key != secret_key,
    ensures
        !accepts(other_public_key, message, commitment, response),
{
    let c = challenge(message, commitment);
    lemma_other_key(
        secret_key,
        other_secret_key,
        other_public_key,
        message,
        commitment,
        response,
    );
    if accepts(other_public_key, message, commitment, response) {
        lemma_mul_is_commutative(other_secret_key as int, c as int);
        lemma_mul_is_commutative(secret_key as int, c as int);
        lemma_mul_cancels(c, inverse, other_secret_key, secret_key);
    }
}

/// Two nonces that differ give two commitments that differ.
pub proof fn lemma_other_nonce_other_commitment(
    nonce: nat,
    other_nonce: nat,
    commitment: Seq<u8>,
    other_commitment: Seq<u8>,
)
    requires
        is_group_element(commitment),
        is_group_element(other_commitment),
        is_log_of(nonce, commitment),
        is_log_of(other_nonce, other_commitment),
        other_nonce != nonce,
    ensures
        other_commitment != commitment,
{
    lemma_log_is_unique(nonce, commitment);
    lemma_log_is_unique(other_nonce, other_commitment);
}

} // verus!
