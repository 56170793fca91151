//! The group: the prime-order subgroup G1 of the BLS12-381 curve.
//!
//! The group is cyclic of order [`order`]: every element is the generator
//! multiplied by exactly one scalar, its discrete logarithm. An element is
//! held as its canonical compressed encoding, and the contracts of this
//! module say what an operation does to the logarithms.

use crate::scalar::{order, Scalar};
use ark_bls12_381::{Fr, G1Affine, G1Projective};
use ark_ec::{CurveGroup, Group};
use ark_ff::{BigInt, PrimeField};
use ark_serialize::{CanonicalDeserialize, CanonicalSerialize};
use vstd::prelude::*;

verus! {

/// The number of bytes in the compressed encoding of a group element.
pub const ENCODED_LEN: usize = 48;

/// The compressed encoding of the generator multiplied by `k`.
pub uninterp spec fn generator_multiple(k: nat) -> Seq<u8>;

/// `k` is a scalar, and `encoding` encodes the generator multiplied by it.
pub open spec fn is_log_of(k: nat, encoding: Seq<u8>) -> bool {
    k < order() && generator_multiple(k) == encoding
}

/// `encoding` is the compressed encoding of a group element: it has a
/// discrete logarithm, and only one.
pub open spec fn is_group_element(encoding: Seq<u8>) -> bool {
    &&& encoding.len() == ENCODED_LEN
    &&& exists|k: nat| is_log_of(k, encoding)
    &&& forall|j: nat, k: nat| is_log_of(j, encoding) && is_log_of(k, encoding) ==> j == k
}

/// The discrete logarithm of a group element: the scalar by which the
/// generator is multiplied to give it.
pub open spec fn discrete_log(encoding: Seq<u8>) -> nat {
    choose|k: nat| is_log_of(k, encoding)
}

/// The sum of two group elements.
pub open spec fn group_add(a: Seq<u8>, b: Seq<u8>) -> Seq<u8> {
    generator_multiple((discrete_log(a) + discrete_log(b)) % order())
}

/// The group element `a` multiplied by the scalar `k`.
pub open spec fn group_mul(a: Seq<u8>, k: nat) -> Seq<u8> {
    generator_multiple((discrete_log(a) * k) % order())
}

/// The discrete logarithm of a group element is a scalar and gives the
/// element back.
pub proof fn lemma_discrete_log(encoding: Seq<u8>)
    requires
        is_group_element(encoding),
    ensures
        discrete_log(encoding) < order(),
        generator_multiple(discrete_log(encoding)) == encoding,
{
    let k = choose|k: nat| is_log_of(k, encoding);
    assert(is_log_of(k, encoding));
}

/// A group element has no logarithm but its discrete logarithm.
pub proof fn lemma_log_is_unique(k: nat, encoding: Seq<u8>)
    requires
        is_group_element(encoding),
        is_log_of(k, encoding),
    ensures
        discrete_log(encoding) == k,
{
    lemma_discrete_log(encoding);
    assert(is_log_of(discrete_log(encoding), encoding));
}

/// Two group elements with the same discrete logarithm are the same.
pub proof fn lemma_same_log_same_element(a: Seq<u8>, b: Seq<u8>)
    requires
        is_group_element(a),
        is_group_element(b),
    ensures
        a == b <==> discrete_log(a) == discrete_log(b),
{
    lemma_discrete_log(a);
    lemma_discrete_log(b);
}

/// An element of the group, held as its compressed encoding.
#[derive(Clone, Copy, Debug)]
pub struct GroupElement {
    pub(crate) bytes: [u8; ENCODED_LEN],
}

impl View for GroupElement {
    type V = Seq<u8>;

    closed spec fn view(&self) -> Seq<u8> {
        self.bytes@
    }
}

impl PartialEq for GroupElement {
    fn eq(&self, other: &GroupElement) -> (same: bool) {
        self.same_bytes(&other.bytes)
    }
}

impl Eq for GroupElement {

}

impl vstd::std_specs::cmp::PartialEqSpecImpl for GroupElement {
    open spec fn obeys_eq_spec() -> bool {
        true
    }

    open spec fn eq_spec(&self, other: &GroupElement) -> bool {
        self@ == other@
    }
}

impl GroupElement {
    #[verifier::type_invariant]
    pub(crate) open spec fn in_group(self) -> bool {
        is_group_element(self@)
    }

    /// The compressed encoding of the element.
    pub fn to_bytes(&self) -> (bytes: [u8; ENCODED_LEN])
        ensures
            bytes@ == self@,
            is_group_element(self@),
    {
        proof {
            use_type_invariant(self);
        }
        self.bytes
    }

    /// The group element that `bytes` encode, if they are the compressed
    /// encoding of one.
    pub fn from_bytes(bytes: &[u8]) -> (out: Option<GroupElement>)
        ensures
            out is Some <==> is_group_element(bytes@),
            out matches Some(element) ==> element@ == bytes@,
    {
        if bytes.len() != ENCODED_LEN {
            return None;
        }
        let mut encoding = [0u8; ENCODED_LEN];
        let mut i: usize = 0;
        while i < ENCODED_LEN
            invariant
                i <= ENCODED_LEN,
                bytes@.len() == ENCODED_LEN,
                forall|j: int| 0 <= j < i ==> encoding@[j] == bytes@[j],
            decreases ENCODED_LEN - i,
        {
            encoding[i] = bytes[i];
            i += 1;
        }
        assert(encoding@ =~= bytes@);
        match decode(&encoding) {
            Some(element) => {
                if element.same_bytes(&encoding) {
                    Some(element)
                } else {
                    None
                }
            },
            None => None,
        }
    }

    /// Whether the element's encoding is `bytes`.
    fn same_bytes(&self, bytes: &[u8; ENCODED_LEN]) -> (same: bool)
        ensures
            same == (self@ == bytes@),
    {
        let mut i: usize = 0;
        while i < ENCODED_LEN
            invariant
                i <= ENCODED_LEN,
                forall|j: int| 0 <= j < i ==> self.bytes@[j] == bytes@[j],
            decreases ENCODED_LEN - i,
        {
            if self.bytes[i] != bytes[i] {
                return false;
            }
            i += 1;
        }
        assert(self.bytes@ =~= bytes@);
        true
    }
}

/// Calls `G1Projective::generator() * k` of `ark_bls12_381`, and encodes the
/// product with `serialize_compressed`. The encoding is a function of the
/// scalar alone, named [`generator_multiple`]. The generator has the prime
/// order [`order`] and the encoding is canonical, so the product has no other
/// logarithm than `k`.
#[verifier::external_body]
pub(crate) fn mul_generator(k: &Scalar) -> (out: GroupElement)
    requires
        k@ < order(),
    ensures
        out@ == generator_multiple(k@),
        is_group_element(out@),
{
    let scalar = Fr::from_bigint(BigInt::new(k.limbs)).unwrap();
    let product = (G1Projective::generator() * scalar).into_affine();
    let mut bytes = [0u8; ENCODED_LEN];
    product.serialize_compressed(&mut bytes[..]).unwrap();
    GroupElement { bytes }
}

/// Decodes the element and calls its multiplication by a scalar (`*` of
/// `ark_bls12_381::G1Affine` and `Fr`), and encodes the product. Multiplying
/// an element by `k` multiplies its discrete logarithm by `k`, modulo the
/// group order.
#[verifier::external_body]
pub(crate) fn point_mul(a: &GroupElement, k: &Scalar) -> (out: GroupElement)
    requires
        is_group_element(a@),
        k@ < order(),
    ensures
        out@ == group_mul(a@, k@),
        is_group_element(out@),
{
    let point = G1Affine::deserialize_compressed(&a.bytes[..]).unwrap();
    let scalar = Fr::from_bigint(BigInt::new(k.limbs)).unwrap();
    let product = (point * scalar).into_affine();
    let mut bytes = [0u8; ENCODED_LEN];
    product.serialize_compressed(&mut bytes[..]).unwrap();
    GroupElement { bytes }
}

/// Decodes the two elements and calls the group's addition (`+` of
/// `ark_bls12_381::G1Affine`), and encodes the sum. Adding two elements adds
/// their discrete logarithms, modulo the group order.
#[verifier::external_body]
pub(crate) fn point_add(a: &GroupElement, b: &GroupElement) -> (out: GroupElement)
    requires
        is_group_element(a@),
        is_group_element(b@),
    ensures
        out@ == group_add(a@, b@),
        is_group_element(out@),
{
    let left = G1Affine::deserialize_compressed(&a.bytes[..]).unwrap();
    let right = G1Affine::deserialize_compressed(&b.bytes[..]).unwrap();
    let sum = (left + right).into_affine();
    let mut bytes = [0u8; ENCODED_LEN];
    sum.serialize_compressed(&mut bytes[..]).unwrap();
    GroupElement { bytes }
}

/// Calls `G1Affine::deserialize_compressed` of `ark_bls12_381`, which checks
/// that the point read lies on the curve and in the group, and encodes what it
/// read with `serialize_compressed`. What comes back is a group element; the
/// encoding of a group element is read as that element.
#[verifier::external_body]
fn decode(bytes: &[u8; ENCODED_LEN]) -> (out: Option<GroupElement>)
    ensures
        out is Some ==> is_group_element(out->0@),
        is_group_element(bytes@) ==> out is Some,
        out is Some && is_group_element(bytes@) ==> out->0@ == bytes@,
{
    match G1Affine::deserialize_compressed(&bytes[..]) {
        Ok(point) => {
            let mut encoding = [0u8; ENCODED_LEN];
            point.serialize_compressed(&mut encoding[..]).unwrap();
            Some(GroupElement { bytes: encoding })
        },
        Err(_) => None,
    }
}

} // verus!
