//! The scalar field: the integers modulo the order of the group.

use ark_bls12_381::Fr;
use ark_ff::{BigInt, PrimeField, UniformRand};
use vstd::prelude::*;

verus! {

/// The order `r` of the group, a 255-bit prime. Scalars are the integers
/// `0, 1, .., r - 1`.
pub open spec fn order() -> nat {
    52435875175126190479447740508185965837690552500527637822603658699938581184513nat
}

/// The integer that four 64-bit limbs stand for, least significant limb first.
pub open spec fn limbs_value(limbs: Seq<u64>) -> nat
    recommends
        limbs.len() == 4,
{
    (limbs[0] as nat) + (limbs[1] as nat) * 0x1_0000_0000_0000_0000nat
        + (limbs[2] as nat) * 0x1_0000_0000_0000_0000_0000_0000_0000_0000nat
        + (limbs[3] as nat) * 0x1_0000_0000_0000_0000_0000_0000_0000_0000_0000_0000_0000_0000nat
}

/// The limbs of the group order, least significant first.
pub const ORDER_LIMBS: [u64; 4] = [
    0xffff_ffff_0000_0001,
    0x53bd_a402_fffe_5bfe,
    0x3339_d808_09a1_d805,
    0x73ed_a753_299d_7d48,
];

/// The limbs of [`ORDER_LIMBS`] stand for [`order`].
pub proof fn lemma_order_limbs()
    ensures
        limbs_value(ORDER_LIMBS@) == order(),
{
}

/// An element of the scalar field, held as its least non-negative
/// representative.
#[derive(Clone, Copy)]
pub struct Scalar {
    pub(crate) limbs: [u64; 4],
}

impl View for Scalar {
    type V = nat;

    closed spec fn view(&self) -> nat {
        limbs_value(self.limbs@)
    }
}

impl PartialEq for Scalar {
    fn eq(&self, other: &Scalar) -> (same: bool) {
        self.limbs[0] == other.limbs[0] && self.limbs[1] == other.limbs[1]
            && self.limbs[2] == other.limbs[2] && self.limbs[3] == other.limbs[3]
    }
}

impl Eq for Scalar {

}

impl vstd::std_specs::cmp::PartialEqSpecImpl for Scalar {
    open spec fn obeys_eq_spec() -> bool {
        true
    }

    open spec fn eq_spec(&self, other: &Scalar) -> bool {
        self@ == other@
    }
}

impl Scalar {
    #[verifier::type_invariant]
    pub(crate) open spec fn reduced(self) -> bool {
        self@ < order()
    }

    /// The scalar that `limbs` stand for, if they stand for an integer below
    /// the group order.
    pub fn from_limbs(limbs: [u64; 4]) -> (out: Option<Scalar>)
        ensures
            out is Some <==> limbs_value(limbs@) < order(),
            out matches Some(s) ==> s@ == limbs_value(limbs@),
    {
        proof {
            lemma_order_limbs();
        }
        let below = if limbs[3] != ORDER_LIMBS[3] {
            limbs[3] < ORDER_LIMBS[3]
        } else if limbs[2] != ORDER_LIMBS[2] {
            limbs[2] < ORDER_LIMBS[2]
        } else if limbs[1] != ORDER_LIMBS[1] {
            limbs[1] < ORDER_LIMBS[1]
        } else {
            limbs[0] < ORDER_LIMBS[0]
        };
        if below {
            Some(Scalar { limbs })
        } else {
            None
        }
    }

    /// The limbs of the scalar's representative, least significant first.
    pub fn to_limbs(&self) -> (limbs: [u64; 4])
        ensures
            limbs_value(limbs@) == self@,
            self@ < order(),
    {
        proof {
            use_type_invariant(self);
        }
        self.limbs
    }
}

/// The integer that `bytes` stand for, least significant byte first.
pub open spec fn le_value(bytes: Seq<u8>) -> nat
    decreases bytes.len(),
{
    if bytes.len() == 0 {
        0
    } else {
        (bytes[0] as nat) + 256 * le_value(bytes.drop_first())
    }
}

/// Calls `ark_ff::PrimeField::from_le_bytes_mod_order` of the scalar field:
/// the bytes are read as an integer, least significant byte first, and that
/// integer is reduced modulo the group order.
#[verifier::external_body]
pub(crate) fn reduce_le_bytes(bytes: &[u8]) -> (out: Scalar)
    ensures
        out@ == le_value(bytes@) % order(),
{
    Scalar { limbs: Fr::from_le_bytes_mod_order(bytes).into_bigint().0 }
}

/// Calls the scalar field's addition (`+` of `ark_bls12_381::Fr`): the sum
/// modulo the group order.
#[verifier::external_body]
pub(crate) fn field_add(a: &Scalar, b: &Scalar) -> (out: Scalar)
    requires
        a@ < order(),
        b@ < order(),
    ensures
        out@ == (a@ + b@) % order(),
{
    let x = Fr::from_bigint(BigInt::new(a.limbs)).unwrap();
    let y = Fr::from_bigint(BigInt::new(b.limbs)).unwrap();
    Scalar { limbs: (x + y).into_bigint().0 }
}

/// Calls the scalar field's multiplication (`*` of `ark_bls12_381::Fr`): the
/// product modulo the group order.
#[verifier::external_body]
pub(crate) fn field_mul(a: &Scalar, b: &Scalar) -> (out: Scalar)
    requires
        a@ < order(),
        b@ < order(),
    ensures
        out@ == (a@ * b@) % order(),
{
    let x = Fr::from_bigint(BigInt::new(a.limbs)).unwrap();
    let y = Fr::from_bigint(BigInt::new(b.limbs)).unwrap();
    Scalar { limbs: (x * y).into_bigint().0 }
}

/// Calls `ark_ff::UniformRand::rand` of the scalar field on the generator of
/// `rand::thread_rng`: a scalar drawn uniformly at random. Nothing is known
/// of it but that it is a scalar.
#[verifier::external_body]
pub(crate) fn random_scalar() -> (out: Scalar)
    ensures
        out@ < order(),
{
    Scalar { limbs: Fr::rand(&mut rand::thread_rng()).into_bigint().0 }
}

} // verus!
