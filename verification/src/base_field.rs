//! The base field of the curve: the field that the coordinates of a point
//! lie in.

use vstd::prelude::*;

verus! {

/// The integer that six 64-bit limbs stand for, least significant limb first.
pub open spec fn wide_limbs_value(limbs: Seq<u64>) -> nat
    recommends
        limbs.len() == 6,
{
    (limbs[0] as nat) + (limbs[1] as nat) * 0x1_0000_0000_0000_0000nat
        + (limbs[2] as nat) * 0x1_0000_0000_0000_0000_0000_0000_0000_0000nat
        + (limbs[3] as nat)
        * 0x1_0000_0000_0000_0000_0000_0000_0000_0000_0000_0000_0000_0000nat
        + (limbs[4] as nat)
        * 0x1_0000_0000_0000_0000_0000_0000_0000_0000_0000_0000_0000_0000_0000_0000_0000_0000nat
        + (limbs[5] as nat)
        * 0x1_0000_0000_0000_0000_0000_0000_0000_0000_0000_0000_0000_0000_0000_0000_0000_0000_0000_0000_0000_0000nat
}

/// The parameters of the base field of BLS12-381. Its modulus has 381 bits,
/// so an element takes six limbs of 64 bits, and the 48 bytes of a compressed
/// point leave three bits for flags.
pub struct FqConfig;

impl FqConfig {
    /// The modulus of the field.
    pub open spec fn modulus() -> nat {
        4002409555221667393417789825735904156556882819939007885332058136124031650490837864442687629129015664037894272559787nat
    }

    /// The element that the configuration names as a generator of the
    /// field's multiplicative group.
    pub open spec fn generator() -> nat {
        2
    }

    /// The modulus has 381 bits.
    pub proof fn lemma_modulus_width()
        ensures
            Self::modulus() < 0x2000_0000_0000_0000_0000_0000_0000_0000_0000_0000_0000_0000_0000_0000_0000_0000_0000_0000_0000_0000_0000_0000_0000_0000nat,
            Self::modulus() >= 0x1000_0000_0000_0000_0000_0000_0000_0000_0000_0000_0000_0000_0000_0000_0000_0000_0000_0000_0000_0000_0000_0000_0000_0000nat,
    {
    }

    /// The limbs of the modulus, least significant first.
    pub fn modulus_limbs() -> (limbs: [u64; 6])
        ensures
            wide_limbs_value(limbs@) == Self::modulus(),
    {
        [
            0xb9fe_ffff_ffff_aaab,
            0x1eab_fffe_b153_ffff,
            0x6730_d2a0_f6b0_f624,
            0x6477_4b84_f385_12bf,
            0x4b1b_a7b6_434b_acd7,
            0x1a01_11ea_397f_e69a,
        ]
    }
}

} // verus!
