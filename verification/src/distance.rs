//! Distances along a ray.
//!
//! A distance is a non-negative single-precision number, held as its bit
//! pattern: eight bits of exponent above twenty-three bits of fraction, the
//! sign bit clear. Among such patterns the unsigned order is the order of the
//! numbers they denote, so two distances are compared without any arithmetic
//! on the numbers themselves.

use vstd::prelude::*;
use vstd::arithmetic::power2::{pow2, lemma_pow2_pos, lemma_pow2_unfold, lemma_pow2_adds,
    lemma_pow2_strictly_increases, lemma2_to64};
use vstd::arithmetic::mul::{lemma_mul_inequality, lemma_mul_strict_inequality,
    lemma_mul_is_associative, lemma_mul_is_commutative};

verus! {

/// The pattern of positive infinity, the largest that denotes a distance.
pub const INFINITE_BITS: u32 = 0x7f80_0000;

/// The pattern of the number one.
pub const ONE_BITS: u32 = 0x3f80_0000;

/// The pattern of 1000, the distance from which on nothing counts as hit.
pub const FAR_LIMIT_BITS: u32 = 0x447a_0000;

/// The exponent field of a pattern.
pub open spec fn exponent_of(bits: u32) -> nat {
    (bits / 0x80_0000) as nat
}

/// The fraction field of a pattern.
pub open spec fn fraction_of(bits: u32) -> nat {
    (bits % 0x80_0000) as nat
}

/// The magnitude of the number one.
pub open spec fn unit() -> nat {
    pow2(149)
}

/// The number that a pattern denotes, counted in steps of 2^-149, the
/// smallest positive single-precision number. Positive infinity is given
/// the magnitude that the same rule yields for it, above every finite one.
pub open spec fn magnitude_of(bits: u32) -> nat {
    let e = exponent_of(bits);
    let f = fraction_of(bits);
    if e == 0 {
        f
    } else {
        (0x80_0000 + f) * pow2((e - 1) as nat)
    }
}

/// A smaller pattern denotes a smaller number.
proof fn lemma_magnitude_increases(a: u32, b: u32)
    requires
        a < b,
    ensures
        magnitude_of(a) < magnitude_of(b),
{
    let ea = exponent_of(a);
    let eb = exponent_of(b);
    let fa = fraction_of(a) as int;
    let fb = fraction_of(b) as int;
    if ea == eb {
        if ea > 0 {
            let p = pow2((ea - 1) as nat);
            lemma_pow2_pos((ea - 1) as nat);
            lemma_mul_strict_inequality(0x80_0000 + fa, 0x80_0000 + fb, p as int);
        }
    } else {
        let q = pow2((eb - 1) as nat);
        lemma_pow2_pos((eb - 1) as nat);
        lemma_mul_inequality(0x80_0000, 0x80_0000 + fb, q as int);
        lemma_mul_inequality(1, q as int, 0x80_0000);
        if ea > 0 {
            let p = pow2((ea - 1) as nat);
            lemma_pow2_pos((ea - 1) as nat);
            lemma_pow2_unfold(ea);
            lemma_mul_strict_inequality(0x80_0000 + fa, 0x100_0000, p as int);
            assert(0x100_0000 * p == 0x80_0000 * pow2(ea)) by {
                lemma_mul_is_associative(0x80_0000, 2, p as int);
            }
            if ea < eb - 1 {
                lemma_pow2_strictly_increases(ea, (eb - 1) as nat);
            }
            lemma_mul_inequality(pow2(ea) as int, q as int, 0x80_0000);
            lemma_mul_is_commutative(pow2(ea) as int, 0x80_0000);
            lemma_mul_is_commutative(q as int, 0x80_0000);
        }
    }
}

/// The order of two patterns is the order of the numbers they denote.
pub proof fn lemma_order_of_patterns(a: u32, b: u32)
    ensures
        a < b <==> magnitude_of(a) < magnitude_of(b),
        a == b <==> magnitude_of(a) == magnitude_of(b),
{
    if a < b {
        lemma_magnitude_increases(a, b);
    }
    if b < a {
        lemma_magnitude_increases(b, a);
    }
}

/// The two named patterns denote what their names say: one, and one
/// thousand.
pub proof fn lemma_far_limit_is_thousand()
    ensures
        magnitude_of(ONE_BITS) == unit(),
        magnitude_of(FAR_LIMIT_BITS) == 1000 * unit(),
{
    lemma2_to64();
    assert(exponent_of(ONE_BITS) == 127 && fraction_of(ONE_BITS) == 0);
    assert(exponent_of(FAR_LIMIT_BITS) == 136 && fraction_of(FAR_LIMIT_BITS) == 0x7a_0000);
    lemma_pow2_adds(23, 126);
    lemma_pow2_adds(14, 135);
    assert(0xfa_0000 * pow2(135) == 1000 * (pow2(14) * pow2(135))) by {
        lemma_mul_is_associative(1000, pow2(14) as int, pow2(135) as int);
    }
}

/// A distance along a ray: a non-negative number or positive infinity.
#[derive(Clone, Copy, Debug)]
pub struct Distance {
    bits: u32,
}

impl Distance {
    #[verifier::type_invariant]
    spec fn sign_clear_and_a_number(self) -> bool {
        self.bits <= INFINITE_BITS
    }

    /// The bit pattern of the distance.
    pub closed spec fn pattern(self) -> u32 {
        self.bits
    }

    /// The distance as a number, in steps of 2^-149.
    pub open spec fn magnitude(self) -> nat {
        magnitude_of(self.pattern())
    }

    /// Takes the pattern of a single-precision number. A pattern with the
    /// sign bit set, or one that denotes no number, is no distance.
    pub fn from_bits(bits: u32) -> (found: Option<Distance>)
        ensures
            bits <= INFINITE_BITS <==> found.is_some(),
            found.is_some() ==> found.unwrap().pattern() == bits,
    {
        if bits <= INFINITE_BITS {
            Some(Distance { bits })
        } else {
            None
        }
    }

    /// The pattern that the distance was made of.
    pub fn to_bits(self) -> (bits: u32)
        ensures
            bits == self.pattern(),
            bits <= INFINITE_BITS,
    {
        proof {
            use_type_invariant(&self);
        }
        self.bits
    }

    /// Whether this distance is strictly shorter than `other`.
    pub fn nearer_than(self, other: Distance) -> (nearer: bool)
        ensures
            nearer == (self.magnitude() < other.magnitude()),
    {
        proof {
            lemma_order_of_patterns(self.bits, other.bits);
        }
        self.bits < other.bits
    }

    /// Whether this distance is below the far limit of one thousand.
    pub fn within_reach(self) -> (within: bool)
        ensures
            within == (self.magnitude() < 1000 * unit()),
    {
        proof {
            lemma_order_of_patterns(self.bits, FAR_LIMIT_BITS);
            lemma_far_limit_is_thousand();
        }
        self.bits < FAR_LIMIT_BITS
    }
}

} // verus!
