//! Unsigned 256-bit amounts, held as four little-endian 64-bit limbs.
//! The arithmetic is done by `ic_web3`'s `U256`.
use ic_web3::types::U256;
use vstd::prelude::*;

verus! {

/// The weight of the second limb.
pub open spec fn limb_base() -> nat {
    0x1_0000_0000_0000_0000
}

/// The largest value a 256-bit unsigned integer holds: `2^256 - 1`.
pub open spec fn max_value() -> nat {
    (limb_base() * limb_base() * limb_base() * limb_base() - 1) as nat
}

/// A decimal digit.
pub open spec fn is_digit(c: char) -> bool {
    '0' <= c && c <= '9'
}

/// Every character of `s` is a decimal digit (an empty text qualifies).
pub open spec fn all_digits(s: Seq<char>) -> bool {
    forall|i: int| 0 <= i < s.len() ==> is_digit(#[trigger] s[i])
}

/// The number that a text of decimal digits writes, most significant digit first.
pub open spec fn decimal_value(s: Seq<char>) -> nat
    decreases s.len(),
{
    if s.len() == 0 {
        0
    } else {
        decimal_value(s.drop_last()) * 10 + ((s.last() as u32 - '0' as u32) as nat)
    }
}

/// The text is a decimal number that fits in 256 bits.
pub open spec fn is_decimal_u256(s: Seq<char>) -> bool {
    all_digits(s) && decimal_value(s) <= max_value()
}

/// What an amount written as text is worth: its decimal value, or zero where
/// the text is not a decimal number that fits in 256 bits.
pub open spec fn amount(s: Seq<char>) -> nat {
    if is_decimal_u256(s) {
        decimal_value(s)
    } else {
        0
    }
}

/// An unsigned 256-bit integer; `limbs[0]` is the least significant word.
#[derive(Clone, Copy, Debug)]
pub struct Uint256 {
    pub limbs: [u64; 4],
}

impl Uint256 {
    /// The number this value stands for.
    pub open spec fn value(self) -> nat {
        (self.limbs@[0] + limb_base() * (self.limbs@[1] + limb_base() * (self.limbs@[2]
            + limb_base() * self.limbs@[3]))) as nat
    }

    /// A value fits in 256 bits.
    pub proof fn lemma_value_bounded(self)
        ensures
            self.value() <= max_value(),
    {
        let b = limb_base() as int;
        let l0 = self.limbs@[0] as int;
        let l1 = self.limbs@[1] as int;
        let l2 = self.limbs@[2] as int;
        let l3 = self.limbs@[3] as int;
        assert(0 <= l0 < b && 0 <= l1 < b && 0 <= l2 < b && 0 <= l3 < b);
        assert(l2 + b * l3 <= b * b - 1) by (nonlinear_arith)
            requires 0 <= l2 < b, 0 <= l3 < b;
        assert(l1 + b * (l2 + b * l3) <= b * b * b - 1) by (nonlinear_arith)
            requires 0 <= l1 < b, 0 <= l2 + b * l3 <= b * b - 1, b > 0;
        assert(l0 + b * (l1 + b * (l2 + b * l3)) <= b * b * b * b - 1) by (nonlinear_arith)
            requires 0 <= l0 < b, 0 <= l1 + b * (l2 + b * l3) <= b * b * b - 1, b > 0;
    }

    /// A value is below `2^128` exactly when its two high limbs are zero.
    pub proof fn lemma_below_u128(self)
        ensures
            (self.value() < limb_base() * limb_base()) <==> (self.limbs@[2] == 0
                && self.limbs@[3] == 0),
    {
        let b = limb_base() as int;
        let l0 = self.limbs@[0] as int;
        let l1 = self.limbs@[1] as int;
        let hi = self.limbs@[2] + b * self.limbs@[3];
        assert(0 <= l0 < b && 0 <= l1 < b);
        assert(l0 + b * l1 < b * b) by (nonlinear_arith)
            requires 0 <= l0 < b, 0 <= l1 < b;
        assert(hi >= 0) by (nonlinear_arith)
            requires hi == self.limbs@[2] + b * self.limbs@[3], b > 0, self.limbs@[2] >= 0, self.limbs@[3] >= 0;
        assert(l0 + b * (l1 + b * hi) == l0 + b * l1 + b * b * hi) by (nonlinear_arith);
        if self.limbs@[2] != 0 || self.limbs@[3] != 0 {
            assert(hi >= 1) by (nonlinear_arith)
                requires hi == self.limbs@[2] + b * self.limbs@[3], b > 0, self.limbs@[2] >= 0,
                    self.limbs@[3] >= 0, self.limbs@[2] != 0 || self.limbs@[3] != 0;
            assert(b * b * hi >= b * b) by (nonlinear_arith)
                requires hi >= 1, b > 0;
        }
    }

    /// Zero.
    pub fn zero() -> (r: Uint256)
        ensures
            r.value() == 0,
    {
        Uint256 { limbs: [0, 0, 0, 0] }
    }

    /// The value of a 64-bit integer.
    pub fn from_u64(v: u64) -> (r: Uint256)
        ensures
            r.value() == v,
    {
        Uint256 { limbs: [v, 0, 0, 0] }
    }

    /// Relies on `U256::from_dec_str`: it accepts ASCII digits only (the empty
    /// text gives zero) and fails where the number does not fit in 256 bits.
    #[verifier::external_body]
    fn parse_decimal(s: &str) -> (r: Option<Uint256>)
        ensures
            r.is_some() <==> is_decimal_u256(s@),
            r.is_some() ==> r.unwrap().value() == decimal_value(s@),
    {
        match U256::from_dec_str(s) {
            Ok(v) => Some(Uint256 { limbs: v.0 }),
            Err(_) => None,
        }
    }

    /// Relies on `U256::saturating_sub`: the difference, or zero where it
    /// would be negative.
    #[verifier::external_body]
    pub(crate) fn saturating_sub(self, other: Uint256) -> (r: Uint256)
        ensures
            r.value() == (if self.value() >= other.value() {
                self.value() - other.value()
            } else {
                0
            }),
    {
        Uint256 { limbs: U256(self.limbs).saturating_sub(U256(other.limbs)).0 }
    }

    /// Relies on `U256::saturating_mul`: the product, or the largest value
    /// where the product does not fit.
    #[verifier::external_body]
    pub(crate) fn saturating_mul(self, other: Uint256) -> (r: Uint256)
        ensures
            r.value() == (if self.value() * other.value() <= max_value() {
                self.value() * other.value()
            } else {
                max_value()
            }),
    {
        Uint256 { limbs: U256(self.limbs).saturating_mul(U256(other.limbs)).0 }
    }

    /// Relies on `U256`'s `Div`: the quotient rounded down; it panics on a zero divisor.
    #[verifier::external_body]
    pub(crate) fn div(self, other: Uint256) -> (r: Uint256)
        requires
            other.value() > 0,
        ensures
            r.value() == self.value() / other.value(),
    {
        Uint256 { limbs: (U256(self.limbs) / U256(other.limbs)).0 }
    }

    /// Relies on `U256`'s `PartialOrd::le`, which compares the numbers.
    #[verifier::external_body]
    pub(crate) fn le(self, other: Uint256) -> (r: bool)
        ensures
            r == (self.value() <= other.value()),
    {
        U256(self.limbs) <= U256(other.limbs)
    }

    /// Reads an amount written in decimal; text that is not a decimal number
    /// that fits in 256 bits counts as zero.
    pub fn parse_amount(s: &String) -> (r: Uint256)
        ensures
            r.value() == amount(s@),
    {
        match Uint256::parse_decimal(s.as_str()) {
            Some(v) => v,
            None => Uint256::zero(),
        }
    }

    /// The value as a `u128`, or `None` where it is `2^128` or more.
    pub fn to_u128(self) -> (r: Option<u128>)
        ensures
            r == (if self.value() < limb_base() * limb_base() {
                Some(self.value() as u128)
            } else {
                None::<u128>
            }),
    {
        proof {
            self.lemma_below_u128();
        }
        if self.limbs[2] == 0 && self.limbs[3] == 0 {
            let lo = self.limbs[0];
            let hi = self.limbs[1];
            assert(hi as int * 0x1_0000_0000_0000_0000 + lo as int <= u128::MAX) by (nonlinear_arith)
                requires hi <= u64::MAX, lo <= u64::MAX;
            Some((hi as u128) * 0x1_0000_0000_0000_0000u128 + (lo as u128))
        } else {
            None
        }
    }

    /// The value as a `u128`, clamped to `u128::MAX`.
    pub fn saturating_to_u128(self) -> (r: u128)
        ensures
            r == (if self.value() <= u128::MAX {
                self.value()
            } else {
                u128::MAX as nat
            }),
    {
        match self.to_u128() {
            Some(v) => v,
            None => u128::MAX,
        }
    }
}

} // verus!
