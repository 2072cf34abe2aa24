//! Scores and ranks: double-precision numbers, carried by their bit patterns.

use vstd::prelude::*;

use crate::table::Duplicate;
use crate::text::Text;

verus! {

/// A double-precision number, held as the bits of its IEEE 754 representation.
#[derive(Clone, Copy, Debug, PartialEq, Eq, Structural)]
pub struct Real {
    pub bits: u64,
}

/// The bits of the number one.
pub const ONE_BITS: u64 = 0x3ff0_0000_0000_0000;

/// The sign bit; by itself, the bits of negative zero.
pub const SIGN_BIT: u64 = 0x8000_0000_0000_0000;

impl DeepView for Real {
    type V = Real;

    open spec fn deep_view(&self) -> Real {
        *self
    }
}

impl Duplicate for Real {
    fn duplicate(&self) -> (copy: Self) {
        *self
    }
}

impl Real {
    /// Whether the number is finite and lies between zero and one: representations of numbers
    /// without a sign bit grow with the number, and negative zero equals zero.
    pub open spec fn in_unit_interval(self) -> bool {
        self.bits <= ONE_BITS || self.bits == SIGN_BIT
    }

    /// An integer that orders the representations from the highest positive to the lowest
    /// negative one.
    pub open spec fn descending(self) -> int {
        if self.bits < SIGN_BIT {
            -self.bits - 1
        } else {
            self.bits - SIGN_BIT
        }
    }

    /// The number with these bits.
    pub fn from_bits(bits: u64) -> (number: Self)
        ensures
            number.bits == bits,
    {
        Real { bits }
    }

    pub fn one() -> (number: Self)
        ensures
            number.bits == ONE_BITS,
    {
        Real { bits: ONE_BITS }
    }

    pub fn is_score(self) -> (b: bool)
        ensures
            b == self.in_unit_interval(),
    {
        self.bits <= ONE_BITS || self.bits == SIGN_BIT
    }

    pub fn descending_key(self) -> (key: i64)
        ensures
            key == self.descending(),
    {
        if self.bits < SIGN_BIT {
            -(self.bits as i64) - 1
        } else {
            (self.bits - SIGN_BIT) as i64
        }
    }
}

/// A score as it is handed in: the number, and the JSON text that it is written as. Whoever hands
/// it in sees to it that the text is that of the number.
#[derive(Clone, Debug, PartialEq, Eq)]
pub struct Score {
    pub number: Real,
    pub json: String,
}

/// The mathematical content of a `Score`.
#[verifier::ext_equal]
pub struct ScoreModel {
    pub number: Real,
    pub json: Text,
}

impl View for Score {
    type V = ScoreModel;

    open spec fn view(&self) -> ScoreModel {
        ScoreModel { number: self.number, json: self.json@ }
    }
}

impl DeepView for Score {
    type V = ScoreModel;

    open spec fn deep_view(&self) -> ScoreModel {
        self@
    }
}

impl Duplicate for Score {
    fn duplicate(&self) -> (copy: Self) {
        Score { number: self.number, json: self.json.clone() }
    }
}

} // verus!
