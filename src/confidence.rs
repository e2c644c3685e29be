//! Detection confidence as persisted: a fixed-point decimal in [0, 1] with
//! four fractional digits.

use vstd::prelude::*;

verus! {

/// The largest count of ten-thousandths: a confidence of exactly 1.
pub const FULL_CONFIDENCE: u16 = 10000;

/// A confidence in ten-thousandths, so `9100` stands for `0.9100`.
#[derive(Clone, Copy, Debug, PartialEq, Eq, Structural)]
pub struct Confidence {
    pub ten_thousandths: u16,
}

impl Confidence {
    pub open spec fn wf(self) -> bool {
        self.ten_thousandths <= FULL_CONFIDENCE
    }

    /// The confidence kept for a detector score that was rounded to four
    /// fractional digits, given as a count of ten-thousandths; `None` stands
    /// for a score that has no decimal value (not a number, infinite).
    /// Whatever lies outside [0, 1] is kept as 0.
    pub open spec fn kept_units(rounded: Option<i64>) -> int {
        match rounded {
            Some(u) => if 0 <= u <= FULL_CONFIDENCE {
                u as int
            } else {
                0
            },
            None => 0,
        }
    }

    pub fn from_rounded(rounded: Option<i64>) -> (r: Confidence)
        ensures
            r.wf(),
            r.ten_thousandths == Self::kept_units(rounded),
    {
        match rounded {
            Some(u) => if 0 <= u && u <= FULL_CONFIDENCE as i64 {
                Confidence { ten_thousandths: u as u16 }
            } else {
                Confidence { ten_thousandths: 0 }
            },
            None => Confidence { ten_thousandths: 0 },
        }
    }

    /// Whether a single-precision score, given as its IEEE 754 bit pattern,
    /// lies in [0, 1]: the non-negative values up to 1.0 (`0x3F80_0000`)
    /// have the smallest patterns, and `0x8000_0000` is -0.0. Not-a-number
    /// and the infinities lie outside.
    pub open spec fn score_in_unit_range(bits: u32) -> bool {
        bits <= 0x3F80_0000 || bits == 0x8000_0000
    }

    /// The confidence kept for a detector score: its rounding to four
    /// fractional digits where the score lies in [0, 1], else 0.
    pub fn from_score(score_bits: u32, rounded: Option<i64>) -> (r: Confidence)
        ensures
            r.wf(),
            Self::score_in_unit_range(score_bits) ==> r.ten_thousandths == Self::kept_units(rounded),
            !Self::score_in_unit_range(score_bits) ==> r.ten_thousandths == 0,
    {
        if score_bits <= 0x3F80_0000 || score_bits == 0x8000_0000 {
            Self::from_rounded(rounded)
        } else {
            Self::zero()
        }
    }

    pub fn zero() -> (r: Confidence)
        ensures
            r.wf(),
            r.ten_thousandths == 0,
    {
        Confidence { ten_thousandths: 0 }
    }
}

} // verus!
