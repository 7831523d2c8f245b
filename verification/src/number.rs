//! Numbers the daemon carries but does not compute with: IEEE 754 doubles by
//! their bit pattern, and time spans in nanoseconds.

use vstd::prelude::*;

verus! {

/// An IEEE 754 double, by its bit pattern.
#[derive(Debug, Clone, Copy, PartialEq, Eq, Structural)]
pub struct Num {
    /// Sign bit, eleven exponent bits, fifty-two fraction bits.
    pub bits: u64,
}

impl Num {
    /// The biased exponent.
    pub open spec fn exponent(self) -> int {
        (self.bits as int / 0x10_0000_0000_0000) % 0x800
    }

    /// The fraction field.
    pub open spec fn fraction(self) -> int {
        self.bits as int % 0x10_0000_0000_0000
    }

    /// Neither an infinity nor a NaN.
    pub open spec fn finite(self) -> bool {
        self.exponent() != 0x7ff
    }

    /// Not a number.
    pub open spec fn nan(self) -> bool {
        self.exponent() == 0x7ff && self.fraction() != 0
    }

    /// Where the number stands among the doubles: zero for both zeros, and
    /// growing with the value for every number that is not a NaN.
    pub open spec fn rank(self) -> int {
        if self.bits < 0x8000_0000_0000_0000 {
            self.bits as int
        } else {
            0x8000_0000_0000_0000 - self.bits as int
        }
    }

    /// `self <= other` as doubles compare: never with a NaN.
    pub open spec fn at_most(self, other: Num) -> bool {
        !self.nan() && !other.nan() && self.rank() <= other.rank()
    }

    /// `self > 0` as doubles compare.
    pub open spec fn positive(self) -> bool {
        !self.nan() && self.rank() > 0
    }

    /// Neither an infinity nor a NaN.
    pub fn is_finite(&self) -> (r: bool)
        ensures
            r == self.finite(),
    {
        (self.bits / 0x10_0000_0000_0000) % 0x800 != 0x7ff
    }

    /// Not a number.
    pub fn is_nan(&self) -> (r: bool)
        ensures
            r == self.nan(),
    {
        !self.is_finite() && self.bits % 0x10_0000_0000_0000 != 0
    }

    /// The position among the doubles.
    fn ordinal(&self) -> (r: i128)
        ensures
            r == self.rank(),
    {
        if self.bits < 0x8000_0000_0000_0000 {
            self.bits as i128
        } else {
            0x8000_0000_0000_0000 - (self.bits as i128)
        }
    }

    /// `self <= other` as doubles compare: never with a NaN.
    pub fn le(&self, other: Num) -> (r: bool)
        ensures
            r == self.at_most(other),
    {
        !self.is_nan() && !other.is_nan() && self.ordinal() <= other.ordinal()
    }

    /// `self > 0` as doubles compare.
    pub fn is_positive(&self) -> (r: bool)
        ensures
            r == self.positive(),
    {
        !self.is_nan() && self.ordinal() > 0
    }
}

/// The bit pattern of the quiet NaN.
pub const NAN_BITS: u64 = 0x7ff8_0000_0000_0000;

/// The comparison of doubles is reflexive on everything but NaNs, transitive,
/// and total on numbers.
pub proof fn comparison_is_a_total_preorder_on_numbers(a: Num, b: Num, c: Num)
    ensures
        a.at_most(a) <==> !a.nan(),
        a.at_most(b) && b.at_most(c) ==> a.at_most(c),
        !a.nan() && !b.nan() ==> a.at_most(b) || b.at_most(a),
{
}

/// A number together with its spelling in G-code.
#[derive(Debug, PartialEq, Eq)]
pub struct Reading {
    /// The value.
    pub num: Num,
    /// How the value is written into a command.
    pub spelling: String,
}

impl Clone for Reading {
    fn clone(&self) -> (r: Reading)
        ensures
            r == *self,
    {
        Reading { num: self.num, spelling: self.spelling.clone() }
    }
}

/// A span of time.
#[derive(Debug, Clone, Copy, PartialEq, Eq, Structural)]
pub struct Span {
    /// Length in nanoseconds.
    pub nanos: u128,
}

impl Span {
    /// No time at all.
    pub fn zero() -> (r: Span)
        ensures
            r.nanos == 0,
    {
        Span { nanos: 0 }
    }

    /// `secs` seconds.
    pub fn from_secs(secs: u64) -> (r: Span)
        ensures
            r.nanos == secs * 1_000_000_000,
    {
        Span { nanos: (secs as u128) * 1_000_000_000 }
    }

    /// `millis` milliseconds.
    pub fn from_millis(millis: u64) -> (r: Span)
        ensures
            r.nanos == millis * 1_000_000,
    {
        Span { nanos: (millis as u128) * 1_000_000 }
    }

    /// The whole seconds of the span.
    pub fn as_secs(&self) -> (r: u128)
        ensures
            r == self.nanos / 1_000_000_000,
    {
        self.nanos / 1_000_000_000
    }
}

/// A number of seconds as the operator wrote it, with the span it denotes when
/// it is a usable one.
#[derive(Debug, Clone, Copy, PartialEq, Eq, Structural)]
pub struct Seconds {
    /// The written number.
    pub value: Num,
    /// The span of that many seconds; read only where the number is finite and
    /// positive.
    pub span: Span,
}

} // verus!
