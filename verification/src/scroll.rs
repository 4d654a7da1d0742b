//! Scroll positions of the reel and the animation between them.
//!
//! A position is a 64-bit floating-point number of slots. Its arithmetic
//! belongs to the embedding program; here a position is carried as its bit
//! pattern, and every value that arithmetic yields is handed in.

use vstd::prelude::*;

verus! {

/// Duration of a scroll animation unless configured otherwise.
pub const DEFAULT_ANIMATION_DURATION_MS: u64 = 200;

/// Bit patterns below this one, the sign aside, are finite numbers.
pub const INFINITY_BITS: u64 = 0x7FF0_0000_0000_0000;

/// The sign bit.
pub const SIGN_BIT: u64 = 0x8000_0000_0000_0000;

/// A scroll position or distance in slots: the bits of a 64-bit float.
#[derive(Debug, Clone, Copy, PartialEq, Eq, Structural)]
pub struct Offset {
    pub bits: u64,
}

/// The position zero.
pub open spec fn zero_offset() -> Offset {
    Offset { bits: 0 }
}

impl Offset {
    /// Neither infinite nor not-a-number.
    pub open spec fn finite(self) -> bool {
        self.bits % SIGN_BIT < INFINITY_BITS
    }

    /// Positive or negative zero.
    pub open spec fn is_nought(self) -> bool {
        self.bits % SIGN_BIT == 0
    }

    /// The position zero.
    pub fn zero() -> (r: Offset)
        ensures
            r == zero_offset(),
            r.finite(),
            r.is_nought(),
    {
        Offset { bits: 0 }
    }

    /// Whether the number is neither infinite nor not-a-number.
    pub fn is_finite(self) -> (r: bool)
        ensures
            r == self.finite(),
    {
        self.bits % SIGN_BIT < INFINITY_BITS
    }

    /// Whether the number is positive or negative zero.
    pub fn is_zero(self) -> (r: bool)
        ensures
            r == self.is_nought(),
    {
        self.bits % SIGN_BIT == 0
    }
}

/// An easing curve, by its number. The embedding program applies it.
#[derive(Debug, Clone, Copy, PartialEq, Eq, Structural)]
pub struct Easing {
    pub curve: u32,
}

/// The default easing curve.
pub open spec fn default_easing() -> Easing {
    Easing { curve: 0 }
}

impl Default for Easing {
    fn default() -> (r: Self)
        ensures
            r == default_easing(),
    {
        Easing { curve: 0 }
    }
}

/// An animation from one scroll position to another.
#[derive(Debug, Clone, Copy, PartialEq, Eq, Structural)]
pub struct ScrollAnimation {
    pub start: Offset,
    pub target: Offset,
    pub duration_ms: u64,
    pub elapsed_ms: u64,
    pub easing: Easing,
}

impl ScrollAnimation {
    /// The animation after another `delta_ms`.
    pub open spec fn after(self, delta_ms: u64) -> ScrollAnimation {
        ScrollAnimation {
            elapsed_ms: if self.elapsed_ms + delta_ms <= u64::MAX {
                (self.elapsed_ms + delta_ms) as u64
            } else {
                u64::MAX
            },
            ..self
        }
    }

    /// Whether the animation still runs.
    pub open spec fn running(self) -> bool {
        self.elapsed_ms < self.duration_ms
    }

    /// A new animation.
    pub fn new(start: Offset, target: Offset, duration_ms: u64, easing: Easing) -> (r: Self)
        ensures
            r == (ScrollAnimation { start, target, duration_ms, elapsed_ms: 0, easing }),
    {
        ScrollAnimation { start, target, duration_ms, elapsed_ms: 0, easing }
    }

    /// Advance by `delta_ms`; returns true while still running.
    pub fn tick(&mut self, delta_ms: u64) -> (r: bool)
        ensures
            *final(self) == old(self).after(delta_ms),
            r == final(self).running(),
    {
        self.elapsed_ms = self.elapsed_ms.saturating_add(delta_ms);
        self.elapsed_ms < self.duration_ms
    }
}

/// The arithmetic of one change of scroll target, worked out by the embedding
/// program.
#[derive(Debug, Clone, Copy, PartialEq, Eq, Structural)]
pub struct Retarget {
    /// Where the running animation currently is. Not used when none runs.
    pub eased: Offset,
    /// The new target.
    pub target: Offset,
    /// Whether the target is within a thousandth of a slot of the rendered
    /// position.
    pub close: bool,
}

} // verus!
