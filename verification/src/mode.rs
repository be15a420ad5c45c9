//! Drawing modes and the polarity each one allows.
//!
//! A mode is looked up once, in [`Mode::polarity`]. Both the wipe rule and
//! the plot's vertical range are read off that one answer, so the two cannot
//! drift apart.

use vstd::prelude::*;

verus! {

/// Top of the plotted range when positive amplitudes are allowed, and the
/// mirror image of the bottom when negative ones are: 1.2 in amplitude steps.
pub const HEADROOM: i64 = 1_200_000;

/// The polarity constraint applied to the whole waveform on every cycle.
#[derive(Clone, Copy, Debug, PartialEq, Eq, Structural)]
pub enum Mode {
    /// Both signs may be drawn.
    Biphasic,
    /// Only amplitudes at or below zero survive.
    Negative,
    /// Only amplitudes at or above zero survive.
    Positive,
}

/// Which signs of amplitude a mode lets through.
#[derive(Clone, Copy, Debug, PartialEq, Eq, Structural)]
pub struct Polarity {
    /// Amplitudes below zero are kept.
    pub negative: bool,
    /// Amplitudes above zero are kept.
    pub positive: bool,
}

impl Mode {
    /// The table from mode to permitted signs.
    pub open spec fn polarity_of(self) -> Polarity {
        match self {
            Mode::Biphasic => (Polarity { negative: true, positive: true }),
            Mode::Negative => (Polarity { negative: true, positive: false }),
            Mode::Positive => (Polarity { negative: false, positive: true }),
        }
    }

    /// Looks the mode up in the table.
    #[verifier::when_used_as_spec(polarity_of)]
    pub fn polarity(self) -> (p: Polarity)
        ensures
            p == self.polarity_of(),
    {
        match self {
            Mode::Biphasic => Polarity { negative: true, positive: true },
            Mode::Negative => Polarity { negative: true, positive: false },
            Mode::Positive => Polarity { negative: false, positive: true },
        }
    }
}

impl Polarity {
    /// Whether an amplitude has a permitted sign. Zero always has.
    pub open spec fn permits(self, v: int) -> bool {
        &&& v > 0 ==> self.positive
        &&& v < 0 ==> self.negative
    }

    /// An amplitude after the constraint: itself where permitted, else zero.
    pub open spec fn constrained(self, v: int) -> int {
        if self.permits(v) {
            v
        } else {
            0
        }
    }

    /// Lowest amplitude shown on the plot under this polarity.
    pub open spec fn y_min_of(self) -> int {
        if self.negative {
            -(HEADROOM as int)
        } else {
            0
        }
    }

    /// Highest amplitude shown on the plot under this polarity.
    pub open spec fn y_max_of(self) -> int {
        if self.positive {
            HEADROOM as int
        } else {
            0
        }
    }

    /// Applies the constraint to one amplitude.
    pub fn constrain(self, v: i64) -> (r: i64)
        ensures
            r as int == self.constrained(v as int),
    {
        if (v > 0 && !self.positive) || (v < 0 && !self.negative) {
            0
        } else {
            v
        }
    }

    /// Lowest amplitude shown on the plot.
    pub fn y_min(self) -> (r: i64)
        ensures
            r as int == self.y_min_of(),
    {
        if self.negative {
            -HEADROOM
        } else {
            0
        }
    }

    /// Highest amplitude shown on the plot.
    pub fn y_max(self) -> (r: i64)
        ensures
            r as int == self.y_max_of(),
    {
        if self.positive {
            HEADROOM
        } else {
            0
        }
    }
}

} // verus!
