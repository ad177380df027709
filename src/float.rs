//! IEEE-754 binary64 values carried as their bit patterns.
//!
//! The kernel only compares, negates, takes magnitudes of and clamps such
//! values. All of that is decided by the bit pattern alone: for values that are
//! not NaN, the numeric order is the order of the sign-magnitude reading of
//! the bits, and both zeros sit at the same place.
use vstd::prelude::*;

verus! {

/// The sign bit of a binary64 pattern.
pub const SIGN_BIT: u64 = 0x8000_0000_0000_0000;

/// The pattern of positive infinity; larger magnitudes are NaNs.
pub const INFINITY_BITS: u64 = 0x7ff0_0000_0000_0000;

/// A binary64 number held as its bit pattern.
#[derive(Clone, Copy, Debug)]
pub struct Float64 {
    pub bits: u64,
}

impl Float64 {
    pub open spec fn sign(self) -> bool {
        self.bits >= SIGN_BIT
    }

    /// The pattern with the sign bit cleared.
    pub open spec fn magnitude(self) -> u64 {
        if self.sign() {
            (self.bits - SIGN_BIT) as u64
        } else {
            self.bits
        }
    }

    pub open spec fn is_nan(self) -> bool {
        self.magnitude() > INFINITY_BITS
    }

    /// Place on the number line: the sign-magnitude reading of the pattern.
    pub open spec fn rank(self) -> int {
        if self.sign() {
            -(self.magnitude() as int)
        } else {
            self.magnitude() as int
        }
    }

    /// `self < o` as binary64 arithmetic decides it: false when either is NaN.
    pub open spec fn spec_lt(self, o: Float64) -> bool {
        !self.is_nan() && !o.is_nan() && self.rank() < o.rank()
    }

    /// `self <= o`: false when either is NaN.
    pub open spec fn spec_le(self, o: Float64) -> bool {
        !self.is_nan() && !o.is_nan() && self.rank() <= o.rank()
    }

    /// `self.abs()`: the sign bit cleared, NaNs included.
    pub open spec fn spec_abs(self) -> Float64 {
        Float64 { bits: self.magnitude() }
    }

    /// `-self`: the sign bit flipped, NaNs included.
    pub open spec fn spec_neg(self) -> Float64 {
        if self.sign() {
            Float64 { bits: (self.bits - SIGN_BIT) as u64 }
        } else {
            Float64 { bits: (self.bits + SIGN_BIT) as u64 }
        }
    }

    /// Strictly above zero (so neither NaN nor a zero).
    pub open spec fn is_positive(self) -> bool {
        positive_zero().spec_lt(self)
    }

    /// `self.clamp(-m, m)`: below `-m` gives `-m`, above `m` gives `m`,
    /// anything else (NaN too) is kept as it is.
    pub open spec fn spec_clamp_sym(self, m: Float64) -> Float64 {
        if self.spec_lt(m.spec_neg()) {
            m.spec_neg()
        } else if m.spec_lt(self) {
            m
        } else {
            self
        }
    }

    pub fn from_bits(bits: u64) -> (r: Float64)
        ensures
            r.bits == bits,
    {
        Float64 { bits }
    }

    pub fn to_bits(self) -> (r: u64)
        ensures
            r == self.bits,
    {
        self.bits
    }

    pub fn is_nan_exec(self) -> (r: bool)
        ensures
            r == self.is_nan(),
    {
        self.magnitude_exec() > INFINITY_BITS
    }

    pub fn magnitude_exec(self) -> (r: u64)
        ensures
            r == self.magnitude(),
    {
        if self.bits >= SIGN_BIT {
            self.bits - SIGN_BIT
        } else {
            self.bits
        }
    }

    /// `self < o`.
    pub fn lt(self, o: Float64) -> (r: bool)
        ensures
            r == self.spec_lt(o),
    {
        let ma = self.magnitude_exec();
        let mb = o.magnitude_exec();
        if ma > INFINITY_BITS || mb > INFINITY_BITS {
            return false;
        }
        let sa = self.bits >= SIGN_BIT;
        let sb = o.bits >= SIGN_BIT;
        if !sa && !sb {
            ma < mb
        } else if sa && sb {
            mb < ma
        } else if sa {
            !(ma == 0 && mb == 0)
        } else {
            false
        }
    }

    /// `self <= o`.
    pub fn le(self, o: Float64) -> (r: bool)
        ensures
            r == self.spec_le(o),
    {
        let ma = self.magnitude_exec();
        let mb = o.magnitude_exec();
        if ma > INFINITY_BITS || mb > INFINITY_BITS {
            return false;
        }
        let sa = self.bits >= SIGN_BIT;
        let sb = o.bits >= SIGN_BIT;
        if !sa && !sb {
            ma <= mb
        } else if sa && sb {
            mb <= ma
        } else if sa {
            true
        } else {
            ma == 0 && mb == 0
        }
    }

    /// `self.abs()`.
    pub fn abs(self) -> (r: Float64)
        ensures
            r == self.spec_abs(),
    {
        Float64 { bits: self.magnitude_exec() }
    }

    /// `-self`.
    pub fn neg(self) -> (r: Float64)
        ensures
            r == self.spec_neg(),
    {
        if self.bits >= SIGN_BIT {
            Float64 { bits: self.bits - SIGN_BIT }
        } else {
            Float64 { bits: self.bits + SIGN_BIT }
        }
    }

    /// `self.clamp(-m, m)` for a strictly positive bound `m`.
    pub fn clamp_sym(self, m: Float64) -> (r: Float64)
        requires
            m.is_positive(),
        ensures
            r == self.spec_clamp_sym(m),
    {
        let low = m.neg();
        if self.lt(low) {
            low
        } else if m.lt(self) {
            m
        } else {
            self
        }
    }
}

/// `+0.0`.
pub open spec fn positive_zero() -> Float64 {
    Float64 { bits: 0 }
}

/// `-1.0`.
pub open spec fn negative_one() -> Float64 {
    Float64 { bits: 0xbff0_0000_0000_0000 }
}

pub fn zero() -> (r: Float64)
    ensures
        r == positive_zero(),
{
    Float64 { bits: 0 }
}

pub fn minus_one() -> (r: Float64)
    ensures
        r == negative_one(),
{
    Float64 { bits: 0xbff0_0000_0000_0000 }
}

/// Clamping to `[-m, m]` a second time changes nothing.
pub proof fn lemma_clamp_sym_idempotent(x: Float64, m: Float64)
    requires
        m.is_positive(),
    ensures
        x.spec_clamp_sym(m).spec_clamp_sym(m) == x.spec_clamp_sym(m),
{
}

} // verus!
