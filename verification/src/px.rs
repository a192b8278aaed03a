//! Fixed-point lengths.
//!
//! Every length handled by the layout engine is a `Px`: a signed count of
//! 1/65536 subunits of a logical pixel. Fractional values arise when leftover
//! space is divided among columns or among row fill factors, and sixteen
//! fractional bits keep those divisions exact for all realistic inputs.
//!
//! All arithmetic saturates at `LIM` and `-LIM` instead of overflowing, so every
//! operation is total; `LIM` is far beyond any realistic layout size.

use vstd::prelude::*;

verus! {

/// Number of subunits in one logical pixel (sixteen fractional bits).
pub const SCALE: i128 = 65536;

/// Saturation bound of all `Px` arithmetic: 2^100 subunits.
pub const LIM: i128 = 0x10_0000_0000_0000_0000_0000_0000;

/// A length in logical pixels, stored as a count of `1/SCALE` subunits.
#[derive(Clone, Copy, PartialEq, Eq, Structural, Debug)]
pub struct Px {
    pub v: i128,
}

/// Clamps a mathematical integer into the saturation range.
pub open spec fn clamp_lim(x: int) -> int {
    if x > LIM as int {
        LIM as int
    } else if x < -(LIM as int) {
        -(LIM as int)
    } else {
        x
    }
}

impl Px {
    /// A value is well formed when it lies inside the saturation range.
    pub open spec fn wf(self) -> bool {
        -(LIM as int) <= self.v as int <= LIM as int
    }

    pub open spec fn spec_zero() -> Px {
        Px { v: 0 }
    }

    pub open spec fn spec_clamped(x: int) -> Px {
        Px { v: clamp_lim(x) as i128 }
    }

    pub open spec fn spec_of(units: i64) -> Px {
        Px::spec_clamped(units as int * SCALE as int)
    }

    pub open spec fn spec_add(a: Px, b: Px) -> Px {
        Px::spec_clamped(a.v + b.v)
    }

    pub open spec fn spec_sub(a: Px, b: Px) -> Px {
        Px::spec_clamped(a.v - b.v)
    }

    pub open spec fn spec_min(a: Px, b: Px) -> Px {
        if a.v <= b.v {
            a
        } else {
            b
        }
    }

    pub open spec fn spec_max(a: Px, b: Px) -> Px {
        if a.v >= b.v {
            a
        } else {
            b
        }
    }

    /// The non-negative part of a value; the clamped-at-zero subtraction
    /// used throughout the engine is `spec_max0(spec_sub(a, b))`.
    pub open spec fn spec_max0(a: Px) -> Px {
        if a.v >= 0 {
            a
        } else {
            Px { v: 0 }
        }
    }

    pub open spec fn spec_mul_count(a: Px, n: u64) -> Px {
        Px::spec_clamped(a.v * n)
    }

    /// Truncating division of a mathematical integer by a positive one.
    pub open spec fn spec_div_trunc(x: int, d: int) -> int {
        if x >= 0 {
            x / d
        } else {
            -((-x) / d)
        }
    }

    pub open spec fn spec_div_count(a: Px, n: u64) -> Px {
        Px { v: Px::spec_div_trunc(a.v as int, n as int) as i128 }
    }

    pub fn zero() -> (r: Px)
        ensures
            r == Px::spec_zero(),
            r.wf(),
    {
        Px { v: 0 }
    }

    /// A whole number of logical pixels.
    pub fn of(units: i64) -> (r: Px)
        ensures
            r == Px::spec_of(units),
            r.wf(),
    {
        Px { v: (units as i128) * SCALE }
    }

    /// A raw count of `1/SCALE` subunits, clamped into the saturation range.
    pub fn of_scaled(v: i128) -> (r: Px)
        ensures
            r == Px::spec_clamped(v as int),
            r.wf(),
    {
        Px::clamped(v)
    }

    fn clamped(x: i128) -> (r: Px)
        ensures
            r == Px::spec_clamped(x as int),
            r.wf(),
    {
        if x > LIM {
            Px { v: LIM }
        } else if x < -LIM {
            Px { v: -LIM }
        } else {
            Px { v: x }
        }
    }

    pub fn add(self, o: Px) -> (r: Px)
        requires
            self.wf(),
            o.wf(),
        ensures
            r == Px::spec_add(self, o),
            r.wf(),
    {
        Px::clamped(self.v + o.v)
    }

    pub fn sub(self, o: Px) -> (r: Px)
        requires
            self.wf(),
            o.wf(),
        ensures
            r == Px::spec_sub(self, o),
            r.wf(),
    {
        Px::clamped(self.v - o.v)
    }

    pub fn min(self, o: Px) -> (r: Px)
        ensures
            r == Px::spec_min(self, o),
    {
        if self.v <= o.v {
            self
        } else {
            o
        }
    }

    pub fn max(self, o: Px) -> (r: Px)
        ensures
            r == Px::spec_max(self, o),
    {
        if self.v >= o.v {
            self
        } else {
            o
        }
    }

    pub fn max0(self) -> (r: Px)
        ensures
            r == Px::spec_max0(self),
    {
        if self.v >= 0 {
            self
        } else {
            Px { v: 0 }
        }
    }

    /// Saturating multiplication by a count (of columns, rows or fill units).
    pub fn mul_count(self, n: u64) -> (r: Px)
        requires
            self.wf(),
        ensures
            r == Px::spec_mul_count(self, n),
            r.wf(),
    {
        match self.v.checked_mul(n as i128) {
            Some(p) => Px::clamped(p),
            None => {
                if self.v >= 0 {
                    proof {
                        assert(self.v as int * n as int >= 0) by (nonlinear_arith)
                            requires
                                self.v as int >= 0,
                                n as int >= 0,
                        ;
                    }
                    Px { v: LIM }
                } else {
                    proof {
                        assert(self.v as int * n as int <= 0) by (nonlinear_arith)
                            requires
                                self.v as int <= 0,
                                n as int >= 0,
                        ;
                    }
                    Px { v: -LIM }
                }
            },
        }
    }

    /// Truncating division by a positive count.
    pub fn div_count(self, n: u64) -> (r: Px)
        requires
            self.wf(),
            n >= 1,
        ensures
            r == Px::spec_div_count(self, n),
            r.wf(),
    {
        proof {
            Px::lemma_div_trunc_bounds(self.v as int, n as int);
        }
        match self.v.checked_div(n as i128) {
            Some(q) => Px { v: q },
            None => Px { v: 0 },
        }
    }

    /// Truncating division shrinks the magnitude of its dividend.
    pub proof fn lemma_div_trunc_bounds(x: int, d: int)
        requires
            d >= 1,
        ensures
            x >= 0 ==> 0 <= Px::spec_div_trunc(x, d) <= x,
            x < 0 ==> x <= Px::spec_div_trunc(x, d) <= 0,
    {
        if x >= 0 {
            vstd::arithmetic::div_mod::lemma_div_pos_is_pos(x, d);
            vstd::arithmetic::div_mod::lemma_div_is_ordered_by_denominator(x, 1, d);
        } else {
            vstd::arithmetic::div_mod::lemma_div_pos_is_pos(-x, d);
            vstd::arithmetic::div_mod::lemma_div_is_ordered_by_denominator(-x, 1, d);
        }
    }
}

} // verus!
