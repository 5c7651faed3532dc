//! Exact non-negative rational amounts. Every amount a grammar production
//! yields is a ratio of two machine integers; arithmetic is checked, and an
//! operation whose result does not fit reports failure instead of wrapping.

use vstd::prelude::*;

verus! {

/// A non-negative rational number `num / den`.
#[derive(Clone, Copy, Debug, PartialEq, Eq, Structural)]
pub struct Rat {
    pub num: u64,
    pub den: u64,
}

/// A well-formed rational has a non-zero denominator.
pub open spec fn rat_wf(r: Rat) -> bool {
    r.den >= 1
}

/// The product of two rationals, or `None` when a component does not fit.
pub open spec fn spec_rat_mul(a: Rat, b: Rat) -> Option<Rat> {
    if a.num * b.num > u64::MAX || a.den * b.den > u64::MAX {
        None
    } else {
        Some(Rat { num: (a.num * b.num) as u64, den: (a.den * b.den) as u64 })
    }
}

/// The sum of two rationals over the common denominator `a.den * b.den`, or
/// `None` when a component does not fit.
pub open spec fn spec_rat_add(a: Rat, b: Rat) -> Option<Rat> {
    if a.num * b.den > u64::MAX || b.num * a.den > u64::MAX || a.num * b.den + b.num * a.den
        > u64::MAX || a.den * b.den > u64::MAX {
        None
    } else {
        Some(
            Rat {
                num: (a.num * b.den + b.num * a.den) as u64,
                den: (a.den * b.den) as u64,
            },
        )
    }
}

pub proof fn lemma_rat_mul_wf(a: Rat, b: Rat)
    requires
        rat_wf(a),
        rat_wf(b),
    ensures
        spec_rat_mul(a, b) matches Some(r) ==> rat_wf(r),
{
    assert(a.den * b.den >= 1) by (nonlinear_arith)
        requires
            a.den >= 1,
            b.den >= 1,
    ;
}

pub proof fn lemma_rat_add_wf(a: Rat, b: Rat)
    requires
        rat_wf(a),
        rat_wf(b),
    ensures
        spec_rat_add(a, b) matches Some(r) ==> rat_wf(r),
{
    assert(a.den * b.den >= 1) by (nonlinear_arith)
        requires
            a.den >= 1,
            b.den >= 1,
    ;
}

impl Rat {
    /// The rational one.
    pub fn one() -> (r: Rat)
        ensures
            r == (Rat { num: 1u64, den: 1u64 }),
    {
        Rat { num: 1, den: 1 }
    }

    /// The rational zero.
    pub fn zero() -> (r: Rat)
        ensures
            r == (Rat { num: 0u64, den: 1u64 }),
    {
        Rat { num: 0, den: 1 }
    }

    /// A whole number.
    pub fn from_int(v: u64) -> (r: Rat)
        ensures
            r == (Rat { num: v, den: 1u64 }),
    {
        Rat { num: v, den: 1 }
    }

    /// Checked multiplication.
    pub fn mul(self, other: Rat) -> (r: Option<Rat>)
        ensures
            r == spec_rat_mul(self, other),
    {
        match (self.num.checked_mul(other.num), self.den.checked_mul(other.den)) {
            (Some(n), Some(d)) => Some(Rat { num: n, den: d }),
            _ => None,
        }
    }

    /// Checked addition.
    pub fn add(self, other: Rat) -> (r: Option<Rat>)
        ensures
            r == spec_rat_add(self, other),
    {
        match (self.num.checked_mul(other.den), other.num.checked_mul(self.den)) {
            (Some(x), Some(y)) => match (x.checked_add(y), self.den.checked_mul(other.den)) {
                (Some(n), Some(d)) => Some(Rat { num: n, den: d }),
                _ => None,
            },
            _ => None,
        }
    }
}

} // verus!
