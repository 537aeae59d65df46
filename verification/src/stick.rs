//! A distance constraint between two points of the cloth: a positional
//! (non-force-based) spring with a rest length and a stretch tolerance.

use vstd::prelude::*;
use crate::math::MAX_COORD;

verus! {

/// Bound on a stick's stretch tolerance, in ticks of the rest-length
/// fraction (1000 ticks is a tolerance of one full rest length).
pub const ELASTICITY_MAX: i64 = 1_000_000;

/// A distance constraint between the points at indices `p1` and `p2`.
#[derive(Clone, Copy, PartialEq, Eq, Debug)]
pub struct Stick {
    /// Index of the first endpoint in the cloth's point list.
    pub p1: usize,
    /// Index of the second endpoint in the cloth's point list.
    pub p2: usize,
    /// Rest length, in ticks.
    pub length: i64,
    /// Fraction of `length` the stick may stretch before breaking,
    /// in ticks of `math::SCALE`.
    pub elasticity: i64,
    /// Set each frame when an endpoint lies under the pointer; a
    /// rendering highlight, not a physical state.
    pub selected: bool,
    /// Set when the stick tore or overstretched; the end-of-frame sweep
    /// removes such sticks from the cloth.
    pub broken: bool,
}

/// A stick is well formed for a cloth of `n_points` points sharing
/// stretch tolerance `elasticity`.
pub open spec fn wf_stick(s: Stick, n_points: int, elasticity: int) -> bool {
    &&& s.p1 < n_points
    &&& s.p2 < n_points
    &&& s.p1 != s.p2
    &&& 0 <= s.length <= MAX_COORD
    &&& s.elasticity == elasticity
}

impl Stick {
    /// A fresh unbroken, unhighlighted stick. The stretch tolerance must
    /// not be negative: it is the fraction of the rest length the stick
    /// may stretch before breaking.
    pub fn new(p1: usize, p2: usize, length: i64, elasticity: i64) -> (r: Self)
        requires
            elasticity >= 0,
        ensures
            r == (Stick { p1, p2, length, elasticity, selected: false, broken: false }),
    {
        Stick { p1, p2, length, elasticity, selected: false, broken: false }
    }
}

} // verus!
