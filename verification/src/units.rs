//! Length units and their exact conversion to nanometres.
//!
//! Every layout entity carries a unit tag; the checker converts all values to
//! nanometres before comparing them against rule thresholds, so entities in
//! different units are checked consistently.

use vstd::prelude::*;
use crate::geom::nm_in_range;

verus! {

/// A unit of length as declared by a layout entity.
#[derive(Debug, Clone, Copy, PartialEq, Eq, Structural)]
pub enum LengthUnit {
    Nm,
    Um,
    Mm,
    Mil,
    Inch,
}

/// Nanometres per one of the given unit.
pub open spec fn spec_nm_factor(u: LengthUnit) -> int {
    match u {
        LengthUnit::Nm => 1,
        LengthUnit::Um => 1_000,
        LengthUnit::Mm => 1_000_000,
        LengthUnit::Mil => 25_400,
        LengthUnit::Inch => 25_400_000,
    }
}

/// A value of the given unit, expressed in nanometres.
pub open spec fn nm_of(v: int, u: LengthUnit) -> int {
    v * spec_nm_factor(u)
}

/// Largest magnitude accepted for a coordinate or size in its native unit.
pub const COORD_LIMIT: i64 = 1_000_000_000;

/// A native-unit value the checker accepts.
pub open spec fn coord_in_range(v: int) -> bool {
    -(COORD_LIMIT as int) <= v <= COORD_LIMIT as int
}

/// Bound on a product from bounds on its factors.
pub proof fn lemma_mul_range(a: int, b: int, la: int, lb: int)
    by (nonlinear_arith)
    requires
        -la <= a <= la,
        0 <= b <= lb,
        0 <= la,
    ensures
        -(la * lb) <= a * b <= la * lb,
{
}

pub fn nm_factor(u: LengthUnit) -> (f: i64)
    ensures
        f as int == spec_nm_factor(u),
{
    match u {
        LengthUnit::Nm => 1,
        LengthUnit::Um => 1_000,
        LengthUnit::Mm => 1_000_000,
        LengthUnit::Mil => 25_400,
        LengthUnit::Inch => 25_400_000,
    }
}

/// Convert a native-unit value to nanometres, exactly.
pub fn to_nm(v: i64, u: LengthUnit) -> (r: i64)
    requires
        coord_in_range(v as int),
    ensures
        r as int == nm_of(v as int, u),
        nm_in_range(r as int),
        -25_400_000_000_000_000 <= r <= 25_400_000_000_000_000,
{
    let f = nm_factor(u);
    proof {
        lemma_mul_range(v as int, f as int, COORD_LIMIT as int, 25_400_000);
    }
    v * f
}

} // verus!
