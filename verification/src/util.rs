//! Small ordering helpers shared by the sweep's angle arithmetic.

use vstd::prelude::*;

verus! {

/// Whether `num` lies in the closed interval spanned by `a` and `b`,
/// whichever of the two is smaller.
pub fn between(num: i64, a: i64, b: i64) -> (r: bool)
    ensures
        r == (vstd::math::min(a as int, b as int) <= num <= vstd::math::max(a as int, b as int)),
{
    let (min, max): (i64, i64) = if a < b { (a, b) } else { (b, a) };
    num >= min && num <= max
}

/// Whether `num` lies strictly inside the interval spanned by `a` and `b`.
pub fn between_exclusive(num: i64, a: i64, b: i64) -> (r: bool)
    ensures
        r == (vstd::math::min(a as int, b as int) < num < vstd::math::max(a as int, b as int)),
{
    let (min, max): (i64, i64) = if a < b { (a, b) } else { (b, a) };
    num > min && num < max
}

} // verus!
