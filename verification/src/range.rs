//! Holding a date-time between a lower and an upper bound.

use crate::calendar::CivilDateTime;
use vstd::prelude::*;

verus! {

/// The earlier of two values.
pub open spec fn earlier_of(a: CivilDateTime, b: CivilDateTime) -> CivilDateTime {
    if a.not_after(b) {
        a
    } else {
        b
    }
}

/// The later of two values.
pub open spec fn later_of(a: CivilDateTime, b: CivilDateTime) -> CivilDateTime {
    if a.not_after(b) {
        b
    } else {
        a
    }
}

/// `v` brought into the range from `lower` to `upper`: a value above
/// `upper` becomes `upper`, and a value below `lower` becomes `lower`.
pub open spec fn clamped(v: CivilDateTime, lower: CivilDateTime, upper: CivilDateTime)
    -> CivilDateTime {
    later_of(earlier_of(v, upper), lower)
}

/// Brings `v` into the range from `lower` to `upper`.
pub fn clamp(v: CivilDateTime, lower: CivilDateTime, upper: CivilDateTime) -> (r: CivilDateTime)
    ensures
        r == clamped(v, lower, upper),
{
    let capped = if v.not_after(upper) {
        v
    } else {
        upper
    };
    if capped.not_after(lower) {
        lower
    } else {
        capped
    }
}

/// A clamped value is one of the three values given, lies at or after the
/// lower bound and, where the bounds are in order, at or before the upper
/// bound; a value already in range is left as it is.
pub proof fn lemma_clamp_in_range(v: CivilDateTime, lower: CivilDateTime, upper: CivilDateTime)
    ensures
        clamped(v, lower, upper) == v || clamped(v, lower, upper) == lower || clamped(
            v,
            lower,
            upper,
        ) == upper,
        lower.not_after(clamped(v, lower, upper)),
        lower.not_after(upper) ==> clamped(v, lower, upper).not_after(upper),
        lower.not_after(v) && v.not_after(upper) ==> clamped(v, lower, upper) == v,
{
}

/// Clamping twice is clamping once.
pub proof fn lemma_clamp_idempotent(v: CivilDateTime, lower: CivilDateTime, upper: CivilDateTime)
    ensures
        clamped(clamped(v, lower, upper), lower, upper) == clamped(v, lower, upper),
{
}

/// Clamping keeps the order of two values.
pub proof fn lemma_clamp_monotonic(
    v1: CivilDateTime,
    v2: CivilDateTime,
    lower: CivilDateTime,
    upper: CivilDateTime,
)
    requires
        v1.not_after(v2),
    ensures
        clamped(v1, lower, upper).not_after(clamped(v2, lower, upper)),
{
}

} // verus!
