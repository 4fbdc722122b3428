use vstd::prelude::*;

verus! {

/// Largest distance, in length units, at which a released panel is docked,
/// written as the bit pattern of the single-precision value `0.05`.
///
/// Distances in this library are non-negative IEEE-754 single-precision
/// values held as their bit patterns: for such values the unsigned order of
/// the bit patterns is the order of the values, so comparisons stay exact.
pub const MAX_ACCEPT_DISTANCE: u32 = 0x3D4C_CCCD;

/// Whether a distance lies strictly inside the docking threshold.
pub open spec fn within_threshold(d: u32) -> bool {
    d < MAX_ACCEPT_DISTANCE
}

/// Decides whether a distance lies strictly inside the docking threshold.
pub fn is_within_threshold(d: u32) -> (r: bool)
    ensures
        r == within_threshold(d),
{
    d < MAX_ACCEPT_DISTANCE
}

} // verus!
