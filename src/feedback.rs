use vstd::prelude::*;

verus! {

/// The colour to show on a panel's edge after a sampling pass.
#[derive(Clone, Copy, Debug, PartialEq, Eq, Structural)]
pub enum Feedback {
    /// No acceptor answered: opaque white.
    Neutral,
    /// The gradient colour at the given winning distance.
    Gradient(u32),
}

/// The feedback for the winning distance of a pass, if there is one.
pub open spec fn feedback_of(winner: Option<u32>) -> Feedback {
    match winner {
        None => Feedback::Neutral,
        Some(d) => Feedback::Gradient(d),
    }
}

/// Chooses the edge feedback for the winning distance of a pass.
pub fn feedback_for(winner: Option<u32>) -> (r: Feedback)
    ensures
        r == feedback_of(winner),
{
    match winner {
        None => Feedback::Neutral,
        Some(d) => Feedback::Gradient(d),
    }
}

} // verus!
