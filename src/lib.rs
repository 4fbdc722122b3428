//! Docking control for spatial panels: each panel's capture state machine,
//! the reduction of proximity replies to the nearest acceptor, the edge
//! feedback chosen from it, and the registries of panels and acceptors.

use vstd::prelude::*;

pub mod distance;
pub mod feedback;
pub mod handler;
pub mod panel;
pub mod registry;
pub mod sampler;

verus! {

} // verus!
