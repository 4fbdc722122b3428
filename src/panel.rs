use vstd::prelude::*;

use crate::distance::{is_within_threshold, within_threshold};
use crate::feedback::{feedback_for, feedback_of, Feedback};
use crate::sampler::{
    has_reply, is_nearest, lemma_nearest_index, nearest, nearest_index, winning_distance,
};

verus! {

/// Where a panel stands in its docking life.
#[derive(Clone, Debug, PartialEq, Eq)]
pub enum PanelState {
    Free,
    Grabbed,
    /// Docked into the acceptor with this id.
    Captured(String),
}

/// What the grab gesture reported for one frame.
#[derive(Clone, Copy, Debug, PartialEq, Eq, Structural)]
pub struct GrabInput {
    /// The grab is being driven by an actor right now.
    pub active: bool,
    /// The grab stopped during this frame.
    pub stopped: bool,
    /// The panel has an instantaneous linear speed.
    pub moving: bool,
}

/// One sampling pass handed out by a frame: its sequence number, and whether
/// a winner under the threshold should be captured.
#[derive(Clone, Copy, Debug, PartialEq, Eq, Structural)]
pub struct PassTicket {
    pub seq: u64,
    pub accept: bool,
}

/// A command for the panel's visual and interactive representation, or for an
/// acceptor.
#[derive(Clone, Debug, PartialEq, Eq)]
pub enum Effect {
    /// Enable or disable the visual and interactive representation.
    SetEnabled(bool),
    /// Cancel residual linear and angular velocity.
    CancelVelocity,
    /// Reset the panel's transform relative to its interaction handle, and
    /// the handle's transform relative to the panel, to identity.
    ResetTransform,
    /// Apply a colour to the panel's edge.
    SetFeedback(Feedback),
    /// Ask the acceptor with this id to capture the panel.
    RequestCapture(String),
}

/// The abstract state of a panel controller.
pub ghost struct PanelModel {
    pub state: PanelState,
    /// Reported toplevel size, in pixels.
    pub width: u32,
    pub height: u32,
    /// Sequence number of the latest pass handed out.
    pub dispatched: u64,
    /// Sequence number of the latest pass whose results were applied.
    pub applied: u64,
}

impl PanelModel {
    pub open spec fn is_captured(self) -> bool {
        self.state is Captured
    }
}

/// A fresh panel: free, of the reported size, with no pass handed out.
pub open spec fn initial_model(width: u32, height: u32) -> PanelModel {
    PanelModel { state: PanelState::Free, width, height, dispatched: 0, applied: 0 }
}

/// Whether a pass may capture: the grab is not being driven and the panel
/// still moves (it was thrown), or the grab stopped this frame.
pub open spec fn accept_of(g: GrabInput) -> bool {
    (!g.active && g.moving) || g.stopped
}

/// The sequence number after `n`; it stays at the top once reached.
pub open spec fn next_seq(n: u64) -> u64 {
    if n < u64::MAX {
        (n + 1) as u64
    } else {
        n
    }
}

/// One frame: a captured panel does nothing; any other follows the grab and
/// hands out a new sampling pass.
pub open spec fn frame_spec(m: PanelModel, g: GrabInput) -> (PanelModel, Option<PassTicket>) {
    if m.is_captured() {
        (m, None)
    } else {
        let seq = next_seq(m.dispatched);
        (
            PanelModel {
                state: if g.active {
                    PanelState::Grabbed
                } else {
                    PanelState::Free
                },
                dispatched: seq,
                ..m
            },
            Some(PassTicket { seq, accept: accept_of(g) }),
        )
    }
}

/// Whether the results of a pass may still be applied: the panel is not
/// captured, and no later pass has been applied already.
pub open spec fn is_current(m: PanelModel, t: PassTicket) -> bool {
    !m.is_captured() && m.applied < t.seq && t.seq <= m.dispatched
}

/// What a pass does once its replies are in: the edge shows the winner's
/// feedback, and a winner under the threshold is asked to capture the panel
/// when the pass accepts.
pub open spec fn pass_effects(ids: Seq<String>, replies: Seq<Option<u32>>, accept: bool) -> Seq<
    Effect,
> {
    let shown = Effect::SetFeedback(feedback_of(winning_distance(replies)));
    match nearest_index(replies) {
        Some(i) => if accept && within_threshold(replies[i]->0) {
            seq![shown, Effect::RequestCapture(ids[i])]
        } else {
            seq![shown]
        },
        None => seq![shown],
    }
}

/// The completion of a pass: stale passes change nothing.
pub open spec fn pass_spec(
    m: PanelModel,
    t: PassTicket,
    ids: Seq<String>,
    replies: Seq<Option<u32>>,
) -> (PanelModel, Seq<Effect>) {
    if is_current(m, t) {
        (PanelModel { applied: t.seq, ..m }, pass_effects(ids, replies, t.accept))
    } else {
        (m, seq![])
    }
}

/// The capture acknowledgment: the panel docks and stops moving.
pub open spec fn captured_spec(m: PanelModel, acceptor: String) -> (PanelModel, Seq<Effect>) {
    (
        PanelModel { state: PanelState::Captured(acceptor), ..m },
        seq![Effect::SetEnabled(false), Effect::CancelVelocity],
    )
}

/// The release acknowledgment: the panel is free again, back at its handle.
pub open spec fn released_spec(m: PanelModel) -> (PanelModel, Seq<Effect>) {
    (
        PanelModel { state: PanelState::Free, ..m },
        seq![Effect::SetEnabled(true), Effect::ResetTransform],
    )
}

/// A new toplevel size.
pub open spec fn resize_spec(m: PanelModel, width: u32, height: u32) -> PanelModel {
    PanelModel { width, height, ..m }
}

/// A pass reduces to the nearest reply: without any reply the edge turns
/// neutral and nothing is captured; otherwise the edge shows the nearest
/// distance, and a capture, if any, goes to the nearest acceptor.
pub proof fn lemma_pass_picks_nearest(ids: Seq<String>, replies: Seq<Option<u32>>, accept: bool)
    requires
        ids.len() == replies.len(),
    ensures
        !has_reply(replies) ==> pass_effects(ids, replies, accept) == seq![
            Effect::SetFeedback(Feedback::Neutral),
        ],
        has_reply(replies) ==> exists|i: int|
            #![trigger is_nearest(replies, i)]
            {
                &&& is_nearest(replies, i)
                &&& pass_effects(ids, replies, accept)[0] == Effect::SetFeedback(
                    Feedback::Gradient(replies[i]->0),
                )
                &&& pass_effects(ids, replies, accept).len() == 2 ==> pass_effects(
                    ids,
                    replies,
                    accept,
                )[1] == Effect::RequestCapture(ids[i])
            },
{
    lemma_nearest_index(replies);
    if has_reply(replies) {
        let i = nearest_index(replies)->0;
        assert(is_nearest(replies, i));
    }
}

/// The feedback of a pass depends on its winning distance alone: passes whose
/// winners are equally far show the same feedback, whatever else differs.
pub proof fn lemma_feedback_by_distance(
    ids1: Seq<String>,
    replies1: Seq<Option<u32>>,
    accept1: bool,
    ids2: Seq<String>,
    replies2: Seq<Option<u32>>,
    accept2: bool,
)
    requires
        winning_distance(replies1) == winning_distance(replies2),
    ensures
        pass_effects(ids1, replies1, accept1)[0] == pass_effects(ids2, replies2, accept2)[0],
        pass_effects(ids1, replies1, accept1)[0] == Effect::SetFeedback(
            feedback_of(winning_distance(replies1)),
        ),
{
}

/// A captured panel is inert: a frame starts no sampling pass and changes
/// nothing, and a pass that finishes now applies nothing, until the release.
pub proof fn lemma_captured_is_inert(
    m: PanelModel,
    g: GrabInput,
    t: PassTicket,
    ids: Seq<String>,
    replies: Seq<Option<u32>>,
)
    requires
        m.is_captured(),
    ensures
        frame_spec(m, g) == (m, Option::<PassTicket>::None),
        pass_spec(m, t, ids, replies) == (m, Seq::<Effect>::empty()),
{
}

/// Capture then release leaves the panel free with everything else as it
/// was, re-enabled and reset to identity against its interaction handle.
pub proof fn lemma_capture_release(m: PanelModel, acceptor: String)
    ensures
        released_spec(captured_spec(m, acceptor).0).0 == (PanelModel { state: PanelState::Free, ..m }),
        released_spec(captured_spec(m, acceptor).0).1 == seq![
            Effect::SetEnabled(true),
            Effect::ResetTransform,
        ],
{
}

/// Resizing twice to the same size is resizing once.
pub proof fn lemma_resize_idempotent(m: PanelModel, width: u32, height: u32)
    ensures
        resize_spec(resize_spec(m, width, height), width, height) == resize_spec(m, width, height),
{
}

/// A pass is applied at most once: completing it again changes nothing.
pub proof fn lemma_pass_applied_once(
    m: PanelModel,
    t: PassTicket,
    ids: Seq<String>,
    replies: Seq<Option<u32>>,
)
    ensures
        pass_spec(pass_spec(m, t, ids, replies).0, t, ids, replies).1 == Seq::<Effect>::empty(),
{
}

/// The docking controller of one panel.
pub struct PanelController {
    state: PanelState,
    width: u32,
    height: u32,
    dispatched: u64,
    applied: u64,
}

impl View for PanelController {
    type V = PanelModel;

    closed spec fn view(&self) -> PanelModel {
        PanelModel {
            state: self.state,
            width: self.width,
            height: self.height,
            dispatched: self.dispatched,
            applied: self.applied,
        }
    }
}

impl PanelController {
    /// A free panel of the reported initial size.
    pub fn new(width: u32, height: u32) -> (r: Self)
        ensures
            r@ == initial_model(width, height),
    {
        PanelController { state: PanelState::Free, width, height, dispatched: 0, applied: 0 }
    }

    pub fn is_captured(&self) -> (r: bool)
        ensures
            r == self@.is_captured(),
    {
        match self.state {
            PanelState::Captured(_) => true,
            _ => false,
        }
    }

    pub fn state(&self) -> (r: &PanelState)
        ensures
            *r == self@.state,
    {
        &self.state
    }

    /// The reported toplevel size, width then height, in pixels.
    pub fn size(&self) -> (r: (u32, u32))
        ensures
            r == (self@.width, self@.height),
    {
        (self.width, self.height)
    }

    /// Runs one frame; returns the sampling pass to start, if any.
    pub fn frame(&mut self, g: GrabInput) -> (r: Option<PassTicket>)
        ensures
            (final(self)@, r) == frame_spec(old(self)@, g),
    {
        if self.is_captured() {
            return None;
        }
        self.state = if g.active {
            PanelState::Grabbed
        } else {
            PanelState::Free
        };
        if self.dispatched < u64::MAX {
            self.dispatched = self.dispatched + 1;
        }
        Some(PassTicket { seq: self.dispatched, accept: (!g.active && g.moving) || g.stopped })
    }

    /// Applies the replies of a pass, in the order of the acceptor ids it
    /// queried; returns what to do.
    pub fn complete_pass(
        &mut self,
        t: PassTicket,
        ids: &Vec<String>,
        replies: &Vec<Option<u32>>,
    ) -> (r: Vec<Effect>)
        requires
            ids.len() == replies.len(),
        ensures
            (final(self)@, r@) == pass_spec(old(self)@, t, ids@, replies@),
    {
        if self.is_captured() || t.seq <= self.applied || t.seq > self.dispatched {
            return Vec::new();
        }
        self.applied = t.seq;
        let mut effects: Vec<Effect> = Vec::new();
        match nearest(replies) {
            None => {
                effects.push(Effect::SetFeedback(feedback_for(None)));
            },
            Some((i, d)) => {
                effects.push(Effect::SetFeedback(feedback_for(Some(d))));
                if t.accept && is_within_threshold(d) {
                    effects.push(Effect::RequestCapture(ids[i].clone()));
                }
            },
        }
        assert(effects@ =~= pass_effects(ids@, replies@, t.accept));
        effects
    }

    /// The panel was captured by the acceptor with the given id.
    pub fn captured(&mut self, acceptor: String) -> (r: Vec<Effect>)
        ensures
            (final(self)@, r@) == captured_spec(old(self)@, acceptor),
    {
        self.state = PanelState::Captured(acceptor);
        let r = vec![Effect::SetEnabled(false), Effect::CancelVelocity];
        assert(r@ =~= seq![Effect::SetEnabled(false), Effect::CancelVelocity]);
        r
    }

    /// The panel was released by its acceptor.
    pub fn released(&mut self) -> (r: Vec<Effect>)
        ensures
            (final(self)@, r@) == released_spec(old(self)@),
    {
        self.state = PanelState::Free;
        let r = vec![Effect::SetEnabled(true), Effect::ResetTransform];
        assert(r@ =~= seq![Effect::SetEnabled(true), Effect::ResetTransform]);
        r
    }

    /// The toplevel reported a new size, in pixels.
    pub fn on_resize(&mut self, width: u32, height: u32)
        ensures
            final(self)@ == resize_spec(old(self)@, width, height),
    {
        self.width = width;
        self.height = height;
    }
}

} // verus!
