use orbit::distance::{is_within_threshold, MAX_ACCEPT_DISTANCE};
use orbit::feedback::{feedback_for, Feedback};
use orbit::handler::{Notification, PanelItemUIHandler};
use orbit::panel::{Effect, GrabInput, PanelController, PanelState, PassTicket};
use orbit::registry::Registry;
use orbit::sampler::nearest;

fn d(x: f32) -> u32 {
    x.abs().to_bits()
}

fn released_grab() -> GrabInput {
    GrabInput { active: false, stopped: true, moving: false }
}

fn held_grab() -> GrabInput {
    GrabInput { active: true, stopped: false, moving: true }
}

fn ids(names: &[&str]) -> Vec<String> {
    names.iter().map(|s| s.to_string()).collect()
}

#[test]
fn threshold_is_five_hundredths() {
    assert_eq!(MAX_ACCEPT_DISTANCE, 0.05f32.to_bits());
    assert!(is_within_threshold(d(0.03)));
    assert!(is_within_threshold(0));
    assert!(!is_within_threshold(d(0.05)));
    assert!(!is_within_threshold(d(0.10)));
    assert!(!is_within_threshold(d(f32::INFINITY)));
}

#[test]
fn distance_bits_order_as_values() {
    let values = [0.0f32, 1e-30, 0.01, 0.03, 0.05, 0.1, 0.25, 1.0, 1e30];
    for w in values.windows(2) {
        assert!(d(w[0]) < d(w[1]));
    }
    assert_eq!(d(-0.03), d(0.03));
}

#[test]
fn nearest_picks_smallest_success() {
    let replies = vec![Some(d(0.4)), None, Some(d(0.02)), Some(d(0.3))];
    assert_eq!(nearest(&replies), Some((2, d(0.02))));
}

#[test]
fn nearest_keeps_first_of_equals() {
    let replies = vec![None, Some(d(0.1)), Some(d(0.1)), Some(d(0.2))];
    assert_eq!(nearest(&replies), Some((1, d(0.1))));
}

#[test]
fn nearest_without_success_is_none() {
    assert_eq!(nearest(&vec![]), None);
    assert_eq!(nearest(&vec![None, None, None]), None);
}

#[test]
fn nearest_single_failure_is_skipped_not_zero() {
    let replies = vec![None, Some(d(0.7))];
    assert_eq!(nearest(&replies), Some((1, d(0.7))));
}

#[test]
fn feedback_neutral_or_gradient() {
    assert_eq!(feedback_for(None), Feedback::Neutral);
    assert_eq!(feedback_for(Some(d(0.2))), Feedback::Gradient(d(0.2)));
    assert_eq!(feedback_for(Some(d(0.2))), feedback_for(Some(d(0.2))));
}

#[test]
fn accept_flag_follows_grab() {
    let mut p = PanelController::new(100, 100);
    let t = p.frame(held_grab()).unwrap();
    assert!(!t.accept);
    assert_eq!(*p.state(), PanelState::Grabbed);
    let t = p.frame(released_grab()).unwrap();
    assert!(t.accept);
    assert_eq!(*p.state(), PanelState::Free);
    let thrown = GrabInput { active: false, stopped: false, moving: true };
    assert!(p.frame(thrown).unwrap().accept);
    let resting = GrabInput { active: false, stopped: false, moving: false };
    assert!(!p.frame(resting).unwrap().accept);
}

#[test]
fn near_acceptor_is_asked_to_capture() {
    let mut p = PanelController::new(100, 100);
    let t = p.frame(released_grab()).unwrap();
    let fx = p.complete_pass(t, &ids(&["A", "B"]), &vec![Some(d(0.03)), Some(d(0.10))]);
    assert_eq!(
        fx,
        vec![
            Effect::SetFeedback(Feedback::Gradient(d(0.03))),
            Effect::RequestCapture("A".to_string()),
        ]
    );
    assert_eq!(*p.state(), PanelState::Free);
}

#[test]
fn far_acceptor_only_colours() {
    let mut p = PanelController::new(100, 100);
    let t = p.frame(released_grab()).unwrap();
    let fx = p.complete_pass(t, &ids(&["A"]), &vec![Some(d(0.20))]);
    assert_eq!(fx, vec![Effect::SetFeedback(Feedback::Gradient(d(0.20)))]);
}

#[test]
fn no_acceptors_gives_neutral_feedback() {
    for grab in [released_grab(), held_grab()] {
        let mut p = PanelController::new(100, 100);
        let t = p.frame(grab).unwrap();
        let fx = p.complete_pass(t, &vec![], &vec![]);
        assert_eq!(fx, vec![Effect::SetFeedback(Feedback::Neutral)]);
    }
}

#[test]
fn held_panel_near_acceptor_is_not_captured() {
    let mut p = PanelController::new(100, 100);
    let t = p.frame(held_grab()).unwrap();
    let fx = p.complete_pass(t, &ids(&["A"]), &vec![Some(d(0.01))]);
    assert_eq!(fx, vec![Effect::SetFeedback(Feedback::Gradient(d(0.01)))]);
}

#[test]
fn all_queries_failed_gives_neutral_feedback() {
    let mut p = PanelController::new(100, 100);
    let t = p.frame(released_grab()).unwrap();
    let fx = p.complete_pass(t, &ids(&["A", "B"]), &vec![None, None]);
    assert_eq!(fx, vec![Effect::SetFeedback(Feedback::Neutral)]);
}

#[test]
fn destroyed_panel_ignores_late_pass() {
    let mut h: PanelItemUIHandler<u32, u32> = PanelItemUIHandler::new();
    let p = "panel".to_string();
    assert_eq!(h.item_created(p.clone(), 200, 100, 7), None);
    let tickets = h.frame(&vec![released_grab()]);
    let t = tickets[0].unwrap();
    assert_eq!(h.item_destroyed(&p), Some(7));
    let fx = h.pass_completed(&p, t, &ids(&["A"]), &vec![Some(d(0.01))]);
    assert!(fx.is_empty());
    assert!(h.item_ids().is_empty());
    assert!(h.controller(&p).is_none());
    assert_eq!(h.item_destroyed(&p), None);
}

#[test]
fn captured_panel_is_inert() {
    let mut p = PanelController::new(100, 100);
    let t = p.frame(released_grab()).unwrap();
    let fx = p.captured("A".to_string());
    assert_eq!(fx, vec![Effect::SetEnabled(false), Effect::CancelVelocity]);
    assert!(p.is_captured());
    assert_eq!(*p.state(), PanelState::Captured("A".to_string()));
    assert_eq!(p.frame(released_grab()), None);
    assert_eq!(p.frame(held_grab()), None);
    let fx = p.complete_pass(t, &ids(&["A"]), &vec![Some(d(0.01))]);
    assert!(fx.is_empty());
    assert!(p.is_captured());
}

#[test]
fn release_resets_transform() {
    let mut p = PanelController::new(100, 100);
    p.captured("A".to_string());
    let fx = p.released();
    assert_eq!(fx, vec![Effect::SetEnabled(true), Effect::ResetTransform]);
    assert_eq!(*p.state(), PanelState::Free);
    assert!(p.frame(held_grab()).is_some());
}

#[test]
fn resize_twice_is_resize_once() {
    let mut once = PanelController::new(100, 100);
    once.on_resize(640, 480);
    let mut twice = PanelController::new(100, 100);
    twice.on_resize(640, 480);
    twice.on_resize(640, 480);
    assert_eq!(once.size(), (640, 480));
    assert_eq!(twice.size(), once.size());
}

#[test]
fn handler_resize_reaches_panel() {
    let mut h: PanelItemUIHandler<u32, u32> = PanelItemUIHandler::new();
    let p = "panel".to_string();
    h.item_created(p.clone(), 0, 0, 1);
    assert!(h.toplevel_size_changed(&p, 800, 600));
    assert!(h.toplevel_size_changed(&p, 800, 600));
    assert_eq!(h.controller(&p).unwrap().size(), (800, 600));
    assert!(!h.toplevel_size_changed(&"other".to_string(), 1, 1));
}

#[test]
fn older_pass_after_newer_is_stale() {
    let mut p = PanelController::new(100, 100);
    let first = p.frame(released_grab()).unwrap();
    let second = p.frame(released_grab()).unwrap();
    assert_eq!(second.seq, first.seq + 1);
    let fx = p.complete_pass(second, &ids(&["B"]), &vec![Some(d(0.2))]);
    assert_eq!(fx, vec![Effect::SetFeedback(Feedback::Gradient(d(0.2)))]);
    let fx = p.complete_pass(first, &ids(&["A"]), &vec![Some(d(0.01))]);
    assert!(fx.is_empty());
}

#[test]
fn pass_is_applied_once() {
    let mut p = PanelController::new(100, 100);
    let t = p.frame(released_grab()).unwrap();
    let replies = vec![Some(d(0.01))];
    assert_eq!(p.complete_pass(t, &ids(&["A"]), &replies).len(), 2);
    assert!(p.complete_pass(t, &ids(&["A"]), &replies).is_empty());
}

#[test]
fn pass_never_handed_out_is_ignored() {
    let mut p = PanelController::new(100, 100);
    let t = PassTicket { seq: 5, accept: true };
    assert!(p.complete_pass(t, &ids(&["A"]), &vec![Some(0)]).is_empty());
}

#[test]
fn handler_routes_capture_and_release() {
    let mut h: PanelItemUIHandler<u32, &str> = PanelItemUIHandler::new();
    let a = "a".to_string();
    let b = "b".to_string();
    h.item_created(a.clone(), 10, 10, "ra");
    h.item_created(b.clone(), 10, 10, "rb");
    let fx = h.item_captured(&a, "acc".to_string());
    assert_eq!(fx, vec![Effect::SetEnabled(false), Effect::CancelVelocity]);
    let tickets = h.frame(&vec![released_grab(), held_grab()]);
    assert_eq!(tickets[0], None);
    assert_eq!(tickets[1], Some(PassTicket { seq: 1, accept: false }));
    assert!(h.item_captured(&"none".to_string(), "acc".to_string()).is_empty());
    let fx = h.item_released(&a);
    assert_eq!(fx, vec![Effect::SetEnabled(true), Effect::ResetTransform]);
    assert!(!h.controller(&a).unwrap().is_captured());
    assert_eq!(h.resources(&b), Some(&"rb"));
}

#[test]
fn handler_recreated_item_replaces_old() {
    let mut h: PanelItemUIHandler<u32, u32> = PanelItemUIHandler::new();
    let a = "a".to_string();
    assert_eq!(h.item_created(a.clone(), 1, 1, 1), None);
    assert_eq!(h.item_created(a.clone(), 2, 2, 2), Some(1));
    assert_eq!(h.item_ids(), vec![a.clone()]);
    assert_eq!(h.controller(&a).unwrap().size(), (2, 2));
}

#[test]
fn acceptors_keep_arrival_order() {
    let mut h: PanelItemUIHandler<u32, u32> = PanelItemUIHandler::new();
    assert_eq!(h.acceptor_created("x".to_string(), 1), None);
    assert_eq!(h.acceptor_created("y".to_string(), 2), None);
    assert_eq!(h.acceptor_created("x".to_string(), 3), Some(1));
    assert_eq!(h.acceptors().ids(), ids(&["x", "y"]));
    assert_eq!(h.acceptors().get(&"x".to_string()), Some(&3));
    assert_eq!(h.acceptor_destroyed(&"x".to_string()), Some(3));
    assert_eq!(h.acceptor_destroyed(&"x".to_string()), None);
    assert_eq!(h.acceptors().ids(), ids(&["y"]));
}

#[test]
fn registry_find_and_remove() {
    let mut r: Registry<u8> = Registry::new();
    r.insert("a".to_string(), 1);
    r.insert("b".to_string(), 2);
    r.insert("c".to_string(), 3);
    assert_eq!(r.find(&"b".to_string()), Some(1));
    assert_eq!(r.remove(&"b".to_string()), Some(2));
    assert_eq!(r.find(&"c".to_string()), Some(1));
    assert_eq!(r.len(), 2);
    assert_eq!(r.entries()[0], ("a".to_string(), 1));
}

#[test]
fn notifications_dispatch_by_variant() {
    let mut h: PanelItemUIHandler<u32, u32> = PanelItemUIHandler::new();
    let p = "p".to_string();
    let fx = h.handle(Notification::ItemCreated { id: p.clone(), width: 4, height: 3, resources: 9 });
    assert!(fx.is_empty());
    h.handle(Notification::AcceptorCreated { id: "acc".to_string(), acceptor: 5 });
    assert_eq!(h.acceptors().ids(), ids(&["acc"]));
    let fx = h.handle(Notification::ItemCaptured { id: p.clone(), acceptor: "acc".to_string() });
    assert_eq!(fx, vec![Effect::SetEnabled(false), Effect::CancelVelocity]);
    assert_eq!(
        *h.controller(&p).unwrap().state(),
        PanelState::Captured("acc".to_string())
    );
    let fx = h.handle(Notification::ItemReleased { id: p.clone() });
    assert_eq!(fx, vec![Effect::SetEnabled(true), Effect::ResetTransform]);
    h.handle(Notification::ToplevelSizeChanged { id: p.clone(), width: 16, height: 9 });
    assert_eq!(h.controller(&p).unwrap().size(), (16, 9));
    h.handle(Notification::AcceptorDestroyed { id: "acc".to_string() });
    assert!(h.acceptors().ids().is_empty());
    h.handle(Notification::ItemDestroyed { id: p.clone() });
    assert!(h.item_ids().is_empty());
    assert!(h.handle(Notification::ItemReleased { id: p }).is_empty());
}
