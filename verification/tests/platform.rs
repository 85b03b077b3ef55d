use ars_dom::platform::{
    animation_name_is_active, focus_trap_key_action, is_mac_platform, motion_plan,
    parse_name_list, repeated_index, visibility_change_action, AnimationCompletion,
    FocusTrapKeyAction, MotionPlan, StyleDetectionBatch, VisibilityAction,
};
use ars_dom::portal::WrapTarget;

#[test]
fn name_lists_are_split_trimmed_and_filtered() {
    assert_eq!(parse_name_list("opacity, transform"), vec!["opacity", "transform"]);
    assert_eq!(parse_name_list(" a ,, b , "), vec!["a", "b"]);
    assert_eq!(parse_name_list(""), Vec::<String>::new());
    assert_eq!(parse_name_list("all"), vec!["all"]);
}

#[test]
fn css_lists_repeat_cyclically() {
    let durations = [100u32, 400];
    assert_eq!(repeated_index(&durations, 0), Some(0));
    assert_eq!(repeated_index(&durations, 3), Some(1));
    assert_eq!(repeated_index::<u32>(&[], 3), None);
}

#[test]
fn mac_platforms_are_detected() {
    assert!(is_mac_platform("MacIntel"));
    assert!(!is_mac_platform("Win32"));
    assert!(!is_mac_platform("mac"));
}

#[test]
fn focus_trap_keys() {
    assert_eq!(
        focus_trap_key_action(true, "Escape", 3, false, true, false, false),
        FocusTrapKeyAction::Ignore
    );
    assert_eq!(
        focus_trap_key_action(false, "Escape", 3, false, true, false, false),
        FocusTrapKeyAction::Escape
    );
    assert_eq!(
        focus_trap_key_action(false, "Tab", 0, false, true, false, false),
        FocusTrapKeyAction::FocusContainer
    );
    assert_eq!(
        focus_trap_key_action(false, "Tab", 3, false, true, false, true),
        FocusTrapKeyAction::Wrap(WrapTarget::First)
    );
    assert_eq!(
        focus_trap_key_action(false, "Tab", 3, true, true, true, false),
        FocusTrapKeyAction::Wrap(WrapTarget::Last)
    );
    assert_eq!(
        focus_trap_key_action(false, "Tab", 3, false, true, false, false),
        FocusTrapKeyAction::Ignore
    );
    assert_eq!(
        focus_trap_key_action(false, "a", 3, false, false, false, false),
        FocusTrapKeyAction::Ignore
    );
}

#[test]
fn animation_names() {
    assert!(animation_name_is_active("fade-out"));
    assert!(!animation_name_is_active("none"));
    assert!(!animation_name_is_active("   "));
    assert!(animation_name_is_active(" none "));
}

#[test]
fn motion_plans() {
    assert_eq!(
        motion_plan(true, true, false, false),
        MotionPlan {
            has_animation: false,
            has_transition: false,
            finish_now: true
        }
    );
    assert_eq!(
        motion_plan(false, true, false, true),
        MotionPlan {
            has_animation: true,
            has_transition: false,
            finish_now: false
        }
    );
    assert_eq!(
        motion_plan(false, false, false, true),
        MotionPlan {
            has_animation: false,
            has_transition: false,
            finish_now: true
        }
    );
    assert_eq!(
        motion_plan(false, true, true, false),
        MotionPlan {
            has_animation: false,
            has_transition: true,
            finish_now: false
        }
    );
}

#[test]
fn completion_runs_the_callback_once() {
    let mut c = AnimationCompletion::new();
    c.configure(true, true);
    assert!(!c.complete_if_ready());
    c.mark_animation_done();
    assert!(!c.complete_if_ready());
    c.mark_transition_done();
    assert!(c.complete_if_ready());
    assert!(c.is_completed());
    assert!(!c.complete_if_ready());
    assert!(!c.finalize(true));
}

#[test]
fn finalize_completes_unconditionally() {
    let mut c = AnimationCompletion::new();
    c.configure(true, false);
    assert!(c.finalize(true));
    assert!(c.is_completed());
    assert!(!c.finalize(true));
    let mut d = AnimationCompletion::new();
    assert!(!d.finalize(false));
    assert!(d.is_completed());
    assert!(!d.complete_if_ready());
}

#[test]
fn visibility_changes() {
    assert_eq!(visibility_change_action(true, Some("hidden")), VisibilityAction::Nothing);
    assert_eq!(visibility_change_action(false, Some("hidden")), VisibilityAction::PauseFallback);
    assert_eq!(visibility_change_action(false, Some("visible")), VisibilityAction::Resume);
    assert_eq!(visibility_change_action(false, Some("prerender")), VisibilityAction::Nothing);
    assert_eq!(visibility_change_action(false, None), VisibilityAction::Nothing);
}

#[test]
fn detection_batch_runs_requests_two_frames_later() {
    let mut b = StyleDetectionBatch::new();
    assert!(b.is_idle());
    assert!(b.enqueue(1));
    b.first_frame_scheduled();
    assert!(!b.enqueue(2));
    assert!(!b.enqueue(1));
    b.on_first_frame();
    b.second_frame_scheduled();
    assert!(!b.enqueue(3));
    assert!(b.is_queued(3));
    assert_eq!(b.on_second_frame(), vec![1, 2]);
    assert!(b.promote_deferred());
    assert!(!b.promote_deferred());
    assert_eq!(b.on_second_frame(), vec![3]);
    assert!(b.is_idle());
}

#[test]
fn withdrawing_the_last_request_idles_the_batch() {
    let mut b = StyleDetectionBatch::new();
    assert!(b.enqueue(7));
    b.first_frame_scheduled();
    assert!(!b.enqueue(8));
    assert!(!b.withdraw(7));
    assert!(!b.is_queued(7));
    assert!(b.withdraw(8));
    assert!(b.is_idle());
    // With no frame scheduled, the next request asks for one again.
    assert!(b.enqueue(9));
}

#[test]
fn abandoning_returns_every_request() {
    let mut b = StyleDetectionBatch::new();
    b.enqueue(1);
    b.first_frame_scheduled();
    b.on_first_frame();
    b.second_frame_scheduled();
    b.enqueue(2);
    assert_eq!(b.abandon(), vec![1, 2]);
    assert!(b.is_idle());
    assert!(b.enqueue(1));
}
