use ars_dom::portal::{
    background_inert_strategy, body_sibling_indices, portal_focus_trap_action, portal_mount_id,
    portal_root_action, restore_action, supports_inert, tab_wrap_target, InertStrategy,
    PortalRootAction, RestoreAction, WrapTarget,
    PORTAL_ROOT_ID,
};

#[test]
fn portal_mount_id_uses_owner_id() {
    assert_eq!(portal_mount_id("dialog-1"), "ars-portal-dialog-1");
}

#[test]
fn restore_action_uses_set_when_previous_value_exists() {
    assert_eq!(restore_action(Some("true")), RestoreAction::SetTo(String::from("true")));
}

#[test]
fn restore_action_uses_remove_when_previous_value_is_missing() {
    assert_eq!(restore_action(None), RestoreAction::Remove);
}

#[test]
fn inert_support_is_absent_without_a_browser() {
    assert!(!supports_inert());
}

// Own tests.

#[test]
fn portal_root_id_is_stable() {
    assert_eq!(PORTAL_ROOT_ID, "ars-portal-root");
    assert_eq!(portal_mount_id(""), "ars-portal-");
}

#[test]
fn inert_strategy_depends_on_siblings_and_support() {
    assert_eq!(background_inert_strategy(true, 0), InertStrategy::Nothing);
    assert_eq!(background_inert_strategy(false, 0), InertStrategy::Nothing);
    assert_eq!(background_inert_strategy(true, 3), InertStrategy::Native);
    assert_eq!(background_inert_strategy(false, 3), InertStrategy::Polyfill);
}

#[test]
fn body_siblings_skip_the_portal_root() {
    assert_eq!(body_sibling_indices(&[false, true, false, false]), vec![0, 2, 3]);
    assert_eq!(body_sibling_indices(&[true]), Vec::<usize>::new());
    assert_eq!(body_sibling_indices(&[]), Vec::<usize>::new());
}

#[test]
fn trap_wraps_only_at_the_edges() {
    assert_eq!(tab_wrap_target(false, true, false, true), Some(WrapTarget::First));
    assert_eq!(tab_wrap_target(true, true, true, false), Some(WrapTarget::Last));
    assert_eq!(tab_wrap_target(false, false, false, false), Some(WrapTarget::First));
    assert_eq!(tab_wrap_target(true, false, false, false), Some(WrapTarget::Last));
    assert_eq!(tab_wrap_target(false, true, true, false), None);
    assert_eq!(tab_wrap_target(true, true, false, true), None);
}

#[test]
fn portal_trap_acts_on_tab_only_when_connected_with_tabbables() {
    assert_eq!(
        portal_focus_trap_action("Tab", true, 2, false, true, false, true),
        Some(WrapTarget::First)
    );
    assert_eq!(portal_focus_trap_action("Enter", true, 2, false, true, false, true), None);
    assert_eq!(portal_focus_trap_action("Tab", false, 2, false, true, false, true), None);
    assert_eq!(portal_focus_trap_action("Tab", true, 0, false, false, false, false), None);
}

#[test]
fn portal_root_is_reused_only_when_managed() {
    assert_eq!(portal_root_action(None), PortalRootAction::Create);
    assert_eq!(portal_root_action(Some(true)), PortalRootAction::Reuse);
    assert_eq!(portal_root_action(Some(false)), PortalRootAction::CreateAlternate);
}
