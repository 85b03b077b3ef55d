use ars_dom::outside_interaction::{
    classify_pointer_type, id_matches_inside_set, should_dismiss_on_outside_event,
    should_handle_escape, target_is_inside_boundary, BoundaryNode, PointerType,
};
use ars_dom::overlay_stack::{push_overlay, OverlayEntry, OverlayKind, OverlayStack};

#[test]
fn id_matches_inside_set_returns_false_for_empty_id() {
    let exclude: Vec<String> = vec!["trigger".into()];
    let inside: Vec<String> = vec!["panel".into()];
    assert!(!id_matches_inside_set("", &exclude, &inside));
}

#[test]
fn id_matches_inside_set_finds_excluded_id() {
    let exclude: Vec<String> = vec!["trigger".into()];
    assert!(id_matches_inside_set("trigger", &exclude, &[]));
}

#[test]
fn id_matches_inside_set_finds_inside_boundary_id() {
    let inside: Vec<String> = vec!["panel".into()];
    assert!(id_matches_inside_set("panel", &[], &inside));
}

#[test]
fn id_matches_inside_set_returns_false_for_unrelated_id() {
    let exclude: Vec<String> = vec!["trigger".into()];
    let inside: Vec<String> = vec!["panel".into()];
    assert!(!id_matches_inside_set("other", &exclude, &inside));
}

#[test]
fn id_matches_inside_set_returns_false_for_empty_lists() {
    assert!(!id_matches_inside_set("anything", &[], &[]));
}

// Own tests.

fn overlay(id: &str) -> OverlayEntry {
    OverlayEntry {
        id: id.into(),
        z_index: None,
        kind: OverlayKind::NonModal,
    }
}

fn node(id: &str, owner: Option<&str>) -> BoundaryNode {
    BoundaryNode {
        id: id.into(),
        portal_owner: owner.map(String::from),
    }
}

#[test]
fn pointer_types_are_classified() {
    assert_eq!(classify_pointer_type("mouse"), PointerType::Mouse);
    assert_eq!(classify_pointer_type("pen"), PointerType::Pen);
    assert_eq!(classify_pointer_type("touch"), PointerType::Touch);
    assert_eq!(classify_pointer_type(""), PointerType::Virtual);
    assert_eq!(classify_pointer_type("Mouse"), PointerType::Virtual);
}

#[test]
fn missing_target_is_outside() {
    let stack = OverlayStack::new();
    assert!(!target_is_inside_boundary(None, true, &stack, "menu", &[], &[]));
}

#[test]
fn root_containment_or_registered_ids_are_inside() {
    let stack = OverlayStack::new();
    let path = vec![node("", None), node("body", None)];
    assert!(target_is_inside_boundary(Some(&path), true, &stack, "menu", &[], &[]));
    assert!(!target_is_inside_boundary(Some(&path), false, &stack, "menu", &[], &[]));
    let inside: Vec<String> = vec!["body".into()];
    assert!(target_is_inside_boundary(Some(&path), false, &stack, "menu", &inside, &[]));
}

#[test]
fn portals_owned_by_the_overlay_or_a_child_are_inside() {
    let mut stack = OverlayStack::new();
    push_overlay(&mut stack, overlay("parent"));
    push_overlay(&mut stack, overlay("child"));
    let own = vec![node("x", None), node("mount", Some("parent"))];
    assert!(target_is_inside_boundary(Some(&own), false, &stack, "parent", &[], &[]));
    let childs = vec![node("mount", Some("child"))];
    assert!(target_is_inside_boundary(Some(&childs), false, &stack, "parent", &[], &[]));
    // The parent's portal is not inside the child.
    let parents = vec![node("mount", Some("parent"))];
    assert!(!target_is_inside_boundary(Some(&parents), false, &stack, "child", &[], &[]));
}

#[test]
fn only_the_topmost_overlay_dismisses() {
    let mut stack = OverlayStack::new();
    push_overlay(&mut stack, overlay("dialog"));
    push_overlay(&mut stack, overlay("menu"));
    let outside = vec![node("page", None)];
    assert!(should_dismiss_on_outside_event(&stack, "menu", Some(&outside), false, &[], &[]));
    assert!(!should_dismiss_on_outside_event(&stack, "dialog", Some(&outside), false, &[], &[]));
    let excluded: Vec<String> = vec!["page".into()];
    assert!(!should_dismiss_on_outside_event(
        &stack,
        "menu",
        Some(&outside),
        false,
        &[],
        &excluded
    ));
}

#[test]
fn escape_goes_to_the_topmost_overlay() {
    let mut stack = OverlayStack::new();
    push_overlay(&mut stack, overlay("dialog"));
    push_overlay(&mut stack, overlay("menu"));
    assert!(should_handle_escape(&stack, "menu", "Escape"));
    assert!(!should_handle_escape(&stack, "dialog", "Escape"));
    assert!(!should_handle_escape(&stack, "menu", "Enter"));
    assert!(!should_handle_escape(&OverlayStack::new(), "menu", "Escape"));
}
