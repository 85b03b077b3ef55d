use ars_dom::overlay_stack::{
    is_above, is_topmost, overlay_count, overlays_above, push_overlay, remove_overlay,
    reset_overlay_stack, topmost_overlay, OverlayEntry, OverlayKind, OverlayStack,
};

fn entry(id: &str, z: u32) -> OverlayEntry {
    OverlayEntry {
        id: id.to_owned(),
        z_index: Some(z),
        kind: OverlayKind::NonModal,
    }
}

fn modal_entry(id: &str, z: u32) -> OverlayEntry {
    OverlayEntry {
        id: id.to_owned(),
        z_index: Some(z),
        kind: OverlayKind::Modal,
    }
}

#[test]
fn push_increases_count() {
    let mut s = OverlayStack::new();
    assert_eq!(overlay_count(&s), 0);
    push_overlay(&mut s, entry("dialog-1", 1000));
    assert_eq!(overlay_count(&s), 1);
}

#[test]
fn push_idempotent_same_id() {
    let mut s = OverlayStack::new();
    push_overlay(&mut s, entry("dialog-1", 1000));
    push_overlay(&mut s, entry("dialog-1", 1001));
    assert_eq!(overlay_count(&s), 1, "duplicate ID should not add second entry");
}

#[test]
fn remove_decreases_count() {
    let mut s = OverlayStack::new();
    push_overlay(&mut s, entry("dialog-1", 1000));
    assert_eq!(overlay_count(&s), 1);
    remove_overlay(&mut s, "dialog-1");
    assert_eq!(overlay_count(&s), 0);
}

#[test]
fn remove_returns_entry() {
    let mut s = OverlayStack::new();
    push_overlay(&mut s, entry("dialog-1", 1000));
    let removed = remove_overlay(&mut s, "dialog-1");
    assert_eq!(removed, Some(entry("dialog-1", 1000)));
}

#[test]
fn remove_unknown_returns_none() {
    let mut s = OverlayStack::new();
    assert_eq!(remove_overlay(&mut s, "nonexistent"), None);
}

#[test]
fn modal_and_non_modal_coexist() {
    let mut s = OverlayStack::new();
    push_overlay(&mut s, modal_entry("dialog-1", 1000));
    push_overlay(&mut s, entry("menu-1", 1001));
    assert_eq!(overlay_count(&s), 2);
}

#[test]
fn kind_is_preserved() {
    let mut s = OverlayStack::new();
    push_overlay(&mut s, modal_entry("dialog-1", 1000));
    let top = topmost_overlay(&s).expect("stack should not be empty");
    assert_eq!(top.kind, OverlayKind::Modal);
}

#[test]
fn topmost_returns_last_pushed() {
    let mut s = OverlayStack::new();
    push_overlay(&mut s, entry("dialog-1", 1000));
    push_overlay(&mut s, entry("menu-1", 1001));
    let top = topmost_overlay(&s).expect("stack should not be empty");
    assert_eq!(top.id, "menu-1");
}

#[test]
fn topmost_none_when_empty() {
    let s = OverlayStack::new();
    assert_eq!(topmost_overlay(&s), None);
}

#[test]
fn is_topmost_true_for_last() {
    let mut s = OverlayStack::new();
    push_overlay(&mut s, entry("dialog-1", 1000));
    push_overlay(&mut s, entry("menu-1", 1001));
    assert!(is_topmost(&s, "menu-1"));
}

#[test]
fn is_topmost_false_for_non_topmost() {
    let mut s = OverlayStack::new();
    push_overlay(&mut s, entry("dialog-1", 1000));
    push_overlay(&mut s, entry("menu-1", 1001));
    assert!(!is_topmost(&s, "dialog-1"));
}

#[test]
fn is_topmost_false_for_unknown() {
    let mut s = OverlayStack::new();
    push_overlay(&mut s, entry("dialog-1", 1000));
    assert!(!is_topmost(&s, "nonexistent"));
}

#[test]
fn lifo_close_reveals_previous() {
    let mut s = OverlayStack::new();
    push_overlay(&mut s, entry("dialog-1", 1000));
    push_overlay(&mut s, entry("menu-1", 1001));
    push_overlay(&mut s, entry("tooltip-1", 1002));
    remove_overlay(&mut s, "tooltip-1");
    let top = topmost_overlay(&s).expect("stack should not be empty");
    assert_eq!(top.id, "menu-1");
}

#[test]
fn lifo_close_full_sequence() {
    let mut s = OverlayStack::new();
    push_overlay(&mut s, entry("a", 1000));
    push_overlay(&mut s, entry("b", 1001));
    push_overlay(&mut s, entry("c", 1002));
    remove_overlay(&mut s, "c");
    remove_overlay(&mut s, "b");
    remove_overlay(&mut s, "a");
    assert_eq!(overlay_count(&s), 0);
    assert_eq!(topmost_overlay(&s), None);
}

#[test]
fn is_above_child_above_parent() {
    let mut s = OverlayStack::new();
    push_overlay(&mut s, entry("parent", 1000));
    push_overlay(&mut s, entry("child", 1001));
    assert!(is_above(&s, "child", "parent"));
}

#[test]
fn is_above_parent_not_above_child() {
    let mut s = OverlayStack::new();
    push_overlay(&mut s, entry("parent", 1000));
    push_overlay(&mut s, entry("child", 1001));
    assert!(!is_above(&s, "parent", "child"));
}

#[test]
fn is_above_same_id_false() {
    let mut s = OverlayStack::new();
    push_overlay(&mut s, entry("dialog-1", 1000));
    assert!(!is_above(&s, "dialog-1", "dialog-1"));
}

#[test]
fn is_above_unknown_false() {
    let mut s = OverlayStack::new();
    push_overlay(&mut s, entry("dialog-1", 1000));
    assert!(!is_above(&s, "nonexistent", "dialog-1"));
    assert!(!is_above(&s, "dialog-1", "nonexistent"));
    assert!(!is_above(&s, "foo", "bar"));
}

#[test]
fn overlays_above_returns_children() {
    let mut s = OverlayStack::new();
    push_overlay(&mut s, entry("a", 1000));
    push_overlay(&mut s, entry("b", 1001));
    push_overlay(&mut s, entry("c", 1002));
    let above = overlays_above(&s, "a");
    assert_eq!(above, vec!["b", "c"]);
}

#[test]
fn overlays_above_topmost_empty() {
    let mut s = OverlayStack::new();
    push_overlay(&mut s, entry("a", 1000));
    push_overlay(&mut s, entry("b", 1001));
    let above = overlays_above(&s, "b");
    assert!(above.is_empty());
}

#[test]
fn overlays_above_unknown_empty() {
    let mut s = OverlayStack::new();
    push_overlay(&mut s, entry("a", 1000));
    let above = overlays_above(&s, "nonexistent");
    assert!(above.is_empty());
}

#[test]
fn out_of_order_preserves_remaining() {
    let mut s = OverlayStack::new();
    push_overlay(&mut s, entry("a", 1000));
    push_overlay(&mut s, entry("b", 1001));
    push_overlay(&mut s, entry("c", 1002));
    remove_overlay(&mut s, "b");
    assert_eq!(overlay_count(&s), 2);
    let top = topmost_overlay(&s).expect("stack should not be empty");
    assert_eq!(top.id, "c");
    remove_overlay(&mut s, "c");
    let top = topmost_overlay(&s).expect("stack should not be empty");
    assert_eq!(top.id, "a");
}

#[test]
fn out_of_order_is_above_still_works() {
    let mut s = OverlayStack::new();
    push_overlay(&mut s, entry("a", 1000));
    push_overlay(&mut s, entry("b", 1001));
    push_overlay(&mut s, entry("c", 1002));
    remove_overlay(&mut s, "b");
    assert!(is_above(&s, "c", "a"));
}

#[test]
fn reset_clears_entire_stack() {
    let mut s = OverlayStack::new();
    push_overlay(&mut s, entry("a", 1000));
    push_overlay(&mut s, entry("b", 1001));
    push_overlay(&mut s, entry("c", 1002));
    reset_overlay_stack(&mut s);
    assert_eq!(overlay_count(&s), 0);
    assert_eq!(topmost_overlay(&s), None);
}

#[test]
fn z_index_preserved() {
    let mut s = OverlayStack::new();
    push_overlay(&mut s, entry("dialog-1", 1042));
    let top = topmost_overlay(&s).expect("stack should not be empty");
    assert_eq!(top.z_index, Some(1042));
}

#[test]
fn z_index_none_for_top_layer() {
    let mut s = OverlayStack::new();
    push_overlay(
        &mut s,
        OverlayEntry {
            id: "dialog-1".to_owned(),
            z_index: None,
            kind: OverlayKind::Modal,
        },
    );
    let top = topmost_overlay(&s).expect("stack should not be empty");
    assert_eq!(top.z_index, None);
}

#[test]
fn overlay_kind_debug() {
    assert_eq!(format!("{:?}", OverlayKind::Modal), "Modal");
    assert_eq!(format!("{:?}", OverlayKind::NonModal), "NonModal");
}

#[test]
fn overlay_entry_debug() {
    let e = entry("dialog-1", 1000);
    let debug = format!("{e:?}");
    assert!(debug.contains("OverlayEntry"), "Debug output should contain the type name");
    assert!(debug.contains("dialog-1"));
}

#[test]
fn overlay_kind_clone_copy() {
    let kind = OverlayKind::Modal;
    #[allow(clippy::clone_on_copy)]
    let cloned = kind.clone();
    let copied = kind;
    assert_eq!(kind, cloned);
    assert_eq!(kind, copied);
}

#[test]
fn overlay_entry_clone() {
    let e = entry("dialog-1", 1000);
    let cloned = e.clone();
    assert_eq!(e, cloned);
}

// Laws on concrete values.

#[test]
fn push_then_remove_restores_the_stack() {
    let mut s = OverlayStack::new();
    push_overlay(&mut s, entry("a", 1));
    push_overlay(&mut s, entry("b", 2));
    let removed = remove_overlay(&mut s, "b");
    assert_eq!(removed, Some(entry("b", 2)));
    assert_eq!(overlay_count(&s), 1);
    assert_eq!(topmost_overlay(&s), Some(entry("a", 1)));
}

#[test]
fn duplicate_push_keeps_the_first_entry() {
    let mut s = OverlayStack::new();
    push_overlay(&mut s, entry("a", 1));
    push_overlay(&mut s, entry("b", 2));
    push_overlay(&mut s, modal_entry("a", 9));
    assert_eq!(overlays_above(&s, "a"), vec!["b"]);
    assert_eq!(remove_overlay(&mut s, "a"), Some(entry("a", 1)));
}

#[test]
fn is_above_matches_overlays_above() {
    let mut s = OverlayStack::new();
    for (i, id) in ["a", "b", "c", "d"].iter().enumerate() {
        push_overlay(&mut s, entry(id, i as u32));
    }
    remove_overlay(&mut s, "c");
    let above = overlays_above(&s, "b");
    assert_eq!(above, vec!["d"]);
    assert!(is_above(&s, "d", "b"));
    assert!(!is_above(&s, "a", "b"));
    assert!(!is_above(&s, "c", "b"));
}
