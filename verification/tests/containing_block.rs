use ars_dom::positioning::dom::{
    containing_block_reason, contains_comma_separated_token, contains_whitespace_token,
    is_active_css_value, normalized_css_value, overlay_containment_warning,
    ContainingBlockReason, StyleSnapshot,
};

fn style_with(configure: impl FnOnce(&mut StyleSnapshot)) -> StyleSnapshot {
    let mut style = StyleSnapshot::default();
    configure(&mut style);
    style
}

#[test]
fn transform_creates_containing_block() {
    let style = style_with(|style| style.transform = "translateX(12px)".into());
    assert_eq!(containing_block_reason(&style), Some(ContainingBlockReason::Transform));
}

#[test]
fn perspective_creates_containing_block() {
    let style = style_with(|style| style.perspective = "500px".into());
    assert_eq!(containing_block_reason(&style), Some(ContainingBlockReason::Perspective));
}

#[test]
fn filter_creates_containing_block() {
    let style = style_with(|style| style.filter = "blur(2px)".into());
    assert_eq!(containing_block_reason(&style), Some(ContainingBlockReason::Filter));
}

#[test]
fn backdrop_filter_creates_containing_block() {
    let style = style_with(|style| style.backdrop_filter = "blur(4px)".into());
    assert_eq!(containing_block_reason(&style), Some(ContainingBlockReason::BackdropFilter));
}

#[test]
fn contain_layout_creates_containing_block() {
    let style = style_with(|style| style.contain = "layout".into());
    assert_eq!(containing_block_reason(&style), Some(ContainingBlockReason::Contain));
}

#[test]
fn contain_paint_creates_containing_block() {
    let style = style_with(|style| style.contain = "paint".into());
    assert_eq!(containing_block_reason(&style), Some(ContainingBlockReason::Contain));
}

#[test]
fn contain_strict_creates_containing_block() {
    let style = style_with(|style| style.contain = "strict".into());
    assert_eq!(containing_block_reason(&style), Some(ContainingBlockReason::Contain));
}

#[test]
fn contain_content_creates_containing_block() {
    let style = style_with(|style| style.contain = "content".into());
    assert_eq!(containing_block_reason(&style), Some(ContainingBlockReason::Contain));
}

#[test]
fn content_visibility_auto_creates_containing_block() {
    let style = style_with(|style| style.content_visibility = "auto".into());
    assert_eq!(
        containing_block_reason(&style),
        Some(ContainingBlockReason::ContentVisibility)
    );
}

#[test]
fn non_default_container_type_creates_containing_block() {
    let style = style_with(|style| style.container_type = "inline-size".into());
    assert_eq!(containing_block_reason(&style), Some(ContainingBlockReason::ContainerType));
}

#[test]
fn will_change_transform_creates_containing_block() {
    let style = style_with(|style| style.will_change = "transform".into());
    assert_eq!(
        containing_block_reason(&style),
        Some(ContainingBlockReason::WillChangeTransform)
    );
}

#[test]
fn will_change_perspective_creates_containing_block() {
    let style = style_with(|style| style.will_change = "perspective".into());
    assert_eq!(
        containing_block_reason(&style),
        Some(ContainingBlockReason::WillChangePerspective)
    );
}

#[test]
fn will_change_filter_creates_containing_block() {
    let style = style_with(|style| style.will_change = "filter".into());
    assert_eq!(containing_block_reason(&style), Some(ContainingBlockReason::WillChangeFilter));
}

#[test]
fn will_change_backdrop_filter_creates_containing_block() {
    let style = style_with(|style| style.will_change = "backdrop-filter".into());
    assert_eq!(
        containing_block_reason(&style),
        Some(ContainingBlockReason::WillChangeBackdropFilter)
    );
}

#[test]
fn contain_style_is_ignored() {
    let style = style_with(|style| style.contain = "style".into());
    assert_eq!(containing_block_reason(&style), None);
}

#[test]
fn contain_layout_warns_about_overlay_containment() {
    let style = style_with(|style| style.contain = "layout".into());
    assert_eq!(overlay_containment_warning(&style), Some("contain: layout"));
}

#[test]
fn contain_paint_warns_about_overlay_containment() {
    let style = style_with(|style| style.contain = "paint".into());
    assert_eq!(overlay_containment_warning(&style), Some("contain: paint"));
}

#[test]
fn contain_content_warns_about_overlay_containment() {
    let style = style_with(|style| style.contain = "content".into());
    assert_eq!(overlay_containment_warning(&style), Some("contain: content"));
}

#[test]
fn contain_strict_warns_about_overlay_containment() {
    let style = style_with(|style| style.contain = "strict".into());
    assert_eq!(overlay_containment_warning(&style), Some("contain: strict"));
}

#[test]
fn contain_style_does_not_warn_about_overlay_containment() {
    let style = style_with(|style| style.contain = "style".into());
    assert_eq!(overlay_containment_warning(&style), None);
}

#[test]
fn unrelated_will_change_is_ignored() {
    let style = style_with(|style| style.will_change = "opacity, left".into());
    assert_eq!(containing_block_reason(&style), None);
}

#[test]
fn comma_separated_will_change_detects_relevant_value() {
    let style = style_with(|style| style.will_change = "opacity, filter".into());
    assert_eq!(containing_block_reason(&style), Some(ContainingBlockReason::WillChangeFilter));
}

#[test]
fn default_values_do_not_create_containing_block() {
    let style = style_with(|style| {
        style.transform = "none".into();
        style.perspective = "none".into();
        style.filter = "none".into();
        style.backdrop_filter = "none".into();
        style.contain = "none".into();
        style.container_type = "normal".into();
        style.will_change = "auto".into();
        style.content_visibility = "visible".into();
    });
    assert_eq!(containing_block_reason(&style), None);
}

#[test]
fn containing_block_reason_property_names_match_expected_css_properties() {
    assert_eq!(ContainingBlockReason::Transform.property_name(), "transform");
    assert_eq!(ContainingBlockReason::Perspective.property_name(), "perspective");
    assert_eq!(ContainingBlockReason::Filter.property_name(), "filter");
    assert_eq!(ContainingBlockReason::BackdropFilter.property_name(), "backdrop-filter");
    assert_eq!(ContainingBlockReason::Contain.property_name(), "contain");
    assert_eq!(ContainingBlockReason::ContentVisibility.property_name(), "content-visibility");
    assert_eq!(ContainingBlockReason::ContainerType.property_name(), "container-type");
    assert_eq!(
        ContainingBlockReason::WillChangeTransform.property_name(),
        "will-change: transform"
    );
    assert_eq!(
        ContainingBlockReason::WillChangePerspective.property_name(),
        "will-change: perspective"
    );
    assert_eq!(ContainingBlockReason::WillChangeFilter.property_name(), "will-change: filter");
    assert_eq!(
        ContainingBlockReason::WillChangeBackdropFilter.property_name(),
        "will-change: backdrop-filter"
    );
}

// Own tests.

#[test]
fn values_are_trimmed_and_lower_cased() {
    let n: String = normalized_css_value("  NoNe \t").into_iter().collect();
    assert_eq!(n, "none");
    assert!(!is_active_css_value(" NONE ", "none"));
    assert!(!is_active_css_value("   ", "none"));
    assert!(is_active_css_value("Scale(2)", "none"));
}

#[test]
fn token_helpers_match_whole_tokens_only() {
    assert!(contains_comma_separated_token("opacity , Transform", "transform"));
    assert!(!contains_comma_separated_token("transforms", "transform"));
    assert!(contains_whitespace_token("style  PAINT", "paint"));
    assert!(!contains_whitespace_token("painting", "paint"));
}

#[test]
fn earlier_properties_take_precedence() {
    let style = style_with(|style| {
        style.filter = "blur(1px)".into();
        style.will_change = "transform".into();
        style.contain = "paint".into();
    });
    assert_eq!(containing_block_reason(&style), Some(ContainingBlockReason::Filter));
}

#[test]
fn overlay_containment_implies_a_containing_block() {
    for contain in ["layout", "paint", "strict", "content", "size layout"] {
        let style = style_with(|style| style.contain = contain.into());
        assert!(overlay_containment_warning(&style).is_some());
        assert_eq!(containing_block_reason(&style), Some(ContainingBlockReason::Contain));
    }
    let style = style_with(|style| style.contain = "size style".into());
    assert_eq!(overlay_containment_warning(&style), None);
}
