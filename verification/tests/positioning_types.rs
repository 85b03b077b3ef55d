use ars_dom::positioning::candidates::{
    all_physical_placements, auto_candidates, center_auto_placements, end_auto_placements,
    expanded_placements, extend_unique, flip_candidates, is_auto_placement_enabled,
    start_auto_placements,
};
use ars_dom::positioning::types::{
    direction_from_css, Alignment, Axis, Boundary, Placement, ResolvedDirection, Side, Strategy,
};

const ALL_PLACEMENTS: [Placement; 21] = [
    Placement::Bottom,
    Placement::BottomStart,
    Placement::BottomEnd,
    Placement::Top,
    Placement::TopStart,
    Placement::TopEnd,
    Placement::Left,
    Placement::LeftStart,
    Placement::LeftEnd,
    Placement::Right,
    Placement::RightStart,
    Placement::RightEnd,
    Placement::Auto,
    Placement::AutoStart,
    Placement::AutoEnd,
    Placement::Start,
    Placement::End,
    Placement::StartTop,
    Placement::StartBottom,
    Placement::EndTop,
    Placement::EndBottom,
];

#[test]
fn opposite_of_bottom_variants_returns_top_variants() {
    assert_eq!(Placement::Bottom.opposite(), Placement::Top);
    assert_eq!(Placement::BottomStart.opposite(), Placement::TopStart);
    assert_eq!(Placement::BottomEnd.opposite(), Placement::TopEnd);
}

#[test]
fn opposite_of_top_variants_returns_bottom_variants() {
    assert_eq!(Placement::Top.opposite(), Placement::Bottom);
    assert_eq!(Placement::TopStart.opposite(), Placement::BottomStart);
    assert_eq!(Placement::TopEnd.opposite(), Placement::BottomEnd);
}

#[test]
fn opposite_of_left_variants_returns_right_variants() {
    assert_eq!(Placement::Left.opposite(), Placement::Right);
    assert_eq!(Placement::LeftStart.opposite(), Placement::RightStart);
    assert_eq!(Placement::LeftEnd.opposite(), Placement::RightEnd);
}

#[test]
fn opposite_of_right_variants_returns_left_variants() {
    assert_eq!(Placement::Right.opposite(), Placement::Left);
    assert_eq!(Placement::RightStart.opposite(), Placement::LeftStart);
    assert_eq!(Placement::RightEnd.opposite(), Placement::LeftEnd);
}

#[test]
fn opposite_of_logical_start_returns_end() {
    assert_eq!(Placement::Start.opposite(), Placement::End);
    assert_eq!(Placement::StartTop.opposite(), Placement::EndTop);
    assert_eq!(Placement::StartBottom.opposite(), Placement::EndBottom);
}

#[test]
fn opposite_of_logical_end_returns_start() {
    assert_eq!(Placement::End.opposite(), Placement::Start);
    assert_eq!(Placement::EndTop.opposite(), Placement::StartTop);
    assert_eq!(Placement::EndBottom.opposite(), Placement::StartBottom);
}

#[test]
fn opposite_of_auto_variants_returns_identity() {
    assert_eq!(Placement::Auto.opposite(), Placement::Auto);
    assert_eq!(Placement::AutoStart.opposite(), Placement::AutoStart);
    assert_eq!(Placement::AutoEnd.opposite(), Placement::AutoEnd);
}

#[test]
fn opposite_is_involutory_for_all_variants() {
    for p in ALL_PLACEMENTS {
        assert_eq!(
            p.opposite().opposite(),
            p,
            "opposite(opposite({p:?})) should return the placement itself"
        );
    }
}

#[test]
fn main_axis_vertical_for_top_and_bottom_variants() {
    let vertical = [
        Placement::Top,
        Placement::TopStart,
        Placement::TopEnd,
        Placement::Bottom,
        Placement::BottomStart,
        Placement::BottomEnd,
    ];
    for p in vertical {
        assert_eq!(p.main_axis(), Axis::Vertical, "{p:?} should be Vertical");
    }
}

#[test]
fn main_axis_horizontal_for_left_and_right_variants() {
    let horizontal = [
        Placement::Left,
        Placement::LeftStart,
        Placement::LeftEnd,
        Placement::Right,
        Placement::RightStart,
        Placement::RightEnd,
    ];
    for p in horizontal {
        assert_eq!(p.main_axis(), Axis::Horizontal, "{p:?} should be Horizontal");
    }
}

#[test]
fn main_axis_horizontal_for_logical_variants() {
    let logical = [
        Placement::Start,
        Placement::End,
        Placement::StartTop,
        Placement::StartBottom,
        Placement::EndTop,
        Placement::EndBottom,
    ];
    for p in logical {
        assert_eq!(p.main_axis(), Axis::Horizontal, "{p:?} (logical) should be Horizontal");
    }
}

#[test]
fn main_axis_vertical_for_auto_variants() {
    let auto = [Placement::Auto, Placement::AutoStart, Placement::AutoEnd];
    for p in auto {
        assert_eq!(p.main_axis(), Axis::Vertical, "{p:?} (auto) should default to Vertical");
    }
}

#[test]
fn resolve_logical_ltr_maps_start_to_left_and_end_to_right() {
    assert_eq!(Placement::Start.resolve_logical(ResolvedDirection::Ltr), Placement::Left);
    assert_eq!(Placement::End.resolve_logical(ResolvedDirection::Ltr), Placement::Right);
    assert_eq!(Placement::StartTop.resolve_logical(ResolvedDirection::Ltr), Placement::LeftStart);
    assert_eq!(Placement::StartBottom.resolve_logical(ResolvedDirection::Ltr), Placement::LeftEnd);
    assert_eq!(Placement::EndTop.resolve_logical(ResolvedDirection::Ltr), Placement::RightStart);
    assert_eq!(Placement::EndBottom.resolve_logical(ResolvedDirection::Ltr), Placement::RightEnd);
}

#[test]
fn resolve_logical_rtl_maps_start_to_right_and_end_to_left() {
    assert_eq!(Placement::Start.resolve_logical(ResolvedDirection::Rtl), Placement::Right);
    assert_eq!(Placement::End.resolve_logical(ResolvedDirection::Rtl), Placement::Left);
    assert_eq!(Placement::StartTop.resolve_logical(ResolvedDirection::Rtl), Placement::RightStart);
    assert_eq!(Placement::StartBottom.resolve_logical(ResolvedDirection::Rtl), Placement::RightEnd);
    assert_eq!(Placement::EndTop.resolve_logical(ResolvedDirection::Rtl), Placement::LeftStart);
    assert_eq!(Placement::EndBottom.resolve_logical(ResolvedDirection::Rtl), Placement::LeftEnd);
}

#[test]
fn resolve_logical_passes_through_physical_placements() {
    let physical = [
        Placement::Top,
        Placement::TopStart,
        Placement::TopEnd,
        Placement::Bottom,
        Placement::BottomStart,
        Placement::BottomEnd,
        Placement::Left,
        Placement::LeftStart,
        Placement::LeftEnd,
        Placement::Right,
        Placement::RightStart,
        Placement::RightEnd,
    ];
    for p in physical {
        assert_eq!(p.resolve_logical(ResolvedDirection::Ltr), p, "{p:?} should pass through in LTR");
        assert_eq!(p.resolve_logical(ResolvedDirection::Rtl), p, "{p:?} should pass through in RTL");
    }
}

#[test]
fn resolve_logical_passes_through_auto_variants() {
    let auto = [Placement::Auto, Placement::AutoStart, Placement::AutoEnd];
    for p in auto {
        assert_eq!(p.resolve_logical(ResolvedDirection::Ltr), p, "{p:?} should pass through in LTR");
        assert_eq!(p.resolve_logical(ResolvedDirection::Rtl), p, "{p:?} should pass through in RTL");
    }
}

#[test]
fn side_extracts_correct_side_for_physical_placements() {
    assert_eq!(Placement::Top.side(), Side::Top);
    assert_eq!(Placement::TopStart.side(), Side::Top);
    assert_eq!(Placement::TopEnd.side(), Side::Top);
    assert_eq!(Placement::Bottom.side(), Side::Bottom);
    assert_eq!(Placement::BottomStart.side(), Side::Bottom);
    assert_eq!(Placement::BottomEnd.side(), Side::Bottom);
    assert_eq!(Placement::Left.side(), Side::Left);
    assert_eq!(Placement::LeftStart.side(), Side::Left);
    assert_eq!(Placement::LeftEnd.side(), Side::Left);
    assert_eq!(Placement::Right.side(), Side::Right);
    assert_eq!(Placement::RightStart.side(), Side::Right);
    assert_eq!(Placement::RightEnd.side(), Side::Right);
}

#[test]
fn side_returns_bottom_for_unresolved_variants() {
    let unresolved = [
        Placement::Auto,
        Placement::AutoStart,
        Placement::AutoEnd,
        Placement::Start,
        Placement::End,
        Placement::StartTop,
        Placement::StartBottom,
        Placement::EndTop,
        Placement::EndBottom,
    ];
    for p in unresolved {
        assert_eq!(p.side(), Side::Bottom, "{p:?} (unresolved) should fallback to Side::Bottom");
    }
}

#[test]
fn alignment_returns_center_for_unaligned_placements() {
    let center = [
        Placement::Top,
        Placement::Bottom,
        Placement::Left,
        Placement::Right,
        Placement::Auto,
        Placement::Start,
        Placement::End,
    ];
    for p in center {
        assert_eq!(p.alignment(), Alignment::Center, "{p:?} should have Center alignment");
    }
}

#[test]
fn alignment_returns_start_for_start_aligned_placements() {
    let start = [
        Placement::TopStart,
        Placement::BottomStart,
        Placement::LeftStart,
        Placement::RightStart,
        Placement::AutoStart,
        Placement::StartTop,
        Placement::EndTop,
    ];
    for p in start {
        assert_eq!(p.alignment(), Alignment::Start, "{p:?} should have Start alignment");
    }
}

#[test]
fn alignment_returns_end_for_end_aligned_placements() {
    let end = [
        Placement::TopEnd,
        Placement::BottomEnd,
        Placement::LeftEnd,
        Placement::RightEnd,
        Placement::AutoEnd,
        Placement::StartBottom,
        Placement::EndBottom,
    ];
    for p in end {
        assert_eq!(p.alignment(), Alignment::End, "{p:?} should have End alignment");
    }
}

#[test]
fn side_and_alignment_returns_consistent_tuple() {
    for p in ALL_PLACEMENTS {
        assert_eq!(
            p.side_and_alignment(),
            (p.side(), p.alignment()),
            "{p:?}: side_and_alignment() should equal (side(), alignment())"
        );
    }
}

#[test]
fn with_side_preserves_alignment() {
    assert_eq!(Placement::BottomStart.with_side(Side::Top), Placement::TopStart);
    assert_eq!(Placement::TopEnd.with_side(Side::Left), Placement::LeftEnd);
    assert_eq!(Placement::Right.with_side(Side::Bottom), Placement::Bottom);
    assert_eq!(Placement::LeftStart.with_side(Side::Right), Placement::RightStart);
}

#[test]
fn with_side_produces_all_twelve_physical_placements() {
    let sides = [Side::Top, Side::Bottom, Side::Left, Side::Right];
    let alignments = [Alignment::Start, Alignment::Center, Alignment::End];
    for side in sides {
        for alignment in alignments {
            let source = match alignment {
                Alignment::Start => Placement::BottomStart,
                Alignment::Center => Placement::Bottom,
                Alignment::End => Placement::BottomEnd,
            };
            let result = source.with_side(side);
            assert_eq!(result.side(), side, "with_side({side:?}) should set side");
            assert_eq!(
                result.alignment(),
                alignment,
                "with_side should preserve alignment {alignment:?}"
            );
        }
    }
}

#[test]
fn display_produces_correct_kebab_case_strings() {
    assert_eq!(Placement::Bottom.to_string(), "bottom");
    assert_eq!(Placement::BottomStart.to_string(), "bottom-start");
    assert_eq!(Placement::BottomEnd.to_string(), "bottom-end");
    assert_eq!(Placement::Top.to_string(), "top");
    assert_eq!(Placement::TopStart.to_string(), "top-start");
    assert_eq!(Placement::TopEnd.to_string(), "top-end");
    assert_eq!(Placement::Left.to_string(), "left");
    assert_eq!(Placement::LeftStart.to_string(), "left-start");
    assert_eq!(Placement::LeftEnd.to_string(), "left-end");
    assert_eq!(Placement::Right.to_string(), "right");
    assert_eq!(Placement::RightStart.to_string(), "right-start");
    assert_eq!(Placement::RightEnd.to_string(), "right-end");
    assert_eq!(Placement::Auto.to_string(), "auto");
    assert_eq!(Placement::AutoStart.to_string(), "auto-start");
    assert_eq!(Placement::AutoEnd.to_string(), "auto-end");
    assert_eq!(Placement::Start.to_string(), "start");
    assert_eq!(Placement::End.to_string(), "end");
    assert_eq!(Placement::StartTop.to_string(), "start-top");
    assert_eq!(Placement::StartBottom.to_string(), "start-bottom");
    assert_eq!(Placement::EndTop.to_string(), "end-top");
    assert_eq!(Placement::EndBottom.to_string(), "end-bottom");
}

#[test]
fn display_covers_all_twenty_one_variants() {
    for p in ALL_PLACEMENTS {
        let s = p.to_string();
        assert!(!s.is_empty(), "{p:?} should produce a non-empty Display string");
    }
}

#[test]
fn placement_default_is_bottom() {
    assert_eq!(Placement::default(), Placement::Bottom);
}

#[test]
fn strategy_default_is_absolute() {
    assert_eq!(Strategy::default(), Strategy::Absolute);
}

#[test]
fn boundary_default_is_viewport() {
    assert_eq!(Boundary::default(), Boundary::Viewport);
}

#[test]
fn boundary_viewport_equality() {
    assert_eq!(Boundary::Viewport, Boundary::Viewport);
}

#[test]
fn boundary_viewport_not_equal_to_element() {
    let elem = 42_u64;
    assert_ne!(Boundary::Viewport, Boundary::Element(elem));
}

#[test]
fn boundary_element_equality_is_pointer_based() {
    // Two boundaries naming the same element handle are equal; distinct
    // elements are not, whatever they contain.
    let a = 1_u64;
    let b = a;
    let c = 2_u64;
    assert_eq!(Boundary::Element(a), Boundary::Element(b));
    assert_ne!(Boundary::Element(a), Boundary::Element(c));
}

#[test]
fn non_auto_placement_uses_physical_candidate_list_when_auto_is_disabled() {
    assert_eq!(auto_candidates(false, Placement::Bottom), all_physical_placements());
}

#[test]
fn expanded_placements_resolve_auto_variants_into_expected_candidate_sets() {
    assert_eq!(
        expanded_placements(Placement::Auto, ResolvedDirection::Ltr),
        center_auto_placements()
    );
    assert_eq!(
        expanded_placements(Placement::AutoStart, ResolvedDirection::Ltr),
        start_auto_placements()
    );
    assert_eq!(
        expanded_placements(Placement::AutoEnd, ResolvedDirection::Rtl),
        end_auto_placements()
    );
}

#[test]
fn flip_candidates_expand_auto_fallbacks_and_keep_opposite_as_recovery_option() {
    let fallbacks = vec![Placement::AutoStart];
    assert_eq!(
        flip_candidates(&fallbacks, ResolvedDirection::Ltr, Placement::Bottom),
        vec![
            Placement::TopStart,
            Placement::BottomStart,
            Placement::LeftStart,
            Placement::RightStart,
            Placement::Top,
        ]
    );
}

// Own tests.

#[test]
fn candidate_lists_have_the_documented_members() {
    assert_eq!(all_physical_placements().len(), 12);
    assert_eq!(
        center_auto_placements(),
        vec![Placement::Top, Placement::Bottom, Placement::Left, Placement::Right]
    );
    assert_eq!(
        end_auto_placements(),
        vec![Placement::TopEnd, Placement::BottomEnd, Placement::LeftEnd, Placement::RightEnd]
    );
}

#[test]
fn auto_candidates_follow_the_auto_family() {
    assert_eq!(auto_candidates(true, Placement::AutoEnd), all_physical_placements());
    assert_eq!(auto_candidates(false, Placement::Auto), center_auto_placements());
    assert_eq!(auto_candidates(false, Placement::AutoStart), start_auto_placements());
    assert!(is_auto_placement_enabled(false, Placement::AutoEnd));
    assert!(is_auto_placement_enabled(true, Placement::Top));
    assert!(!is_auto_placement_enabled(false, Placement::Top));
}

#[test]
fn expanded_logical_placement_is_resolved_first() {
    assert_eq!(
        expanded_placements(Placement::StartTop, ResolvedDirection::Rtl),
        vec![Placement::RightStart]
    );
    assert_eq!(
        expanded_placements(Placement::End, ResolvedDirection::Ltr),
        vec![Placement::Right]
    );
}

#[test]
fn extend_unique_skips_existing_entries() {
    let mut v = vec![Placement::Top, Placement::Left];
    extend_unique(&mut v, vec![Placement::Left, Placement::Right, Placement::Top, Placement::Right]);
    assert_eq!(v, vec![Placement::Top, Placement::Left, Placement::Right]);
}

#[test]
fn flip_candidates_without_fallbacks_is_the_opposite() {
    assert_eq!(
        flip_candidates(&Vec::new(), ResolvedDirection::Ltr, Placement::LeftEnd),
        vec![Placement::RightEnd]
    );
}

#[test]
fn flip_candidates_leave_out_the_current_placement() {
    let fallbacks = vec![Placement::Top, Placement::Bottom, Placement::Start];
    assert_eq!(
        flip_candidates(&fallbacks, ResolvedDirection::Rtl, Placement::Top),
        vec![Placement::Bottom, Placement::Right]
    );
}

#[test]
fn css_direction_values() {
    assert_eq!(direction_from_css("rtl"), ResolvedDirection::Rtl);
    assert_eq!(direction_from_css("ltr"), ResolvedDirection::Ltr);
    assert_eq!(direction_from_css(""), ResolvedDirection::Ltr);
    assert_eq!(direction_from_css("RTL"), ResolvedDirection::Ltr);
}
