//! Placement vocabulary of the positioning engine.
//!
//! Defines the enums and helper methods used to describe where floating
//! elements (popovers, tooltips, menus) appear relative to their anchors.
use vstd::prelude::*;

verus! {

/// The four sides of a rectangle, used for placement direction.
#[derive(Clone, Copy, Debug, PartialEq, Eq, Structural)]
pub enum Side {
    /// Top edge.
    Top,
    /// Right edge.
    Right,
    /// Bottom edge.
    Bottom,
    /// Left edge.
    Left,
}

/// Cross-axis alignment within a placement.
#[derive(Clone, Copy, Debug, PartialEq, Eq, Structural)]
pub enum Alignment {
    /// Align to the start (top or left, depending on axis).
    Start,
    /// Center alignment (default for unaligned placements).
    Center,
    /// Align to the end (bottom or right, depending on axis).
    End,
}

/// The axis along which a placement is oriented.
#[derive(Debug, Clone, Copy, PartialEq, Eq, Structural)]
pub enum Axis {
    /// Left-right axis (used by Left/Right placements).
    Horizontal,
    /// Top-bottom axis (used by Top/Bottom placements).
    Vertical,
}

/// The resolved inline direction of a layout.
#[derive(Debug, Clone, Copy, PartialEq, Eq, Structural)]
pub enum ResolvedDirection {
    /// Left-to-right.
    Ltr,
    /// Right-to-left.
    Rtl,
}

/// Placement options for floating elements relative to their anchor.
///
/// The first word is the side of the anchor the floating element appears
/// on; the optional second word is the alignment along that side.
///
/// **Auto variants** (`Auto`, `AutoStart`, `AutoEnd`) let the positioning
/// engine choose the side with the most available space; the alignment is
/// preserved after the side is resolved.
///
/// **Logical variants** (`Start`, `End`, `StartTop`, `StartBottom`,
/// `EndTop`, `EndBottom`) resolve against the layout direction (LTR:
/// Start -> Left, RTL: Start -> Right).
#[derive(Debug, Clone, Copy, PartialEq, Eq, Structural)]
pub enum Placement {
    /// Bottom side, centered (default).
    Bottom,
    /// Bottom side, start-aligned.
    BottomStart,
    /// Bottom side, end-aligned.
    BottomEnd,
    /// Top side, centered.
    Top,
    /// Top side, start-aligned.
    TopStart,
    /// Top side, end-aligned.
    TopEnd,
    /// Left side, centered.
    Left,
    /// Left side, start-aligned.
    LeftStart,
    /// Left side, end-aligned.
    LeftEnd,
    /// Right side, centered.
    Right,
    /// Right side, start-aligned.
    RightStart,
    /// Right side, end-aligned.
    RightEnd,
    /// Positioning engine chooses the side with the most available space.
    Auto,
    /// Auto side selection, aligned to the start of that side.
    AutoStart,
    /// Auto side selection, aligned to the end of that side.
    AutoEnd,
    /// Logical inline-start side (LTR: Left, RTL: Right).
    Start,
    /// Logical inline-end side (LTR: Right, RTL: Left).
    End,
    /// Logical inline-start side, aligned to the top.
    StartTop,
    /// Logical inline-start side, aligned to the bottom.
    StartBottom,
    /// Logical inline-end side, aligned to the top.
    EndTop,
    /// Logical inline-end side, aligned to the bottom.
    EndBottom,
}

impl Default for Placement {
    fn default() -> (r: Self)
        ensures
            r == Placement::Bottom,
    {
        Placement::Bottom
    }
}

/// One of the twelve physical placements (a side and an alignment).
pub open spec fn is_physical(p: Placement) -> bool {
    match p {
        Placement::Auto | Placement::AutoStart | Placement::AutoEnd | Placement::Start
        | Placement::End | Placement::StartTop | Placement::StartBottom | Placement::EndTop
        | Placement::EndBottom => false,
        _ => true,
    }
}

/// One of the three auto placements.
pub open spec fn is_auto(p: Placement) -> bool {
    p == Placement::Auto || p == Placement::AutoStart || p == Placement::AutoEnd
}

/// One of the six logical (direction-relative) placements.
pub open spec fn is_logical(p: Placement) -> bool {
    !is_physical(p) && !is_auto(p)
}

/// The opposite placement used by the flip algorithm.
pub open spec fn opposite_of(p: Placement) -> Placement {
    match p {
        Placement::Bottom => Placement::Top,
        Placement::BottomStart => Placement::TopStart,
        Placement::BottomEnd => Placement::TopEnd,
        Placement::Top => Placement::Bottom,
        Placement::TopStart => Placement::BottomStart,
        Placement::TopEnd => Placement::BottomEnd,
        Placement::Left => Placement::Right,
        Placement::LeftStart => Placement::RightStart,
        Placement::LeftEnd => Placement::RightEnd,
        Placement::Right => Placement::Left,
        Placement::RightStart => Placement::LeftStart,
        Placement::RightEnd => Placement::LeftEnd,
        Placement::Start => Placement::End,
        Placement::End => Placement::Start,
        Placement::StartTop => Placement::EndTop,
        Placement::StartBottom => Placement::EndBottom,
        Placement::EndTop => Placement::StartTop,
        Placement::EndBottom => Placement::StartBottom,
        Placement::Auto => Placement::Auto,
        Placement::AutoStart => Placement::AutoStart,
        Placement::AutoEnd => Placement::AutoEnd,
    }
}

/// The main axis of a placement; auto variants default to vertical.
pub open spec fn main_axis_of(p: Placement) -> Axis {
    match p {
        Placement::Left | Placement::LeftStart | Placement::LeftEnd | Placement::Right
        | Placement::RightStart | Placement::RightEnd | Placement::Start | Placement::End
        | Placement::StartTop | Placement::StartBottom | Placement::EndTop
        | Placement::EndBottom => Axis::Horizontal,
        _ => Axis::Vertical,
    }
}

/// The physical placement of a logical one in direction `dir`; physical
/// and auto placements are unchanged.
pub open spec fn resolve_logical_of(p: Placement, dir: ResolvedDirection) -> Placement {
    match (p, dir) {
        (Placement::Start, ResolvedDirection::Ltr) | (Placement::End, ResolvedDirection::Rtl) => Placement::Left,
        (Placement::Start, ResolvedDirection::Rtl) | (Placement::End, ResolvedDirection::Ltr) => Placement::Right,
        (Placement::StartTop, ResolvedDirection::Ltr)
        | (Placement::EndTop, ResolvedDirection::Rtl) => Placement::LeftStart,
        (Placement::StartTop, ResolvedDirection::Rtl)
        | (Placement::EndTop, ResolvedDirection::Ltr) => Placement::RightStart,
        (Placement::StartBottom, ResolvedDirection::Ltr)
        | (Placement::EndBottom, ResolvedDirection::Rtl) => Placement::LeftEnd,
        (Placement::StartBottom, ResolvedDirection::Rtl)
        | (Placement::EndBottom, ResolvedDirection::Ltr) => Placement::RightEnd,
        (other, _) => other,
    }
}

/// The side of a placement; auto and logical placements fall back to
/// `Side::Bottom`.
pub open spec fn side_of(p: Placement) -> Side {
    match p {
        Placement::Top | Placement::TopStart | Placement::TopEnd => Side::Top,
        Placement::Left | Placement::LeftStart | Placement::LeftEnd => Side::Left,
        Placement::Right | Placement::RightStart | Placement::RightEnd => Side::Right,
        _ => Side::Bottom,
    }
}

/// The cross-axis alignment of a placement.
pub open spec fn alignment_of(p: Placement) -> Alignment {
    match p {
        Placement::TopStart | Placement::BottomStart | Placement::LeftStart
        | Placement::RightStart | Placement::AutoStart | Placement::StartTop
        | Placement::EndTop => Alignment::Start,
        Placement::TopEnd | Placement::BottomEnd | Placement::LeftEnd | Placement::RightEnd
        | Placement::AutoEnd | Placement::StartBottom | Placement::EndBottom => Alignment::End,
        _ => Alignment::Center,
    }
}

/// The physical placement with side `side` and alignment `alignment`.
pub open spec fn physical_placement(side: Side, alignment: Alignment) -> Placement {
    match (side, alignment) {
        (Side::Top, Alignment::Start) => Placement::TopStart,
        (Side::Top, Alignment::End) => Placement::TopEnd,
        (Side::Top, Alignment::Center) => Placement::Top,
        (Side::Bottom, Alignment::Start) => Placement::BottomStart,
        (Side::Bottom, Alignment::End) => Placement::BottomEnd,
        (Side::Bottom, Alignment::Center) => Placement::Bottom,
        (Side::Left, Alignment::Start) => Placement::LeftStart,
        (Side::Left, Alignment::End) => Placement::LeftEnd,
        (Side::Left, Alignment::Center) => Placement::Left,
        (Side::Right, Alignment::Start) => Placement::RightStart,
        (Side::Right, Alignment::End) => Placement::RightEnd,
        (Side::Right, Alignment::Center) => Placement::Right,
    }
}

/// The kebab-case name of a placement (the `data-ars-placement` value).
pub open spec fn placement_name(p: Placement) -> Seq<char> {
    match p {
        Placement::Top => "top"@,
        Placement::TopStart => "top-start"@,
        Placement::TopEnd => "top-end"@,
        Placement::Bottom => "bottom"@,
        Placement::BottomStart => "bottom-start"@,
        Placement::BottomEnd => "bottom-end"@,
        Placement::Left => "left"@,
        Placement::LeftStart => "left-start"@,
        Placement::LeftEnd => "left-end"@,
        Placement::Right => "right"@,
        Placement::RightStart => "right-start"@,
        Placement::RightEnd => "right-end"@,
        Placement::Auto => "auto"@,
        Placement::AutoStart => "auto-start"@,
        Placement::AutoEnd => "auto-end"@,
        Placement::Start => "start"@,
        Placement::End => "end"@,
        Placement::StartTop => "start-top"@,
        Placement::StartBottom => "start-bottom"@,
        Placement::EndTop => "end-top"@,
        Placement::EndBottom => "end-bottom"@,
    }
}

impl Placement {
    /// Returns the opposite placement (used by the flip algorithm).
    /// Logical Start/End are swapped; auto placements are returned as-is.
    pub fn opposite(&self) -> (r: Placement)
        ensures
            r == opposite_of(*self),
    {
        match self {
            Placement::Bottom => Placement::Top,
            Placement::BottomStart => Placement::TopStart,
            Placement::BottomEnd => Placement::TopEnd,
            Placement::Top => Placement::Bottom,
            Placement::TopStart => Placement::BottomStart,
            Placement::TopEnd => Placement::BottomEnd,
            Placement::Left => Placement::Right,
            Placement::LeftStart => Placement::RightStart,
            Placement::LeftEnd => Placement::RightEnd,
            Placement::Right => Placement::Left,
            Placement::RightStart => Placement::LeftStart,
            Placement::RightEnd => Placement::LeftEnd,
            Placement::Start => Placement::End,
            Placement::End => Placement::Start,
            Placement::StartTop => Placement::EndTop,
            Placement::StartBottom => Placement::EndBottom,
            Placement::EndTop => Placement::StartTop,
            Placement::EndBottom => Placement::StartBottom,
            Placement::Auto | Placement::AutoStart | Placement::AutoEnd => *self,
        }
    }

    /// Returns the main axis for this placement (Horizontal or Vertical).
    /// Auto variants default to `Axis::Vertical`.
    pub fn main_axis(&self) -> (r: Axis)
        ensures
            r == main_axis_of(*self),
    {
        match self {
            Placement::Left | Placement::LeftStart | Placement::LeftEnd | Placement::Right
            | Placement::RightStart | Placement::RightEnd | Placement::Start | Placement::End
            | Placement::StartTop | Placement::StartBottom | Placement::EndTop
            | Placement::EndBottom => Axis::Horizontal,
            _ => Axis::Vertical,
        }
    }

    /// Resolves logical (Start/End) variants into physical placements for
    /// the layout direction `dir`. Physical and auto variants pass through
    /// unchanged.
    pub fn resolve_logical(&self, dir: ResolvedDirection) -> (r: Placement)
        ensures
            r == resolve_logical_of(*self, dir),
    {
        match (self, dir) {
            (Placement::Start, ResolvedDirection::Ltr)
            | (Placement::End, ResolvedDirection::Rtl) => Placement::Left,
            (Placement::Start, ResolvedDirection::Rtl)
            | (Placement::End, ResolvedDirection::Ltr) => Placement::Right,
            (Placement::StartTop, ResolvedDirection::Ltr)
            | (Placement::EndTop, ResolvedDirection::Rtl) => Placement::LeftStart,
            (Placement::StartTop, ResolvedDirection::Rtl)
            | (Placement::EndTop, ResolvedDirection::Ltr) => Placement::RightStart,
            (Placement::StartBottom, ResolvedDirection::Ltr)
            | (Placement::EndBottom, ResolvedDirection::Rtl) => Placement::LeftEnd,
            (Placement::StartBottom, ResolvedDirection::Rtl)
            | (Placement::EndBottom, ResolvedDirection::Ltr) => Placement::RightEnd,
            (other, _) => *other,
        }
    }

    /// Returns the primary side for this placement. Logical and auto
    /// variants should be resolved first; for them this returns
    /// `Side::Bottom`.
    pub fn side(&self) -> (r: Side)
        ensures
            r == side_of(*self),
    {
        match self {
            Placement::Top | Placement::TopStart | Placement::TopEnd => Side::Top,
            Placement::Left | Placement::LeftStart | Placement::LeftEnd => Side::Left,
            Placement::Right | Placement::RightStart | Placement::RightEnd => Side::Right,
            _ => Side::Bottom,
        }
    }

    /// The cross-axis alignment (`Start`, `Center`, `End`); `Center` for
    /// unaligned placements.
    pub fn alignment(&self) -> (r: Alignment)
        ensures
            r == alignment_of(*self),
    {
        match self {
            Placement::TopStart | Placement::BottomStart | Placement::LeftStart
            | Placement::RightStart | Placement::AutoStart | Placement::StartTop
            | Placement::EndTop => Alignment::Start,
            Placement::TopEnd | Placement::BottomEnd | Placement::LeftEnd
            | Placement::RightEnd | Placement::AutoEnd | Placement::StartBottom
            | Placement::EndBottom => Alignment::End,
            _ => Alignment::Center,
        }
    }

    /// The side and alignment as a tuple.
    pub fn side_and_alignment(&self) -> (r: (Side, Alignment))
        ensures
            r == (side_of(*self), alignment_of(*self)),
    {
        (self.side(), self.alignment())
    }

    /// A placement with the same alignment but on side `new_side`.
    pub fn with_side(&self, new_side: Side) -> (r: Placement)
        ensures
            r == physical_placement(new_side, alignment_of(*self)),
    {
        let alignment = self.alignment();
        match (new_side, alignment) {
            (Side::Top, Alignment::Start) => Placement::TopStart,
            (Side::Top, Alignment::End) => Placement::TopEnd,
            (Side::Top, Alignment::Center) => Placement::Top,
            (Side::Bottom, Alignment::Start) => Placement::BottomStart,
            (Side::Bottom, Alignment::End) => Placement::BottomEnd,
            (Side::Bottom, Alignment::Center) => Placement::Bottom,
            (Side::Left, Alignment::Start) => Placement::LeftStart,
            (Side::Left, Alignment::End) => Placement::LeftEnd,
            (Side::Left, Alignment::Center) => Placement::Left,
            (Side::Right, Alignment::Start) => Placement::RightStart,
            (Side::Right, Alignment::End) => Placement::RightEnd,
            (Side::Right, Alignment::Center) => Placement::Right,
        }
    }

    /// The kebab-case name of the placement (e.g. `"bottom-start"`).
    pub fn to_string(&self) -> (r: String)
        ensures
            r@ == placement_name(*self),
    {
        let s: &str = match self {
            Placement::Top => "top",
            Placement::TopStart => "top-start",
            Placement::TopEnd => "top-end",
            Placement::Bottom => "bottom",
            Placement::BottomStart => "bottom-start",
            Placement::BottomEnd => "bottom-end",
            Placement::Left => "left",
            Placement::LeftStart => "left-start",
            Placement::LeftEnd => "left-end",
            Placement::Right => "right",
            Placement::RightStart => "right-start",
            Placement::RightEnd => "right-end",
            Placement::Auto => "auto",
            Placement::AutoStart => "auto-start",
            Placement::AutoEnd => "auto-end",
            Placement::Start => "start",
            Placement::End => "end",
            Placement::StartTop => "start-top",
            Placement::StartBottom => "start-bottom",
            Placement::EndTop => "end-top",
            Placement::EndBottom => "end-bottom",
        };
        s.to_owned()
    }
}

/// CSS positioning strategy.
#[derive(Debug, Clone, Copy, PartialEq, Eq, Structural)]
pub enum Strategy {
    /// Position relative to the nearest positioned ancestor.
    Absolute,
    /// Position relative to the viewport (ignores scroll). Broken by
    /// containing-block ancestors (`transform`, `filter`, `contain`, ...).
    Fixed,
}

impl Default for Strategy {
    fn default() -> (r: Self)
        ensures
            r == Strategy::Absolute,
    {
        Strategy::Absolute
    }
}

/// The boundary against which overflow is detected. An element boundary
/// names its element by a handle; two element boundaries are equal exactly
/// when they name the same element (identity, not the element's contents).
#[derive(Clone, Copy, Debug, PartialEq, Eq, Structural)]
pub enum Boundary {
    /// The viewport (the default).
    Viewport,
    /// The bounding rect of the element with this handle.
    Element(u64),
}

impl Default for Boundary {
    fn default() -> (r: Self)
        ensures
            r == Boundary::Viewport,
    {
        Boundary::Viewport
    }
}

/// The opposite of the opposite placement is the placement itself.
pub proof fn law_opposite_is_involution(p: Placement)
    ensures
        opposite_of(opposite_of(p)) == p,
{
}

/// Flipping keeps the alignment and the main axis, and moves a physical
/// placement to the opposite side.
pub proof fn law_opposite_keeps_alignment_and_axis(p: Placement)
    ensures
        alignment_of(opposite_of(p)) == alignment_of(p),
        main_axis_of(opposite_of(p)) == main_axis_of(p),
        is_physical(p) ==> is_physical(opposite_of(p)) && side_of(opposite_of(p)) != side_of(p),
{
}

/// `with_side` yields a physical placement on the requested side that keeps
/// the alignment; on a physical placement's own side it is the identity.
pub proof fn law_with_side(p: Placement, s: Side)
    ensures
        is_physical(physical_placement(s, alignment_of(p))),
        side_of(physical_placement(s, alignment_of(p))) == s,
        alignment_of(physical_placement(s, alignment_of(p))) == alignment_of(p),
        is_physical(p) ==> physical_placement(side_of(p), alignment_of(p)) == p,
{
}

/// Resolving logical placements leaves no logical placement behind, keeps
/// the alignment, and a right-to-left resolution mirrors the left-to-right
/// resolution of the opposite placement.
pub proof fn law_resolve_logical(p: Placement, dir: ResolvedDirection)
    ensures
        !is_logical(resolve_logical_of(p, dir)),
        !is_logical(p) ==> resolve_logical_of(p, dir) == p,
        alignment_of(resolve_logical_of(p, dir)) == alignment_of(p),
        main_axis_of(resolve_logical_of(p, dir)) == main_axis_of(p),
        is_logical(p) ==> resolve_logical_of(p, ResolvedDirection::Rtl) == resolve_logical_of(
            opposite_of(p),
            ResolvedDirection::Ltr,
        ),
{
}

/// The direction named by a computed `direction` value: `rtl` is
/// right-to-left, anything else left-to-right.
pub fn direction_from_css(value: &str) -> (r: ResolvedDirection)
    ensures
        r == (if value@ == "rtl"@ {
            ResolvedDirection::Rtl
        } else {
            ResolvedDirection::Ltr
        }),
{
    if crate::text::str_equals(value, "rtl") {
        ResolvedDirection::Rtl
    } else {
        ResolvedDirection::Ltr
    }
}

} // verus!
