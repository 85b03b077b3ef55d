//! Outside-interaction containment and dismissal decisions.
//!
//! A dismissable overlay (Dialog, Popover, Menu, ...) closes when the user
//! presses a pointer or moves focus outside it, or presses Escape while it
//! is topmost. "Outside" excludes the overlay's root, consumer-registered
//! boundary and exclusion IDs, portaled content owned by the overlay, and
//! overlays stacked above it.
//!
//! The browser front end resolves the event target and its ancestor chain
//! into [`BoundaryNode`]s and asks these functions what to do.
use crate::overlay_stack::{above, is_above, is_topmost, OverlayStack};
use crate::text::str_equals;
use vstd::prelude::*;

verus! {

/// The kind of pointer that produced an event.
#[derive(Clone, Copy, Debug, PartialEq, Eq, Structural)]
pub enum PointerType {
    /// A mouse.
    Mouse,
    /// A pen or stylus.
    Pen,
    /// A touch contact.
    Touch,
    /// A virtual pointer (assistive technology, synthetic events).
    Virtual,
}

/// The browser's `pointerType` string mapped to a [`PointerType`]; unknown
/// values count as virtual.
pub fn classify_pointer_type(raw: &str) -> (r: PointerType)
    ensures
        r == (if raw@ == "mouse"@ {
            PointerType::Mouse
        } else if raw@ == "pen"@ {
            PointerType::Pen
        } else if raw@ == "touch"@ {
            PointerType::Touch
        } else {
            PointerType::Virtual
        }),
{
    if str_equals(raw, "mouse") {
        PointerType::Mouse
    } else if str_equals(raw, "pen") {
        PointerType::Pen
    } else if str_equals(raw, "touch") {
        PointerType::Touch
    } else {
        PointerType::Virtual
    }
}

/// Whether some string of `list` equals `id`.
pub open spec fn listed(list: Seq<String>, id: Seq<char>) -> bool {
    exists|i: int| 0 <= i < list.len() && #[trigger] list[i]@ == id
}

/// Whether `id` (non-empty) is registered as excluded or as an inside
/// boundary.
pub open spec fn inside_set(id: Seq<char>, exclude_ids: Seq<String>, inside_boundaries: Seq<String>) -> bool {
    id.len() > 0 && (listed(exclude_ids, id) || listed(inside_boundaries, id))
}

/// Whether some element of `list` equals `id`.
fn list_contains(list: &[String], id: &str) -> (r: bool)
    ensures
        r == listed(list@, id@),
{
    let mut i: usize = 0;
    while i < list.len()
        invariant
            i <= list.len(),
            forall|j: int| 0 <= j < i ==> list@[j]@ != id@,
        decreases list.len() - i,
    {
        if str_equals(list[i].as_str(), id) {
            return true;
        }
        i = i + 1;
    }
    false
}

/// Returns whether `id` should be treated as inside the dismissable surface
/// based on the consumer-registered `exclude_ids` and `inside_boundaries`
/// sets. Empty IDs never match.
pub fn id_matches_inside_set(id: &str, exclude_ids: &[String], inside_boundaries: &[String]) -> (r:
    bool)
    ensures
        r == inside_set(id@, exclude_ids@, inside_boundaries@),
{
    if id.is_empty() {
        return false;
    }
    list_contains(exclude_ids, id) || list_contains(inside_boundaries, id)
}

/// One element on the path from an event target up to the document: its
/// `id` (empty when absent) and its `data-ars-portal-owner` attribute.
#[derive(Debug)]
pub struct BoundaryNode {
    /// The element's `id` attribute, empty when it has none.
    pub id: String,
    /// The element's portal-owner attribute, if present.
    pub portal_owner: Option<String>,
}

/// Whether one element of the path puts the target inside the surface of
/// `overlay_id`: its ID is registered, or it is a portal mount owned by the
/// overlay itself, by an inside boundary, or by an overlay stacked above.
pub open spec fn node_inside(
    node: BoundaryNode,
    stack: Seq<crate::overlay_stack::OverlayEntry>,
    overlay_id: Seq<char>,
    inside_boundaries: Seq<String>,
    exclude_ids: Seq<String>,
) -> bool {
    ||| inside_set(node.id@, exclude_ids, inside_boundaries)
    ||| match node.portal_owner {
        Some(owner) => owner@ == overlay_id || listed(inside_boundaries, owner@) || above(
            stack,
            owner@,
            overlay_id,
        ),
        None => false,
    }
}

/// Whether some element of `path` puts its target inside the surface of
/// `overlay_id`.
pub open spec fn path_inside(
    path: Seq<BoundaryNode>,
    stack: Seq<crate::overlay_stack::OverlayEntry>,
    overlay_id: Seq<char>,
    inside_boundaries: Seq<String>,
    exclude_ids: Seq<String>,
) -> bool {
    exists|k: int|
        0 <= k < path.len() && #[trigger] node_inside(
            path[k],
            stack,
            overlay_id,
            inside_boundaries,
            exclude_ids,
        )
}

/// Whether an event target is inside the surface of `overlay_id`.
pub open spec fn inside_boundary(
    target_path: Option<Seq<BoundaryNode>>,
    root_contains_target: bool,
    stack: Seq<crate::overlay_stack::OverlayEntry>,
    overlay_id: Seq<char>,
    inside_boundaries: Seq<String>,
    exclude_ids: Seq<String>,
) -> bool {
    match target_path {
        None => false,
        Some(path) => root_contains_target || path_inside(
            path,
            stack,
            overlay_id,
            inside_boundaries,
            exclude_ids,
        ),
    }
}

/// Returns whether an event target is inside the dismissable surface owned
/// by `overlay_id`.
///
/// `target_path` is the target element followed by its ancestors, nearest
/// first (`None` when the event has no element target), and
/// `root_contains_target` tells whether the overlay's root contains the
/// target. The target is inside when the root contains it, or when some
/// element on the path has a registered ID or is a portal mount owned by
/// the overlay, by an inside boundary, or by an overlay stacked above it.
pub fn target_is_inside_boundary(
    target_path: Option<&[BoundaryNode]>,
    root_contains_target: bool,
    stack: &OverlayStack,
    overlay_id: &str,
    inside_boundaries: &[String],
    exclude_ids: &[String],
) -> (r: bool)
    ensures
        r == inside_boundary(
            match target_path {
                Some(p) => Some(p@),
                None => None,
            },
            root_contains_target,
            stack@,
            overlay_id@,
            inside_boundaries@,
            exclude_ids@,
        ),
{
    let path = match target_path {
        None => return false,
        Some(p) => p,
    };
    if root_contains_target {
        return true;
    }
    let mut k: usize = 0;
    while k < path.len()
        invariant
            k <= path.len(),
            target_path matches Some(p) && p@ == path@,
            !root_contains_target,
            forall|j: int|
                0 <= j < k ==> !#[trigger] node_inside(
                    path@[j],
                    stack@,
                    overlay_id@,
                    inside_boundaries@,
                    exclude_ids@,
                ),
        decreases path.len() - k,
    {
        let node = &path[k];
        if id_matches_inside_set(node.id.as_str(), exclude_ids, inside_boundaries) {
            assert(node_inside(path@[k as int], stack@, overlay_id@, inside_boundaries@, exclude_ids@));
            assert(path_inside(path@, stack@, overlay_id@, inside_boundaries@, exclude_ids@));
            return true;
        }
        match &node.portal_owner {
            Some(owner) => {
                if str_equals(owner.as_str(), overlay_id) || list_contains(
                    inside_boundaries,
                    owner.as_str(),
                ) || is_above(stack, owner.as_str(), overlay_id) {
                    assert(node_inside(
                        path@[k as int],
                        stack@,
                        overlay_id@,
                        inside_boundaries@,
                        exclude_ids@,
                    ));
                    assert(path_inside(path@, stack@, overlay_id@, inside_boundaries@, exclude_ids@));
                    return true;
                }
            },
            None => {},
        }
        k = k + 1;
    }
    false
}

/// Whether a pointer press (or focus move) on a target calls the
/// overlay's outside handler: the overlay is topmost and the target is
/// outside its surface.
pub fn should_dismiss_on_outside_event(
    stack: &OverlayStack,
    overlay_id: &str,
    target_path: Option<&[BoundaryNode]>,
    root_contains_target: bool,
    inside_boundaries: &[String],
    exclude_ids: &[String],
) -> (r: bool)
    ensures
        r == (stack@.len() > 0 && stack@.last().id@ == overlay_id@ && !inside_boundary(
            match target_path {
                Some(p) => Some(p@),
                None => None,
            },
            root_contains_target,
            stack@,
            overlay_id@,
            inside_boundaries@,
            exclude_ids@,
        )),
{
    is_topmost(stack, overlay_id) && !target_is_inside_boundary(
        target_path,
        root_contains_target,
        stack,
        overlay_id,
        inside_boundaries,
        exclude_ids,
    )
}

/// Whether a key press calls the overlay's Escape handler: the key is
/// `Escape` and the overlay is topmost.
pub fn should_handle_escape(stack: &OverlayStack, overlay_id: &str, key: &str) -> (r: bool)
    ensures
        r == (key@ == "Escape"@ && stack@.len() > 0 && stack@.last().id@ == overlay_id@),
{
    str_equals(key, "Escape") && is_topmost(stack, overlay_id)
}

/// What counts as inside an overlay's surface: with no target nothing is
/// inside; a target inside the root is inside; and a target is inside when
/// some element on its path has a registered ID (excluded or an inside
/// boundary, and not empty), or is a portal mount owned by the overlay
/// itself, by a registered inside boundary, or by an overlay stacked above
/// it.
pub proof fn law_inside_boundary_sources(
    path: Seq<BoundaryNode>,
    k: int,
    root_contains_target: bool,
    stack: Seq<crate::overlay_stack::OverlayEntry>,
    overlay_id: Seq<char>,
    inside_boundaries: Seq<String>,
    exclude_ids: Seq<String>,
    j: int,
)
    ensures
        !inside_boundary(
            None,
            root_contains_target,
            stack,
            overlay_id,
            inside_boundaries,
            exclude_ids,
        ),
        root_contains_target ==> inside_boundary(
            Some(path),
            root_contains_target,
            stack,
            overlay_id,
            inside_boundaries,
            exclude_ids,
        ),
        0 <= k < path.len() && path[k].portal_owner is Some && 0 <= j < inside_boundaries.len()
            && inside_boundaries[j]@ == path[k].portal_owner.unwrap()@ ==> inside_boundary(
            Some(path),
            root_contains_target,
            stack,
            overlay_id,
            inside_boundaries,
            exclude_ids,
        ),
        0 <= k < path.len() && path[k].portal_owner is Some && path[k].portal_owner.unwrap()@
            == overlay_id ==> inside_boundary(
            Some(path),
            root_contains_target,
            stack,
            overlay_id,
            inside_boundaries,
            exclude_ids,
        ),
        0 <= k < path.len() && path[k].id@.len() > 0 && ((0 <= j < inside_boundaries.len()
            && inside_boundaries[j]@ == path[k].id@) || (0 <= j < exclude_ids.len()
            && exclude_ids[j]@ == path[k].id@)) ==> inside_boundary(
            Some(path),
            root_contains_target,
            stack,
            overlay_id,
            inside_boundaries,
            exclude_ids,
        ),
        !root_contains_target && (forall|i: int|
            0 <= i < path.len() ==> (#[trigger] path[i]).id@.len() == 0 && path[i].portal_owner
                is None) ==> !inside_boundary(
            Some(path),
            root_contains_target,
            stack,
            overlay_id,
            inside_boundaries,
            exclude_ids,
        ),
{
    if 0 <= k < path.len() && path[k].portal_owner is Some {
        let o = path[k].portal_owner.unwrap();
        if 0 <= j < inside_boundaries.len() && inside_boundaries[j]@ == o@ {
            assert(listed(inside_boundaries, o@));
        }
        assert(node_inside(path[k], stack, overlay_id, inside_boundaries, exclude_ids)
            ==> path_inside(path, stack, overlay_id, inside_boundaries, exclude_ids));
    }
    if 0 <= k < path.len() && path[k].id@.len() > 0 {
        if 0 <= j < inside_boundaries.len() && inside_boundaries[j]@ == path[k].id@ {
            assert(listed(inside_boundaries, path[k].id@));
        }
        if 0 <= j < exclude_ids.len() && exclude_ids[j]@ == path[k].id@ {
            assert(listed(exclude_ids, path[k].id@));
        }
        assert(node_inside(path[k], stack, overlay_id, inside_boundaries, exclude_ids)
            ==> path_inside(path, stack, overlay_id, inside_boundaries, exclude_ids));
    }
}

/// A press inside a child overlay never dismisses its parent: if the
/// target lies in a portal mount owned by an overlay stacked above
/// `overlay_id`, the target counts as inside `overlay_id`'s surface.
pub proof fn law_child_overlay_is_inside_parent(
    path: Seq<BoundaryNode>,
    k: int,
    root_contains_target: bool,
    stack: Seq<crate::overlay_stack::OverlayEntry>,
    overlay_id: Seq<char>,
    inside_boundaries: Seq<String>,
    exclude_ids: Seq<String>,
)
    requires
        0 <= k < path.len(),
        path[k].portal_owner is Some,
        above(stack, path[k].portal_owner.unwrap()@, overlay_id),
    ensures
        inside_boundary(
            Some(path),
            root_contains_target,
            stack,
            overlay_id,
            inside_boundaries,
            exclude_ids,
        ),
{
    assert(node_inside(path[k], stack, overlay_id, inside_boundaries, exclude_ids));
    assert(path_inside(path, stack, overlay_id, inside_boundaries, exclude_ids));
}

/// Only the topmost overlay reacts: no two different overlays of one stack
/// both dismiss on the same outside event or both handle the same Escape.
pub proof fn law_only_topmost_dismisses(
    stack: Seq<crate::overlay_stack::OverlayEntry>,
    a: Seq<char>,
    b: Seq<char>,
)
    requires
        a != b,
    ensures
        !((stack.len() > 0 && stack.last().id@ == a) && (stack.len() > 0 && stack.last().id@ == b)),
{
}

} // verus!
