//! Portal mount naming, background-inert planning and the focus-trap wrap
//! rule used while background content is inert.
//!
//! Overlays render into a shared portal root; each overlay gets a mount
//! node carrying its owner ID. While a modal is open its background (the
//! body's other children) is made inert, natively where the browser
//! supports `inert` and through an `aria-hidden`/`tabindex` polyfill with a
//! Tab-key focus trap elsewhere. The browser front end performs the DOM
//! writes; these functions decide them.
use crate::text::str_equals;
use vstd::prelude::*;

verus! {

/// Attribute carrying the owning overlay ID on a portal mount node.
pub const PORTAL_OWNER_ATTR: &'static str = "data-ars-portal-owner";

/// ID of the shared portal root element.
pub const PORTAL_ROOT_ID: &'static str = "ars-portal-root";

/// Prefix of every portal mount node ID.
pub const PORTAL_MOUNT_PREFIX: &'static str = "ars-portal-";

/// The ID of the portal mount node of the overlay `owner_id`.
pub fn portal_mount_id(owner_id: &str) -> (r: String)
    ensures
        r@ == PORTAL_MOUNT_PREFIX@ + owner_id@,
{
    let mut id = PORTAL_MOUNT_PREFIX.to_owned();
    id.append(owner_id);
    id
}

/// How an attribute changed while the background was inert is put back.
#[derive(Debug, PartialEq, Eq)]
pub enum RestoreAction {
    /// The attribute was absent: remove it.
    Remove,
    /// The attribute had this value: set it again.
    SetTo(String),
}

/// The restoration of an attribute whose value before the change was
/// `previous`.
pub fn restore_action(previous: Option<&str>) -> (r: RestoreAction)
    ensures
        match previous {
            Some(v) => r matches RestoreAction::SetTo(s) && s@ == v@,
            None => r == RestoreAction::Remove,
        },
{
    match previous {
        Some(value) => RestoreAction::SetTo(value.to_owned()),
        None => RestoreAction::Remove,
    }
}

/// Whether the runtime supports the native `inert` attribute. Without a
/// browser document there is none, so this is `false`.
pub fn supports_inert() -> (r: bool)
    ensures
        !r,
{
    false
}

/// How the background of a modal is made inert.
#[derive(Clone, Copy, Debug, PartialEq, Eq, Structural)]
pub enum InertStrategy {
    /// Nothing to do: the portal root has no siblings.
    Nothing,
    /// Set `inert` and `aria-hidden="true"` on every sibling.
    Native,
    /// Set `aria-hidden="true"` on every sibling, `tabindex="-1"` on their
    /// tabbable descendants, and trap Tab inside the portal root.
    Polyfill,
}

/// The strategy for making `sibling_count` background siblings inert.
pub fn background_inert_strategy(inert_supported: bool, sibling_count: usize) -> (r: InertStrategy)
    ensures
        r == (if sibling_count == 0 {
            InertStrategy::Nothing
        } else if inert_supported {
            InertStrategy::Native
        } else {
            InertStrategy::Polyfill
        }),
{
    if sibling_count == 0 {
        InertStrategy::Nothing
    } else if inert_supported {
        InertStrategy::Native
    } else {
        InertStrategy::Polyfill
    }
}

/// The positions, in order, of the body children to make inert: all those
/// that neither are nor contain the portal root (`holds_portal[i]`).
pub fn body_sibling_indices(holds_portal: &[bool]) -> (r: Vec<usize>)
    ensures
        r@.len() <= holds_portal@.len(),
        forall|i: int, j: int| 0 <= i < j < r@.len() ==> r@[i] < r@[j],
        forall|i: int| 0 <= i < r@.len() ==> r@[i] < holds_portal@.len() && !holds_portal@[r@[i] as int],
        forall|k: int| 0 <= k < holds_portal@.len() && !holds_portal@[k] ==> r@.contains(k as usize),
{
    let mut out: Vec<usize> = Vec::new();
    let mut k: usize = 0;
    while k < holds_portal.len()
        invariant
            k <= holds_portal.len(),
            out@.len() <= k,
            forall|i: int, j: int| 0 <= i < j < out@.len() ==> out@[i] < out@[j],
            forall|i: int| 0 <= i < out@.len() ==> out@[i] < k && !holds_portal@[out@[i] as int],
            forall|m: int| 0 <= m < k && !holds_portal@[m] ==> out@.contains(m as usize),
        decreases holds_portal.len() - k,
    {
        if !holds_portal[k] {
            let ghost before = out@;
            out.push(k);
            proof {
                assert(out@[before.len() as int] == k);
                assert forall|m: int| 0 <= m < k + 1 && !holds_portal@[m] implies out@.contains(
                    m as usize,
                ) by {
                    if m < k {
                        let i = choose|i: int| 0 <= i < before.len() && before[i] == m as usize;
                        assert(out@[i] == m as usize);
                    }
                }
            }
        }
        k = k + 1;
    }
    out
}

/// Which end of a tab order focus wraps to.
#[derive(Clone, Copy, Debug, PartialEq, Eq, Structural)]
pub enum WrapTarget {
    /// The first tabbable element.
    First,
    /// The last tabbable element.
    Last,
}

/// The Tab-wrap rule of a focus trap: Shift+Tab wraps to the last element
/// when focus is outside the trap or on its first element; Tab wraps to the
/// first element when focus is outside or on its last element.
pub open spec fn wrap_target_of(
    shift: bool,
    active_inside: bool,
    active_is_first: bool,
    active_is_last: bool,
) -> Option<WrapTarget> {
    if shift {
        if !active_inside || active_is_first {
            Some(WrapTarget::Last)
        } else {
            None
        }
    } else if !active_inside || active_is_last {
        Some(WrapTarget::First)
    } else {
        None
    }
}

/// Applies the Tab-wrap rule of a focus trap.
pub fn tab_wrap_target(shift: bool, active_inside: bool, active_is_first: bool, active_is_last: bool) -> (r:
    Option<WrapTarget>)
    ensures
        r == wrap_target_of(shift, active_inside, active_is_first, active_is_last),
{
    if shift {
        if !active_inside || active_is_first {
            Some(WrapTarget::Last)
        } else {
            None
        }
    } else if !active_inside || active_is_last {
        Some(WrapTarget::First)
    } else {
        None
    }
}

/// What the polyfill's focus trap does with a key press: only a Tab while
/// the portal root is connected and has tabbable elements can wrap (and is
/// then prevented); `None` leaves the event alone.
pub fn portal_focus_trap_action(
    key: &str,
    portal_connected: bool,
    tabbable_count: usize,
    shift: bool,
    active_inside: bool,
    active_is_first: bool,
    active_is_last: bool,
) -> (r: Option<WrapTarget>)
    ensures
        r == (if key@ == "Tab"@ && portal_connected && tabbable_count > 0 {
            wrap_target_of(shift, active_inside, active_is_first, active_is_last)
        } else {
            None
        }),
{
    if !str_equals(key, "Tab") || !portal_connected || tabbable_count == 0 {
        return None;
    }
    tab_wrap_target(shift, active_inside, active_is_first, active_is_last)
}

/// Focus never escapes a trap by Tab from its edges: from the last element
/// Tab wraps to the first, from the first Shift+Tab wraps to the last, and
/// from outside the trap either key brings focus back in.
pub proof fn law_trap_wraps_at_edges(shift: bool, first: bool, last: bool)
    ensures
        wrap_target_of(false, true, first, true) == Some(WrapTarget::First),
        wrap_target_of(true, true, true, last) == Some(WrapTarget::Last),
        wrap_target_of(shift, false, first, last) is Some,
        wrap_target_of(shift, true, false, false) is None,
{
}

/// How the shared portal root is obtained.
#[derive(Clone, Copy, Debug, PartialEq, Eq, Structural)]
pub enum PortalRootAction {
    /// Reuse the managed element that has the root's ID.
    Reuse,
    /// Create the root under the root's ID.
    Create,
    /// An unmanaged element already uses the root's ID: create the root
    /// under an alternate ID and leave that element alone.
    CreateAlternate,
}

/// The portal-root decision given what has the root's ID: nothing
/// (`None`), or an element that carries the managed marker or not.
pub fn portal_root_action(existing_managed: Option<bool>) -> (r: PortalRootAction)
    ensures
        r == match existing_managed {
            None => PortalRootAction::Create,
            Some(true) => PortalRootAction::Reuse,
            Some(false) => PortalRootAction::CreateAlternate,
        },
{
    match existing_managed {
        None => PortalRootAction::Create,
        Some(true) => PortalRootAction::Reuse,
        Some(false) => PortalRootAction::CreateAlternate,
    }
}

} // verus!
