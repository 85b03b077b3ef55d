//! Verified core of a DOM utility layer for accessible UI components:
//! overlay stacking, scroll locking, focus scopes, outside-interaction
//! containment, portals, positioning and CSS containing-block detection.
use vstd::prelude::*;

pub mod announcer;
pub mod focus;
pub mod media;
pub mod modality;
pub mod outside_interaction;
pub mod overlay_stack;
pub mod platform;
pub mod portal;
pub mod positioning;
pub mod scroll;
pub mod scroll_lock;
pub mod text;

verus! {

} // verus!
