//! Reference-counted scroll locking for modal overlays.
//!
//! When a modal overlay (Dialog, AlertDialog, Drawer) opens, page scrolling
//! is prevented. A depth counter handles nested modals: lock styles are
//! applied when the first modal opens and the saved styles are restored only
//! when the last modal closes.
//!
//! Two API levels are provided:
//!
//! - **Low-level**: [`acquire()`] / [`release()`] on a shared
//!   [`ScrollLockState`] depth counter.
//! - **High-level**: [`ScrollLockManager`] with per-overlay-ID
//!   de-duplication, delegating to the same counter.
//! - **Aliases**: [`prevent_scroll()`] / [`restore_scroll()`].
//!
//! The document-level work (capturing the current scroll position and body
//! styles, applying the lock styles, restoring them) is reported to the
//! caller as a [`ScrollLockEffect`] to perform.
use crate::text::{contains_str, has_substring, str_equals};
use vstd::prelude::*;

verus! {

/// The document-level work a depth change calls for.
#[derive(Clone, Copy, Debug, PartialEq, Eq, Structural)]
pub enum ScrollLockEffect {
    /// Nothing to do: an outer lock is still held, or nothing was held.
    Noop,
    /// The first lock was taken: save the current scroll position and body
    /// styles, then apply the lock styles.
    CaptureAndLock,
    /// The last lock was released: restore the saved styles and position.
    Restore,
}

/// The shared scroll-lock depth counter of one document.
#[derive(Debug)]
pub struct ScrollLockState {
    depth: u32,
}

impl ScrollLockState {
    /// The current nesting depth.
    pub closed spec fn view(&self) -> nat {
        self.depth as nat
    }

    /// Creates an unlocked state (depth 0).
    pub fn new() -> (r: Self)
        ensures
            r@ == 0,
    {
        ScrollLockState { depth: 0 }
    }
}

/// The depth after one more lock.
pub open spec fn acquired_depth(d: nat) -> nat {
    d + 1
}

/// The depth after one release; releasing at depth 0 stays at 0.
pub open spec fn released_depth(d: nat) -> nat {
    if d == 0 {
        0
    } else {
        (d - 1) as nat
    }
}

/// The work owed when the depth goes from `d` by one acquire.
pub open spec fn acquire_effect(d: nat) -> ScrollLockEffect {
    if d == 0 {
        ScrollLockEffect::CaptureAndLock
    } else {
        ScrollLockEffect::Noop
    }
}

/// The work owed when the depth goes from `d` by one release.
pub open spec fn release_effect(d: nat) -> ScrollLockEffect {
    if d == 1 {
        ScrollLockEffect::Restore
    } else {
        ScrollLockEffect::Noop
    }
}

/// Increment the scroll lock depth counter.
///
/// On the first lock (depth 0 -> 1) the caller must capture the current
/// scroll position and body styles and apply the lock styles, as the
/// returned effect says. Nested locks only increment the counter.
pub fn acquire(state: &mut ScrollLockState) -> (r: ScrollLockEffect)
    requires
        old(state)@ < u32::MAX,
    ensures
        final(state)@ == acquired_depth(old(state)@),
        r == acquire_effect(old(state)@),
{
    let prev = state.depth;
    state.depth = prev + 1;
    if prev == 0 {
        ScrollLockEffect::CaptureAndLock
    } else {
        ScrollLockEffect::Noop
    }
}

/// Decrement the scroll lock depth counter (saturating at zero).
///
/// On the last release (depth 1 -> 0) the caller must restore the saved
/// body styles and scroll position, as the returned effect says.
pub fn release(state: &mut ScrollLockState) -> (r: ScrollLockEffect)
    ensures
        final(state)@ == released_depth(old(state)@),
        r == release_effect(old(state)@),
{
    let prev = state.depth;
    state.depth = if prev == 0 {
        0
    } else {
        prev - 1
    };
    if prev == 1 {
        ScrollLockEffect::Restore
    } else {
        ScrollLockEffect::Noop
    }
}

/// Returns `true` if scroll locking is currently active (depth > 0).
pub fn is_locked(state: &ScrollLockState) -> (r: bool)
    ensures
        r == (state@ > 0),
{
    state.depth > 0
}

/// Returns the current nesting depth of active scroll locks.
pub fn depth(state: &ScrollLockState) -> (r: u32)
    ensures
        r == state@,
{
    state.depth
}

/// Prevent page scrolling; call when a modal overlay opens. Alias for
/// [`acquire()`].
pub fn prevent_scroll(state: &mut ScrollLockState) -> (r: ScrollLockEffect)
    requires
        old(state)@ < u32::MAX,
    ensures
        final(state)@ == acquired_depth(old(state)@),
        r == acquire_effect(old(state)@),
{
    acquire(state)
}

/// Restore page scrolling; call when a modal overlay closes. Alias for
/// [`release()`].
pub fn restore_scroll(state: &mut ScrollLockState) -> (r: ScrollLockEffect)
    ensures
        final(state)@ == released_depth(old(state)@),
        r == release_effect(old(state)@),
{
    release(state)
}

/// No element of `s` is equal to another.
pub open spec fn distinct_strings(s: Seq<Seq<char>>) -> bool {
    forall|i: int, j: int| 0 <= i < s.len() && 0 <= j < s.len() && i != j ==> s[i] != s[j]
}

/// Manages document scroll locking with per-overlay ownership.
///
/// Each overlay acquires a lock by its unique ID; duplicate lock requests
/// from the same overlay are ignored, as are unlock requests for overlays
/// that hold no lock. Every effective lock and unlock goes through the
/// shared [`ScrollLockState`], so managers and the bare functions share one
/// depth counter.
#[derive(Debug)]
pub struct ScrollLockManager {
    lock_owners: Vec<String>,
}

impl ScrollLockManager {
    /// The identifiers of the overlays that currently hold a lock, in the
    /// order they locked.
    pub closed spec fn view(&self) -> Seq<Seq<char>> {
        self.lock_owners@.map_values(|s: String| s@)
    }

    #[verifier::type_invariant]
    closed spec fn inv(&self) -> bool {
        distinct_strings(self@)
    }

    /// Creates a new, unlocked scroll lock manager.
    pub fn new() -> (r: Self)
        ensures
            r@ == Seq::<Seq<char>>::empty(),
            distinct_strings(r@),
    {
        let r = ScrollLockManager { lock_owners: Vec::new() };
        assert(r@ =~= Seq::<Seq<char>>::empty());
        r
    }

    /// The position of `overlay_id` among the owners, if it holds a lock.
    fn owner_index(&self, overlay_id: &str) -> (r: Option<usize>)
        ensures
            r.is_some() <==> self@.contains(overlay_id@),
            r.is_some() ==> r.unwrap() < self@.len() && self@[r.unwrap() as int] == overlay_id@,
    {
        let mut i: usize = 0;
        while i < self.lock_owners.len()
            invariant
                i <= self.lock_owners.len(),
                self@.len() == self.lock_owners@.len(),
                forall|j: int| 0 <= j < i ==> self@[j] != overlay_id@,
            decreases self.lock_owners.len() - i,
        {
            if str_equals(self.lock_owners[i].as_str(), overlay_id) {
                assert(self@[i as int] == self.lock_owners@[i as int]@);
                return Some(i);
            }
            i = i + 1;
        }
        None
    }

    /// Acquire a scroll lock for the given overlay.
    ///
    /// The first lock of an overlay goes through [`acquire()`] on `state`;
    /// a duplicate request from an overlay that already holds a lock is
    /// ignored (no change, no effect).
    pub fn lock(&mut self, state: &mut ScrollLockState, overlay_id: &str) -> (r: ScrollLockEffect)
        requires
            !old(self)@.contains(overlay_id@) ==> old(state)@ < u32::MAX,
        ensures
            old(self)@.contains(overlay_id@) ==> final(self)@ == old(self)@ && final(state)@ == old(
                state,
            )@ && r == ScrollLockEffect::Noop,
            !old(self)@.contains(overlay_id@) ==> final(self)@ == old(self)@.push(overlay_id@)
                && final(state)@ == acquired_depth(old(state)@) && r == acquire_effect(
                old(state)@,
            ),
            distinct_strings(old(self)@),
            distinct_strings(final(self)@),
    {
        proof {
            use_type_invariant(&*self);
        }
        if self.owner_index(overlay_id).is_some() {
            return ScrollLockEffect::Noop;
        }
        let owner = overlay_id.to_owned();
        let ghost before = self@;
        let mut owners: Vec<String> = Vec::new();
        std::mem::swap(&mut owners, &mut self.lock_owners);
        owners.push(owner);
        proof {
            let after = owners@.map_values(|s: String| s@);
            assert(after =~= before.push(overlay_id@));
            assert forall|i: int, j: int|
                0 <= i < after.len() && 0 <= j < after.len() && i != j implies after[i]
                != after[j] by {
                if i == before.len() {
                    assert(before.contains(before[j]));
                } else if j == before.len() {
                    assert(before.contains(before[i]));
                }
            }
        }
        self.lock_owners = owners;
        proof {
            use_type_invariant(&*self);
        }
        acquire(state)
    }

    /// Release the scroll lock held by the given overlay.
    ///
    /// Goes through [`release()`] on `state` when the overlay holds a lock;
    /// unlock requests for unknown overlay IDs are ignored.
    pub fn unlock(&mut self, state: &mut ScrollLockState, overlay_id: &str) -> (r: ScrollLockEffect)
        ensures
            !old(self)@.contains(overlay_id@) ==> final(self)@ == old(self)@ && final(state)@
                == old(state)@ && r == ScrollLockEffect::Noop,
            old(self)@.contains(overlay_id@) ==> final(self)@ == old(self)@.remove(
                old(self)@.index_of(overlay_id@),
            ) && final(state)@ == released_depth(old(state)@) && r == release_effect(
                old(state)@,
            ),
            distinct_strings(old(self)@),
            distinct_strings(final(self)@),
    {
        proof {
            use_type_invariant(&*self);
        }
        match self.owner_index(overlay_id) {
            None => ScrollLockEffect::Noop,
            Some(pos) => {
                let ghost before = self@;
                proof {
                    let k = before.index_of(overlay_id@);
                    assert(before[pos as int] == overlay_id@);
                    if k != pos as int {
                        assert(before[k] != before[pos as int]);
                    }
                }
                let mut owners: Vec<String> = Vec::new();
                std::mem::swap(&mut owners, &mut self.lock_owners);
                owners.remove(pos);
                proof {
                    let after = owners@.map_values(|s: String| s@);
                    assert(after =~= before.remove(pos as int));
                    assert forall|i: int, j: int|
                        0 <= i < after.len() && 0 <= j < after.len() && i != j implies after[i]
                        != after[j] by {
                        let ii = if i < pos { i } else { i + 1 };
                        let jj = if j < pos { j } else { j + 1 };
                        assert(before[ii] != before[jj]);
                    }
                }
                self.lock_owners = owners;
                proof {
                    use_type_invariant(&*self);
                }
                release(state)
            },
        }
    }

    /// Returns `true` if some overlay holds a lock through this manager.
    pub fn is_locked(&self) -> (r: bool)
        ensures
            r == (self@.len() > 0),
            distinct_strings(self@),
    {
        proof {
            use_type_invariant(self);
        }
        self.lock_owners.len() > 0
    }
}

impl Default for ScrollLockManager {
    fn default() -> (r: Self)
        ensures
            r@ == Seq::<Seq<char>>::empty(),
            distinct_strings(r@),
    {
        Self::new()
    }
}

/// Whether the platform needs the iOS fixed-position scroll lock
/// workaround: an iPhone, iPad or iPod user agent, or an iPad reporting a
/// desktop `MacIntel` platform with more than one touch point.
pub open spec fn ios_workaround_platform(ua: Seq<char>, platform: Seq<char>, max_touch: i32) -> bool {
    has_substring(ua, "iPhone"@) || has_substring(ua, "iPad"@) || has_substring(ua, "iPod"@) || (
    platform == "MacIntel"@ && max_touch > 1)
}

/// Whether the iOS scroll lock workaround applies to a browser reporting
/// user agent `ua`, platform `platform` and `max_touch` touch points.
pub fn is_ios_workaround_platform(ua: &str, platform: &str, max_touch: i32) -> (r: bool)
    ensures
        r == ios_workaround_platform(ua@, platform@, max_touch),
{
    contains_str(ua, "iPhone") || contains_str(ua, "iPad") || contains_str(ua, "iPod") || (
    str_equals(platform, "MacIntel") && max_touch > 1)
}

/// A lock followed by a release leaves the depth as it was, and the
/// document work is balanced: the outermost lock captures and the matching
/// release restores.
pub proof fn law_acquire_release_round_trip(d: nat)
    ensures
        released_depth(acquired_depth(d)) == d,
        acquire_effect(d) == ScrollLockEffect::CaptureAndLock <==> release_effect(
            acquired_depth(d),
        ) == ScrollLockEffect::Restore,
{
}

/// Releasing never drives the depth below zero, and only the release that
/// reaches zero from one restores.
pub proof fn law_release_saturates(d: nat)
    ensures
        released_depth(d) <= d,
        d == 0 ==> released_depth(d) == 0 && release_effect(d) == ScrollLockEffect::Noop,
        release_effect(d) == ScrollLockEffect::Restore ==> released_depth(d) == 0,
{
}

/// A manager keeps the shared depth in step with its owners: if the depth
/// counts the manager's owners plus `others` locks held elsewhere before a
/// lock or unlock, it still does after it.
pub proof fn law_manager_depth_counts_owners(
    owners: Seq<Seq<char>>,
    d: nat,
    others: nat,
    id: Seq<char>,
)
    requires
        d == owners.len() + others,
    ensures
        !owners.contains(id) ==> acquired_depth(d) == owners.push(id).len() + others,
        owners.contains(id) ==> released_depth(d) == owners.remove(owners.index_of(id)).len()
            + others,
{
    if owners.contains(id) {
        let k = owners.index_of(id);
        assert(0 <= k < owners.len());
    }
}

} // verus!
