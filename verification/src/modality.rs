//! Shared ownership of the document-level modality listeners.
//!
//! Several providers may ask for the keyboard/pointer modality listeners of
//! one document; they are installed for the first consumer and removed when
//! the last consumer releases them. The browser front end installs and
//! removes the listeners when these transitions say so.
use crate::outside_interaction::PointerType;
use crate::text::str_equals;
use vstd::prelude::*;

verus! {

/// Whether the modality listeners are installed, and how many consumers
/// hold them.
#[derive(Debug)]
pub struct ListenerConsumers {
    installed: bool,
    refcount: u32,
}

/// The state after a consumer acquires the listeners (the count saturates
/// at `u32::MAX`).
pub open spec fn acquired_listeners(state: (bool, u32)) -> (bool, u32) {
    (true, if state.1 == u32::MAX {
        u32::MAX
    } else {
        (state.1 + 1) as u32
    })
}

/// The state after a consumer releases the listeners; releasing with no
/// consumer changes nothing.
pub open spec fn released_listeners(state: (bool, u32)) -> (bool, u32) {
    if state.1 == 0 {
        state
    } else if state.1 == 1 {
        (false, 0)
    } else {
        (state.0, (state.1 - 1) as u32)
    }
}

impl ListenerConsumers {
    /// `(installed, consumer count)`.
    pub closed spec fn view(&self) -> (bool, u32) {
        (self.installed, self.refcount)
    }

    /// No consumer, nothing installed.
    pub fn new() -> (r: Self)
        ensures
            r@ == (false, 0u32),
    {
        ListenerConsumers { installed: false, refcount: 0 }
    }

    /// Registers a consumer; returns `true` when the listeners must be
    /// installed now (they were not installed).
    pub fn acquire_listener_consumer(&mut self) -> (r: bool)
        ensures
            final(self)@ == acquired_listeners(old(self)@),
            r == !old(self)@.0,
    {
        self.refcount = if self.refcount == u32::MAX {
            u32::MAX
        } else {
            self.refcount + 1
        };
        let should_install = !self.installed;
        if should_install {
            self.installed = true;
        }
        should_install
    }

    /// Releases a consumer; returns `true` when the last consumer left and
    /// the listeners must be removed now.
    pub fn release_listener_consumer(&mut self) -> (r: bool)
        ensures
            final(self)@ == released_listeners(old(self)@),
            r == (old(self)@.1 == 1),
    {
        let count = self.refcount;
        if count == 0 {
            return false;
        }
        let next = count - 1;
        self.refcount = next;
        if next == 0 {
            self.installed = false;
            true
        } else {
            false
        }
    }

    /// `(installed, consumer count)`.
    pub fn listener_state(&self) -> (r: (bool, u32))
        ensures
            r == self@,
    {
        (self.installed, self.refcount)
    }
}

/// Starting from no consumer, the listeners are installed exactly while
/// some consumer holds them: acquiring and releasing (below the saturation
/// bound) keep `installed == (count > 0)`.
pub proof fn law_installed_iff_consumers(state: (bool, u32))
    requires
        state.0 == (state.1 > 0),
        state.1 < u32::MAX,
    ensures
        acquired_listeners(state).0 == (acquired_listeners(state).1 > 0),
        released_listeners(state).0 == (released_listeners(state).1 > 0),
        released_listeners(acquired_listeners(state)) == state,
{
}

/// The modality pointer type of a `pointerdown` event's `pointerType`:
/// touch and pen are recognised, anything else counts as a mouse.
pub fn pointer_type_from_web(pointer_type: &str) -> (r: PointerType)
    ensures
        r == (if pointer_type@ == "touch"@ {
            PointerType::Touch
        } else if pointer_type@ == "pen"@ {
            PointerType::Pen
        } else {
            PointerType::Mouse
        }),
{
    if str_equals(pointer_type, "touch") {
        PointerType::Touch
    } else if str_equals(pointer_type, "pen") {
        PointerType::Pen
    } else {
        PointerType::Mouse
    }
}

} // verus!
