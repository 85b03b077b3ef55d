//! Live-region announcement text.
//!
//! Screen readers announce a live region when its content changes. The
//! polite and assertive regions are shared `div`s; a message is inserted
//! after a short delay and cleared later. Announcing the same message twice
//! in a row would not change the content, so repeats alternately carry an
//! invisible zero-width joiner. The browser front end owns the region nodes
//! and timers; this module keeps each region's announcement state and
//! produces the text to insert.
use crate::text::str_equals;
use vstd::prelude::*;

verus! {

/// ID of the polite live region.
pub const POLITE_REGION_ID: &'static str = "ars-live-polite";

/// ID of the assertive live region.
pub const ASSERTIVE_REGION_ID: &'static str = "ars-live-assertive";

/// Delay in milliseconds before a message is inserted into its region.
pub const LIVE_REGION_INSERT_DELAY_MS: i32 = 150;

/// Delay in milliseconds after which an inserted message is cleared.
pub const LIVE_REGION_CLEAR_DELAY_MS: i32 = 7000;

/// The zero-width joiner appended to alternate repeats of a message.
pub const REPEAT_MARKER: &'static str = "\u{200D}";

/// The announcement state of one live region.
#[derive(Debug)]
pub struct RegionAnnouncementState {
    last_message: Option<String>,
    voiceover_toggle: bool,
}

impl RegionAnnouncementState {
    /// The last message announced (as given) and whether the last repeat
    /// carried the marker.
    pub closed spec fn view(&self) -> (Option<Seq<char>>, bool) {
        (
            match self.last_message {
                Some(m) => Some(m@),
                None => None,
            },
            self.voiceover_toggle,
        )
    }

    /// A region that has announced nothing yet.
    pub fn new() -> (r: Self)
        ensures
            r@ == (None::<Seq<char>>, false),
    {
        RegionAnnouncementState { last_message: None, voiceover_toggle: false }
    }
}

/// Whether the state records `message` as the last announcement.
pub open spec fn is_repeat(state: (Option<Seq<char>>, bool), message: Seq<char>) -> bool {
    state.0 == Some(message)
}

/// The marker flag after announcing `message`: a repeat flips it, a new
/// message clears it.
pub open spec fn next_toggle(state: (Option<Seq<char>>, bool), message: Seq<char>) -> bool {
    if is_repeat(state, message) {
        !state.1
    } else {
        false
    }
}

/// The text inserted for `message`: the message, followed by the marker
/// when the flag is set after the announcement.
pub open spec fn announced_text(state: (Option<Seq<char>>, bool), message: Seq<char>) -> Seq<char> {
    if next_toggle(state, message) {
        message + REPEAT_MARKER@
    } else {
        message
    }
}

/// Records the announcement of `message` in `state` and returns the text to
/// insert into the region.
pub fn prepare_live_region_message(state: &mut RegionAnnouncementState, message: &str) -> (r: String)
    ensures
        final(state)@ == (Some(message@), next_toggle(old(state)@, message@)),
        r@ == announced_text(old(state)@, message@),
{
    let repeat = match &state.last_message {
        Some(last) => str_equals(last.as_str(), message),
        None => false,
    };
    let content = if repeat {
        state.voiceover_toggle = !state.voiceover_toggle;
        if state.voiceover_toggle {
            let mut text = message.to_owned();
            text.append(REPEAT_MARKER);
            text
        } else {
            message.to_owned()
        }
    } else {
        state.voiceover_toggle = false;
        message.to_owned()
    };
    state.last_message = Some(message.to_owned());
    content
}

/// Announcing the same message twice in a row always changes the region's
/// text, so the repeat is announced again; and the text is always the
/// message, possibly followed by the marker.
pub proof fn law_repeat_changes_text(state: (Option<Seq<char>>, bool), message: Seq<char>)
    ensures
        announced_text((Some(message), next_toggle(state, message)), message) != announced_text(
            state,
            message,
        ),
        announced_text(state, message).subrange(0, message.len() as int) == message,
{
    reveal_strlit("\u{200D}");
    assert(REPEAT_MARKER@.len() == 1);
    let first = announced_text(state, message);
    let second = announced_text((Some(message), next_toggle(state, message)), message);
    if next_toggle(state, message) {
        assert(first.len() == message.len() + 1);
        assert(second == message);
    } else {
        assert(second.len() == message.len() + 1);
    }
    assert(first.subrange(0, message.len() as int) =~= message);
}

} // verus!
