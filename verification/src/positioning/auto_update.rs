//! The decisions of automatic repositioning: when a batch of DOM mutations
//! calls for an update, which queued intersection entry counts, and how the
//! floating element's `visibility` is hidden and restored exactly once.
use vstd::prelude::*;

verus! {

/// The visibility override of a floating element whose anchor has scrolled
/// out of view: the inline `visibility` it had before the first override
/// (`Some(None)` when it had none), kept until restored.
#[derive(Debug)]
pub struct VisibilityOverrideState {
    restore_visibility: Option<Option<String>>,
}

impl View for VisibilityOverrideState {
    type V = Option<Option<Seq<char>>>;

    closed spec fn view(&self) -> Option<Option<Seq<char>>> {
        match self.restore_visibility {
            None => None,
            Some(None) => Some(None),
            Some(Some(v)) => Some(Some(v@)),
        }
    }
}

impl Default for VisibilityOverrideState {
    fn default() -> (r: Self)
        ensures
            r@ == None::<Option<Seq<char>>>,
    {
        VisibilityOverrideState::new()
    }
}

impl VisibilityOverrideState {
    /// No override recorded.
    pub fn new() -> (r: Self)
        ensures
            r@ == None::<Option<Seq<char>>>,
    {
        VisibilityOverrideState { restore_visibility: None }
    }

    /// Records the value to restore, `visibility` being the inline value
    /// before the element is hidden; only the first override counts.
    pub fn record_override(&mut self, visibility: Option<&str>)
        ensures
            final(self)@ == (if old(self)@ is None {
                Some(
                    match visibility {
                        Some(v) => Some(v@),
                        None => None,
                    },
                )
            } else {
                old(self)@
            }),
    {
        if self.restore_visibility.is_none() {
            let saved: Option<String> = match visibility {
                Some(v) => Some(v.to_string()),
                None => None,
            };
            self.restore_visibility = Some(saved);
        }
    }

    /// Takes the value to restore, leaving no override recorded.
    pub fn take_restore_visibility(&mut self) -> (r: Option<Option<String>>)
        ensures
            final(self)@ == None::<Option<Seq<char>>>,
            (match r {
                None => None,
                Some(None) => Some(None),
                Some(Some(v)) => Some(Some(v@)),
            }) == old(self)@,
    {
        let mut taken: Option<Option<String>> = None;
        std::mem::swap(&mut taken, &mut self.restore_visibility);
        taken
    }
}

/// Once an override is recorded, further overrides keep it: what a restore
/// takes back is the value the element had before the first hide, however
/// many hides came in between (each step is `record_override`'s contract).
pub proof fn law_first_override_is_kept(
    first: Option<Seq<char>>,
    later: Seq<Option<Seq<char>>>,
)
    ensures
        recorded_after(Some(first), later) == Some(first),
    decreases later.len(),
{
    if later.len() > 0 {
        law_first_override_is_kept(first, later.drop_last());
    }
}

/// The recorded value after further overrides `later`, starting from
/// `state`.
pub open spec fn recorded_after(
    state: Option<Option<Seq<char>>>,
    later: Seq<Option<Seq<char>>>,
) -> Option<Option<Seq<char>>>
    decreases later.len(),
{
    if later.len() == 0 {
        state
    } else {
        let before = recorded_after(state, later.drop_last());
        if before is None {
            Some(later.last())
        } else {
            before
        }
    }
}

/// What the geometry mutation observer learns of one mutation record:
/// `None` when the record or its target cannot be read, otherwise whether
/// the target lies inside the floating element.
pub open spec fn record_calls_for_update(record: Option<bool>) -> bool {
    match record {
        None => true,
        Some(inside_floating) => !inside_floating,
    }
}

/// A batch of mutation records calls for an update unless every record is
/// a mutation inside the floating element itself (which the positioning
/// writes cause).
pub fn should_update_for_geometry_mutations(records: &[Option<bool>]) -> (r: bool)
    ensures
        r == (exists|i: int|
            0 <= i < records@.len() && #[trigger] record_calls_for_update(records@[i])),
{
    let mut i: usize = 0;
    while i < records.len()
        invariant
            i <= records@.len(),
            forall|j: int| 0 <= j < i ==> !#[trigger] record_calls_for_update(records@[j]),
        decreases records.len() - i,
    {
        match records[i] {
            None => {
                assert(record_calls_for_update(records@[i as int]));
                return true;
            },
            Some(inside) => {
                if !inside {
                    assert(record_calls_for_update(records@[i as int]));
                    return true;
                }
            },
        }
        i = i + 1;
    }
    false
}

/// The index of the last queued intersection entry that is a valid entry
/// (`valid[i]`), or `None` when there is none.
pub fn latest_valid_entry(valid: &[bool]) -> (r: Option<usize>)
    ensures
        match r {
            Some(i) => i < valid@.len() && valid@[i as int] && forall|j: int|
                i < j < valid@.len() ==> !#[trigger] valid@[j],
            None => forall|j: int| 0 <= j < valid@.len() ==> !#[trigger] valid@[j],
        },
{
    let mut k: usize = valid.len();
    while k > 0
        invariant
            k <= valid@.len(),
            forall|j: int| k <= j < valid@.len() ==> !#[trigger] valid@[j],
        decreases k,
    {
        k = k - 1;
        if valid[k] {
            return Some(k);
        }
    }
    None
}

} // verus!
