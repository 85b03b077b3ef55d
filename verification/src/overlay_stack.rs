//! Overlay stack registry for nested overlay dismissal.
//!
//! Overlay components (Dialog, Popover, Menu, Tooltip, ...) register
//! themselves on the stack when they open and deregister when they close.
//! The stack keeps stacking order: the last entry is the topmost overlay.
//! Escape and outside-click dismissal close the topmost overlay first, and a
//! click inside a child overlay must not dismiss its parent.
//!
//! The registry is an explicit [`OverlayStack`] value that the embedding
//! application owns (one per document); every operation takes it as its
//! first argument. Identifiers are unique within a stack.
use vstd::prelude::*;

verus! {

/// Whether an overlay is modal (blocks interaction with background) or
/// non-modal (background content remains interactive).
#[derive(Clone, Copy, Debug, PartialEq, Eq, Structural)]
pub enum OverlayKind {
    /// Modal overlay: blocks interaction with background content.
    Modal,
    /// Non-modal overlay: background content remains interactive.
    NonModal,
}

/// Metadata for a single overlay registered in the stack.
#[derive(Debug, PartialEq, Eq)]
pub struct OverlayEntry {
    /// Unique identifier for the overlay instance (e.g. `"dialog-1"`).
    pub id: String,
    /// The z-index assigned to this overlay, or `None` when the overlay uses
    /// the browser's native top layer.
    pub z_index: Option<u32>,
    /// Whether this overlay is modal or non-modal.
    pub kind: OverlayKind,
}

impl Clone for OverlayEntry {
    fn clone(&self) -> (r: Self)
        ensures
            r == *self,
    {
        OverlayEntry { id: self.id.clone(), z_index: self.z_index, kind: self.kind }
    }
}

/// The identifiers of a sequence of entries, in order.
pub open spec fn ids_of(s: Seq<OverlayEntry>) -> Seq<Seq<char>> {
    s.map_values(|e: OverlayEntry| e.id@)
}

/// No identifier occurs twice in `s`.
pub open spec fn unique_ids(s: Seq<OverlayEntry>) -> bool {
    forall|i: int, j: int| 0 <= i < s.len() && 0 <= j < s.len() && i != j ==> s[i].id@ != s[j].id@
}

/// Whether an entry with identifier `id` occurs in `s`.
pub open spec fn contains_id(s: Seq<OverlayEntry>, id: Seq<char>) -> bool {
    exists|i: int| 0 <= i < s.len() && s[i].id@ == id
}

/// The position of the entry with identifier `id` in `s` (meaningful when
/// `contains_id(s, id)`).
pub open spec fn index_of_id(s: Seq<OverlayEntry>, id: Seq<char>) -> int {
    choose|i: int| 0 <= i < s.len() && s[i].id@ == id
}

/// The stack after registering `e`: unchanged when its identifier is
/// already registered, otherwise `e` on top.
pub open spec fn pushed(s: Seq<OverlayEntry>, e: OverlayEntry) -> Seq<OverlayEntry> {
    if contains_id(s, e.id@) {
        s
    } else {
        s.push(e)
    }
}

/// The stack after deregistering `id` (by identifier, wherever it stands).
pub open spec fn removed(s: Seq<OverlayEntry>, id: Seq<char>) -> Seq<OverlayEntry> {
    if contains_id(s, id) {
        s.remove(index_of_id(s, id))
    } else {
        s
    }
}

/// Whether `child` is registered above `parent`.
pub open spec fn above(s: Seq<OverlayEntry>, child: Seq<char>, parent: Seq<char>) -> bool {
    &&& child != parent
    &&& contains_id(s, child)
    &&& contains_id(s, parent)
    &&& index_of_id(s, child) > index_of_id(s, parent)
}

/// The identifiers registered above `id`, nearest first.
pub open spec fn ids_above(s: Seq<OverlayEntry>, id: Seq<char>) -> Seq<Seq<char>> {
    if contains_id(s, id) {
        ids_of(s.subrange(index_of_id(s, id) + 1, s.len() as int))
    } else {
        Seq::empty()
    }
}

/// The registry of open overlays in stacking order (last is topmost).
#[derive(Debug)]
pub struct OverlayStack {
    entries: Vec<OverlayEntry>,
}

impl OverlayStack {
    /// The registered entries, bottom first.
    pub closed spec fn view(&self) -> Seq<OverlayEntry> {
        self.entries@
    }

    #[verifier::type_invariant]
    closed spec fn inv(&self) -> bool {
        unique_ids(self.entries@)
    }

    /// Creates an empty stack.
    pub fn new() -> (r: Self)
        ensures
            r@ == Seq::<OverlayEntry>::empty(),
            unique_ids(r@),
    {
        OverlayStack { entries: Vec::new() }
    }
}

/// Returns the position of `id` in `v`, if registered.
fn find_index(v: &Vec<OverlayEntry>, id: &str) -> (r: Option<usize>)
    requires
        unique_ids(v@),
    ensures
        r.is_some() <==> contains_id(v@, id@),
        r.is_some() ==> r.unwrap() == index_of_id(v@, id@) && r.unwrap() < v.len(),
{
    let key = id.to_owned();
    let mut i: usize = 0;
    while i < v.len()
        invariant
            i <= v.len(),
            key@ == id@,
            unique_ids(v@),
            forall|j: int| 0 <= j < i ==> v@[j].id@ != id@,
        decreases v.len() - i,
    {
        if v[i].id == key {
            let ghost k = index_of_id(v@, id@);
            assert(v@[i as int].id@ == id@);
            assert(0 <= k < v.len() && v@[k as int].id@ == id@);
            proof {
                if k != i as int {
                    assert(v@[k].id@ != v@[i as int].id@);
                }
            }
            return Some(i);
        }
        i = i + 1;
    }
    None
}

/// Register an overlay on the stack.
///
/// The overlay is pushed to the top of the stack. If an overlay with the
/// same `id` is already registered, this is a no-op (idempotent).
pub fn push_overlay(stack: &mut OverlayStack, entry: OverlayEntry)
    ensures
        final(stack)@ == pushed(old(stack)@, entry),
        unique_ids(old(stack)@),
        unique_ids(final(stack)@),
{
    proof {
        use_type_invariant(&*stack);
    }
    let present = find_index(&stack.entries, entry.id.as_str());
    if present.is_none() {
        let ghost s = stack.entries@;
        assert forall|i: int, j: int|
            0 <= i < s.push(entry).len() && 0 <= j < s.push(entry).len() && i != j implies
            s.push(entry)[i].id@ != s.push(entry)[j].id@ by {
            if i == s.len() {
                assert(s[j].id@ != entry.id@);
            } else if j == s.len() {
                assert(s[i].id@ != entry.id@);
            }
        }
        let mut entries: Vec<OverlayEntry> = Vec::new();
        std::mem::swap(&mut entries, &mut stack.entries);
        entries.push(entry);
        stack.entries = entries;
    }
    proof {
        use_type_invariant(&*stack);
    }
}

/// Remove an overlay from the stack by ID.
///
/// Returns the removed entry, or `None` if no overlay with that ID was
/// registered. Supports out-of-order close: removal is by ID, not by
/// position.
pub fn remove_overlay(stack: &mut OverlayStack, id: &str) -> (r: Option<OverlayEntry>)
    ensures
        final(stack)@ == removed(old(stack)@, id@),
        r == (if contains_id(old(stack)@, id@) {
            Some(old(stack)@[index_of_id(old(stack)@, id@)])
        } else {
            None::<OverlayEntry>
        }),
        unique_ids(old(stack)@),
        unique_ids(final(stack)@),
{
    proof {
        use_type_invariant(&*stack);
    }
    match find_index(&stack.entries, id) {
        Some(pos) => {
            let ghost s = stack.entries@;
            assert forall|i: int, j: int|
                0 <= i < s.remove(pos as int).len() && 0 <= j < s.remove(pos as int).len() && i
                    != j implies s.remove(pos as int)[i].id@ != s.remove(pos as int)[j].id@ by {
                let ii = if i < pos { i } else { i + 1 };
                let jj = if j < pos { j } else { j + 1 };
                assert(s[ii].id@ != s[jj].id@);
            }
            let mut entries: Vec<OverlayEntry> = Vec::new();
            std::mem::swap(&mut entries, &mut stack.entries);
            let e = entries.remove(pos);
            stack.entries = entries;
            proof {
                use_type_invariant(&*stack);
            }
            Some(e)
        },
        None => None,
    }
}

/// Returns the topmost (most recently pushed) overlay entry, or `None` if
/// the stack is empty.
pub fn topmost_overlay(stack: &OverlayStack) -> (r: Option<OverlayEntry>)
    ensures
        r == (if stack@.len() == 0 {
            None::<OverlayEntry>
        } else {
            Some(stack@.last())
        }),
        unique_ids(stack@),
{
    proof {
        use_type_invariant(stack);
    }
    let n = stack.entries.len();
    if n == 0 {
        None
    } else {
        Some(stack.entries[n - 1].clone())
    }
}

/// Returns `true` if the given overlay ID is the topmost in the stack.
///
/// Returns `false` if the stack is empty or the ID is not registered.
pub fn is_topmost(stack: &OverlayStack, id: &str) -> (r: bool)
    ensures
        r == (stack@.len() > 0 && stack@.last().id@ == id@),
{
    let n = stack.entries.len();
    if n == 0 {
        false
    } else {
        let key = id.to_owned();
        stack.entries[n - 1].id == key
    }
}

/// Returns the current number of overlays in the stack.
pub fn overlay_count(stack: &OverlayStack) -> (r: usize)
    ensures
        r == stack@.len(),
        unique_ids(stack@),
{
    proof {
        use_type_invariant(stack);
    }
    stack.entries.len()
}

/// Returns `true` if the overlay with `child_id` is above the overlay with
/// `parent_id` in the stack.
///
/// Returns `false` if either ID is not registered, or if both IDs are the
/// same.
pub fn is_above(stack: &OverlayStack, child_id: &str, parent_id: &str) -> (r: bool)
    ensures
        r == above(stack@, child_id@, parent_id@),
        unique_ids(stack@),
{
    proof {
        use_type_invariant(stack);
    }
    let child = child_id.to_owned();
    let parent = parent_id.to_owned();
    if child == parent {
        return false;
    }
    let child_pos = find_index(&stack.entries, child_id);
    let parent_pos = find_index(&stack.entries, parent_id);
    match (child_pos, parent_pos) {
        (Some(c), Some(p)) => c > p,
        _ => false,
    }
}

/// Returns all overlay IDs that are above the given overlay ID in the
/// stack, nearest first.
///
/// Returns an empty `Vec` if the ID is the topmost overlay or is not
/// registered.
pub fn overlays_above(stack: &OverlayStack, id: &str) -> (r: Vec<String>)
    ensures
        r@.map_values(|s: String| s@) == ids_above(stack@, id@),
        unique_ids(stack@),
{
    proof {
        use_type_invariant(stack);
    }
    let mut out: Vec<String> = Vec::new();
    match find_index(&stack.entries, id) {
        None => {
            assert(out@.map_values(|s: String| s@) =~= Seq::<Seq<char>>::empty());
            out
        },
        Some(pos) => {
            let ghost s = stack.entries@;
            let ghost tail = s.subrange(pos + 1, s.len() as int);
            let mut i: usize = pos + 1;
            while i < stack.entries.len()
                invariant
                    pos < i <= stack.entries.len(),
                    s == stack.entries@,
                    tail == s.subrange(pos + 1, s.len() as int),
                    out@.map_values(|x: String| x@) =~= ids_of(tail).take(i - pos - 1),
                decreases stack.entries.len() - i,
            {
                let id_copy = stack.entries[i].id.clone();
                out.push(id_copy);
                assert(ids_of(tail).take(i - pos) =~= ids_of(tail).take(i - pos - 1).push(
                    s[i as int].id@,
                ));
                i = i + 1;
            }
            assert(ids_of(tail).take(s.len() - pos - 1) =~= ids_of(tail));
            out
        },
    }
}

/// Reset the overlay stack, removing all entries.
///
/// Intended for tests and application-level teardown (e.g. full-page
/// navigation in a single-page application).
pub fn reset_overlay_stack(stack: &mut OverlayStack)
    ensures
        final(stack)@ == Seq::<OverlayEntry>::empty(),
        unique_ids(final(stack)@),
{
    stack.entries = Vec::new();
}

/// Registering a new overlay and then deregistering it by its identifier
/// gives back exactly that entry and the stack as it was; while registered
/// it is the topmost overlay.
pub proof fn law_push_then_remove(s: Seq<OverlayEntry>, e: OverlayEntry)
    requires
        unique_ids(s),
        !contains_id(s, e.id@),
    ensures
        pushed(s, e).last() == e,
        contains_id(pushed(s, e), e.id@),
        pushed(s, e)[index_of_id(pushed(s, e), e.id@)] == e,
        removed(pushed(s, e), e.id@) == s,
{
    let t = s.push(e);
    assert(t[s.len() as int].id@ == e.id@);
    let k = index_of_id(t, e.id@);
    if k != s.len() {
        assert(s[k].id@ == e.id@);
    }
    assert(t.remove(s.len() as int) =~= s);
}

/// A newly registered overlay is stacked above every overlay registered
/// before it (it becomes the topmost).
pub proof fn law_push_is_above_all(s: Seq<OverlayEntry>, e: OverlayEntry, x: Seq<char>)
    requires
        unique_ids(s),
        !contains_id(s, e.id@),
        contains_id(s, x),
    ensures
        above(pushed(s, e), e.id@, x),
{
    let t = s.push(e);
    let n = s.len() as int;
    assert(t[n].id@ == e.id@);
    let ke = index_of_id(t, e.id@);
    if ke != n {
        assert(s[ke].id@ == e.id@);
    }
    let kx = index_of_id(s, x);
    assert(t[kx].id@ == x);
    let tx = index_of_id(t, x);
    if tx == n {
        assert(s[kx].id@ == e.id@);
    }
}

/// Registering an overlay whose identifier is already registered changes
/// nothing.
pub proof fn law_push_idempotent(s: Seq<OverlayEntry>, e: OverlayEntry, f: OverlayEntry)
    requires
        f.id@ == e.id@,
    ensures
        pushed(pushed(s, e), f) == pushed(s, e),
{
    if !contains_id(s, e.id@) {
        assert(s.push(e)[s.len() as int].id@ == f.id@);
    }
}

/// Registration and deregistration keep identifiers unique.
pub proof fn law_ops_keep_ids_unique(s: Seq<OverlayEntry>, e: OverlayEntry, id: Seq<char>)
    requires
        unique_ids(s),
    ensures
        unique_ids(pushed(s, e)),
        unique_ids(removed(s, id)),
{
    if !contains_id(s, e.id@) {
        let t = s.push(e);
        assert forall|i: int, j: int| 0 <= i < t.len() && 0 <= j < t.len() && i != j implies t[i].id@
            != t[j].id@ by {
            if i == s.len() {
                assert(s[j].id@ != e.id@);
            } else if j == s.len() {
                assert(s[i].id@ != e.id@);
            }
        }
    }
    if contains_id(s, id) {
        let k = index_of_id(s, id);
        let t = s.remove(k);
        assert forall|i: int, j: int| 0 <= i < t.len() && 0 <= j < t.len() && i != j implies t[i].id@
            != t[j].id@ by {
            let ii = if i < k { i } else { i + 1 };
            let jj = if j < k { j } else { j + 1 };
            assert(s[ii].id@ != s[jj].id@);
        }
    }
}

/// "Above" is a strict order on registered overlays: never reflexive,
/// never both ways, and transitive.
pub proof fn law_above_is_strict_order(
    s: Seq<OverlayEntry>,
    a: Seq<char>,
    b: Seq<char>,
    c: Seq<char>,
)
    ensures
        !above(s, a, a),
        above(s, a, b) ==> !above(s, b, a),
        above(s, a, b) && above(s, b, c) ==> above(s, a, c),
{
    if above(s, a, b) && above(s, b, c) {
        let ia = index_of_id(s, a);
        let ic = index_of_id(s, c);
        if a == c {
            assert(ia == ic);
        }
    }
}

/// Deregistering an overlay (in any order) keeps the relative stacking of
/// every other pair of overlays.
pub proof fn law_remove_keeps_relative_order(
    s: Seq<OverlayEntry>,
    x: Seq<char>,
    a: Seq<char>,
    b: Seq<char>,
)
    requires
        unique_ids(s),
        x != a,
        x != b,
    ensures
        above(removed(s, x), a, b) == above(s, a, b),
{
    if contains_id(s, x) {
        let k = index_of_id(s, x);
        let t = s.remove(k);
        // Every identifier other than `x` keeps its entry, shifted down past `k`.
        assert forall|y: Seq<char>| y != x implies (contains_id(t, y) == contains_id(s, y)) && (
        contains_id(s, y) ==> index_of_id(t, y) == (if index_of_id(s, y) < k {
            index_of_id(s, y)
        } else {
            index_of_id(s, y) - 1
        })) by {
            if contains_id(s, y) {
                let iy = index_of_id(s, y);
                assert(iy != k);
                let jy = if iy < k { iy } else { iy - 1 };
                assert(t[jy].id@ == y);
                let ty = index_of_id(t, y);
                let sy = if ty < k { ty } else { ty + 1 };
                assert(s[sy].id@ == y);
                if sy != iy {
                    assert(s[sy].id@ != s[iy].id@);
                }
            }
            if contains_id(t, y) {
                let ty = index_of_id(t, y);
                let sy = if ty < k { ty } else { ty + 1 };
                assert(s[sy].id@ == y);
            }
        }
    }
}

/// The identifiers reported above `id` are exactly those of the overlays
/// that stand above it.
pub proof fn law_ids_above_are_the_overlays_above(s: Seq<OverlayEntry>, id: Seq<char>, x: Seq<char>)
    requires
        unique_ids(s),
    ensures
        ids_above(s, id).contains(x) == above(s, x, id),
{
    if contains_id(s, id) {
        let k = index_of_id(s, id);
        let tail = s.subrange(k + 1, s.len() as int);
        if ids_above(s, id).contains(x) {
            let m = choose|m: int| 0 <= m < ids_of(tail).len() && ids_of(tail)[m] == x;
            assert(s[k + 1 + m].id@ == x);
            let ix = index_of_id(s, x);
            if ix != k + 1 + m {
                assert(s[ix].id@ != s[k + 1 + m].id@);
            }
            if x == id {
                assert(s[k].id@ != s[k + 1 + m].id@);
            }
        }
        if above(s, x, id) {
            let ix = index_of_id(s, x);
            assert(ids_of(tail)[ix - k - 1] == x);
        }
    }
}

} // verus!
