//! Focus-scope decisions and focus bookkeeping.
//!
//! A focus scope bounds keyboard focus to a container (dialogs, menus):
//! Tab and Shift+Tab wrap at the scope's edges, and on deactivation focus
//! returns to the element that had it before (or a fallback). The DOM
//! queries and focus calls are made by the browser front end; this module
//! decides what they should be and keeps the scope's state.
use crate::text::str_equals;
use vstd::prelude::*;

verus! {

/// CSS selector for focusable candidate elements, before visibility and
/// inert-state filtering. It includes elements with an explicit
/// `tabindex` (including `-1`), so it also finds programmatically
/// focusable elements that are not tabbable.
pub const FOCUSABLE_SELECTOR: &'static str = "button:not([disabled]):not([aria-hidden='true']),input:not([disabled]):not([aria-hidden='true']),select:not([disabled]):not([aria-hidden='true']),textarea:not([disabled]):not([aria-hidden='true']),a[href]:not([aria-hidden='true']),area[href]:not([aria-hidden='true']),[tabindex]:not([disabled]):not([aria-hidden='true']),[contenteditable]:not([contenteditable='false']):not([aria-hidden='true'])";

/// CSS selector for tabbable candidate elements, before visibility and
/// inert-state filtering. It excludes `tabindex="-1"` so the result maps to
/// the tab order.
pub const TABBABLE_SELECTOR: &'static str = "button:not([disabled]):not([tabindex='-1']):not([aria-hidden='true']),input:not([disabled]):not([tabindex='-1']):not([aria-hidden='true']),select:not([disabled]):not([tabindex='-1']):not([aria-hidden='true']),textarea:not([disabled]):not([tabindex='-1']):not([aria-hidden='true']),a[href]:not([tabindex='-1']):not([aria-hidden='true']),area[href]:not([tabindex='-1']):not([aria-hidden='true']),[tabindex]:not([tabindex='-1']):not([disabled]):not([aria-hidden='true']),[contenteditable]:not([contenteditable='false']):not([tabindex='-1']):not([aria-hidden='true'])";

/// Returns the raw selector string used to locate tabbable DOM candidates.
pub fn get_tabbable_elements_selector() -> (r: &'static str)
    ensures
        r@ == TABBABLE_SELECTOR@,
{
    TABBABLE_SELECTOR
}

/// A platform-agnostic reference to an element (its DOM ID), captured for
/// later focus restoration.
#[derive(Debug, PartialEq, Eq)]
pub struct FocusedElement(pub String);

impl Clone for FocusedElement {
    fn clone(&self) -> (r: Self)
        ensures
            r == *self,
    {
        FocusedElement(self.0.clone())
    }
}

/// Where focus goes when a scope that restores focus is deactivated.
#[derive(Clone, Copy, Debug, PartialEq, Eq, Structural)]
pub enum RestoreTarget {
    /// The element focused before the scope was activated.
    PreviouslyFocused,
    /// The parent of the scope's container.
    ContainerParent,
    /// The document body, as a last resort.
    Body,
}

/// What a Tab or Shift+Tab key press inside a scope should do.
#[derive(Clone, Copy, Debug, PartialEq, Eq, Structural)]
pub enum TabNavigationAction {
    /// Let the browser move focus.
    AllowBrowserDefault,
    /// Focus the container itself (the scope has nothing tabbable).
    FocusContainer,
    /// Wrap to the first tabbable element.
    FocusFirst,
    /// Wrap to the last tabbable element.
    FocusLast,
}

/// The element the scope should focus when it starts.
#[derive(Clone, Copy, Debug, PartialEq, Eq, Structural)]
pub enum FocusTarget {
    /// The first tabbable element.
    First,
    /// The last tabbable element.
    Last,
    /// The element marked with `data-ars-autofocus`, else the first.
    AutofocusMarked,
    /// The element that was focused when the scope last deactivated, else
    /// the first.
    PreviouslyActive,
}

/// Options controlling containment, restore and auto-focus behaviour.
#[derive(Clone, Copy, Debug, PartialEq, Eq, Structural)]
pub struct FocusScopeOptions {
    /// Keep Tab navigation inside the scope.
    pub contain: bool,
    /// Return focus to where it was when the scope deactivates.
    pub restore_focus: bool,
    /// Move focus into the scope when it activates.
    pub auto_focus: bool,
}

/// The restore-focus fallback chain: the previous element if it is still
/// valid, else the container's parent if there is one, else the body.
pub open spec fn restore_target_of(previous_is_valid: bool, has_container_parent: bool) -> RestoreTarget {
    if previous_is_valid {
        RestoreTarget::PreviouslyFocused
    } else if has_container_parent {
        RestoreTarget::ContainerParent
    } else {
        RestoreTarget::Body
    }
}

/// Chooses where focus goes when a scope deactivates.
pub fn resolve_restore_target(previous_is_valid: bool, has_container_parent: bool) -> (r:
    RestoreTarget)
    ensures
        r == restore_target_of(previous_is_valid, has_container_parent),
{
    if previous_is_valid {
        RestoreTarget::PreviouslyFocused
    } else if has_container_parent {
        RestoreTarget::ContainerParent
    } else {
        RestoreTarget::Body
    }
}

/// The Tab-containment rule: inactive or non-containing scopes leave Tab to
/// the browser; an empty scope focuses its container; otherwise Shift+Tab
/// on the first (or an unknown) element wraps to the last, Tab on the last
/// wraps to the first, Tab from an unknown element goes to the first, and
/// anything else is left to the browser.
pub open spec fn tab_navigation_of(
    active: bool,
    contain: bool,
    tabbable_count: usize,
    current_index: Option<usize>,
    shift: bool,
) -> TabNavigationAction {
    if !active || !contain {
        TabNavigationAction::AllowBrowserDefault
    } else if tabbable_count == 0 {
        TabNavigationAction::FocusContainer
    } else {
        match current_index {
            None => if shift {
                TabNavigationAction::FocusLast
            } else {
                TabNavigationAction::FocusFirst
            },
            Some(index) => if shift && index == 0 {
                TabNavigationAction::FocusLast
            } else if !shift && index + 1 == tabbable_count {
                TabNavigationAction::FocusFirst
            } else {
                TabNavigationAction::AllowBrowserDefault
            },
        }
    }
}

/// Decides what a Tab (`shift == false`) or Shift+Tab key press does in a
/// scope with `tabbable_count` tabbable elements, the focused one being at
/// `current_index` in tab order (`None` when focus is elsewhere).
pub fn resolve_tab_navigation(
    active: bool,
    contain: bool,
    tabbable_count: usize,
    current_index: Option<usize>,
    shift: bool,
) -> (r: TabNavigationAction)
    ensures
        r == tab_navigation_of(active, contain, tabbable_count, current_index, shift),
{
    if !active || !contain {
        return TabNavigationAction::AllowBrowserDefault;
    }
    if tabbable_count == 0 {
        return TabNavigationAction::FocusContainer;
    }
    match current_index {
        None => if shift {
            TabNavigationAction::FocusLast
        } else {
            TabNavigationAction::FocusFirst
        },
        Some(index) => if shift && index == 0 {
            TabNavigationAction::FocusLast
        } else if !shift && index == tabbable_count - 1 {
            TabNavigationAction::FocusFirst
        } else {
            TabNavigationAction::AllowBrowserDefault
        },
    }
}

/// Whether a navigation action overrides the browser (and so the key event
/// must be prevented).
pub fn prevents_default(action: TabNavigationAction) -> (r: bool)
    ensures
        r == (action != TabNavigationAction::AllowBrowserDefault),
{
    !matches!(action, TabNavigationAction::AllowBrowserDefault)
}

/// The element each scope's container had focused when it last
/// deactivated, by container ID.
#[derive(Debug)]
pub struct PreviouslyActiveElements {
    entries: Vec<(String, FocusedElement)>,
}

impl PreviouslyActiveElements {
    /// The recorded element ID for each container ID.
    pub closed spec fn view(&self) -> Map<Seq<char>, Seq<char>> {
        Map::new(
            |k: Seq<char>| exists|i: int| 0 <= i < self.entries@.len() && self.entries@[i].0@ == k,
            |k: Seq<char>|
                self.entries@[choose|i: int|
                    0 <= i < self.entries@.len() && self.entries@[i].0@ == k].1.0@,
        )
    }

    #[verifier::type_invariant]
    closed spec fn inv(&self) -> bool {
        forall|i: int, j: int|
            0 <= i < self.entries@.len() && 0 <= j < self.entries@.len() && i != j
                ==> self.entries@[i].0@ != self.entries@[j].0@
    }

    /// An empty record.
    pub fn new() -> (r: Self)
        ensures
            r@ == Map::<Seq<char>, Seq<char>>::empty(),
    {
        let r = PreviouslyActiveElements { entries: Vec::new() };
        assert(r@ =~= Map::<Seq<char>, Seq<char>>::empty());
        r
    }

    fn position(&self, container_id: &str) -> (r: Option<usize>)
        ensures
            match r {
                Some(i) => i < self.entries@.len() && self.entries@[i as int].0@ == container_id@,
                None => forall|i: int|
                    0 <= i < self.entries@.len() ==> self.entries@[i].0@ != container_id@,
            },
    {
        let mut i: usize = 0;
        while i < self.entries.len()
            invariant
                i <= self.entries.len(),
                forall|j: int| 0 <= j < i ==> self.entries@[j].0@ != container_id@,
            decreases self.entries.len() - i,
        {
            if str_equals(self.entries[i].0.as_str(), container_id) {
                return Some(i);
            }
            i = i + 1;
        }
        None
    }
}

/// Records `element` as the element last focused inside the scope whose
/// container is `container_id`, replacing any earlier record.
pub fn store_previously_active_element(
    elements: &mut PreviouslyActiveElements,
    container_id: &str,
    element: FocusedElement,
)
    ensures
        final(elements)@ == old(elements)@.insert(container_id@, element.0@),
{
    proof {
        use_type_invariant(&*elements);
    }
    let ghost before = elements.entries@;
    let pos = elements.position(container_id);
    let mut entries: Vec<(String, FocusedElement)> = Vec::new();
    std::mem::swap(&mut entries, &mut elements.entries);
    match pos {
        Some(i) => {
            entries.set(i, (container_id.to_owned(), element));
        },
        None => {
            entries.push((container_id.to_owned(), element));
        },
    }
    let ghost after = entries@;
    proof {
        assert forall|a: int, b: int|
            0 <= a < after.len() && 0 <= b < after.len() && a != b implies after[a].0@
            != after[b].0@ by {
            if a < before.len() && b < before.len() {
                if pos != Some(a as usize) && pos != Some(b as usize) {
                    assert(before[a].0@ != before[b].0@);
                }
                if pos == Some(a as usize) {
                    assert(before[a].0@ != before[b].0@);
                }
                if pos == Some(b as usize) {
                    assert(before[a].0@ != before[b].0@);
                }
            }
        }
    }
    elements.entries = entries;
    proof {
        let m = elements@;
        let expected = old(elements)@.insert(container_id@, element.0@);
        assert forall|k: Seq<char>| #[trigger] m.dom().contains(k) == expected.dom().contains(k) by {
            if expected.dom().contains(k) && k != container_id@ {
                let i = choose|i: int| 0 <= i < before.len() && before[i].0@ == k;
                assert(after[i].0@ == k);
            }
            if m.dom().contains(k) {
                let i = choose|i: int| 0 <= i < after.len() && after[i].0@ == k;
                if k != container_id@ {
                    assert(before[i].0@ == k);
                }
            }
            if k == container_id@ {
                match pos {
                    Some(i) => assert(after[i as int].0@ == k),
                    None => assert(after[before.len() as int].0@ == k),
                }
            }
        }
        assert forall|k: Seq<char>| #[trigger] m.dom().contains(k) implies m[k] == expected[k] by {
            let i = choose|i: int| 0 <= i < after.len() && after[i].0@ == k;
            if k == container_id@ {
                match pos {
                    Some(p) => {
                        if i != p as int {
                            assert(after[i].0@ != after[p as int].0@);
                        }
                    },
                    None => {
                        if i != before.len() as int {
                            assert(before[i].0@ == k);
                        }
                    },
                }
            } else {
                assert(before[i].0@ == k);
                let j = choose|j: int| 0 <= j < before.len() && before[j].0@ == k;
                if i != j {
                    assert(before[i].0@ != before[j].0@);
                }
            }
        }
        assert(m =~= expected);
    }
}

/// The element last recorded for the scope whose container is
/// `container_id`, if any.
pub fn get_previously_active_element(elements: &PreviouslyActiveElements, container_id: &str) -> (r:
    Option<FocusedElement>)
    ensures
        r.is_some() == elements@.dom().contains(container_id@),
        r.is_some() ==> r.unwrap().0@ == elements@[container_id@],
{
    proof {
        use_type_invariant(elements);
    }
    match elements.position(container_id) {
        Some(i) => {
            proof {
                let e = elements.entries@;
                let j = choose|j: int| 0 <= j < e.len() && e[j].0@ == container_id@;
                if j != i as int {
                    assert(e[j].0@ != e[i as int].0@);
                }
            }
            Some(elements.entries[i].1.clone())
        },
        None => None,
    }
}

/// Reading the record of a scope gives back the element last stored for
/// it, and storing for one scope leaves every other scope's record as it
/// was.
pub proof fn law_store_then_get(
    m: Map<Seq<char>, Seq<char>>,
    container: Seq<char>,
    element: Seq<char>,
    other: Seq<char>,
)
    requires
        other != container,
    ensures
        m.insert(container, element).dom().contains(container),
        m.insert(container, element)[container] == element,
        m.insert(container, element).dom().contains(other) == m.dom().contains(other),
        m.dom().contains(other) ==> m.insert(container, element)[other] == m[other],
{
}

/// What the front end does to put focus in place when a scope starts.
#[derive(Debug, PartialEq, Eq)]
pub enum FocusFirstStep {
    /// Focus the last tabbable element, else the container.
    FocusLast,
    /// Focus the element marked `data-ars-autofocus` if it is focusable,
    /// else the first tabbable element, else the container.
    FocusAutofocusMarked,
    /// Focus this recorded element if it is still inside the container,
    /// else the first tabbable element, else the container.
    FocusRecorded(FocusedElement),
    /// Focus the first tabbable element, else the container.
    FocusFirst,
}

/// The state of a focus scope bounding a container element.
#[derive(Debug, PartialEq, Eq)]
pub struct FocusScope {
    options: FocusScopeOptions,
    previously_focused: Option<FocusedElement>,
    active: bool,
    container_id: String,
}

impl FocusScope {
    /// The scope's options.
    pub closed spec fn spec_options(&self) -> FocusScopeOptions {
        self.options
    }

    /// The element that had focus when the scope was activated.
    pub closed spec fn spec_previously_focused(&self) -> Option<FocusedElement> {
        self.previously_focused
    }

    /// Whether the scope is active.
    pub closed spec fn spec_active(&self) -> bool {
        self.active
    }

    /// The ID of the container element bounding the scope.
    pub closed spec fn spec_container_id(&self) -> Seq<char> {
        self.container_id@
    }

    /// No element is remembered while the scope is inactive.
    #[verifier::type_invariant]
    closed spec fn idle_forgets(&self) -> bool {
        !self.active ==> self.previously_focused is None
    }

    /// An inactive scope remembers no element (true of every scope).
    pub open spec fn remembers_only_while_active(self) -> bool {
        !self.spec_active() ==> self.spec_previously_focused() is None
    }

    /// The scope after activation with `current` focused: an active scope
    /// is unchanged, an inactive one becomes active and remembers
    /// `current`.
    pub closed spec fn activated(self, current: Option<FocusedElement>) -> FocusScope {
        if self.active {
            self
        } else {
            FocusScope {
                options: self.options,
                previously_focused: current,
                active: true,
                container_id: self.container_id,
            }
        }
    }

    /// The scope after deactivation: an inactive scope is unchanged, an
    /// active one becomes inactive and forgets the remembered element.
    pub closed spec fn deactivated(self) -> FocusScope {
        if !self.active {
            self
        } else {
            FocusScope {
                options: self.options,
                previously_focused: None,
                active: false,
                container_id: self.container_id,
            }
        }
    }

    /// Where deactivation restores focus (with the remembered element), when
    /// the scope is active and restores focus.
    pub open spec fn restore_result(self, previous_connected: bool, container_has_parent: bool) -> Option<
        (RestoreTarget, Option<FocusedElement>),
    > {
        if self.spec_active() && self.spec_options().restore_focus {
            Some(
                (
                    restore_target_of(
                        previous_is_valid(self.spec_previously_focused(), previous_connected),
                        container_has_parent,
                    ),
                    self.spec_previously_focused(),
                ),
            )
        } else {
            None
        }
    }

    /// Creates an inactive focus scope bounded by the element with ID
    /// `container_id`.
    pub fn new(container_id: &str, options: FocusScopeOptions) -> (r: Self)
        ensures
            r.spec_options() == options,
            r.spec_previously_focused() is None,
            !r.spec_active(),
            r.spec_container_id() == container_id@,
            r.remembers_only_while_active(),
    {
        FocusScope {
            options,
            previously_focused: None,
            active: false,
            container_id: container_id.to_owned(),
        }
    }

    /// The scope's options.
    pub fn options(&self) -> (r: FocusScopeOptions)
        ensures
            r == self.spec_options(),
    {
        self.options
    }

    /// Whether the scope is currently active.
    pub fn is_active(&self) -> (r: bool)
        ensures
            r == self.spec_active(),
            self.remembers_only_while_active(),
    {
        proof {
            use_type_invariant(self);
        }
        self.active
    }

    /// The ID of the container element bounding the scope.
    pub fn container_id(&self) -> (r: &str)
        ensures
            r@ == self.spec_container_id(),
    {
        self.container_id.as_str()
    }

    /// The element that had focus when the scope was activated, if any.
    pub fn previously_focused(&self) -> (r: Option<FocusedElement>)
        ensures
            r == self.spec_previously_focused(),
            self.remembers_only_while_active(),
    {
        proof {
            use_type_invariant(self);
        }
        match &self.previously_focused {
            Some(e) => Some(e.clone()),
            None => None,
        }
    }

    /// Activates the scope. `currently_focused` is the element that has
    /// focus now; it is remembered for restoration. Returns the target to
    /// move focus to when the scope auto-focuses; activating an active
    /// scope does nothing.
    pub fn activate(&mut self, focus_target: FocusTarget, currently_focused: Option<FocusedElement>) -> (r:
        Option<FocusTarget>)
        ensures
            *final(self) == old(self).activated(currently_focused),
            old(self).spec_active() ==> *final(self) == *old(self) && r is None,
            !old(self).spec_active() ==> {
                &&& final(self).spec_active()
                &&& final(self).spec_previously_focused() == currently_focused
                &&& final(self).spec_options() == old(self).spec_options()
                &&& final(self).spec_container_id() == old(self).spec_container_id()
                &&& r == (if old(self).spec_options().auto_focus {
                    Some(focus_target)
                } else {
                    None
                })
            },
            old(self).remembers_only_while_active(),
            final(self).remembers_only_while_active(),
    {
        proof {
            use_type_invariant(&*self);
        }
        if self.active {
            return None;
        }
        self.active = true;
        self.previously_focused = currently_focused;
        if self.options.auto_focus {
            Some(focus_target)
        } else {
            None
        }
    }

    /// Deactivates the scope.
    ///
    /// `focused_within` is the currently focused element if it lies inside
    /// the container; it is recorded in `elements` for a later
    /// [`FocusTarget::PreviouslyActive`]. `previous_connected` tells whether
    /// the remembered element is still in the document and
    /// `container_has_parent` whether the container has a parent element.
    /// Returns where focus should be restored (with the remembered element)
    /// when the scope restores focus; deactivating an inactive scope does
    /// nothing.
    pub fn deactivate(
        &mut self,
        elements: &mut PreviouslyActiveElements,
        focused_within: Option<FocusedElement>,
        previous_connected: bool,
        container_has_parent: bool,
    ) -> (r: Option<(RestoreTarget, Option<FocusedElement>)>)
        ensures
            *final(self) == old(self).deactivated(),
            r == old(self).restore_result(previous_connected, container_has_parent),
            !old(self).spec_active() ==> *final(self) == *old(self) && final(elements)@ == old(
                elements,
            )@ && r is None,
            old(self).spec_active() ==> {
                &&& !final(self).spec_active()
                &&& final(self).spec_previously_focused() is None
                &&& final(self).spec_options() == old(self).spec_options()
                &&& final(self).spec_container_id() == old(self).spec_container_id()
                &&& final(elements)@ == match focused_within {
                    Some(e) => old(elements)@.insert(old(self).spec_container_id(), e.0@),
                    None => old(elements)@,
                }
                &&& r == if old(self).spec_options().restore_focus {
                    Some(
                        (
                            restore_target_of(
                                previous_is_valid(old(self).spec_previously_focused(), previous_connected),
                                container_has_parent,
                            ),
                            old(self).spec_previously_focused(),
                        ),
                    )
                } else {
                    None
                }
            },
            old(self).remembers_only_while_active(),
            final(self).remembers_only_while_active(),
    {
        proof {
            use_type_invariant(&*self);
        }
        if !self.active {
            return None;
        }
        match focused_within {
            Some(e) => store_previously_active_element(elements, self.container_id.as_str(), e),
            None => {},
        }
        let mut previous: Option<FocusedElement> = None;
        std::mem::swap(&mut previous, &mut self.previously_focused);
        self.active = false;
        if self.options.restore_focus {
            let valid = match &previous {
                Some(p) => !p.0.as_str().is_empty() && previous_connected,
                None => false,
            };
            let target = resolve_restore_target(valid, container_has_parent);
            Some((target, previous))
        } else {
            None
        }
    }

    /// Decides what a Tab (`shift == false`) or Shift+Tab press does, given
    /// the scope's `tabbable_count` tabbable elements and the tab-order
    /// position of the focused one.
    pub fn handle_tab_key(&self, shift: bool, tabbable_count: usize, current_index: Option<usize>) -> (r:
        TabNavigationAction)
        ensures
            r == tab_navigation_of(
                self.spec_active(),
                self.spec_options().contain,
                tabbable_count,
                current_index,
                shift,
            ),
    {
        resolve_tab_navigation(self.active, self.options.contain, tabbable_count, current_index, shift)
    }

    /// The first step of moving focus to `target` inside the scope, using
    /// the record in `elements` for [`FocusTarget::PreviouslyActive`].
    pub fn focus_first(&self, target: FocusTarget, elements: &PreviouslyActiveElements) -> (r:
        FocusFirstStep)
        ensures
            match target {
                FocusTarget::Last => r == FocusFirstStep::FocusLast,
                FocusTarget::AutofocusMarked => r == FocusFirstStep::FocusAutofocusMarked,
                FocusTarget::First => r == FocusFirstStep::FocusFirst,
                FocusTarget::PreviouslyActive => if elements@.dom().contains(
                    self.spec_container_id(),
                ) {
                    r matches FocusFirstStep::FocusRecorded(e) && e.0@ == elements@[self.spec_container_id()]
                } else {
                    r == FocusFirstStep::FocusFirst
                },
            },
    {
        match target {
            FocusTarget::Last => FocusFirstStep::FocusLast,
            FocusTarget::AutofocusMarked => FocusFirstStep::FocusAutofocusMarked,
            FocusTarget::First => FocusFirstStep::FocusFirst,
            FocusTarget::PreviouslyActive => match get_previously_active_element(
                elements,
                self.container_id.as_str(),
            ) {
                Some(e) => FocusFirstStep::FocusRecorded(e),
                None => FocusFirstStep::FocusFirst,
            },
        }
    }

    /// The focus move for the scope's last element: the last tabbable
    /// element when there is one, else the container itself.
    pub fn focus_last(&self, has_tabbable: bool) -> (r: FocusMove)
        ensures
            r == focus_move_of(FocusFirstStep::FocusLast, has_tabbable, false, false),
    {
        resolve_focus_step(FocusFirstStep::FocusLast, has_tabbable, false, false)
    }
}

/// The focus move that puts focus in place.
#[derive(Debug, PartialEq, Eq)]
pub enum FocusMove {
    /// Focus the first tabbable element of the container.
    FirstTabbable,
    /// Focus the last tabbable element of the container.
    LastTabbable,
    /// Focus the element marked `data-ars-autofocus`.
    Marked,
    /// Focus this recorded element.
    Recorded(FocusedElement),
    /// Focus the container itself: it holds nothing tabbable.
    Container,
}

/// The fallback of every step: the first tabbable element when there is
/// one, else the container.
pub open spec fn first_or_container(has_tabbable: bool) -> FocusMove {
    if has_tabbable {
        FocusMove::FirstTabbable
    } else {
        FocusMove::Container
    }
}

/// The move for a step, given whether the container holds a tabbable
/// element, whether the marked element is focusable, and whether the
/// recorded element is still inside the container.
pub open spec fn focus_move_of(
    step: FocusFirstStep,
    has_tabbable: bool,
    marked_focusable: bool,
    recorded_inside: bool,
) -> FocusMove {
    match step {
        FocusFirstStep::FocusLast => if has_tabbable {
            FocusMove::LastTabbable
        } else {
            FocusMove::Container
        },
        FocusFirstStep::FocusAutofocusMarked => if marked_focusable {
            FocusMove::Marked
        } else {
            first_or_container(has_tabbable)
        },
        FocusFirstStep::FocusRecorded(e) => if recorded_inside {
            FocusMove::Recorded(e)
        } else {
            first_or_container(has_tabbable)
        },
        FocusFirstStep::FocusFirst => first_or_container(has_tabbable),
    }
}

/// Resolves a focus step into the move to make, falling back to the first
/// tabbable element and then to the container.
pub fn resolve_focus_step(
    step: FocusFirstStep,
    has_tabbable: bool,
    marked_focusable: bool,
    recorded_inside: bool,
) -> (r: FocusMove)
    ensures
        r == focus_move_of(step, has_tabbable, marked_focusable, recorded_inside),
{
    let fallback = if has_tabbable {
        FocusMove::FirstTabbable
    } else {
        FocusMove::Container
    };
    match step {
        FocusFirstStep::FocusLast => if has_tabbable {
            FocusMove::LastTabbable
        } else {
            FocusMove::Container
        },
        FocusFirstStep::FocusAutofocusMarked => if marked_focusable {
            FocusMove::Marked
        } else {
            fallback
        },
        FocusFirstStep::FocusRecorded(e) => if recorded_inside {
            FocusMove::Recorded(e)
        } else {
            fallback
        },
        FocusFirstStep::FocusFirst => fallback,
    }
}

/// A remembered element is a valid restore target when it has an ID and is
/// still connected to the document.
pub open spec fn previous_is_valid(previous: Option<FocusedElement>, connected: bool) -> bool {
    match previous {
        Some(p) => p.0@.len() > 0 && connected,
        None => false,
    }
}

/// Activation followed by deactivation returns an idle scope (inactive,
/// nothing remembered, as every new or deactivated scope is) to exactly
/// its former state, and a scope that restores focus hands back the
/// element that was focused at activation, as the restore target whenever
/// that element is still valid.
pub proof fn law_activate_deactivate_round_trip(
    s: FocusScope,
    focused: Option<FocusedElement>,
    connected: bool,
    has_parent: bool,
)
    requires
        !s.spec_active(),
        s.spec_previously_focused() is None,
    ensures
        s.activated(focused).deactivated() == s,
        s.activated(focused).restore_result(connected, has_parent) == (if s.spec_options().restore_focus {
            Some((restore_target_of(previous_is_valid(focused, connected), has_parent), focused))
        } else {
            None
        }),
        s.spec_options().restore_focus && previous_is_valid(focused, connected) ==> s.activated(
            focused,
        ).restore_result(connected, has_parent) == Some((RestoreTarget::PreviouslyFocused, focused)),
{
}

/// Tab containment does wrap at the edges: in an active containing scope
/// with at least one tabbable element, Tab from the last element (or from
/// outside the tab order) goes to the first element, Shift+Tab from the
/// first element (or from outside) goes to the last, and a press strictly
/// inside the order is left to the browser. An empty scope keeps focus on
/// its container.
pub proof fn law_tab_wraps_at_edges(count: usize, current: Option<usize>, shift: bool)
    ensures
        count == 0 ==> tab_navigation_of(true, true, count, current, shift)
            == TabNavigationAction::FocusContainer,
        count > 0 && !shift && (current is None || current.unwrap() + 1 == count)
            ==> tab_navigation_of(true, true, count, current, shift)
            == TabNavigationAction::FocusFirst,
        count > 0 && shift && (current is None || current.unwrap() == 0) ==> tab_navigation_of(
            true,
            true,
            count,
            current,
            shift,
        ) == TabNavigationAction::FocusLast,
        current is Some && 0 < current.unwrap() && current.unwrap() + 1 < count
            ==> tab_navigation_of(true, true, count, current, shift)
            == TabNavigationAction::AllowBrowserDefault,
{
}

/// Tab containment only ever wraps at the edges: inside an active
/// containing scope with at least one tabbable element, Tab moves focus by
/// itself only from the last element (or from outside), Shift+Tab only from
/// the first (or from outside), and a scope that does not contain never
/// overrides the browser.
pub proof fn law_tab_wraps_only_at_edges(
    active: bool,
    contain: bool,
    count: usize,
    current: Option<usize>,
    shift: bool,
)
    ensures
        !active || !contain ==> tab_navigation_of(active, contain, count, current, shift)
            == TabNavigationAction::AllowBrowserDefault,
        tab_navigation_of(active, contain, count, current, shift) == TabNavigationAction::FocusFirst
            ==> !shift && (current is None || current.unwrap() + 1 == count),
        tab_navigation_of(active, contain, count, current, shift) == TabNavigationAction::FocusLast
            ==> shift && (current is None || current.unwrap() == 0),
        tab_navigation_of(active, contain, count, current, shift)
            == TabNavigationAction::FocusContainer ==> count == 0,
{
}

/// One element on the path from a focus candidate up to the root, with
/// the attributes that can take focusability away from its descendants.
#[derive(Debug)]
pub struct AncestorFacts {
    /// Upper-case tag name (`DETAILS`, `DIV`, ...).
    pub tag_name: String,
    /// The element carries the `inert` attribute.
    pub inert: bool,
    /// The element's `aria-hidden` attribute, when present.
    pub aria_hidden: Option<String>,
    /// The element carries the `open` attribute.
    pub open: bool,
}

/// What the focusability rule reads of a candidate element.
#[derive(Debug)]
pub struct FocusCandidate {
    /// The element is connected to the document.
    pub connected: bool,
    /// The computed `display` and `visibility`, or `None` when no computed
    /// style is available.
    pub computed_style: Option<(String, String)>,
    /// The element itself, then each ancestor up to the root.
    pub path: Vec<AncestorFacts>,
    /// The element carries the `disabled` attribute.
    pub disabled: bool,
    /// The element carries a `tabindex` attribute.
    pub has_tabindex: bool,
    /// Upper-case tag name of the element.
    pub tag_name: String,
    /// The element carries an `href` attribute.
    pub has_href: bool,
    /// The element's `contenteditable` attribute, when present.
    pub contenteditable: Option<String>,
}

/// Hidden: no computed style, `display: none` or `visibility: hidden`.
pub open spec fn hidden_by_style(style: Option<(String, String)>) -> bool {
    match style {
        None => true,
        Some((display, visibility)) => display@ == "none"@ || visibility@ == "hidden"@,
    }
}

/// Some element of the path is `inert`.
pub open spec fn path_has_inert(path: Seq<AncestorFacts>) -> bool {
    exists|i: int| 0 <= i < path.len() && #[trigger] path[i].inert
}

/// `aria-hidden="true"` on the element or one of its ancestors.
pub open spec fn aria_hidden_true(f: AncestorFacts) -> bool {
    match f.aria_hidden {
        Some(v) => v@ == "true"@,
        None => false,
    }
}

/// Some element of the path has `aria-hidden="true"`.
pub open spec fn path_has_aria_hidden(path: Seq<AncestorFacts>) -> bool {
    exists|i: int| 0 <= i < path.len() && #[trigger] aria_hidden_true(path[i])
}

/// A closed `<details>` element.
pub open spec fn closed_details(f: AncestorFacts) -> bool {
    f.tag_name@ == "DETAILS"@ && !f.open
}

/// Some strict ancestor (not the element itself) is a closed `<details>`.
pub open spec fn inside_closed_details(path: Seq<AncestorFacts>) -> bool {
    exists|i: int| 1 <= i < path.len() && #[trigger] closed_details(path[i])
}

/// Focusable by its own kind: a `tabindex`, a form control, a link or area
/// with `href`, or any other element that is `contenteditable` (not
/// `"false"`).
pub open spec fn focusable_kind(c: FocusCandidate) -> bool {
    if c.has_tabindex {
        true
    } else if c.tag_name@ == "BUTTON"@ || c.tag_name@ == "INPUT"@ || c.tag_name@ == "SELECT"@
        || c.tag_name@ == "TEXTAREA"@ {
        true
    } else if c.tag_name@ == "A"@ || c.tag_name@ == "AREA"@ {
        c.has_href
    } else {
        match c.contenteditable {
            Some(v) => v@ != "false"@,
            None => false,
        }
    }
}

/// The focusability rule: connected, shown, not inert, not aria-hidden,
/// not inside a closed `<details>`, not disabled, and focusable by kind.
pub open spec fn is_focusable_spec(c: FocusCandidate) -> bool {
    &&& c.connected
    &&& !hidden_by_style(c.computed_style)
    &&& !path_has_inert(c.path@)
    &&& !path_has_aria_hidden(c.path@)
    &&& !inside_closed_details(c.path@)
    &&& !c.disabled
    &&& focusable_kind(c)
}

fn style_hides(style: &Option<(String, String)>) -> (r: bool)
    ensures
        r == hidden_by_style(*style),
{
    match style {
        None => true,
        Some((display, visibility)) => str_equals(display.as_str(), "none") || str_equals(
            visibility.as_str(),
            "hidden",
        ),
    }
}

fn has_aria_hidden_true(f: &AncestorFacts) -> (r: bool)
    ensures
        r == aria_hidden_true(*f),
{
    match &f.aria_hidden {
        Some(v) => str_equals(v.as_str(), "true"),
        None => false,
    }
}

/// Scans the path for `inert`, `aria-hidden="true"` and a closed
/// `<details>` above the element.
fn scan_path(path: &Vec<AncestorFacts>) -> (r: (bool, bool, bool))
    ensures
        r.0 == path_has_inert(path@),
        r.1 == path_has_aria_hidden(path@),
        r.2 == inside_closed_details(path@),
{
    let mut inert = false;
    let mut aria = false;
    let mut details = false;
    let mut i: usize = 0;
    while i < path.len()
        invariant
            i <= path.len(),
            inert == (exists|j: int| 0 <= j < i && #[trigger] path@[j].inert),
            aria == (exists|j: int| 0 <= j < i && #[trigger] aria_hidden_true(path@[j])),
            details == (exists|j: int| 1 <= j < i && #[trigger] closed_details(path@[j])),
        decreases path.len() - i,
    {
        let f = &path[i];
        if f.inert {
            inert = true;
        }
        if has_aria_hidden_true(f) {
            aria = true;
        }
        if i >= 1 && str_equals(f.tag_name.as_str(), "DETAILS") && !f.open {
            details = true;
        }
        proof {
            assert(path@[i as int] == *f);
            if details && i >= 1 {
                assert(closed_details(path@[i as int]) || (exists|j: int|
                    1 <= j < i && #[trigger] closed_details(path@[j])));
            }
            if !inert {
                assert forall|j: int| 0 <= j < i + 1 implies !(#[trigger] path@[j].inert) by {
                    if j == i as int {
                        assert(path@[j] == *f);
                    }
                }
            }
            if !aria {
                assert forall|j: int| 0 <= j < i + 1 implies !(#[trigger] aria_hidden_true(
                    path@[j],
                )) by {
                    if j == i as int {
                        assert(path@[j] == *f);
                    }
                }
            }
            if !details {
                assert forall|j: int| 1 <= j < i + 1 implies !(#[trigger] closed_details(
                    path@[j],
                )) by {
                    if j == i as int {
                        assert(path@[j] == *f);
                    }
                }
            }
        }
        i = i + 1;
    }
    (inert, aria, details)
}

/// Whether a candidate element can receive focus.
pub fn is_focusable(c: &FocusCandidate) -> (r: bool)
    ensures
        r == is_focusable_spec(*c),
{
    if !c.connected || style_hides(&c.computed_style) {
        return false;
    }
    let (inert, aria, details) = scan_path(&c.path);
    if inert || aria || details || c.disabled {
        return false;
    }
    if c.has_tabindex {
        return true;
    }
    let tag = c.tag_name.as_str();
    if str_equals(tag, "BUTTON") || str_equals(tag, "INPUT") || str_equals(tag, "SELECT")
        || str_equals(tag, "TEXTAREA") {
        return true;
    }
    if str_equals(tag, "A") || str_equals(tag, "AREA") {
        return c.has_href;
    }
    match &c.contenteditable {
        Some(v) => !str_equals(v.as_str(), "false"),
        None => false,
    }
}

/// The candidate is connected, shown by its computed style, and free of
/// every blocker on its path: no `inert`, no `aria-hidden="true"`, no
/// closed `<details>` above it, and not disabled.
pub open spec fn unblocked(c: FocusCandidate) -> bool {
    &&& c.connected
    &&& c.computed_style matches Some((d, v)) && d@ != "none"@ && v@ != "hidden"@
    &&& forall|i: int| 0 <= i < c.path@.len() ==> !(#[trigger] c.path@[i]).inert
    &&& forall|i: int|
        0 <= i < c.path@.len() ==> match (#[trigger] c.path@[i]).aria_hidden {
            Some(v) => v@ != "true"@,
            None => true,
        }
    &&& forall|i: int|
        1 <= i < c.path@.len() ==> !((#[trigger] c.path@[i]).tag_name@ == "DETAILS"@ && !c.path@[
            i
        ].open)
    &&& !c.disabled
}

/// Focusability by kind: an unblocked form control (`BUTTON`, `INPUT`,
/// `SELECT`, `TEXTAREA`) or an unblocked element with a `tabindex` is
/// focusable; an unblocked link or area without `tabindex` is focusable
/// exactly when it has an `href`; and a blocked candidate (disconnected,
/// hidden, disabled, inert, aria-hidden, or inside a closed `<details>`)
/// never is.
pub proof fn law_focusable_kinds(c: FocusCandidate)
    ensures
        unblocked(c) && (c.tag_name@ == "BUTTON"@ || c.tag_name@ == "INPUT"@ || c.tag_name@
            == "SELECT"@ || c.tag_name@ == "TEXTAREA"@) ==> is_focusable_spec(c),
        unblocked(c) && c.has_tabindex ==> is_focusable_spec(c),
        unblocked(c) && !c.has_tabindex && (c.tag_name@ == "A"@ || c.tag_name@ == "AREA"@) ==> (
        is_focusable_spec(c) == c.has_href),
        !c.connected || c.disabled || c.computed_style is None ==> !is_focusable_spec(c),
        (exists|i: int| 0 <= i < c.path@.len() && (#[trigger] c.path@[i]).inert)
            ==> !is_focusable_spec(c),
        (exists|i: int|
            0 <= i < c.path@.len() && (#[trigger] c.path@[i]).aria_hidden == Some(
                c.path@[i].aria_hidden.unwrap(),
            ) && c.path@[i].aria_hidden.unwrap()@ == "true"@) ==> !is_focusable_spec(c),
        (exists|i: int|
            1 <= i < c.path@.len() && (#[trigger] c.path@[i]).tag_name@ == "DETAILS"@
                && !c.path@[i].open) ==> !is_focusable_spec(c),
{
    reveal_strlit("A");
    reveal_strlit("AREA");
    reveal_strlit("BUTTON");
    reveal_strlit("INPUT");
    reveal_strlit("SELECT");
    reveal_strlit("TEXTAREA");
    if c.tag_name@ == "A"@ || c.tag_name@ == "AREA"@ {
        assert(c.tag_name@.len() == 1 || c.tag_name@.len() == 4);
        assert(c.tag_name@ != "BUTTON"@ && c.tag_name@ != "INPUT"@ && c.tag_name@ != "SELECT"@
            && c.tag_name@ != "TEXTAREA"@) by {
            assert("BUTTON"@.len() == 6);
            assert("INPUT"@.len() == 5);
            assert("SELECT"@.len() == 6);
            assert("TEXTAREA"@.len() == 8);
            if c.tag_name@ == "AREA"@ {
                assert(c.tag_name@[0] == 'A');
                assert("INPUT"@[0] == 'I');
            }
        }
    }
    if unblocked(c) {
        assert(!hidden_by_style(c.computed_style));
        assert(!path_has_inert(c.path@));
        assert(!path_has_aria_hidden(c.path@)) by {
            if path_has_aria_hidden(c.path@) {
                let i = choose|i: int| 0 <= i < c.path@.len() && #[trigger] aria_hidden_true(
                    c.path@[i],
                );
                assert(match c.path@[i].aria_hidden {
                    Some(v) => v@ != "true"@,
                    None => true,
                });
            }
        }
        assert(!inside_closed_details(c.path@)) by {
            if inside_closed_details(c.path@) {
                let i = choose|i: int| 1 <= i < c.path@.len() && #[trigger] closed_details(
                    c.path@[i],
                );
                assert(!(c.path@[i].tag_name@ == "DETAILS"@ && !c.path@[i].open));
            }
        }
    }
    if exists|i: int|
        0 <= i < c.path@.len() && (#[trigger] c.path@[i]).aria_hidden == Some(
            c.path@[i].aria_hidden.unwrap(),
        ) && c.path@[i].aria_hidden.unwrap()@ == "true"@ {
        let i = choose|i: int|
            0 <= i < c.path@.len() && (#[trigger] c.path@[i]).aria_hidden == Some(
                c.path@[i].aria_hidden.unwrap(),
            ) && c.path@[i].aria_hidden.unwrap()@ == "true"@;
        assert(aria_hidden_true(c.path@[i]));
    }
    if exists|i: int|
        1 <= i < c.path@.len() && (#[trigger] c.path@[i]).tag_name@ == "DETAILS"@
            && !c.path@[i].open {
        let i = choose|i: int|
            1 <= i < c.path@.len() && (#[trigger] c.path@[i]).tag_name@ == "DETAILS"@
                && !c.path@[i].open;
        assert(closed_details(c.path@[i]));
    }
}

/// A focusable candidate is tabbable when its `tabIndex` is not negative.
pub fn is_tabbable(c: &FocusCandidate, tab_index: i32) -> (r: bool)
    ensures
        r == (is_focusable_spec(*c) && tab_index >= 0),
{
    is_focusable(c) && tab_index >= 0
}

/// Positive `tabIndex` values come first in the tab order.
pub open spec fn tab_priority(t: i32) -> int {
    if t > 0 {
        0
    } else {
        1
    }
}

/// Whether the candidate at `a` comes before the one at `b` in the tab
/// order: positive `tabIndex` first, then by `tabIndex`, then in document
/// order.
pub open spec fn tab_before(ts: Seq<i32>, a: int, b: int) -> bool {
    ||| tab_priority(ts[a]) < tab_priority(ts[b])
    ||| tab_priority(ts[a]) == tab_priority(ts[b]) && ts[a] < ts[b]
    ||| tab_priority(ts[a]) == tab_priority(ts[b]) && ts[a] == ts[b] && a < b
}

fn comes_before(ts: &[i32], a: usize, b: usize) -> (r: bool)
    requires
        a < ts@.len(),
        b < ts@.len(),
    ensures
        r == tab_before(ts@, a as int, b as int),
{
    let pa: u8 = if ts[a] > 0 {
        0
    } else {
        1
    };
    let pb: u8 = if ts[b] > 0 {
        0
    } else {
        1
    };
    pa < pb || (pa == pb && ts[a] < ts[b]) || (pa == pb && ts[a] == ts[b] && a < b)
}

/// The tab order of candidates with `tabIndex` values `tab_indices` (in
/// document order): the candidate positions, each once, sorted with
/// positive `tabIndex` values first, then by `tabIndex`, then by document
/// position.
pub fn tab_order(tab_indices: &[i32]) -> (r: Vec<usize>)
    ensures
        r@.len() == tab_indices@.len(),
        forall|i: int| 0 <= i < r@.len() ==> r@[i] < tab_indices@.len(),
        forall|i: int, j: int| 0 <= i < j < r@.len() ==> r@[i] != r@[j],
        forall|i: int, j: int|
            0 <= i < j < r@.len() ==> tab_before(tab_indices@, r@[i] as int, r@[j] as int),
{
    let n = tab_indices.len();
    let mut order: Vec<usize> = Vec::new();
    let mut k: usize = 0;
    while k < n
        invariant
            n == tab_indices@.len(),
            k <= n,
            order@.len() == k,
            forall|i: int| 0 <= i < order@.len() ==> order@[i] < k,
            forall|i: int, j: int| 0 <= i < j < order@.len() ==> order@[i] != order@[j],
            forall|i: int, j: int|
                0 <= i < j < order@.len() ==> tab_before(
                    tab_indices@,
                    order@[i] as int,
                    order@[j] as int,
                ),
        decreases n - k,
    {
        let mut p: usize = 0;
        while p < order.len() && !comes_before(tab_indices, k, order[p])
            invariant
                n == tab_indices@.len(),
                k < n,
                p <= order@.len(),
                forall|i: int| 0 <= i < order@.len() ==> order@[i] < k,
                forall|i: int| 0 <= i < p ==> !tab_before(tab_indices@, k as int, order@[i] as int),
            decreases order@.len() - p,
        {
            p = p + 1;
        }
        let ghost before = order@;
        order.insert(p, k);
        proof {
            assert(order@ == before.insert(p as int, k));
            assert forall|i: int, j: int| 0 <= i < j < order@.len() implies tab_before(
                tab_indices@,
                order@[i] as int,
                order@[j] as int,
            ) by {
                if j == p as int {
                    assert(!tab_before(tab_indices@, k as int, before[i] as int));
                } else if i == p as int {
                    assert(tab_before(tab_indices@, k as int, before[p as int] as int));
                    if j - 1 > p as int {
                        assert(tab_before(
                            tab_indices@,
                            before[p as int] as int,
                            before[j - 1] as int,
                        ));
                    }
                } else if i < p as int && j > p as int {
                    assert(tab_before(tab_indices@, before[i] as int, before[j - 1] as int));
                }
            }
        }
        k = k + 1;
    }
    order
}

} // verus!
