//! Decisions behind the browser platform effects: focus-trap key handling,
//! CSS list parsing, platform detection and the completion tracking of
//! exit animations and transitions.
use crate::portal::{tab_wrap_target, wrap_target_of, WrapTarget};
use crate::text::{chars_of, contains_str, has_substring, str_equals, trim, trim_bounds};
use vstd::prelude::*;
use vstd::string::*;

verus! {

/// The position in a CSS list of `values.len()` entries that applies to
/// item `index` (lists repeat cyclically); `None` for an empty list.
pub fn repeated_index<T>(values: &[T], index: usize) -> (r: Option<usize>)
    ensures
        r == (if values@.len() == 0 {
            None
        } else {
            Some((index % (values@.len() as usize)) as usize)
        }),
{
    if values.len() == 0 {
        None
    } else {
        Some(index % values.len())
    }
}

/// `s` split at every comma (`str::split(',')`): one more piece than there
/// are commas.
pub open spec fn split_commas(s: Seq<char>) -> Seq<Seq<char>>
    decreases s.len(),
{
    if s.len() == 0 {
        seq![Seq::<char>::empty()]
    } else {
        let prev = split_commas(s.subrange(0, s.len() - 1));
        if s.last() == ',' {
            prev.push(Seq::<char>::empty())
        } else {
            prev.update(prev.len() - 1, prev.last().push(s.last()))
        }
    }
}

/// The trimmed pieces of `pieces` that are not empty, in order.
pub open spec fn nonempty_trimmed(pieces: Seq<Seq<char>>) -> Seq<Seq<char>>
    decreases pieces.len(),
{
    if pieces.len() == 0 {
        Seq::empty()
    } else {
        let prev = nonempty_trimmed(pieces.subrange(0, pieces.len() - 1));
        if trim(pieces.last()).len() > 0 {
            prev.push(trim(pieces.last()))
        } else {
            prev
        }
    }
}

proof fn lemma_split_commas_len(s: Seq<char>)
    ensures
        split_commas(s).len() >= 1,
    decreases s.len(),
{
    if s.len() > 0 {
        lemma_split_commas_len(s.subrange(0, s.len() - 1));
    }
}

/// The names of a comma-separated CSS list such as `transition-property`:
/// every entry trimmed, empty entries dropped.
pub fn parse_name_list(value: &str) -> (r: Vec<String>)
    ensures
        r@.map_values(|x: String| x@) == nonempty_trimmed(split_commas(value@)),
{
    let v = chars_of(value);
    let n = v.len();
    let mut out: Vec<String> = Vec::new();
    let mut st: usize = 0;
    let mut k: usize = 0;
    proof {
        assert(v@.subrange(0, 0) =~= Seq::<char>::empty());
    }
    while k < n
        invariant
            n == v.len(),
            v@ == value@,
            st <= k <= n,
            split_commas(v@.subrange(0, k as int)).len() >= 1,
            split_commas(v@.subrange(0, k as int)).last() == v@.subrange(st as int, k as int),
            out@.map_values(|x: String| x@) == nonempty_trimmed(
                split_commas(v@.subrange(0, k as int)).drop_last(),
            ),
        decreases n - k,
    {
        let ghost pieces = split_commas(v@.subrange(0, k as int));
        assert(v@.subrange(0, k + 1).subrange(0, k as int) =~= v@.subrange(0, k as int));
        if v[k] == ',' {
            let ghost before = out@.map_values(|x: String| x@);
            let (lo, hi) = trim_bounds(&v, st, k);
            if lo < hi {
                let name = value.substring_char(lo, hi).to_owned();
                out.push(name);
            }
            proof {
                let next = split_commas(v@.subrange(0, k + 1));
                assert(next == pieces.push(Seq::<char>::empty()));
                assert(next.drop_last() =~= pieces);
                assert(pieces.subrange(0, pieces.len() - 1) =~= pieces.drop_last());
                assert(out@.map_values(|x: String| x@) =~= nonempty_trimmed(pieces));
                assert(v@.subrange(k + 1, k + 1) =~= Seq::<char>::empty());
            }
            st = k + 1;
        } else {
            proof {
                let next = split_commas(v@.subrange(0, k + 1));
                assert(next == pieces.update(pieces.len() - 1, pieces.last().push(v@[k as int])));
                assert(next.drop_last() =~= pieces.drop_last());
                assert(next.last() =~= v@.subrange(st as int, k + 1));
            }
        }
        k = k + 1;
    }
    let ghost pieces = split_commas(v@.subrange(0, n as int));
    let ghost before = out@.map_values(|x: String| x@);
    let (lo, hi) = trim_bounds(&v, st, n);
    if lo < hi {
        let name = value.substring_char(lo, hi).to_owned();
        out.push(name);
    }
    proof {
        assert(v@.subrange(0, n as int) =~= v@);
        assert(pieces.subrange(0, pieces.len() - 1) =~= pieces.drop_last());
        assert(out@.map_values(|x: String| x@) =~= nonempty_trimmed(pieces));
    }
    out
}

/// Whether a `navigator.platform` value names a Mac.
pub fn is_mac_platform(platform: &str) -> (r: bool)
    ensures
        r == has_substring(platform@, "Mac"@),
{
    contains_str(platform, "Mac")
}

/// What a focus trap does with a key press inside its container.
#[derive(Clone, Copy, Debug, PartialEq, Eq, Structural)]
pub enum FocusTrapKeyAction {
    /// Leave the event alone.
    Ignore,
    /// Prevent the event, stop its propagation and call the trap's Escape
    /// handler.
    Escape,
    /// Prevent the event and focus the container (nothing is tabbable).
    FocusContainer,
    /// Prevent the event and wrap focus to one end of the tab order.
    Wrap(WrapTarget),
}

/// The focus-trap rule for a key press: already-handled events are left
/// alone; Escape calls the handler; Tab focuses the container when nothing
/// is tabbable and otherwise wraps at the edges.
pub open spec fn focus_trap_action_of(
    default_prevented: bool,
    key: Seq<char>,
    tabbable_count: usize,
    shift: bool,
    active_inside: bool,
    active_is_first: bool,
    active_is_last: bool,
) -> FocusTrapKeyAction {
    if default_prevented {
        FocusTrapKeyAction::Ignore
    } else if key == "Escape"@ {
        FocusTrapKeyAction::Escape
    } else if key == "Tab"@ {
        if tabbable_count == 0 {
            FocusTrapKeyAction::FocusContainer
        } else {
            match wrap_target_of(shift, active_inside, active_is_first, active_is_last) {
                Some(t) => FocusTrapKeyAction::Wrap(t),
                None => FocusTrapKeyAction::Ignore,
            }
        }
    } else {
        FocusTrapKeyAction::Ignore
    }
}

/// Decides what a focus trap does with a key press.
pub fn focus_trap_key_action(
    default_prevented: bool,
    key: &str,
    tabbable_count: usize,
    shift: bool,
    active_inside: bool,
    active_is_first: bool,
    active_is_last: bool,
) -> (r: FocusTrapKeyAction)
    ensures
        r == focus_trap_action_of(
            default_prevented,
            key@,
            tabbable_count,
            shift,
            active_inside,
            active_is_first,
            active_is_last,
        ),
{
    if default_prevented {
        return FocusTrapKeyAction::Ignore;
    }
    if str_equals(key, "Escape") {
        return FocusTrapKeyAction::Escape;
    }
    if str_equals(key, "Tab") {
        if tabbable_count == 0 {
            return FocusTrapKeyAction::FocusContainer;
        }
        return match tab_wrap_target(shift, active_inside, active_is_first, active_is_last) {
            Some(t) => FocusTrapKeyAction::Wrap(t),
            None => FocusTrapKeyAction::Ignore,
        };
    }
    FocusTrapKeyAction::Ignore
}

/// Whether a computed `animation-name` names an animation: not blank and
/// not exactly `none`.
pub fn animation_name_is_active(animation_name: &str) -> (r: bool)
    ensures
        r == (trim(animation_name@).len() > 0 && animation_name@ != "none"@),
{
    let v = chars_of(animation_name);
    let (lo, hi) = trim_bounds(&v, 0, v.len());
    assert(v@.subrange(0, v.len() as int) =~= v@);
    lo < hi && !str_equals(animation_name, "none")
}

/// What the exit-animation tracker must wait for, decided from the
/// element's computed style.
#[derive(Clone, Copy, Debug, PartialEq, Eq, Structural)]
pub struct MotionPlan {
    /// An `animationend` must be seen.
    pub has_animation: bool,
    /// A `transitionend` (or its timeout) must be seen.
    pub has_transition: bool,
    /// Nothing to wait for: complete at once.
    pub finish_now: bool,
}

/// Decides what to wait for: reduced motion, or neither a running
/// animation nor a timed transition, completes at once.
pub fn motion_plan(
    reduced_motion: bool,
    animation_name_active: bool,
    animation_duration_zero: bool,
    transition_duration_zero: bool,
) -> (r: MotionPlan)
    ensures
        r.has_animation == (!reduced_motion && animation_name_active && !animation_duration_zero),
        r.has_transition == (!reduced_motion && !transition_duration_zero),
        r.finish_now == (reduced_motion || (!r.has_animation && !r.has_transition)),
{
    let has_animation = !reduced_motion && animation_name_active && !animation_duration_zero;
    let has_transition = !reduced_motion && !transition_duration_zero;
    MotionPlan {
        has_animation,
        has_transition,
        finish_now: reduced_motion || (!has_animation && !has_transition),
    }
}

/// Completion tracking of an exit animation/transition whose callback must
/// run exactly once.
#[derive(Debug)]
pub struct AnimationCompletion {
    require_animation: bool,
    require_transition: bool,
    animation_done: bool,
    transition_done: bool,
    completed: bool,
}

impl AnimationCompletion {
    /// `(require_animation, require_transition, animation_done,
    /// transition_done, completed)`.
    pub closed spec fn view(&self) -> (bool, bool, bool, bool, bool) {
        (
            self.require_animation,
            self.require_transition,
            self.animation_done,
            self.transition_done,
            self.completed,
        )
    }

    /// Nothing required yet, not completed.
    pub fn new() -> (r: Self)
        ensures
            r@ == (false, false, true, true, false),
    {
        AnimationCompletion {
            require_animation: false,
            require_transition: false,
            animation_done: true,
            transition_done: true,
            completed: false,
        }
    }

    /// Whether the callback has run (or been cancelled).
    pub fn is_completed(&self) -> (r: bool)
        ensures
            r == self@.4,
    {
        self.completed
    }

    /// Applies a motion plan: what is required, and what is already done.
    pub fn configure(&mut self, has_animation: bool, has_transition: bool)
        ensures
            final(self)@ == (
                has_animation,
                has_transition,
                !has_animation,
                !has_transition,
                old(self)@.4,
            ),
    {
        self.require_animation = has_animation;
        self.require_transition = has_transition;
        self.animation_done = !has_animation;
        self.transition_done = !has_transition;
    }

    /// Records the end of the animation.
    pub fn mark_animation_done(&mut self)
        ensures
            final(self)@ == (old(self)@.0, old(self)@.1, true, old(self)@.3, old(self)@.4),
    {
        self.animation_done = true;
    }

    /// Records the end of the transition (event or timeout).
    pub fn mark_transition_done(&mut self)
        ensures
            final(self)@ == (old(self)@.0, old(self)@.1, old(self)@.2, true, old(self)@.4),
    {
        self.transition_done = true;
    }

    /// Completes when everything required is done; returns `true` when the
    /// callback must run now (the first completion).
    pub fn complete_if_ready(&mut self) -> (r: bool)
        ensures
            r == completion_answer(old(self)@),
            final(self)@ == after_completion(old(self)@, r),
    {
        if self.completed {
            return false;
        }
        let ready = (!self.require_animation || self.animation_done) && (!self.require_transition
            || self.transition_done);
        if ready {
            self.completed = true;
        }
        ready
    }

    /// Completes unconditionally (fallback timeout, cleanup, no window);
    /// returns `true` when the callback must run now: not completed before
    /// and `invoke_callback`.
    pub fn finalize(&mut self, invoke_callback: bool) -> (r: bool)
        ensures
            r == finalize_answer(old(self)@, invoke_callback),
            final(self)@ == (old(self)@.0, old(self)@.1, old(self)@.2, old(self)@.3, true),
    {
        if self.completed {
            return false;
        }
        self.completed = true;
        invoke_callback
    }
}

/// Everything required is done.
pub open spec fn ready(s: (bool, bool, bool, bool, bool)) -> bool {
    (!s.0 || s.2) && (!s.1 || s.3)
}

/// What `complete_if_ready` answers on a tracker in state `s`.
pub open spec fn completion_answer(s: (bool, bool, bool, bool, bool)) -> bool {
    !s.4 && ready(s)
}

/// What `finalize` answers on a tracker in state `s`.
pub open spec fn finalize_answer(s: (bool, bool, bool, bool, bool), invoke: bool) -> bool {
    !s.4 && invoke
}

/// The state after an answer `r` of `complete_if_ready` on `s`.
pub open spec fn after_completion(s: (bool, bool, bool, bool, bool), r: bool) -> (
    bool,
    bool,
    bool,
    bool,
    bool,
) {
    (s.0, s.1, s.2, s.3, s.4 || r)
}

/// The callback runs at most once: after `complete_if_ready` or `finalize`
/// has asked for it, the tracker is completed, and from a completed state
/// every later `mark_*`, `complete_if_ready` or `finalize` asks for nothing.
pub proof fn law_completion_is_final(
    s: (bool, bool, bool, bool, bool),
    invoke: bool,
    later_invoke: bool,
)
    ensures
        completion_answer(s) ==> after_completion(s, completion_answer(s)).4,
        completion_answer(s) ==> !completion_answer(after_completion(s, completion_answer(s))),
        completion_answer(s) ==> !finalize_answer(
            after_completion(s, completion_answer(s)),
            later_invoke,
        ),
        finalize_answer(s, invoke) ==> !completion_answer((s.0, s.1, s.2, s.3, true)),
        finalize_answer(s, invoke) ==> !finalize_answer((s.0, s.1, s.2, s.3, true), later_invoke),
        s.4 ==> !completion_answer((s.0, s.1, true, s.3, s.4)) && !completion_answer(
            (s.0, s.1, s.2, true, s.4),
        ),
{
}

/// A tracker completes (and asks for the callback) exactly when it has
/// not completed yet and every required motion has ended: a required
/// animation must have ended and a required transition must have ended,
/// whichever ends first. The state is `(require_animation,
/// require_transition, animation_done, transition_done, completed)`.
pub proof fn law_completes_only_when_required_motion_done(s: (bool, bool, bool, bool, bool))
    ensures
        completion_answer(s) <==> (!s.4 && (s.0 ==> s.2) && (s.1 ==> s.3)),
        s.0 && !s.2 ==> !completion_answer(s),
        s.1 && !s.3 ==> !completion_answer(s),
        completion_answer(s) ==> after_completion(s, true).4,
{
}

/// What a `visibilitychange` means for a pending exit-animation tracker.
#[derive(Clone, Copy, Debug, PartialEq, Eq, Structural)]
pub enum VisibilityAction {
    /// Nothing to do.
    Nothing,
    /// The page was hidden: pause the fallback timeout.
    PauseFallback,
    /// The page became visible: resume the fallback timeout and detect the
    /// element's motion again.
    Resume,
}

/// The reaction to a document visibility state of `visibility` (`None`
/// when unknown) while the tracker is `completed` or not.
pub fn visibility_change_action(completed: bool, visibility: Option<&str>) -> (r: VisibilityAction)
    ensures
        r == (if completed {
            VisibilityAction::Nothing
        } else {
            match visibility {
                Some(v) => if v@ == "hidden"@ {
                    VisibilityAction::PauseFallback
                } else if v@ == "visible"@ {
                    VisibilityAction::Resume
                } else {
                    VisibilityAction::Nothing
                },
                None => VisibilityAction::Nothing,
            }
        }),
{
    if completed {
        return VisibilityAction::Nothing;
    }
    match visibility {
        Some(v) => if str_equals(v, "hidden") {
            VisibilityAction::PauseFallback
        } else if str_equals(v, "visible") {
            VisibilityAction::Resume
        } else {
            VisibilityAction::Nothing
        },
        None => VisibilityAction::Nothing,
    }
}

/// The queues of the style-detection batch: requests (by ID) waiting for
/// the next two-frame detection pass (`pending`), requests that arrived
/// while the second frame was already scheduled (`deferred`), and whether
/// the first and the second animation frame are scheduled.
pub struct BatchState {
    /// Requests run at the next second frame.
    pub pending: Seq<u64>,
    /// Requests held for the following pass.
    pub deferred: Seq<u64>,
    /// A first frame is scheduled.
    pub first_frame: bool,
    /// A second frame is scheduled.
    pub second_frame: bool,
}

/// `s` without the occurrence of `id`, if any.
pub open spec fn without_id(s: Seq<u64>, id: u64) -> Seq<u64> {
    if s.contains(id) {
        s.remove(s.index_of(id))
    } else {
        s
    }
}

/// Whether `id` waits in the batch.
pub open spec fn is_queued_in(b: BatchState, id: u64) -> bool {
    b.pending.contains(id) || b.deferred.contains(id)
}

/// The batch after a request for `id`: ignored when already queued;
/// otherwise queued as pending, or as deferred while a second frame is
/// scheduled.
pub open spec fn enqueued(b: BatchState, id: u64) -> BatchState {
    if is_queued_in(b, id) {
        b
    } else if b.second_frame {
        BatchState { deferred: b.deferred.push(id), ..b }
    } else {
        BatchState { pending: b.pending.push(id), ..b }
    }
}

/// The batch after the request for `id` is withdrawn; when nothing is left
/// queued the scheduled frames are cancelled.
pub open spec fn withdrawn(b: BatchState, id: u64) -> BatchState {
    let p = without_id(b.pending, id);
    let d = without_id(b.deferred, id);
    if p.len() == 0 && d.len() == 0 {
        BatchState { pending: p, deferred: d, first_frame: false, second_frame: false }
    } else {
        BatchState { pending: p, deferred: d, ..b }
    }
}

/// The batching of style detections for exit animations: detection runs
/// two animation frames after a request, all requests of a pass together.
#[derive(Debug)]
pub struct StyleDetectionBatch {
    pending: Vec<u64>,
    deferred: Vec<u64>,
    first_frame: bool,
    second_frame: bool,
}

impl StyleDetectionBatch {
    /// The queues and frame flags.
    pub closed spec fn view(&self) -> BatchState {
        BatchState {
            pending: self.pending@,
            deferred: self.deferred@,
            first_frame: self.first_frame,
            second_frame: self.second_frame,
        }
    }

    /// No request is queued twice.
    #[verifier::type_invariant]
    closed spec fn queued_once(&self) -> bool {
        (self.pending@ + self.deferred@).no_duplicates()
    }

    /// An empty batch with no frame scheduled.
    pub fn new() -> (r: Self)
        ensures
            r@ == (BatchState {
                pending: Seq::empty(),
                deferred: Seq::empty(),
                first_frame: false,
                second_frame: false,
            }),
    {
        let r = StyleDetectionBatch {
            pending: Vec::new(),
            deferred: Vec::new(),
            first_frame: false,
            second_frame: false,
        };
        assert((r.pending@ + r.deferred@) =~= Seq::<u64>::empty());
        r
    }

    /// Whether `id` waits in the batch.
    pub fn is_queued(&self, id: u64) -> (r: bool)
        ensures
            r == is_queued_in(self@, id),
    {
        vec_contains(&self.pending, id) || vec_contains(&self.deferred, id)
    }

    /// Whether the batch is idle: nothing queued.
    pub fn is_idle(&self) -> (r: bool)
        ensures
            r == (self@.pending.len() == 0 && self@.deferred.len() == 0),
    {
        self.pending.len() == 0 && self.deferred.len() == 0
    }

    /// Queues a detection for request `id`; returns `true` when a first
    /// frame must be requested now (no frame is scheduled and the request
    /// is new).
    pub fn enqueue(&mut self, id: u64) -> (r: bool)
        ensures
            final(self)@ == enqueued(old(self)@, id),
            r == (!is_queued_in(old(self)@, id) && !old(self)@.first_frame
                && !old(self)@.second_frame),
    {
        proof {
            use_type_invariant(&*self);
            lemma_split_no_dup(self.pending@, self.deferred@);
            lemma_concat_empty(self.pending@, self.deferred@);
        }
        if self.is_queued(id) {
            return false;
        }
        let ghost p0 = self.pending@;
        let ghost d0 = self.deferred@;
        let ghost all = p0 + d0;
        proof {
            lemma_concat_contains(p0, d0, id);
        }
        if self.second_frame {
            let mut d: Vec<u64> = Vec::new();
            std::mem::swap(&mut d, &mut self.deferred);
            d.push(id);
            proof {
                assert((p0 + d@) =~= all.push(id));
                lemma_push_fresh(all, id);
            }
            self.deferred = d;
        } else {
            let mut p: Vec<u64> = Vec::new();
            std::mem::swap(&mut p, &mut self.pending);
            p.push(id);
            proof {
                lemma_insert_fresh(p0.len() as int, p@, d0, all, id);
            }
            self.pending = p;
        }
        !self.first_frame && !self.second_frame
    }

    /// Records that the first frame was scheduled.
    pub fn first_frame_scheduled(&mut self)
        ensures
            final(self)@ == (BatchState { first_frame: true, ..old(self)@ }),
    {
        proof {
            use_type_invariant(&*self);
        }
        self.first_frame = true;
    }

    /// Records that the second frame was scheduled.
    pub fn second_frame_scheduled(&mut self)
        ensures
            final(self)@ == (BatchState { second_frame: true, ..old(self)@ }),
    {
        proof {
            use_type_invariant(&*self);
        }
        self.second_frame = true;
    }

    /// The first frame has fired: the second one is to be scheduled.
    pub fn on_first_frame(&mut self)
        ensures
            final(self)@ == (BatchState { first_frame: false, ..old(self)@ }),
    {
        proof {
            use_type_invariant(&*self);
        }
        self.first_frame = false;
    }

    /// The second frame has fired: returns the pending requests, whose
    /// detection runs now, in request order.
    pub fn on_second_frame(&mut self) -> (r: Vec<u64>)
        ensures
            r@ == old(self)@.pending,
            final(self)@ == (BatchState {
                pending: Seq::empty(),
                second_frame: false,
                ..old(self)@
            }),
    {
        proof {
            use_type_invariant(&*self);
            lemma_split_no_dup(self.pending@, self.deferred@);
            lemma_concat_empty(self.pending@, self.deferred@);
        }
        let mut taken: Vec<u64> = Vec::new();
        std::mem::swap(&mut taken, &mut self.pending);
        self.second_frame = false;
        taken
    }

    /// After a pass: when nothing is pending but requests were deferred,
    /// they become pending and `true` says a new first frame is needed.
    pub fn promote_deferred(&mut self) -> (r: bool)
        ensures
            r == (old(self)@.pending.len() == 0 && old(self)@.deferred.len() > 0),
            r ==> final(self)@ == (BatchState {
                pending: old(self)@.deferred,
                deferred: Seq::empty(),
                ..old(self)@
            }),
            !r ==> final(self)@ == old(self)@,
    {
        proof {
            use_type_invariant(&*self);
            lemma_split_no_dup(self.pending@, self.deferred@);
            lemma_concat_empty(self.pending@, self.deferred@);
        }
        if self.pending.len() == 0 && self.deferred.len() > 0 {
            let mut d: Vec<u64> = Vec::new();
            std::mem::swap(&mut d, &mut self.deferred);
            proof {
                lemma_concat_empty(d@, d@);
            }
            self.pending = d;
            true
        } else {
            false
        }
    }

    /// A frame could not be scheduled: every queued request (pending, then
    /// deferred) is returned to be completed at once, and the batch is
    /// emptied.
    pub fn abandon(&mut self) -> (r: Vec<u64>)
        ensures
            r@ == old(self)@.pending + old(self)@.deferred,
            final(self)@ == (BatchState {
                pending: Seq::empty(),
                deferred: Seq::empty(),
                first_frame: false,
                second_frame: false,
            }),
    {
        proof {
            use_type_invariant(&*self);
            lemma_split_no_dup(self.pending@, self.deferred@);
            lemma_concat_empty(self.pending@, self.deferred@);
        }
        let mut all: Vec<u64> = Vec::new();
        std::mem::swap(&mut all, &mut self.pending);
        let mut d: Vec<u64> = Vec::new();
        std::mem::swap(&mut d, &mut self.deferred);
        all.append(&mut d);
        self.first_frame = false;
        self.second_frame = false;
        all
    }

    /// Withdraws the request `id` (its tracker completed); returns `true`
    /// when the batch became idle and its scheduled frames must be
    /// cancelled.
    pub fn withdraw(&mut self, id: u64) -> (r: bool)
        ensures
            final(self)@ == withdrawn(old(self)@, id),
            r == (without_id(old(self)@.pending, id).len() == 0 && without_id(
                old(self)@.deferred,
                id,
            ).len() == 0),
    {
        proof {
            use_type_invariant(&*self);
            lemma_split_no_dup(self.pending@, self.deferred@);
            lemma_concat_empty(self.pending@, self.deferred@);
        }
        let ghost before_p = self.pending@;
        let ghost before_d = self.deferred@;
        let mut p: Vec<u64> = Vec::new();
        std::mem::swap(&mut p, &mut self.pending);
        let mut d: Vec<u64> = Vec::new();
        std::mem::swap(&mut d, &mut self.deferred);
        remove_id(&mut p, id);
        remove_id(&mut d, id);
        proof {
            lemma_without_keeps_no_dup(before_p, before_d, id);
            lemma_without_subset(before_p, id);
            lemma_concat_empty(p@, d@);
        }
        let idle = p.len() == 0 && d.len() == 0;
        self.pending = p;
        self.deferred = d;
        if idle {
            self.first_frame = false;
            self.second_frame = false;
        }
        idle
    }
}

fn vec_contains(v: &Vec<u64>, id: u64) -> (r: bool)
    ensures
        r == v@.contains(id),
{
    let mut i: usize = 0;
    while i < v.len()
        invariant
            i <= v.len(),
            forall|j: int| 0 <= j < i ==> v@[j] != id,
        decreases v.len() - i,
    {
        if v[i] == id {
            return true;
        }
        i = i + 1;
    }
    false
}

/// Removes the occurrence of `id` from `v` (which holds each value once).
fn remove_id(v: &mut Vec<u64>, id: u64)
    requires
        old(v)@.no_duplicates(),
    ensures
        final(v)@ == without_id(old(v)@, id),
{
    let mut i: usize = 0;
    while i < v.len()
        invariant
            i <= v.len(),
            v@ == old(v)@,
            v@.no_duplicates(),
            forall|j: int| 0 <= j < i ==> v@[j] != id,
        decreases v.len() - i,
    {
        if v[i] == id {
            let ghost s = v@;
            proof {
                assert(s[i as int] == id);
                assert(s.contains(id));
                let k = s.index_of(id);
                assert(0 <= k < s.len() && s[k] == id);
                assert(k == i as int);
            }
            v.remove(i);
            return;
        }
        i = i + 1;
    }
}

proof fn lemma_concat_empty(p: Seq<u64>, d: Seq<u64>)
    ensures
        Seq::<u64>::empty() + d == d,
        p + Seq::<u64>::empty() == p,
        Seq::<u64>::empty() + Seq::<u64>::empty() == Seq::<u64>::empty(),
{
    assert(Seq::<u64>::empty() + d =~= d);
    assert(p + Seq::<u64>::empty() =~= p);
    assert(Seq::<u64>::empty() + Seq::<u64>::empty() =~= Seq::<u64>::empty());
}

proof fn lemma_concat_contains(p: Seq<u64>, d: Seq<u64>, x: u64)
    ensures
        (p + d).contains(x) == (p.contains(x) || d.contains(x)),
{
    if (p + d).contains(x) {
        let i = choose|i: int| 0 <= i < (p + d).len() && (p + d)[i] == x;
        if i < p.len() {
            assert(p[i] == x);
        } else {
            assert(d[i - p.len()] == x);
        }
    }
    if p.contains(x) {
        let i = choose|i: int| 0 <= i < p.len() && p[i] == x;
        assert((p + d)[i] == x);
    }
    if d.contains(x) {
        let i = choose|i: int| 0 <= i < d.len() && d[i] == x;
        assert((p + d)[p.len() + i] == x);
    }
}

proof fn lemma_push_fresh(all: Seq<u64>, id: u64)
    requires
        all.no_duplicates(),
        !all.contains(id),
    ensures
        all.push(id).no_duplicates(),
{
    assert forall|i: int, j: int|
        0 <= i < all.len() + 1 && 0 <= j < all.len() + 1 && i != j implies all.push(id)[i]
        != all.push(id)[j] by {
        if i == all.len() {
            assert(all[j] != id);
        } else if j == all.len() {
            assert(all[i] != id);
        }
    }
}

proof fn lemma_insert_fresh(n: int, p: Seq<u64>, d: Seq<u64>, all: Seq<u64>, id: u64)
    requires
        all.no_duplicates(),
        !all.contains(id),
        p.len() == n + 1,
        p[n] == id,
        0 <= n <= all.len(),
        all.len() == n + d.len(),
        forall|i: int| 0 <= i < n ==> p[i] == all[i],
        forall|i: int| 0 <= i < d.len() ==> d[i] == all[n + i],
    ensures
        (p + d).no_duplicates(),
{
    let q = p + d;
    assert forall|i: int, j: int|
        0 <= i < q.len() && 0 <= j < q.len() && i != j implies q[i] != q[j] by {
        let fi = if i < n { i } else if i == n { -1 } else { i - 1 };
        let fj = if j < n { j } else if j == n { -1 } else { j - 1 };
        if i == n {
            assert(q[j] == all[fj]);
        } else if j == n {
            assert(q[i] == all[fi]);
        } else {
            assert(q[i] == all[fi]);
            assert(q[j] == all[fj]);
        }
    }
}

proof fn lemma_split_no_dup(p: Seq<u64>, d: Seq<u64>)
    requires
        (p + d).no_duplicates(),
    ensures
        p.no_duplicates(),
        d.no_duplicates(),
        p.disjoint(d),
{
    assert forall|i: int, j: int| 0 <= i < p.len() && 0 <= j < p.len() && i != j implies p[i]
        != p[j] by {
        assert((p + d)[i] == p[i]);
        assert((p + d)[j] == p[j]);
    }
    assert forall|i: int, j: int| 0 <= i < d.len() && 0 <= j < d.len() && i != j implies d[i]
        != d[j] by {
        assert((p + d)[p.len() + i] == d[i]);
        assert((p + d)[p.len() + j] == d[j]);
    }
    assert forall|i: int, j: int| 0 <= i < p.len() && 0 <= j < d.len() implies p[i] != d[j] by {
        assert((p + d)[i] == p[i]);
        assert((p + d)[p.len() + j] == d[j]);
    }
}

proof fn lemma_without_subset(s: Seq<u64>, id: u64)
    requires
        s.no_duplicates(),
    ensures
        without_id(s, id).no_duplicates(),
        forall|x: u64| without_id(s, id).contains(x) ==> s.contains(x),
{
    if s.contains(id) {
        let k = s.index_of(id);
        let w = s.remove(k);
        assert forall|x: u64| w.contains(x) implies s.contains(x) by {
            let i = choose|i: int| 0 <= i < w.len() && w[i] == x;
            if i < k {
                assert(s[i] == x);
            } else {
                assert(s[i + 1] == x);
            }
        }
        assert forall|i: int, j: int| 0 <= i < w.len() && 0 <= j < w.len() && i != j implies w[i]
            != w[j] by {
            let si = if i < k { i } else { i + 1 };
            let sj = if j < k { j } else { j + 1 };
            assert(w[i] == s[si]);
            assert(w[j] == s[sj]);
        }
    }
}

proof fn lemma_without_keeps_no_dup(p: Seq<u64>, d: Seq<u64>, id: u64)
    requires
        (p + d).no_duplicates(),
    ensures
        (without_id(p, id) + without_id(d, id)).no_duplicates(),
{
    lemma_split_no_dup(p, d);
    lemma_without_subset(p, id);
    lemma_without_subset(d, id);
    let wp = without_id(p, id);
    let wd = without_id(d, id);
    let q = wp + wd;
    assert forall|i: int, j: int|
        0 <= i < q.len() && 0 <= j < q.len() && i != j implies q[i] != q[j] by {
        if i < wp.len() && j < wp.len() {
            assert(q[i] == wp[i] && q[j] == wp[j]);
        } else if i >= wp.len() && j >= wp.len() {
            assert(q[i] == wd[i - wp.len()] && q[j] == wd[j - wp.len()]);
        } else if i < wp.len() {
            assert(q[i] == wp[i] && q[j] == wd[j - wp.len()]);
            assert(wp.contains(wp[i]));
            assert(wd.contains(wd[j - wp.len()]));
            if q[i] == q[j] {
                let x = q[i];
                assert(p.contains(x) && d.contains(x));
                let a = choose|a: int| 0 <= a < p.len() && p[a] == x;
                let b = choose|b: int| 0 <= b < d.len() && d[b] == x;
                assert(p[a] != d[b]);
            }
        } else {
            assert(q[j] == wp[j] && q[i] == wd[i - wp.len()]);
            assert(wp.contains(wp[j]));
            assert(wd.contains(wd[i - wp.len()]));
            if q[i] == q[j] {
                let x = q[j];
                assert(p.contains(x) && d.contains(x));
                let a = choose|a: int| 0 <= a < p.len() && p[a] == x;
                let b = choose|b: int| 0 <= b < d.len() && d[b] == x;
                assert(p[a] != d[b]);
            }
        }
    }
}

/// Withdrawing a request that was just queued gives back the queues as
/// they were: a request never lingers after its tracker completes.
pub proof fn law_enqueue_then_withdraw(b: BatchState, id: u64)
    requires
        !is_queued_in(b, id),
        (b.pending + b.deferred).no_duplicates(),
    ensures
        withdrawn(enqueued(b, id), id).pending == b.pending,
        withdrawn(enqueued(b, id), id).deferred == b.deferred,
        !is_queued_in(withdrawn(enqueued(b, id), id), id),
{
    let e = enqueued(b, id);
    if b.second_frame {
        let d2 = b.deferred.push(id);
        assert(d2[b.deferred.len() as int] == id);
        assert(d2.contains(id));
        let k = d2.index_of(id);
        assert(k == b.deferred.len()) by {
            if k < b.deferred.len() {
                assert(b.deferred[k] == id);
            }
        }
        assert(d2.remove(k) =~= b.deferred);
    } else {
        let p2 = b.pending.push(id);
        assert(p2[b.pending.len() as int] == id);
        assert(p2.contains(id));
        let k = p2.index_of(id);
        assert(k == b.pending.len()) by {
            if k < b.pending.len() {
                assert(b.pending[k] == id);
            }
        }
        assert(p2.remove(k) =~= b.pending);
    }
}

} // verus!
