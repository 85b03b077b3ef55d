//! Candidate placements for auto placement and flipping.
//!
//! The positioning engine scores candidate placements by overflow; these
//! functions decide which candidates are scored and in which order.
use super::types::{
    alignment_of, is_auto, is_physical, opposite_of, resolve_logical_of, side_of, Placement,
    ResolvedDirection,
};
use vstd::prelude::*;

verus! {

/// All twelve physical placements, in scoring order.
pub open spec fn all_physical_seq() -> Seq<Placement> {
    seq![
        Placement::Top,
        Placement::TopStart,
        Placement::TopEnd,
        Placement::Bottom,
        Placement::BottomStart,
        Placement::BottomEnd,
        Placement::Left,
        Placement::LeftStart,
        Placement::LeftEnd,
        Placement::Right,
        Placement::RightStart,
        Placement::RightEnd,
    ]
}

/// The centered placement of each side.
pub open spec fn center_auto_seq() -> Seq<Placement> {
    seq![Placement::Top, Placement::Bottom, Placement::Left, Placement::Right]
}

/// The start-aligned placement of each side.
pub open spec fn start_auto_seq() -> Seq<Placement> {
    seq![Placement::TopStart, Placement::BottomStart, Placement::LeftStart, Placement::RightStart]
}

/// The end-aligned placement of each side.
pub open spec fn end_auto_seq() -> Seq<Placement> {
    seq![Placement::TopEnd, Placement::BottomEnd, Placement::LeftEnd, Placement::RightEnd]
}

/// All twelve physical placements, in scoring order.
pub fn all_physical_placements() -> (r: Vec<Placement>)
    ensures
        r@ == all_physical_seq(),
{
    let r = vec![
        Placement::Top,
        Placement::TopStart,
        Placement::TopEnd,
        Placement::Bottom,
        Placement::BottomStart,
        Placement::BottomEnd,
        Placement::Left,
        Placement::LeftStart,
        Placement::LeftEnd,
        Placement::Right,
        Placement::RightStart,
        Placement::RightEnd,
    ];
    assert(r@ =~= all_physical_seq());
    r
}

/// The centered placement of each side (the `Placement::Auto` family).
pub fn center_auto_placements() -> (r: Vec<Placement>)
    ensures
        r@ == center_auto_seq(),
{
    let r = vec![Placement::Top, Placement::Bottom, Placement::Left, Placement::Right];
    assert(r@ =~= center_auto_seq());
    r
}

/// The start-aligned placement of each side (the `Placement::AutoStart`
/// family).
pub fn start_auto_placements() -> (r: Vec<Placement>)
    ensures
        r@ == start_auto_seq(),
{
    let r = vec![
        Placement::TopStart,
        Placement::BottomStart,
        Placement::LeftStart,
        Placement::RightStart,
    ];
    assert(r@ =~= start_auto_seq());
    r
}

/// The end-aligned placement of each side (the `Placement::AutoEnd`
/// family).
pub fn end_auto_placements() -> (r: Vec<Placement>)
    ensures
        r@ == end_auto_seq(),
{
    let r = vec![Placement::TopEnd, Placement::BottomEnd, Placement::LeftEnd, Placement::RightEnd];
    assert(r@ =~= end_auto_seq());
    r
}

/// Whether the engine chooses the side itself: either the boolean
/// `auto_placement` option is on or the placement is an auto variant.
pub fn is_auto_placement_enabled(auto_placement: bool, placement: Placement) -> (r: bool)
    ensures
        r == (auto_placement || is_auto(placement)),
{
    auto_placement || matches!(placement, Placement::Auto | Placement::AutoStart | Placement::AutoEnd)
}

/// The candidates scored by auto placement.
pub open spec fn auto_candidates_of(auto_placement: bool, placement: Placement) -> Seq<Placement> {
    if auto_placement {
        all_physical_seq()
    } else {
        match placement {
            Placement::Auto => center_auto_seq(),
            Placement::AutoStart => start_auto_seq(),
            Placement::AutoEnd => end_auto_seq(),
            _ => all_physical_seq(),
        }
    }
}

/// The candidates scored by auto placement: every physical placement when
/// the boolean option is on, otherwise the family of the auto variant.
pub fn auto_candidates(auto_placement: bool, placement: Placement) -> (r: Vec<Placement>)
    ensures
        r@ == auto_candidates_of(auto_placement, placement),
{
    if auto_placement {
        all_physical_placements()
    } else {
        match placement {
            Placement::Auto => center_auto_placements(),
            Placement::AutoStart => start_auto_placements(),
            Placement::AutoEnd => end_auto_placements(),
            _ => all_physical_placements(),
        }
    }
}

/// The concrete placements a placement stands for in flip scoring.
pub open spec fn expanded_of(p: Placement, dir: ResolvedDirection) -> Seq<Placement> {
    match resolve_logical_of(p, dir) {
        Placement::Auto => center_auto_seq(),
        Placement::AutoStart => start_auto_seq(),
        Placement::AutoEnd => end_auto_seq(),
        resolved => seq![resolved],
    }
}

/// The concrete placements a placement stands for in flip scoring: logical
/// placements resolve against `dir`, auto variants expand into their
/// family.
pub fn expanded_placements(placement: Placement, dir: ResolvedDirection) -> (r: Vec<Placement>)
    ensures
        r@ == expanded_of(placement, dir),
{
    match placement.resolve_logical(dir) {
        Placement::Auto => center_auto_placements(),
        Placement::AutoStart => start_auto_placements(),
        Placement::AutoEnd => end_auto_placements(),
        resolved => {
            let r = vec![resolved];
            assert(r@ =~= seq![resolved]);
            r
        },
    }
}

/// `acc` extended by the elements of `incoming` it does not hold yet, in
/// order, each added once.
pub open spec fn extended(acc: Seq<Placement>, incoming: Seq<Placement>) -> Seq<Placement>
    decreases incoming.len(),
{
    if incoming.len() == 0 {
        acc
    } else {
        let next = if acc.contains(incoming[0]) {
            acc
        } else {
            acc.push(incoming[0])
        };
        extended(next, incoming.subrange(1, incoming.len() as int))
    }
}

/// Appends the elements of `incoming` that `candidates` does not hold yet.
pub fn extend_unique(candidates: &mut Vec<Placement>, incoming: Vec<Placement>)
    ensures
        final(candidates)@ == extended(old(candidates)@, incoming@),
{
    let mut i: usize = 0;
    assert(incoming@.subrange(0, incoming.len() as int) =~= incoming@);
    while i < incoming.len()
        invariant
            i <= incoming.len(),
            extended(old(candidates)@, incoming@) == extended(
                candidates@,
                incoming@.subrange(i as int, incoming.len() as int),
            ),
        decreases incoming.len() - i,
    {
        let p = incoming[i];
        let ghost rest = incoming@.subrange(i as int, incoming.len() as int);
        assert(rest.subrange(1, rest.len() as int) =~= incoming@.subrange(
            i + 1,
            incoming.len() as int,
        ));
        if !contains_placement(candidates, p) {
            candidates.push(p);
        }
        i = i + 1;
    }
    assert(incoming@.subrange(i as int, incoming.len() as int) =~= Seq::<Placement>::empty());
}

/// Whether `p` occurs in `v`.
fn contains_placement(v: &Vec<Placement>, p: Placement) -> (r: bool)
    ensures
        r == v@.contains(p),
{
    let mut i: usize = 0;
    while i < v.len()
        invariant
            i <= v.len(),
            forall|j: int| 0 <= j < i ==> v@[j] != p,
        decreases v.len() - i,
    {
        if v[i] == p {
            return true;
        }
        i = i + 1;
    }
    false
}

/// `s` without any occurrence of `x`, order kept.
pub open spec fn without(s: Seq<Placement>, x: Placement) -> Seq<Placement>
    decreases s.len(),
{
    if s.len() == 0 {
        s
    } else {
        let rest = without(s.subrange(0, s.len() - 1), x);
        if s.last() == x {
            rest
        } else {
            rest.push(s.last())
        }
    }
}

/// The candidates gathered from the fallbacks `fallbacks[..n]`, before the
/// opposite placement is added.
pub open spec fn fallback_candidates(
    fallbacks: Seq<Placement>,
    dir: ResolvedDirection,
    n: int,
) -> Seq<Placement>
    decreases n,
{
    if n <= 0 {
        Seq::empty()
    } else {
        extended(fallback_candidates(fallbacks, dir, n - 1), expanded_of(fallbacks[n - 1], dir))
    }
}

/// The flip candidates for `current`: the expanded fallbacks in order, then
/// the expanded opposite placement, each once, never `current` itself.
pub open spec fn flip_candidates_of(
    fallbacks: Seq<Placement>,
    dir: ResolvedDirection,
    current: Placement,
) -> Seq<Placement> {
    without(
        extended(
            fallback_candidates(fallbacks, dir, fallbacks.len() as int),
            expanded_of(opposite_of(current), dir),
        ),
        current,
    )
}

/// The placements tried, in order, when `current` overflows: the expanded
/// fallback placements first, then the direct opposite as a last recovery
/// option; duplicates and `current` itself are dropped.
pub fn flip_candidates(
    fallback_placements: &Vec<Placement>,
    dir: ResolvedDirection,
    current: Placement,
) -> (r: Vec<Placement>)
    ensures
        r@ == flip_candidates_of(fallback_placements@, dir, current),
{
    let mut candidates: Vec<Placement> = Vec::new();
    let mut i: usize = 0;
    while i < fallback_placements.len()
        invariant
            i <= fallback_placements.len(),
            candidates@ == fallback_candidates(fallback_placements@, dir, i as int),
        decreases fallback_placements.len() - i,
    {
        extend_unique(&mut candidates, expanded_placements(fallback_placements[i], dir));
        i = i + 1;
    }
    extend_unique(&mut candidates, expanded_placements(current.opposite(), dir));
    let mut out: Vec<Placement> = Vec::new();
    let mut k: usize = 0;
    while k < candidates.len()
        invariant
            k <= candidates.len(),
            out@ == without(candidates@.subrange(0, k as int), current),
        decreases candidates.len() - k,
    {
        assert(candidates@.subrange(0, k + 1).subrange(0, k as int) =~= candidates@.subrange(
            0,
            k as int,
        ));
        if candidates[k] != current {
            out.push(candidates[k]);
        }
        k = k + 1;
    }
    assert(candidates@.subrange(0, candidates.len() as int) =~= candidates@);
    out
}

/// Every placement of `s` is physical.
pub open spec fn all_physical(s: Seq<Placement>) -> bool {
    forall|i: int| 0 <= i < s.len() ==> is_physical(#[trigger] s[i])
}

proof fn lemma_extended(acc: Seq<Placement>, incoming: Seq<Placement>)
    ensures
        forall|x: Placement| #[trigger]
            extended(acc, incoming).contains(x) == (acc.contains(x) || incoming.contains(x)),
        acc.no_duplicates() ==> extended(acc, incoming).no_duplicates(),
        all_physical(acc) && all_physical(incoming) ==> all_physical(extended(acc, incoming)),
    decreases incoming.len(),
{
    if incoming.len() > 0 {
        let y = incoming[0];
        let next = if acc.contains(y) {
            acc
        } else {
            acc.push(y)
        };
        let rest = incoming.subrange(1, incoming.len() as int);
        lemma_extended(next, rest);
        assert(extended(acc, incoming) == extended(next, rest));
        assert forall|x: Placement| #[trigger]
            extended(acc, incoming).contains(x) == (acc.contains(x) || incoming.contains(x)) by {
            assert(extended(next, rest).contains(x) == (next.contains(x) || rest.contains(x)));
            if incoming.contains(x) && x != y {
                let k = choose|k: int| 0 <= k < incoming.len() && incoming[k] == x;
                assert(rest[k - 1] == x);
            }
            if rest.contains(x) {
                let k = choose|k: int| 0 <= k < rest.len() && rest[k] == x;
                assert(incoming[k + 1] == x);
            }
            if next.contains(x) && !acc.contains(x) {
                let k = choose|k: int| 0 <= k < next.len() && next[k] == x;
                if k < acc.len() {
                    assert(acc[k] == x);
                }
                assert(x == y);
                assert(incoming[0] == x);
                assert(incoming.contains(x));
            }
            if acc.contains(x) && !acc.contains(y) {
                let k = choose|k: int| 0 <= k < acc.len() && acc[k] == x;
                assert(next[k] == x);
            }
            if x == y && !acc.contains(y) {
                assert(next[acc.len() as int] == x);
            }
        }
        if acc.no_duplicates() && !acc.contains(y) {
            assert forall|i: int, j: int| 0 <= i < next.len() && 0 <= j < next.len() && i != j implies next[i]
                != next[j] by {
                if i == acc.len() && j < acc.len() {
                    assert(acc.contains(acc[j]));
                } else if j == acc.len() && i < acc.len() {
                    assert(acc.contains(acc[i]));
                }
            }
        }
        if all_physical(acc) && all_physical(incoming) {
            assert(is_physical(incoming[0]));
            assert forall|i: int| 0 <= i < rest.len() implies is_physical(#[trigger] rest[i]) by {
                assert(is_physical(incoming[i + 1]));
            }
            assert forall|i: int| 0 <= i < next.len() implies is_physical(#[trigger] next[i]) by {
                if i < acc.len() {
                    assert(is_physical(acc[i]));
                }
            }
        }
    }
}

proof fn lemma_without(s: Seq<Placement>, y: Placement)
    ensures
        forall|x: Placement| #[trigger] without(s, y).contains(x) == (s.contains(x) && x != y),
        s.no_duplicates() ==> without(s, y).no_duplicates(),
        all_physical(s) ==> all_physical(without(s, y)),
    decreases s.len(),
{
    if s.len() > 0 {
        let init = s.subrange(0, s.len() - 1);
        let rest = without(init, y);
        lemma_without(init, y);
        assert forall|x: Placement| #[trigger]
            without(s, y).contains(x) == (s.contains(x) && x != y) by {
            if s.contains(x) && x != s.last() {
                let k = choose|k: int| 0 <= k < s.len() && s[k] == x;
                assert(init[k] == x);
            }
            if init.contains(x) {
                let k = choose|k: int| 0 <= k < init.len() && init[k] == x;
                assert(s[k] == x);
            }
            if rest.contains(x) && s.last() != y {
                let k = choose|k: int| 0 <= k < rest.len() && rest[k] == x;
                assert(rest.push(s.last())[k] == x);
            }
            if s.last() != y && x == s.last() {
                assert(rest.push(s.last())[rest.len() as int] == x);
                assert(s[s.len() - 1] == x);
            }
        }
        if s.no_duplicates() {
            assert(init.no_duplicates()) by {
                assert forall|i: int, j: int| 0 <= i < init.len() && 0 <= j < init.len() && i != j implies init[i]
                    != init[j] by {
                    assert(s[i] != s[j]);
                }
            }
            if s.last() != y {
                assert(!init.contains(s.last())) by {
                    if init.contains(s.last()) {
                        let k = choose|k: int| 0 <= k < init.len() && init[k] == s.last();
                        assert(s[k] == s[s.len() - 1]);
                    }
                }
                assert(!rest.contains(s.last()));
                let t = rest.push(s.last());
                assert forall|i: int, j: int| 0 <= i < t.len() && 0 <= j < t.len() && i != j implies t[i]
                    != t[j] by {
                    if i == rest.len() && j < rest.len() {
                        assert(rest.contains(rest[j]));
                    } else if j == rest.len() && i < rest.len() {
                        assert(rest.contains(rest[i]));
                    }
                }
            }
        }
        if all_physical(s) {
            assert forall|i: int| 0 <= i < init.len() implies is_physical(#[trigger] init[i]) by {
                assert(is_physical(s[i]));
            }
            if s.last() != y {
                let t = rest.push(s.last());
                assert(is_physical(s[s.len() - 1]));
                assert forall|i: int| 0 <= i < t.len() implies is_physical(#[trigger] t[i]) by {
                    if i < rest.len() {
                        assert(is_physical(rest[i]));
                    }
                }
            }
        }
    }
}

proof fn lemma_expanded_physical(p: Placement, dir: ResolvedDirection)
    ensures
        all_physical(expanded_of(p, dir)),
{
    let e = expanded_of(p, dir);
    assert forall|i: int| 0 <= i < e.len() implies is_physical(#[trigger] e[i]) by {
    }
}

proof fn lemma_fallback_candidates(fallbacks: Seq<Placement>, dir: ResolvedDirection, n: int)
    requires
        0 <= n <= fallbacks.len(),
    ensures
        fallback_candidates(fallbacks, dir, n).no_duplicates(),
        all_physical(fallback_candidates(fallbacks, dir, n)),
        forall|i: int, x: Placement|
            0 <= i < n && #[trigger] expanded_of(fallbacks[i], dir).contains(x)
                ==> fallback_candidates(fallbacks, dir, n).contains(x),
    decreases n,
{
    if n > 0 {
        lemma_fallback_candidates(fallbacks, dir, n - 1);
        lemma_expanded_physical(fallbacks[n - 1], dir);
        lemma_extended(
            fallback_candidates(fallbacks, dir, n - 1),
            expanded_of(fallbacks[n - 1], dir),
        );
    } else {
        assert(Seq::<Placement>::empty().no_duplicates());
    }
}

/// The flip candidates are distinct physical placements, never the current
/// placement; every concrete placement a fallback stands for, and every
/// placement the opposite of the current one stands for, is tried unless
/// it is the current placement.
pub proof fn law_flip_candidates(
    fallbacks: Seq<Placement>,
    dir: ResolvedDirection,
    current: Placement,
)
    ensures
        flip_candidates_of(fallbacks, dir, current).no_duplicates(),
        !flip_candidates_of(fallbacks, dir, current).contains(current),
        all_physical(flip_candidates_of(fallbacks, dir, current)),
        forall|x: Placement|
            #[trigger] expanded_of(opposite_of(current), dir).contains(x) && x != current
                ==> flip_candidates_of(fallbacks, dir, current).contains(x),
        forall|i: int, x: Placement|
            0 <= i < fallbacks.len() && #[trigger] expanded_of(fallbacks[i], dir).contains(x) && x
                != current ==> flip_candidates_of(fallbacks, dir, current).contains(x),
{
    let base = fallback_candidates(fallbacks, dir, fallbacks.len() as int);
    let opp = expanded_of(opposite_of(current), dir);
    lemma_fallback_candidates(fallbacks, dir, fallbacks.len() as int);
    lemma_expanded_physical(opposite_of(current), dir);
    lemma_extended(base, opp);
    lemma_without(extended(base, opp), current);
}

/// Auto placement scores the right family: with the boolean option every
/// physical placement once; otherwise an auto variant scores one
/// placement per side, each physical and keeping the variant's alignment,
/// and any other placement scores every physical placement.
pub proof fn law_auto_candidates_keep_alignment(auto_placement: bool, p: Placement)
    ensures
        is_auto(p) && !auto_placement ==> {
            let c = auto_candidates_of(auto_placement, p);
            &&& c.len() == 4
            &&& forall|i: int|
                0 <= i < c.len() ==> is_physical(#[trigger] c[i]) && alignment_of(c[i])
                    == alignment_of(p)
            &&& forall|i: int, j: int|
                0 <= i < c.len() && 0 <= j < c.len() && i != j ==> side_of(#[trigger] c[i])
                    != side_of(#[trigger] c[j])
        },
        auto_placement || !is_auto(p) ==> {
            let c = auto_candidates_of(auto_placement, p);
            &&& c.len() == 12
            &&& forall|i: int| 0 <= i < c.len() ==> is_physical(#[trigger] c[i])
            &&& forall|i: int, j: int|
                0 <= i < c.len() && 0 <= j < c.len() && i != j ==> #[trigger] c[i] != #[trigger] c[j]
            &&& forall|q: Placement| is_physical(q) ==> #[trigger] c.contains(q)
        },
{
    let c = auto_candidates_of(auto_placement, p);
    if auto_placement || !is_auto(p) {
        assert(c == all_physical_seq());
        assert forall|q: Placement| is_physical(q) implies #[trigger] c.contains(q) by {
            let k: int = match q {
                Placement::Top => 0,
                Placement::TopStart => 1,
                Placement::TopEnd => 2,
                Placement::Bottom => 3,
                Placement::BottomStart => 4,
                Placement::BottomEnd => 5,
                Placement::Left => 6,
                Placement::LeftStart => 7,
                Placement::LeftEnd => 8,
                Placement::Right => 9,
                Placement::RightStart => 10,
                _ => 11,
            };
            assert(c[k] == q);
        }
    }
}

} // verus!
