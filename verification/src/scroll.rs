//! Scroll management: scroll-into-view options and the search for
//! scrollable ancestors.
//!
//! The ancestor search works on a parent table: element `i`'s parent is
//! `parents[i]` (`None` at the root) and `matches[i]` tells whether element
//! `i` is scrollable. A browser front end fills the table from the DOM.
use crate::text::trim;
use vstd::prelude::*;

verus! {

/// Logical alignment positions for scrolling an item into view.
#[derive(Clone, Copy, Debug, PartialEq, Eq, Structural)]
pub enum ScrollLogicalPosition {
    /// Align the leading edge of the item with the leading edge of the
    /// container.
    Start,
    /// Center the item in the container.
    Center,
    /// Align the trailing edge of the item with the trailing edge of the
    /// container.
    End,
    /// Scroll only when needed and only by the minimum required offset.
    Nearest,
}

/// Options controlling how an element should be brought into view.
#[derive(Clone, Copy, Debug, PartialEq, Eq, Structural)]
pub struct ScrollIntoViewOptions {
    /// Vertical alignment preference within the scrollable viewport.
    pub block: Option<ScrollLogicalPosition>,
    /// Horizontal alignment preference within the scrollable viewport.
    pub inline: Option<ScrollLogicalPosition>,
    /// Whether smooth scrolling should be requested when native APIs are
    /// available.
    pub smooth: bool,
}

impl Default for ScrollIntoViewOptions {
    fn default() -> (r: Self)
        ensures
            r == (ScrollIntoViewOptions {
                block: Some(ScrollLogicalPosition::Nearest),
                inline: Some(ScrollLogicalPosition::Nearest),
                smooth: false,
            }),
    {
        ScrollIntoViewOptions {
            block: Some(ScrollLogicalPosition::Nearest),
            inline: Some(ScrollLogicalPosition::Nearest),
            smooth: false,
        }
    }
}

/// Whether the runtime supports `scrollIntoView(options)`. Without a
/// browser document there is no such API, so this is `false`; browser front
/// ends probe the global `ScrollIntoViewOptions` instead.
pub fn supports_scroll_into_view_options() -> (r: bool)
    ensures
        !r,
{
    false
}

/// An `overflow-x`/`overflow-y` value that lets an axis scroll.
pub open spec fn scrollable_axis_value(v: Seq<char>) -> bool {
    trim(v) == "auto"@ || trim(v) == "scroll"@ || trim(v) == "hidden"@
}

/// Whether a computed `overflow-*` value lets an axis scroll (`auto`,
/// `scroll` or `hidden`, ignoring surrounding white space).
pub fn is_scrollable_axis_value(value: &str) -> (r: bool)
    ensures
        r == scrollable_axis_value(value@),
{
    let v = crate::text::chars_of(value);
    let (lo, hi) = crate::text::trim_bounds(&v, 0, v.len());
    assert(v@.subrange(0, v.len() as int) =~= v@);
    let auto_chars = crate::text::chars_of("auto");
    let scroll_chars = crate::text::chars_of("scroll");
    let hidden_chars = crate::text::chars_of("hidden");
    crate::text::segment_equals(&v, lo, hi, &auto_chars) || crate::text::segment_equals(
        &v,
        lo,
        hi,
        &scroll_chars,
    ) || crate::text::segment_equals(&v, lo, hi, &hidden_chars)
}

/// Whether an element scrolls: on some axis its overflow style allows
/// scrolling and its content is larger than its box.
pub fn has_scrollable_overflow(
    overflow_x: &str,
    overflow_y: &str,
    scroll_width: i32,
    client_width: i32,
    scroll_height: i32,
    client_height: i32,
) -> (r: bool)
    ensures
        r == ((scrollable_axis_value(overflow_y@) && scroll_height > client_height) || (
        scrollable_axis_value(overflow_x@) && scroll_width > client_width)),
{
    (is_scrollable_axis_value(overflow_y) && scroll_height > client_height) || (
    is_scrollable_axis_value(overflow_x) && scroll_width > client_width)
}

/// One step up the parent table; an index outside the table has no parent.
pub open spec fn parent_of(parents: Seq<Option<usize>>, cur: Option<usize>) -> Option<usize> {
    match cur {
        Some(i) => if i < parents.len() {
            parents[i as int]
        } else {
            None
        },
        None => None,
    }
}

/// The ancestor `k` levels above `start` (level 0 is `start` itself).
pub open spec fn ancestor(parents: Seq<Option<usize>>, start: usize, k: nat) -> Option<usize>
    decreases k,
{
    if k == 0 {
        Some(start)
    } else {
        parent_of(parents, ancestor(parents, start, (k - 1) as nat))
    }
}

/// The ancestor at level `k` exists and matches.
pub open spec fn match_at(
    parents: Seq<Option<usize>>,
    matches: Seq<bool>,
    start: usize,
    k: nat,
) -> bool {
    k >= 1 && ancestor(parents, start, k) is Some && ancestor(parents, start, k).unwrap()
        < matches.len() && matches[ancestor(parents, start, k).unwrap() as int]
}

/// The walk up from `start` stays inside both tables and reaches the root.
pub open spec fn valid_walk(parents: Seq<Option<usize>>, matches: Seq<bool>, start: usize) -> bool {
    &&& start < parents.len()
    &&& exists|n: nat| #[trigger] ancestor(parents, start, n) is None
    &&& forall|k: nat|
        k >= 1 && #[trigger] ancestor(parents, start, k) is Some ==> ancestor(
            parents,
            start,
            k,
        ).unwrap() < parents.len() && ancestor(parents, start, k).unwrap() < matches.len()
}

/// The search up from `start` stops at level `n` (the root was passed or a
/// match was found there) and every table read before it is in bounds.
pub open spec fn search_ends_at(
    parents: Seq<Option<usize>>,
    matches: Seq<bool>,
    start: usize,
    n: nat,
) -> bool {
    &&& (ancestor(parents, start, n) is None || match_at(parents, matches, start, n))
    &&& forall|k: nat|
        1 <= k < n && #[trigger] ancestor(parents, start, k) is Some ==> ancestor(
            parents,
            start,
            k,
        ).unwrap() < parents.len() && ancestor(parents, start, k).unwrap() < matches.len()
}

/// The search for the nearest matching ancestor of `start` stays inside
/// the tables and stops.
pub open spec fn valid_search(parents: Seq<Option<usize>>, matches: Seq<bool>, start: usize) -> bool {
    &&& start < parents.len()
    &&& exists|n: nat| #[trigger] search_ends_at(parents, matches, start, n)
}

proof fn lemma_walk_allows_search(parents: Seq<Option<usize>>, matches: Seq<bool>, start: usize)
    requires
        valid_walk(parents, matches, start),
    ensures
        valid_search(parents, matches, start),
{
    let n = choose|n: nat| #[trigger] ancestor(parents, start, n) is None;
    assert(search_ends_at(parents, matches, start, n));
}

/// The matching ancestors among levels `1..k`, nearest first.
pub open spec fn matches_below(
    parents: Seq<Option<usize>>,
    matches: Seq<bool>,
    start: usize,
    k: nat,
) -> Seq<usize>
    decreases k,
{
    if k <= 1 {
        Seq::empty()
    } else {
        let prev = matches_below(parents, matches, start, (k - 1) as nat);
        if match_at(parents, matches, start, (k - 1) as nat) {
            prev.push(ancestor(parents, start, (k - 1) as nat).unwrap())
        } else {
            prev
        }
    }
}

/// `s` followed by `root`, unless `root` is absent or already last.
pub open spec fn with_root(s: Seq<usize>, root: Option<usize>) -> Seq<usize> {
    match root {
        Some(r) => if s.len() > 0 && s.last() == r {
            s
        } else {
            s.push(r)
        },
        None => s,
    }
}

proof fn lemma_none_stays(parents: Seq<Option<usize>>, start: usize, k: nat, j: nat)
    requires
        ancestor(parents, start, k) is None,
    ensures
        ancestor(parents, start, k + j) is None,
    decreases j,
{
    if j > 0 {
        lemma_none_stays(parents, start, k, (j - 1) as nat);
        assert(ancestor(parents, start, k + j) == parent_of(
            parents,
            ancestor(parents, start, (k + j - 1) as nat),
        ));
    }
}

proof fn lemma_shift(parents: Seq<Option<usize>>, start: usize, k: nat, m: nat)
    requires
        ancestor(parents, start, k) is Some,
    ensures
        ancestor(parents, ancestor(parents, start, k).unwrap(), m) == ancestor(
            parents,
            start,
            k + m,
        ),
    decreases m,
{
    if m > 0 {
        lemma_shift(parents, start, k, (m - 1) as nat);
        assert(ancestor(parents, start, k + m) == parent_of(
            parents,
            ancestor(parents, start, (k + m - 1) as nat),
        ));
    }
}

proof fn lemma_walk_from_ancestor(
    parents: Seq<Option<usize>>,
    matches: Seq<bool>,
    start: usize,
    k: nat,
)
    requires
        valid_walk(parents, matches, start),
        k >= 1,
        ancestor(parents, start, k) is Some,
    ensures
        valid_walk(parents, matches, ancestor(parents, start, k).unwrap()),
        forall|m: nat| #[trigger]
            ancestor(parents, ancestor(parents, start, k).unwrap(), m) == ancestor(
                parents,
                start,
                k + m,
            ),
{
    let x = ancestor(parents, start, k).unwrap();
    assert forall|m: nat| #[trigger] ancestor(parents, x, m) == ancestor(parents, start, k + m) by {
        lemma_shift(parents, start, k, m);
    }
    let n = choose|n: nat| #[trigger] ancestor(parents, start, n) is None;
    if n <= k {
        lemma_none_stays(parents, start, n, (k - n) as nat);
    }
    assert(ancestor(parents, x, (n - k) as nat) == ancestor(parents, start, n));
    assert forall|j: nat| j >= 1 && #[trigger] ancestor(parents, x, j) is Some implies ancestor(
        parents,
        x,
        j,
    ).unwrap() < parents.len() && ancestor(parents, x, j).unwrap() < matches.len() by {
        assert(ancestor(parents, x, j) == ancestor(parents, start, k + j));
    }
}

/// The nearest ancestor of `start` (excluding `start` itself) whose
/// `matches` flag is set, following `parents`.
pub fn find_nearest_matching_ancestor(start: usize, parents: &[Option<usize>], matches: &[bool]) -> (r:
    Option<usize>)
    requires
        valid_search(parents@, matches@, start),
    ensures
        match r {
            Some(i) => exists|k: nat|
                #![trigger ancestor(parents@, start, k)]
                match_at(parents@, matches@, start, k) && ancestor(parents@, start, k) == Some(i)
                    && forall|m: nat| 1 <= m < k ==> !match_at(parents@, matches@, start, m),
            None => forall|k: nat| !match_at(parents@, matches@, start, k),
        },
{
    let ghost n = choose|n: nat| #[trigger] search_ends_at(parents@, matches@, start, n);
    let ghost mut k: nat = 1;
    let mut current = parents[start];
    assert(ancestor(parents@, start, 0) == Some(start));
    assert(n >= 1);
    assert(current == ancestor(parents@, start, 1));
    loop
        invariant
            start < parents@.len(),
            search_ends_at(parents@, matches@, start, n),
            1 <= k <= n,
            current == ancestor(parents@, start, k),
            forall|m: nat| 1 <= m < k ==> !match_at(parents@, matches@, start, m),
        decreases n - k,
    {
        match current {
            None => {
                proof {
                    assert forall|m: nat| !match_at(parents@, matches@, start, m) by {
                        if m >= k {
                            lemma_none_stays(parents@, start, k, (m - k) as nat);
                        }
                    }
                }
                return None;
            },
            Some(index) => {
                if matches[index] {
                    assert(match_at(parents@, matches@, start, k));
                    return Some(index);
                }
                current = parents[index];
                proof {
                    assert(ancestor(parents@, start, k + 1) == parent_of(
                        parents@,
                        ancestor(parents@, start, k),
                    ));
                    k = k + 1;
                }
            },
        }
    }
}

proof fn lemma_matches_below_flat(
    parents: Seq<Option<usize>>,
    matches: Seq<bool>,
    start: usize,
    a: nat,
    b: nat,
)
    requires
        1 <= a <= b,
        forall|m: nat| a <= m < b ==> !match_at(parents, matches, start, m),
    ensures
        matches_below(parents, matches, start, b) == matches_below(parents, matches, start, a),
    decreases b - a,
{
    if b > a {
        lemma_matches_below_flat(parents, matches, start, a, (b - 1) as nat);
    }
}

/// Every matching ancestor of `start`, nearest to furthest, followed by
/// `root` unless it is already the furthest match.
pub fn collect_matching_ancestors(
    start: usize,
    parents: &[Option<usize>],
    matches: &[bool],
    root: Option<usize>,
) -> (r: Vec<usize>)
    requires
        valid_walk(parents@, matches@, start),
    ensures
        forall|n: nat|
            #[trigger] ancestor(parents@, start, n) is None ==> r@ == with_root(
                matches_below(parents@, matches@, start, n),
                root,
            ),
{
    let ghost p = parents@;
    let ghost ms = matches@;
    let ghost n = choose|n: nat| #[trigger] ancestor(p, start, n) is None;
    let mut ancestors: Vec<usize> = Vec::new();
    proof {
        lemma_walk_allows_search(p, ms, start);
    }
    let mut current = find_nearest_matching_ancestor(start, parents, matches);
    let ghost mut lvl: nat = 1;
    proof {
        match current {
            Some(i) => {
                let k = choose|k: nat|
                    #![trigger ancestor(p, start, k)]
                    match_at(p, ms, start, k) && ancestor(p, start, k) == Some(i) && forall|m: nat|
                        1 <= m < k ==> !match_at(p, ms, start, m);
                lemma_matches_below_flat(p, ms, start, 1, k);
                lvl = k;
            },
            None => {},
        }
    }
    loop
        invariant
            p == parents@,
            ms == matches@,
            valid_walk(p, ms, start),
            ancestor(p, start, n) is None,
            lvl >= 1,
            ancestor(p, start, (lvl - 1) as nat) is Some,
            ancestors@ == matches_below(p, ms, start, lvl),
            match current {
                Some(i) => match_at(p, ms, start, lvl) && ancestor(p, start, lvl) == Some(i),
                None => forall|m: nat| m >= lvl ==> !match_at(p, ms, start, m),
            },
        ensures
            current is None,
        decreases n - lvl,
    {
        match current {
            None => {
                break ;
            },
            Some(index) => {
                proof {
                    if n <= lvl {
                        lemma_none_stays(p, start, n, (lvl - n) as nat);
                    }
                    lemma_walk_from_ancestor(p, ms, start, lvl);
                    lemma_walk_allows_search(p, ms, index);
                }
                ancestors.push(index);
                let next = find_nearest_matching_ancestor(index, parents, matches);
                proof {
                    let old_lvl = lvl;
                    assert(ancestors@ == matches_below(p, ms, start, old_lvl + 1));
                    match next {
                        Some(j) => {
                            let m = choose|m: nat|
                                #![trigger ancestor(p, index, m)]
                                match_at(p, ms, index, m) && ancestor(p, index, m) == Some(j)
                                    && forall|q: nat| 1 <= q < m ==> !match_at(p, ms, index, q);
                            assert(ancestor(p, index, m) == ancestor(p, start, old_lvl + m));
                            if n <= old_lvl + m {
                                lemma_none_stays(p, start, n, (old_lvl + m - n) as nat);
                            }
                            assert forall|q: nat|
                                old_lvl + 1 <= q < old_lvl + m implies !match_at(p, ms, start, q) by {
                                assert(ancestor(p, index, (q - old_lvl) as nat) == ancestor(
                                    p,
                                    start,
                                    q,
                                ));
                                assert(!match_at(p, ms, index, (q - old_lvl) as nat));
                            }
                            lemma_matches_below_flat(p, ms, start, old_lvl + 1, old_lvl + m);
                            assert(ancestor(p, start, (old_lvl + m - 1) as nat) is Some) by {
                                if m > 1 {
                                    assert(ancestor(p, index, (m - 1) as nat) == ancestor(
                                        p,
                                        start,
                                        (old_lvl + m - 1) as nat,
                                    ));
                                    if ancestor(p, index, (m - 1) as nat) is None {
                                        lemma_none_stays(p, index, (m - 1) as nat, 1);
                                    }
                                }
                            }
                            lvl = old_lvl + m;
                        },
                        None => {
                            assert forall|q: nat| q >= old_lvl + 1 implies !match_at(
                                p,
                                ms,
                                start,
                                q,
                            ) by {
                                assert(ancestor(p, index, (q - old_lvl) as nat) == ancestor(
                                    p,
                                    start,
                                    q,
                                ));
                                assert(!match_at(p, ms, index, (q - old_lvl) as nat));
                            }
                            lvl = old_lvl + 1;
                        },
                    }
                }
                current = next;
            },
        }
    }
    let ghost found = ancestors@;
    match root {
        Some(r) => {
            let n_anc = ancestors.len();
            if n_anc == 0 || ancestors[n_anc - 1] != r {
                ancestors.push(r);
            }
        },
        None => {},
    }
    proof {
        assert forall|e: nat| #[trigger] ancestor(p, start, e) is None implies ancestors@ == with_root(
            matches_below(p, ms, start, e),
            root,
        ) by {
            if e < lvl {
                lemma_none_stays(p, start, e, (lvl - 1 - e) as nat);
            }
            lemma_matches_below_flat(p, ms, start, lvl, e);
        }
    }
    ancestors
}

} // verus!
