//! Character-level string helpers shared by the CSS, platform and
//! identifier logic of the crate.
//!
//! Strings are modelled by their character sequences (`s@`). The helpers
//! implement the few `str` operations the rest of the crate relies on
//! (substring search, equality, trimming, ASCII lower-casing and token
//! splitting) with contracts stated over those sequences.
use vstd::prelude::*;

verus! {

/// Whether `c` has the Unicode `White_Space` property (the set used by
/// `char::is_whitespace`, `str::trim` and `str::split_whitespace`).
pub open spec fn is_ws(c: char) -> bool {
    ||| ('\u{9}' <= c && c <= '\u{d}')
    ||| c == ' '
    ||| c == '\u{85}'
    ||| c == '\u{a0}'
    ||| c == '\u{1680}'
    ||| ('\u{2000}' <= c && c <= '\u{200a}')
    ||| c == '\u{2028}'
    ||| c == '\u{2029}'
    ||| c == '\u{202f}'
    ||| c == '\u{205f}'
    ||| c == '\u{3000}'
}

/// Whether `c` is Unicode white space.
pub fn is_whitespace(c: char) -> (r: bool)
    ensures
        r == is_ws(c),
{
    ('\u{9}' <= c && c <= '\u{d}') || c == ' ' || c == '\u{85}' || c == '\u{a0}' || c == '\u{1680}'
        || ('\u{2000}' <= c && c <= '\u{200a}') || c == '\u{2028}' || c == '\u{2029}' || c
        == '\u{202f}' || c == '\u{205f}' || c == '\u{3000}'
}

/// `s` with its leading white space removed.
pub open spec fn trim_start(s: Seq<char>) -> Seq<char>
    decreases s.len(),
{
    if s.len() > 0 && is_ws(s[0]) {
        trim_start(s.subrange(1, s.len() as int))
    } else {
        s
    }
}

/// `s` with its trailing white space removed.
pub open spec fn trim_end(s: Seq<char>) -> Seq<char>
    decreases s.len(),
{
    if s.len() > 0 && is_ws(s[s.len() - 1]) {
        trim_end(s.subrange(0, s.len() - 1))
    } else {
        s
    }
}

/// `s` with leading and trailing white space removed (`str::trim`).
pub open spec fn trim(s: Seq<char>) -> Seq<char> {
    trim_end(trim_start(s))
}

/// The ASCII lower-case form of one character.
pub open spec fn ascii_lower(c: char) -> char {
    if 'A' <= c && c <= 'Z' {
        ((c as u32) + 32) as char
    } else {
        c
    }
}

/// `s` with ASCII upper-case letters mapped to lower case
/// (`str::to_ascii_lowercase`).
pub open spec fn lower(s: Seq<char>) -> Seq<char> {
    s.map_values(|c: char| ascii_lower(c))
}

/// Whether `t` occurs in `s` as a contiguous run of characters.
pub open spec fn has_substring(s: Seq<char>, t: Seq<char>) -> bool {
    exists|i: int| 0 <= i && i + t.len() <= s.len() && #[trigger] s.subrange(i, i + t.len()) == t
}

/// The characters of `s`, in order.
pub fn chars_of(s: &str) -> (r: Vec<char>)
    ensures
        r@ == s@,
{
    let mut out: Vec<char> = Vec::new();
    for c in it: s.chars()
        invariant
            out@ == it.seq().take(it.index() as int),
    {
        out.push(c);
    }
    out
}

/// Whether `s[lo..hi]` equals `t`.
pub fn segment_equals(s: &Vec<char>, lo: usize, hi: usize, t: &Vec<char>) -> (r: bool)
    requires
        lo <= hi <= s.len(),
    ensures
        r == (s@.subrange(lo as int, hi as int) == t@),
{
    if hi - lo != t.len() {
        return false;
    }
    let mut k: usize = 0;
    while k < t.len()
        invariant
            lo <= hi <= s.len(),
            hi - lo == t.len(),
            k <= t.len(),
            forall|m: int| 0 <= m < k ==> s@[lo + m] == t@[m],
        decreases t.len() - k,
    {
        if s[lo + k] != t[k] {
            assert(s@.subrange(lo as int, hi as int)[k as int] != t@[k as int]);
            return false;
        }
        k = k + 1;
    }
    assert(s@.subrange(lo as int, hi as int) =~= t@);
    true
}

/// Whether two strings hold the same characters.
pub fn str_equals(a: &str, b: &str) -> (r: bool)
    ensures
        r == (a@ == b@),
{
    let av = chars_of(a);
    let bv = chars_of(b);
    assert(av@.subrange(0, av.len() as int) =~= av@);
    segment_equals(&av, 0, av.len(), &bv)
}

/// Whether `needle` occurs in `hay` (`str::contains` with a string
/// pattern).
pub fn contains_str(hay: &str, needle: &str) -> (r: bool)
    ensures
        r == has_substring(hay@, needle@),
{
    let h = chars_of(hay);
    let n = chars_of(needle);
    if n.len() > h.len() {
        return false;
    }
    let last = h.len() - n.len();
    let mut i: usize = 0;
    loop
        invariant
            h@ == hay@,
            n@ == needle@,
            last == h.len() - n.len(),
            n.len() <= h.len(),
            i <= last,
            forall|j: int| 0 <= j < i ==> #[trigger] h@.subrange(j, j + n.len()) != n@,
        decreases last - i,
    {
        if segment_equals(&h, i, i + n.len(), &n) {
            return true;
        }
        if i == last {
            proof {
                if has_substring(hay@, needle@) {
                    let j = choose|j: int|
                        0 <= j && j + needle@.len() <= hay@.len() && #[trigger] hay@.subrange(
                            j,
                            j + needle@.len(),
                        ) == needle@;
                    assert(h@.subrange(j, j + n.len()) == n@);
                }
            }
            return false;
        }
        i = i + 1;
    }
}

/// The white-space trimmed bounds `(lo, hi)` of `s[start..end]`:
/// `s[lo..hi] == trim(s[start..end])`.
pub fn trim_bounds(s: &Vec<char>, start: usize, end: usize) -> (r: (usize, usize))
    requires
        start <= end <= s.len(),
    ensures
        start <= r.0 <= r.1 <= end,
        s@.subrange(r.0 as int, r.1 as int) == trim(s@.subrange(start as int, end as int)),
{
    let mut lo = start;
    while lo < end && is_whitespace(s[lo])
        invariant
            start <= lo <= end <= s.len(),
            trim_start(s@.subrange(start as int, end as int)) == trim_start(
                s@.subrange(lo as int, end as int),
            ),
        decreases end - lo,
    {
        assert(s@.subrange(lo as int, end as int).subrange(1, end - lo) =~= s@.subrange(
            lo + 1,
            end as int,
        ));
        lo = lo + 1;
    }
    assert(trim_start(s@.subrange(lo as int, end as int)) == s@.subrange(lo as int, end as int));
    let mut hi = end;
    while hi > lo && is_whitespace(s[hi - 1])
        invariant
            start <= lo <= hi <= end <= s.len(),
            trim_end(s@.subrange(lo as int, end as int)) == trim_end(
                s@.subrange(lo as int, hi as int),
            ),
        decreases hi - lo,
    {
        assert(s@.subrange(lo as int, hi as int).subrange(0, hi - lo - 1) =~= s@.subrange(
            lo as int,
            hi - 1,
        ));
        hi = hi - 1;
    }
    (lo, hi)
}

/// The ASCII lower-case form of one character.
pub fn to_ascii_lower(c: char) -> (r: char)
    ensures
        r == ascii_lower(c),
{
    if 'A' <= c && c <= 'Z' {
        let code: u32 = (c as u32) + 32;
        assert(('a' as u32) <= code <= ('z' as u32));
        char_from_ascii(code)
    } else {
        c
    }
}

/// The character with ASCII code `code`.
fn char_from_ascii(code: u32) -> (r: char)
    requires
        ('a' as u32) <= code <= ('z' as u32),
    ensures
        r == code as char,
{
    let b: u8 = code as u8;
    b as char
}

/// The white-space trimmed, ASCII lower-cased characters of `s` (the
/// normalisation used for computed CSS values).
pub fn normalized_chars(s: &str) -> (r: Vec<char>)
    ensures
        r@ == lower(trim(s@)),
{
    let v = chars_of(s);
    let (lo, hi) = trim_bounds(&v, 0, v.len());
    assert(v@.subrange(0, v.len() as int) =~= v@);
    let mut out: Vec<char> = Vec::new();
    let mut k = lo;
    while k < hi
        invariant
            lo <= k <= hi <= v.len(),
            out@ =~= lower(v@.subrange(lo as int, k as int)),
        decreases hi - k,
    {
        out.push(to_ascii_lower(v[k]));
        k = k + 1;
    }
    out
}

/// `s[i..j]` is one of the pieces of `s` split at commas (`str::split(',')`).
pub open spec fn comma_piece(s: Seq<char>, i: int, j: int) -> bool {
    &&& 0 <= i <= j <= s.len()
    &&& (i == 0 || s[i - 1] == ',')
    &&& (j == s.len() || s[j] == ',')
    &&& forall|m: int| i <= m < j ==> s[m] != ','
}

/// Some comma-separated piece of `s`, trimmed of white space, equals `t`.
pub open spec fn has_comma_token(s: Seq<char>, t: Seq<char>) -> bool {
    exists|i: int, j: int| comma_piece(s, i, j) && #[trigger] trim(s.subrange(i, j)) == t
}

/// `s[i..j]` is one of the words of `s` (`str::split_whitespace`): a
/// maximal non-empty run without white space.
pub open spec fn ws_word(s: Seq<char>, i: int, j: int) -> bool {
    &&& 0 <= i < j <= s.len()
    &&& (i == 0 || is_ws(s[i - 1]))
    &&& (j == s.len() || is_ws(s[j]))
    &&& forall|m: int| i <= m < j ==> !is_ws(s[m])
}

/// Some white-space separated word of `s` equals `t`.
pub open spec fn has_ws_word(s: Seq<char>, t: Seq<char>) -> bool {
    exists|i: int, j: int| ws_word(s, i, j) && #[trigger] s.subrange(i, j) == t
}

/// Whether a comma-separated piece of `s`, once trimmed, equals `t`.
pub fn comma_tokens_contain(s: &Vec<char>, t: &Vec<char>) -> (r: bool)
    ensures
        r == has_comma_token(s@, t@),
{
    let n = s.len();
    let mut st: usize = 0;
    let mut k: usize = 0;
    loop
        invariant
            n == s.len(),
            st <= k <= n,
            st == 0 || s@[st - 1] == ',',
            forall|m: int| st <= m < k ==> s@[m] != ',',
            forall|i: int, j: int|
                comma_piece(s@, i, j) && j < st ==> #[trigger] trim(s@.subrange(i, j)) != t@,
        decreases n - k,
    {
        if k == n || s[k] == ',' {
            let (lo, hi) = trim_bounds(s, st, k);
            if segment_equals(s, lo, hi, t) {
                assert(comma_piece(s@, st as int, k as int));
                return true;
            }
            assert forall|i: int, j: int| comma_piece(s@, i, j) && j <= k implies #[trigger] trim(
                s@.subrange(i, j),
            ) != t@ by {
                if j >= st {
                    if j < k {
                        assert(s@[j] == ',');
                    }
                    if i < st {
                        assert(s@[st - 1] == ',');
                    }
                    if i > st {
                        assert(s@[i - 1] == ',');
                    }
                }
            }
            if k == n {
                return false;
            }
            st = k + 1;
        }
        k = k + 1;
    }
}

/// Whether a white-space separated word of `s` equals `t`.
pub fn ws_words_contain(s: &Vec<char>, t: &Vec<char>) -> (r: bool)
    ensures
        r == has_ws_word(s@, t@),
{
    let n = s.len();
    let mut st: usize = 0;
    let mut k: usize = 0;
    loop
        invariant
            n == s.len(),
            st <= k <= n,
            st == 0 || is_ws(s@[st - 1]),
            forall|m: int| st <= m < k ==> !is_ws(s@[m]),
            forall|i: int, j: int| ws_word(s@, i, j) && j < st ==> #[trigger] s@.subrange(i, j) != t@,
        decreases n - k,
    {
        if k == n || is_whitespace(s[k]) {
            if st < k && segment_equals(s, st, k, t) {
                assert(ws_word(s@, st as int, k as int));
                return true;
            }
            assert forall|i: int, j: int| ws_word(s@, i, j) && j <= k implies #[trigger] s@.subrange(
                i,
                j,
            ) != t@ by {
                if j >= st {
                    if j < k {
                        assert(is_ws(s@[j]));
                    }
                    if i < st {
                        assert(is_ws(s@[st - 1]));
                    }
                    if i > st {
                        assert(is_ws(s@[i - 1]));
                    }
                }
            }
            if k == n {
                return false;
            }
            st = k + 1;
        }
        k = k + 1;
    }
}

} // verus!
