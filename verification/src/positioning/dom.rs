//! Containing-block and overlay-containment detection from computed styles.
//!
//! `position: fixed` is relative to the viewport only when no ancestor
//! establishes a containing block. These functions decide, from a snapshot
//! of an ancestor's computed style values, whether it does (and why), and
//! whether its CSS containment may clip or trap overlays.
use crate::text::{
    chars_of, comma_tokens_contain, has_comma_token, has_ws_word, lower, normalized_chars,
    segment_equals, trim, ws_words_contain,
};
use vstd::prelude::*;

verus! {

/// The CSS feature through which an ancestor establishes a containing
/// block.
#[derive(Clone, Copy, Debug, PartialEq, Eq, Structural)]
pub enum ContainingBlockReason {
    /// A `transform` other than `none`.
    Transform,
    /// A `perspective` other than `none`.
    Perspective,
    /// A `filter` other than `none`.
    Filter,
    /// A `backdrop-filter` other than `none`.
    BackdropFilter,
    /// `contain: layout | paint | strict | content`.
    Contain,
    /// `content-visibility: auto`.
    ContentVisibility,
    /// A `container-type` other than `normal`.
    ContainerType,
    /// `will-change: transform`.
    WillChangeTransform,
    /// `will-change: perspective`.
    WillChangePerspective,
    /// `will-change: filter`.
    WillChangeFilter,
    /// `will-change: backdrop-filter`.
    WillChangeBackdropFilter,
}

/// The CSS property (or property and value) named by a reason.
pub open spec fn reason_property_name(r: ContainingBlockReason) -> Seq<char> {
    match r {
        ContainingBlockReason::Transform => "transform"@,
        ContainingBlockReason::Perspective => "perspective"@,
        ContainingBlockReason::Filter => "filter"@,
        ContainingBlockReason::BackdropFilter => "backdrop-filter"@,
        ContainingBlockReason::Contain => "contain"@,
        ContainingBlockReason::ContentVisibility => "content-visibility"@,
        ContainingBlockReason::ContainerType => "container-type"@,
        ContainingBlockReason::WillChangeTransform => "will-change: transform"@,
        ContainingBlockReason::WillChangePerspective => "will-change: perspective"@,
        ContainingBlockReason::WillChangeFilter => "will-change: filter"@,
        ContainingBlockReason::WillChangeBackdropFilter => "will-change: backdrop-filter"@,
    }
}

impl ContainingBlockReason {
    /// The CSS property (or `will-change` value) responsible, for
    /// diagnostics.
    pub fn property_name(self) -> (r: &'static str)
        ensures
            r@ == reason_property_name(self),
    {
        match self {
            ContainingBlockReason::Transform => "transform",
            ContainingBlockReason::Perspective => "perspective",
            ContainingBlockReason::Filter => "filter",
            ContainingBlockReason::BackdropFilter => "backdrop-filter",
            ContainingBlockReason::Contain => "contain",
            ContainingBlockReason::ContentVisibility => "content-visibility",
            ContainingBlockReason::ContainerType => "container-type",
            ContainingBlockReason::WillChangeTransform => "will-change: transform",
            ContainingBlockReason::WillChangePerspective => "will-change: perspective",
            ContainingBlockReason::WillChangeFilter => "will-change: filter",
            ContainingBlockReason::WillChangeBackdropFilter => "will-change: backdrop-filter",
        }
    }
}

/// The computed style values of one element that bear on containing blocks
/// (empty when a value is unavailable).
#[derive(Debug)]
pub struct StyleSnapshot {
    /// `transform`.
    pub transform: String,
    /// `perspective`.
    pub perspective: String,
    /// `filter`.
    pub filter: String,
    /// `backdrop-filter`.
    pub backdrop_filter: String,
    /// `contain`.
    pub contain: String,
    /// `container-type`.
    pub container_type: String,
    /// `will-change`.
    pub will_change: String,
    /// `content-visibility`.
    pub content_visibility: String,
}

impl Default for StyleSnapshot {
    fn default() -> (r: Self)
        ensures
            r.transform@.len() == 0,
            r.perspective@.len() == 0,
            r.filter@.len() == 0,
            r.backdrop_filter@.len() == 0,
            r.contain@.len() == 0,
            r.container_type@.len() == 0,
            r.will_change@.len() == 0,
            r.content_visibility@.len() == 0,
    {
        StyleSnapshot {
            transform: String::new(),
            perspective: String::new(),
            filter: String::new(),
            backdrop_filter: String::new(),
            contain: String::new(),
            container_type: String::new(),
            will_change: String::new(),
            content_visibility: String::new(),
        }
    }
}

/// A computed value, trimmed and ASCII lower-cased.
pub open spec fn normalized(v: Seq<char>) -> Seq<char> {
    lower(trim(v))
}

/// A value is "active" when it is present and differs from its default.
pub open spec fn active_value(v: Seq<char>, default: Seq<char>) -> bool {
    normalized(v).len() > 0 && normalized(v) != default
}

/// Some white-space separated keyword of the normalized value is `word`.
pub open spec fn has_keyword(v: Seq<char>, word: Seq<char>) -> bool {
    has_ws_word(normalized(v), word)
}

/// Some comma-separated entry of the normalized value is `entry`.
pub open spec fn has_entry(v: Seq<char>, entry: Seq<char>) -> bool {
    has_comma_token(normalized(v), entry)
}

/// `contain` holds one of the keywords that establish a containing block.
pub open spec fn contain_establishes(v: Seq<char>) -> bool {
    has_keyword(v, "layout"@) || has_keyword(v, "paint"@) || has_keyword(v, "strict"@)
        || has_keyword(v, "content"@)
}

/// Why an element with style `s` establishes a containing block, checked
/// in the order transform, perspective, filter, backdrop-filter, contain,
/// content-visibility, container-type, will-change.
pub open spec fn containing_block_reason_of(s: StyleSnapshot) -> Option<ContainingBlockReason> {
    if active_value(s.transform@, "none"@) {
        Some(ContainingBlockReason::Transform)
    } else if active_value(s.perspective@, "none"@) {
        Some(ContainingBlockReason::Perspective)
    } else if active_value(s.filter@, "none"@) {
        Some(ContainingBlockReason::Filter)
    } else if active_value(s.backdrop_filter@, "none"@) {
        Some(ContainingBlockReason::BackdropFilter)
    } else if contain_establishes(s.contain@) {
        Some(ContainingBlockReason::Contain)
    } else if normalized(s.content_visibility@) == "auto"@ {
        Some(ContainingBlockReason::ContentVisibility)
    } else if active_value(s.container_type@, "normal"@) {
        Some(ContainingBlockReason::ContainerType)
    } else if has_entry(s.will_change@, "transform"@) {
        Some(ContainingBlockReason::WillChangeTransform)
    } else if has_entry(s.will_change@, "perspective"@) {
        Some(ContainingBlockReason::WillChangePerspective)
    } else if has_entry(s.will_change@, "filter"@) {
        Some(ContainingBlockReason::WillChangeFilter)
    } else if has_entry(s.will_change@, "backdrop-filter"@) {
        Some(ContainingBlockReason::WillChangeBackdropFilter)
    } else {
        None
    }
}

/// The containment keyword that may clip or trap overlays, checked in the
/// order layout, paint, strict, content.
pub open spec fn overlay_containment_of(contain: Seq<char>) -> Option<Seq<char>> {
    if has_keyword(contain, "layout"@) {
        Some("contain: layout"@)
    } else if has_keyword(contain, "paint"@) {
        Some("contain: paint"@)
    } else if has_keyword(contain, "strict"@) {
        Some("contain: strict"@)
    } else if has_keyword(contain, "content"@) {
        Some("contain: content"@)
    } else {
        None
    }
}

/// A computed value, trimmed and ASCII lower-cased.
pub fn normalized_css_value(value: &str) -> (r: Vec<char>)
    ensures
        r@ == normalized(value@),
{
    normalized_chars(value)
}

/// Whether `value` is present and differs from `default`.
pub fn is_active_css_value(value: &str, default: &str) -> (r: bool)
    ensures
        r == active_value(value@, default@),
{
    let v = normalized_chars(value);
    let d = chars_of(default);
    assert(v@.subrange(0, v.len() as int) =~= v@);
    v.len() > 0 && !segment_equals(&v, 0, v.len(), &d)
}

/// Whether a comma-separated entry of the normalized `value` equals
/// `expected` (as in `will-change: opacity, filter`).
pub fn contains_comma_separated_token(value: &str, expected: &str) -> (r: bool)
    ensures
        r == has_entry(value@, expected@),
{
    let v = normalized_chars(value);
    let e = chars_of(expected);
    comma_tokens_contain(&v, &e)
}

/// Whether a white-space separated keyword of the normalized `value` equals
/// `expected` (as in `contain: layout paint`).
pub fn contains_whitespace_token(value: &str, expected: &str) -> (r: bool)
    ensures
        r == has_keyword(value@, expected@),
{
    let v = normalized_chars(value);
    let e = chars_of(expected);
    ws_words_contain(&v, &e)
}

/// Whether the normalized `value` is exactly `expected`.
fn normalized_equals(value: &str, expected: &str) -> (r: bool)
    ensures
        r == (normalized(value@) == expected@),
{
    let v = normalized_chars(value);
    let e = chars_of(expected);
    assert(v@.subrange(0, v.len() as int) =~= v@);
    segment_equals(&v, 0, v.len(), &e)
}

/// Why an element with computed style `style` establishes a containing
/// block for fixed-position descendants, if it does.
pub fn containing_block_reason(style: &StyleSnapshot) -> (r: Option<ContainingBlockReason>)
    ensures
        r == containing_block_reason_of(*style),
{
    if is_active_css_value(style.transform.as_str(), "none") {
        return Some(ContainingBlockReason::Transform);
    }
    if is_active_css_value(style.perspective.as_str(), "none") {
        return Some(ContainingBlockReason::Perspective);
    }
    if is_active_css_value(style.filter.as_str(), "none") {
        return Some(ContainingBlockReason::Filter);
    }
    if is_active_css_value(style.backdrop_filter.as_str(), "none") {
        return Some(ContainingBlockReason::BackdropFilter);
    }
    if contains_whitespace_token(style.contain.as_str(), "layout") || contains_whitespace_token(
        style.contain.as_str(),
        "paint",
    ) || contains_whitespace_token(style.contain.as_str(), "strict") || contains_whitespace_token(
        style.contain.as_str(),
        "content",
    ) {
        return Some(ContainingBlockReason::Contain);
    }
    if normalized_equals(style.content_visibility.as_str(), "auto") {
        return Some(ContainingBlockReason::ContentVisibility);
    }
    if is_active_css_value(style.container_type.as_str(), "normal") {
        return Some(ContainingBlockReason::ContainerType);
    }
    if contains_comma_separated_token(style.will_change.as_str(), "transform") {
        return Some(ContainingBlockReason::WillChangeTransform);
    }
    if contains_comma_separated_token(style.will_change.as_str(), "perspective") {
        return Some(ContainingBlockReason::WillChangePerspective);
    }
    if contains_comma_separated_token(style.will_change.as_str(), "filter") {
        return Some(ContainingBlockReason::WillChangeFilter);
    }
    if contains_comma_separated_token(style.will_change.as_str(), "backdrop-filter") {
        return Some(ContainingBlockReason::WillChangeBackdropFilter);
    }
    None
}

/// The containment of an element with computed style `style` that may clip
/// or trap overlays rendered inside it, as `"contain: <keyword>"`.
pub fn overlay_containment_warning(style: &StyleSnapshot) -> (r: Option<&'static str>)
    ensures
        r.is_some() == overlay_containment_of(style.contain@).is_some(),
        r.is_some() ==> r.unwrap()@ == overlay_containment_of(style.contain@).unwrap(),
{
    if contains_whitespace_token(style.contain.as_str(), "layout") {
        return Some("contain: layout");
    }
    if contains_whitespace_token(style.contain.as_str(), "paint") {
        return Some("contain: paint");
    }
    if contains_whitespace_token(style.contain.as_str(), "strict") {
        return Some("contain: strict");
    }
    if contains_whitespace_token(style.contain.as_str(), "content") {
        return Some("contain: content");
    }
    None
}

/// Every containment that may trap overlays also establishes a containing
/// block, so an ancestor flagged for overlay containment always breaks
/// fixed positioning too.
pub proof fn law_overlay_containment_implies_containing_block(s: StyleSnapshot)
    requires
        overlay_containment_of(s.contain@).is_some(),
    ensures
        containing_block_reason_of(s).is_some(),
{
}

} // verus!
