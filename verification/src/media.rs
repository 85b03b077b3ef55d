//! Media-query preferences for accessibility and user settings.
//!
//! A browser answers these through `window.matchMedia()` with the query
//! strings below; the browser front end feeds the match results to
//! [`color_scheme_from_dark_match`]. Without a browser (server rendering,
//! native hosts) the preferences are unknown and the functions of this
//! module report the defaults: no forced colors, no contrast, motion or
//! transparency preference, and a light color scheme.
use vstd::prelude::*;

verus! {

/// Media query matching Windows High Contrast Mode.
pub const FORCED_COLORS_QUERY: &'static str = "(forced-colors: active)";

/// Media query matching a preference for more contrast.
pub const HIGH_CONTRAST_QUERY: &'static str = "(prefers-contrast: more)";

/// Media query matching a preference for reduced motion.
pub const REDUCED_MOTION_QUERY: &'static str = "(prefers-reduced-motion: reduce)";

/// Media query matching a preference for reduced transparency.
pub const REDUCED_TRANSPARENCY_QUERY: &'static str = "(prefers-reduced-transparency: reduce)";

/// Media query matching a dark color scheme preference.
pub const DARK_COLOR_SCHEME_QUERY: &'static str = "(prefers-color-scheme: dark)";

/// System color scheme preference.
#[derive(Clone, Copy, Debug, PartialEq, Eq, Structural)]
pub enum ColorScheme {
    /// Light color scheme (default when preference is unknown).
    Light,
    /// Dark color scheme.
    Dark,
}

/// The color scheme reported by the dark-scheme media query's result.
pub fn color_scheme_from_dark_match(dark_matches: bool) -> (r: ColorScheme)
    ensures
        r == (if dark_matches {
            ColorScheme::Dark
        } else {
            ColorScheme::Light
        }),
{
    if dark_matches {
        ColorScheme::Dark
    } else {
        ColorScheme::Light
    }
}

/// Whether forced colors (Windows High Contrast Mode) are active; `false`
/// without a browser.
pub fn is_forced_colors_active() -> (r: bool)
    ensures
        !r,
{
    false
}

/// Whether the user prefers increased contrast; `false` without a browser.
pub fn prefers_high_contrast() -> (r: bool)
    ensures
        !r,
{
    false
}

/// Whether the user prefers reduced motion; `false` without a browser.
pub fn prefers_reduced_motion() -> (r: bool)
    ensures
        !r,
{
    false
}

/// Whether the user prefers reduced transparency; `false` without a
/// browser.
pub fn prefers_reduced_transparency() -> (r: bool)
    ensures
        !r,
{
    false
}

/// The system color scheme preference; [`ColorScheme::Light`] without a
/// browser.
pub fn prefers_color_scheme() -> (r: ColorScheme)
    ensures
        r == ColorScheme::Light,
{
    color_scheme_from_dark_match(false)
}

} // verus!
