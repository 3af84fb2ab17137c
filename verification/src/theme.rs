//! The light and dark themes.
use vstd::prelude::*;

verus! {

/// The colour theme of the application.
#[derive(Debug, Clone, Copy, PartialEq, Eq, Structural, Default)]
pub enum Theme {
    #[default]
    Light,
    Dark,
}

/// The other theme.
pub open spec fn other_theme(t: Theme) -> Theme {
    match t {
        Theme::Light => Theme::Dark,
        Theme::Dark => Theme::Light,
    }
}

impl Theme {
    pub fn toggle(&self) -> (r: Self)
        ensures
            r == other_theme(*self),
    {
        match self {
            Theme::Light => Theme::Dark,
            Theme::Dark => Theme::Light,
        }
    }
}

/// Toggling twice gives the theme back, and toggling always changes it.
pub proof fn law_toggle_involution(t: Theme)
    ensures
        other_theme(other_theme(t)) == t,
        other_theme(t) != t,
{
}

} // verus!
