use vstd::prelude::*;

verus! {

/// The layout of tools that the window opens with.
#[derive(Clone, Copy, PartialEq, Eq, Debug, Structural)]
pub enum WorkspaceProfile {
    Surveyor,
    Engineer,
    Gis,
}

impl Default for WorkspaceProfile {
    /// The surveyor's layout.
    fn default() -> (p: Self)
        ensures
            p == WorkspaceProfile::Surveyor,
    {
        WorkspaceProfile::Surveyor
    }
}

/// The colour scheme of the window.
#[derive(Clone, Copy, PartialEq, Eq, Debug, Structural)]
pub enum Theme {
    Dark,
    Light,
}

impl Default for Theme {
    /// The dark scheme.
    fn default() -> (t: Self)
        ensures
            t == Theme::Dark,
    {
        Theme::Dark
    }
}

} // verus!
