use vstd::prelude::*;

verus! {

/// Tags for program color theme
#[derive(Debug, Clone, Copy, PartialEq, Eq, Structural)]
pub enum Theme {
    Light,
    Dark,
}

impl Default for Theme {
    fn default() -> (t: Theme)
        ensures
            t == Theme::Light,
    {
        Theme::Light
    }
}

/// Provides instruction as to how workspaces should be laid out
#[derive(Debug, Clone, Copy, PartialEq, Eq, Structural)]
pub enum Layout {
    /// One next to another
    Parallel,
    /// One at a time in tabs
    Stacking(usize),
}

impl Default for Layout {
    fn default() -> (l: Layout)
        ensures
            l == Layout::Parallel,
    {
        Layout::Parallel
    }
}

/// Tag used to style UI widgets
#[derive(Debug, Clone, Copy, PartialEq, Eq, Structural)]
pub enum Style {
    Header,
    Frame,
    Margins,
    Danger,
    Action,
}

} // verus!
