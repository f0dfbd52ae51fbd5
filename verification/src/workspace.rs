//! The workspace management routine of the compositor.
//!
//! - 8 fixed workspaces (1-6 regular, 7-8 immersion)
//! - 1D horizontal strip layout per workspace
//! - Fixed window sizes: 1u, 2u, 3u, Frame
use vstd::prelude::*;

verus! {

/// Total number of workspaces (fixed, not dynamic).
pub const WORKSPACE_COUNT: usize = 8;

/// First immersion workspace (0-indexed).
pub const IMMERSION_START: usize = 6;

/// Window size unit as a fraction of screen width.
#[derive(Debug, Clone, Copy, PartialEq, Eq, Structural)]
pub enum WindowUnit {
    /// 1/3 screen width
    Unit1,
    /// 2/3 screen width
    Unit2,
    /// Full width (with decorations)
    Unit3,
    /// True fullscreen (no decorations)
    Frame,
}

impl Default for WindowUnit {
    fn default() -> (r: Self)
        ensures
            r == WindowUnit::Unit1,
    {
        WindowUnit::Unit1
    }
}

/// The size that follows `u` in the 1u -> 2u -> 3u -> 1u cycle; Frame stays.
pub open spec fn next_unit(u: WindowUnit) -> WindowUnit {
    match u {
        WindowUnit::Unit1 => WindowUnit::Unit2,
        WindowUnit::Unit2 => WindowUnit::Unit3,
        WindowUnit::Unit3 => WindowUnit::Unit1,
        WindowUnit::Frame => WindowUnit::Frame,
    }
}

/// The width of a window of size `u`, in thirds of the screen width.
pub open spec fn thirds_of(u: WindowUnit) -> u8 {
    match u {
        WindowUnit::Unit1 => 1,
        WindowUnit::Unit2 => 2,
        WindowUnit::Unit3 => 3,
        WindowUnit::Frame => 3,
    }
}

impl WindowUnit {
    /// The width in thirds of the screen width: 1u is one third, 2u two
    /// thirds, 3u and Frame the full width.
    pub fn width_thirds(&self) -> (r: u8)
        ensures
            r == thirds_of(*self),
            1 <= r <= 3,
    {
        match self {
            WindowUnit::Unit1 => 1,
            WindowUnit::Unit2 => 2,
            WindowUnit::Unit3 => 3,
            WindowUnit::Frame => 3,
        }
    }

    /// Cycle to the next size (1u -> 2u -> 3u -> 1u).
    /// Frame is toggled separately.
    pub fn cycle_next(&self) -> (r: Self)
        ensures
            r == next_unit(*self),
    {
        match self {
            WindowUnit::Unit1 => WindowUnit::Unit2,
            WindowUnit::Unit2 => WindowUnit::Unit3,
            WindowUnit::Unit3 => WindowUnit::Unit1,
            WindowUnit::Frame => WindowUnit::Frame,
        }
    }

    /// Whether this is an immersion/fullscreen mode.
    pub fn is_fullscreen(&self) -> (r: bool)
        ensures
            r == (*self == WindowUnit::Frame),
    {
        matches!(self, WindowUnit::Frame)
    }

    /// Whether this window should have decorations.
    pub fn has_decorations(&self) -> (r: bool)
        ensures
            r == (*self != WindowUnit::Frame),
    {
        !matches!(self, WindowUnit::Frame)
    }
}

/// Workspace type classification.
#[derive(Debug, Clone, Copy, PartialEq, Eq, Structural)]
pub enum WorkspaceType {
    /// Regular workspace (1-6) - allows 1u/2u/3u/Frame windows
    Regular,
    /// Immersion workspace (7-8) - forces Frame mode, no decorations
    Immersion,
}

/// The type of the workspace at a 0-based index.
pub open spec fn type_of_index(idx: int) -> WorkspaceType {
    if idx >= IMMERSION_START {
        WorkspaceType::Immersion
    } else {
        WorkspaceType::Regular
    }
}

impl WorkspaceType {
    /// Get the workspace type for a given workspace index (0-indexed).
    pub fn from_index(idx: usize) -> (r: Self)
        ensures
            r == type_of_index(idx as int),
    {
        if idx >= IMMERSION_START {
            WorkspaceType::Immersion
        } else {
            WorkspaceType::Regular
        }
    }

    /// Whether this workspace forces fullscreen mode.
    pub fn forces_fullscreen(&self) -> (r: bool)
        ensures
            r == (*self == WorkspaceType::Immersion),
    {
        matches!(self, WorkspaceType::Immersion)
    }

    /// Whether windows on this workspace should have decorations.
    pub fn allows_decorations(&self) -> (r: bool)
        ensures
            r == (*self == WorkspaceType::Regular),
    {
        matches!(self, WorkspaceType::Regular)
    }
}

/// Check if a workspace index is valid (0-7).
pub fn is_valid_workspace_index(idx: usize) -> (r: bool)
    ensures
        r == (idx < WORKSPACE_COUNT),
{
    idx < WORKSPACE_COUNT
}

/// Check if a workspace index is an immersion workspace.
pub fn is_immersion_workspace(idx: usize) -> (r: bool)
    ensures
        r == (IMMERSION_START <= idx && idx < WORKSPACE_COUNT),
{
    idx >= IMMERSION_START && idx < WORKSPACE_COUNT
}

/// The names of the fixed workspaces: "1" to "6", then "IMM-7" and
/// "IMM-8" for the immersion workspaces.
pub open spec fn workspace_label(idx: int) -> Seq<char> {
    if idx == 0 {
        "1"@
    } else if idx == 1 {
        "2"@
    } else if idx == 2 {
        "3"@
    } else if idx == 3 {
        "4"@
    } else if idx == 4 {
        "5"@
    } else if idx == 5 {
        "6"@
    } else if idx == 6 {
        "IMM-7"@
    } else {
        "IMM-8"@
    }
}

/// The name of the workspace at a 0-based index, from the table of
/// workspace names.
pub fn workspace_name(idx: usize) -> (r: Option<&'static str>)
    ensures
        r is Some <==> idx < WORKSPACE_COUNT,
        r matches Some(n) ==> n@ == workspace_label(idx as int),
{
    if idx == 0 {
        Some("1")
    } else if idx == 1 {
        Some("2")
    } else if idx == 2 {
        Some("3")
    } else if idx == 3 {
        Some("4")
    } else if idx == 4 {
        Some("5")
    } else if idx == 5 {
        Some("6")
    } else if idx == 6 {
        Some("IMM-7")
    } else if idx == 7 {
        Some("IMM-8")
    } else {
        None
    }
}

/// Cycling the size three times returns to the starting size, and a sized
/// (non-Frame) window never cycles into Frame.
pub proof fn law_cycle_period(u: WindowUnit)
    ensures
        next_unit(next_unit(next_unit(u))) == u,
        u != WindowUnit::Frame ==> next_unit(u) != WindowUnit::Frame,
        u != WindowUnit::Frame ==> next_unit(u) != u,
{
}

/// A valid workspace index forces fullscreen exactly when it is an
/// immersion workspace, and its windows have decorations exactly when it does
/// not force fullscreen.
pub proof fn law_immersion_classification(idx: usize)
    requires
        idx < WORKSPACE_COUNT,
    ensures
        (type_of_index(idx as int) == WorkspaceType::Immersion) == (IMMERSION_START <= idx
            && idx < WORKSPACE_COUNT),
        (type_of_index(idx as int) == WorkspaceType::Regular) == !(type_of_index(idx as int)
            == WorkspaceType::Immersion),
{
}

} // verus!
