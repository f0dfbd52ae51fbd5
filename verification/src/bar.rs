//! Bar state: the eight workspace indicators and which one is active.
use vstd::prelude::*;
use crate::colors::{
    Color,
    accent_error,
    accent_immersion,
    accent_primary,
    onyx_muted,
    onyx_text,
};

verus! {

/// Bar configuration
pub const BAR_HEIGHT: u32 = 32;

pub const WORKSPACE_INDICATOR_SIZE: u32 = 8;

pub const WORKSPACE_INDICATOR_GAP: u32 = 12;

pub const WORKSPACE_INDICATOR_PADDING: u32 = 16;

pub const CLOCK_PADDING: u32 = 16;

/// Number of fixed workspaces (matching the compositor)
pub const WORKSPACE_COUNT: usize = 8;

/// First immersion workspace (0-indexed)
pub const IMMERSION_START: usize = 6;

/// Workspace state
#[derive(Debug, Clone, Copy, Default, PartialEq, Eq, Structural)]
pub struct WorkspaceState {
    /// Whether this workspace is currently focused
    pub active: bool,
    /// Whether this workspace has any windows
    pub occupied: bool,
    /// Whether this workspace has urgent windows
    pub urgent: bool,
}

/// Bar state
#[derive(Debug, Clone)]
pub struct BarState {
    /// State of each workspace (8 fixed workspaces)
    pub workspaces: [WorkspaceState; WORKSPACE_COUNT],
    /// Currently active workspace index (0-7)
    pub active_workspace: usize,
}

/// A bar state is well formed when the active index is a workspace and
/// exactly that workspace is marked active.
pub open spec fn bar_wf(s: BarState) -> bool {
    &&& s.active_workspace < WORKSPACE_COUNT
    &&& forall|i: int| 0 <= i < WORKSPACE_COUNT ==> (#[trigger] s.workspaces@[i]).active == (i
        == s.active_workspace)
}

/// The workspaces after making `idx` the active one, as `set_active` changes them.
pub open spec fn activated(s: BarState, idx: usize) -> Seq<WorkspaceState> {
    let cleared = if s.active_workspace < WORKSPACE_COUNT {
        s.workspaces@.update(
            s.active_workspace as int,
            WorkspaceState { active: false, ..s.workspaces@[s.active_workspace as int] },
        )
    } else {
        s.workspaces@
    };
    cleared.update(idx as int, WorkspaceState { active: true, ..cleared[idx as int] })
}

impl Default for BarState {
    fn default() -> (r: Self)
        ensures
            bar_wf(r),
            r.active_workspace == 0,
            forall|i: int|
                0 <= i < WORKSPACE_COUNT ==> !(#[trigger] r.workspaces@[i]).occupied
                    && !r.workspaces@[i].urgent,
    {
        let off = WorkspaceState { active: false, occupied: false, urgent: false };
        let on = WorkspaceState { active: true, occupied: false, urgent: false };
        let workspaces = [on, off, off, off, off, off, off, off];
        let r = Self { workspaces, active_workspace: 0 };
        assert forall|i: int| 0 <= i < WORKSPACE_COUNT implies (#[trigger] r.workspaces@[i]).active
            == (i == 0) && !r.workspaces@[i].occupied && !r.workspaces@[i].urgent by {
            assert(r.workspaces@ =~= seq![on, off, off, off, off, off, off, off]);
        }
        r
    }
}

impl BarState {
    /// Set the active workspace
    pub fn set_active(&mut self, idx: usize)
        ensures
            idx < WORKSPACE_COUNT ==> final(self).workspaces@ == activated(*old(self), idx)
                && final(self).active_workspace == idx,
            idx >= WORKSPACE_COUNT ==> *final(self) == *old(self),
    {
        if idx < WORKSPACE_COUNT {
            // Clear old active
            if self.active_workspace < WORKSPACE_COUNT {
                let a = self.active_workspace;
                let mut w = self.workspaces[a];
                w.active = false;
                self.workspaces[a] = w;
            }
            // Set new active
            let mut w = self.workspaces[idx];
            w.active = true;
            self.workspaces[idx] = w;
            self.active_workspace = idx;
        }
    }

    /// Set whether a workspace is occupied
    pub fn set_occupied(&mut self, idx: usize, occupied: bool)
        ensures
            idx < WORKSPACE_COUNT ==> final(self).workspaces@ == old(self).workspaces@.update(
                idx as int,
                WorkspaceState { occupied, ..old(self).workspaces@[idx as int] },
            ),
            final(self).active_workspace == old(self).active_workspace,
            idx >= WORKSPACE_COUNT ==> *final(self) == *old(self),
    {
        if idx < WORKSPACE_COUNT {
            let mut w = self.workspaces[idx];
            w.occupied = occupied;
            self.workspaces[idx] = w;
        }
    }

    /// Set whether a workspace has urgent windows
    pub fn set_urgent(&mut self, idx: usize, urgent: bool)
        ensures
            idx < WORKSPACE_COUNT ==> final(self).workspaces@ == old(self).workspaces@.update(
                idx as int,
                WorkspaceState { urgent, ..old(self).workspaces@[idx as int] },
            ),
            final(self).active_workspace == old(self).active_workspace,
            idx >= WORKSPACE_COUNT ==> *final(self) == *old(self),
    {
        if idx < WORKSPACE_COUNT {
            let mut w = self.workspaces[idx];
            w.urgent = urgent;
            self.workspaces[idx] = w;
        }
    }
}

/// Making a workspace active keeps a well-formed bar well formed, with the
/// new workspace the only active one; the occupied and urgent marks of every
/// workspace stay as they were.
pub proof fn law_set_active_keeps_wf(s: BarState, idx: usize)
    requires
        bar_wf(s),
        idx < WORKSPACE_COUNT,
    ensures
        forall|i: int|
            0 <= i < WORKSPACE_COUNT ==> (#[trigger] activated(s, idx)[i]).active == (i
                == idx),
        forall|i: int|
            0 <= i < WORKSPACE_COUNT ==> (#[trigger] activated(s, idx)[i]).occupied
                == s.workspaces@[i].occupied && activated(s, idx)[i].urgent
                == s.workspaces@[i].urgent,
{
    assert(s.workspaces@.len() == WORKSPACE_COUNT);
}

/// The kind of indicator drawn for a workspace.
#[derive(Debug, Clone, Copy, PartialEq, Eq, Structural)]
pub enum IndicatorShape {
    /// Regular workspaces
    Circle,
    /// Immersion workspaces
    Diamond,
}

/// The color of the indicator of workspace `i` in state `ws`: urgent first,
/// then active (purple for immersion), then occupied, then the inactive
/// color (a dim purple for immersion).
pub open spec fn indicator_color_spec(i: usize, ws: WorkspaceState) -> Color {
    if ws.urgent {
        Color { r: 255, g: 99, b: 99, a: 255 }
    } else if ws.active {
        if i >= IMMERSION_START {
            Color { r: 178, g: 102, b: 255, a: 255 }
        } else {
            Color { r: 88, g: 166, b: 255, a: 255 }
        }
    } else if ws.occupied {
        Color { r: 220, g: 220, b: 228, a: 255 }
    } else if i >= IMMERSION_START {
        Color { r: 59, g: 34, b: 85, a: 180 }
    } else {
        Color { r: 128, g: 128, b: 140, a: 255 }
    }
}

/// Determine the indicator color based on the workspace state.
pub fn indicator_color(i: usize, ws: WorkspaceState) -> (c: Color)
    ensures
        c == indicator_color_spec(i, ws),
{
    if ws.urgent {
        accent_error()
    } else if ws.active {
        if i >= IMMERSION_START {
            accent_immersion()
        } else {
            accent_primary()
        }
    } else if ws.occupied {
        onyx_text()
    } else if i >= IMMERSION_START {
        let imm = accent_immersion();
        Color::new(imm.r / 3, imm.g / 3, imm.b / 3, 180)
    } else {
        onyx_muted()
    }
}

/// Circle for regular workspaces, diamond for immersion.
pub fn indicator_shape(i: usize) -> (s: IndicatorShape)
    ensures
        s == (if i >= IMMERSION_START {
            IndicatorShape::Diamond
        } else {
            IndicatorShape::Circle
        }),
{
    if i >= IMMERSION_START {
        IndicatorShape::Diamond
    } else {
        IndicatorShape::Circle
    }
}

/// The left edge of indicator `i`, in pixels.
pub fn indicator_x(i: u32) -> (x: u32)
    requires
        i < WORKSPACE_COUNT,
    ensures
        x == WORKSPACE_INDICATOR_PADDING + i * (WORKSPACE_INDICATOR_SIZE
            + WORKSPACE_INDICATOR_GAP),
{
    WORKSPACE_INDICATOR_PADDING + i * (WORKSPACE_INDICATOR_SIZE + WORKSPACE_INDICATOR_GAP)
}


/// The byte of a frame-buffer pixel that byte `k` of the same pixmap pixel
/// goes to: the pixmap is RGBA, the frame buffer BGRA, so red and blue
/// change places.
pub open spec fn frame_channel(k: int) -> int {
    if k == 0 {
        2
    } else if k == 2 {
        0
    } else {
        k
    }
}

/// Byte `j` of a frame buffer after the pixmap is copied into it: each whole
/// pixel of the frame buffer that the pixmap has too takes the pixmap's
/// pixel with red and blue swapped; the other bytes stay.
pub open spec fn frame_byte(frame: Seq<u8>, pixmap: Seq<u8>, j: int) -> u8 {
    let i = j / 4;
    if (i + 1) * 4 <= frame.len() && i * 4 + 3 < pixmap.len() {
        pixmap[i * 4 + frame_channel(j % 4)]
    } else {
        frame[j]
    }
}

/// Copy a rendered RGBA pixmap into a BGRA frame buffer.
pub fn fill_frame(frame: &mut [u8], pixmap: &[u8])
    ensures
        final(frame)@.len() == old(frame)@.len(),
        forall|j: int|
            0 <= j < old(frame)@.len() ==> final(frame)@[j] == #[trigger] frame_byte(
                old(frame)@,
                pixmap@,
                j,
            ),
{
    let ghost start = frame@;
    let total = frame.len();
    let n = total / 4;
    let mut i: usize = 0;
    while i < n
        invariant
            total == start.len(),
            n == total / 4,
            n * 4 <= total,
            i <= n,
            frame@.len() == start.len(),
            forall|j: int| 0 <= j < i * 4 ==> frame@[j] == #[trigger] frame_byte(start, pixmap@, j),
            forall|j: int| i * 4 <= j < start.len() ==> #[trigger] frame@[j] == start[j],
        decreases n - i,
    {
        let base = i * 4;
        if base + 3 < pixmap.len() {
            let r = pixmap[base];
            let g = pixmap[base + 1];
            let b = pixmap[base + 2];
            let a = pixmap[base + 3];
            frame[base] = b;
            frame[base + 1] = g;
            frame[base + 2] = r;
            frame[base + 3] = a;
        }
        assert forall|j: int| base <= j < base + 4 implies frame@[j] == #[trigger] frame_byte(
            start,
            pixmap@,
            j,
        ) by {
            assert(j / 4 == i);
            assert(j % 4 == j - base);
        }
        i = i + 1;
    }
    assert forall|j: int| 0 <= j < start.len() implies frame@[j] == #[trigger] frame_byte(
        start,
        pixmap@,
        j,
    ) by {
        if j >= n * 4 {
            assert(j / 4 == n);
        }
    }
}

} // verus!
