//! Hardcoded keybindings of the compositor.
//!
//! The compositor uses a fixed set of keybindings that cannot be changed by the
//! user. This enforces a muscle-memory-driven workflow.
use vstd::prelude::*;

verus! {

/// The modifier keys held during a key event.
#[derive(Debug, Clone, Copy, PartialEq, Eq, Structural, Default)]
pub struct Modifiers {
    pub ctrl: bool,
    pub alt: bool,
    pub shift: bool,
    pub caps_lock: bool,
    pub logo: bool,
    pub num_lock: bool,
    pub iso_level3_shift: bool,
}

impl Modifiers {
    /// Super (Mod4) alone.
    pub fn super_only() -> (r: Self)
        ensures
            r.logo && !r.shift && !r.ctrl && !r.alt && !r.caps_lock && !r.num_lock
                && !r.iso_level3_shift,
    {
        Modifiers {
            ctrl: false,
            alt: false,
            shift: false,
            caps_lock: false,
            logo: true,
            num_lock: false,
            iso_level3_shift: false,
        }
    }

    /// Super and Shift.
    pub fn super_shift() -> (r: Self)
        ensures
            r.logo && r.shift && !r.ctrl && !r.alt && !r.caps_lock && !r.num_lock
                && !r.iso_level3_shift,
    {
        Modifiers {
            ctrl: false,
            alt: false,
            shift: true,
            caps_lock: false,
            logo: true,
            num_lock: false,
            iso_level3_shift: false,
        }
    }
}

// X keysym values (xkbcommon) of the keys that the bindings use.
#[allow(non_upper_case_globals)]
pub const XK_space: u32 = 0x0020;
#[allow(non_upper_case_globals)]
pub const XK_F: u32 = 0x0046;
#[allow(non_upper_case_globals)]
pub const XK_H: u32 = 0x0048;
#[allow(non_upper_case_globals)]
pub const XK_J: u32 = 0x004a;
#[allow(non_upper_case_globals)]
pub const XK_K: u32 = 0x004b;
#[allow(non_upper_case_globals)]
pub const XK_L: u32 = 0x004c;
#[allow(non_upper_case_globals)]
pub const XK_O: u32 = 0x004f;
#[allow(non_upper_case_globals)]
pub const XK_Q: u32 = 0x0051;
#[allow(non_upper_case_globals)]
pub const XK_R: u32 = 0x0052;
#[allow(non_upper_case_globals)]
pub const XK_V: u32 = 0x0056;
#[allow(non_upper_case_globals)]
pub const XK_f: u32 = 0x0066;
#[allow(non_upper_case_globals)]
pub const XK_h: u32 = 0x0068;
#[allow(non_upper_case_globals)]
pub const XK_j: u32 = 0x006a;
#[allow(non_upper_case_globals)]
pub const XK_k: u32 = 0x006b;
#[allow(non_upper_case_globals)]
pub const XK_l: u32 = 0x006c;
#[allow(non_upper_case_globals)]
pub const XK_o: u32 = 0x006f;
#[allow(non_upper_case_globals)]
pub const XK_q: u32 = 0x0071;
#[allow(non_upper_case_globals)]
pub const XK_r: u32 = 0x0072;
#[allow(non_upper_case_globals)]
pub const XK_v: u32 = 0x0076;
#[allow(non_upper_case_globals)]
pub const XK_Return: u32 = 0xff0d;
#[allow(non_upper_case_globals)]
pub const XK_Escape: u32 = 0xff1b;
#[allow(non_upper_case_globals)]
pub const XK_Left: u32 = 0xff51;
#[allow(non_upper_case_globals)]
pub const XK_Up: u32 = 0xff52;
#[allow(non_upper_case_globals)]
pub const XK_Right: u32 = 0xff53;
#[allow(non_upper_case_globals)]
pub const XK_Down: u32 = 0xff54;

/// Actions that can be triggered by keybindings.
#[derive(Debug, Clone, Copy, PartialEq, Eq, Structural)]
pub enum Action {
    /// Focus the workspace above (Super+K or Super+Up)
    WorkspaceUp,
    /// Focus the workspace below (Super+J or Super+Down)
    WorkspaceDown,
    /// Focus window to the left in strip (Super+H or Super+Left)
    FocusLeft,
    /// Focus window to the right in strip (Super+L or Super+Right)
    FocusRight,
    /// Move window left in strip (Super+Shift+H)
    MoveWindowLeft,
    /// Move window right in strip (Super+Shift+L)
    MoveWindowRight,
    /// Move window to workspace below (Super+Shift+J)
    MoveWindowToWorkspaceDown,
    /// Move window to workspace above (Super+Shift+K)
    MoveWindowToWorkspaceUp,
    /// Cycle window size 1u->2u->3u->1u (Super+R)
    CycleWindowSize,
    /// Toggle Frame/fullscreen mode (Super+F)
    ToggleFrame,
    /// Toggle floating mode (Super+V)
    ToggleFloating,
    /// Open overview (Super+O)
    OpenOverview,
    /// Launch the launcher (Super+Space)
    LaunchIntake,
    /// Launch terminal (Super+Return)
    LaunchTerminal,
    /// Close focused window (Super+Q)
    CloseWindow,
    /// Exit compositor (Super+Shift+Escape)
    ExitCompositor,
}

/// The compositor actions that the keybindings translate to.
#[derive(Debug, Clone, PartialEq, Eq)]
pub enum ConfigAction {
    FocusWorkspaceUp,
    FocusWorkspaceDown,
    FocusColumnLeft,
    FocusColumnRight,
    MoveColumnLeft,
    MoveColumnRight,
    MoveWindowToWorkspaceDown(bool),
    MoveWindowToWorkspaceUp(bool),
    SwitchPresetWindowWidth,
    FullscreenWindow,
    ToggleWindowFloating,
    OpenOverview,
    Spawn(Vec<String>),
    CloseWindow,
    Quit(bool),
}

/// Terminal command to spawn.
pub const TERMINAL_COMMAND: &'static str = "alacritty";

/// Launcher command to spawn.
pub const LAUNCHER_COMMAND: &'static str = "osv-intake";

/// The view of a spawn command line.
pub open spec fn argv_view(v: Seq<String>) -> Seq<Seq<char>> {
    v.map_values(|s: String| s@)
}

/// The compositor action that a keybinding action stands for.
pub open spec fn config_action_matches(a: Action, c: ConfigAction) -> bool {
    match a {
        Action::WorkspaceUp => c == ConfigAction::FocusWorkspaceUp,
        Action::WorkspaceDown => c == ConfigAction::FocusWorkspaceDown,
        Action::FocusLeft => c == ConfigAction::FocusColumnLeft,
        Action::FocusRight => c == ConfigAction::FocusColumnRight,
        Action::MoveWindowLeft => c == ConfigAction::MoveColumnLeft,
        Action::MoveWindowRight => c == ConfigAction::MoveColumnRight,
        Action::MoveWindowToWorkspaceDown => c == ConfigAction::MoveWindowToWorkspaceDown(true),
        Action::MoveWindowToWorkspaceUp => c == ConfigAction::MoveWindowToWorkspaceUp(true),
        Action::CycleWindowSize => c == ConfigAction::SwitchPresetWindowWidth,
        Action::ToggleFrame => c == ConfigAction::FullscreenWindow,
        Action::ToggleFloating => c == ConfigAction::ToggleWindowFloating,
        Action::OpenOverview => c == ConfigAction::OpenOverview,
        Action::LaunchIntake => c matches ConfigAction::Spawn(v) && argv_view(v@) == seq![
            LAUNCHER_COMMAND@,
        ],
        Action::LaunchTerminal => c matches ConfigAction::Spawn(v) && argv_view(v@) == seq![
            TERMINAL_COMMAND@,
        ],
        Action::CloseWindow => c == ConfigAction::CloseWindow,
        Action::ExitCompositor => c == ConfigAction::Quit(false),
    }
}

fn spawn_one(cmd: &str) -> (r: ConfigAction)
    ensures
        r matches ConfigAction::Spawn(v) && argv_view(v@) == seq![cmd@],
{
    let mut v: Vec<String> = Vec::new();
    v.push(crate::text::string_from(cmd));
    assert(argv_view(v@) =~= seq![cmd@]);
    ConfigAction::Spawn(v)
}

impl Action {
    /// Convert to the compositor action to execute.
    pub fn to_config_action(self) -> (r: ConfigAction)
        ensures
            config_action_matches(self, r),
    {
        match self {
            Action::WorkspaceUp => ConfigAction::FocusWorkspaceUp,
            Action::WorkspaceDown => ConfigAction::FocusWorkspaceDown,
            Action::FocusLeft => ConfigAction::FocusColumnLeft,
            Action::FocusRight => ConfigAction::FocusColumnRight,
            Action::MoveWindowLeft => ConfigAction::MoveColumnLeft,
            Action::MoveWindowRight => ConfigAction::MoveColumnRight,
            Action::MoveWindowToWorkspaceDown => ConfigAction::MoveWindowToWorkspaceDown(true),
            Action::MoveWindowToWorkspaceUp => ConfigAction::MoveWindowToWorkspaceUp(true),
            Action::CycleWindowSize => ConfigAction::SwitchPresetWindowWidth,
            Action::ToggleFrame => ConfigAction::FullscreenWindow,
            Action::ToggleFloating => ConfigAction::ToggleWindowFloating,
            Action::OpenOverview => ConfigAction::OpenOverview,
            Action::LaunchIntake => spawn_one(LAUNCHER_COMMAND),
            Action::LaunchTerminal => spawn_one(TERMINAL_COMMAND),
            Action::CloseWindow => ConfigAction::CloseWindow,
            Action::ExitCompositor => ConfigAction::Quit(false),
        }
    }
}

/// The binding of Super plus a key.
pub open spec fn super_binding(k: u32) -> Option<Action> {
    if k == XK_k || k == XK_K || k == XK_Up {
        Some(Action::WorkspaceUp)
    } else if k == XK_j || k == XK_J || k == XK_Down {
        Some(Action::WorkspaceDown)
    } else if k == XK_h || k == XK_H || k == XK_Left {
        Some(Action::FocusLeft)
    } else if k == XK_l || k == XK_L || k == XK_Right {
        Some(Action::FocusRight)
    } else if k == XK_r || k == XK_R {
        Some(Action::CycleWindowSize)
    } else if k == XK_f || k == XK_F {
        Some(Action::ToggleFrame)
    } else if k == XK_v || k == XK_V {
        Some(Action::ToggleFloating)
    } else if k == XK_o || k == XK_O {
        Some(Action::OpenOverview)
    } else if k == XK_space {
        Some(Action::LaunchIntake)
    } else if k == XK_Return {
        Some(Action::LaunchTerminal)
    } else if k == XK_q || k == XK_Q {
        Some(Action::CloseWindow)
    } else {
        None
    }
}

/// The binding of Super+Shift plus a key.
pub open spec fn super_shift_binding(k: u32) -> Option<Action> {
    if k == XK_h || k == XK_H {
        Some(Action::MoveWindowLeft)
    } else if k == XK_l || k == XK_L {
        Some(Action::MoveWindowRight)
    } else if k == XK_j || k == XK_J {
        Some(Action::MoveWindowToWorkspaceDown)
    } else if k == XK_k || k == XK_K {
        Some(Action::MoveWindowToWorkspaceUp)
    } else if k == XK_Escape {
        Some(Action::ExitCompositor)
    } else {
        None
    }
}

/// The action bound to a key under the given modifiers: Ctrl and Alt disable
/// every binding; Super alone and Super+Shift select the two tables.
pub open spec fn binding(m: Modifiers, k: u32) -> Option<Action> {
    if m.logo && !m.shift && !m.ctrl && !m.alt {
        super_binding(k)
    } else if m.logo && m.shift && !m.ctrl && !m.alt {
        super_shift_binding(k)
    } else {
        None
    }
}

/// Check if a key event matches a hardcoded binding.
/// Returns the action if matched, None otherwise.
pub fn match_keybinding(modifiers: &Modifiers, keysym: u32) -> (r: Option<Action>)
    ensures
        r == binding(*modifiers, keysym),
{
    if modifiers.logo && !modifiers.shift && !modifiers.ctrl && !modifiers.alt {
        if keysym == XK_k || keysym == XK_K || keysym == XK_Up {
            return Some(Action::WorkspaceUp);
        } else if keysym == XK_j || keysym == XK_J || keysym == XK_Down {
            return Some(Action::WorkspaceDown);
        } else if keysym == XK_h || keysym == XK_H || keysym == XK_Left {
            return Some(Action::FocusLeft);
        } else if keysym == XK_l || keysym == XK_L || keysym == XK_Right {
            return Some(Action::FocusRight);
        } else if keysym == XK_r || keysym == XK_R {
            return Some(Action::CycleWindowSize);
        } else if keysym == XK_f || keysym == XK_F {
            return Some(Action::ToggleFrame);
        } else if keysym == XK_v || keysym == XK_V {
            return Some(Action::ToggleFloating);
        } else if keysym == XK_o || keysym == XK_O {
            return Some(Action::OpenOverview);
        } else if keysym == XK_space {
            return Some(Action::LaunchIntake);
        } else if keysym == XK_Return {
            return Some(Action::LaunchTerminal);
        } else if keysym == XK_q || keysym == XK_Q {
            return Some(Action::CloseWindow);
        }
    }
    if modifiers.logo && modifiers.shift && !modifiers.ctrl && !modifiers.alt {
        if keysym == XK_h || keysym == XK_H {
            return Some(Action::MoveWindowLeft);
        } else if keysym == XK_l || keysym == XK_L {
            return Some(Action::MoveWindowRight);
        } else if keysym == XK_j || keysym == XK_J {
            return Some(Action::MoveWindowToWorkspaceDown);
        } else if keysym == XK_k || keysym == XK_K {
            return Some(Action::MoveWindowToWorkspaceUp);
        } else if keysym == XK_Escape {
            return Some(Action::ExitCompositor);
        }
    }
    None
}

/// Every binding needs Super and neither Ctrl nor Alt; leaving the
/// compositor needs Shift as well; letter bindings ignore the letter's case.
pub proof fn law_binding_shape(m: Modifiers, k: u32)
    ensures
        binding(m, k) is Some ==> m.logo && !m.ctrl && !m.alt,
        binding(m, k) == Some(Action::ExitCompositor) ==> m.shift,
        super_binding(XK_k) == super_binding(XK_K),
        super_binding(XK_j) == super_binding(XK_J),
        super_binding(XK_h) == super_binding(XK_H),
        super_binding(XK_l) == super_binding(XK_L),
        super_binding(XK_q) == super_binding(XK_Q),
        super_shift_binding(XK_h) == super_shift_binding(XK_H),
        super_shift_binding(XK_k) == super_shift_binding(XK_K),
{
}

} // verus!
