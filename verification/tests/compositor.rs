use osvwm::keybindings::{
    match_keybinding, Action, ConfigAction, Modifiers, XK_Down, XK_Escape, XK_Left, XK_Return,
    XK_Right, XK_Up, XK_f, XK_h, XK_j, XK_k, XK_l, XK_q, XK_r, XK_space, XK_v, XK_K, XK_O,
    XK_o,
};
use osvwm::wallpaper::WallpaperMode;
use osvwm::workspace::{
    is_immersion_workspace, is_valid_workspace_index, workspace_name, WindowUnit, WorkspaceType,
};

fn super_only() -> Modifiers {
    Modifiers::super_only()
}

fn super_shift() -> Modifiers {
    Modifiers::super_shift()
}

#[test]
fn test_workspace_navigation() {
    assert_eq!(match_keybinding(&super_only(), XK_k), Some(Action::WorkspaceUp));
    assert_eq!(match_keybinding(&super_only(), XK_Up), Some(Action::WorkspaceUp));
    assert_eq!(match_keybinding(&super_only(), XK_j), Some(Action::WorkspaceDown));
    assert_eq!(match_keybinding(&super_only(), XK_Down), Some(Action::WorkspaceDown));
}

#[test]
fn test_focus_navigation() {
    assert_eq!(match_keybinding(&super_only(), XK_h), Some(Action::FocusLeft));
    assert_eq!(match_keybinding(&super_only(), XK_Left), Some(Action::FocusLeft));
    assert_eq!(match_keybinding(&super_only(), XK_l), Some(Action::FocusRight));
    assert_eq!(match_keybinding(&super_only(), XK_Right), Some(Action::FocusRight));
}

#[test]
fn test_window_movement() {
    assert_eq!(match_keybinding(&super_shift(), XK_h), Some(Action::MoveWindowLeft));
    assert_eq!(match_keybinding(&super_shift(), XK_l), Some(Action::MoveWindowRight));
    assert_eq!(
        match_keybinding(&super_shift(), XK_j),
        Some(Action::MoveWindowToWorkspaceDown)
    );
    assert_eq!(
        match_keybinding(&super_shift(), XK_k),
        Some(Action::MoveWindowToWorkspaceUp)
    );
}

#[test]
fn test_window_sizing() {
    assert_eq!(match_keybinding(&super_only(), XK_r), Some(Action::CycleWindowSize));
    assert_eq!(match_keybinding(&super_only(), XK_f), Some(Action::ToggleFrame));
    assert_eq!(match_keybinding(&super_only(), XK_v), Some(Action::ToggleFloating));
}

#[test]
fn test_launchers() {
    assert_eq!(match_keybinding(&super_only(), XK_space), Some(Action::LaunchIntake));
    assert_eq!(match_keybinding(&super_only(), XK_Return), Some(Action::LaunchTerminal));
}

#[test]
fn test_window_close() {
    assert_eq!(match_keybinding(&super_only(), XK_q), Some(Action::CloseWindow));
}

#[test]
fn test_exit() {
    assert_eq!(match_keybinding(&super_shift(), XK_Escape), Some(Action::ExitCompositor));
}

#[test]
fn upper_case_keys_and_overview_bind_too() {
    assert_eq!(match_keybinding(&super_only(), XK_K), Some(Action::WorkspaceUp));
    assert_eq!(match_keybinding(&super_only(), XK_o), Some(Action::OpenOverview));
    assert_eq!(match_keybinding(&super_only(), XK_O), Some(Action::OpenOverview));
}

#[test]
fn other_modifier_sets_bind_nothing() {
    let none = Modifiers {
        ctrl: false,
        alt: false,
        shift: false,
        caps_lock: false,
        logo: false,
        num_lock: false,
        iso_level3_shift: false,
    };
    assert_eq!(match_keybinding(&none, XK_k), None);
    let ctrl_super = Modifiers { ctrl: true, ..Modifiers::super_only() };
    assert_eq!(match_keybinding(&ctrl_super, XK_k), None);
    assert_eq!(match_keybinding(&super_shift(), XK_Escape + 1), None);
    assert_eq!(match_keybinding(&super_only(), XK_Escape), None);
}

#[test]
fn actions_translate_to_compositor_actions() {
    assert_eq!(Action::WorkspaceUp.to_config_action(), ConfigAction::FocusWorkspaceUp);
    assert_eq!(
        Action::MoveWindowToWorkspaceDown.to_config_action(),
        ConfigAction::MoveWindowToWorkspaceDown(true)
    );
    assert_eq!(
        Action::LaunchTerminal.to_config_action(),
        ConfigAction::Spawn(vec!["alacritty".to_string()])
    );
    assert_eq!(
        Action::LaunchIntake.to_config_action(),
        ConfigAction::Spawn(vec!["osv-intake".to_string()])
    );
    assert_eq!(Action::ExitCompositor.to_config_action(), ConfigAction::Quit(false));
}

#[test]
fn test_window_unit_cycle() {
    assert_eq!(WindowUnit::Unit1.cycle_next(), WindowUnit::Unit2);
    assert_eq!(WindowUnit::Unit2.cycle_next(), WindowUnit::Unit3);
    assert_eq!(WindowUnit::Unit3.cycle_next(), WindowUnit::Unit1);
}

#[test]
fn window_unit_cycle_returns_after_three_steps() {
    for u in [WindowUnit::Unit1, WindowUnit::Unit2, WindowUnit::Unit3, WindowUnit::Frame] {
        let back = u.cycle_next().cycle_next().cycle_next();
        if u == WindowUnit::Frame {
            assert_eq!(u.cycle_next(), WindowUnit::Frame);
        } else {
            assert_eq!(back, u);
        }
    }
    assert!(WindowUnit::Frame.is_fullscreen());
    assert!(!WindowUnit::Frame.has_decorations());
    assert!(WindowUnit::Unit2.has_decorations());
}

#[test]
fn test_workspace_type() {
    assert_eq!(WorkspaceType::from_index(0), WorkspaceType::Regular);
    assert_eq!(WorkspaceType::from_index(5), WorkspaceType::Regular);
    assert_eq!(WorkspaceType::from_index(6), WorkspaceType::Immersion);
    assert_eq!(WorkspaceType::from_index(7), WorkspaceType::Immersion);
}

#[test]
fn test_immersion_check() {
    assert!(!is_immersion_workspace(0));
    assert!(!is_immersion_workspace(5));
    assert!(is_immersion_workspace(6));
    assert!(is_immersion_workspace(7));
    assert!(!is_immersion_workspace(8)); // Out of bounds
}

#[test]
fn workspace_indices_and_names() {
    assert!(is_valid_workspace_index(7));
    assert!(!is_valid_workspace_index(8));
    assert_eq!(workspace_name(0), Some("1"));
    assert_eq!(workspace_name(6), Some("IMM-7"));
    assert_eq!(workspace_name(7), Some("IMM-8"));
    assert_eq!(workspace_name(8), None);
    assert!(WorkspaceType::Immersion.forces_fullscreen());
    assert!(!WorkspaceType::Immersion.allows_decorations());
    assert!(WorkspaceType::Regular.allows_decorations());
}

#[test]
fn test_wallpaper_mode_default() {
    assert_eq!(WallpaperMode::default(), WallpaperMode::Fill);
}

#[test]
fn window_widths_in_thirds() {
    assert_eq!(WindowUnit::Unit1.width_thirds(), 1);
    assert_eq!(WindowUnit::Unit2.width_thirds(), 2);
    assert_eq!(WindowUnit::Unit3.width_thirds(), 3);
    assert_eq!(WindowUnit::Frame.width_thirds(), 3);
}
