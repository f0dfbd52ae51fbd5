use osvwm::bar::{
    fill_frame, indicator_color, indicator_shape, indicator_x, BarState, IndicatorShape, WorkspaceState,
    WORKSPACE_COUNT,
};
use osvwm::bar_client::IpcClient;
use osvwm::colors::{
    accent_error, accent_immersion, accent_primary, onyx_black, onyx_muted, onyx_text, Color,
};
use osvwm::ipc::WorkspaceReferenceArg;

#[test]
fn test_bar_state_default() {
    let state = BarState::default();
    assert!(state.workspaces[0].active);
    assert_eq!(state.active_workspace, 0);
}

#[test]
fn test_set_active_workspace() {
    let mut state = BarState::default();
    state.set_active(3);
    assert!(!state.workspaces[0].active);
    assert!(state.workspaces[3].active);
    assert_eq!(state.active_workspace, 3);
}

#[test]
fn set_active_keeps_a_single_active_workspace() {
    let mut state = BarState::default();
    state.set_occupied(5, true);
    state.set_urgent(2, true);
    state.set_active(5);
    state.set_active(7);
    let active: Vec<usize> = (0..WORKSPACE_COUNT).filter(|&i| state.workspaces[i].active).collect();
    assert_eq!(active, vec![7]);
    assert!(state.workspaces[5].occupied);
    assert!(state.workspaces[2].urgent);
    // An index past the last workspace changes nothing.
    state.set_active(8);
    assert_eq!(state.active_workspace, 7);
    assert!(state.workspaces[7].active);
}

#[test]
fn test_workspace_count() {
    assert_eq!(WORKSPACE_COUNT, 8);
}

#[test]
fn indicator_colors_follow_the_state() {
    let urgent = WorkspaceState { active: true, occupied: true, urgent: true };
    assert_eq!(indicator_color(0, urgent), accent_error());
    let active = WorkspaceState { active: true, occupied: false, urgent: false };
    assert_eq!(indicator_color(1, active), accent_primary());
    assert_eq!(indicator_color(6, active), accent_immersion());
    let occupied = WorkspaceState { active: false, occupied: true, urgent: false };
    assert_eq!(indicator_color(2, occupied), onyx_text());
    let idle = WorkspaceState::default();
    assert_eq!(indicator_color(3, idle), onyx_muted());
    assert_eq!(indicator_color(7, idle), Color::new(59, 34, 85, 180));
}

#[test]
fn indicator_shapes_and_positions() {
    assert_eq!(indicator_shape(5), IndicatorShape::Circle);
    assert_eq!(indicator_shape(6), IndicatorShape::Diamond);
    assert_eq!(indicator_x(0), 16);
    assert_eq!(indicator_x(3), 16 + 3 * 20);
}

#[test]
fn test_premultiplied() {
    let c = Color::new(200, 100, 50, 128);
    let pre = c.to_premultiplied();
    // Premultiplied: r * a / 255
    assert_eq!(pre.alpha(), 128);
}

#[test]
fn premultiplied_channels_scale_by_alpha() {
    let c = Color::new(200, 100, 50, 128);
    assert_eq!(c.premultiplied_channels(), (100, 50, 25, 128));
    let pre = c.to_premultiplied();
    assert_eq!((pre.red(), pre.green(), pre.blue()), (100, 50, 25));
    let opaque = Color::rgb(255, 128, 64).to_premultiplied();
    assert_eq!((opaque.red(), opaque.green(), opaque.blue(), opaque.alpha()), (255, 128, 64, 255));
    let clear = Color::new(255, 255, 255, 0).to_premultiplied();
    assert_eq!((clear.red(), clear.alpha()), (0, 0));
}

#[test]
fn switching_workspaces_uses_one_based_indices() {
    let mut client = IpcClient;
    assert_eq!(client.switch_workspace(0), Ok(WorkspaceReferenceArg::Index(1)));
    assert_eq!(client.switch_workspace(7), Ok(WorkspaceReferenceArg::Index(8)));
    assert_eq!(
        client.switch_workspace(8),
        Err("Invalid workspace index: 8".to_string())
    );
    assert_eq!(
        client.switch_workspace(12345),
        Err("Invalid workspace index: 12345".to_string())
    );
}

#[test]
fn focus_replies() {
    assert_eq!(IpcClient::focus_outcome(Ok(())), Ok(()));
    assert_eq!(
        IpcClient::focus_outcome(Err("no such workspace".to_string())),
        Err("FocusWorkspace failed: no such workspace".to_string())
    );
}

#[test]
fn frame_takes_pixmap_with_red_and_blue_swapped() {
    let pixmap = [1u8, 2, 3, 4, 5, 6, 7, 8];
    let mut frame = [0u8; 10];
    fill_frame(&mut frame, &pixmap);
    assert_eq!(frame, [3, 2, 1, 4, 7, 6, 5, 8, 0, 0]);
    let mut wide = [9u8; 12];
    fill_frame(&mut wide, &pixmap[..6]);
    assert_eq!(wide, [3, 2, 1, 4, 9, 9, 9, 9, 9, 9, 9, 9]);
}

#[test]
fn background_black() {
    assert_eq!(onyx_black(), Color::rgb(18, 18, 22));
    assert_eq!(onyx_black().a, 255);
}
