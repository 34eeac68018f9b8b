use niri_remote::actions::{focus_then, NiriAction};
use niri_remote::actions::NiriAction::{
    CloseWindow, FocusColumnLeft, FocusColumnRight, FocusWindow, FocusWindowDown, FocusWindowUp,
    FullscreenWindow, MoveWindowDown, MoveWindowLeft, MoveWindowRight, MoveWindowToMonitor,
    MoveWindowToMonitorLeft, MoveWindowToMonitorRight, MoveWindowUp, MoveWorkspaceToMonitorLeft,
    MoveWorkspaceToMonitorRight, SetColumnWidth,
};
use niri_remote::model::Window;
use niri_remote::swap::{
    active_workspaces, swap_plan, swap_windows, SwapWindow, WindowEntry, WorkspaceEntry,
};
use niri_remote::windows::{display_title, first_containing, list_lines, list_row, resolve_window};

fn win(id: u64, title: Option<&str>) -> Window {
    Window { id, title: title.map(|s| s.to_string()), is_focused: false, workspace_id: None, layout: None }
}

fn wse(id: Option<u64>, output: Option<&str>, active: bool) -> WorkspaceEntry {
    WorkspaceEntry { id, output: output.map(|s| s.to_string()), is_active: active }
}

fn we(id: Option<u64>, ws: Option<u64>, width: Option<u64>, fs: bool) -> WindowEntry {
    WindowEntry { id, workspace_id: ws, width, is_fullscreen: fs }
}

fn sw(id: u64, pct: u32, fs: bool) -> SwapWindow {
    SwapWindow { id, pct, is_fullscreen: fs }
}

#[test]
fn resolve_window_by_id_even_if_unknown() {
    let ws = vec![win(3, Some("Term"))];
    assert_eq!(resolve_window("123", &ws), Some(123));
}

#[test]
fn resolve_window_by_title_case_insensitive_first_match() {
    let ws = vec![
        win(1, None),
        win(2, Some("Brave Browser")),
        win(3, Some("brave settings")),
    ];
    assert_eq!(resolve_window("BRAVE", &ws), Some(2));
    assert_eq!(resolve_window("settings", &ws), Some(3));
    assert_eq!(resolve_window("steam", &ws), None);
    // the empty text is in every title, also the missing one
    assert_eq!(resolve_window("", &ws), Some(1));
}

#[test]
fn first_containing_cases() {
    let hay = vec!["abc".to_string(), "xbc".to_string()];
    assert_eq!(first_containing(&hay, "bc"), Some(0));
    assert_eq!(first_containing(&hay, "x"), Some(1));
    assert_eq!(first_containing(&hay, "q"), None);
}

#[test]
fn list_format() {
    let ws = vec![win(12, Some("Firefox")), win(12345678901, None)];
    assert_eq!(list_row(&ws[0]), "12         | Firefox");
    assert_eq!(list_row(&ws[1]), "12345678901 | Unknown");
    let lines = list_lines(&ws);
    let expected = vec![
        String::new(),
        format!("{:<10} | {}", "WINDOW ID", "TITLE"),
        format!("{:-<10}-+-{:-<50}", "", ""),
        format!("{:<10} | {}", 12, "Firefox"),
        format!("{:<10} | {}", 12345678901u64, "Unknown"),
        String::new(),
    ];
    assert_eq!(lines, expected);
    assert_eq!(display_title(&ws[1]), "Unknown");
    assert_eq!(display_title(&ws[0]), "Firefox");
}

#[test]
fn active_workspaces_last_one_wins() {
    let l = "L".to_string();
    let r = "R".to_string();
    let wss = vec![
        wse(Some(1), Some("L"), true),
        wse(Some(2), Some("R"), true),
        wse(Some(3), Some("L"), false),
        wse(Some(4), Some("X"), true),
        wse(Some(5), None, true),
    ];
    assert_eq!(active_workspaces(&wss, &l, &r), (Some(1), Some(2)));
    let wss2 = vec![wse(Some(1), Some("L"), true), wse(None, Some("L"), true)];
    assert_eq!(active_workspaces(&wss2, &l, &r), (None, None));
    // a monitor named like both sides counts as the left one
    let same = vec![wse(Some(9), Some("L"), true)];
    assert_eq!(active_workspaces(&same, &l, &l), (Some(9), None));
}

#[test]
fn swap_windows_split_and_snap() {
    let wins = vec![
        we(Some(10), Some(1), Some(960), false),
        we(Some(11), Some(2), Some(2200), false),
        we(Some(12), Some(1), None, true),
        we(None, Some(1), Some(100), false),
        we(Some(13), None, Some(100), false),
        we(Some(14), Some(7), Some(100), false),
    ];
    let (left, right) = swap_windows(&wins, Some(1), Some(2), 1920, 2560);
    assert_eq!(left.len(), 2);
    assert_eq!((left[0].id, left[0].pct, left[0].is_fullscreen), (10, 50, false));
    assert_eq!((left[1].id, left[1].pct, left[1].is_fullscreen), (12, 50, true));
    assert_eq!(right.len(), 1);
    assert_eq!((right[0].id, right[0].pct), (11, 100));
    let (l2, r2) = swap_windows(&wins, None, None, 1920, 1920);
    assert!(l2.is_empty() && r2.is_empty());
}

#[test]
fn swap_plan_sequence() {
    let left = vec![sw(1, 50, false), sw(2, 100, true), sw(3, 33, false)];
    let right = vec![sw(7, 67, false)];
    let plan = swap_plan(&left, &right);
    assert_eq!(
        plan,
        vec![
            FocusWindow(1),
            MoveWorkspaceToMonitorRight,
            FocusWindow(7),
            MoveWorkspaceToMonitorLeft,
            FocusWindow(1),
            SetColumnWidth(50),
            FocusWindow(3),
            SetColumnWidth(33),
            FocusWindow(1),
            FocusWindow(7),
            SetColumnWidth(67),
            FocusWindow(7),
        ]
    );
}

#[test]
fn swap_plan_empty_sides() {
    assert!(swap_plan(&vec![], &vec![]).is_empty());
    let plan = swap_plan(&vec![], &vec![sw(4, 25, true)]);
    assert_eq!(
        plan,
        vec![NiriAction::FocusWindow(4), NiriAction::MoveWorkspaceToMonitorLeft, NiriAction::FocusWindow(4)]
    );
}

#[test]
fn resize_law_example_fullscreen_untouched() {
    let side = vec![sw(1, 50, true), sw(2, 25, false), sw(3, 67, true)];
    let plan = swap_plan(&side, &vec![]);
    let widths: Vec<&NiriAction> = plan.iter().filter(|a| matches!(a, NiriAction::SetColumnWidth(_))).collect();
    assert_eq!(widths, vec![&NiriAction::SetColumnWidth(25)]);
}

#[test]
fn action_arguments() {
    assert_eq!(FocusWindow(42).arguments(), vec!["focus-window", "--id", "42"]);
    assert_eq!(SetColumnWidth(67).arguments(), vec!["set-column-width", "67%"]);
    assert_eq!(MoveWindowToMonitor("DP-1".into()).arguments(), vec!["move-window-to-monitor", "DP-1"]);
    assert_eq!(CloseWindow.arguments(), vec!["close-window"]);
    assert_eq!(FullscreenWindow.arguments(), vec!["fullscreen-window"]);
    assert_eq!(MoveWorkspaceToMonitorRight.arguments(), vec!["move-workspace-to-monitor-right"]);
    assert_eq!(MoveWorkspaceToMonitorLeft.arguments(), vec!["move-workspace-to-monitor-left"]);
    assert_eq!(FocusColumnLeft.arguments(), vec!["focus-column-left"]);
    assert_eq!(FocusColumnRight.arguments(), vec!["focus-column-right"]);
    assert_eq!(FocusWindowUp.arguments(), vec!["focus-window-up"]);
    assert_eq!(FocusWindowDown.arguments(), vec!["focus-window-down"]);
    assert_eq!(MoveWindowLeft.arguments(), vec!["move-window-left"]);
    assert_eq!(MoveWindowRight.arguments(), vec!["move-window-right"]);
    assert_eq!(MoveWindowUp.arguments(), vec!["move-window-up"]);
    assert_eq!(MoveWindowDown.arguments(), vec!["move-window-down"]);
    assert_eq!(MoveWindowToMonitorLeft.arguments(), vec!["move-window-to-monitor-left"]);
    assert_eq!(MoveWindowToMonitorRight.arguments(), vec!["move-window-to-monitor-right"]);
}

#[test]
fn focus_then_plans() {
    assert_eq!(
        focus_then(5, NiriAction::CloseWindow),
        vec![NiriAction::FocusWindow(5), NiriAction::CloseWindow]
    );
}

#[test]
fn focus_id_round_trip_law_example() {
    let args = NiriAction::FocusWindow(987654321).arguments();
    assert_eq!(args[2].parse::<u64>().unwrap(), 987654321);
    assert_eq!(niri_remote::text::parse_u64(&args[2]), Some(987654321));
}
