use niri_remote::actions::NiriAction;
use niri_remote::grouping::{column_members, monitor_columns, place_windows, workspace_monitor};
use niri_remote::input::{
    button_at, contains_point, key_outcome, tap_outcome, window_at, Area, ButtonTarget,
    KeyInput, KeyOutcome, ToolbarAction, WindowTarget,
};
use niri_remote::model::{Window, WindowLayout, Workspace};
use niri_remote::screen::{plan_screen, ratio_spans_of, window_size_or_default, Span};

fn area(x: u16, y: u16, w: u16, h: u16) -> Area {
    Area { x, y, width: w, height: h }
}

fn ws(id: u64, output: Option<&str>) -> Workspace {
    Workspace { id, output: output.map(|s| s.to_string()) }
}

fn placed_win(id: u64, ws: u64, col: u64, row: u64, size: Option<Vec<u64>>) -> Window {
    Window {
        id,
        title: Some(format!("w{}", id)),
        is_focused: id == 1,
        workspace_id: Some(ws),
        layout: Some(WindowLayout { pos_in_scrolling_layout: Some(vec![col, row]), window_size: size }),
    }
}

#[test]
fn point_in_area() {
    let a = area(2, 3, 4, 5);
    assert!(contains_point(&a, 2, 3));
    assert!(contains_point(&a, 5, 7));
    assert!(!contains_point(&a, 6, 7));
    assert!(!contains_point(&a, 5, 8));
    assert!(!contains_point(&a, 1, 3));
    assert!(!contains_point(&area(0, 0, 0, 10), 0, 0));
    assert!(contains_point(&area(65535, 65535, 1, 1), 65535, 65535));
}

#[test]
fn taps_focus_and_run() {
    let wins = vec![
        WindowTarget { area: area(0, 0, 10, 10), id: 7, window: 0 },
        WindowTarget { area: area(0, 0, 20, 20), id: 8, window: 1 },
    ];
    let buttons = vec![
        ButtonTarget { area: area(0, 30, 10, 3), label: "X CLOSE".into(), action: ToolbarAction::Niri(NiriAction::CloseWindow) },
        ButtonTarget { area: area(10, 30, 10, 3), label: "SWAP".into(), action: ToolbarAction::SwapMonitors },
    ];
    let t = tap_outcome(&wins, &buttons, 15, 15);
    assert_eq!(t.focus, Some(8));
    assert_eq!(t.action, None);
    let t = tap_outcome(&wins, &buttons, 12, 31);
    assert_eq!(t.focus, None);
    assert_eq!(t.action, Some(ToolbarAction::SwapMonitors));
    assert_eq!(window_at(&wins, 1, 1), Some(7));
    assert_eq!(button_at(&buttons, 1, 31), Some(ToolbarAction::Niri(NiriAction::CloseWindow)));
    let t = tap_outcome(&wins, &buttons, 50, 50);
    assert_eq!(t.focus, None);
    assert_eq!(t.action, None);
}

#[test]
fn keys() {
    assert_eq!(key_outcome(KeyInput::Char('q'), false), KeyOutcome::Quit);
    assert_eq!(key_outcome(KeyInput::Char('q'), true), KeyOutcome::Quit);
    assert_eq!(key_outcome(KeyInput::Left, false), KeyOutcome::Run(NiriAction::FocusColumnLeft));
    assert_eq!(key_outcome(KeyInput::Left, true), KeyOutcome::Run(NiriAction::MoveWindowLeft));
    assert_eq!(key_outcome(KeyInput::Char('h'), false), KeyOutcome::Run(NiriAction::FocusColumnLeft));
    assert_eq!(key_outcome(KeyInput::Char('H'), false), KeyOutcome::Run(NiriAction::MoveWindowLeft));
    assert_eq!(key_outcome(KeyInput::Char('l'), false), KeyOutcome::Run(NiriAction::FocusColumnRight));
    assert_eq!(key_outcome(KeyInput::Right, true), KeyOutcome::Run(NiriAction::MoveWindowRight));
    assert_eq!(key_outcome(KeyInput::Char('L'), false), KeyOutcome::Run(NiriAction::MoveWindowRight));
    assert_eq!(key_outcome(KeyInput::Up, false), KeyOutcome::Run(NiriAction::FocusWindowUp));
    assert_eq!(key_outcome(KeyInput::Char('k'), true), KeyOutcome::Run(NiriAction::MoveWindowUp));
    assert_eq!(key_outcome(KeyInput::Char('K'), false), KeyOutcome::Run(NiriAction::MoveWindowUp));
    assert_eq!(key_outcome(KeyInput::Down, false), KeyOutcome::Run(NiriAction::FocusWindowDown));
    assert_eq!(key_outcome(KeyInput::Char('j'), false), KeyOutcome::Run(NiriAction::FocusWindowDown));
    assert_eq!(key_outcome(KeyInput::Char('J'), false), KeyOutcome::Run(NiriAction::MoveWindowDown));
    assert_eq!(key_outcome(KeyInput::Char('x'), false), KeyOutcome::Refresh);
    assert_eq!(key_outcome(KeyInput::Char('Q'), false), KeyOutcome::Refresh);
    assert_eq!(key_outcome(KeyInput::Other, true), KeyOutcome::Refresh);
}

#[test]
fn workspace_monitor_last_wins() {
    let wss = vec![ws(1, Some("A")), ws(1, Some("B")), ws(1, None), ws(2, None)];
    assert_eq!(workspace_monitor(&wss, 1), Some("B".to_string()));
    assert_eq!(workspace_monitor(&wss, 2), None);
    assert_eq!(workspace_monitor(&wss, 3), None);
}

#[test]
fn placement_and_columns() {
    let wss = vec![ws(1, Some("A")), ws(2, Some("B"))];
    let mut odd = placed_win(9, 1, 0, 0, None);
    odd.layout.as_mut().unwrap().pos_in_scrolling_layout = Some(vec![1]);
    let wins = vec![
        placed_win(1, 1, 2, 2, None),
        placed_win(2, 1, 1, 1, None),
        placed_win(3, 1, 2, 1, None),
        placed_win(4, 2, 5, 1, None),
        placed_win(5, 3, 1, 1, None),
        odd,
        placed_win(6, 1, 2, 1, None),
    ];
    let placed = place_windows(&wss, &wins);
    let ids: Vec<usize> = placed.iter().map(|p| p.window).collect();
    assert_eq!(ids, vec![0, 1, 2, 3, 6]);
    assert_eq!(placed[3].monitor, "B");
    assert_eq!(monitor_columns(&placed, &"A".to_string()), vec![1, 2]);
    assert_eq!(monitor_columns(&placed, &"B".to_string()), vec![5]);
    assert!(monitor_columns(&placed, &"C".to_string()).is_empty());
    // column 2 of A: rows 2, 1, 1 in list order -> sorted by row, ties kept
    let members = column_members(&placed, &"A".to_string(), 2);
    let member_windows: Vec<u64> = members.iter().map(|&i| wins[placed[i].window].id).collect();
    assert_eq!(member_windows, vec![3, 6, 1]);
}

#[test]
fn sizes_and_ratios() {
    let w = placed_win(1, 1, 0, 0, Some(vec![800]));
    assert_eq!(window_size_or_default(&w, 0), 800);
    assert_eq!(window_size_or_default(&w, 1), 100);
    assert_eq!(ratio_spans_of(&vec![1, 3]), vec![Span::Ratio(1, 4), Span::Ratio(3, 4)]);
    assert_eq!(ratio_spans_of(&vec![0, 0]), vec![Span::Ratio(0, 1), Span::Ratio(0, 1)]);
    assert_eq!(ratio_spans_of(&vec![u32::MAX, 1]), vec![Span::Ratio(u32::MAX, 1), Span::Ratio(1, 1)]);
    assert!(ratio_spans_of(&vec![]).is_empty());
}

#[test]
fn screen_without_monitors() {
    let plan = plan_screen(area(0, 0, 80, 30), &vec![], &vec![], &vec![]);
    assert!(plan.monitors.is_empty());
    assert!(plan.windows.is_empty());
    assert_eq!(plan.body, area(0, 0, 80, 21));
    assert_eq!(plan.buttons.len(), 9);
    assert_eq!(plan.buttons[8].action, ToolbarAction::SwapMonitors);
    assert_eq!(plan.buttons[8].label, "\u{1F504} SWAP SCREENS");
    assert_eq!(plan.buttons[8].area, area(0, 27, 80, 3));
    assert_eq!(plan.buttons[0].label, "<< TO SCREEN");
    assert_eq!(plan.buttons[0].area, area(0, 21, 20, 3));
    assert_eq!(plan.buttons[7].action, ToolbarAction::Niri(NiriAction::CloseWindow));
}

#[test]
fn screen_with_two_monitors() {
    let wss = vec![ws(1, Some("A")), ws(2, Some("B"))];
    let wins = vec![
        placed_win(1, 1, 1, 1, Some(vec![1000, 500])),
        placed_win(2, 1, 2, 1, Some(vec![1000, 500])),
        placed_win(3, 1, 2, 2, Some(vec![1000, 1500])),
        placed_win(4, 2, 1, 1, None),
    ];
    let order = vec!["A".to_string(), "B".to_string(), "C".to_string()];
    let plan = plan_screen(area(0, 0, 90, 30), &order, &wss, &wins);
    assert_eq!(plan.monitors.len(), 3);
    assert_eq!(plan.monitors[0].area, area(0, 0, 30, 21));
    assert_eq!(plan.monitors[0].inner, area(0, 1, 30, 20));
    assert_eq!(plan.monitors[2].name, "C");
    let ids: Vec<u64> = plan.windows.iter().map(|w| w.id).collect();
    assert_eq!(ids, vec![1, 2, 3, 4]);
    // the two columns of A share its width equally
    assert_eq!(plan.windows[0].area, area(0, 1, 15, 20));
    // the second column is split 1:3 by height
    assert_eq!(plan.windows[1].area, area(15, 1, 15, 5));
    assert_eq!(plan.windows[2].area, area(15, 6, 15, 15));
    assert_eq!(plan.windows[3].area, area(30, 1, 30, 20));
    assert_eq!(plan.windows[3].window, 3);
}
