use niri_remote::cli::{parse_command, CliCommand};
use niri_remote::model::{OutputInfo, Workspace};
use niri_remote::monitors::{
    display_names, monitor_from_output, monitor_names, monitors_by_position, resolve_display,
    screen_monitor_order, sort_monitors_by_x, swap_pair, workspace_display_names,
    append_workspace_outputs, Monitor,
};

fn out(name: &str, x: Option<i64>, width: Option<u64>) -> OutputInfo {
    OutputInfo { name: name.to_string(), x, width }
}

fn ws(id: u64, output: Option<&str>) -> Workspace {
    Workspace { id, output: output.map(|s| s.to_string()) }
}

fn args(v: &[&str]) -> Vec<String> {
    v.iter().map(|s| s.to_string()).collect()
}

#[test]
fn output_defaults() {
    let m = monitor_from_output(&out("HDMI-A-1", None, None));
    assert_eq!(m.name, "HDMI-A-1");
    assert_eq!(m.x, 0);
    assert_eq!(m.width, 1920);
    let m = monitor_from_output(&out("DP-1", Some(-1280), Some(1280)));
    assert_eq!((m.x, m.width), (-1280, 1280));
}

#[test]
fn monitors_sorted_left_to_right_stably() {
    let outputs = vec![
        out("B", Some(1920), None),
        out("A", Some(0), None),
        out("C", Some(0), Some(2560)),
        out("D", Some(-1920), None),
    ];
    let ms = monitors_by_position(&outputs);
    let names: Vec<&str> = ms.iter().map(|m| m.name.as_str()).collect();
    assert_eq!(names, vec!["D", "A", "C", "B"]);
    assert_eq!(monitor_names(&ms), vec!["D", "A", "C", "B"]);
}

#[test]
fn sort_law_example_keeps_ties_in_order() {
    let ms = vec![
        Monitor { name: "x1".into(), x: 5, width: 1 },
        Monitor { name: "y".into(), x: 1, width: 1 },
        Monitor { name: "x2".into(), x: 5, width: 1 },
        Monitor { name: "x3".into(), x: 5, width: 1 },
    ];
    let s = sort_monitors_by_x(&ms);
    let names: Vec<&str> = s.iter().map(|m| m.name.as_str()).collect();
    assert_eq!(names, vec!["y", "x1", "x2", "x3"]);
    assert_eq!(s.len(), ms.len());
}

#[test]
fn swap_pair_needs_two_monitors() {
    assert!(swap_pair(&vec![out("A", Some(0), None)]).is_none());
    assert!(swap_pair(&vec![]).is_none());
    let p = swap_pair(&vec![
        out("R", Some(1920), Some(2560)),
        out("L", Some(0), Some(1920)),
        out("Far", Some(5000), None),
    ])
    .unwrap();
    assert_eq!((p.0.name.as_str(), p.0.width), ("L", 1920));
    assert_eq!((p.1.name.as_str(), p.1.width), ("R", 2560));
}

#[test]
fn screen_order_appends_workspace_outputs_once() {
    let outputs = vec![out("B", Some(100), None), out("A", Some(0), None)];
    let wss = vec![ws(1, Some("A")), ws(2, Some("C")), ws(3, None), ws(4, Some("C")), ws(5, Some("D"))];
    assert_eq!(screen_monitor_order(&outputs, &wss), vec!["A", "B", "C", "D"]);
    assert_eq!(screen_monitor_order(&vec![], &vec![]), Vec::<String>::new());
}

#[test]
fn workspace_outputs_law_example() {
    let wss = vec![ws(1, Some("X")), ws(2, Some("Y")), ws(3, Some("X"))];
    let r = append_workspace_outputs(vec!["Y".to_string()], &wss);
    assert_eq!(r, vec!["Y", "X"]);
    for w in &wss {
        assert!(r.contains(w.output.as_ref().unwrap()));
    }
}

#[test]
fn display_lists() {
    let outputs = vec![out("B", Some(100), None), out("A", Some(0), None)];
    assert_eq!(display_names(&outputs), vec!["A", "B"]);
    let wss = vec![ws(1, Some("eDP-1")), ws(2, Some("eDP-1")), ws(3, Some("HDMI"))];
    assert_eq!(workspace_display_names(&wss), vec!["eDP-1", "HDMI"]);
}

#[test]
fn resolve_display_cases() {
    let d = vec!["DP-1".to_string(), "DP-2".to_string()];
    assert_eq!(resolve_display("1", &d), Ok("DP-1".to_string()));
    assert_eq!(resolve_display("2", &d), Ok("DP-2".to_string()));
    assert_eq!(resolve_display("+2", &d), Ok("DP-2".to_string()));
    assert_eq!(resolve_display("0", &d), Err(0));
    assert_eq!(resolve_display("3", &d), Err(3));
    assert_eq!(resolve_display("HDMI-A-1", &d), Ok("HDMI-A-1".to_string()));
    assert_eq!(resolve_display("99999999999999999999", &d), Ok("99999999999999999999".to_string()));
}

#[test]
fn cli_no_arguments_is_interactive() {
    assert!(matches!(parse_command(&args(&["niri-remote"])), CliCommand::Interactive));
    assert!(matches!(parse_command(&args(&[])), CliCommand::Interactive));
}

#[test]
fn cli_simple_words() {
    assert!(matches!(parse_command(&args(&["p", "swap"])), CliCommand::Swap));
    assert!(matches!(parse_command(&args(&["p", "list", "extra"])), CliCommand::List));
    assert!(matches!(parse_command(&args(&["p", "Swap"])), CliCommand::Unknown));
    assert!(matches!(parse_command(&args(&["p", "frobnicate"])), CliCommand::Unknown));
}

#[test]
fn cli_close_and_fullscreen() {
    match parse_command(&args(&["p", "close"])) {
        CliCommand::TargetMissing(w) => assert_eq!(w, "close"),
        _ => panic!("expected usage"),
    }
    match parse_command(&args(&["p", "fullscreen"])) {
        CliCommand::TargetMissing(w) => assert_eq!(w, "fullscreen"),
        _ => panic!("expected usage"),
    }
    match parse_command(&args(&["p", "close", "steam"])) {
        CliCommand::Close(t) => assert_eq!(t, "steam"),
        _ => panic!("expected close"),
    }
    match parse_command(&args(&["p", "fullscreen", "42"])) {
        CliCommand::Fullscreen(t) => assert_eq!(t, "42"),
        _ => panic!("expected fullscreen"),
    }
}

#[test]
fn cli_move() {
    match parse_command(&args(&["p", "move", "brave", "to", "DP-1"])) {
        CliCommand::Move { window, display } => {
            assert_eq!(window, "brave");
            assert_eq!(display, "DP-1");
        }
        _ => panic!("expected move"),
    }
    assert!(matches!(parse_command(&args(&["p", "move", "brave", "to"])), CliCommand::MoveUsage));
    assert!(matches!(
        parse_command(&args(&["p", "move", "brave", "onto", "2"])),
        CliCommand::MoveUsage
    ));
}
