use vstd::prelude::*;
use crate::text::{decimal_digits, decimal_string, lemma_decimal_round_trip, parse_u64_spec};

verus! {

/// An action that Niri carries out on request (`niri msg action ...`).
#[derive(Debug, PartialEq, Eq)]
pub enum NiriAction {
    FocusWindow(u64),
    FocusColumnLeft,
    FocusColumnRight,
    FocusWindowUp,
    FocusWindowDown,
    MoveWindowLeft,
    MoveWindowRight,
    MoveWindowUp,
    MoveWindowDown,
    MoveWindowToMonitorLeft,
    MoveWindowToMonitorRight,
    MoveWindowToMonitor(String),
    MoveWorkspaceToMonitorLeft,
    MoveWorkspaceToMonitorRight,
    SetColumnWidth(u32),
    FullscreenWindow,
    CloseWindow,
}

/// The arguments that follow `niri msg action` for an action.
pub open spec fn action_args(a: NiriAction) -> Seq<Seq<char>> {
    match a {
        NiriAction::FocusWindow(id) => seq!["focus-window"@, "--id"@, decimal_digits(id as nat)],
        NiriAction::FocusColumnLeft => seq!["focus-column-left"@],
        NiriAction::FocusColumnRight => seq!["focus-column-right"@],
        NiriAction::FocusWindowUp => seq!["focus-window-up"@],
        NiriAction::FocusWindowDown => seq!["focus-window-down"@],
        NiriAction::MoveWindowLeft => seq!["move-window-left"@],
        NiriAction::MoveWindowRight => seq!["move-window-right"@],
        NiriAction::MoveWindowUp => seq!["move-window-up"@],
        NiriAction::MoveWindowDown => seq!["move-window-down"@],
        NiriAction::MoveWindowToMonitorLeft => seq!["move-window-to-monitor-left"@],
        NiriAction::MoveWindowToMonitorRight => seq!["move-window-to-monitor-right"@],
        NiriAction::MoveWindowToMonitor(name) => seq!["move-window-to-monitor"@, name@],
        NiriAction::MoveWorkspaceToMonitorLeft => seq!["move-workspace-to-monitor-left"@],
        NiriAction::MoveWorkspaceToMonitorRight => seq!["move-workspace-to-monitor-right"@],
        NiriAction::SetColumnWidth(p) => seq![
            "set-column-width"@,
            decimal_digits(p as nat).push('%'),
        ],
        NiriAction::FullscreenWindow => seq!["fullscreen-window"@],
        NiriAction::CloseWindow => seq!["close-window"@],
    }
}

/// The character sequences of a list of strings.
pub open spec fn arg_texts(v: Seq<String>) -> Seq<Seq<char>> {
    v.map_values(|s: String| s@)
}

fn one(a: &str) -> (r: Vec<String>)
    ensures
        arg_texts(r@) == seq![a@],
{
    let mut v: Vec<String> = Vec::new();
    v.push(a.to_owned());
    assert(arg_texts(v@) =~= seq![a@]);
    v
}

fn two(a: &str, b: String) -> (r: Vec<String>)
    ensures
        arg_texts(r@) == seq![a@, b@],
{
    let mut v: Vec<String> = Vec::new();
    v.push(a.to_owned());
    v.push(b);
    assert(arg_texts(v@) =~= seq![a@, b@]);
    v
}

impl NiriAction {
    /// The arguments to pass after `niri msg action` to carry out this action.
    pub fn arguments(&self) -> (r: Vec<String>)
        ensures
            arg_texts(r@) == action_args(*self),
    {
        match self {
            NiriAction::FocusWindow(id) => {
                let mut v: Vec<String> = Vec::new();
                v.push("focus-window".to_owned());
                v.push("--id".to_owned());
                v.push(decimal_string(*id));
                assert(arg_texts(v@) =~= action_args(*self));
                v
            },
            NiriAction::FocusColumnLeft => one("focus-column-left"),
            NiriAction::FocusColumnRight => one("focus-column-right"),
            NiriAction::FocusWindowUp => one("focus-window-up"),
            NiriAction::FocusWindowDown => one("focus-window-down"),
            NiriAction::MoveWindowLeft => one("move-window-left"),
            NiriAction::MoveWindowRight => one("move-window-right"),
            NiriAction::MoveWindowUp => one("move-window-up"),
            NiriAction::MoveWindowDown => one("move-window-down"),
            NiriAction::MoveWindowToMonitorLeft => one("move-window-to-monitor-left"),
            NiriAction::MoveWindowToMonitorRight => one("move-window-to-monitor-right"),
            NiriAction::MoveWindowToMonitor(name) => two("move-window-to-monitor", name.clone()),
            NiriAction::MoveWorkspaceToMonitorLeft => one("move-workspace-to-monitor-left"),
            NiriAction::MoveWorkspaceToMonitorRight => one("move-workspace-to-monitor-right"),
            NiriAction::SetColumnWidth(p) => {
                let mut w = decimal_string(*p as u64);
                w.push('%');
                two("set-column-width", w)
            },
            NiriAction::FullscreenWindow => one("fullscreen-window"),
            NiriAction::CloseWindow => one("close-window"),
        }
    }
}

/// A copy of an action.
pub(crate) fn copy_action(a: &NiriAction) -> (r: NiriAction)
    ensures
        r == *a,
{
    match a {
        NiriAction::FocusWindow(id) => NiriAction::FocusWindow(*id),
        NiriAction::FocusColumnLeft => NiriAction::FocusColumnLeft,
        NiriAction::FocusColumnRight => NiriAction::FocusColumnRight,
        NiriAction::FocusWindowUp => NiriAction::FocusWindowUp,
        NiriAction::FocusWindowDown => NiriAction::FocusWindowDown,
        NiriAction::MoveWindowLeft => NiriAction::MoveWindowLeft,
        NiriAction::MoveWindowRight => NiriAction::MoveWindowRight,
        NiriAction::MoveWindowUp => NiriAction::MoveWindowUp,
        NiriAction::MoveWindowDown => NiriAction::MoveWindowDown,
        NiriAction::MoveWindowToMonitorLeft => NiriAction::MoveWindowToMonitorLeft,
        NiriAction::MoveWindowToMonitorRight => NiriAction::MoveWindowToMonitorRight,
        NiriAction::MoveWindowToMonitor(n) => NiriAction::MoveWindowToMonitor(n.clone()),
        NiriAction::MoveWorkspaceToMonitorLeft => NiriAction::MoveWorkspaceToMonitorLeft,
        NiriAction::MoveWorkspaceToMonitorRight => NiriAction::MoveWorkspaceToMonitorRight,
        NiriAction::SetColumnWidth(p) => NiriAction::SetColumnWidth(*p),
        NiriAction::FullscreenWindow => NiriAction::FullscreenWindow,
        NiriAction::CloseWindow => NiriAction::CloseWindow,
    }
}


/// Focus window `id`, then carry out `action` on it.
pub fn focus_then(id: u64, action: NiriAction) -> (r: Vec<NiriAction>)
    ensures
        r@ == seq![NiriAction::FocusWindow(id), action],
{
    let mut v: Vec<NiriAction> = Vec::new();
    v.push(NiriAction::FocusWindow(id));
    v.push(action);
    assert(v@ =~= seq![NiriAction::FocusWindow(id), action]);
    v
}

/// The window id that a focus action hands to Niri reads back as that id.
pub proof fn lemma_focus_id_round_trip(id: u64)
    ensures
        action_args(NiriAction::FocusWindow(id)).len() == 3,
        parse_u64_spec(action_args(NiriAction::FocusWindow(id))[2]) == Some(id),
{
    lemma_decimal_round_trip(id);
}


/// The direction an action is about, read from what it does: left, right, up,
/// down, or none.
pub open spec fn direction_of(a: NiriAction) -> Seq<char> {
    match a {
        NiriAction::FocusColumnLeft | NiriAction::MoveWindowLeft
        | NiriAction::MoveWindowToMonitorLeft | NiriAction::MoveWorkspaceToMonitorLeft => "left"@,
        NiriAction::FocusColumnRight | NiriAction::MoveWindowRight
        | NiriAction::MoveWindowToMonitorRight | NiriAction::MoveWorkspaceToMonitorRight => "right"@,
        NiriAction::FocusWindowUp | NiriAction::MoveWindowUp => "up"@,
        NiriAction::FocusWindowDown | NiriAction::MoveWindowDown => "down"@,
        _ => Seq::empty(),
    }
}

/// Whether an action moves a window or a workspace (rather than the focus).
pub open spec fn is_move(a: NiriAction) -> bool {
    match a {
        NiriAction::MoveWindowLeft | NiriAction::MoveWindowRight | NiriAction::MoveWindowUp
        | NiriAction::MoveWindowDown | NiriAction::MoveWindowToMonitorLeft
        | NiriAction::MoveWindowToMonitorRight | NiriAction::MoveWindowToMonitor(_)
        | NiriAction::MoveWorkspaceToMonitorLeft | NiriAction::MoveWorkspaceToMonitorRight => true,
        _ => false,
    }
}

/// Whether a text starts with `p`.
pub open spec fn starts_with(s: Seq<char>, p: Seq<char>) -> bool {
    p.len() <= s.len() && s.take(p.len() as int) == p
}

/// Whether a text ends with `p`.
pub open spec fn ends_with(s: Seq<char>, p: Seq<char>) -> bool {
    p.len() <= s.len() && s.skip(s.len() - p.len()) == p
}

/// The Niri action name of every directional action ends in its direction,
/// and names a move (`move-...`) exactly for moves and a focus change
/// (`focus-...`) for the rest.
pub proof fn lemma_action_names_tell_direction(a: NiriAction)
    requires
        direction_of(a).len() > 0,
    ensures
        ends_with(action_args(a)[0], seq!['-'] + direction_of(a)),
        is_move(a) ==> starts_with(action_args(a)[0], "move-"@),
        !is_move(a) ==> starts_with(action_args(a)[0], "focus-"@),
{
    reveal_strlit("left");
    reveal_strlit("right");
    reveal_strlit("up");
    reveal_strlit("down");
    reveal_strlit("-left");
    reveal_strlit("-right");
    reveal_strlit("-up");
    reveal_strlit("-down");
    reveal_strlit("move-");
    reveal_strlit("focus-");
    assert(seq!['-'] + "left"@ =~= "-left"@);
    assert(seq!['-'] + "right"@ =~= "-right"@);
    assert(seq!['-'] + "up"@ =~= "-up"@);
    assert(seq!['-'] + "down"@ =~= "-down"@);
    match a {
        NiriAction::FocusColumnLeft => {
            reveal_strlit("focus-column-left");
            let t = "focus-column-left"@;
            assert(t.skip(12) =~= "-left"@);
            assert(t.take(6) =~= "focus-"@);
        },
        NiriAction::FocusColumnRight => {
            reveal_strlit("focus-column-right");
            let t = "focus-column-right"@;
            assert(t.skip(12) =~= "-right"@);
            assert(t.take(6) =~= "focus-"@);
        },
        NiriAction::FocusWindowUp => {
            reveal_strlit("focus-window-up");
            let t = "focus-window-up"@;
            assert(t.skip(12) =~= "-up"@);
            assert(t.take(6) =~= "focus-"@);
        },
        NiriAction::FocusWindowDown => {
            reveal_strlit("focus-window-down");
            let t = "focus-window-down"@;
            assert(t.skip(12) =~= "-down"@);
            assert(t.take(6) =~= "focus-"@);
        },
        NiriAction::MoveWindowLeft => {
            reveal_strlit("move-window-left");
            let t = "move-window-left"@;
            assert(t.skip(11) =~= "-left"@);
            assert(t.take(5) =~= "move-"@);
        },
        NiriAction::MoveWindowRight => {
            reveal_strlit("move-window-right");
            let t = "move-window-right"@;
            assert(t.skip(11) =~= "-right"@);
            assert(t.take(5) =~= "move-"@);
        },
        NiriAction::MoveWindowUp => {
            reveal_strlit("move-window-up");
            let t = "move-window-up"@;
            assert(t.skip(11) =~= "-up"@);
            assert(t.take(5) =~= "move-"@);
        },
        NiriAction::MoveWindowDown => {
            reveal_strlit("move-window-down");
            let t = "move-window-down"@;
            assert(t.skip(11) =~= "-down"@);
            assert(t.take(5) =~= "move-"@);
        },
        NiriAction::MoveWindowToMonitorLeft => {
            reveal_strlit("move-window-to-monitor-left");
            let t = "move-window-to-monitor-left"@;
            assert(t.skip(22) =~= "-left"@);
            assert(t.take(5) =~= "move-"@);
        },
        NiriAction::MoveWindowToMonitorRight => {
            reveal_strlit("move-window-to-monitor-right");
            let t = "move-window-to-monitor-right"@;
            assert(t.skip(22) =~= "-right"@);
            assert(t.take(5) =~= "move-"@);
        },
        NiriAction::MoveWorkspaceToMonitorLeft => {
            reveal_strlit("move-workspace-to-monitor-left");
            let t = "move-workspace-to-monitor-left"@;
            assert(t.skip(25) =~= "-left"@);
            assert(t.take(5) =~= "move-"@);
        },
        NiriAction::MoveWorkspaceToMonitorRight => {
            reveal_strlit("move-workspace-to-monitor-right");
            let t = "move-workspace-to-monitor-right"@;
            assert(t.skip(25) =~= "-right"@);
            assert(t.take(5) =~= "move-"@);
        },
        _ => {},
    }
}


/// A column width is handed to Niri as its percentage followed by `%`, and the
/// digits read back as that percentage; a move to a named monitor hands over
/// the name unchanged.
pub proof fn lemma_action_values_round_trip(pct: u32, name: String)
    ensures
        action_args(NiriAction::SetColumnWidth(pct)).len() == 2,
        action_args(NiriAction::SetColumnWidth(pct))[1].last() == '%',
        parse_u64_spec(action_args(NiriAction::SetColumnWidth(pct))[1].drop_last()) == Some(
            pct as u64,
        ),
        action_args(NiriAction::MoveWindowToMonitor(name)).len() == 2,
        action_args(NiriAction::MoveWindowToMonitor(name))[1] == name@,
{
    lemma_decimal_round_trip(pct as u64);
    let d = decimal_digits(pct as nat);
    assert(d.push('%').drop_last() =~= d);
}

} // verus!
