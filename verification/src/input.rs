use vstd::prelude::*;
use crate::actions::{NiriAction, copy_action};

verus! {

/// A rectangle of terminal cells: left column, top row, width and height.
#[derive(Clone, Copy, Debug, PartialEq, Eq, Structural)]
pub struct Area {
    pub x: u16,
    pub y: u16,
    pub width: u16,
    pub height: u16,
}

/// Whether the cell at column `x`, row `y` lies inside `a`.
pub open spec fn area_contains(a: Area, x: int, y: int) -> bool {
    &&& a.x <= x < a.x + a.width
    &&& a.y <= y < a.y + a.height
}

/// Whether the cell at column `x`, row `y` lies inside `a`.
pub fn contains_point(a: &Area, x: u16, y: u16) -> (r: bool)
    ensures
        r == area_contains(*a, x as int, y as int),
{
    let ax = a.x as u32;
    let ay = a.y as u32;
    let px = x as u32;
    let py = y as u32;
    px >= ax && px < ax + a.width as u32 && py >= ay && py < ay + a.height as u32
}

/// What a toolbar button does.
#[derive(Debug, PartialEq, Eq)]
pub enum ToolbarAction {
    /// Ask Niri to carry out an action.
    Niri(NiriAction),
    /// Swap the workspaces of the two leftmost monitors.
    SwapMonitors,
}

/// A copy of a toolbar action.
fn copy_toolbar_action(a: &ToolbarAction) -> (r: ToolbarAction)
    ensures
        r == *a,
{
    match a {
        ToolbarAction::Niri(n) => ToolbarAction::Niri(copy_action(n)),
        ToolbarAction::SwapMonitors => ToolbarAction::SwapMonitors,
    }
}

/// A window drawn on screen: where it is drawn, its id, and its index in the
/// window list it was drawn from.
#[derive(Clone, Copy, Debug, PartialEq, Eq, Structural)]
pub struct WindowTarget {
    pub area: Area,
    pub id: u64,
    pub window: usize,
}

/// A toolbar button on screen: where it is drawn, its label and what it does.
#[derive(Debug, PartialEq, Eq)]
pub struct ButtonTarget {
    pub area: Area,
    pub label: String,
    pub action: ToolbarAction,
}

/// What a tap does: focus the first window drawn under it, and run the first
/// button under it; the screen is refreshed when either happened.
#[derive(Debug, PartialEq, Eq)]
pub struct TapOutcome {
    pub focus: Option<u64>,
    pub action: Option<ToolbarAction>,
}

/// The window to focus for a tap at (`x`, `y`): the first window drawn there.
pub open spec fn tap_focus_ok(windows: Seq<WindowTarget>, x: int, y: int, r: Option<u64>) -> bool {
    match r {
        Some(id) => exists|i: int|
            0 <= i < windows.len() && windows[i].id == id && area_contains(windows[i].area, x, y)
                && forall|j: int|
                0 <= j < i ==> !area_contains(#[trigger] windows[j].area, x, y),
        None => forall|j: int| 0 <= j < windows.len() ==> !area_contains(#[trigger] windows[j].area, x, y),
    }
}

/// The button action for a tap at (`x`, `y`): that of the first button there.
pub open spec fn tap_button_ok(buttons: Seq<ButtonTarget>, x: int, y: int, r: Option<ToolbarAction>) -> bool {
    match r {
        Some(a) => exists|i: int|
            0 <= i < buttons.len() && buttons[i].action == a && area_contains(buttons[i].area, x, y)
                && forall|j: int|
                0 <= j < i ==> !area_contains(#[trigger] buttons[j].area, x, y),
        None => forall|j: int| 0 <= j < buttons.len() ==> !area_contains(#[trigger] buttons[j].area, x, y),
    }
}

/// The window drawn first at column `x`, row `y`.
pub fn window_at(windows: &Vec<WindowTarget>, x: u16, y: u16) -> (r: Option<u64>)
    ensures
        tap_focus_ok(windows@, x as int, y as int, r),
{
    let mut i: usize = 0;
    while i < windows.len()
        invariant
            i <= windows.len(),
            forall|j: int| 0 <= j < i ==> !area_contains(#[trigger] windows@[j].area, x as int, y as int),
        decreases windows.len() - i,
    {
        if contains_point(&windows[i].area, x, y) {
            return Some(windows[i].id);
        }
        i += 1;
    }
    None
}

/// The action of the button drawn first at column `x`, row `y`.
pub fn button_at(buttons: &Vec<ButtonTarget>, x: u16, y: u16) -> (r: Option<ToolbarAction>)
    ensures
        tap_button_ok(buttons@, x as int, y as int, r),
{
    let mut k: usize = 0;
    while k < buttons.len()
        invariant
            k <= buttons.len(),
            forall|j: int| 0 <= j < k ==> !area_contains(#[trigger] buttons@[j].area, x as int, y as int),
        decreases buttons.len() - k,
    {
        if contains_point(&buttons[k].area, x, y) {
            return Some(copy_toolbar_action(&buttons[k].action));
        }
        k += 1;
    }
    None
}

/// What a left-button tap at column `x`, row `y` does.
pub fn tap_outcome(windows: &Vec<WindowTarget>, buttons: &Vec<ButtonTarget>, x: u16, y: u16) -> (r: TapOutcome)
    ensures
        tap_focus_ok(windows@, x as int, y as int, r.focus),
        tap_button_ok(buttons@, x as int, y as int, r.action),
{
    TapOutcome { focus: window_at(windows, x, y), action: button_at(buttons, x, y) }
}

/// A key as the screen distinguishes keys.
#[derive(Clone, Copy, Debug, PartialEq, Eq, Structural)]
pub enum KeyInput {
    Char(char),
    Left,
    Right,
    Up,
    Down,
    Other,
}

/// What a key press does: leave the screen, or ask Niri for an action and
/// refresh, or only refresh.
#[derive(Debug, PartialEq, Eq)]
pub enum KeyOutcome {
    Quit,
    Run(NiriAction),
    Refresh,
}

/// The effect of a key: `q` quits; the arrows and the vim keys `h`, `j`, `k`,
/// `l` move the focus, and with shift held or as capitals `H`, `J`, `K`, `L`
/// move the focused window; any other key only refreshes.
pub open spec fn key_outcome_spec(key: KeyInput, shift: bool) -> KeyOutcome {
    match key {
        KeyInput::Char('q') => KeyOutcome::Quit,
        KeyInput::Left | KeyInput::Char('h') => if shift {
            KeyOutcome::Run(NiriAction::MoveWindowLeft)
        } else {
            KeyOutcome::Run(NiriAction::FocusColumnLeft)
        },
        KeyInput::Char('H') => KeyOutcome::Run(NiriAction::MoveWindowLeft),
        KeyInput::Right | KeyInput::Char('l') => if shift {
            KeyOutcome::Run(NiriAction::MoveWindowRight)
        } else {
            KeyOutcome::Run(NiriAction::FocusColumnRight)
        },
        KeyInput::Char('L') => KeyOutcome::Run(NiriAction::MoveWindowRight),
        KeyInput::Up | KeyInput::Char('k') => if shift {
            KeyOutcome::Run(NiriAction::MoveWindowUp)
        } else {
            KeyOutcome::Run(NiriAction::FocusWindowUp)
        },
        KeyInput::Char('K') => KeyOutcome::Run(NiriAction::MoveWindowUp),
        KeyInput::Down | KeyInput::Char('j') => if shift {
            KeyOutcome::Run(NiriAction::MoveWindowDown)
        } else {
            KeyOutcome::Run(NiriAction::FocusWindowDown)
        },
        KeyInput::Char('J') => KeyOutcome::Run(NiriAction::MoveWindowDown),
        _ => KeyOutcome::Refresh,
    }
}

/// The effect of a key press, with `shift` telling whether shift was held.
pub fn key_outcome(key: KeyInput, shift: bool) -> (r: KeyOutcome)
    ensures
        r == key_outcome_spec(key, shift),
{
    match key {
        KeyInput::Char('q') => KeyOutcome::Quit,
        KeyInput::Left | KeyInput::Char('h') | KeyInput::Char('H') => {
            if shift || key == KeyInput::Char('H') {
                KeyOutcome::Run(NiriAction::MoveWindowLeft)
            } else {
                KeyOutcome::Run(NiriAction::FocusColumnLeft)
            }
        },
        KeyInput::Right | KeyInput::Char('l') | KeyInput::Char('L') => {
            if shift || key == KeyInput::Char('L') {
                KeyOutcome::Run(NiriAction::MoveWindowRight)
            } else {
                KeyOutcome::Run(NiriAction::FocusColumnRight)
            }
        },
        KeyInput::Up | KeyInput::Char('k') | KeyInput::Char('K') => {
            if shift || key == KeyInput::Char('K') {
                KeyOutcome::Run(NiriAction::MoveWindowUp)
            } else {
                KeyOutcome::Run(NiriAction::FocusWindowUp)
            }
        },
        KeyInput::Down | KeyInput::Char('j') | KeyInput::Char('J') => {
            if shift || key == KeyInput::Char('J') {
                KeyOutcome::Run(NiriAction::MoveWindowDown)
            } else {
                KeyOutcome::Run(NiriAction::FocusWindowDown)
            }
        },
        _ => KeyOutcome::Refresh,
    }
}


/// The move that replaces a focus change when shift is held: focusing left,
/// right, up or down becomes moving the window that way.
pub open spec fn shifted(a: NiriAction) -> NiriAction {
    match a {
        NiriAction::FocusColumnLeft => NiriAction::MoveWindowLeft,
        NiriAction::FocusColumnRight => NiriAction::MoveWindowRight,
        NiriAction::FocusWindowUp => NiriAction::MoveWindowUp,
        NiriAction::FocusWindowDown => NiriAction::MoveWindowDown,
        other => other,
    }
}

/// Holding shift turns every focus key into the move in the same direction,
/// and leaves quitting and plain refreshes as they are.
pub proof fn lemma_shift_moves_instead_of_focusing(k: KeyInput)
    ensures
        key_outcome_spec(k, false) matches KeyOutcome::Run(a) ==> key_outcome_spec(k, true)
            == KeyOutcome::Run(shifted(a)),
        key_outcome_spec(k, false) is Quit <==> key_outcome_spec(k, true) is Quit,
        key_outcome_spec(k, false) is Refresh <==> key_outcome_spec(k, true) is Refresh,
{
}

/// The arrows and the vim keys `h`, `l`, `k`, `j` focus left, right, up and
/// down; the capitals `H`, `L`, `K`, `J` move the window as the shifted keys
/// do, shift or not; `q` quits whatever shift says.
pub proof fn lemma_key_directions(shift: bool)
    ensures
        key_outcome_spec(KeyInput::Left, false) == KeyOutcome::Run(NiriAction::FocusColumnLeft),
        key_outcome_spec(KeyInput::Right, false) == KeyOutcome::Run(NiriAction::FocusColumnRight),
        key_outcome_spec(KeyInput::Up, false) == KeyOutcome::Run(NiriAction::FocusWindowUp),
        key_outcome_spec(KeyInput::Down, false) == KeyOutcome::Run(NiriAction::FocusWindowDown),
        key_outcome_spec(KeyInput::Char('h'), shift) == key_outcome_spec(KeyInput::Left, shift),
        key_outcome_spec(KeyInput::Char('l'), shift) == key_outcome_spec(KeyInput::Right, shift),
        key_outcome_spec(KeyInput::Char('k'), shift) == key_outcome_spec(KeyInput::Up, shift),
        key_outcome_spec(KeyInput::Char('j'), shift) == key_outcome_spec(KeyInput::Down, shift),
        key_outcome_spec(KeyInput::Char('H'), shift) == key_outcome_spec(KeyInput::Left, true),
        key_outcome_spec(KeyInput::Char('L'), shift) == key_outcome_spec(KeyInput::Right, true),
        key_outcome_spec(KeyInput::Char('K'), shift) == key_outcome_spec(KeyInput::Up, true),
        key_outcome_spec(KeyInput::Char('J'), shift) == key_outcome_spec(KeyInput::Down, true),
        key_outcome_spec(KeyInput::Char('q'), shift) == KeyOutcome::Quit,
        key_outcome_spec(KeyInput::Other, shift) == KeyOutcome::Refresh,
{
}

/// Any character other than `q`, `h`, `j`, `k`, `l` and their capitals only
/// refreshes the screen.
pub proof fn lemma_other_keys_refresh(c: char, shift: bool)
    requires
        c != 'q' && c != 'h' && c != 'j' && c != 'k' && c != 'l' && c != 'H' && c != 'J' && c
            != 'K' && c != 'L',
    ensures
        key_outcome_spec(KeyInput::Char(c), shift) == KeyOutcome::Refresh,
{
}

} // verus!
