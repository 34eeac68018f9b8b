use vstd::prelude::*;
use crate::actions::NiriAction;
use crate::snap::{get_snapped_pct, snap_spec};

verus! {

/// The width assumed for a window that does not report its size.
pub const DEFAULT_WINDOW_WIDTH: u64 = 1000;

/// A workspace entry as read for a swap: each field only where Niri gave it in
/// the expected form (`is_active` is false when absent).
pub struct WorkspaceEntry {
    pub id: Option<u64>,
    pub output: Option<String>,
    pub is_active: bool,
}

/// A window entry as read for a swap: its id, workspace, width in pixels and
/// whether it is fullscreen (false when absent).
pub struct WindowEntry {
    pub id: Option<u64>,
    pub workspace_id: Option<u64>,
    pub width: Option<u64>,
    pub is_fullscreen: bool,
}

/// A window that a swap moves: its id, the column width it snaps to on the
/// monitor it leaves, and whether it is fullscreen.
pub struct SwapWindow {
    pub id: u64,
    pub pct: u32,
    pub is_fullscreen: bool,
}

/// The active workspaces on the left and right monitor, as a scan over the
/// workspaces finds them: each active workspace on the left monitor sets the
/// left id (to nothing when it has no id), else each one on the right monitor
/// sets the right id; the last one seen wins.
pub open spec fn active_workspaces_spec(
    ws: Seq<WorkspaceEntry>,
    left: Seq<char>,
    right: Seq<char>,
) -> (Option<u64>, Option<u64>)
    decreases ws.len(),
{
    if ws.len() == 0 {
        (None, None)
    } else {
        let prev = active_workspaces_spec(ws.drop_last(), left, right);
        let w = ws.last();
        if w.is_active && w.output.is_some() {
            if w.output.unwrap()@ == left {
                (w.id, prev.1)
            } else if w.output.unwrap()@ == right {
                (prev.0, w.id)
            } else {
                prev
            }
        } else {
            prev
        }
    }
}

/// Finds the active workspace of the left and of the right monitor.
pub fn active_workspaces(ws: &Vec<WorkspaceEntry>, left: &String, right: &String) -> (r: (
    Option<u64>,
    Option<u64>,
))
    ensures
        r == active_workspaces_spec(ws@, left@, right@),
{
    let mut l: Option<u64> = None;
    let mut r: Option<u64> = None;
    let mut i: usize = 0;
    while i < ws.len()
        invariant
            i <= ws.len(),
            (l, r) == active_workspaces_spec(ws@.take(i as int), left@, right@),
        decreases ws.len() - i,
    {
        proof {
            assert(ws@.take(i + 1).drop_last() =~= ws@.take(i as int));
        }
        let w = &ws[i];
        if w.is_active {
            match &w.output {
                Some(o) => {
                    if *o == *left {
                        l = w.id;
                    } else if *o == *right {
                        r = w.id;
                    }
                },
                None => {},
            }
        }
        i += 1;
    }
    assert(ws@.take(i as int) =~= ws@);
    (l, r)
}

/// The swap record of a window entry with an id, snapped against a monitor width.
pub open spec fn swap_window_of(w: WindowEntry, monitor_width: u64) -> SwapWindow {
    SwapWindow {
        id: w.id.unwrap(),
        pct: snap_spec(
            match w.width {
                Some(x) => x as nat,
                None => DEFAULT_WINDOW_WIDTH as nat,
            },
            monitor_width as nat,
        ),
        is_fullscreen: w.is_fullscreen,
    }
}

/// The windows on the left and on the right active workspace, in the order
/// reported: a window with both an id and a workspace joins the left list when
/// its workspace is the left one, else the right list when it is the right
/// one; its width is snapped against the width of the monitor it is on.
pub open spec fn swap_windows_spec(
    wins: Seq<WindowEntry>,
    left_ws: Option<u64>,
    right_ws: Option<u64>,
    left_width: u64,
    right_width: u64,
) -> (Seq<SwapWindow>, Seq<SwapWindow>)
    decreases wins.len(),
{
    if wins.len() == 0 {
        (Seq::empty(), Seq::empty())
    } else {
        let prev = swap_windows_spec(wins.drop_last(), left_ws, right_ws, left_width, right_width);
        let w = wins.last();
        if w.workspace_id.is_some() && w.id.is_some() {
            if w.workspace_id == left_ws {
                (prev.0.push(swap_window_of(w, left_width)), prev.1)
            } else if w.workspace_id == right_ws {
                (prev.0, prev.1.push(swap_window_of(w, right_width)))
            } else {
                prev
            }
        } else {
            prev
        }
    }
}

/// Sorts the windows of the two active workspaces into a left and a right list.
pub fn swap_windows(
    wins: &Vec<WindowEntry>,
    left_ws: Option<u64>,
    right_ws: Option<u64>,
    left_width: u64,
    right_width: u64,
) -> (r: (Vec<SwapWindow>, Vec<SwapWindow>))
    ensures
        (r.0@, r.1@) == swap_windows_spec(wins@, left_ws, right_ws, left_width, right_width),
{
    let mut left: Vec<SwapWindow> = Vec::new();
    let mut right: Vec<SwapWindow> = Vec::new();
    let mut i: usize = 0;
    while i < wins.len()
        invariant
            i <= wins.len(),
            (left@, right@) == swap_windows_spec(
                wins@.take(i as int),
                left_ws,
                right_ws,
                left_width,
                right_width,
            ),
        decreases wins.len() - i,
    {
        proof {
            assert(wins@.take(i + 1).drop_last() =~= wins@.take(i as int));
        }
        let w = &wins[i];
        match (w.workspace_id, w.id) {
            (Some(ws_id), Some(id)) => {
                let width = match w.width {
                    Some(x) => x,
                    None => DEFAULT_WINDOW_WIDTH,
                };
                if Some(ws_id) == left_ws {
                    left.push(
                        SwapWindow {
                            id,
                            pct: get_snapped_pct(width, left_width),
                            is_fullscreen: w.is_fullscreen,
                        },
                    );
                } else if Some(ws_id) == right_ws {
                    right.push(
                        SwapWindow {
                            id,
                            pct: get_snapped_pct(width, right_width),
                            is_fullscreen: w.is_fullscreen,
                        },
                    );
                }
            },
            _ => {},
        }
        i += 1;
    }
    assert(wins@.take(i as int) =~= wins@);
    (left, right)
}

/// Focusing the first window of a side and sending its workspace to the other
/// monitor; nothing for a side without windows.
pub open spec fn move_side_spec(side: Seq<SwapWindow>, toward: NiriAction) -> Seq<NiriAction> {
    if side.len() > 0 {
        seq![NiriAction::FocusWindow(side[0].id), toward]
    } else {
        Seq::empty()
    }
}

/// For each window of a side that is not fullscreen, in order: focus it, then
/// set its column to its snapped width.
pub open spec fn resize_side_spec(side: Seq<SwapWindow>) -> Seq<NiriAction>
    decreases side.len(),
{
    if side.len() == 0 {
        Seq::empty()
    } else {
        let w = side.last();
        resize_side_spec(side.drop_last()) + if w.is_fullscreen {
            Seq::empty()
        } else {
            seq![NiriAction::FocusWindow(w.id), NiriAction::SetColumnWidth(w.pct)]
        }
    }
}

/// Focusing the first window of a side again; nothing for a side without windows.
pub open spec fn refocus_side_spec(side: Seq<SwapWindow>) -> Seq<NiriAction> {
    if side.len() > 0 {
        seq![NiriAction::FocusWindow(side[0].id)]
    } else {
        Seq::empty()
    }
}

/// The actions of a swap: move the left workspace right and the right one left,
/// then resize the columns of each side to their snapped widths and give focus
/// back to each side's first window.
pub open spec fn swap_plan_spec(left: Seq<SwapWindow>, right: Seq<SwapWindow>) -> Seq<NiriAction> {
    move_side_spec(left, NiriAction::MoveWorkspaceToMonitorRight) + move_side_spec(
        right,
        NiriAction::MoveWorkspaceToMonitorLeft,
    ) + resize_side_spec(left) + refocus_side_spec(left) + resize_side_spec(right)
        + refocus_side_spec(right)
}

fn push_move_side(plan: &mut Vec<NiriAction>, side: &Vec<SwapWindow>, toward: NiriAction)
    ensures
        final(plan)@ == old(plan)@ + move_side_spec(side@, toward),
{
    if side.len() > 0 {
        plan.push(NiriAction::FocusWindow(side[0].id));
        plan.push(toward);
        assert(final(plan)@ =~= old(plan)@ + move_side_spec(side@, toward));
    } else {
        assert(plan@ =~= old(plan)@ + move_side_spec(side@, toward));
    }
}

fn push_refocus_side(plan: &mut Vec<NiriAction>, side: &Vec<SwapWindow>)
    ensures
        final(plan)@ == old(plan)@ + refocus_side_spec(side@),
{
    if side.len() > 0 {
        plan.push(NiriAction::FocusWindow(side[0].id));
        assert(final(plan)@ =~= old(plan)@ + refocus_side_spec(side@));
    } else {
        assert(plan@ =~= old(plan)@ + refocus_side_spec(side@));
    }
}

fn push_resize_side(plan: &mut Vec<NiriAction>, side: &Vec<SwapWindow>)
    ensures
        final(plan)@ == old(plan)@ + resize_side_spec(side@),
{
    let ghost start = plan@;
    let mut i: usize = 0;
    while i < side.len()
        invariant
            i <= side.len(),
            plan@ == start + resize_side_spec(side@.take(i as int)),
        decreases side.len() - i,
    {
        proof {
            assert(side@.take(i + 1).drop_last() =~= side@.take(i as int));
        }
        let w = &side[i];
        let ghost before = plan@;
        if !w.is_fullscreen {
            plan.push(NiriAction::FocusWindow(w.id));
            plan.push(NiriAction::SetColumnWidth(w.pct));
            assert(plan@ =~= before + seq![NiriAction::FocusWindow(w.id), NiriAction::SetColumnWidth(w.pct)]);
        } else {
            assert(before + Seq::<NiriAction>::empty() =~= before);
        }
        i += 1;
        assert(plan@ =~= start + resize_side_spec(side@.take(i as int)));
    }
    assert(side@.take(i as int) =~= side@);
}

/// The actions that swap the workspaces of the two monitors and restore the
/// snapped column widths of their windows.
pub fn swap_plan(left: &Vec<SwapWindow>, right: &Vec<SwapWindow>) -> (plan: Vec<NiriAction>)
    ensures
        plan@ == swap_plan_spec(left@, right@),
{
    let mut plan: Vec<NiriAction> = Vec::new();
    push_move_side(&mut plan, left, NiriAction::MoveWorkspaceToMonitorRight);
    push_move_side(&mut plan, right, NiriAction::MoveWorkspaceToMonitorLeft);
    push_resize_side(&mut plan, left);
    push_refocus_side(&mut plan, left);
    push_resize_side(&mut plan, right);
    push_refocus_side(&mut plan, right);
    assert(plan@ =~= swap_plan_spec(left@, right@));
    plan
}


/// Whether workspace `w` is active and shown on the monitor named `name`.
pub open spec fn active_on(w: WorkspaceEntry, name: Seq<char>) -> bool {
    w.is_active && w.output.is_some() && w.output.unwrap()@ == name
}

/// The workspace a swap takes from a monitor is the last active workspace
/// reported on it (its id, or nothing when that one has no id), and nothing
/// when no active workspace is reported on it; a workspace on a monitor named
/// like the left one never counts for the right one.
pub proof fn lemma_last_active_workspace_wins(ws: Seq<WorkspaceEntry>, left: Seq<char>, right: Seq<char>)
    ensures
        (forall|i: int| 0 <= i < ws.len() ==> !active_on(#[trigger] ws[i], left))
            ==> active_workspaces_spec(ws, left, right).0 is None,
        forall|i: int|
            0 <= i < ws.len() && active_on(#[trigger] ws[i], left) && (forall|j: int|
                i < j < ws.len() ==> !active_on(#[trigger] ws[j], left)) ==> active_workspaces_spec(
                ws,
                left,
                right,
            ).0 == ws[i].id,
        (forall|i: int| 0 <= i < ws.len() ==> !(active_on(#[trigger] ws[i], right) && !active_on(ws[i], left)))
            ==> active_workspaces_spec(ws, left, right).1 is None,
        forall|i: int|
            0 <= i < ws.len() && active_on(#[trigger] ws[i], right) && !active_on(ws[i], left) && (
            forall|j: int|
                i < j < ws.len() ==> !(active_on(#[trigger] ws[j], right) && !active_on(ws[j], left)))
                ==> active_workspaces_spec(ws, left, right).1 == ws[i].id,
    decreases ws.len(),
{
    if ws.len() > 0 {
        let d = ws.drop_last();
        lemma_last_active_workspace_wins(d, left, right);
        let n = ws.len() - 1;
        assert forall|i: int| 0 <= i < d.len() implies d[i] == ws[i] by {}
        assert forall|i: int|
            0 <= i < ws.len() && active_on(#[trigger] ws[i], left) && (forall|j: int|
                i < j < ws.len() ==> !active_on(#[trigger] ws[j], left)) implies active_workspaces_spec(
                ws,
                left,
                right,
            ).0 == ws[i].id by {
            if i < n {
                assert(!active_on(ws[n], left));
                assert(active_on(d[i], left));
                assert forall|j: int| i < j < d.len() implies !active_on(#[trigger] d[j], left) by {
                    assert(!active_on(ws[j], left));
                }
            }
        }
        assert forall|i: int|
            0 <= i < ws.len() && active_on(#[trigger] ws[i], right) && !active_on(ws[i], left) && (
            forall|j: int|
                i < j < ws.len() ==> !(active_on(#[trigger] ws[j], right) && !active_on(ws[j], left)))
                implies active_workspaces_spec(ws, left, right).1 == ws[i].id by {
            if i < n {
                assert(!(active_on(ws[n], right) && !active_on(ws[n], left)));
                assert(active_on(d[i], right) && !active_on(d[i], left));
                assert forall|j: int| i < j < d.len() implies !(active_on(#[trigger] d[j], right)
                    && !active_on(d[j], left)) by {
                    assert(!(active_on(ws[j], right) && !active_on(ws[j], left)));
                }
            }
        }
        if forall|i: int| 0 <= i < ws.len() ==> !active_on(#[trigger] ws[i], left) {
            assert forall|i: int| 0 <= i < d.len() implies !active_on(#[trigger] d[i], left) by {
                assert(!active_on(ws[i], left));
            }
        }
        if forall|i: int| 0 <= i < ws.len() ==> !(active_on(#[trigger] ws[i], right) && !active_on(ws[i], left)) {
            assert forall|i: int| 0 <= i < d.len() implies !(active_on(#[trigger] d[i], right) && !active_on(d[i], left)) by {
                assert(!(active_on(ws[i], right) && !active_on(ws[i], left)));
            }
        }
    }
}

/// Whether a window entry joins the left list: it has an id and sits on the
/// left active workspace.
pub open spec fn joins_left(left_ws: Option<u64>) -> spec_fn(WindowEntry) -> bool {
    |w: WindowEntry| w.id.is_some() && w.workspace_id.is_some() && w.workspace_id == left_ws
}

/// Whether a window entry joins the right list: it has an id and sits on the
/// right active workspace (and not on the left one).
pub open spec fn joins_right(left_ws: Option<u64>, right_ws: Option<u64>) -> spec_fn(WindowEntry) -> bool {
    |w: WindowEntry|
        w.id.is_some() && w.workspace_id.is_some() && w.workspace_id != left_ws && w.workspace_id
            == right_ws
}

/// A window entry recorded with its width snapped against `monitor_width`
/// (1000 pixels when it reports no width).
pub open spec fn snapped_against(monitor_width: u64) -> spec_fn(WindowEntry) -> SwapWindow {
    |w: WindowEntry|
        SwapWindow {
            id: w.id.unwrap(),
            pct: snap_spec(
                match w.width {
                    Some(x) => x as nat,
                    None => 1000,
                },
                monitor_width as nat,
            ),
            is_fullscreen: w.is_fullscreen,
        }
}

/// Each side lists, in reported order, exactly the windows of its own active
/// workspace, each snapped against the width of the monitor it is on: the left
/// list against the left monitor's width, the right list against the right
/// monitor's width.
pub proof fn lemma_each_side_snapped_on_its_own_monitor(
    wins: Seq<WindowEntry>,
    left_ws: Option<u64>,
    right_ws: Option<u64>,
    left_width: u64,
    right_width: u64,
)
    ensures
        swap_windows_spec(wins, left_ws, right_ws, left_width, right_width).0 == wins.filter(
            joins_left(left_ws),
        ).map_values(snapped_against(left_width)),
        swap_windows_spec(wins, left_ws, right_ws, left_width, right_width).1 == wins.filter(
            joins_right(left_ws, right_ws),
        ).map_values(snapped_against(right_width)),
    decreases wins.len(),
{
    if wins.len() == 0 {
        assert(wins.filter(joins_left(left_ws)) =~= Seq::<WindowEntry>::empty());
        assert(wins.filter(joins_right(left_ws, right_ws)) =~= Seq::<WindowEntry>::empty());
        assert(wins.filter(joins_left(left_ws)).map_values(snapped_against(left_width)) =~= Seq::<
            SwapWindow,
        >::empty());
        assert(wins.filter(joins_right(left_ws, right_ws)).map_values(snapped_against(right_width))
            =~= Seq::<SwapWindow>::empty());
    } else {
        let d = wins.drop_last();
        let w = wins.last();
        lemma_each_side_snapped_on_its_own_monitor(d, left_ws, right_ws, left_width, right_width);
        d.lemma_filter_push(w, joins_left(left_ws));
        d.lemma_filter_push(w, joins_right(left_ws, right_ws));
        assert(d.push(w) =~= wins);
        let fl = d.filter(joins_left(left_ws));
        let fr = d.filter(joins_right(left_ws, right_ws));
        assert(fl.push(w).map_values(snapped_against(left_width)) =~= fl.map_values(
            snapped_against(left_width),
        ).push(snapped_against(left_width)(w)));
        assert(fr.push(w).map_values(snapped_against(right_width)) =~= fr.map_values(
            snapped_against(right_width),
        ).push(snapped_against(right_width)(w)));
    }
}

/// The windows of a side that are not fullscreen, in order.
pub open spec fn resizable(side: Seq<SwapWindow>) -> Seq<SwapWindow> {
    side.filter(|w: SwapWindow| !w.is_fullscreen)
}

/// A swap resizes exactly the windows that are not fullscreen, each once and in
/// order: it focuses the window and then sets its column to the window's
/// snapped width. Fullscreen windows keep their size.
pub proof fn lemma_resize_only_non_fullscreen(side: Seq<SwapWindow>)
    ensures
        resize_side_spec(side).len() == 2 * resizable(side).len(),
        forall|k: int|
            0 <= k < resizable(side).len() ==> {
                &&& resize_side_spec(side)[2 * k] == NiriAction::FocusWindow(
                    (#[trigger] resizable(side)[k]).id,
                )
                &&& resize_side_spec(side)[2 * k + 1] == NiriAction::SetColumnWidth(
                    resizable(side)[k].pct,
                )
            },
    decreases side.len(),
{
    if side.len() > 0 {
        let d = side.drop_last();
        let w = side.last();
        lemma_resize_only_non_fullscreen(d);
        d.lemma_filter_push(w, |w: SwapWindow| !w.is_fullscreen);
        assert(d.push(w) =~= side);
        let prev = resize_side_spec(d);
        let cur = resize_side_spec(side);
        if !w.is_fullscreen {
            assert forall|k: int| 0 <= k < resizable(side).len() implies {
                &&& cur[2 * k] == NiriAction::FocusWindow((#[trigger] resizable(side)[k]).id)
                &&& cur[2 * k + 1] == NiriAction::SetColumnWidth(resizable(side)[k].pct)
            } by {
                if k < resizable(d).len() {
                    assert(resizable(side)[k] == resizable(d)[k]);
                } else {
                    assert(resizable(side)[k] == w);
                }
            }
        } else {
            assert(cur =~= prev);
        }
    } else {
        assert(resizable(side) =~= Seq::<SwapWindow>::empty());
    }
}

/// A swap moves a monitor's workspace exactly when that side has a window:
/// the left workspace is sent right first, then the right one left.
pub proof fn lemma_swap_moves_both_sides(left: Seq<SwapWindow>, right: Seq<SwapWindow>)
    requires
        left.len() > 0,
        right.len() > 0,
    ensures
        swap_plan_spec(left, right).take(4) == seq![
            NiriAction::FocusWindow(left[0].id),
            NiriAction::MoveWorkspaceToMonitorRight,
            NiriAction::FocusWindow(right[0].id),
            NiriAction::MoveWorkspaceToMonitorLeft,
        ],
        swap_plan_spec(left, right).last() == NiriAction::FocusWindow(right[0].id),
{
    let p = swap_plan_spec(left, right);
    assert(p.take(4) =~= seq![
        NiriAction::FocusWindow(left[0].id),
        NiriAction::MoveWorkspaceToMonitorRight,
        NiriAction::FocusWindow(right[0].id),
        NiriAction::MoveWorkspaceToMonitorLeft,
    ]);
}


/// The shape of a swap: the two workspace moves (for each side that has a
/// window), then the left side's resizes and a return of focus to its first
/// window, then the same for the right side; so the swap ends focused on the
/// first window of the right side, or of the left side when the right has none.
pub proof fn lemma_swap_plan_shape(left: Seq<SwapWindow>, right: Seq<SwapWindow>)
    ensures
        ({
            let p = swap_plan_spec(left, right);
            let ml: int = if left.len() > 0 { 2 } else { 0 };
            let mr: int = if right.len() > 0 { 2 } else { 0 };
            let fl: int = if left.len() > 0 { 1 } else { 0 };
            let fr: int = if right.len() > 0 { 1 } else { 0 };
            &&& p.len() == ml + mr + 2 * resizable(left).len() + fl + 2 * resizable(right).len() + fr
            &&& left.len() > 0 ==> p[0] == NiriAction::FocusWindow(left[0].id) && p[1]
                == NiriAction::MoveWorkspaceToMonitorRight
            &&& right.len() > 0 ==> p[ml] == NiriAction::FocusWindow(right[0].id) && p[ml + 1]
                == NiriAction::MoveWorkspaceToMonitorLeft
            &&& left.len() > 0 ==> p[ml + mr + 2 * resizable(left).len()] == NiriAction::FocusWindow(
                left[0].id,
            )
            &&& right.len() > 0 ==> p.last() == NiriAction::FocusWindow(right[0].id)
            &&& (right.len() == 0 && left.len() > 0) ==> p.last() == NiriAction::FocusWindow(left[0].id)
            &&& (left.len() == 0 && right.len() == 0) ==> p.len() == 0
        }),
{
    lemma_resize_only_non_fullscreen(left);
    lemma_resize_only_non_fullscreen(right);
    let a = move_side_spec(left, NiriAction::MoveWorkspaceToMonitorRight);
    let b = move_side_spec(right, NiriAction::MoveWorkspaceToMonitorLeft);
    let c = resize_side_spec(left);
    let d = refocus_side_spec(left);
    let e = resize_side_spec(right);
    let f = refocus_side_spec(right);
    let p = swap_plan_spec(left, right);
    assert(p == a + b + c + d + e + f);
    if left.len() == 0 {
        assert(resizable(left) =~= Seq::<SwapWindow>::empty());
    }
    if right.len() == 0 {
        assert(resizable(right) =~= Seq::<SwapWindow>::empty());
    }
}

} // verus!
