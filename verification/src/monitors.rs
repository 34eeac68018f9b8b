use vstd::prelude::*;
use crate::model::{OutputInfo, Workspace};
use crate::order::{
    insert_by_key, stable_sort_by_key, sorted_by_key, with_key, lemma_insert_at_scan_stop,
    lemma_stable_sort_keeps_ties, lemma_stable_sort_sorted_permutation,
};
use crate::text::{decimal_digits, lemma_decimal_round_trip_usize, parse_usize, parse_usize_spec};

verus! {

/// The logical x position assumed for an output that does not report one.
pub const DEFAULT_MONITOR_X: i64 = 0;

/// The logical width assumed for an output that does not report one.
pub const DEFAULT_MONITOR_WIDTH: u64 = 1920;

/// A monitor: its name, logical x position and logical width in pixels.
pub struct Monitor {
    pub name: String,
    pub x: i64,
    pub width: u64,
}

/// The monitor an output entry describes, with the defaults for what it leaves out.
pub open spec fn monitor_of(o: OutputInfo) -> Monitor {
    Monitor {
        name: o.name,
        x: match o.x {
            Some(x) => x,
            None => DEFAULT_MONITOR_X,
        },
        width: match o.width {
            Some(w) => w,
            None => DEFAULT_MONITOR_WIDTH,
        },
    }
}

/// Monitors are ordered from left to right by their x position.
pub open spec fn monitor_x() -> spec_fn(Monitor) -> int {
    |m: Monitor| m.x as int
}

/// The monitors that `outputs` describe, from left to right; monitors at the
/// same x keep the order in which they were reported.
pub open spec fn monitors_by_position_spec(outputs: Seq<OutputInfo>) -> Seq<Monitor> {
    stable_sort_by_key(outputs.map_values(|o: OutputInfo| monitor_of(o)), monitor_x())
}

/// The names of `monitors`, in order, as character sequences.
pub open spec fn names_of(monitors: Seq<Monitor>) -> Seq<Seq<char>> {
    monitors.map_values(|m: Monitor| m.name@)
}

/// The character sequences of a list of strings.
pub open spec fn texts(v: Seq<String>) -> Seq<Seq<char>> {
    v.map_values(|s: String| s@)
}

/// A copy of a monitor.
fn copy_monitor(m: &Monitor) -> (r: Monitor)
    ensures
        r == *m,
{
    Monitor { name: m.name.clone(), x: m.x, width: m.width }
}

/// The monitor an output entry describes.
pub fn monitor_from_output(o: &OutputInfo) -> (m: Monitor)
    ensures
        m == monitor_of(*o),
{
    let x = match o.x {
        Some(x) => x,
        None => DEFAULT_MONITOR_X,
    };
    let width = match o.width {
        Some(w) => w,
        None => DEFAULT_MONITOR_WIDTH,
    };
    Monitor { name: o.name.clone(), x, width }
}

fn insert_monitor(sorted: &mut Vec<Monitor>, m: Monitor)
    ensures
        final(sorted)@ == insert_by_key(old(sorted)@, m, monitor_x()),
{
    let mut p: usize = sorted.len();
    while p > 0 && sorted[p - 1].x > m.x
        invariant
            p <= sorted.len(),
            sorted@ == old(sorted)@,
            forall|j: int| p <= j < sorted.len() ==> m.x < #[trigger] sorted@[j].x,
        decreases p,
    {
        p -= 1;
    }
    proof {
        lemma_insert_at_scan_stop(sorted@, m, monitor_x(), p as int);
    }
    sorted.insert(p, m);
}

/// Sorts monitors from left to right by x position; monitors at the same x
/// keep their relative order (a stable sort).
pub fn sort_monitors_by_x(monitors: &Vec<Monitor>) -> (r: Vec<Monitor>)
    ensures
        r@ == stable_sort_by_key(monitors@, monitor_x()),
{
    let mut out: Vec<Monitor> = Vec::new();
    let mut i: usize = 0;
    while i < monitors.len()
        invariant
            i <= monitors.len(),
            out@ == stable_sort_by_key(monitors@.take(i as int), monitor_x()),
        decreases monitors.len() - i,
    {
        let m = copy_monitor(&monitors[i]);
        proof {
            assert(monitors@.take(i + 1).drop_last() =~= monitors@.take(i as int));
        }
        insert_monitor(&mut out, m);
        i += 1;
    }
    assert(monitors@.take(i as int) =~= monitors@);
    out
}

/// The monitors that `outputs` describe, ordered from left to right.
pub fn monitors_by_position(outputs: &Vec<OutputInfo>) -> (r: Vec<Monitor>)
    ensures
        r@ == monitors_by_position_spec(outputs@),
{
    let mut ms: Vec<Monitor> = Vec::new();
    let mut i: usize = 0;
    while i < outputs.len()
        invariant
            i <= outputs.len(),
            ms@ == outputs@.take(i as int).map_values(|o: OutputInfo| monitor_of(o)),
        decreases outputs.len() - i,
    {
        ms.push(monitor_from_output(&outputs[i]));
        i += 1;
        assert(ms@ =~= outputs@.take(i as int).map_values(|o: OutputInfo| monitor_of(o)));
    }
    assert(outputs@.take(i as int) =~= outputs@);
    sort_monitors_by_x(&ms)
}

/// The names of monitors, in order.
pub fn monitor_names(monitors: &Vec<Monitor>) -> (r: Vec<String>)
    ensures
        texts(r@) == names_of(monitors@),
{
    let mut names: Vec<String> = Vec::new();
    let mut i: usize = 0;
    while i < monitors.len()
        invariant
            i <= monitors.len(),
            texts(names@) =~= names_of(monitors@.take(i as int)),
        decreases monitors.len() - i,
    {
        let ghost before = names@;
        let n = monitors[i].name.clone();
        assert(n@ == monitors@[i as int].name@);
        names.push(n);
        assert(texts(names@) =~= texts(before).push(n@));
        assert(names_of(monitors@.take(i + 1)) =~= names_of(monitors@.take(i as int)).push(n@));
        i += 1;
    }
    assert(monitors@.take(i as int) =~= monitors@);
    names
}

/// The two monitors whose workspaces a swap exchanges: the leftmost and the
/// one next to it, when there are at least two monitors.
pub fn swap_pair(outputs: &Vec<OutputInfo>) -> (r: Option<(Monitor, Monitor)>)
    ensures
        ({
            let s = monitors_by_position_spec(outputs@);
            if s.len() >= 2 {
                r == Some((s[0], s[1]))
            } else {
                r.is_none()
            }
        }),
{
    let ms = monitors_by_position(outputs);
    if ms.len() >= 2 {
        Some((copy_monitor(&ms[0]), copy_monitor(&ms[1])))
    } else {
        None
    }
}

/// `names` followed by each workspace output not yet among them, in the order
/// the workspaces come; workspaces without an output add nothing.
pub open spec fn with_workspace_outputs(names: Seq<Seq<char>>, workspaces: Seq<Workspace>) -> Seq<Seq<char>>
    decreases workspaces.len(),
{
    if workspaces.len() == 0 {
        names
    } else {
        let prev = with_workspace_outputs(names, workspaces.drop_last());
        match workspaces.last().output {
            Some(o) => if prev.contains(o@) {
                prev
            } else {
                prev.push(o@)
            },
            None => prev,
        }
    }
}

fn contains_name(names: &Vec<String>, name: &String) -> (r: bool)
    ensures
        r == texts(names@).contains(name@),
{
    let mut i: usize = 0;
    while i < names.len()
        invariant
            i <= names.len(),
            forall|j: int| 0 <= j < i ==> names@[j]@ != name@,
        decreases names.len() - i,
    {
        if names[i] == *name {
            assert(texts(names@)[i as int] == name@);
            return true;
        }
        i += 1;
    }
    proof {
        if texts(names@).contains(name@) {
            let j = choose|j: int| 0 <= j < texts(names@).len() && texts(names@)[j] == name@;
            assert(names@[j]@ == name@);
        }
    }
    false
}

/// Adds, after `names`, each output named by a workspace that is not listed yet.
pub fn append_workspace_outputs(names: Vec<String>, workspaces: &Vec<Workspace>) -> (r: Vec<String>)
    ensures
        texts(r@) == with_workspace_outputs(texts(names@), workspaces@),
{
    let ghost start = texts(names@);
    let mut out = names;
    let mut i: usize = 0;
    while i < workspaces.len()
        invariant
            i <= workspaces.len(),
            texts(out@) == with_workspace_outputs(start, workspaces@.take(i as int)),
        decreases workspaces.len() - i,
    {
        proof {
            assert(workspaces@.take(i + 1).drop_last() =~= workspaces@.take(i as int));
        }
        match &workspaces[i].output {
            Some(o) => {
                if !contains_name(&out, o) {
                    let ghost before = out@;
                    out.push(o.clone());
                    assert(texts(out@) =~= texts(before).push(o@));
                }
            },
            None => {},
        }
        i += 1;
    }
    assert(workspaces@.take(i as int) =~= workspaces@);
    out
}


/// The monitor names, from left to right, that the screen shows: the outputs
/// by position, then any output that only a workspace names.
pub fn screen_monitor_order(outputs: &Vec<OutputInfo>, workspaces: &Vec<Workspace>) -> (r: Vec<String>)
    ensures
        texts(r@) == with_workspace_outputs(
            names_of(monitors_by_position_spec(outputs@)),
            workspaces@,
        ),
{
    let ms = monitors_by_position(outputs);
    let names = monitor_names(&ms);
    append_workspace_outputs(names, workspaces)
}

/// The display names that a numbered display refers to, from left to right:
/// the outputs by position.
pub fn display_names(outputs: &Vec<OutputInfo>) -> (r: Vec<String>)
    ensures
        texts(r@) == names_of(monitors_by_position_spec(outputs@)),
{
    let ms = monitors_by_position(outputs);
    monitor_names(&ms)
}

/// The display names to number when no output is known: each output that a
/// workspace names, once, in the order the workspaces come.
pub fn workspace_display_names(workspaces: &Vec<Workspace>) -> (r: Vec<String>)
    ensures
        texts(r@) == with_workspace_outputs(Seq::empty(), workspaces@),
{
    let empty: Vec<String> = Vec::new();
    assert(texts(empty@) =~= Seq::<Seq<char>>::empty());
    append_workspace_outputs(empty, workspaces)
}

/// The display a move targets: a number from 1 picks that display from the
/// left, a number out of range is refused with that number, and any other
/// text is taken as a display name.
pub open spec fn display_target_spec(arg: Seq<char>, displays: Seq<Seq<char>>) -> Result<Seq<char>, usize> {
    match parse_usize_spec(arg) {
        Some(i) => if 0 < i && i <= displays.len() {
            Ok(displays[i - 1])
        } else {
            Err(i)
        },
        None => Ok(arg),
    }
}

/// Resolves the display argument of a move against the numbered displays.
pub fn resolve_display(arg: &str, displays: &Vec<String>) -> (r: Result<String, usize>)
    ensures
        match display_target_spec(arg@, texts(displays@)) {
            Ok(t) => r matches Ok(s) && s@ == t,
            Err(i) => r == Err::<String, usize>(i),
        },
{
    match parse_usize(arg) {
        Some(idx) => {
            if idx > 0 && idx <= displays.len() {
                let name = displays[idx - 1].clone();
                assert(texts(displays@)[idx - 1] == displays@[idx - 1]@);
                Ok(name)
            } else {
                Err(idx)
            }
        },
        None => Ok(arg.to_owned()),
    }
}

/// Display `n`, written in decimal, is the `n`-th display from the left
/// whenever there are at least `n` displays; only `0` and numbers past the last
/// display are refused, and they are refused with that number.
pub proof fn lemma_numbered_display_picks_from_left(displays: Seq<Seq<char>>, n: usize)
    ensures
        1 <= n <= displays.len() ==> display_target_spec(decimal_digits(n as nat), displays)
            == Ok::<Seq<char>, usize>(displays[n - 1]),
        !(1 <= n <= displays.len()) ==> display_target_spec(decimal_digits(n as nat), displays)
            == Err::<Seq<char>, usize>(n),
{
    lemma_decimal_round_trip_usize(n);
}

/// A display argument is refused only for a number that names no display
/// (zero, or more than there are displays), and text that is not a number is
/// taken as the display's name unchanged.
pub proof fn lemma_display_refusals(arg: Seq<char>, displays: Seq<Seq<char>>)
    ensures
        display_target_spec(arg, displays) matches Err(i) ==> (i == 0 || i > displays.len())
            && parse_usize_spec(arg) == Some(i),
        parse_usize_spec(arg).is_none() ==> display_target_spec(arg, displays) == Ok::<
            Seq<char>,
            usize,
        >(arg),
        display_target_spec(arg, displays) matches Ok(t) ==> (t == arg || exists|i: int|
            0 <= i < displays.len() && t == displays[i] && parse_usize_spec(arg) == Some((i + 1) as usize)),
{
}

/// Monitors come out ordered from left to right, and every described monitor
/// is there exactly as often as it was described.
pub proof fn lemma_monitors_left_to_right(outputs: Seq<OutputInfo>)
    ensures
        sorted_by_key(monitors_by_position_spec(outputs), monitor_x()),
        monitors_by_position_spec(outputs).to_multiset() =~= outputs.map_values(
            |o: OutputInfo| monitor_of(o),
        ).to_multiset(),
{
    lemma_stable_sort_sorted_permutation(
        outputs.map_values(|o: OutputInfo| monitor_of(o)),
        monitor_x(),
    );
}

/// Monitors at the same x position keep the order in which they were reported.
pub proof fn lemma_monitors_same_x_keep_order(outputs: Seq<OutputInfo>, x: int)
    ensures
        with_key(monitors_by_position_spec(outputs), monitor_x(), x) == with_key(
            outputs.map_values(|o: OutputInfo| monitor_of(o)),
            monitor_x(),
            x,
        ),
{
    lemma_stable_sort_keeps_ties(outputs.map_values(|o: OutputInfo| monitor_of(o)), monitor_x(), x);
}

/// Adding workspace outputs keeps the given names in front, lists every
/// output that a workspace names, and adds each name at most once: a list
/// without repeats stays without repeats.
pub proof fn lemma_workspace_outputs_listed(names: Seq<Seq<char>>, workspaces: Seq<Workspace>)
    ensures
        with_workspace_outputs(names, workspaces).len() >= names.len(),
        with_workspace_outputs(names, workspaces).take(names.len() as int) =~= names,
        forall|i: int|
            0 <= i < workspaces.len() && (#[trigger] workspaces[i]).output.is_some()
                ==> with_workspace_outputs(names, workspaces).contains(
                workspaces[i].output.unwrap()@,
            ),
        names.no_duplicates() ==> with_workspace_outputs(names, workspaces).no_duplicates(),
    decreases workspaces.len(),
{
    if workspaces.len() > 0 {
        let d = workspaces.drop_last();
        lemma_workspace_outputs_listed(names, d);
        let prev = with_workspace_outputs(names, d);
        let r = with_workspace_outputs(names, workspaces);
        assert forall|i: int|
            0 <= i < workspaces.len() && (#[trigger] workspaces[i]).output.is_some()
                implies r.contains(workspaces[i].output.unwrap()@) by {
            if i < d.len() {
                assert(d[i] == workspaces[i]);
                let o = workspaces[i].output.unwrap()@;
                assert(prev.contains(o));
                let k = choose|k: int| 0 <= k < prev.len() && prev[k] == o;
                assert(r[k] == o);
            } else {
                let o = workspaces[i].output.unwrap()@;
                if !prev.contains(o) {
                    assert(r[prev.len() as int] == o);
                }
            }
        }
        match workspaces.last().output {
            Some(o) => {
                if !prev.contains(o@) {
                    assert(r.take(names.len() as int) =~= prev.take(names.len() as int));
                }
            },
            None => {},
        }
    }
}

} // verus!
