use vstd::prelude::*;
use crate::model::{Window, Workspace};
use crate::order::{
    insert_by_key, stable_sort_by_key, sorted_by_key, lemma_insert_at_scan_stop,
    lemma_stable_sort_sorted_permutation,
};

verus! {

/// The output that shows workspace `id`: that of the last workspace with this
/// id that names an output.
pub open spec fn workspace_monitor_spec(ws: Seq<Workspace>, id: u64) -> Option<Seq<char>>
    decreases ws.len(),
{
    if ws.len() == 0 {
        None
    } else if ws.last().id == id && ws.last().output.is_some() {
        Some(ws.last().output.unwrap()@)
    } else {
        workspace_monitor_spec(ws.drop_last(), id)
    }
}

/// The output that shows workspace `id`, if any workspace with that id names one.
pub fn workspace_monitor(ws: &Vec<Workspace>, id: u64) -> (r: Option<String>)
    ensures
        match workspace_monitor_spec(ws@, id) {
            Some(o) => r matches Some(s) && s@ == o,
            None => r.is_none(),
        },
{
    let mut i: usize = ws.len();
    assert(ws@.take(ws.len() as int) =~= ws@);
    while i > 0
        invariant
            i <= ws.len(),
            workspace_monitor_spec(ws@, id) == workspace_monitor_spec(ws@.take(i as int), id),
        decreases i,
    {
        proof {
            assert(ws@.take(i as int).drop_last() =~= ws@.take(i - 1));
        }
        if ws[i - 1].id == id {
            match &ws[i - 1].output {
                Some(o) => {
                    return Some(o.clone());
                },
                None => {},
            }
        }
        i -= 1;
    }
    None
}

/// A window placed on screen: its monitor, column and row in the scrolling
/// layout, and its index in the window list.
pub struct Placed {
    pub monitor: String,
    pub column: u64,
    pub row: u64,
    pub window: usize,
}

/// Where window `w` is drawn: on the monitor of its workspace, at the column
/// and row of its scrolling-layout position. Windows without a workspace on a
/// known output, without a layout or without a two-number position are not drawn.
pub open spec fn placement_of(ws: Seq<Workspace>, w: Window) -> Option<(Seq<char>, u64, u64)> {
    match w.workspace_id {
        Some(wid) => match workspace_monitor_spec(ws, wid) {
            Some(m) => match w.layout {
                Some(l) => match l.pos_in_scrolling_layout {
                    Some(p) => if p@.len() == 2 {
                        Some((m, p@[0], p@[1]))
                    } else {
                        None
                    },
                    None => None,
                },
                None => None,
            },
            None => None,
        },
        None => None,
    }
}

/// The spec view of a placed window.
pub open spec fn placed_view(p: Placed) -> (Seq<char>, u64, u64, usize) {
    (p.monitor@, p.column, p.row, p.window)
}

/// The placements of the windows that are drawn, in window-list order.
pub open spec fn placements_spec(ws: Seq<Workspace>, wins: Seq<Window>) -> Seq<(Seq<char>, u64, u64, usize)>
    decreases wins.len(),
{
    if wins.len() == 0 {
        Seq::empty()
    } else {
        let prev = placements_spec(ws, wins.drop_last());
        match placement_of(ws, wins.last()) {
            Some(t) => prev.push((t.0, t.1, t.2, (wins.len() - 1) as usize)),
            None => prev,
        }
    }
}

/// The spec views of a list of placed windows.
pub open spec fn views(p: Seq<Placed>) -> Seq<(Seq<char>, u64, u64, usize)> {
    p.map_values(|x: Placed| placed_view(x))
}

/// Places every window that can be drawn.
pub fn place_windows(ws: &Vec<Workspace>, wins: &Vec<Window>) -> (r: Vec<Placed>)
    ensures
        views(r@) == placements_spec(ws@, wins@),
        forall|i: int| 0 <= i < r.len() ==> (#[trigger] r@[i]).window < wins.len(),
{
    let mut out: Vec<Placed> = Vec::new();
    let mut i: usize = 0;
    while i < wins.len()
        invariant
            i <= wins.len(),
            out@.map_values(|p: Placed| placed_view(p)) == placements_spec(ws@, wins@.take(i as int)),
            forall|j: int| 0 <= j < out.len() ==> (#[trigger] out@[j]).window < i,
        decreases wins.len() - i,
    {
        proof {
            assert(wins@.take(i + 1).drop_last() =~= wins@.take(i as int));
        }
        let w = &wins[i];
        let ghost before = out@;
        if let Some(wid) = w.workspace_id {
            if let Some(m) = workspace_monitor(ws, wid) {
                if let Some(l) = &w.layout {
                    if let Some(p) = &l.pos_in_scrolling_layout {
                        if p.len() == 2 {
                            let placed = Placed { monitor: m, column: p[0], row: p[1], window: i };
                            out.push(placed);
                            assert(out@.map_values(|p: Placed| placed_view(p)) =~= before.map_values(
                                |p: Placed| placed_view(p),
                            ).push(placed_view(placed)));
                        }
                    }
                }
            }
        }
        i += 1;
    }
    assert(wins@.take(i as int) =~= wins@);
    out
}

/// Whether the numbers of `s` strictly increase.
pub open spec fn strictly_increasing(s: Seq<u64>) -> bool {
    forall|i: int, j: int| 0 <= i < j < s.len() ==> s[i] < s[j]
}

/// Whether some placed window is on monitor `name` in column `col`.
pub open spec fn has_column(p: Seq<(Seq<char>, u64, u64, usize)>, name: Seq<char>, col: u64) -> bool {
    exists|i: int| 0 <= i < p.len() && p[i].0 == name && p[i].1 == col
}

fn insert_column(cols: &mut Vec<u64>, c: u64)
    requires
        strictly_increasing(old(cols)@),
    ensures
        strictly_increasing(final(cols)@),
        forall|x: u64| final(cols)@.contains(x) <==> (old(cols)@.contains(x) || x == c),
{
    let mut p: usize = 0;
    while p < cols.len() && cols[p] < c
        invariant
            p <= cols.len(),
            cols@ == old(cols)@,
            forall|j: int| 0 <= j < p ==> cols@[j] < c,
        decreases cols.len() - p,
    {
        p += 1;
    }
    if p < cols.len() && cols[p] == c {
        return;
    }
    let ghost before = cols@;
    cols.insert(p, c);
    proof {
        before.insert_ensures(p as int, c);
        assert forall|x: u64| cols@.contains(x) <==> (before.contains(x) || x == c) by {
            if cols@.contains(x) {
                let k = choose|k: int| 0 <= k < cols@.len() && cols@[k] == x;
                if k < p {
                    assert(before[k] == x);
                } else if k > p {
                    assert(before[k - 1] == x);
                }
            }
            if before.contains(x) {
                let k = choose|k: int| 0 <= k < before.len() && before[k] == x;
                if k < p {
                    assert(cols@[k] == x);
                } else {
                    assert(cols@[k + 1] == x);
                }
            }
            if x == c {
                assert(cols@[p as int] == c);
            }
        }
    }
}

/// The columns used on monitor `name`, in ascending order, each once.
pub fn monitor_columns(placed: &Vec<Placed>, name: &String) -> (r: Vec<u64>)
    ensures
        strictly_increasing(r@),
        forall|c: u64| r@.contains(c) <==> has_column(views(placed@), name@, c),
{
    let mut cols: Vec<u64> = Vec::new();
    let mut i: usize = 0;
    while i < placed.len()
        invariant
            i <= placed.len(),
            strictly_increasing(cols@),
            forall|c: u64|
                cols@.contains(c) <==> has_column(views(placed@.take(i as int)), name@, c),
        decreases placed.len() - i,
    {
        let ghost before = cols@;
        let on = placed[i].monitor == *name;
        if on {
            insert_column(&mut cols, placed[i].column);
        }
        proof {
            let pi = placed@[i as int];
            assert(on == (pi.monitor@ == name@));
            assert forall|c: u64| cols@.contains(c) <==> has_column(views(placed@.take(i + 1)), name@, c) by {
                let t = views(placed@.take(i + 1));
                assert(t[i as int] == placed_view(pi));
                if on {
                    assert(cols@.contains(c) <==> (before.contains(c) || c == pi.column));
                } else {
                    assert(cols@ == before);
                }
                if has_column(t, name@, c) {
                    let k = choose|k: int| 0 <= k < t.len() && t[k].0 == name@ && t[k].1 == c;
                    if k < i {
                        assert(views(placed@.take(i as int))[k] == t[k]);
                    }
                }
                if has_column(views(placed@.take(i as int)), name@, c) {
                    let v = views(placed@.take(i as int));
                    let k = choose|k: int| 0 <= k < v.len() && v[k].0 == name@ && v[k].1 == c;
                    assert(t[k] == v[k]);
                }
            }
        }
        i += 1;
    }
    proof {
        assert(placed@.take(i as int) =~= placed@);
    }
    cols
}

/// The indices `0, 1, ..., n - 1`.
pub open spec fn index_seq(n: nat) -> Seq<usize> {
    Seq::new(n, |i: int| i as usize)
}

/// Whether placed window `i` is on monitor `name` in column `col`.
pub open spec fn in_column(p: Seq<(Seq<char>, u64, u64, usize)>, name: Seq<char>, col: u64) -> spec_fn(usize) -> bool {
    |i: usize| p[i as int].0 == name && p[i as int].1 == col
}

/// The row of placed window `i`.
pub open spec fn row_key(p: Seq<(Seq<char>, u64, u64, usize)>) -> spec_fn(usize) -> int {
    |i: usize| p[i as int].2 as int
}

/// The placed windows of one column, as indices: from the top row down,
/// windows in the same row in window-list order.
pub open spec fn column_members_spec(p: Seq<(Seq<char>, u64, u64, usize)>, name: Seq<char>, col: u64) -> Seq<usize> {
    stable_sort_by_key(index_seq(p.len()).filter(in_column(p, name, col)), row_key(p))
}

fn insert_member(out: &mut Vec<usize>, m: usize, placed: &Vec<Placed>)
    requires
        m < placed.len(),
        forall|j: int| 0 <= j < old(out)@.len() ==> old(out)@[j] < placed.len(),
    ensures
        final(out)@ == insert_by_key(old(out)@, m, row_key(views(placed@))),
        forall|j: int| 0 <= j < final(out)@.len() ==> final(out)@[j] < placed.len(),
{
    let mut p: usize = out.len();
    while p > 0 && placed[out[p - 1]].row > placed[m].row
        invariant
            p <= out.len(),
            out@ == old(out)@,
            m < placed.len(),
            forall|j: int| 0 <= j < out@.len() ==> out@[j] < placed.len(),
            forall|j: int|
                p <= j < out@.len() ==> placed@[m as int].row < placed@[#[trigger] out@[j] as int].row,
        decreases p,
    {
        p -= 1;
    }
    proof {
        lemma_insert_at_scan_stop(out@, m, row_key(views(placed@)), p as int);
    }
    let ghost before = out@;
    out.insert(p, m);
    proof {
        before.insert_ensures(p as int, m);
        assert forall|j: int| 0 <= j < out@.len() implies out@[j] < placed.len() by {
            if j < p {
            } else if j > p {
                assert(out@[j] == before[j - 1]);
            }
        }
    }
}

/// The placed windows of column `col` on monitor `name`, from the top down.
pub fn column_members(placed: &Vec<Placed>, name: &String, col: u64) -> (r: Vec<usize>)
    ensures
        r@ == column_members_spec(views(placed@), name@, col),
        forall|j: int| 0 <= j < r@.len() ==> r@[j] < placed.len(),
{
    let mut out: Vec<usize> = Vec::new();
    let mut i: usize = 0;
    while i < placed.len()
        invariant
            i <= placed.len(),
            out@ == stable_sort_by_key(
                index_seq(i as nat).filter(in_column(views(placed@), name@, col)),
                row_key(views(placed@)),
            ),
            forall|j: int| 0 <= j < out@.len() ==> out@[j] < placed.len(),
        decreases placed.len() - i,
    {
        let ghost pred = in_column(views(placed@), name@, col);
        proof {
            assert(index_seq((i + 1) as nat) =~= index_seq(i as nat).push(i));
            index_seq(i as nat).lemma_filter_push(i, pred);
        }
        if placed[i].monitor == *name && placed[i].column == col {
            proof {
                let f = index_seq(i as nat).filter(pred);
                assert(f.push(i).drop_last() =~= f);
            }
            insert_member(&mut out, i, placed);
        }
        i += 1;
    }
    out
}


/// A column lists its windows from the top row down, and holds each placed
/// window of that monitor and column exactly once.
pub proof fn lemma_column_members_exact(p: Seq<(Seq<char>, u64, u64, usize)>, name: Seq<char>, col: u64)
    ensures
        sorted_by_key(column_members_spec(p, name, col), row_key(p)),
        column_members_spec(p, name, col).to_multiset() =~= index_seq(p.len()).filter(
            in_column(p, name, col),
        ).to_multiset(),
{
    lemma_stable_sort_sorted_permutation(
        index_seq(p.len()).filter(in_column(p, name, col)),
        row_key(p),
    );
}


/// Whether placed window `i` is on monitor `name`.
pub open spec fn on_monitor(p: Seq<(Seq<char>, u64, u64, usize)>, name: Seq<char>) -> spec_fn(usize) -> bool {
    |i: usize| p[i as int].0 == name
}

/// Whether placed window `i` is on monitor `name` in one of the columns `cols`.
pub open spec fn in_columns(p: Seq<(Seq<char>, u64, u64, usize)>, name: Seq<char>, cols: Seq<u64>) -> spec_fn(usize) -> bool {
    |i: usize| p[i as int].0 == name && cols.contains(p[i as int].1)
}

/// The placed windows of columns `cols` on monitor `name`, column by column,
/// each column from the top down.
pub open spec fn drawn_order(p: Seq<(Seq<char>, u64, u64, usize)>, name: Seq<char>, cols: Seq<u64>) -> Seq<usize> {
    cols.map_values(|c: u64| column_members_spec(p, name, c)).flatten()
}

proof fn lemma_filter_disjoint_union<A>(
    s: Seq<A>,
    a: spec_fn(A) -> bool,
    b: spec_fn(A) -> bool,
    ab: spec_fn(A) -> bool,
)
    requires
        forall|x: A| #[trigger] ab(x) == (a(x) || b(x)),
        forall|x: A| !(#[trigger] a(x) && b(x)),
    ensures
        s.filter(ab).to_multiset() =~= s.filter(a).to_multiset().add(s.filter(b).to_multiset()),
    decreases s.len(),
{
    broadcast use vstd::seq_lib::group_to_multiset_ensures;

    if s.len() == 0 {
        assert(s.filter(ab) =~= Seq::<A>::empty());
        assert(s.filter(a) =~= Seq::<A>::empty());
        assert(s.filter(b) =~= Seq::<A>::empty());
    } else {
        let d = s.drop_last();
        let x = s.last();
        lemma_filter_disjoint_union(d, a, b, ab);
        d.lemma_filter_push(x, ab);
        d.lemma_filter_push(x, a);
        d.lemma_filter_push(x, b);
        assert(d.push(x) =~= s);
    }
}

proof fn lemma_filter_agree<A>(s: Seq<A>, a: spec_fn(A) -> bool, b: spec_fn(A) -> bool)
    requires
        forall|j: int| 0 <= j < s.len() ==> a(#[trigger] s[j]) == b(s[j]),
    ensures
        s.filter(a) == s.filter(b),
    decreases s.len(),
{
    if s.len() > 0 {
        let d = s.drop_last();
        lemma_filter_agree(d, a, b);
        d.lemma_filter_push(s.last(), a);
        d.lemma_filter_push(s.last(), b);
        assert(d.push(s.last()) =~= s);
    } else {
        assert(s.filter(a) =~= s.filter(b));
    }
}

proof fn lemma_columns_partition(p: Seq<(Seq<char>, u64, u64, usize)>, name: Seq<char>, cols: Seq<u64>)
    requires
        strictly_increasing(cols),
    ensures
        drawn_order(p, name, cols).to_multiset() =~= index_seq(p.len()).filter(
            in_columns(p, name, cols),
        ).to_multiset(),
    decreases cols.len(),
{
    broadcast use vstd::seq_lib::group_to_multiset_ensures;

    let idx = index_seq(p.len());
    if cols.len() == 0 {
        assert(cols.map_values(|c: u64| column_members_spec(p, name, c)) =~= Seq::<Seq<usize>>::empty());
        assert(idx.filter(in_columns(p, name, cols)) =~= Seq::<usize>::empty()) by {
            assert(in_columns(p, name, cols) =~= |i: usize| false);
            lemma_filter_agree(idx, in_columns(p, name, cols), |i: usize| false);
            lemma_filter_none(idx);
        }
        assert(Seq::<Seq<usize>>::empty().flatten() =~= Seq::<usize>::empty());
    } else {
        let d = cols.drop_last();
        let c = cols.last();
        assert(strictly_increasing(d));
        lemma_columns_partition(p, name, d);
        let md = d.map_values(|c: u64| column_members_spec(p, name, c));
        assert(cols.map_values(|c: u64| column_members_spec(p, name, c)) =~= md.push(
            column_members_spec(p, name, c),
        ));
        md.lemma_flatten_push(column_members_spec(p, name, c));
        lemma_column_members_exact(p, name, c);
        vstd::seq_lib::lemma_multiset_commutative(md.flatten(), column_members_spec(p, name, c));
        assert forall|x: u64| #[trigger] cols.contains(x) == (d.contains(x) || x == c) by {
            if cols.contains(x) {
                let k = choose|k: int| 0 <= k < cols.len() && cols[k] == x;
                if k < d.len() {
                    assert(d[k] == x);
                }
            }
            if d.contains(x) {
                let k = choose|k: int| 0 <= k < d.len() && d[k] == x;
                assert(cols[k] == x);
            }
            if x == c {
                assert(cols[cols.len() - 1] == x);
            }
        }
        assert(!d.contains(c)) by {
            if d.contains(c) {
                let k = choose|k: int| 0 <= k < d.len() && d[k] == c;
                assert(cols[k] < cols[cols.len() - 1]);
            }
        }
        lemma_filter_disjoint_union(
            idx,
            in_columns(p, name, d),
            in_column(p, name, c),
            in_columns(p, name, cols),
        );
    }
}

proof fn lemma_filter_none(s: Seq<usize>)
    ensures
        s.filter(|i: usize| false) =~= Seq::<usize>::empty(),
    decreases s.len(),
{
    if s.len() > 0 {
        lemma_filter_none(s.drop_last());
        s.drop_last().lemma_filter_push(s.last(), |i: usize| false);
        assert(s.drop_last().push(s.last()) =~= s);
    }
}

/// Drawing a monitor column by column shows each window placed on it exactly
/// once, given the monitor's complete list of columns.
pub proof fn lemma_each_placed_window_drawn_once(
    p: Seq<(Seq<char>, u64, u64, usize)>,
    name: Seq<char>,
    cols: Seq<u64>,
)
    requires
        strictly_increasing(cols),
        forall|c: u64| cols.contains(c) <==> has_column(p, name, c),
        p.len() <= usize::MAX,
    ensures
        drawn_order(p, name, cols).to_multiset() =~= index_seq(p.len()).filter(
            on_monitor(p, name),
        ).to_multiset(),
{
    lemma_columns_partition(p, name, cols);
    let idx = index_seq(p.len());
    assert forall|j: int| 0 <= j < idx.len() implies in_columns(p, name, cols)(#[trigger] idx[j])
        == on_monitor(p, name)(idx[j]) by {
        assert(idx[j] as int == j);
        if p[j].0 == name {
            assert(has_column(p, name, p[j].1));
        }
    }
    lemma_filter_agree(idx, in_columns(p, name, cols), on_monitor(p, name));
}

} // verus!
