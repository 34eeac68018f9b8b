use vstd::prelude::*;
use ratatui::layout::{Constraint, Direction, Layout, Rect};
use ratatui::widgets::Block;
use crate::actions::NiriAction;
use crate::grouping::{
    column_members, column_members_spec, drawn_order, has_column, in_column, index_seq,
    lemma_each_placed_window_drawn_once, monitor_columns, on_monitor, place_windows,
    placements_spec, row_key, strictly_increasing, views, Placed,
};
use crate::order::lemma_stable_sort_sorted_permutation;
use crate::input::{Area, ButtonTarget, ToolbarAction, WindowTarget};
use crate::model::{Window, Workspace};
use crate::monitors::texts;

verus! {

/// The axis along which an area is divided.
#[derive(Clone, Copy, Debug, PartialEq, Eq, Structural)]
pub enum Axis {
    Horizontal,
    Vertical,
}

/// A size rule for one part of a divided area.
#[derive(Clone, Copy, Debug, PartialEq, Eq, Structural)]
pub enum Span {
    /// At least this many cells.
    Min(u16),
    /// Exactly this many cells.
    Length(u16),
    /// This percentage of the area.
    Percentage(u16),
    /// This fraction (numerator, denominator) of the area.
    Ratio(u32, u32),
}

/// The name of the parts into which ratatui's layout solver divides an area.
pub uninterp spec fn layout_split(area: Area, axis: Axis, spans: Seq<Span>) -> Seq<Area>;

/// Calls ratatui's `Layout::split`, which divides `area` along `axis` into one
/// part per span (its source builds one segment per constraint); which parts
/// its constraint solver picks is left to the name `layout_split`.
#[verifier::external_body]
fn split_area(area: Area, axis: Axis, spans: &Vec<Span>) -> (r: Vec<Area>)
    ensures
        r@ == layout_split(area, axis, spans@),
        r.len() == spans.len(),
{
    let direction = match axis {
        Axis::Horizontal => Direction::Horizontal,
        Axis::Vertical => Direction::Vertical,
    };
    let constraints = spans.iter().map(|s| match *s {
        Span::Min(v) => Constraint::Min(v),
        Span::Length(v) => Constraint::Length(v),
        Span::Percentage(v) => Constraint::Percentage(v),
        Span::Ratio(n, d) => Constraint::Ratio(n, d),
    });
    let parts = Layout::default().direction(direction).constraints(constraints).split(
        Rect { x: area.x, y: area.y, width: area.width, height: area.height },
    );
    parts.iter().map(|p| Area { x: p.x, y: p.y, width: p.width, height: p.height }).collect()
}

/// `a + b`, held at `u16::MAX`.
pub open spec fn saturating_add_u16(a: u16, b: u16) -> u16 {
    if a + b > u16::MAX {
        u16::MAX
    } else {
        (a + b) as u16
    }
}

/// The inside of a block that has a title on top and no border: one row less
/// at the top (never past the bottom edge).
pub open spec fn titled_inner_spec(a: Area) -> Area {
    let y1 = saturating_add_u16(a.y, 1);
    let bottom = saturating_add_u16(a.y, a.height);
    Area {
        x: a.x,
        y: if y1 <= bottom {
            y1
        } else {
            bottom
        },
        width: a.width,
        height: if a.height == 0 {
            0
        } else {
            (a.height - 1) as u16
        },
    }
}

/// Calls ratatui's `Block::inner` on a block with the title `title` and no
/// border or padding; its source moves the top edge down one row (saturating,
/// and not past the bottom) and takes one row off the height.
#[verifier::external_body]
fn titled_block_inner(area: Area, title: &str) -> (r: Area)
    ensures
        r == titled_inner_spec(area),
{
    let rect = Rect { x: area.x, y: area.y, width: area.width, height: area.height };
    let inner = Block::default().title(title).inner(rect);
    Area { x: inner.x, y: inner.y, width: inner.width, height: inner.height }
}


// ---------------------------------------------------------------------------
// Column and row weights
// ---------------------------------------------------------------------------

/// Entry `k` of a window's reported size (0 for the width, 1 for the height),
/// or 100 when the window does not report it.
pub open spec fn size_or_default(w: Window, k: int) -> u64 {
    match w.layout {
        Some(l) => match l.window_size {
            Some(s) => if 0 <= k < s@.len() {
                s@[k]
            } else {
                100
            },
            None => 100,
        },
        None => 100,
    }
}

/// Entry `k` of a window's reported size, or 100 when it does not report it.
pub fn window_size_or_default(w: &Window, k: usize) -> (r: u64)
    ensures
        r == size_or_default(*w, k as int),
{
    match &w.layout {
        Some(l) => match &l.window_size {
            Some(s) => if k < s.len() {
                s[k]
            } else {
                100
            },
            None => 100,
        },
        None => 100,
    }
}

/// The sum of `ws`, wrapping around at `u32::MAX` as release builds add.
pub open spec fn wrapping_total(ws: Seq<u32>) -> u32
    decreases ws.len(),
{
    if ws.len() == 0 {
        0
    } else {
        vstd::wrapping::u32_specs::wrapping_add(wrapping_total(ws.drop_last()), ws.last())
    }
}

/// One ratio per weight: the weight over the (wrapping) total, the total
/// taken as at least 1.
pub open spec fn ratio_spans(ws: Seq<u32>) -> Seq<Span> {
    let total = wrapping_total(ws);
    let den: u32 = if total == 0 {
        1
    } else {
        total
    };
    Seq::new(ws.len(), |i: int| Span::Ratio(ws[i], den))
}

/// The ratio spans for a list of weights.
pub fn ratio_spans_of(ws: &Vec<u32>) -> (r: Vec<Span>)
    ensures
        r@ == ratio_spans(ws@),
{
    let mut total: u32 = 0;
    let mut i: usize = 0;
    while i < ws.len()
        invariant
            i <= ws.len(),
            total == wrapping_total(ws@.take(i as int)),
        decreases ws.len() - i,
    {
        proof {
            assert(ws@.take(i + 1).drop_last() =~= ws@.take(i as int));
        }
        total = total.wrapping_add(ws[i]);
        i += 1;
    }
    assert(ws@.take(i as int) =~= ws@);
    let den: u32 = if total == 0 {
        1
    } else {
        total
    };
    let mut out: Vec<Span> = Vec::new();
    let mut k: usize = 0;
    while k < ws.len()
        invariant
            k <= ws.len(),
            out@ =~= Seq::new(k as nat, |j: int| Span::Ratio(ws@[j], den)),
        decreases ws.len() - k,
    {
        out.push(Span::Ratio(ws[k], den));
        k += 1;
    }
    out
}

// ---------------------------------------------------------------------------
// Window panes
// ---------------------------------------------------------------------------

/// A placed window as the specifications see it: monitor name, column, row
/// and index in the window list.
pub type PlacedView = (Seq<char>, u64, u64, usize);

/// The window that placed window `i` stands for.
pub open spec fn placed_window(windows: Seq<Window>, placed: Seq<PlacedView>, i: usize) -> Window {
    windows[placed[i as int].3 as int]
}

/// The panes of one column drawn in `area`: the column's windows from the top
/// down, the area shared in proportion to their heights.
pub open spec fn column_panes_spec(
    windows: Seq<Window>,
    placed: Seq<PlacedView>,
    members: Seq<usize>,
    area: Area,
) -> Seq<WindowTarget> {
    let heights = members.map_values(
        |i: usize| size_or_default(placed_window(windows, placed, i), 1) as u32,
    );
    let chunks = layout_split(area, Axis::Vertical, ratio_spans(heights));
    Seq::new(
        members.len(),
        |k: int|
            WindowTarget {
                area: chunks[k],
                id: placed_window(windows, placed, members[k]).id,
                window: placed[members[k] as int].3,
            },
    )
}

/// Whether every placed window refers to a window of the list.
pub open spec fn placed_in_range(windows: Seq<Window>, placed: Seq<PlacedView>) -> bool {
    forall|i: int| 0 <= i < placed.len() ==> (#[trigger] placed[i]).3 < windows.len()
}

/// Draws the windows of one column into `area`.
pub fn column_panes(
    area: Area,
    windows: &Vec<Window>,
    placed: &Vec<Placed>,
    members: &Vec<usize>,
) -> (r: Vec<WindowTarget>)
    requires
        placed_in_range(windows@, views(placed@)),
        forall|j: int| 0 <= j < members.len() ==> members@[j] < placed.len(),
    ensures
        r@ == column_panes_spec(windows@, views(placed@), members@, area),
{
    let ghost heights_spec = members@.map_values(
        |i: usize| size_or_default(placed_window(windows@, views(placed@), i), 1) as u32,
    );
    let mut heights: Vec<u32> = Vec::new();
    let mut i: usize = 0;
    while i < members.len()
        invariant
            i <= members.len(),
            placed_in_range(windows@, views(placed@)),
            forall|j: int| 0 <= j < members.len() ==> members@[j] < placed.len(),
            heights_spec == members@.map_values(
                |i: usize| size_or_default(placed_window(windows@, views(placed@), i), 1) as u32,
            ),
            heights@ =~= heights_spec.take(i as int),
        decreases members.len() - i,
    {
        let p = &placed[members[i]];
        assert(views(placed@)[members@[i as int] as int].3 == p.window);
        let h = window_size_or_default(&windows[p.window], 1) as u32;
        heights.push(h);
        i += 1;
    }
    assert(heights_spec.take(i as int) =~= heights_spec);
    let spans = ratio_spans_of(&heights);
    let chunks = split_area(area, Axis::Vertical, &spans);
    let mut out: Vec<WindowTarget> = Vec::new();
    let mut k: usize = 0;
    while k < members.len()
        invariant
            k <= members.len(),
            heights_spec == members@.map_values(
                |i: usize| size_or_default(placed_window(windows@, views(placed@), i), 1) as u32,
            ),
            chunks.len() == members.len(),
            chunks@ == layout_split(area, Axis::Vertical, ratio_spans(heights_spec)),
            placed_in_range(windows@, views(placed@)),
            forall|j: int| 0 <= j < members.len() ==> members@[j] < placed.len(),
            out@ =~= column_panes_spec(windows@, views(placed@), members@, area).take(k as int),
        decreases members.len() - k,
    {
        let p = &placed[members[k]];
        assert(views(placed@)[members@[k as int] as int].3 == p.window);
        out.push(WindowTarget { area: chunks[k], id: windows[p.window].id, window: p.window });
        k += 1;
    }
    assert(column_panes_spec(windows@, views(placed@), members@, area).take(k as int)
        =~= column_panes_spec(windows@, views(placed@), members@, area));
    out
}


/// Whether `s` lists, in ascending order and once each, the columns used on
/// monitor `name`.
pub open spec fn lists_columns(s: Seq<u64>, placed: Seq<PlacedView>, name: Seq<char>) -> bool {
    &&& strictly_increasing(s)
    &&& forall|c: u64| s.contains(c) <==> has_column(placed, name, c)
}

/// The columns used on monitor `name`, in ascending order, each once.
pub open spec fn columns_spec(placed: Seq<PlacedView>, name: Seq<char>) -> Seq<u64> {
    choose|s: Seq<u64>| lists_columns(s, placed, name)
}

proof fn lemma_increasing_same_elements(s: Seq<u64>, t: Seq<u64>)
    requires
        strictly_increasing(s),
        strictly_increasing(t),
        forall|x: u64| s.contains(x) <==> t.contains(x),
    ensures
        s == t,
    decreases s.len(),
{
    if s.len() == 0 {
        if t.len() > 0 {
            assert(t.contains(t[0]));
        }
        assert(s =~= t);
    } else {
        assert(s.contains(s[0]));
        assert(t.len() > 0);
        assert(t.contains(t[0]));
        let i = choose|i: int| 0 <= i < t.len() && t[i] == s[0];
        let j = choose|j: int| 0 <= j < s.len() && s[j] == t[0];
        assert(s[0] == t[0]) by {
            if i > 0 {
                assert(t[0] < t[i]);
            }
            if j > 0 {
                assert(s[0] < s[j]);
            }
        }
        let s1 = s.drop_first();
        let t1 = t.drop_first();
        assert forall|x: u64| s1.contains(x) <==> t1.contains(x) by {
            if s1.contains(x) {
                let k = choose|k: int| 0 <= k < s1.len() && s1[k] == x;
                assert(s[k + 1] == x);
                assert(x != s[0]);
                assert(t.contains(x));
                let m = choose|m: int| 0 <= m < t.len() && t[m] == x;
                assert(m != 0);
                assert(t1[m - 1] == x);
            }
            if t1.contains(x) {
                let k = choose|k: int| 0 <= k < t1.len() && t1[k] == x;
                assert(t[k + 1] == x);
                assert(x != t[0]);
                assert(s.contains(x));
                let m = choose|m: int| 0 <= m < s.len() && s[m] == x;
                assert(m != 0);
                assert(s1[m - 1] == x);
            }
        }
        lemma_increasing_same_elements(s1, t1);
        assert(s =~= t) by {
            assert forall|k: int| 0 <= k < s.len() implies s[k] == t[k] by {
                if k > 0 {
                    assert(s[k] == s1[k - 1]);
                    assert(t[k] == t1[k - 1]);
                }
            }
        }
    }
}

proof fn lemma_columns_spec_is(s: Seq<u64>, placed: Seq<PlacedView>, name: Seq<char>)
    requires
        lists_columns(s, placed, name),
    ensures
        columns_spec(placed, name) == s,
{
    let c = columns_spec(placed, name);
    assert(lists_columns(c, placed, name));
    lemma_increasing_same_elements(c, s);
}

proof fn lemma_used_column_has_members(placed: Seq<PlacedView>, name: Seq<char>, col: u64)
    requires
        has_column(placed, name, col),
        placed.len() <= usize::MAX,
    ensures
        column_members_spec(placed, name, col).len() > 0,
        forall|j: int|
            0 <= j < column_members_spec(placed, name, col).len() ==> #[trigger] column_members_spec(
                placed,
                name,
                col,
            )[j] < placed.len(),
{
    let i = choose|i: int| 0 <= i < placed.len() && placed[i].0 == name && placed[i].1 == col;
    let idx = index_seq(placed.len());
    let pred = in_column(placed, name, col);
    let f = idx.filter(pred);
    assert(idx[i] == i as usize);
    assert((i as usize) as int == i);
    assert(pred(idx[i]));
    idx.lemma_filter_contains(pred, i);
    assert(f.contains(i as usize));
    assert(f.len() > 0);
    lemma_stable_sort_sorted_permutation(f, row_key(placed));
    let m = column_members_spec(placed, name, col);
    assert forall|j: int| 0 <= j < m.len() implies #[trigger] m[j] < placed.len() by {
        broadcast use vstd::seq_lib::group_to_multiset_ensures;
        assert(m.contains(m[j]));
        assert(m.to_multiset().count(m[j]) > 0);
        assert(f.contains(m[j]));
        idx.lemma_filter_contains_rev(pred, m[j]);
        let k = choose|k: int| 0 <= k < idx.len() && idx[k] == m[j];
        assert(idx[k] == k as usize);
    }
}

/// The panes of the windows on monitor `name`, drawn in the monitor's inner
/// area: its columns from left to right, sharing the width in proportion to
/// the width of each column's top window, each column split by its windows.
pub open spec fn monitor_panes_spec(
    windows: Seq<Window>,
    placed: Seq<PlacedView>,
    name: Seq<char>,
    inner: Area,
) -> Seq<WindowTarget> {
    let cols = columns_spec(placed, name);
    let members = cols.map_values(|c: u64| column_members_spec(placed, name, c));
    let widths = members.map_values(
        |m: Seq<usize>| size_or_default(placed_window(windows, placed, m[0]), 0) as u32,
    );
    let chunks = layout_split(inner, Axis::Horizontal, ratio_spans(widths));
    Seq::new(
        cols.len(),
        |k: int| column_panes_spec(windows, placed, members[k], chunks[k]),
    ).flatten()
}

/// Draws the windows on monitor `name` into the monitor's inner area.
pub fn monitor_panes(
    inner: Area,
    windows: &Vec<Window>,
    placed: &Vec<Placed>,
    name: &String,
) -> (r: Vec<WindowTarget>)
    requires
        placed_in_range(windows@, views(placed@)),
    ensures
        r@ == monitor_panes_spec(windows@, views(placed@), name@, inner),
{
    let ghost pv = views(placed@);
    let cols = monitor_columns(placed, name);
    proof {
        lemma_columns_spec_is(cols@, pv, name@);
    }
    let ghost members_spec = cols@.map_values(|c: u64| column_members_spec(pv, name@, c));
    let ghost widths_spec = members_spec.map_values(
        |m: Seq<usize>| size_or_default(placed_window(windows@, pv, m[0]), 0) as u32,
    );
    if cols.len() == 0 {
        let empty: Vec<WindowTarget> = Vec::new();
        proof {
            let parts = Seq::new(
                0,
                |k: int| column_panes_spec(windows@, pv, members_spec[k], Area { x: 0, y: 0, width: 0, height: 0 }),
            );
            assert(Seq::<Seq<WindowTarget>>::empty().flatten() =~= Seq::<WindowTarget>::empty());
            let chunks = layout_split(inner, Axis::Horizontal, ratio_spans(widths_spec));
            assert(Seq::new(
                cols@.len(),
                |k: int| column_panes_spec(windows@, pv, members_spec[k], chunks[k]),
            ) =~= Seq::<Seq<WindowTarget>>::empty());
        }
        return empty;
    }
    let mut members: Vec<Vec<usize>> = Vec::new();
    let mut widths: Vec<u32> = Vec::new();
    let mut i: usize = 0;
    while i < cols.len()
        invariant
            i <= cols.len(),
            pv == views(placed@),
            placed_in_range(windows@, pv),
            lists_columns(cols@, pv, name@),
            members_spec == cols@.map_values(|c: u64| column_members_spec(pv, name@, c)),
            widths_spec == members_spec.map_values(
                |m: Seq<usize>| size_or_default(placed_window(windows@, pv, m[0]), 0) as u32,
            ),
            members.len() == i,
            forall|j: int| 0 <= j < i ==> (#[trigger] members@[j])@ == members_spec[j],
            forall|j: int, k: int|
                0 <= j < i && 0 <= k < members@[j].len() ==> (#[trigger] members@[j]@[k]) < placed.len(),
            widths@ =~= widths_spec.take(i as int),
        decreases cols.len() - i,
    {
        let col = cols[i];
        let m = column_members(placed, name, col);
        proof {
            assert(cols@.contains(col));
            lemma_used_column_has_members(pv, name@, col);
        }
        let first = m[0];
        let p = &placed[first];
        assert(pv[first as int].3 == p.window);
        let w = window_size_or_default(&windows[p.window], 0) as u32;
        widths.push(w);
        members.push(m);
        i += 1;
    }
    assert(widths_spec.take(i as int) =~= widths_spec);
    let spans = ratio_spans_of(&widths);
    let chunks = split_area(inner, Axis::Horizontal, &spans);
    let ghost parts = Seq::new(
        cols@.len(),
        |k: int| column_panes_spec(windows@, pv, members_spec[k], chunks@[k]),
    );
    let mut out: Vec<WindowTarget> = Vec::new();
    let mut k: usize = 0;
    while k < cols.len()
        invariant
            k <= cols.len(),
            pv == views(placed@),
            placed_in_range(windows@, pv),
            members.len() == cols.len(),
            chunks.len() == cols.len(),
            forall|j: int| 0 <= j < cols.len() ==> (#[trigger] members@[j])@ == members_spec[j],
            forall|j: int, q: int|
                0 <= j < cols.len() && 0 <= q < members@[j].len() ==> (#[trigger] members@[j]@[q])
                    < placed.len(),
            parts == Seq::new(
                cols@.len(),
                |k: int| column_panes_spec(windows@, pv, members_spec[k], chunks@[k]),
            ),
            out@ == parts.take(k as int).flatten(),
        decreases cols.len() - k,
    {
        let mut part = column_panes(chunks[k], windows, placed, &members[k]);
        proof {
            assert(parts.take(k + 1) =~= parts.take(k as int).push(parts[k as int]));
            parts.take(k as int).lemma_flatten_push(parts[k as int]);
        }
        out.append(&mut part);
        k += 1;
    }
    assert(parts.take(k as int) =~= parts);
    out
}


proof fn lemma_panes_follow_members(
    windows: Seq<Window>,
    placed: Seq<PlacedView>,
    members: Seq<Seq<usize>>,
    chunks: Seq<Area>,
)
    ensures
        Seq::new(
            members.len(),
            |k: int| column_panes_spec(windows, placed, members[k], chunks[k]),
        ).flatten().map_values(|t: WindowTarget| t.window) =~= members.flatten().map_values(
            |i: usize| placed[i as int].3,
        ),
    decreases members.len(),
{
    let parts = Seq::new(
        members.len(),
        |k: int| column_panes_spec(windows, placed, members[k], chunks[k]),
    );
    if members.len() == 0 {
        assert(parts =~= Seq::<Seq<WindowTarget>>::empty());
        assert(members =~= Seq::<Seq<usize>>::empty());
    } else {
        let n = members.len() - 1;
        let dm = members.drop_last();
        lemma_panes_follow_members(windows, placed, dm, chunks);
        let dparts = Seq::new(
            dm.len(),
            |k: int| column_panes_spec(windows, placed, dm[k], chunks[k]),
        );
        assert(parts =~= dparts.push(parts[n]));
        dparts.lemma_flatten_push(parts[n]);
        assert(members =~= dm.push(members[n]));
        dm.lemma_flatten_push(members[n]);
        let last = column_panes_spec(windows, placed, members[n], chunks[n]);
        assert(last.map_values(|t: WindowTarget| t.window) =~= members[n].map_values(
            |i: usize| placed[i as int].3,
        ));
        assert((dparts.flatten() + last).map_values(|t: WindowTarget| t.window) =~= dparts.flatten().map_values(
            |t: WindowTarget| t.window,
        ) + last.map_values(|t: WindowTarget| t.window));
        assert((dm.flatten() + members[n]).map_values(|i: usize| placed[i as int].3) =~= dm.flatten().map_values(
            |i: usize| placed[i as int].3,
        ) + members[n].map_values(|i: usize| placed[i as int].3));
    }
}

/// The screen draws every window placed on a monitor exactly once on that
/// monitor: the panes drawn for monitor `name` stand, in drawing order, for the
/// monitor's columns from left to right and each column's windows from the top
/// down, and that order holds each placed window of the monitor once.
pub proof fn lemma_monitor_draws_each_window_once(
    windows: Seq<Window>,
    placed: Seq<PlacedView>,
    name: Seq<char>,
    inner: Area,
    cols: Seq<u64>,
)
    requires
        lists_columns(cols, placed, name),
        placed.len() <= usize::MAX,
    ensures
        monitor_panes_spec(windows, placed, name, inner).map_values(|t: WindowTarget| t.window)
            == drawn_order(placed, name, cols).map_values(|i: usize| placed[i as int].3),
        drawn_order(placed, name, cols).to_multiset() =~= index_seq(placed.len()).filter(
            on_monitor(placed, name),
        ).to_multiset(),
{
    lemma_columns_spec_is(cols, placed, name);
    let members = cols.map_values(|c: u64| column_members_spec(placed, name, c));
    let widths = members.map_values(
        |m: Seq<usize>| size_or_default(placed_window(windows, placed, m[0]), 0) as u32,
    );
    let chunks = layout_split(inner, Axis::Horizontal, ratio_spans(widths));
    lemma_panes_follow_members(windows, placed, members, chunks);
    assert(Seq::new(
        cols.len(),
        |k: int| column_panes_spec(windows, placed, members[k], chunks[k]),
    ) =~= Seq::new(
        members.len(),
        |k: int| column_panes_spec(windows, placed, members[k], chunks[k]),
    ));
    lemma_each_placed_window_drawn_once(placed, name, cols);
}

/// The width a window reports (entry 0 of its size), cut to `u32`, or 100
/// when it reports none.
pub open spec fn reported_width(w: Window) -> u32 {
    match w.layout {
        Some(l) => match l.window_size {
            Some(s) => if s@.len() > 0 {
                s@[0] as u32
            } else {
                100
            },
            None => 100,
        },
        None => 100,
    }
}

/// The height a window reports (entry 1 of its size), cut to `u32`, or 100
/// when it reports none.
pub open spec fn reported_height(w: Window) -> u32 {
    match w.layout {
        Some(l) => match l.window_size {
            Some(s) => if s@.len() > 1 {
                s@[1] as u32
            } else {
                100
            },
            None => 100,
        },
        None => 100,
    }
}

/// The windows of a column share its height in proportion to their reported
/// heights: the column's area is split vertically with one ratio per window,
/// its height over the sum of the heights (at least 1), and the k-th window
/// from the top is drawn in the k-th part, under its own id.
pub proof fn lemma_windows_share_column_height(
    windows: Seq<Window>,
    placed: Seq<PlacedView>,
    members: Seq<usize>,
    area: Area,
)
    ensures
        ({
            let heights = members.map_values(
                |i: usize| reported_height(windows[placed[i as int].3 as int]),
            );
            let total = wrapping_total(heights);
            let spans = Seq::new(
                heights.len(),
                |k: int|
                    Span::Ratio(
                        heights[k],
                        if total == 0 {
                            1u32
                        } else {
                            total
                        },
                    ),
            );
            let parts = layout_split(area, Axis::Vertical, spans);
            &&& column_panes_spec(windows, placed, members, area).len() == members.len()
            &&& forall|k: int|
                0 <= k < members.len() ==> {
                    let pane = #[trigger] column_panes_spec(windows, placed, members, area)[k];
                    &&& pane.area == parts[k]
                    &&& pane.window == placed[members[k] as int].3
                    &&& pane.id == windows[placed[members[k] as int].3 as int].id
                }
        }),
{
    let heights = members.map_values(
        |i: usize| reported_height(windows[placed[i as int].3 as int]),
    );
    let spec_heights = members.map_values(
        |i: usize| size_or_default(placed_window(windows, placed, i), 1) as u32,
    );
    assert(heights =~= spec_heights);
    let total = wrapping_total(heights);
    let spans = Seq::new(
        heights.len(),
        |k: int|
            Span::Ratio(
                heights[k],
                if total == 0 {
                    1u32
                } else {
                    total
                },
            ),
    );
    assert(spans =~= ratio_spans(spec_heights));
}

/// A monitor's columns share its inner width in proportion to the widths of
/// their top windows: the inner area is split horizontally with one ratio per
/// column, its top window's reported width over the sum of those widths (at
/// least 1), and each column's windows are drawn in its part.
pub proof fn lemma_columns_share_width_by_top_window(
    windows: Seq<Window>,
    placed: Seq<PlacedView>,
    name: Seq<char>,
    inner: Area,
    cols: Seq<u64>,
)
    requires
        lists_columns(cols, placed, name),
    ensures
        ({
            let members = cols.map_values(|c: u64| column_members_spec(placed, name, c));
            let widths = members.map_values(
                |m: Seq<usize>| reported_width(windows[placed[m[0] as int].3 as int]),
            );
            let total = wrapping_total(widths);
            let spans = Seq::new(
                widths.len(),
                |k: int|
                    Span::Ratio(
                        widths[k],
                        if total == 0 {
                            1u32
                        } else {
                            total
                        },
                    ),
            );
            let parts = layout_split(inner, Axis::Horizontal, spans);
            monitor_panes_spec(windows, placed, name, inner) == Seq::new(
                cols.len(),
                |k: int| column_panes_spec(windows, placed, members[k], parts[k]),
            ).flatten()
        }),
{
    lemma_columns_spec_is(cols, placed, name);
    let members = cols.map_values(|c: u64| column_members_spec(placed, name, c));
    let widths = members.map_values(
        |m: Seq<usize>| reported_width(windows[placed[m[0] as int].3 as int]),
    );
    let spec_widths = members.map_values(
        |m: Seq<usize>| size_or_default(placed_window(windows, placed, m[0]), 0) as u32,
    );
    assert(widths =~= spec_widths);
    let total = wrapping_total(widths);
    let spans = Seq::new(
        widths.len(),
        |k: int|
            Span::Ratio(
                widths[k],
                if total == 0 {
                    1u32
                } else {
                    total
                },
            ),
    );
    assert(spans =~= ratio_spans(spec_widths));
}

// ---------------------------------------------------------------------------
// Toolbar
// ---------------------------------------------------------------------------

/// The labels of the toolbar buttons, row by row.
pub open spec fn toolbar_labels() -> Seq<Seq<char>> {
    seq![
        "<< TO SCREEN"@,
        "< LEFT"@,
        "RIGHT >"@,
        "TO SCREEN >>"@,
        "v DOWN"@,
        "^ UP"@,
        "[ ] FULLSCREEN"@,
        "X CLOSE"@,
        "\u{1F504} SWAP SCREENS"@,
    ]
}

/// What the toolbar buttons do, row by row.
pub open spec fn toolbar_actions() -> Seq<ToolbarAction> {
    seq![
        ToolbarAction::Niri(NiriAction::MoveWindowToMonitorLeft),
        ToolbarAction::Niri(NiriAction::MoveWindowLeft),
        ToolbarAction::Niri(NiriAction::MoveWindowRight),
        ToolbarAction::Niri(NiriAction::MoveWindowToMonitorRight),
        ToolbarAction::Niri(NiriAction::MoveWindowDown),
        ToolbarAction::Niri(NiriAction::MoveWindowUp),
        ToolbarAction::Niri(NiriAction::FullscreenWindow),
        ToolbarAction::Niri(NiriAction::CloseWindow),
        ToolbarAction::SwapMonitors,
    ]
}

/// `n` equal shares.
pub open spec fn equal_shares(n: nat) -> Seq<Span> {
    Seq::new(n, |i: int| Span::Ratio(1, n as u32))
}

/// Where the toolbar buttons go: the toolbar is cut into three equal rows;
/// the first two rows hold four equal buttons each, the last row one button.
pub open spec fn toolbar_areas(toolbar: Area) -> Seq<Area> {
    let rows = layout_split(toolbar, Axis::Vertical, equal_shares(3));
    layout_split(rows[0], Axis::Horizontal, equal_shares(4)) + layout_split(
        rows[1],
        Axis::Horizontal,
        equal_shares(4),
    ) + layout_split(rows[2], Axis::Horizontal, seq![Span::Percentage(100)])
}

/// A button as the specifications see it: area, label and action.
pub open spec fn button_view(b: ButtonTarget) -> (Area, Seq<char>, ToolbarAction) {
    (b.area, b.label@, b.action)
}

/// The toolbar buttons drawn in `toolbar`.
pub open spec fn toolbar_spec(toolbar: Area) -> Seq<(Area, Seq<char>, ToolbarAction)> {
    Seq::new(9, |i: int| (toolbar_areas(toolbar)[i], toolbar_labels()[i], toolbar_actions()[i]))
}

fn equal_shares_of(n: u32) -> (r: Vec<Span>)
    ensures
        r@ == equal_shares(n as nat),
{
    let mut v: Vec<Span> = Vec::new();
    let mut i: u32 = 0;
    while i < n
        invariant
            i <= n,
            v@ =~= Seq::new(i as nat, |j: int| Span::Ratio(1, n)),
        decreases n - i,
    {
        v.push(Span::Ratio(1, n));
        i += 1;
    }
    assert(v@ =~= equal_shares(n as nat));
    v
}

fn button(area: Area, label: &str, action: ToolbarAction) -> (b: ButtonTarget)
    ensures
        button_view(b) == (area, label@, action),
{
    ButtonTarget { area, label: label.to_owned(), action }
}

/// Lays out the toolbar buttons in `toolbar`.
pub fn toolbar_buttons(toolbar: Area) -> (r: Vec<ButtonTarget>)
    ensures
        r@.map_values(|b: ButtonTarget| button_view(b)) == toolbar_spec(toolbar),
{
    let rows = split_area(toolbar, Axis::Vertical, &equal_shares_of(3));
    let quarters = equal_shares_of(4);
    let r1 = split_area(rows[0], Axis::Horizontal, &quarters);
    let r2 = split_area(rows[1], Axis::Horizontal, &quarters);
    let mut whole: Vec<Span> = Vec::new();
    whole.push(Span::Percentage(100));
    let r3 = split_area(rows[2], Axis::Horizontal, &whole);
    assert(whole@ =~= seq![Span::Percentage(100)]);
    let mut v: Vec<ButtonTarget> = Vec::new();
    v.push(button(r1[0], "<< TO SCREEN", ToolbarAction::Niri(NiriAction::MoveWindowToMonitorLeft)));
    v.push(button(r1[1], "< LEFT", ToolbarAction::Niri(NiriAction::MoveWindowLeft)));
    v.push(button(r1[2], "RIGHT >", ToolbarAction::Niri(NiriAction::MoveWindowRight)));
    v.push(button(r1[3], "TO SCREEN >>", ToolbarAction::Niri(NiriAction::MoveWindowToMonitorRight)));
    v.push(button(r2[0], "v DOWN", ToolbarAction::Niri(NiriAction::MoveWindowDown)));
    v.push(button(r2[1], "^ UP", ToolbarAction::Niri(NiriAction::MoveWindowUp)));
    v.push(button(r2[2], "[ ] FULLSCREEN", ToolbarAction::Niri(NiriAction::FullscreenWindow)));
    v.push(button(r2[3], "X CLOSE", ToolbarAction::Niri(NiriAction::CloseWindow)));
    v.push(button(r3[0], "\u{1F504} SWAP SCREENS", ToolbarAction::SwapMonitors));
    proof {
        let areas = toolbar_areas(toolbar);
        assert(areas =~= r1@ + r2@ + r3@);
        assert(v@.map_values(|b: ButtonTarget| button_view(b)) =~= toolbar_spec(toolbar));
    }
    v
}


// ---------------------------------------------------------------------------
// The whole screen
// ---------------------------------------------------------------------------

/// A monitor drawn on screen: its name, its area and the area inside its title.
pub struct MonitorPane {
    pub name: String,
    pub area: Area,
    pub inner: Area,
}

/// Everything the interactive screen draws and can be tapped: the area above
/// the toolbar, the monitors, the window panes and the toolbar buttons.
pub struct ScreenPlan {
    pub body: Area,
    pub monitors: Vec<MonitorPane>,
    pub windows: Vec<WindowTarget>,
    pub buttons: Vec<ButtonTarget>,
}

/// The screen cut into the monitor area (at least five rows) above the
/// toolbar (nine rows).
pub open spec fn screen_parts(area: Area) -> Seq<Area> {
    layout_split(area, Axis::Vertical, seq![Span::Min(5), Span::Length(9)])
}

/// The monitor area cut into `n` equal columns, one per monitor.
pub open spec fn monitor_areas(body: Area, n: nat) -> Seq<Area> {
    layout_split(body, Axis::Horizontal, equal_shares(n))
}

/// A monitor pane as the specifications see it: name, area and inner area.
pub open spec fn monitor_pane_view(m: MonitorPane) -> (Seq<char>, Area, Area) {
    (m.name@, m.area, m.inner)
}

/// The monitors drawn in `body`, in the given order.
pub open spec fn screen_monitors_spec(body: Area, order: Seq<Seq<char>>) -> Seq<(Seq<char>, Area, Area)> {
    if order.len() == 0 {
        Seq::empty()
    } else {
        let a = monitor_areas(body, order.len());
        Seq::new(order.len(), |i: int| (order[i], a[i], titled_inner_spec(a[i])))
    }
}

/// The window panes drawn in `body`: those of each monitor in turn.
pub open spec fn screen_windows_spec(
    body: Area,
    order: Seq<Seq<char>>,
    windows: Seq<Window>,
    placed: Seq<PlacedView>,
) -> Seq<WindowTarget> {
    if order.len() == 0 {
        Seq::empty()
    } else {
        let a = monitor_areas(body, order.len());
        Seq::new(
            order.len(),
            |i: int| monitor_panes_spec(windows, placed, order[i], titled_inner_spec(a[i])),
        ).flatten()
    }
}

/// Lays out the interactive screen in `area`: the monitors in `order`, the
/// windows that `workspaces` and `windows` place on them, and the toolbar.
pub fn plan_screen(
    area: Area,
    order: &Vec<String>,
    workspaces: &Vec<Workspace>,
    windows: &Vec<Window>,
) -> (plan: ScreenPlan)
    requires
        order.len() <= u32::MAX,
    ensures
        plan.body == screen_parts(area)[0],
        plan.monitors@.map_values(|m: MonitorPane| monitor_pane_view(m)) == screen_monitors_spec(
            screen_parts(area)[0],
            texts(order@),
        ),
        plan.windows@ == screen_windows_spec(
            screen_parts(area)[0],
            texts(order@),
            windows@,
            placements_spec(workspaces@, windows@),
        ),
        plan.buttons@.map_values(|b: ButtonTarget| button_view(b)) == toolbar_spec(
            screen_parts(area)[1],
        ),
{
    let mut main_spans: Vec<Span> = Vec::new();
    main_spans.push(Span::Min(5));
    main_spans.push(Span::Length(9));
    assert(main_spans@ =~= seq![Span::Min(5), Span::Length(9)]);
    let parts = split_area(area, Axis::Vertical, &main_spans);
    let body = parts[0];
    let buttons = toolbar_buttons(parts[1]);
    let placed = place_windows(workspaces, windows);
    let ghost pv = views(placed@);
    assert(placed_in_range(windows@, pv)) by {
        assert forall|i: int| 0 <= i < pv.len() implies (#[trigger] pv[i]).3 < windows@.len() by {
            assert(pv[i].3 == placed@[i].window);
        }
    }
    let n = order.len();
    let mut monitors: Vec<MonitorPane> = Vec::new();
    let mut panes: Vec<WindowTarget> = Vec::new();
    if n == 0 {
        assert(monitors@.map_values(|m: MonitorPane| monitor_pane_view(m)) =~= Seq::<
            (Seq<char>, Area, Area),
        >::empty());
        assert(panes@ =~= Seq::<WindowTarget>::empty());
        return ScreenPlan { body, monitors, windows: panes, buttons };
    }
    let shares = equal_shares_of(n as u32);
    let chunks = split_area(body, Axis::Horizontal, &shares);
    let ghost names = texts(order@);
    let ghost parts_spec = Seq::new(
        n as nat,
        |i: int| monitor_panes_spec(windows@, pv, names[i], titled_inner_spec(chunks@[i])),
    );
    let mut i: usize = 0;
    while i < n
        invariant
            n == order.len(),
            i <= n,
            chunks.len() == n,
            chunks@ == monitor_areas(body, n as nat),
            names == texts(order@),
            pv == views(placed@),
            placed_in_range(windows@, pv),
            parts_spec == Seq::new(
                n as nat,
                |i: int| monitor_panes_spec(windows@, pv, names[i], titled_inner_spec(chunks@[i])),
            ),
            monitors@.map_values(|m: MonitorPane| monitor_pane_view(m)) =~= Seq::new(
                i as nat,
                |k: int| (names[k], chunks@[k], titled_inner_spec(chunks@[k])),
            ),
            panes@ == parts_spec.take(i as int).flatten(),
        decreases n - i,
    {
        let name = &order[i];
        let inner = titled_block_inner(chunks[i], name.as_str());
        let mut part = monitor_panes(inner, windows, &placed, name);
        proof {
            assert(parts_spec.take(i + 1) =~= parts_spec.take(i as int).push(parts_spec[i as int]));
            parts_spec.take(i as int).lemma_flatten_push(parts_spec[i as int]);
        }
        panes.append(&mut part);
        let ghost before = monitors@;
        monitors.push(MonitorPane { name: name.clone(), area: chunks[i], inner });
        proof {
            assert(monitors@.map_values(|m: MonitorPane| monitor_pane_view(m)) =~= before.map_values(
                |m: MonitorPane| monitor_pane_view(m),
            ).push(monitor_pane_view(monitors@[i as int])));
        }
        i += 1;
    }
    assert(parts_spec.take(i as int) =~= parts_spec);
    ScreenPlan { body, monitors, windows: panes, buttons }
}


/// Every toolbar button does what its label says, whatever its place: the
/// arrows move the window left, right, down and up, the screen buttons send it
/// to the neighbouring monitor, and fullscreen, close and swap do just that;
/// and every label is on the toolbar.
pub proof fn lemma_toolbar_actions_match_labels(toolbar: Area)
    ensures
        toolbar_spec(toolbar).len() == 9,
        forall|i: int|
            0 <= i < toolbar_spec(toolbar).len() ==> {
                let label = (#[trigger] toolbar_spec(toolbar)[i]).1;
                let action = toolbar_spec(toolbar)[i].2;
                &&& label == "<< TO SCREEN"@ ==> action == ToolbarAction::Niri(
                    NiriAction::MoveWindowToMonitorLeft,
                )
                &&& label == "< LEFT"@ ==> action == ToolbarAction::Niri(NiriAction::MoveWindowLeft)
                &&& label == "RIGHT >"@ ==> action == ToolbarAction::Niri(NiriAction::MoveWindowRight)
                &&& label == "TO SCREEN >>"@ ==> action == ToolbarAction::Niri(
                    NiriAction::MoveWindowToMonitorRight,
                )
                &&& label == "v DOWN"@ ==> action == ToolbarAction::Niri(NiriAction::MoveWindowDown)
                &&& label == "^ UP"@ ==> action == ToolbarAction::Niri(NiriAction::MoveWindowUp)
                &&& label == "[ ] FULLSCREEN"@ ==> action == ToolbarAction::Niri(
                    NiriAction::FullscreenWindow,
                )
                &&& label == "X CLOSE"@ ==> action == ToolbarAction::Niri(NiriAction::CloseWindow)
                &&& label == "\u{1F504} SWAP SCREENS"@ ==> action == ToolbarAction::SwapMonitors
            },
        exists|i: int| 0 <= i < 9 && toolbar_spec(toolbar)[i].1 == "<< TO SCREEN"@,
        exists|i: int| 0 <= i < 9 && toolbar_spec(toolbar)[i].1 == "< LEFT"@,
        exists|i: int| 0 <= i < 9 && toolbar_spec(toolbar)[i].1 == "RIGHT >"@,
        exists|i: int| 0 <= i < 9 && toolbar_spec(toolbar)[i].1 == "TO SCREEN >>"@,
        exists|i: int| 0 <= i < 9 && toolbar_spec(toolbar)[i].1 == "v DOWN"@,
        exists|i: int| 0 <= i < 9 && toolbar_spec(toolbar)[i].1 == "^ UP"@,
        exists|i: int| 0 <= i < 9 && toolbar_spec(toolbar)[i].1 == "[ ] FULLSCREEN"@,
        exists|i: int| 0 <= i < 9 && toolbar_spec(toolbar)[i].1 == "X CLOSE"@,
        exists|i: int| 0 <= i < 9 && toolbar_spec(toolbar)[i].1 == "\u{1F504} SWAP SCREENS"@,
{
    reveal_strlit("<< TO SCREEN");
    reveal_strlit("< LEFT");
    reveal_strlit("RIGHT >");
    reveal_strlit("TO SCREEN >>");
    reveal_strlit("v DOWN");
    reveal_strlit("^ UP");
    reveal_strlit("[ ] FULLSCREEN");
    reveal_strlit("X CLOSE");
    reveal_strlit("\u{1F504} SWAP SCREENS");
    let t = toolbar_spec(toolbar);
    assert(t[0].1 == "<< TO SCREEN"@);
    assert(t[1].1 == "< LEFT"@);
    assert(t[2].1 == "RIGHT >"@);
    assert(t[3].1 == "TO SCREEN >>"@);
    assert(t[4].1 == "v DOWN"@);
    assert(t[5].1 == "^ UP"@);
    assert(t[6].1 == "[ ] FULLSCREEN"@);
    assert(t[7].1 == "X CLOSE"@);
    assert(t[8].1 == "\u{1F504} SWAP SCREENS"@);
    assert(("<< TO SCREEN"@).len() == 12 && ("<< TO SCREEN"@)[0] == '<');
    assert(("< LEFT"@).len() == 6 && ("< LEFT"@)[0] == '<');
    assert(("RIGHT >"@).len() == 7 && ("RIGHT >"@)[0] == 'R');
    assert(("TO SCREEN >>"@).len() == 12 && ("TO SCREEN >>"@)[0] == 'T');
    assert(("v DOWN"@).len() == 6 && ("v DOWN"@)[0] == 'v');
    assert(("^ UP"@).len() == 4 && ("^ UP"@)[0] == '^');
    assert(("[ ] FULLSCREEN"@).len() == 14 && ("[ ] FULLSCREEN"@)[0] == '[');
    assert(("X CLOSE"@).len() == 7 && ("X CLOSE"@)[0] == 'X');
    assert(("\u{1F504} SWAP SCREENS"@).len() == 14 && ("\u{1F504} SWAP SCREENS"@)[0] == '\u{1F504}');
    assert forall|i: int| 0 <= i < 9 implies {
        let label = (#[trigger] t[i]).1;
        let action = t[i].2;
        &&& label == "<< TO SCREEN"@ ==> action == ToolbarAction::Niri(
            NiriAction::MoveWindowToMonitorLeft,
        )
        &&& label == "< LEFT"@ ==> action == ToolbarAction::Niri(NiriAction::MoveWindowLeft)
        &&& label == "RIGHT >"@ ==> action == ToolbarAction::Niri(NiriAction::MoveWindowRight)
        &&& label == "TO SCREEN >>"@ ==> action == ToolbarAction::Niri(
            NiriAction::MoveWindowToMonitorRight,
        )
        &&& label == "v DOWN"@ ==> action == ToolbarAction::Niri(NiriAction::MoveWindowDown)
        &&& label == "^ UP"@ ==> action == ToolbarAction::Niri(NiriAction::MoveWindowUp)
        &&& label == "[ ] FULLSCREEN"@ ==> action == ToolbarAction::Niri(
            NiriAction::FullscreenWindow,
        )
        &&& label == "X CLOSE"@ ==> action == ToolbarAction::Niri(NiriAction::CloseWindow)
        &&& label == "\u{1F504} SWAP SCREENS"@ ==> action == ToolbarAction::SwapMonitors
    } by {
        let label = t[i].1;
        assert(label.len() > 0);
        let c = label[0];
        let n = label.len();
        if i == 0 {
            assert(c == '<' && n == 12);
        } else if i == 1 {
            assert(c == '<' && n == 6);
        } else if i == 2 {
            assert(c == 'R' && n == 7);
        } else if i == 3 {
            assert(c == 'T' && n == 12);
        } else if i == 4 {
            assert(c == 'v' && n == 6);
        } else if i == 5 {
            assert(c == '^' && n == 4);
        } else if i == 6 {
            assert(c == '[' && n == 14);
        } else if i == 7 {
            assert(c == 'X' && n == 7);
        } else {
            assert(c == '\u{1F504}' && n == 14);
        }
    }
}

} // verus!
