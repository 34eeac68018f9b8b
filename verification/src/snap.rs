use vstd::prelude::*;

verus! {

/// The monitor width that the snapping rule divides by: never below one pixel.
pub open spec fn effective_width(monitor_width: nat) -> nat {
    if monitor_width == 0 { 1 } else { monitor_width }
}

/// The column width, in percent of the monitor, that a window of `width`
/// pixels snaps to on a monitor `monitor_width` pixels wide.
///
/// Above 85% a window fills the monitor, above 60% it takes two thirds, above
/// 40% a half, from 28% on a third, and below that a quarter.
pub open spec fn snap_spec(width: nat, monitor_width: nat) -> u32 {
    let m = effective_width(monitor_width);
    if 100 * width > 85 * m {
        100
    } else if 100 * width > 60 * m {
        67
    } else if 100 * width > 40 * m {
        50
    } else if 100 * width >= 28 * m {
        33
    } else {
        25
    }
}

/// Snaps a window width to one of the column widths that Niri offers
/// (25%, 33%, 50%, 67% or 100% of the monitor).
pub fn get_snapped_pct(width: u64, monitor_width: u64) -> (pct: u32)
    ensures
        pct == snap_spec(width as nat, monitor_width as nat),
{
    let m: u128 = if monitor_width == 0 { 1 } else { monitor_width as u128 };
    let w: u128 = width as u128;
    if 100 * w > 85 * m {
        100
    } else if 100 * w > 60 * m {
        67
    } else if 100 * w > 40 * m {
        50
    } else if 100 * w >= 28 * m {
        33
    } else {
        25
    }
}

/// Every snapped width is one of the five column widths.
pub proof fn lemma_snap_is_preset(width: nat, monitor_width: nat)
    ensures
        ({
            let p = snap_spec(width, monitor_width);
            p == 25 || p == 33 || p == 50 || p == 67 || p == 100
        }),
{
}

/// A wider window never snaps to a narrower column on the same monitor.
pub proof fn lemma_snap_monotone_in_width(w1: nat, w2: nat, monitor_width: nat)
    requires
        w1 <= w2,
    ensures
        snap_spec(w1, monitor_width) <= snap_spec(w2, monitor_width),
{
}

/// The same window snaps to a column no wider on a wider monitor.
pub proof fn lemma_snap_antitone_in_monitor(width: nat, m1: nat, m2: nat)
    requires
        1 <= m1 <= m2,
    ensures
        snap_spec(width, m2) <= snap_spec(width, m1),
{
}

/// A window exactly as wide as its monitor fills it, and an empty one takes a quarter.
pub proof fn lemma_snap_extremes(monitor_width: nat)
    ensures
        snap_spec(effective_width(monitor_width), monitor_width) == 100,
        snap_spec(0, monitor_width) == 25,
{
}


/// The thresholds of the snapping rule, as comparisons of the window's width
/// with fractions of the monitor's width (a monitor of width 0 counts as 1):
/// more than 85% fills the monitor, more than 60% gives at least two thirds,
/// more than 40% at least a half, at least 28% at least a third.
pub proof fn lemma_snap_thresholds(width: nat, monitor_width: nat)
    ensures
        ({
            let m = if monitor_width == 0 {
                1
            } else {
                monitor_width
            };
            let p = snap_spec(width, monitor_width);
            &&& (p == 100 <==> 100 * width > 85 * m)
            &&& (p >= 67 <==> 100 * width > 60 * m)
            &&& (p >= 50 <==> 100 * width > 40 * m)
            &&& (p >= 33 <==> 100 * width >= 28 * m)
            &&& (p == 25 <==> 100 * width < 28 * m)
        }),
{
}

} // verus!
