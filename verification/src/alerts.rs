//! Count of the turns that broke a baseline.

use crate::text::{push_decimal, push_places, push_text, decimal_digits, render_places};
use vstd::prelude::*;

verus! {

/// Breaches seen so far, and the worst values; fractions are in millionths.
#[derive(Debug, Clone, Copy, PartialEq, Eq, Structural)]
pub struct AlertStats {
    pub drift_breaches: usize,
    pub res_breaches: usize,
    pub total: usize,
    pub max_drift: i64,
    pub min_res: i64,
}

impl Default for AlertStats {
    fn default() -> (s: AlertStats)
        ensures
            s == (AlertStats {
                drift_breaches: 0,
                res_breaches: 0,
                total: 0,
                max_drift: 0,
                min_res: 0,
            }),
    {
        AlertStats { drift_breaches: 0, res_breaches: 0, total: 0, max_drift: 0, min_res: 0 }
    }
}

/// A counter after one more event, if `hit`; it stops at its largest value.
pub open spec fn counted(count: usize, hit: bool) -> usize {
    if hit && count < usize::MAX {
        (count + 1) as usize
    } else {
        count
    }
}

/// The statistics after one more turn.
pub open spec fn updated(
    stats: AlertStats,
    drift: i64,
    res: i64,
    base_drift: i64,
    base_res: i64,
) -> AlertStats {
    AlertStats {
        total: counted(stats.total, true),
        drift_breaches: counted(stats.drift_breaches, drift > base_drift),
        res_breaches: counted(stats.res_breaches, res < base_res),
        max_drift: if drift > stats.max_drift {
            drift
        } else {
            stats.max_drift
        },
        min_res: if stats.min_res == 0 || res < stats.min_res {
            res
        } else {
            stats.min_res
        },
    }
}

fn count(n: usize, hit: bool) -> (r: usize)
    ensures
        r == counted(n, hit),
{
    if hit && n < usize::MAX {
        n + 1
    } else {
        n
    }
}

/// Takes in one turn: drift above its baseline and resonance below its
/// baseline each count as a breach.
pub fn update(stats: &mut AlertStats, drift: i64, res: i64, base_drift: i64, base_res: i64)
    ensures
        *final(stats) == updated(*old(stats), drift, res, base_drift, base_res),
{
    stats.total = count(stats.total, true);
    stats.drift_breaches = count(stats.drift_breaches, drift > base_drift);
    stats.res_breaches = count(stats.res_breaches, res < base_res);
    if drift > stats.max_drift {
        stats.max_drift = drift;
    }
    if stats.min_res == 0 || res < stats.min_res {
        stats.min_res = res;
    }
}

/// Whether no baseline was broken.
pub open spec fn healthy(stats: AlertStats) -> bool {
    stats.drift_breaches == 0 && stats.res_breaches == 0
}

/// The line that names the baselines.
pub open spec fn header_line(base_drift: int, base_res: int) -> Seq<char> {
    "[health] baseline_drift>"@ + render_places(base_drift, 2) + ", baseline_res<"@
        + render_places(base_res, 2)
}

/// The line that counts the breaches.
pub open spec fn breaches_line(stats: AlertStats) -> Seq<char> {
    "[health] breaches: drift="@ + decimal_digits(stats.drift_breaches as nat) + ", res="@
        + decimal_digits(stats.res_breaches as nat) + ", total="@ + decimal_digits(
        stats.total as nat,
    )
}

/// The line that names the worst values.
pub open spec fn worst_line(stats: AlertStats) -> Seq<char> {
    "[health] worst: drift_max="@ + render_places(stats.max_drift as int, 2) + ", res_min="@
        + render_places(stats.min_res as int, 2)
}

/// The line that gives the verdict.
pub open spec fn status_line(stats: AlertStats) -> Seq<char> {
    "[health] status: "@ + (if healthy(stats) {
        "OK \u{2705}"@
    } else {
        "ATTENTION \u{26a0}\u{fe0f}"@
    })
}

/// The four lines of the health summary: baselines, breaches, worst values, verdict.
pub fn summary_lines(stats: &AlertStats, base_drift: i64, base_res: i64) -> (lines: Vec<String>)
    ensures
        lines.len() == 4,
        lines[0]@ == header_line(base_drift as int, base_res as int),
        lines[1]@ == breaches_line(*stats),
        lines[2]@ == worst_line(*stats),
        lines[3]@ == status_line(*stats),
{
    let mut header = String::new();
    push_text(&mut header, "[health] baseline_drift>");
    push_places(&mut header, base_drift, 2);
    push_text(&mut header, ", baseline_res<");
    push_places(&mut header, base_res, 2);
    assert(header@ =~= header_line(base_drift as int, base_res as int));
    let mut breaches = String::new();
    push_text(&mut breaches, "[health] breaches: drift=");
    push_decimal(&mut breaches, stats.drift_breaches as u128);
    push_text(&mut breaches, ", res=");
    push_decimal(&mut breaches, stats.res_breaches as u128);
    push_text(&mut breaches, ", total=");
    push_decimal(&mut breaches, stats.total as u128);
    assert(breaches@ =~= breaches_line(*stats));
    let mut worst = String::new();
    push_text(&mut worst, "[health] worst: drift_max=");
    push_places(&mut worst, stats.max_drift, 2);
    push_text(&mut worst, ", res_min=");
    push_places(&mut worst, stats.min_res, 2);
    assert(worst@ =~= worst_line(*stats));
    let mut status = String::new();
    push_text(&mut status, "[health] status: ");
    if stats.drift_breaches == 0 && stats.res_breaches == 0 {
        push_text(&mut status, "OK \u{2705}");
    } else {
        push_text(&mut status, "ATTENTION \u{26a0}\u{fe0f}");
    }
    assert(status@ =~= status_line(*stats));
    let mut lines: Vec<String> = Vec::new();
    lines.push(header);
    lines.push(breaches);
    lines.push(worst);
    lines.push(status);
    lines
}

} // verus!
