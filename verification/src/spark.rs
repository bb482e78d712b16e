//! One-line charts of a signal.

use crate::micro::{div_round, round_div, unit, ONE};
use vstd::prelude::*;

verus! {

/// The level of a value: eighths of the unit range, rounded, 0 to 8.
pub open spec fn level_of(v: int) -> int {
    round_div(unit(v) * 8, ONE as int)
}

/// The glyph of a level: a blank for 0, then blocks of rising height; a
/// level above 8 has the full block.
pub open spec fn glyph_of(level: int) -> char {
    if level <= 0 {
        ' '
    } else if level == 1 {
        '\u{2581}'
    } else if level == 2 {
        '\u{2582}'
    } else if level == 3 {
        '\u{2583}'
    } else if level == 4 {
        '\u{2584}'
    } else if level == 5 {
        '\u{2585}'
    } else if level == 6 {
        '\u{2586}'
    } else if level == 7 {
        '\u{2587}'
    } else {
        '\u{2588}'
    }
}

/// The chart of a run of values: one glyph for each.
pub open spec fn chart_of(values: Seq<i64>) -> Seq<char> {
    Seq::new(values.len(), |k: int| glyph_of(level_of(values[k] as int)))
}

/// The glyph of a level.
pub fn glyph(level: usize) -> (c: char)
    ensures
        c == glyph_of(level as int),
{
    if level == 0 {
        ' '
    } else if level == 1 {
        '\u{2581}'
    } else if level == 2 {
        '\u{2582}'
    } else if level == 3 {
        '\u{2583}'
    } else if level == 4 {
        '\u{2584}'
    } else if level == 5 {
        '\u{2585}'
    } else if level == 6 {
        '\u{2586}'
    } else if level == 7 {
        '\u{2587}'
    } else {
        '\u{2588}'
    }
}

/// A chart of the values, one glyph for each; empty for no values.
pub fn sparkline(values: &[i64]) -> (line: String)
    ensures
        line@ == chart_of(values@),
{
    let mut line = String::new();
    let mut i: usize = 0;
    while i < values.len()
        invariant
            i <= values.len(),
            line@ == chart_of(values@).take(i as int),
        decreases values.len() - i,
    {
        let clamped: i64 = crate::micro::clamp(values[i], 0, ONE);
        let level: i128 = div_round(clamped as i128 * 8, ONE as i128);
        line.push(glyph(level as usize));
        i += 1;
        assert(line@ =~= chart_of(values@).take(i as int));
    }
    assert(chart_of(values@).take(i as int) =~= chart_of(values@));
    line
}

} // verus!
