//! Measured drift and resonance of a prompt.

use crate::metrics::clamp01;
use crate::micro::{add_saturating, unit, saturate, ONE};
use crate::prosody::ToneTag;
use rand::Rng;
use vstd::prelude::*;

verus! {

/// `rand::thread_rng()` and `Rng::gen_range` on the range from 0 up to, not
/// including, `bound`: a whole number of that range, drawn anew at each
/// call. Nothing but the range is known of it. The generator is seeded
/// from the operating system when a thread first asks for it, and stops
/// the program if that source fails.
#[verifier::external_body]
fn draw_below(bound: i64) -> (r: i64)
    requires
        bound > 0,
    ensures
        0 <= r < bound,
{
    rand::thread_rng().gen_range(0..bound)
}

/// Drift and resonance of a prompt, each drawn from the unit range.
pub fn analyze_prompt(input: &str) -> (r: (i64, i64))
    ensures
        0 <= r.0 <= ONE,
        0 <= r.1 <= ONE,
{
    let drift: i64 = clamp01(draw_below(ONE));
    let res: i64 = clamp01(draw_below(ONE));
    (drift, res)
}

/// Drift and resonance as the tone colours them.
pub open spec fn biased(drift: int, res: int, tone: ToneTag) -> (int, int) {
    match tone {
        ToneTag::Calm => (unit(drift), unit(saturate(res + 20_000))),
        ToneTag::Energetic => (unit(saturate(drift + 20_000)), unit(saturate(res - 10_000))),
        ToneTag::Neutral => (unit(drift), unit(res)),
    }
}

/// Colours drift and resonance by the tone: a calm tone raises resonance by
/// 0.02, an energetic one lowers it by 0.01 and raises drift by 0.02; both
/// results lie in the unit range.
pub fn apply_prosody_bias(drift: i64, res: i64, tone: &ToneTag) -> (r: (i64, i64))
    ensures
        (r.0 as int, r.1 as int) == biased(drift as int, res as int, *tone),
        0 <= r.0 <= ONE,
        0 <= r.1 <= ONE,
{
    let mut d: i64 = drift;
    let mut r: i64 = res;
    match tone {
        ToneTag::Calm => {
            r = add_saturating(r, 20_000);
        },
        ToneTag::Energetic => {
            r = add_saturating(r, -10_000);
            d = add_saturating(d, 20_000);
        },
        ToneTag::Neutral => {},
    }
    (clamp01(d), clamp01(r))
}

} // verus!
