//! The rules that tie the parts together over one run: seeds at its start,
//! and what each turn does with the advice it gets.

use crate::alerts::AlertStats;
use crate::astro::{AstroAdvice, AstroSessionStats, SyncBias};
use crate::device_memory::DeviceMemory;
use crate::micro::{clamp, clamp_int, clamp_wide, div_round, mul_by_fraction, mul_wide, round_div, saturate, unit, ONE};
use crate::prosody::{label_of, ToneTag};
use crate::text::{ascii_lowercase, chars_of, same_text_ignoring_case};
use crate::stabilizer::EmoState;
use vstd::prelude::*;

verus! {

/// Slowest pace factor that is spoken: 0.7.
pub const PACE_MIN: i64 = 700_000;

/// Fastest pace factor that is spoken: 1.3.
pub const PACE_MAX: i64 = 1_300_000;

/// Shortest pause that is spoken, in milliseconds.
pub const PAUSE_MIN_MS: i64 = 20;

/// Longest pause that is spoken, in milliseconds.
pub const PAUSE_MAX_MS: i64 = 250;

/// Largest seed for resonance or drift: 0.05.
pub const SEED_MAX: i64 = 50_000;

/// A pace factor within what is spoken.
pub open spec fn pace_within(pace: int) -> int {
    clamp_int(pace, PACE_MIN as int, PACE_MAX as int)
}

/// A pause within what is spoken.
pub open spec fn pause_within(pause_ms: int) -> int {
    clamp_int(pause_ms, PAUSE_MIN_MS as int, PAUSE_MAX_MS as int)
}

/// A pace factor and a change to it, within what is spoken.
pub fn limit_pace(pace: i64, delta: i64) -> (r: i64)
    ensures
        r == pace_within(pace + delta),
        PACE_MIN <= r <= PACE_MAX,
{
    clamp_wide(pace as i128 + delta as i128, PACE_MIN, PACE_MAX)
}

/// A pause and a change to it, within what is spoken.
pub fn limit_pause(pause_ms: i64, delta_ms: i64) -> (r: i64)
    ensures
        r == pause_within(pause_ms + delta_ms),
        PAUSE_MIN_MS <= r <= PAUSE_MAX_MS,
{
    clamp_wide(pause_ms as i128 + delta_ms as i128, PAUSE_MIN_MS, PAUSE_MAX_MS)
}

/// A signal and a change to it, in the unit range.
pub fn shift_signal(value: i64, delta: i64) -> (r: i64)
    ensures
        r == unit(value + delta),
        0 <= r <= ONE,
{
    clamp_wide(value as i128 + delta as i128, 0, ONE)
}

/// How much a suggested sync bias counts: 0.4 and up to 0.6 more with its
/// stability and the number of its visits, up to twelve.
pub open spec fn bias_weight(bias: SyncBias) -> int {
    let seen = if bias.visits > 12 {
        12
    } else {
        bias.visits as int
    };
    400_000 + round_div(3 * (12 * unit(bias.stability as int) + seen * ONE), 120)
}

/// The seeds for resonance and drift that a suggested sync bias gives:
/// the biases by their weight, the one for resonance within 0.05 either
/// way, the one for drift, turned round, between 0 and 0.05.
pub open spec fn astro_seeds_of(bias: SyncBias) -> (int, int) {
    (
        clamp_int(
            round_div(bias.res_bias * bias_weight(bias), ONE as int),
            -SEED_MAX as int,
            SEED_MAX as int,
        ),
        clamp_int(round_div(-bias.drift_bias * bias_weight(bias), ONE as int), 0, SEED_MAX as int),
    )
}

/// The seeds for resonance and drift that a suggested sync bias gives.
pub fn astro_seeds(bias: &SyncBias) -> (r: (i64, i64))
    ensures
        (r.0 as int, r.1 as int) == astro_seeds_of(*bias),
{
    let stability: i128 = clamp(bias.stability, 0, ONE) as i128;
    let seen: i128 = if bias.visits > 12 {
        12
    } else {
        bias.visits as i128
    };
    let weight: i128 = 400_000 + div_round(3 * (12 * stability + seen * 1_000_000), 120);
    let w: i64 = weight as i64;
    proof {
        assert(-bias.drift_bias * weight == -(bias.drift_bias * w)) by (nonlinear_arith)
            requires
                weight == w,
        ;
        assert(bias.res_bias * weight == bias.res_bias * w) by (nonlinear_arith)
            requires
                weight == w,
        ;
    }
    (
        clamp_wide(div_round(mul_by_fraction(bias.res_bias, w), ONE as i128), -SEED_MAX, SEED_MAX),
        clamp_wide(div_round(-mul_by_fraction(bias.drift_bias, w), ONE as i128), 0, SEED_MAX),
    )
}

/// What a device's memory changes at the start of a run: the pace factor
/// raised by a tenth of the remembered pace, and the seeds for pace and pause.
pub open spec fn device_seeds_of(memory: DeviceMemory, pace_factor: int, pause_ms: int) -> (
    int,
    int,
    int,
) {
    (
        pace_within(pace_factor + round_div(memory.avg_pace as int, 10)),
        clamp_int(memory.avg_pace - pace_factor, -200_000, 200_000),
        clamp_int(round_div(memory.avg_pause - pause_ms * ONE, ONE as int), -40, 60),
    )
}

/// The pace factor and the seeds for pace and pause from a device's memory.
pub fn device_seeds(memory: &DeviceMemory, pace_factor: i64, pause_ms: u64) -> (r: (
    i64,
    i64,
    i64,
))
    ensures
        (r.0 as int, r.1 as int, r.2 as int) == device_seeds_of(
            *memory,
            pace_factor as int,
            pause_ms as int,
        ),
{
    let tenth: i128 = div_round(memory.avg_pace as i128, 10);
    (
        clamp_wide(pace_factor as i128 + tenth, PACE_MIN, PACE_MAX),
        clamp_wide(memory.avg_pace as i128 - pace_factor as i128, -200_000, 200_000),
        clamp_wide(
            div_round(memory.avg_pause as i128 - pause_ms as i128 * 1_000_000, ONE as i128),
            -40,
            60,
        ),
    )
}

/// The seeds for resonance and drift from the emotive seed: how far its
/// resonance lies over the baseline and its drift under it, up to 0.05 each.
pub fn emotive_seeds(ema_res: i64, ema_drift: i64, baseline_res: i64, baseline_drift: i64) -> (r:
    (i64, i64))
    ensures
        r.0 == clamp_int(ema_res - baseline_res, 0, SEED_MAX as int),
        r.1 == clamp_int(baseline_drift - ema_drift, 0, SEED_MAX as int),
{
    (
        clamp_wide(ema_res as i128 - baseline_res as i128, 0, SEED_MAX),
        clamp_wide(baseline_drift as i128 - ema_drift as i128, 0, SEED_MAX),
    )
}

/// What recalled advice gains where the tone of the turn is the tone of
/// the emotive seed: 0.02 and half of its resonance bias, of at most 0.06.
pub open spec fn recall_extra(advice: AstroAdvice) -> int {
    let size = if advice.res_bias < 0 {
        -(advice.res_bias as int)
    } else {
        advice.res_bias as int
    };
    20_000 + round_div(
        if size > 60_000 {
            60_000
        } else {
            size
        },
        2,
    )
}

/// Recalled advice with that gain: more resonance, and less drift by 0.6 of it.
pub fn boost_recalled(advice: AstroAdvice) -> (r: AstroAdvice)
    ensures
        r == (AstroAdvice {
            res_bias: saturate(advice.res_bias + recall_extra(advice)) as i64,
            drift_bias: saturate(advice.drift_bias - round_div(recall_extra(advice) * 6, 10)) as i64,
            ..advice
        }),
{
    let size: i128 = if advice.res_bias < 0 {
        -(advice.res_bias as i128)
    } else {
        advice.res_bias as i128
    };
    let capped: i128 = if size > 60_000 {
        60_000
    } else {
        size
    };
    let extra: i128 = 20_000 + div_round(capped, 2);
    AstroAdvice {
        res_bias: clamp_wide(advice.res_bias as i128 + extra, i64::MIN, i64::MAX),
        drift_bias: clamp_wide(
            advice.drift_bias as i128 - div_round(extra * 6, 10),
            i64::MIN,
            i64::MAX,
        ),
        pace_delta: advice.pace_delta,
        pause_delta_ms: advice.pause_delta_ms,
    }
}

/// Recalled advice while the stabilizer is overheated: the pace slower by
/// 0.02 more, the pause longer by 15 ms more.
pub fn damp_recalled(advice: AstroAdvice, state: EmoState) -> (r: AstroAdvice)
    ensures
        r == if state == EmoState::Overheat {
            AstroAdvice {
                pace_delta: saturate(advice.pace_delta - 20_000) as i64,
                pause_delta_ms: saturate(advice.pause_delta_ms + 15) as i64,
                ..advice
            }
        } else {
            advice
        },
{
    if state == EmoState::Overheat {
        AstroAdvice {
            pace_delta: clamp_wide(advice.pace_delta as i128 - 20_000, i64::MIN, i64::MAX),
            pause_delta_ms: clamp_wide(advice.pause_delta_ms as i128 + 15, i64::MIN, i64::MAX),
            drift_bias: advice.drift_bias,
            res_bias: advice.res_bias,
        }
    } else {
        advice
    }
}

/// The session's count of what the topic memory did, after one more recall that gave advice.
pub fn count_recall(stats: AstroSessionStats, advice: AstroAdvice) -> (r: AstroSessionStats)
    ensures
        r.hits == if stats.hits < u32::MAX {
            (stats.hits + 1) as u32
        } else {
            stats.hits
        },
        r.boost_res == saturate(stats.boost_res + advice.res_bias),
        r.bias_drift == saturate(stats.bias_drift + advice.drift_bias),
{
    AstroSessionStats {
        hits: if stats.hits < u32::MAX {
            stats.hits + 1
        } else {
            stats.hits
        },
        boost_res: clamp_wide(stats.boost_res as i128 + advice.res_bias as i128, i64::MIN, i64::MAX),
        bias_drift: clamp_wide(
            stats.bias_drift as i128 + advice.drift_bias as i128,
            i64::MIN,
            i64::MAX,
        ),
    }
}

/// Whether a turn is tagged as emotional: its tone is energetic, and its
/// drift lies over the baseline or its resonance over 0.75.
pub fn emo_flag(tone: ToneTag, drift: i64, res: i64, baseline_drift: i64) -> (b: bool)
    ensures
        b == (tone == ToneTag::Energetic && (drift > baseline_drift || res > 750_000)),
{
    tone == ToneTag::Energetic && (drift > baseline_drift || res > 750_000)
}

/// The pace factor of the first turn after an emotive seed: the device's
/// pace by the seed's pace over 160 words per minute, that share kept
/// between 0.8 and 1.2, and the result within what is spoken.
pub open spec fn seeded_pace_of(pace_factor: int, seed_wpm: int) -> int {
    pace_within(
        round_div(
            pace_factor * clamp_int(round_div(seed_wpm, 160), 800_000, 1_200_000),
            ONE as int,
        ),
    )
}

/// The pace factor of the first turn after an emotive seed.
pub fn seeded_pace(pace_factor: i64, seed_wpm: i64) -> (r: i64)
    ensures
        r == seeded_pace_of(pace_factor as int, seed_wpm as int),
{
    let share: i64 = clamp_wide(div_round(seed_wpm as i128, 160), 800_000, 1_200_000);
    clamp_wide(div_round(mul_wide(pace_factor, share), ONE as i128), PACE_MIN, PACE_MAX)
}

/// The size of the sync corrections of a turn, as self-observation takes
/// it: the size of the pace correction and a hundredth of the pause correction.
pub fn sync_correction(pace_delta: i64, pause_delta_ms: i64) -> (r: i64)
    ensures
        r == saturate(
            (if pace_delta < 0 {
                -(pace_delta as int)
            } else {
                pace_delta as int
            }) + pause_delta_ms * 10_000,
        ),
{
    let size: i128 = if pace_delta < 0 {
        -(pace_delta as i128)
    } else {
        pace_delta as i128
    };
    clamp_wide(size + pause_delta_ms as i128 * 10_000, i64::MIN, i64::MAX)
}

/// Whether a run ends in failure: it is strict and a baseline was broken.
pub fn strict_exit(strict: bool, stats: &AlertStats) -> (b: bool)
    ensures
        b == (strict && (stats.drift_breaches > 0 || stats.res_breaches > 0)),
{
    strict && (stats.drift_breaches > 0 || stats.res_breaches > 0)
}

/// Whether a tone kept as text is the tone of a turn, whatever the case of the text.
pub fn same_tone(kept: &str, tone: ToneTag) -> (b: bool)
    ensures
        b == (ascii_lowercase(kept@) == ascii_lowercase(label_of(tone))),
{
    let chars = chars_of(kept);
    proof {
        reveal_strlit("Neutral");
        reveal_strlit("Calm");
        reveal_strlit("Energetic");
        reveal_strlit("neutral");
        reveal_strlit("calm");
        reveal_strlit("energetic");
        assert(ascii_lowercase("Neutral"@) =~= "neutral"@);
        assert(ascii_lowercase("Calm"@) =~= "calm"@);
        assert(ascii_lowercase("Energetic"@) =~= "energetic"@);
    }
    match tone {
        ToneTag::Neutral => same_text_ignoring_case(chars.as_slice(), "neutral"),
        ToneTag::Calm => same_text_ignoring_case(chars.as_slice(), "calm"),
        ToneTag::Energetic => same_text_ignoring_case(chars.as_slice(), "energetic"),
    }
}

/// Whether recalled advice gains on a turn: it is one of the first two
/// turns of the run and its tone is the tone of the emotive seed.
pub fn recall_gains(idx: usize, seed_tone: &str, tone: ToneTag) -> (b: bool)
    ensures
        b == (idx < 2 && ascii_lowercase(seed_tone@) == ascii_lowercase(label_of(tone))),
{
    idx < 2 && same_tone(seed_tone, tone)
}

} // verus!
