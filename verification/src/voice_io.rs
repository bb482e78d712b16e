//! Timing of the stand-ins for speech recognition and synthesis.

use crate::micro::{clamp, clamp_int, div_round, round_div, ONE};
use vstd::prelude::*;

verus! {

/// The name of the recording that stands for captured audio.
pub fn record_audio() -> (s: &'static str)
    ensures
        s@ == "recorded.wav"@,
{
    "recorded.wav"
}

/// A sum of milliseconds that stops at the largest count.
pub open spec fn capped(ms: int) -> int {
    if ms > u64::MAX {
        u64::MAX as int
    } else {
        ms
    }
}

/// Time that recognition takes: the device's pause and one frame.
pub open spec fn asr_latency(pause_ms: int, frame_ms: int) -> int {
    capped(pause_ms + frame_ms)
}

/// Time that plain synthesis takes: half the device's pause and one frame.
pub open spec fn tts_latency(pause_ms: int, frame_ms: int) -> int {
    capped(pause_ms / 2 + frame_ms)
}

/// The pace that synthesis is run at: between 0.5 and 2.
pub open spec fn paced(pace: int) -> int {
    clamp_int(pace, 500_000, 2_000_000)
}

/// The pause that synthesis is run with: between 20 and 250 ms.
pub open spec fn paused(pause_ms: int) -> int {
    clamp_int(pause_ms, 20, 250)
}

/// What the pace adds to the time of synthesis: 80 ms for each unit under
/// a pace of one, 40 ms for each unit over it.
pub open spec fn pace_adjust(pace: int) -> int {
    if paced(pace) < ONE {
        round_div((ONE - paced(pace)) * 80, ONE as int)
    } else {
        round_div((paced(pace) - ONE) * 40, ONE as int)
    }
}

/// Time that paced synthesis takes: half the pause, one frame, and the adjustment for pace.
pub open spec fn paced_latency(pace: int, pause_ms: int, frame_ms: int) -> int {
    paused(pause_ms) / 2 + frame_ms + pace_adjust(pace)
}

/// Time that recognition takes, in milliseconds.
pub fn asr_latency_ms(pause_ms: u64, frame_ms: u32) -> (ms: u64)
    ensures
        ms == asr_latency(pause_ms as int, frame_ms as int),
{
    if pause_ms > u64::MAX - frame_ms as u64 {
        u64::MAX
    } else {
        pause_ms + frame_ms as u64
    }
}

/// Time that plain synthesis takes, in milliseconds.
pub fn tts_latency_ms(pause_ms: u64, frame_ms: u32) -> (ms: u64)
    ensures
        ms == tts_latency(pause_ms as int, frame_ms as int),
{
    pause_ms / 2 + frame_ms as u64
}

/// Pace and pause that paced synthesis is run with.
pub fn synthesis_settings(pace: i64, pause_ms: u64) -> (r: (i64, u64))
    ensures
        r.0 == paced(pace as int),
        r.1 == paused(pause_ms as int),
{
    let p: u64 = if pause_ms < 20 {
        20
    } else if pause_ms > 250 {
        250
    } else {
        pause_ms
    };
    (clamp(pace, 500_000, 2_000_000), p)
}

/// Time that paced synthesis takes, in milliseconds.
pub fn paced_latency_ms(pace: i64, pause_ms: u64, frame_ms: u32) -> (ms: u64)
    ensures
        ms == paced_latency(pace as int, pause_ms as int, frame_ms as int),
{
    let (p, pause) = synthesis_settings(pace, pause_ms);
    let base: u64 = pause / 2 + frame_ms as u64;
    let adjust: i128 = if p < ONE {
        div_round((ONE - p) as i128 * 80, ONE as i128)
    } else {
        div_round((p - ONE) as i128 * 40, ONE as i128)
    };
    base + adjust as u64
}

} // verus!
