//! Tone, pace and articulation of an utterance.

use crate::micro::{add_saturating, clamp_wide, div_round, round_div, saturate, unit, ONE};
use vstd::prelude::*;

verus! {

/// How an utterance sounds, by its pace.
#[derive(Debug, Clone, Copy, PartialEq, Eq, Structural)]
pub enum ToneTag {
    Neutral,
    Calm,
    Energetic,
}

/// Pace in millionths of a word per minute, articulation in millionths, and tone.
#[derive(Debug, Clone, Copy, PartialEq, Eq, Structural)]
pub struct Prosody {
    pub wpm: i64,
    pub articulation: i64,
    pub tone: ToneTag,
}

/// The pause that counts: at least 20 ms.
pub open spec fn counted_pause(pause_ms: int) -> int {
    if pause_ms < 20 {
        20
    } else {
        pause_ms
    }
}

/// Words per minute, in millionths: 220 times `150 * pace * (40 / pause) / 200`
/// taken to the unit range.
pub open spec fn wpm_of(pace_factor: int, pause_ms: int) -> int {
    220 * unit(round_div(30 * pace_factor, counted_pause(pause_ms)))
}

/// Articulation: `(0.85 / pace) * (pause / 80)` in the unit range, with a
/// pace of at least 0.1.
pub open spec fn articulation_of(pace_factor: int, pause_ms: int) -> int {
    let pace = if pace_factor < 100_000 {
        100_000
    } else {
        pace_factor
    };
    unit(round_div(850_000 * ONE * counted_pause(pause_ms), 80 * pace))
}

/// The tone of a pace: calm under 120 words per minute, energetic over 180.
pub open spec fn tone_of(wpm: int) -> ToneTag {
    if wpm < 120 * ONE {
        ToneTag::Calm
    } else if wpm > 180 * ONE {
        ToneTag::Energetic
    } else {
        ToneTag::Neutral
    }
}

/// Pace, articulation and tone of an utterance spoken at the given pace
/// factor with the given pause.
pub fn analyze(text: &str, pace_factor: i64, pause_ms: u64) -> (p: Prosody)
    ensures
        p.wpm == wpm_of(pace_factor as int, pause_ms as int),
        p.articulation == articulation_of(pace_factor as int, pause_ms as int),
        p.tone == tone_of(p.wpm as int),
        0 <= p.wpm <= 220 * ONE,
        0 <= p.articulation <= ONE,
{
    let pause: i128 = if pause_ms < 20 {
        20
    } else {
        pause_ms as i128
    };
    let raw: i64 = clamp_wide(div_round(30 * (pace_factor as i128), pause), 0, ONE);
    let wpm: i64 = 220 * raw;
    let pace: i128 = if pace_factor < 100_000 {
        100_000
    } else {
        pace_factor as i128
    };
    let articulation: i64 = clamp_wide(
        div_round(850_000_000_000 * pause, 80 * pace),
        0,
        ONE,
    );
    let tone = if wpm < 120_000_000 {
        ToneTag::Calm
    } else if wpm > 180_000_000 {
        ToneTag::Energetic
    } else {
        ToneTag::Neutral
    };
    Prosody { wpm, articulation, tone }
}

/// Articulation after a hint has been added, in the unit range.
pub fn apply_articulation_hint(articulation: i64, hint: i64) -> (r: i64)
    ensures
        r == unit(saturate(articulation + hint)),
        0 <= r <= ONE,
{
    crate::micro::clamp(add_saturating(articulation, hint), 0, ONE)
}

/// The label of a tone.
pub open spec fn label_of(tone: ToneTag) -> Seq<char> {
    match tone {
        ToneTag::Neutral => "Neutral"@,
        ToneTag::Calm => "Calm"@,
        ToneTag::Energetic => "Energetic"@,
    }
}

/// The label of a tone, as the logs show it.
pub fn tone_label(tone: ToneTag) -> (s: &'static str)
    ensures
        s@ == label_of(tone),
{
    match tone {
        ToneTag::Neutral => "Neutral",
        ToneTag::Calm => "Calm",
        ToneTag::Energetic => "Energetic",
    }
}

} // verus!
