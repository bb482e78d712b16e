//! Signs of distress in a conversation, and how gently the system answers.

use crate::micro::{clamp_wide, div_round, round_div, unit, ONE};
use crate::prosody::ToneTag;
use crate::text::{chars_of, decimal_digits, push_decimal, push_places, push_text, render_places, same_text};
use vstd::prelude::*;

verus! {

/// How much distress was detected.
#[derive(Debug, Clone, Copy, PartialEq, Eq, Structural)]
pub enum SufferingType {
    Absent,
    Mild,
    Moderate,
    Severe,
}

/// Distress and care of one run; fractions are in millionths.
#[derive(Debug, Clone, Copy, PartialEq, Eq, Structural)]
pub struct CompassionMetrics {
    pub user_suffering: i64,
    pub suffering_type: SufferingType,
    pub response_kindness: i64,
    pub healing_intent: i64,
    pub compassion_level: i64,
    pub suffering_count: usize,
    pub suffering_streak: usize,
}

/// What compassion changes in a turn; fractions are in millionths.
#[derive(Debug, Clone, Copy, PartialEq, Eq, Structural)]
pub struct CompassionAdjustments {
    pub resonance_boost: i64,
    pub pace_adjustment: i64,
    pub pause_adjustment_ms: i64,
    pub drift_reduction: i64,
}

/// A counter after one more; it stops at its largest value.
pub open spec fn one_more(count: usize) -> usize {
    if count < usize::MAX {
        (count + 1) as usize
    } else {
        count
    }
}

/// The streak of turns that repeat a theme, after one more turn.
pub open spec fn streak_after(streak: usize, repeated_theme: bool) -> usize {
    if repeated_theme {
        one_more(streak)
    } else {
        0
    }
}

/// The sum of the signs of distress, before it is taken to the unit range.
pub open spec fn distress_score(
    drift: int,
    resonance: int,
    tone: ToneTag,
    wpm: int,
    state: Seq<char>,
    repeated_theme: bool,
    streak: int,
) -> int {
    (if drift > 500_000 && resonance < 600_000 {
        (drift - 500_000) * 2 + round_div((600_000 - resonance) * 3, 2)
    } else {
        0
    }) + (if state == "Overheat"@ {
        300_000int
    } else {
        0
    }) + (if tone == ToneTag::Energetic && wpm > 180 * ONE {
        200_000int
    } else {
        0
    }) + (if repeated_theme {
        250_000int
    } else {
        0
    }) + (if streak > 2 {
        300_000int
    } else {
        0
    })
}

/// The kind of distress of a level: none under 0.2, mild under 0.4,
/// moderate under 0.7, severe from there.
pub open spec fn kind_of(suffering: int) -> SufferingType {
    if suffering < 200_000 {
        SufferingType::Absent
    } else if suffering < 400_000 {
        SufferingType::Mild
    } else if suffering < 700_000 {
        SufferingType::Moderate
    } else {
        SufferingType::Severe
    }
}

/// Healing intent for a level of distress: 0.3 and 0.7 of the level.
pub open spec fn healing_of(suffering: int) -> int {
    unit(300_000 + round_div(suffering * 7, 10))
}

/// The metrics after the signs of distress of one turn.
pub open spec fn detected(
    m: CompassionMetrics,
    drift: int,
    resonance: int,
    tone: ToneTag,
    wpm: int,
    state: Seq<char>,
    repeated_theme: bool,
) -> CompassionMetrics {
    let streak = streak_after(m.suffering_streak, repeated_theme);
    let suffering = unit(
        distress_score(drift, resonance, tone, wpm, state, repeated_theme, streak as int),
    );
    CompassionMetrics {
        user_suffering: suffering as i64,
        suffering_type: kind_of(suffering),
        healing_intent: healing_of(suffering) as i64,
        suffering_count: if suffering > 200_000 {
            one_more(m.suffering_count)
        } else {
            m.suffering_count
        },
        suffering_streak: streak,
        ..m
    }
}

/// How kind a response was: 0.5, more for rephrasing, for slowing down,
/// for longer pauses and for a resonance boost, in the unit range.
pub open spec fn kindness_of(
    was_rephrased: bool,
    pace_delta: int,
    pause_delta_ms: int,
    resonance_boost: int,
) -> int {
    unit(
        500_000 + (if was_rephrased {
            200_000int
        } else {
            0
        }) + (if pace_delta < 0 {
            round_div(-pace_delta, 2)
        } else {
            0
        }) + (if pause_delta_ms > 0 {
            if pause_delta_ms >= 20 {
                200_000
            } else {
                pause_delta_ms * 10_000
            }
        } else {
            0
        }) + (if resonance_boost > 0 {
            resonance_boost * 2
        } else {
            0
        }),
    )
}

/// The level of compassion: half the distress, 0.3 of the healing intent
/// and 0.2 of the kindness, in the unit range.
pub open spec fn level_of(m: CompassionMetrics) -> int {
    unit(round_div(5 * m.user_suffering + 3 * m.healing_intent + 2 * m.response_kindness, 10))
}

/// The quotient `n / d` with its fraction dropped.
pub open spec fn whole_part(n: int, d: int) -> int {
    if n >= 0 {
        n / d
    } else {
        -((-n) / d)
    }
}

/// The adjustments of a level of compassion.
pub open spec fn adjustments_of(level: int) -> CompassionAdjustments {
    CompassionAdjustments {
        resonance_boost: round_div(level, 10) as i64,
        pace_adjustment: (-round_div(level, 20)) as i64,
        pause_adjustment_ms: whole_part(level * 30, ONE as int) as i64,
        drift_reduction: round_div(level * 2, 25) as i64,
    }
}

/// The status as text.
pub open spec fn status_text(m: CompassionMetrics) -> Seq<char> {
    match m.suffering_type {
        SufferingType::Absent => "Compassion: Observing (suffering="@ + render_places(
            m.user_suffering as int,
            2,
        ) + ")"@,
        SufferingType::Mild => "Compassion: Gentle Care (suffering="@ + render_places(
            m.user_suffering as int,
            2,
        ) + ", healing="@ + render_places(m.healing_intent as int, 2) + ")"@,
        SufferingType::Moderate => "Compassion: Active Support (suffering="@ + render_places(
            m.user_suffering as int,
            2,
        ) + ", kindness="@ + render_places(m.response_kindness as int, 2) + ")"@,
        SufferingType::Severe => "Compassion: \u{2764}\u{fe0f}  Deep Care (suffering="@
            + render_places(m.user_suffering as int, 2) + ", streak="@ + decimal_digits(
            m.suffering_streak as nat,
        ) + ")"@,
    }
}

impl CompassionMetrics {
    /// Metrics before the first turn.
    pub fn new() -> (m: CompassionMetrics)
        ensures
            m == (CompassionMetrics {
                user_suffering: 0,
                suffering_type: SufferingType::Absent,
                response_kindness: 500_000,
                healing_intent: 300_000,
                compassion_level: 0,
                suffering_count: 0,
                suffering_streak: 0,
            }),
    {
        CompassionMetrics {
            user_suffering: 0,
            suffering_type: SufferingType::Absent,
            response_kindness: 500_000,
            healing_intent: 300_000,
            compassion_level: 0,
            suffering_count: 0,
            suffering_streak: 0,
        }
    }

    /// Reads the signs of distress of one turn.
    pub fn detect_suffering(
        &mut self,
        drift: i64,
        resonance: i64,
        tone: ToneTag,
        wpm: i64,
        stabilizer_state: &str,
        repeated_theme: bool,
    )
        ensures
            *final(self) == detected(
                *old(self),
                drift as int,
                resonance as int,
                tone,
                wpm as int,
                stabilizer_state@,
                repeated_theme,
            ),
            0 <= final(self).user_suffering <= ONE,
            0 <= final(self).healing_intent <= ONE,
    {
        let mut score: i128 = 0;
        if drift > 500_000 && resonance < 600_000 {
            score = score + (drift as i128 - 500_000) * 2;
            score = score + div_round((600_000 - resonance as i128) * 3, 2);
        }
        let state = chars_of(stabilizer_state);
        if same_text(state.as_slice(), "Overheat") {
            score = score + 300_000;
        }
        if tone == ToneTag::Energetic && wpm > 180_000_000 {
            score = score + 200_000;
        }
        if repeated_theme {
            score = score + 250_000;
            if self.suffering_streak < usize::MAX {
                self.suffering_streak += 1;
            }
        } else {
            self.suffering_streak = 0;
        }
        if self.suffering_streak > 2 {
            score = score + 300_000;
        }
        self.user_suffering = clamp_wide(score, 0, ONE);
        self.suffering_type = if self.user_suffering < 200_000 {
            SufferingType::Absent
        } else if self.user_suffering < 400_000 {
            SufferingType::Mild
        } else if self.user_suffering < 700_000 {
            SufferingType::Moderate
        } else {
            SufferingType::Severe
        };
        if self.user_suffering > 200_000 && self.suffering_count < usize::MAX {
            self.suffering_count += 1;
        }
        self.healing_intent = clamp_wide(
            300_000 + div_round(self.user_suffering as i128 * 7, 10),
            0,
            ONE,
        );
    }

    /// Rates how kind the response of a turn was.
    pub fn calculate_kindness(
        &mut self,
        was_rephrased: bool,
        pace_delta: i64,
        pause_delta_ms: i64,
        resonance_boost: i64,
    )
        ensures
            *final(self) == (CompassionMetrics {
                response_kindness: kindness_of(
                    was_rephrased,
                    pace_delta as int,
                    pause_delta_ms as int,
                    resonance_boost as int,
                ) as i64,
                ..*old(self)
            }),
            0 <= final(self).response_kindness <= ONE,
    {
        let mut kindness: i128 = 500_000;
        if was_rephrased {
            kindness = kindness + 200_000;
        }
        if pace_delta < 0 {
            kindness = kindness + div_round(-(pace_delta as i128), 2);
        }
        if pause_delta_ms > 0 {
            kindness = kindness + if pause_delta_ms >= 20 {
                200_000
            } else {
                pause_delta_ms as i128 * 10_000
            };
        }
        if resonance_boost > 0 {
            kindness = kindness + resonance_boost as i128 * 2;
        }
        self.response_kindness = clamp_wide(kindness, 0, ONE);
    }

    /// Sets the level of compassion from distress, healing intent and kindness.
    pub fn update_compassion_level(&mut self)
        ensures
            *final(self) == (CompassionMetrics {
                compassion_level: level_of(*old(self)) as i64,
                ..*old(self)
            }),
            0 <= final(self).compassion_level <= ONE,
    {
        let sum: i128 = 5 * (self.user_suffering as i128) + 3 * (self.healing_intent as i128) + 2
            * (self.response_kindness as i128);
        self.compassion_level = clamp_wide(div_round(sum, 10), 0, ONE);
    }

    /// Whether the compassionate mode is on: the level is over 0.5.
    pub fn should_activate_compassion(&self) -> (b: bool)
        ensures
            b == (self.compassion_level > 500_000),
    {
        self.compassion_level > 500_000
    }

    /// Whether support is offered outright: the distress is moderate or severe.
    pub fn should_offer_support(&self) -> (b: bool)
        ensures
            b == (self.suffering_type == SufferingType::Moderate || self.suffering_type
                == SufferingType::Severe),
    {
        match self.suffering_type {
            SufferingType::Moderate => true,
            SufferingType::Severe => true,
            _ => false,
        }
    }

    /// The status as text.
    pub fn status_message(&self) -> (s: String)
        ensures
            s@ == status_text(*self),
    {
        let mut out = String::new();
        match self.suffering_type {
            SufferingType::Absent => {
                push_text(&mut out, "Compassion: Observing (suffering=");
                push_places(&mut out, self.user_suffering, 2);
                push_text(&mut out, ")");
            },
            SufferingType::Mild => {
                push_text(&mut out, "Compassion: Gentle Care (suffering=");
                push_places(&mut out, self.user_suffering, 2);
                push_text(&mut out, ", healing=");
                push_places(&mut out, self.healing_intent, 2);
                push_text(&mut out, ")");
            },
            SufferingType::Moderate => {
                push_text(&mut out, "Compassion: Active Support (suffering=");
                push_places(&mut out, self.user_suffering, 2);
                push_text(&mut out, ", kindness=");
                push_places(&mut out, self.response_kindness, 2);
                push_text(&mut out, ")");
            },
            SufferingType::Severe => {
                push_text(&mut out, "Compassion: \u{2764}\u{fe0f}  Deep Care (suffering=");
                push_places(&mut out, self.user_suffering, 2);
                push_text(&mut out, ", streak=");
                push_decimal(&mut out, self.suffering_streak as u128);
                push_text(&mut out, ")");
            },
        }
        assert(out@ =~= status_text(*self));
        out
    }
}

impl Default for CompassionMetrics {
    fn default() -> (m: CompassionMetrics)
        ensures
            m == (CompassionMetrics {
                user_suffering: 0,
                suffering_type: SufferingType::Absent,
                response_kindness: 500_000,
                healing_intent: 300_000,
                compassion_level: 0,
                suffering_count: 0,
                suffering_streak: 0,
            }),
    {
        CompassionMetrics::new()
    }
}

impl CompassionAdjustments {
    /// The adjustments that the level of compassion calls for: a resonance
    /// boost of a tenth of it, a pace slower by a twentieth, a pause longer
    /// by thirty milliseconds times it, and drift lower by 0.08 of it.
    pub fn from_compassion(metrics: &CompassionMetrics) -> (a: CompassionAdjustments)
        ensures
            a == adjustments_of(metrics.compassion_level as int),
    {
        let level: i128 = metrics.compassion_level as i128;
        let pause: i128 = if level >= 0 {
            (level * 30) / 1_000_000
        } else {
            -((-level * 30) / 1_000_000)
        };
        CompassionAdjustments {
            resonance_boost: div_round(level, 10) as i64,
            pace_adjustment: (-div_round(level, 20)) as i64,
            pause_adjustment_ms: pause as i64,
            drift_reduction: div_round(level * 2, 25) as i64,
        }
    }
}

} // verus!
