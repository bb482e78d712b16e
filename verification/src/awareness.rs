//! The system's view of its own state: how sure it is of what it measures.

use crate::micro::{clamp, clamp_wide, div_round, round_div, saturate, unit, ONE};
use crate::text::{chars_of, push_places, push_text, render_places, same_text};
use vstd::prelude::*;

verus! {

/// Self-observation of one run; fractions are in millionths.
#[derive(Debug, Clone, Copy, PartialEq, Eq, Structural)]
pub struct MetaCognition {
    pub self_drift: i64,
    pub self_resonance: i64,
    pub confidence: i64,
    pub clarity: i64,
    pub doubt: i64,
    pub observation_count: usize,
}

/// Smoothed self-observation; fractions are in millionths.
#[derive(Debug, Clone, Copy, PartialEq, Eq, Structural)]
pub struct MetaStabilizer {
    pub ema_self_drift: i64,
    pub ema_confidence: i64,
    pub alpha: i64,
}

/// The size of a value.
pub open spec fn size_of(v: int) -> int {
    if v < 0 {
        -v
    } else {
        v
    }
}

/// Self-drift from the size of the sync corrections: five times it, in the unit range.
pub open spec fn self_drift_of(sync_corrections: int) -> int {
    unit(size_of(sync_corrections) * 5)
}

/// Self-resonance from measured resonance and the stabilizer's state by name.
pub open spec fn self_resonance_of(measured_res: int, state: Seq<char>) -> int {
    if state == "Normal"@ {
        unit(measured_res + 100_000)
    } else if state == "Warming"@ {
        unit(measured_res)
    } else if state == "Overheat"@ {
        unit(measured_res - 200_000)
    } else if state == "Cooldown"@ {
        unit(measured_res - 100_000)
    } else {
        measured_res
    }
}

/// Confidence: `(1 - drift) * resonance`, in the unit range.
pub open spec fn confidence_of(measured_drift: int, measured_res: int) -> int {
    unit(round_div((ONE - measured_drift) * measured_res, ONE as int))
}

/// What observations add to clarity: 0.05 each, at most 0.3.
pub open spec fn observation_bonus(count: int) -> int {
    if count >= 6 {
        300_000
    } else {
        count * 50_000
    }
}

/// Doubt: one minus confidence, at least 0.1.
pub open spec fn doubt_of(confidence: int) -> int {
    let d = unit(ONE - confidence);
    if d < 100_000 {
        100_000
    } else {
        d
    }
}

/// The observation counter after one more; it stops at its largest value.
pub open spec fn observed_count(count: usize) -> usize {
    if count < usize::MAX {
        (count + 1) as usize
    } else {
        count
    }
}

/// Self-observation after one more turn.
pub open spec fn observed(
    m: MetaCognition,
    measured_drift: int,
    measured_res: int,
    state: Seq<char>,
    sync_corrections: int,
) -> MetaCognition {
    let count = observed_count(m.observation_count);
    let confidence = confidence_of(measured_drift, measured_res);
    MetaCognition {
        self_drift: self_drift_of(sync_corrections) as i64,
        self_resonance: self_resonance_of(measured_res, state) as i64,
        confidence: confidence as i64,
        clarity: unit(confidence + observation_bonus(count as int)) as i64,
        doubt: doubt_of(confidence) as i64,
        observation_count: count,
    }
}

/// The name of the state that the system sees itself in.
pub open spec fn self_state(m: MetaCognition) -> Seq<char> {
    if m.clarity > 700_000 && m.self_drift < 300_000 {
        "Clear & Stable"@
    } else if m.doubt > 600_000 && m.confidence < 400_000 {
        "Uncertain"@
    } else if m.self_drift > 500_000 {
        "Self-Adjusting"@
    } else {
        "Observing"@
    }
}

/// The self-assessment as text.
pub open spec fn assessment(m: MetaCognition) -> Seq<char> {
    "self_state="@ + self_state(m) + " conf="@ + render_places(m.confidence as int, 2)
        + " clarity="@ + render_places(m.clarity as int, 2) + " doubt="@ + render_places(
        m.doubt as int,
        2,
    )
}

impl MetaCognition {
    /// Self-observation before the first turn.
    pub fn new() -> (m: MetaCognition)
        ensures
            m == (MetaCognition {
                self_drift: 0,
                self_resonance: ONE,
                confidence: 500_000,
                clarity: 500_000,
                doubt: 500_000,
                observation_count: 0,
            }),
    {
        MetaCognition {
            self_drift: 0,
            self_resonance: ONE,
            confidence: 500_000,
            clarity: 500_000,
            doubt: 500_000,
            observation_count: 0,
        }
    }

    /// Takes in what one turn measured, the stabilizer's state by name, and
    /// the size of the sync corrections.
    pub fn observe(
        &mut self,
        measured_drift: i64,
        measured_res: i64,
        stabilizer_state: &str,
        sync_corrections: i64,
    )
        ensures
            *final(self) == observed(
                *old(self),
                measured_drift as int,
                measured_res as int,
                stabilizer_state@,
                sync_corrections as int,
            ),
            0 <= final(self).self_drift <= ONE,
            0 <= final(self).confidence <= ONE,
            0 <= final(self).clarity <= ONE,
            100_000 <= final(self).doubt <= ONE,
    {
        if self.observation_count < usize::MAX {
            self.observation_count += 1;
        }
        let size: i128 = if sync_corrections < 0 {
            -(sync_corrections as i128)
        } else {
            sync_corrections as i128
        };
        self.self_drift = clamp_wide(size * 5, 0, ONE);
        let state = chars_of(stabilizer_state);
        let res: i128 = measured_res as i128;
        self.self_resonance = if same_text(state.as_slice(), "Normal") {
            clamp_wide(res + 100_000, 0, ONE)
        } else if same_text(state.as_slice(), "Warming") {
            clamp_wide(res, 0, ONE)
        } else if same_text(state.as_slice(), "Overheat") {
            clamp_wide(res - 200_000, 0, ONE)
        } else if same_text(state.as_slice(), "Cooldown") {
            clamp_wide(res - 100_000, 0, ONE)
        } else {
            measured_res
        };
        let spare: i128 = ONE as i128 - measured_drift as i128;
        assert(-0x8000_0000_000F_4240 * 0x8000_0000_0000_0000 <= spare * res
            <= 0x8000_0000_000F_4240 * 0x8000_0000_0000_0000) by (nonlinear_arith)
            requires
                -0x8000_0000_000F_4240 <= spare <= 0x8000_0000_000F_4240,
                -0x8000_0000_0000_0000 <= res <= 0x8000_0000_0000_0000,
        ;
        self.confidence = clamp_wide(div_round(spare * res, ONE as i128), 0, ONE);
        let bonus: i64 = if self.observation_count >= 6 {
            300_000
        } else {
            (self.observation_count as i64) * 50_000
        };
        self.clarity = clamp(self.confidence + bonus, 0, ONE);
        let d: i64 = clamp(ONE - self.confidence, 0, ONE);
        self.doubt = if d < 100_000 {
            100_000
        } else {
            d
        };
    }

    /// Whether the system should say that it is unsure: doubt over 0.6 and
    /// confidence under 0.4.
    pub fn should_express_doubt(&self) -> (b: bool)
        ensures
            b == (self.doubt > 600_000 && self.confidence < 400_000),
    {
        self.doubt > 600_000 && self.confidence < 400_000
    }

    /// Whether the system is clear and stable: clarity over 0.7 and
    /// self-drift under 0.3.
    pub fn is_clear_and_stable(&self) -> (b: bool)
        ensures
            b == (self.clarity > 700_000 && self.self_drift < 300_000),
    {
        self.clarity > 700_000 && self.self_drift < 300_000
    }

    /// The self-assessment as text.
    pub fn self_assess(&self) -> (s: String)
        ensures
            s@ == assessment(*self),
    {
        let mut out = String::new();
        push_text(&mut out, "self_state=");
        if self.is_clear_and_stable() {
            push_text(&mut out, "Clear & Stable");
        } else if self.should_express_doubt() {
            push_text(&mut out, "Uncertain");
        } else if self.self_drift > 500_000 {
            push_text(&mut out, "Self-Adjusting");
        } else {
            push_text(&mut out, "Observing");
        }
        push_text(&mut out, " conf=");
        push_places(&mut out, self.confidence, 2);
        push_text(&mut out, " clarity=");
        push_places(&mut out, self.clarity, 2);
        push_text(&mut out, " doubt=");
        push_places(&mut out, self.doubt, 2);
        assert(out@ =~= assessment(*self));
        out
    }
}

impl Default for MetaCognition {
    fn default() -> (m: MetaCognition)
        ensures
            m == (MetaCognition {
                self_drift: 0,
                self_resonance: ONE,
                confidence: 500_000,
                clarity: 500_000,
                doubt: 500_000,
                observation_count: 0,
            }),
    {
        MetaCognition::new()
    }
}

/// One step of a moving average, the smoothing factor read through the unit range.
pub open spec fn smoothed(alpha: int, x: int, ema: int) -> int {
    saturate(round_div(unit(alpha) * x + (ONE - unit(alpha)) * ema, ONE as int))
}

fn smooth(alpha: i64, x: i64, ema: i64) -> (r: i64)
    ensures
        r == smoothed(alpha as int, x as int, ema as int),
{
    let a: i64 = clamp(alpha, 0, ONE);
    let num: i128 = crate::micro::mul_by_fraction(x, a) + crate::micro::mul_by_fraction(
        ema,
        ONE - a,
    );
    proof {
        assert(a * x == x * a) by (nonlinear_arith);
        assert((ONE - a) * ema == ema * (ONE - a)) by (nonlinear_arith);
    }
    clamp_wide(div_round(num, ONE as i128), i64::MIN, i64::MAX)
}

impl MetaStabilizer {
    /// A smoother with the given factor, at rest.
    pub fn new(alpha: i64) -> (s: MetaStabilizer)
        ensures
            s == (MetaStabilizer { ema_self_drift: 0, ema_confidence: 500_000, alpha: alpha }),
    {
        MetaStabilizer { ema_self_drift: 0, ema_confidence: 500_000, alpha }
    }

    /// Takes in one self-observation.
    pub fn update(&mut self, meta: &MetaCognition)
        ensures
            final(self).alpha == old(self).alpha,
            final(self).ema_self_drift == smoothed(
                old(self).alpha as int,
                meta.self_drift as int,
                old(self).ema_self_drift as int,
            ),
            final(self).ema_confidence == smoothed(
                old(self).alpha as int,
                meta.confidence as int,
                old(self).ema_confidence as int,
            ),
    {
        self.ema_self_drift = smooth(self.alpha, meta.self_drift, self.ema_self_drift);
        self.ema_confidence = smooth(self.alpha, meta.confidence, self.ema_confidence);
    }

    /// The smoothed self-drift and confidence.
    pub fn get_stable_metrics(&self) -> (r: (i64, i64))
        ensures
            r == (self.ema_self_drift, self.ema_confidence),
    {
        (self.ema_self_drift, self.ema_confidence)
    }

    /// Whether more self-observation is called for: smoothed self-drift
    /// over 0.4 or smoothed confidence under 0.5.
    pub fn needs_more_awareness(&self) -> (b: bool)
        ensures
            b == (self.ema_self_drift > 400_000 || self.ema_confidence < 500_000),
    {
        self.ema_self_drift > 400_000 || self.ema_confidence < 500_000
    }
}

} // verus!
