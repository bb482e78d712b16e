//! Residual-feedback controller: a bounded fast correction on every turn and
//! a slow mean-residual increment at the end of a run.

use crate::micro::{
    add_saturating, clamp_int, clamp_wide, div_round, mul_by_fraction, mul_wide, round_div,
    saturate, ONE,
};
use crate::stabilizer::EmoState;
use vstd::prelude::*;

verus! {

/// Regulation targets, in millionths.
#[derive(Clone, Copy, Debug)]
pub struct Baselines {
    pub drift: i64,
    pub res: i64,
}

/// One-shot biases applied on the first turn of a run.
#[derive(Clone, Copy, Debug)]
pub struct Seeds {
    pub pace_bias: i64,
    pub pause_bias_ms: i64,
    pub res_warm: i64,
    pub drift_soft: i64,
}

/// Signed gap between a sample and the baselines, each part within -1 and 1.
#[derive(Clone, Copy, Debug)]
pub struct Residual {
    pub d_drift: i64,
    pub d_res: i64,
}

/// Learning rates and the per-step bound, in millionths.
pub struct SyncCfg {
    pub lr_fast: i64,
    pub lr_slow: i64,
    pub clamp_step: i64,
}

/// Controller state of one run.
pub struct SyncState {
    pub baselines: Baselines,
    pub seeds: Seeds,
    pub accum_drift: i64,
    pub accum_res: i64,
    pub steps: usize,
}

/// Extra pace reduction while overheated: 0.01.
pub const OVERHEAT_PACE: i64 = 10_000;

/// Extra pause while overheated, in milliseconds.
pub const OVERHEAT_PAUSE_MS: i64 = 10;

/// Bound of a slow increment: 0.03.
pub const SLOW_BOUND: i64 = 30_000;

/// Weight of the resonance boost and of the drift relief: 0.05.
pub const RELIEF_WEIGHT: i64 = 50_000;

impl Default for Seeds {
    fn default() -> (s: Seeds)
        ensures
            s == (Seeds { pace_bias: 0, pause_bias_ms: 0, res_warm: 0, drift_soft: 0 }),
    {
        Seeds { pace_bias: 0, pause_bias_ms: 0, res_warm: 0, drift_soft: 0 }
    }
}

impl Default for Residual {
    fn default() -> (r: Residual)
        ensures
            r == (Residual { d_drift: 0, d_res: 0 }),
    {
        Residual { d_drift: 0, d_res: 0 }
    }
}

impl Default for SyncState {
    fn default() -> (s: SyncState)
        ensures
            s == (SyncState {
                baselines: Baselines { drift: 0, res: 0 },
                seeds: Seeds { pace_bias: 0, pause_bias_ms: 0, res_warm: 0, drift_soft: 0 },
                accum_drift: 0,
                accum_res: 0,
                steps: 0,
            }),
    {
        SyncState {
            baselines: Baselines { drift: 0, res: 0 },
            seeds: Seeds { pace_bias: 0, pause_bias_ms: 0, res_warm: 0, drift_soft: 0 },
            accum_drift: 0,
            accum_res: 0,
            steps: 0,
        }
    }
}

/// Drift above its baseline, limited to -1..1.
pub open spec fn drift_residual(base: Baselines, drift: int) -> int {
    clamp_int(drift - base.drift, -ONE as int, ONE as int)
}

/// Resonance below its baseline, limited to -1..1.
pub open spec fn res_residual(base: Baselines, res: int) -> int {
    clamp_int(base.res - res, -ONE as int, ONE as int)
}

/// The non-negative part of a value.
pub open spec fn positive_part(v: int) -> int {
    if v > 0 {
        v
    } else {
        0
    }
}

/// The bound of a step: the configured one, or zero where that is negative.
pub open spec fn step_bound(cfg: SyncCfg) -> int {
    if cfg.clamp_step < 0 {
        0
    } else {
        cfg.clamp_step as int
    }
}

/// Pace correction before the overheat penalty.
pub open spec fn fast_pace(cfg: SyncCfg, d_drift: int) -> int {
    clamp_int(
        round_div(-cfg.lr_fast * d_drift, ONE as int),
        -step_bound(cfg),
        step_bound(cfg),
    )
}

/// Pause correction in milliseconds before the overheat penalty.
pub open spec fn fast_pause(cfg: SyncCfg, d_res: int) -> int {
    clamp_int(round_div(cfg.lr_fast * d_res * 80, ONE * ONE), -20, 40)
}

/// Boost or relief that answers a one-sided residual.
pub open spec fn fast_relief(cfg: SyncCfg, residual: int) -> int {
    clamp_int(
        round_div(cfg.lr_fast * positive_part(residual) * RELIEF_WEIGHT, ONE * ONE),
        0,
        step_bound(cfg),
    )
}

/// The four corrections of one step: pace, pause, resonance boost, drift relief.
pub open spec fn correction(cfg: SyncCfg, d_drift: int, d_res: int, state: EmoState) -> (
    int,
    int,
    int,
    int,
) {
    let hot = state == EmoState::Overheat;
    (
        if hot {
            saturate(fast_pace(cfg, d_drift) - OVERHEAT_PACE)
        } else {
            fast_pace(cfg, d_drift)
        },
        if hot {
            fast_pause(cfg, d_res) + OVERHEAT_PAUSE_MS
        } else {
            fast_pause(cfg, d_res)
        },
        fast_relief(cfg, d_res),
        fast_relief(cfg, -d_drift),
    )
}

/// Slow increment from an accumulated residual: the mean over `steps`, times
/// `lr_slow`, within the slow bound. `sign` is -1 for drift and 1 for resonance.
pub open spec fn slow_increment(accum: int, steps: int, lr_slow: int, sign: int) -> int {
    if steps == 0 {
        0
    } else {
        clamp_int(
            round_div(sign * accum * lr_slow, steps * ONE),
            -SLOW_BOUND as int,
            SLOW_BOUND as int,
        )
    }
}

/// The step counter after one more step; it stops at the largest value it can hold.
pub open spec fn steps_after(steps: usize) -> usize {
    if steps < usize::MAX {
        (steps + 1) as usize
    } else {
        steps
    }
}

impl SyncState {
    /// Starts a run: installs seeds and baselines, clears accumulators and step count.
    pub fn warm_start(&mut self, seeds: Seeds, base: Baselines)
        ensures
            *final(self) == (SyncState {
                baselines: base,
                seeds: seeds,
                accum_drift: 0,
                accum_res: 0,
                steps: 0,
            }),
    {
        self.seeds = seeds;
        self.baselines = base;
        self.accum_drift = 0;
        self.accum_res = 0;
        self.steps = 0;
    }

    /// One turn: accumulates the residuals of the sample and returns the
    /// corrections for pace, pause (ms), resonance and drift.
    pub fn step(&mut self, drift: i64, res: i64, state: EmoState, cfg: &SyncCfg) -> (out: (
        i64,
        i64,
        i64,
        i64,
    ))
        ensures
            final(self).baselines == old(self).baselines,
            final(self).seeds == old(self).seeds,
            final(self).accum_drift == saturate(
                old(self).accum_drift + drift_residual(old(self).baselines, drift as int),
            ),
            final(self).accum_res == saturate(
                old(self).accum_res + res_residual(old(self).baselines, res as int),
            ),
            final(self).steps == steps_after(old(self).steps),
            (out.0 as int, out.1 as int, out.2 as int, out.3 as int) == correction(
                *cfg,
                drift_residual(old(self).baselines, drift as int),
                res_residual(old(self).baselines, res as int),
                state,
            ),
            state != EmoState::Overheat ==> -step_bound(*cfg) <= out.0 <= step_bound(*cfg) && -20
                <= out.1 <= 40,
            state == EmoState::Overheat ==> out.0 <= step_bound(*cfg) - OVERHEAT_PACE && -10
                <= out.1 <= 50,
            0 <= out.2 <= step_bound(*cfg),
            0 <= out.3 <= step_bound(*cfg),
    {
        let r = Residual {
            d_drift: clamp_wide(drift as i128 - self.baselines.drift as i128, -ONE, ONE),
            d_res: clamp_wide(self.baselines.res as i128 - res as i128, -ONE, ONE),
        };
        self.accum_drift = add_saturating(self.accum_drift, r.d_drift);
        self.accum_res = add_saturating(self.accum_res, r.d_res);
        if self.steps < usize::MAX {
            self.steps += 1;
        }
        let c: i64 = if cfg.clamp_step < 0 {
            0
        } else {
            cfg.clamp_step
        };
        let lift: i64 = if r.d_res > 0 {
            r.d_res
        } else {
            0
        };
        let ease: i64 = if r.d_drift < 0 {
            -r.d_drift
        } else {
            0
        };
        let unit_sq: i128 = ONE as i128 * ONE as i128;
        proof {
            assert(-cfg.lr_fast * r.d_drift == -(cfg.lr_fast * r.d_drift)) by (nonlinear_arith);
        }
        let mut pace: i64 = clamp_wide(
            div_round(-mul_by_fraction(cfg.lr_fast, r.d_drift), ONE as i128),
            -c,
            c,
        );
        let mut pause: i64 = clamp_wide(
            div_round(mul_by_fraction(cfg.lr_fast, r.d_res) * 80, unit_sq),
            -20,
            40,
        );
        let res_boost: i64 = clamp_wide(
            div_round(mul_by_fraction(cfg.lr_fast, lift) * RELIEF_WEIGHT as i128, unit_sq),
            0,
            c,
        );
        let drift_relief: i64 = clamp_wide(
            div_round(mul_by_fraction(cfg.lr_fast, ease) * RELIEF_WEIGHT as i128, unit_sq),
            0,
            c,
        );
        if state == EmoState::Overheat {
            pace = add_saturating(pace, -OVERHEAT_PACE);
            pause = pause + OVERHEAT_PAUSE_MS;
        }
        (pace, pause, res_boost, drift_relief)
    }

    /// The slow increments of the run so far, for drift and for resonance:
    /// both zero before the first step, both within the slow bound always.
    pub fn to_slow_increments(&self, cfg: &SyncCfg) -> (out: (i64, i64))
        ensures
            out.0 == slow_increment(
                self.accum_drift as int,
                self.steps as int,
                cfg.lr_slow as int,
                -1,
            ),
            out.1 == slow_increment(self.accum_res as int, self.steps as int, cfg.lr_slow as int, 1),
            -SLOW_BOUND <= out.0 <= SLOW_BOUND,
            -SLOW_BOUND <= out.1 <= SLOW_BOUND,
            self.steps == 0 ==> out.0 == 0 && out.1 == 0,
    {
        if self.steps == 0 {
            return (0, 0);
        }
        let den: i128 = self.steps as i128 * 1_000_000;
        assert(den == self.steps * ONE);
        let pd: i128 = mul_wide(self.accum_drift, cfg.lr_slow);
        let pr: i128 = mul_wide(self.accum_res, cfg.lr_slow);
        proof {
            assert(-1 * self.accum_drift * cfg.lr_slow == -(self.accum_drift * cfg.lr_slow))
                by (nonlinear_arith);
            assert(1 * self.accum_res * cfg.lr_slow == self.accum_res * cfg.lr_slow)
                by (nonlinear_arith);
        }
        let drift_bias: i64 = clamp_wide(div_round(-pd, den), -SLOW_BOUND, SLOW_BOUND);
        let res_bias: i64 = clamp_wide(div_round(pr, den), -SLOW_BOUND, SLOW_BOUND);
        (drift_bias, res_bias)
    }
}

/// The mean of two values in millionths, a half rounding away from zero.
pub open spec fn mean_of(a: int, b: int) -> int {
    round_div(a + b, 2)
}

/// Seeds for a run: the device's pace and pause biases as they are, and for
/// resonance and drift the mean of the emotive and the topic-memory seed.
pub fn merge_seeds(
    emote_res: i64,
    emote_drift: i64,
    dev_pace: i64,
    dev_pause: i64,
    astro_res: i64,
    astro_drift: i64,
) -> (s: Seeds)
    ensures
        s == (Seeds {
            pace_bias: dev_pace,
            pause_bias_ms: dev_pause,
            res_warm: mean_of(emote_res as int, astro_res as int) as i64,
            drift_soft: mean_of(emote_drift as int, astro_drift as int) as i64,
        }),
        i64::MIN <= mean_of(emote_res as int, astro_res as int) <= i64::MAX,
        i64::MIN <= mean_of(emote_drift as int, astro_drift as int) <= i64::MAX,
{
    let rs: i128 = emote_res as i128 + astro_res as i128;
    let ds: i128 = emote_drift as i128 + astro_drift as i128;
    let res_warm: i128 = div_round(rs, 2);
    let drift_soft: i128 = div_round(ds, 2);
    Seeds {
        pace_bias: dev_pace,
        pause_bias_ms: dev_pause,
        res_warm: res_warm as i64,
        drift_soft: drift_soft as i64,
    }
}

} // verus!
