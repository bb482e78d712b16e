//! Short-horizon smoothing of drift and resonance, and the four-state
//! temperament machine that is driven by them.

use crate::micro::{clamp, clamp_int, clamp_wide, div_round, round_div, saturate, unit, ONE};
use crate::text::{push_places, push_text, render_places};
use vstd::prelude::*;

verus! {

/// Temperament of the recent signal trend.
#[derive(Debug, Clone, Copy, PartialEq, Eq, Structural)]
pub enum EmoState {
    Normal,
    Warming,
    Overheat,
    Cooldown,
}

/// Configuration of a stabilizer; fractions are in millionths.
#[derive(Debug, Clone, Copy)]
pub struct StabilizerCfg {
    pub win: usize,
    pub ema_alpha: i64,
    pub warm_drift: i64,
    pub hot_drift: i64,
    pub low_res: i64,
    pub cool_steps: usize,
    pub calm_boost: i64,
}

/// Largest calm boost a configuration may hold: 0.2.
pub const CALM_BOOST_MAX: i64 = 200_000;

impl StabilizerCfg {
    /// Every field lies in its domain.
    pub open spec fn valid(self) -> bool {
        &&& self.win >= 1
        &&& 0 <= self.ema_alpha <= ONE
        &&& 0 <= self.warm_drift <= ONE
        &&& 0 <= self.hot_drift <= ONE
        &&& 0 <= self.low_res <= ONE
        &&& self.cool_steps >= 1
        &&& 0 <= self.calm_boost <= CALM_BOOST_MAX
    }

    /// The configuration with every field moved to the nearest value of its domain.
    pub open spec fn sanitized(self) -> StabilizerCfg {
        StabilizerCfg {
            win: if self.win < 1 {
                1
            } else {
                self.win
            },
            ema_alpha: unit(self.ema_alpha as int) as i64,
            warm_drift: unit(self.warm_drift as int) as i64,
            hot_drift: unit(self.hot_drift as int) as i64,
            low_res: unit(self.low_res as int) as i64,
            cool_steps: if self.cool_steps < 1 {
                1
            } else {
                self.cool_steps
            },
            calm_boost: clamp_int(self.calm_boost as int, 0, CALM_BOOST_MAX as int) as i64,
        }
    }

    /// The value at which the in-state step counter stops growing.
    pub open spec fn step_cap(self) -> int {
        if 2 * self.cool_steps > usize::MAX {
            usize::MAX as int
        } else {
            2 * self.cool_steps
        }
    }

    /// A sample this hot, with resonance this low, means overheating.
    pub open spec fn is_hot(self, drift: int, res: int) -> bool {
        drift >= self.hot_drift && res <= self.low_res
    }

    /// A sample with this drift is at least warming.
    pub open spec fn is_warm(self, drift: int) -> bool {
        drift >= self.warm_drift
    }

    /// A sample that is neither hot nor warm.
    pub open spec fn is_calm(self, drift: int, res: int) -> bool {
        !self.is_hot(drift, res) && !self.is_warm(drift)
    }
}

/// Pacing advice; `pace_delta` and `articulation_hint` are in millionths.
#[derive(Debug, Clone, Copy, PartialEq, Eq, Structural)]
pub struct Advice {
    pub pace_delta: i64,
    pub pause_delta_ms: i64,
    pub articulation_hint: i64,
}

/// What the temperament machine keeps between samples.
pub struct Temper {
    pub state: EmoState,
    pub steps: int,
    pub ema_drift: int,
    pub ema_res: int,
    pub seeded: bool,
}

/// One step of the moving average `alpha * x + (1 - alpha) * ema`, kept in the unit range.
pub open spec fn ema_next(alpha: int, x: int, ema: int) -> int {
    unit(round_div(alpha * x + (ONE - alpha) * ema, ONE as int))
}

/// The state that follows `state`, held for `steps` samples, on a sample that
/// is already in the unit range.
pub open spec fn next_state(
    cfg: StabilizerCfg,
    state: EmoState,
    steps: int,
    drift: int,
    res: int,
) -> EmoState {
    if cfg.is_hot(drift, res) {
        EmoState::Overheat
    } else if cfg.is_warm(drift) {
        EmoState::Warming
    } else {
        match state {
            EmoState::Overheat => if steps + 1 < cfg.cool_steps {
                EmoState::Cooldown
            } else {
                EmoState::Normal
            },
            EmoState::Cooldown => if steps + 1 >= cfg.cool_steps {
                EmoState::Normal
            } else {
                EmoState::Cooldown
            },
            _ => EmoState::Normal,
        }
    }
}

/// The in-state step counter after moving from `state` to `next`.
pub open spec fn next_steps(cfg: StabilizerCfg, state: EmoState, steps: int, next: EmoState) -> int {
    if next != state {
        0
    } else if steps + 1 < cfg.step_cap() {
        steps + 1
    } else {
        cfg.step_cap()
    }
}

/// The machine after one raw sample.
pub open spec fn pushed(cfg: StabilizerCfg, t: Temper, drift: int, res: int) -> Temper {
    let d = unit(drift);
    let r = unit(res);
    let next = next_state(cfg, t.state, t.steps, d, r);
    Temper {
        state: next,
        steps: next_steps(cfg, t.state, t.steps, next),
        ema_drift: if t.seeded {
            ema_next(cfg.ema_alpha as int, d, t.ema_drift)
        } else {
            d
        },
        ema_res: if t.seeded {
            ema_next(cfg.ema_alpha as int, r, t.ema_res)
        } else {
            r
        },
        seeded: true,
    }
}

/// The machine after a sequence of raw samples, first to last.
pub open spec fn run(cfg: StabilizerCfg, t: Temper, samples: Seq<(int, int)>) -> Temper
    decreases samples.len(),
{
    if samples.len() == 0 {
        t
    } else {
        pushed(cfg, run(cfg, t, samples.drop_last()), samples.last().0, samples.last().1)
    }
}

/// How hot a state is: calm states 0, warming 1, overheat 2.
pub open spec fn heat(state: EmoState) -> int {
    match state {
        EmoState::Normal => 0,
        EmoState::Cooldown => 0,
        EmoState::Warming => 1,
        EmoState::Overheat => 2,
    }
}

/// The advice that belongs to a state under a given calm boost.
pub open spec fn advice_for(state: EmoState, calm_boost: int) -> Advice {
    match state {
        EmoState::Normal => Advice { pace_delta: 0, pause_delta_ms: 0, articulation_hint: 0 },
        EmoState::Warming => Advice {
            pace_delta: -30_000i64,
            pause_delta_ms: 10,
            articulation_hint: 20_000,
        },
        EmoState::Overheat => Advice {
            pace_delta: saturate(-70_000 - calm_boost) as i64,
            pause_delta_ms: (30 + round_div(calm_boost * 100, ONE as int)) as i64,
            articulation_hint: 50_000,
        },
        EmoState::Cooldown => Advice {
            pace_delta: -40_000i64,
            pause_delta_ms: 20,
            articulation_hint: 30_000,
        },
    }
}

/// Fixed-capacity circular record of the last samples.
#[derive(Debug)]
pub struct Window {
    drift: Vec<i64>,
    res: Vec<i64>,
    at: usize,
}

impl Window {
    #[verifier::type_invariant]
    spec fn shape(&self) -> bool {
        self.drift.len() == self.res.len() && self.at < self.drift.len()
    }

    /// The recorded drift samples, by slot.
    pub closed spec fn drift_slots(&self) -> Seq<i64> {
        self.drift@
    }

    /// The recorded resonance samples, by slot.
    pub closed spec fn res_slots(&self) -> Seq<i64> {
        self.res@
    }

    /// The slot that the next sample goes to.
    pub closed spec fn cursor(&self) -> int {
        self.at as int
    }

    /// A window of `capacity` zeroed slots.
    pub fn new(capacity: usize) -> (w: Window)
        requires
            capacity >= 1,
        ensures
            w.drift_slots() == Seq::new(capacity as nat, |i: int| 0i64),
            w.res_slots() == Seq::new(capacity as nat, |i: int| 0i64),
            w.cursor() == 0,
    {
        let mut drift: Vec<i64> = Vec::new();
        let mut res: Vec<i64> = Vec::new();
        let mut i: usize = 0;
        while i < capacity
            invariant
                i <= capacity,
                drift@ == Seq::new(i as nat, |k: int| 0i64),
                res@ == Seq::new(i as nat, |k: int| 0i64),
            decreases capacity - i,
        {
            drift.push(0);
            res.push(0);
            i += 1;
            assert(drift@ =~= Seq::new(i as nat, |k: int| 0i64));
            assert(res@ =~= Seq::new(i as nat, |k: int| 0i64));
        }
        Window { drift, res, at: 0 }
    }

    /// Number of slots.
    pub fn capacity(&self) -> (n: usize)
        ensures
            n == self.drift_slots().len(),
            n == self.res_slots().len(),
            n >= 1,
            self.cursor() < n,
    {
        proof {
            use_type_invariant(self);
        }
        self.drift.len()
    }

    /// Writes one sample at the cursor and moves the cursor on, wrapping at the end.
    pub fn record(&mut self, drift: i64, res: i64)
        ensures
            0 <= old(self).cursor() < old(self).drift_slots().len(),
            old(self).drift_slots().len() == old(self).res_slots().len(),
            final(self).drift_slots() == old(self).drift_slots().update(old(self).cursor(), drift),
            final(self).res_slots() == old(self).res_slots().update(old(self).cursor(), res),
            final(self).cursor() == (old(self).cursor() + 1) % (old(self).drift_slots().len() as int),
    {
        proof {
            use_type_invariant(&*self);
        }
        let n: usize = self.drift.len();
        let i: usize = self.at;
        self.drift[i] = drift;
        self.res[i] = res;
        proof {
            if i + 1 == n {
                vstd::arithmetic::div_mod::lemma_mod_self_0(n as int);
            } else {
                vstd::arithmetic::div_mod::lemma_small_mod((i + 1) as nat, n as nat);
            }
        }
        self.at = if i + 1 == n {
            0
        } else {
            i + 1
        };
    }
}

impl Clone for Window {
    fn clone(&self) -> (w: Window)
        ensures
            w.drift_slots() == self.drift_slots(),
            w.res_slots() == self.res_slots(),
            w.cursor() == self.cursor(),
    {
        proof {
            use_type_invariant(self);
        }
        Window { drift: self.drift.clone(), res: self.res.clone(), at: self.at }
    }
}

/// Ring buffer, moving averages and temperament of one run.
#[derive(Debug, Clone)]
pub struct Stabilizer {
    pub cfg: StabilizerCfg,
    pub state: EmoState,
    pub steps_in_state: usize,
    pub ema_drift: i64,
    pub ema_res: i64,
    pub window: Window,
    pub initialized: bool,
}

/// One exact step of the moving average.
fn blend(alpha: i64, x: i64, ema: i64) -> (r: i64)
    requires
        0 <= x <= ONE,
    ensures
        r == ema_next(alpha as int, x as int, ema as int),
        0 <= r <= ONE,
{
    let a: i128 = alpha as i128;
    let keep: i128 = ONE as i128 - a;
    assert(-0x8000_0000_0000_0000 * 1_000_000 <= a * (x as i128) <= 0x8000_0000_0000_0000
        * 1_000_000) by (nonlinear_arith)
        requires
            -0x8000_0000_0000_0000 <= a <= 0x8000_0000_0000_0000,
            0 <= x <= 1_000_000,
    ;
    assert(-0x8000_0000_000F_4240 * 0x8000_0000_0000_0000 <= keep * (ema as i128)
        <= 0x8000_0000_000F_4240 * 0x8000_0000_0000_0000) by (nonlinear_arith)
        requires
            -0x8000_0000_000F_4240 <= keep <= 0x8000_0000_000F_4240,
            -0x8000_0000_0000_0000 <= ema <= 0x8000_0000_0000_0000,
    ;
    let num: i128 = a * (x as i128) + keep * (ema as i128);
    clamp_wide(div_round(num, ONE as i128), 0, ONE)
}

impl Stabilizer {
    /// The temperament machine's part of the stabilizer.
    pub open spec fn temper(&self) -> Temper {
        Temper {
            state: self.state,
            steps: self.steps_in_state as int,
            ema_drift: self.ema_drift as int,
            ema_res: self.ema_res as int,
            seeded: self.initialized,
        }
    }

    /// A stabilizer at rest, its configuration moved into the valid domain.
    pub fn new(cfg: StabilizerCfg) -> (s: Stabilizer)
        ensures
            s.cfg == cfg.sanitized(),
            s.cfg.valid(),
            s.state == EmoState::Normal,
            s.steps_in_state == 0,
            s.ema_drift == 0,
            s.ema_res == 0,
            !s.initialized,
            s.temper() == (Temper {
                state: EmoState::Normal,
                steps: 0,
                ema_drift: 0,
                ema_res: 0,
                seeded: false,
            }),
            s.window.drift_slots() == Seq::new(s.cfg.win as nat, |i: int| 0i64),
            s.window.res_slots() == Seq::new(s.cfg.win as nat, |i: int| 0i64),
            s.window.cursor() == 0,
    {
        let clean = StabilizerCfg {
            win: if cfg.win < 1 {
                1
            } else {
                cfg.win
            },
            ema_alpha: clamp(cfg.ema_alpha, 0, ONE),
            warm_drift: clamp(cfg.warm_drift, 0, ONE),
            hot_drift: clamp(cfg.hot_drift, 0, ONE),
            low_res: clamp(cfg.low_res, 0, ONE),
            cool_steps: if cfg.cool_steps < 1 {
                1
            } else {
                cfg.cool_steps
            },
            calm_boost: clamp(cfg.calm_boost, 0, CALM_BOOST_MAX),
        };
        Stabilizer {
            window: Window::new(clean.win),
            initialized: false,
            cfg: clean,
            state: EmoState::Normal,
            steps_in_state: 0,
            ema_drift: 0,
            ema_res: 0,
        }
    }

    /// Takes one raw sample: records it, updates both moving averages and
    /// moves the temperament machine.
    pub fn push(&mut self, drift: i64, res: i64)
        ensures
            final(self).cfg == old(self).cfg,
            final(self).temper() == pushed(
                old(self).cfg,
                old(self).temper(),
                drift as int,
                res as int,
            ),
            final(self).initialized,
            0 <= final(self).ema_drift <= ONE,
            0 <= final(self).ema_res <= ONE,
            final(self).window.drift_slots() == old(self).window.drift_slots().update(
                old(self).window.cursor(),
                unit(drift as int) as i64,
            ),
            final(self).window.res_slots() == old(self).window.res_slots().update(
                old(self).window.cursor(),
                unit(res as int) as i64,
            ),
            final(self).window.cursor() == (old(self).window.cursor() + 1) % (
            old(self).window.drift_slots().len() as int),
    {
        let d: i64 = clamp(drift, 0, ONE);
        let r: i64 = clamp(res, 0, ONE);
        self.window.record(d, r);
        if !self.initialized {
            self.ema_drift = d;
            self.ema_res = r;
            self.initialized = true;
        } else {
            self.ema_drift = blend(self.cfg.ema_alpha, d, self.ema_drift);
            self.ema_res = blend(self.cfg.ema_alpha, r, self.ema_res);
        }
        let cool: usize = self.cfg.cool_steps;
        let steps: usize = self.steps_in_state;
        let still_cooling: bool = steps < usize::MAX && steps + 1 < cool;
        let next: EmoState = if d >= self.cfg.hot_drift && r <= self.cfg.low_res {
            EmoState::Overheat
        } else if d >= self.cfg.warm_drift {
            EmoState::Warming
        } else {
            match self.state {
                EmoState::Overheat | EmoState::Cooldown => if still_cooling {
                    EmoState::Cooldown
                } else {
                    EmoState::Normal
                },
                _ => EmoState::Normal,
            }
        };
        if next != self.state {
            self.state = next;
            self.steps_in_state = 0;
        } else {
            let cap: usize = if cool > usize::MAX / 2 {
                usize::MAX
            } else {
                2 * cool
            };
            self.steps_in_state = if steps < cap {
                steps + 1
            } else {
                cap
            };
        }
    }

    /// The correction that belongs to the current state.
    pub fn advice(&self) -> (a: Advice)
        ensures
            a == advice_for(self.state, self.cfg.calm_boost as int),
            self.cfg.valid() && self.state == EmoState::Overheat ==> a.pace_delta == -70_000
                - self.cfg.calm_boost,
    {
        match self.state {
            EmoState::Normal => Advice { pace_delta: 0, pause_delta_ms: 0, articulation_hint: 0 },
            EmoState::Warming => Advice {
                pace_delta: -30_000,
                pause_delta_ms: 10,
                articulation_hint: 20_000,
            },
            EmoState::Overheat => {
                let boost: i128 = self.cfg.calm_boost as i128;
                let extra: i128 = div_round(boost * 100, ONE as i128);
                Advice {
                    pace_delta: clamp_wide(-70_000 - boost, i64::MIN, i64::MAX),
                    pause_delta_ms: (30 + extra) as i64,
                    articulation_hint: 50_000,
                }
            },
            EmoState::Cooldown => Advice {
                pace_delta: -40_000,
                pause_delta_ms: 20,
                articulation_hint: 30_000,
            },
        }
    }
}

/// The name of a state.
pub open spec fn state_name(state: EmoState) -> Seq<char> {
    match state {
        EmoState::Normal => "Normal"@,
        EmoState::Warming => "Warming"@,
        EmoState::Overheat => "Overheat"@,
        EmoState::Cooldown => "Cooldown"@,
    }
}

/// The name of a state, as the logs show it.
pub fn state_label(state: EmoState) -> (s: &'static str)
    ensures
        s@ == state_name(state),
{
    match state {
        EmoState::Normal => "Normal",
        EmoState::Warming => "Warming",
        EmoState::Overheat => "Overheat",
        EmoState::Cooldown => "Cooldown",
    }
}

/// The status line of a stabilizer: its state and both moving averages,
/// taken to the unit range and shown with two decimals.
pub open spec fn status_text(state: EmoState, ema_drift: int, ema_res: int) -> Seq<char> {
    "[stabilizer] state="@ + state_name(state) + " ema_drift="@ + render_places(
        unit(ema_drift),
        2,
    ) + " ema_res="@ + render_places(unit(ema_res), 2)
}

/// The status line of a stabilizer.
pub fn format_status(state: EmoState, ema_drift: i64, ema_res: i64) -> (line: String)
    ensures
        line@ == status_text(state, ema_drift as int, ema_res as int),
{
    let mut out = String::new();
    push_text(&mut out, "[stabilizer] state=");
    match state {
        EmoState::Normal => push_text(&mut out, "Normal"),
        EmoState::Warming => push_text(&mut out, "Warming"),
        EmoState::Overheat => push_text(&mut out, "Overheat"),
        EmoState::Cooldown => push_text(&mut out, "Cooldown"),
    }
    push_text(&mut out, " ema_drift=");
    push_places(&mut out, clamp(ema_drift, 0, ONE), 2);
    push_text(&mut out, " ema_res=");
    push_places(&mut out, clamp(ema_res, 0, ONE), 2);
    assert(out@ =~= status_text(state, ema_drift as int, ema_res as int));
    out
}

/// How hot a sample of the unit range is by itself: 2 if it overheats, 1 if
/// it warms, 0 if it is calm.
pub open spec fn sample_heat(cfg: StabilizerCfg, drift: int, res: int) -> int {
    if cfg.is_hot(drift, res) {
        2
    } else if cfg.is_warm(drift) {
        1
    } else {
        0
    }
}

/// Drift never falls and resonance never rises from one sample to a later one.
pub open spec fn rising(samples: Seq<(int, int)>) -> bool {
    forall|i: int, j: int|
        0 <= i <= j < samples.len() ==> samples[i].0 <= samples[j].0 && samples[j].1
            <= samples[i].1
}

/// Every sample is calm: neither hot nor warm.
pub open spec fn all_calm(cfg: StabilizerCfg, samples: Seq<(int, int)>) -> bool {
    forall|i: int|
        0 <= i < samples.len() ==> cfg.is_calm(unit(#[trigger] samples[i].0), unit(samples[i].1))
}

/// A moving average moves towards the sample and not past it: with a
/// smoothing factor, a sample and an average of the unit range, the next
/// average lies between the average and the sample.
pub proof fn lemma_average_moves_towards_sample(alpha: int, x: int, ema: int)
    requires
        0 <= alpha <= ONE,
        0 <= x <= ONE,
        0 <= ema <= ONE,
    ensures
        x <= ema ==> x <= ema_next(alpha, x, ema) <= ema,
        ema <= x ==> ema <= ema_next(alpha, x, ema) <= x,
{
    let n = alpha * x + (ONE - alpha) * ema;
    let lo = if x <= ema {
        x
    } else {
        ema
    };
    let hi = if x <= ema {
        ema
    } else {
        x
    };
    assert(lo * ONE <= n <= hi * ONE) by (nonlinear_arith)
        requires
            n == alpha * x + (ONE - alpha) * ema,
            0 <= alpha <= ONE,
            lo <= x <= hi,
            lo <= ema <= hi,
    ;
    crate::micro::lemma_round_div_exact(lo, ONE as int);
    crate::micro::lemma_round_div_exact(hi, ONE as int);
    crate::micro::lemma_round_div_monotone(lo * ONE, n, ONE as int);
    crate::micro::lemma_round_div_monotone(n, hi * ONE, ONE as int);
}

/// The heat of the state after a sample is the heat of that sample alone.
pub proof fn lemma_heat_follows_sample(cfg: StabilizerCfg, t: Temper, drift: int, res: int)
    ensures
        heat(pushed(cfg, t, drift, res).state) == sample_heat(cfg, unit(drift), unit(res)),
{
}

/// A sample whose drift lies between the warm and the hot threshold puts the
/// machine into `Warming`, whatever state it was in; a sample at or above the
/// hot threshold with resonance at or below the low threshold puts it into
/// `Overheat`.
pub proof fn lemma_thresholds_decide(cfg: StabilizerCfg, t: Temper, drift: int, res: int)
    ensures
        cfg.warm_drift <= unit(drift) < cfg.hot_drift ==> pushed(cfg, t, drift, res).state
            == EmoState::Warming,
        cfg.hot_drift <= unit(drift) && unit(res) <= cfg.low_res ==> pushed(
            cfg,
            t,
            drift,
            res,
        ).state == EmoState::Overheat,
{
}

/// `Warming` is passed over only by a jump: where the state after one
/// sample is calm and the state after the next is `Overheat`, drift went
/// from under the warm threshold to the hot threshold or beyond in that
/// one step.
pub proof fn lemma_warming_is_skipped_only_by_a_jump(
    cfg: StabilizerCfg,
    t: Temper,
    d1: int,
    r1: int,
    d2: int,
    r2: int,
)
    requires
        heat(pushed(cfg, t, d1, r1).state) == 0,
        pushed(cfg, pushed(cfg, t, d1, r1), d2, r2).state == EmoState::Overheat,
    ensures
        unit(d1) < cfg.warm_drift,
        unit(d2) >= cfg.hot_drift,
        unit(r2) <= cfg.low_res,
{
    lemma_heat_follows_sample(cfg, t, d1, r1);
    lemma_heat_follows_sample(cfg, pushed(cfg, t, d1, r1), d2, r2);
}

/// The state that a drift alone calls for while resonance is low: `Normal`
/// under the warm threshold, `Warming` from there, `Overheat` from the hot
/// threshold.
pub open spec fn state_of_drift(cfg: StabilizerCfg, drift: int) -> EmoState {
    if drift >= cfg.hot_drift {
        EmoState::Overheat
    } else if drift >= cfg.warm_drift {
        EmoState::Warming
    } else {
        EmoState::Normal
    }
}

/// Drift never falls from one sample to a later one.
pub open spec fn drift_rises(samples: Seq<(int, int)>) -> bool {
    forall|i: int, j: int| 0 <= i <= j < samples.len() ==> samples[i].0 <= samples[j].0
}

/// The resonance of every sample is at or under the low threshold.
pub open spec fn resonance_stays_low(cfg: StabilizerCfg, samples: Seq<(int, int)>) -> bool {
    forall|i: int| 0 <= i < samples.len() ==> unit((#[trigger] samples[i]).1) <= cfg.low_res
}

/// Rising drift under low resonance, from a machine that is not cooling:
/// where the warm threshold is not over the hot one, the state after each
/// sample is the one that its drift alone calls for. So the machine goes
/// from `Normal` to `Warming` to `Overheat` and never back, `Cooldown`
/// never occurs, and `Overheat` holds from the first drift at the hot
/// threshold on.
pub proof fn lemma_rising_drift_decides_state(
    cfg: StabilizerCfg,
    t: Temper,
    samples: Seq<(int, int)>,
)
    requires
        cfg.warm_drift <= cfg.hot_drift,
        t.state == EmoState::Normal || t.state == EmoState::Warming,
        drift_rises(samples),
        resonance_stays_low(cfg, samples),
        samples.len() >= 1,
    ensures
        run(cfg, t, samples).state == state_of_drift(cfg, unit(samples.last().0)),
        run(cfg, t, samples).state != EmoState::Cooldown,
    decreases samples.len(),
{
    let before = samples.drop_last();
    assert(unit(samples[samples.len() - 1].1) <= cfg.low_res);
    if samples.len() == 1 {
        assert(before.len() == 0);
        assert(run(cfg, t, before) == t);
    } else {
        assert(drift_rises(before)) by {
            assert forall|i: int, j: int| 0 <= i <= j < before.len() implies before[i].0
                <= before[j].0 by {
                assert(before[i] == samples[i]);
                assert(before[j] == samples[j]);
            }
        }
        assert(resonance_stays_low(cfg, before)) by {
            assert forall|i: int| 0 <= i < before.len() implies unit((#[trigger] before[i]).1)
                <= cfg.low_res by {
                assert(before[i] == samples[i]);
            }
        }
        lemma_rising_drift_decides_state(cfg, t, before);
        assert(before.last() == samples[samples.len() - 2]);
        assert(samples[samples.len() - 2].0 <= samples[samples.len() - 1].0);
    }
}

/// While drift keeps rising and resonance does not recover, the temperament
/// moves through Normal, Warming and Overheat in that order only: after any
/// later sample the state is at least as hot as after any earlier one.
pub proof fn lemma_rising_drift_heats_in_order(
    cfg: StabilizerCfg,
    t: Temper,
    samples: Seq<(int, int)>,
    i: int,
    j: int,
)
    requires
        rising(samples),
        1 <= i <= j <= samples.len(),
    ensures
        heat(run(cfg, t, samples.take(i)).state) <= heat(run(cfg, t, samples.take(j)).state),
{
    let a = samples.take(i);
    let b = samples.take(j);
    assert(a.last() == samples[i - 1]);
    assert(b.last() == samples[j - 1]);
    lemma_heat_follows_sample(cfg, run(cfg, t, a.drop_last()), a.last().0, a.last().1);
    lemma_heat_follows_sample(cfg, run(cfg, t, b.drop_last()), b.last().0, b.last().1);
}

/// Leaving `Overheat`: from a freshly entered `Overheat`, calm samples keep
/// the machine in `Cooldown` for `cool_steps` samples and the next one
/// returns it to `Normal`, where it stays. With `cool_steps` of 1 there is
/// no cooldown and the first calm sample returns it to `Normal`.
pub proof fn lemma_cooldown_exit(cfg: StabilizerCfg, t: Temper, samples: Seq<(int, int)>)
    requires
        t.state == EmoState::Overheat,
        t.steps == 0,
        all_calm(cfg, samples),
        samples.len() >= 1,
    ensures
        cfg.cool_steps >= 2 && samples.len() <= cfg.cool_steps ==> run(cfg, t, samples).state
            == EmoState::Cooldown && run(cfg, t, samples).steps == samples.len() - 1,
        cfg.cool_steps >= 2 && samples.len() > cfg.cool_steps ==> run(cfg, t, samples).state
            == EmoState::Normal,
        cfg.cool_steps <= 1 ==> run(cfg, t, samples).state == EmoState::Normal,
    decreases samples.len(),
{
    let before = samples.drop_last();
    let d = unit(samples.last().0);
    let r = unit(samples.last().1);
    assert(cfg.is_calm(d, r));
    if samples.len() == 1 {
        assert(before.len() == 0);
        assert(run(cfg, t, before) == t);
    } else {
        assert(all_calm(cfg, before)) by {
            assert forall|i: int| 0 <= i < before.len() implies cfg.is_calm(
                unit(#[trigger] before[i].0),
                unit(before[i].1),
            ) by {
                assert(before[i] == samples[i]);
            }
        }
        lemma_cooldown_exit(cfg, t, before);
    }
}

} // verus!
