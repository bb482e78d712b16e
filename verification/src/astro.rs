//! Per-topic traces: what one topic has taught, how it fades, and what it advises.

use crate::micro::{clamp, clamp_int, clamp_wide, div_round, round_div, unit, ONE};
use crate::prosody::ToneTag;
use crate::text::{chars_of, find, find_char, trim_of};
use crate::topic::{key_for, topic_key_of};
use crate::utils::{lowercase_of, normalize_text};
use crate::trace_line::{parse_line, read_line, render_line};
use vstd::prelude::*;
use vstd::slice::slice_subrange;

verus! {

/// Smoothing factor of a trace's moving averages: 0.22.
pub const DEFAULT_ALPHA: i64 = 220_000;

/// Stability lost per day without a visit: 0.08.
pub const STABILITY_DECAY_PER_DAY: i64 = 80_000;

/// Stability below which a trace gives no advice: 0.18.
pub const STABILITY_THRESHOLD: i64 = 180_000;

/// Seconds in a day.
pub const DAY_SECS: i64 = 86_400;

/// Longest time that counts towards decay: thirty days, in seconds.
pub const DECAY_CAP_SECS: i64 = 2_592_000;

/// Bound of a long-term sync bias: 0.2.
pub const SYNC_BIAS_BOUND: i64 = 200_000;

/// Visits after which a trace counts as fully familiar.
pub const VISIT_RAMP: u32 = 12;

/// What is remembered of one topic; fractions are in millionths.
#[derive(Debug)]
pub struct AstroTrace {
    pub key: String,
    pub ema_drift: i64,
    pub ema_res: i64,
    pub stability: i64,
    pub visits: u32,
    pub last_ts: i64,
    pub emo_tag: bool,
    pub sync_bias_drift: i64,
    pub sync_bias_res: i64,
    pub sync_stability: i64,
    pub sync_visits: u32,
}

impl Clone for AstroTrace {
    fn clone(&self) -> (t: AstroTrace)
        ensures
            t == *self,
    {
        AstroTrace {
            key: self.key.clone(),
            ema_drift: self.ema_drift,
            ema_res: self.ema_res,
            stability: self.stability,
            visits: self.visits,
            last_ts: self.last_ts,
            emo_tag: self.emo_tag,
            sync_bias_drift: self.sync_bias_drift,
            sync_bias_res: self.sync_bias_res,
            sync_stability: self.sync_stability,
            sync_visits: self.sync_visits,
        }
    }
}

/// A trace as a mathematical value.
pub struct TraceView {
    pub key: Seq<char>,
    pub ema_drift: int,
    pub ema_res: int,
    pub stability: int,
    pub visits: int,
    pub last_ts: int,
    pub emo_tag: bool,
    pub sync_bias_drift: int,
    pub sync_bias_res: int,
    pub sync_stability: int,
    pub sync_visits: int,
}

impl View for AstroTrace {
    type V = TraceView;

    open spec fn view(&self) -> TraceView {
        TraceView {
            key: self.key@,
            ema_drift: self.ema_drift as int,
            ema_res: self.ema_res as int,
            stability: self.stability as int,
            visits: self.visits as int,
            last_ts: self.last_ts as int,
            emo_tag: self.emo_tag,
            sync_bias_drift: self.sync_bias_drift as int,
            sync_bias_res: self.sync_bias_res as int,
            sync_stability: self.sync_stability as int,
            sync_visits: self.sync_visits as int,
        }
    }
}

/// Advice recalled from a trace; all but the pause are in millionths.
#[derive(Debug, Clone, Copy, PartialEq, Eq, Structural)]
pub struct AstroAdvice {
    pub drift_bias: i64,
    pub res_bias: i64,
    pub pace_delta: i64,
    pub pause_delta_ms: i64,
}

impl Default for AstroAdvice {
    fn default() -> (a: AstroAdvice)
        ensures
            a == (AstroAdvice { drift_bias: 0, res_bias: 0, pace_delta: 0, pause_delta_ms: 0 }),
    {
        AstroAdvice { drift_bias: 0, res_bias: 0, pace_delta: 0, pause_delta_ms: 0 }
    }
}

/// What the topic memory did for one session.
#[derive(Debug, Clone, Copy, PartialEq, Eq, Structural)]
pub struct AstroSessionStats {
    pub hits: u32,
    pub boost_res: i64,
    pub bias_drift: i64,
}

impl Default for AstroSessionStats {
    fn default() -> (s: AstroSessionStats)
        ensures
            s == (AstroSessionStats { hits: 0, boost_res: 0, bias_drift: 0 }),
    {
        AstroSessionStats { hits: 0, boost_res: 0, bias_drift: 0 }
    }
}

/// The long-term bias that a topic suggests for the sync controller.
#[derive(Debug, Clone, Copy, PartialEq, Eq, Structural)]
pub struct SyncBias {
    pub drift_bias: i64,
    pub res_bias: i64,
    pub stability: i64,
    pub visits: u32,
}

impl TraceView {
    /// Every field lies in its domain.
    pub open spec fn wf(self) -> bool {
        &&& 0 <= self.ema_drift <= ONE
        &&& 0 <= self.ema_res <= ONE
        &&& 0 <= self.stability <= ONE
        &&& 0 <= self.visits <= u32::MAX
        &&& i64::MIN <= self.last_ts <= i64::MAX
        &&& -SYNC_BIAS_BOUND <= self.sync_bias_drift <= SYNC_BIAS_BOUND
        &&& -SYNC_BIAS_BOUND <= self.sync_bias_res <= SYNC_BIAS_BOUND
        &&& 0 <= self.sync_stability <= ONE
        &&& 0 <= self.sync_visits <= u32::MAX
    }

    /// A trace that has seen nothing yet.
    pub open spec fn fresh(key: Seq<char>, now: int) -> TraceView {
        TraceView {
            key: key,
            ema_drift: 0,
            ema_res: 0,
            stability: 0,
            visits: 0,
            last_ts: now,
            emo_tag: false,
            sync_bias_drift: 0,
            sync_bias_res: 0,
            sync_stability: 0,
            sync_visits: 0,
        }
    }

    /// Stability lost over the time from the last visit to `now`.
    pub open spec fn decay_loss(self, now: int) -> int {
        let elapsed = now - self.last_ts;
        let counted = if elapsed > DECAY_CAP_SECS {
            DECAY_CAP_SECS as int
        } else {
            elapsed
        };
        let loss = round_div(counted * STABILITY_DECAY_PER_DAY, DAY_SECS as int);
        if loss < self.stability {
            loss
        } else {
            self.stability
        }
    }

    /// The trace as it has faded by `now`: unchanged unless time has passed
    /// since the last visit; then stability is reduced, not below zero, and
    /// the emotional tag is dropped once stability is under the threshold.
    pub open spec fn decayed(self, now: int) -> TraceView {
        if now <= self.last_ts {
            self
        } else {
            let left = self.stability - self.decay_loss(now);
            let stability = if left < 0 {
                0
            } else {
                left
            };
            TraceView {
                stability: stability,
                emo_tag: self.emo_tag && stability >= STABILITY_THRESHOLD,
                ..self
            }
        }
    }

    /// How strongly the trace speaks, in millionths of the unit range:
    /// stability weighs 0.7, familiarity 0.2, resonance 0.1, and an
    /// emotional tag adds 0.12.
    pub open spec fn intensity(self) -> int {
        let seen = if self.visits > VISIT_RAMP {
            VISIT_RAMP as int
        } else {
            self.visits
        };
        let blend = round_div(84 * self.stability + 2 * ONE * seen + 12 * self.ema_res, 120);
        unit(
            if self.emo_tag {
                blend + 120_000
            } else {
                blend
            },
        )
    }

    /// The advice of a trace of the given intensity.
    pub open spec fn advice_at(intensity: int) -> AstroAdvice {
        AstroAdvice {
            drift_bias: (-20_000 - round_div(4 * intensity, 100)) as i64,
            res_bias: (20_000 + round_div(4 * intensity, 100)) as i64,
            pace_delta: (-10_000 - round_div(3 * intensity, 100)) as i64,
            pause_delta_ms: (10 + round_div(30 * intensity, ONE as int)) as i64,
        }
    }

    /// Whether the trace, as decayed by `now`, is stable enough to advise.
    pub open spec fn speaks(self, now: int) -> bool {
        self.decayed(now).stability >= STABILITY_THRESHOLD
    }

    /// The trace after a recall at `now`: decayed, and marked as seen at
    /// `now` if it was stable enough to advise.
    pub open spec fn recalled(self, now: int) -> TraceView {
        if self.speaks(now) {
            TraceView { last_ts: now, ..self.decayed(now) }
        } else {
            self.decayed(now)
        }
    }

    /// One step of a trace's moving average with the fixed smoothing factor.
    pub open spec fn smoothed(ema: int, x: int) -> int {
        round_div(DEFAULT_ALPHA * x + (ONE - DEFAULT_ALPHA) * ema, ONE as int)
    }

    /// The visit counter after one more visit; it stops at its largest value.
    pub open spec fn bumped(count: int) -> int {
        if count < u32::MAX {
            count + 1
        } else {
            count
        }
    }

    /// The trace after a visit with the given sample at `now`.
    pub open spec fn consolidated(self, drift: int, res: int, emo_tag: bool, now: int) -> TraceView {
        let visits = Self::bumped(self.visits);
        let ema_drift = unit(
            if visits == 1 {
                drift
            } else {
                Self::smoothed(self.ema_drift, drift)
            },
        );
        let ema_res = unit(
            if visits == 1 {
                res
            } else {
                Self::smoothed(self.ema_res, res)
            },
        );
        let near: int = if -50_000 < ema_res - res < 50_000 {
            10_000
        } else {
            0
        };
        let felt: int = if emo_tag {
            50_000
        } else {
            0
        };
        TraceView {
            visits: visits,
            ema_drift: ema_drift,
            ema_res: ema_res,
            stability: unit(self.stability + 60_000 + near + felt),
            emo_tag: emo_tag || (self.emo_tag && self.stability > STABILITY_THRESHOLD),
            last_ts: now,
            ..self
        }
    }

    /// How well a pair of slow increments agrees with the memory: one minus
    /// half of their combined size, within the unit range.
    pub open spec fn agreement(drift_delta: int, res_delta: int) -> int {
        let size = (if drift_delta < 0 {
            -drift_delta
        } else {
            drift_delta
        }) + (if res_delta < 0 {
            -res_delta
        } else {
            res_delta
        });
        unit(ONE - round_div(size, 2))
    }

    /// The trace after a pair of slow increments, not both zero, is folded in.
    pub open spec fn folded(self, drift_delta: int, res_delta: int) -> TraceView {
        let n = Self::bumped(self.sync_visits);
        let score = Self::agreement(drift_delta, res_delta);
        TraceView {
            sync_visits: n,
            sync_bias_drift: clamp_int(
                self.sync_bias_drift + drift_delta,
                -SYNC_BIAS_BOUND as int,
                SYNC_BIAS_BOUND as int,
            ),
            sync_bias_res: clamp_int(
                self.sync_bias_res + res_delta,
                -SYNC_BIAS_BOUND as int,
                SYNC_BIAS_BOUND as int,
            ),
            sync_stability: if n == 1 {
                score
            } else {
                unit(round_div(self.sync_stability * (n - 1) + score, n))
            },
            ..self
        }
    }

    /// The sync bias that the trace suggests, if any increments were ever folded in.
    pub open spec fn suggestion(self) -> Option<SyncBias> {
        if self.sync_visits == 0 {
            None
        } else {
            Some(
                SyncBias {
                    drift_bias: clamp_int(
                        self.sync_bias_drift,
                        -SYNC_BIAS_BOUND as int,
                        SYNC_BIAS_BOUND as int,
                    ) as i64,
                    res_bias: clamp_int(
                        self.sync_bias_res,
                        -SYNC_BIAS_BOUND as int,
                        SYNC_BIAS_BOUND as int,
                    ) as i64,
                    stability: self.sync_stability as i64,
                    visits: self.sync_visits as u32,
                },
            )
        }
    }
}

fn bump(count: u32) -> (r: u32)
    ensures
        r == TraceView::bumped(count as int),
{
    if count < u32::MAX {
        count + 1
    } else {
        count
    }
}

fn smooth(ema: i64, x: i64) -> (r: i64)
    ensures
        r == unit(TraceView::smoothed(ema as int, x as int)),
{
    let num: i128 = 220_000 * (x as i128) + 780_000 * (ema as i128);
    clamp_wide(div_round(num, ONE as i128), 0, ONE)
}

impl AstroTrace {
    /// A trace for `key` that has seen nothing yet.
    pub fn new(key: String, now: i64) -> (t: AstroTrace)
        ensures
            t@ == TraceView::fresh(key@, now as int),
            t.key == key,
    {
        AstroTrace {
            key,
            ema_drift: 0,
            ema_res: 0,
            stability: 0,
            visits: 0,
            last_ts: now,
            emo_tag: false,
            sync_bias_drift: 0,
            sync_bias_res: 0,
            sync_stability: 0,
            sync_visits: 0,
        }
    }

    /// Lets the trace fade by the time that has passed up to `now`.
    pub fn decay(&mut self, now: i64)
        ensures
            final(self)@ == old(self)@.decayed(now as int),
            final(self).key == old(self).key,
    {
        if now <= self.last_ts {
            return ;
        }
        let elapsed: i128 = now as i128 - self.last_ts as i128;
        let counted: i128 = if elapsed > DECAY_CAP_SECS as i128 {
            DECAY_CAP_SECS as i128
        } else {
            elapsed
        };
        let loss: i128 = div_round(counted * 80_000, DAY_SECS as i128);
        let taken: i128 = if loss < self.stability as i128 {
            loss
        } else {
            self.stability as i128
        };
        let left: i128 = self.stability as i128 - taken;
        proof {
            crate::micro::lemma_round_div_bounds(counted * 80_000, DAY_SECS as int);
        }
        self.stability = if left < 0 {
            0
        } else {
            left as i64
        };
        if self.stability < STABILITY_THRESHOLD {
            self.emo_tag = false;
        }
    }

    /// How strongly the trace speaks; see `TraceView::intensity`.
    pub fn intensity(&self) -> (r: i64)
        ensures
            r == self@.intensity(),
            0 <= r <= ONE,
    {
        let seen: i128 = if self.visits > VISIT_RAMP {
            VISIT_RAMP as i128
        } else {
            self.visits as i128
        };
        let blend: i128 = div_round(
            84 * (self.stability as i128) + 2_000_000 * seen + 12 * (self.ema_res as i128),
            120,
        );
        proof {
            crate::micro::lemma_round_div_bounds(
                84 * self.stability + 2 * ONE * seen + 12 * self.ema_res,
                120,
            );
        }
        clamp_wide(
            if self.emo_tag {
                blend + 120_000
            } else {
                blend
            },
            0,
            ONE,
        )
    }

    /// The advice of the trace as it stands.
    pub fn advice(&self) -> (a: AstroAdvice)
        ensures
            a == TraceView::advice_at(self@.intensity()),
            -60_000 <= a.drift_bias <= -20_000,
            20_000 <= a.res_bias <= 60_000,
            -40_000 <= a.pace_delta <= -10_000,
            10 <= a.pause_delta_ms <= 40,
    {
        let i: i128 = self.intensity() as i128;
        let fourth: i128 = div_round(4 * i, 100);
        let third: i128 = div_round(3 * i, 100);
        let pause: i128 = div_round(30 * i, ONE as i128);
        AstroAdvice {
            drift_bias: (-20_000 - fourth) as i64,
            res_bias: (20_000 + fourth) as i64,
            pace_delta: (-10_000 - third) as i64,
            pause_delta_ms: (10 + pause) as i64,
        }
    }

    /// Takes in one visit with the given sample at `now`.
    pub fn consolidate(&mut self, drift: i64, res: i64, emo_tag: bool, now: i64)
        ensures
            final(self)@ == old(self)@.consolidated(drift as int, res as int, emo_tag, now as int),
            final(self).key == old(self).key,
            0 <= final(self).ema_drift <= ONE,
            0 <= final(self).ema_res <= ONE,
            0 <= final(self).stability <= ONE,
    {
        self.visits = bump(self.visits);
        if self.visits == 1 {
            self.ema_drift = clamp(drift, 0, ONE);
            self.ema_res = clamp(res, 0, ONE);
        } else {
            self.ema_drift = smooth(self.ema_drift, drift);
            self.ema_res = smooth(self.ema_res, res);
        }
        let gap: i128 = self.ema_res as i128 - res as i128;
        let mut boost: i128 = 60_000;
        if -50_000 < gap && gap < 50_000 {
            boost = boost + 10_000;
        }
        if emo_tag {
            boost = boost + 50_000;
            self.emo_tag = true;
        } else {
            self.emo_tag = self.emo_tag && self.stability > STABILITY_THRESHOLD;
        }
        self.stability = clamp_wide(self.stability as i128 + boost, 0, ONE);
        self.last_ts = now;
    }

    /// Folds a pair of slow increments into the long-term sync bias.
    pub fn fold(&mut self, drift_delta: i64, res_delta: i64)
        ensures
            final(self)@ == old(self)@.folded(drift_delta as int, res_delta as int),
            final(self).key == old(self).key,
    {
        self.sync_visits = bump(self.sync_visits);
        self.sync_bias_drift = clamp_wide(
            self.sync_bias_drift as i128 + drift_delta as i128,
            -SYNC_BIAS_BOUND,
            SYNC_BIAS_BOUND,
        );
        self.sync_bias_res = clamp_wide(
            self.sync_bias_res as i128 + res_delta as i128,
            -SYNC_BIAS_BOUND,
            SYNC_BIAS_BOUND,
        );
        let dd: i128 = if drift_delta < 0 {
            -(drift_delta as i128)
        } else {
            drift_delta as i128
        };
        let dr: i128 = if res_delta < 0 {
            -(res_delta as i128)
        } else {
            res_delta as i128
        };
        let score: i64 = clamp_wide(ONE as i128 - div_round(dd + dr, 2), 0, ONE);
        if self.sync_visits == 1 {
            self.sync_stability = score;
        } else {
            let n: i128 = self.sync_visits as i128;
            let total: i128 = crate::micro::mul_wide(self.sync_stability, (n - 1) as i64) + score as i128;
            self.sync_stability = clamp_wide(div_round(total, n), 0, ONE);
        }
    }

    /// The sync bias that the trace suggests, if any.
    pub fn suggestion(&self) -> (r: Option<SyncBias>)
        ensures
            r == self@.suggestion(),
    {
        if self.sync_visits == 0 {
            None
        } else {
            Some(
                SyncBias {
                    drift_bias: clamp(self.sync_bias_drift, -SYNC_BIAS_BOUND, SYNC_BIAS_BOUND),
                    res_bias: clamp(self.sync_bias_res, -SYNC_BIAS_BOUND, SYNC_BIAS_BOUND),
                    stability: self.sync_stability,
                    visits: self.sync_visits,
                },
            )
        }
    }
}

/// Index of the first trace with the given key, or the number of traces where there is none.
pub open spec fn position(traces: Seq<TraceView>, key: Seq<char>) -> int
    decreases traces.len(),
{
    if traces.len() == 0 || traces[0].key == key {
        0
    } else {
        1 + position(traces.drop_first(), key)
    }
}

/// No two traces have the same key.
pub open spec fn distinct_keys(traces: Seq<TraceView>) -> bool {
    forall|i: int, j: int| 0 <= i < j < traces.len() ==> traces[i].key != traces[j].key
}

/// The traces without the one that has the given key, if there is one.
pub open spec fn without(traces: Seq<TraceView>, key: Seq<char>) -> Seq<TraceView> {
    let at = position(traces, key);
    if 0 <= at < traces.len() {
        traces.remove(at)
    } else {
        traces
    }
}

/// The traces after `t` has been touched: `t` comes first in place of any
/// older trace of its key, the others follow in their order, and where that
/// is more than `capacity` the last ones are dropped.
pub open spec fn touched(traces: Seq<TraceView>, t: TraceView, capacity: int) -> Seq<TraceView> {
    let rest = without(traces, t.key);
    seq![t] + (if capacity >= 1 && rest.len() >= capacity {
        rest.take(capacity - 1)
    } else {
        rest
    })
}

/// The traces after the lines of a log have been replayed in order: each
/// line that denotes a trace touches the store with it, the others are skipped.
pub open spec fn replay(traces: Seq<TraceView>, capacity: int, text: Seq<char>) -> Seq<TraceView>
    decreases text.len(),
{
    let end = find(text, '\n');
    let next = match parse_line(text.take(end)) {
        Some(t) => touched(traces, t, capacity),
        None => traces,
    };
    if 0 <= end < text.len() {
        replay(next, capacity, text.skip(end + 1))
    } else {
        next
    }
}

/// The store as a mathematical value: its traces, the most recently touched
/// first, and its capacity.
pub struct StoreView {
    pub traces: Seq<TraceView>,
    pub capacity: int,
}

impl StoreView {
    /// The capacity is at least one and is kept, no key occurs twice, and every trace is well formed.
    pub open spec fn wf(self) -> bool {
        &&& self.capacity >= 1
        &&& self.traces.len() <= self.capacity
        &&& distinct_keys(self.traces)
        &&& forall|i: int| 0 <= i < self.traces.len() ==> (#[trigger] self.traces[i]).wf()
    }

    /// Whether a trace with the key is held.
    pub open spec fn holds(self, key: Seq<char>) -> bool {
        position(self.traces, key) < self.traces.len()
    }

    /// The trace with the key; meaningful where one is held.
    pub open spec fn get(self, key: Seq<char>) -> TraceView {
        self.traces[position(self.traces, key)]
    }

    /// The trace with the key, or a fresh one for it.
    pub open spec fn get_or_fresh(self, key: Seq<char>, now: int) -> TraceView {
        if self.holds(key) {
            self.get(key)
        } else {
            TraceView::fresh(key, now)
        }
    }

    /// The store after `t` has been touched.
    pub open spec fn touch(self, t: TraceView) -> StoreView {
        StoreView { traces: touched(self.traces, t, self.capacity), ..self }
    }

    /// Whether a recall of the key at `now` gives advice.
    pub open spec fn hits(self, key: Seq<char>, now: int) -> bool {
        self.holds(key) && self.get(key).speaks(now)
    }

    /// The store after a recall of the key at `now`: unchanged on an unknown
    /// key; the trace decayed in its place where it is too weak to advise;
    /// else the trace decayed, marked as seen and moved to the front.
    pub open spec fn after_recall(self, key: Seq<char>, now: int) -> StoreView {
        if !self.holds(key) {
            self
        } else if self.get(key).speaks(now) {
            self.touch(self.get(key).recalled(now))
        } else {
            StoreView {
                traces: self.traces.update(
                    position(self.traces, key),
                    self.get(key).decayed(now),
                ),
                ..self
            }
        }
    }

    /// The trace that a consolidation of the key leaves.
    pub open spec fn consolidated_trace(
        self,
        key: Seq<char>,
        drift: int,
        res: int,
        emo_tag: bool,
        now: int,
    ) -> TraceView {
        self.get_or_fresh(key, now).consolidated(drift, res, emo_tag, now)
    }

    /// The trace that folding slow increments into the key leaves.
    pub open spec fn folded_trace(
        self,
        key: Seq<char>,
        drift_delta: int,
        res_delta: int,
        now: int,
    ) -> TraceView {
        self.get_or_fresh(key, now).folded(drift_delta, res_delta)
    }
}

/// The traces of a vector as mathematical values.
pub open spec fn views(v: Seq<AstroTrace>) -> Seq<TraceView> {
    v.map_values(|t: AstroTrace| t@)
}

/// The position of a key is where no earlier trace has it and this one does.
pub proof fn lemma_position(traces: Seq<TraceView>, key: Seq<char>, at: int)
    requires
        0 <= at <= traces.len(),
        forall|k: int| 0 <= k < at ==> traces[k].key != key,
        at < traces.len() ==> traces[at].key == key,
    ensures
        position(traces, key) == at,
    decreases traces.len(),
{
    if traces.len() != 0 && traces[0].key != key {
        let rest = traces.drop_first();
        assert forall|k: int| 0 <= k < at - 1 implies rest[k].key != key by {
            assert(rest[k] == traces[k + 1]);
        }
        lemma_position(rest, key, at - 1);
    }
}

/// What `position` returns lies within the traces and is a first occurrence.
pub proof fn lemma_position_is_first(traces: Seq<TraceView>, key: Seq<char>)
    ensures
        0 <= position(traces, key) <= traces.len(),
        forall|k: int| 0 <= k < position(traces, key) ==> traces[k].key != key,
        position(traces, key) < traces.len() ==> traces[position(traces, key)].key == key,
    decreases traces.len(),
{
    if traces.len() != 0 && traces[0].key != key {
        let rest = traces.drop_first();
        lemma_position_is_first(rest, key);
        assert forall|k: int| 0 <= k < position(traces, key) implies traces[k].key != key by {
            if k > 0 {
                assert(rest[k - 1] == traces[k]);
            }
        }
    }
}

/// Among distinct keys, the traces without a key hold that key nowhere, are
/// still distinct, and are the others in their order.
pub proof fn lemma_without(traces: Seq<TraceView>, key: Seq<char>)
    requires
        distinct_keys(traces),
    ensures
        distinct_keys(without(traces, key)),
        forall|k: int| 0 <= k < without(traces, key).len() ==> without(traces, key)[k].key != key,
        forall|k: int|
            0 <= k < without(traces, key).len() ==> traces.contains(
                #[trigger] without(traces, key)[k],
            ),
        without(traces, key).len() == if position(traces, key) < traces.len() {
            traces.len() - 1
        } else {
            traces.len() as int
        },
{
    lemma_position_is_first(traces, key);
    let at = position(traces, key);
    let rest = without(traces, key);
    if at < traces.len() {
        assert forall|k: int| 0 <= k < rest.len() implies rest[k].key != key && traces.contains(
            #[trigger] rest[k],
        ) by {
            if k < at {
                assert(rest[k] == traces[k]);
            } else {
                assert(rest[k] == traces[k + 1]);
            }
        }
        assert forall|i: int, j: int| 0 <= i < j < rest.len() implies rest[i].key
            != rest[j].key by {
            let a = if i < at {
                i
            } else {
                i + 1
            };
            let b = if j < at {
                j
            } else {
                j + 1
            };
            assert(rest[i] == traces[a]);
            assert(rest[j] == traces[b]);
        }
    } else {
        assert forall|k: int| 0 <= k < rest.len() implies traces.contains(#[trigger] rest[k]) by {
            assert(rest[k] == traces[k]);
        }
    }
}

/// Touching keeps a store well formed, puts the touched trace first, and
/// drops a trace only where the store is full and the key is new: then it
/// drops the last one, the one touched longest ago.
pub proof fn lemma_touch(s: StoreView, t: TraceView)
    requires
        s.wf(),
        t.wf(),
    ensures
        s.touch(t).wf(),
        s.touch(t).capacity == s.capacity,
        s.touch(t).traces[0] == t,
        s.touch(t).holds(t.key),
        s.touch(t).get(t.key) == t,
        s.holds(t.key) ==> s.touch(t).traces == seq![t] + s.traces.remove(
            position(s.traces, t.key),
        ),
        !s.holds(t.key) && s.traces.len() < s.capacity ==> s.touch(t).traces == seq![t]
            + s.traces,
        !s.holds(t.key) && s.traces.len() == s.capacity ==> s.touch(t).traces == seq![t]
            + s.traces.drop_last(),
{
    lemma_without(s.traces, t.key);
    lemma_position_is_first(s.traces, t.key);
    let rest = without(s.traces, t.key);
    let kept = if rest.len() >= s.capacity {
        rest.take(s.capacity - 1)
    } else {
        rest
    };
    let out = s.touch(t).traces;
    assert(out == seq![t] + kept);
    assert forall|k: int| 0 <= k < kept.len() implies kept[k] == rest[k] by {}
    assert forall|i: int, j: int| 0 <= i < j < out.len() implies out[i].key != out[j].key by {
        if i > 0 {
            assert(out[i] == rest[i - 1]);
        }
        assert(out[j] == rest[j - 1]);
    }
    assert forall|i: int| 0 <= i < out.len() implies (#[trigger] out[i]).wf() by {
        if i > 0 {
            assert(out[i] == rest[i - 1]);
            assert(s.traces.contains(rest[i - 1]));
        }
    }
    lemma_position(out, t.key, 0);
    if !s.holds(t.key) && s.traces.len() == s.capacity {
        assert(rest.take(s.capacity - 1) =~= s.traces.drop_last());
    }
}

/// What happens to a trace in the store keeps it well formed.
pub proof fn lemma_trace_stays_wf(
    t: TraceView,
    now: int,
    drift: int,
    res: int,
    emo_tag: bool,
    drift_delta: int,
    res_delta: int,
)
    requires
        t.wf(),
        i64::MIN <= now <= i64::MAX,
    ensures
        t.decayed(now).wf(),
        t.recalled(now).wf(),
        t.consolidated(drift, res, emo_tag, now).wf(),
        t.folded(drift_delta, res_delta).wf(),
        t.decayed(now).key == t.key,
        t.recalled(now).key == t.key,
        t.consolidated(drift, res, emo_tag, now).key == t.key,
        t.folded(drift_delta, res_delta).key == t.key,
{
}

/// Replaying what was written: a log that begins with the line of a
/// well-formed trace with a key replays as a touch with that trace and then
/// the rest of the log, whatever characters the key holds.
pub proof fn lemma_replay_written_line(
    traces: Seq<TraceView>,
    capacity: int,
    t: TraceView,
    rest: Seq<char>,
)
    requires
        t.wf(),
        t.key.len() > 0,
    ensures
        replay(traces, capacity, render_line(t) + seq!['\n'] + rest) == replay(
            touched(traces, t, capacity),
            capacity,
            rest,
        ),
        replay(traces, capacity, render_line(t)) == touched(traces, t, capacity),
{
    let line = render_line(t);
    crate::trace_line::lemma_line_on_one_line(t);
    crate::trace_line::lemma_line_round_trip(t);
    let text = line + seq!['\n'] + rest;
    assert forall|k: int| 0 <= k < line.len() implies text[k] != '\n' by {
        assert(text[k] == line[k]);
    }
    assert(text[line.len() as int] == '\n');
    crate::text::lemma_find(text, '\n', line.len() as int);
    assert(text.take(line.len() as int) =~= line);
    assert(text.skip(line.len() as int + 1) =~= rest);
    crate::text::lemma_find(line, '\n', line.len() as int);
    assert(line.take(line.len() as int) =~= line);
}

/// A trace fades and never recovers by itself: the later it is looked at,
/// the less stable it is, and never more stable than it was left.
pub proof fn lemma_decay_is_monotone(t: TraceView, earlier: int, later: int)
    requires
        t.wf(),
        earlier <= later,
    ensures
        0 <= t.decayed(later).stability <= t.decayed(earlier).stability <= t.stability,
{
    let cap = DECAY_CAP_SECS as int;
    let a = if earlier - t.last_ts > cap {
        cap
    } else {
        earlier - t.last_ts
    };
    let b = if later - t.last_ts > cap {
        cap
    } else {
        later - t.last_ts
    };
    crate::micro::lemma_round_div_bounds(a * STABILITY_DECAY_PER_DAY, DAY_SECS as int);
    crate::micro::lemma_round_div_bounds(b * STABILITY_DECAY_PER_DAY, DAY_SECS as int);
    crate::micro::lemma_round_div_monotone(
        a * STABILITY_DECAY_PER_DAY,
        b * STABILITY_DECAY_PER_DAY,
        DAY_SECS as int,
    );
}

fn locate(v: &Vec<AstroTrace>, key: &String) -> (at: usize)
    ensures
        at == position(views(v@), key@),
        at <= v.len(),
{
    let mut i: usize = 0;
    while i < v.len() && !(v[i].key == *key)
        invariant
            i <= v.len(),
            forall|k: int| 0 <= k < i ==> views(v@)[k].key != key@,
        decreases v.len() - i,
    {
        i += 1;
    }
    proof {
        lemma_position(views(v@), key@, i as int);
    }
    i
}

fn touch_vec(v: &mut Vec<AstroTrace>, trace: AstroTrace, capacity: usize)
    requires
        capacity >= 1,
        old(v).len() <= capacity,
    ensures
        views(final(v)@) == touched(views(old(v)@), trace@, capacity as int),
{
    let ghost before = views(v@);
    let at = locate(v, &trace.key);
    if at < v.len() {
        let _ = v.remove(at);
        assert(views(v@) =~= before.remove(at as int));
    }
    assert(views(v@) == without(before, trace@.key));
    if v.len() >= capacity {
        let _ = v.pop();
        assert(views(v@) =~= without(before, trace@.key).take(capacity - 1));
    }
    let ghost kept = views(v@);
    v.insert(0, trace);
    assert(views(v@) =~= seq![trace@] + kept);
}

/// Capacity-bounded memory of topics, the most recently touched first.
pub struct AstroStore {
    traces: Vec<AstroTrace>,
    capacity: usize,
}

impl View for AstroStore {
    type V = StoreView;

    closed spec fn view(&self) -> StoreView {
        StoreView { traces: views(self.traces@), capacity: self.capacity as int }
    }
}

impl AstroStore {
    #[verifier::type_invariant]
    spec fn well_formed(&self) -> bool {
        self@.wf()
    }

    /// A store of the given capacity, at least one, filled by replaying the
    /// text of a trace log line by line.
    pub fn load(log: &str, capacity: usize) -> (s: AstroStore)
        ensures
            s@.capacity == if capacity < 1 {
                1
            } else {
                capacity as int
            },
            s@.traces == replay(Seq::empty(), s@.capacity, log@),
            s@.wf(),
    {
        let cap: usize = if capacity < 1 {
            1
        } else {
            capacity
        };
        let chars = chars_of(log);
        let mut v: Vec<AstroTrace> = Vec::new();
        let mut rest: &[char] = chars.as_slice();
        let mut more: bool = true;
        let ghost empty = Seq::<TraceView>::empty();
        assert(views(v@) =~= empty);
        while more
            invariant
                cap >= 1,
                (StoreView { traces: views(v@), capacity: cap as int }).wf(),
                more ==> replay(empty, cap as int, log@) == replay(views(v@), cap as int, rest@),
                !more ==> replay(empty, cap as int, log@) == views(v@),
            decreases
                rest@.len() + if more {
                    1int
                } else {
                    0int
                },
        {
            let end = find_char(rest, '\n');
            let line = slice_subrange(rest, 0, end);
            assert(line@ =~= rest@.take(end as int));
            match read_line(line) {
                Some(t) => {
                    proof {
                        crate::trace_line::lemma_parse_line_wf(line@);
                        lemma_touch(StoreView { traces: views(v@), capacity: cap as int }, t@);
                    }
                    touch_vec(&mut v, t, cap);
                },
                None => {},
            }
            if end < rest.len() {
                let after = slice_subrange(rest, end + 1, rest.len());
                assert(after@ =~= rest@.skip(end + 1));
                rest = after;
            } else {
                more = false;
            }
        }
        AstroStore { traces: v, capacity: cap }
    }

    /// Number of traces held.
    pub fn len(&self) -> (n: usize)
        ensures
            n == self@.traces.len(),
            n <= self@.capacity,
            self@.wf(),
    {
        proof {
            use_type_invariant(self);
        }
        self.traces.len()
    }

    /// Largest number of traces held at a time.
    pub fn capacity(&self) -> (n: usize)
        ensures
            n == self@.capacity,
            n >= 1,
    {
        proof {
            use_type_invariant(self);
        }
        self.capacity
    }

    /// Recalls what the topic has taught: no advice for an unknown key or
    /// for a trace that has faded below the threshold; else the advice of the
    /// decayed trace, which is marked as seen at `now` and moved to the front.
    pub fn recall(&mut self, key: &str, now: i64) -> (advice: Option<AstroAdvice>)
        ensures
            final(self)@ == old(self)@.after_recall(key@, now as int),
            final(self)@.wf(),
            advice == if old(self)@.hits(key@, now as int) {
                Some(TraceView::advice_at(old(self)@.get(key@).decayed(now as int).intensity()))
            } else {
                None
            },
    {
        proof {
            use_type_invariant(&*self);
        }
        let ghost before = self@;
        let mut v: Vec<AstroTrace> = Vec::new();
        assert(views(v@) =~= Seq::<TraceView>::empty());
        std::mem::swap(&mut self.traces, &mut v);
        let owned: String = key.to_owned();
        let at = locate(&v, &owned);
        if at >= v.len() {
            self.traces = v;
            return None;
        }
        let mut t = v.remove(at);
        let ghost rest = views(v@);
        proof {
            assert(rest =~= before.traces.remove(at as int));
            lemma_position_is_first(before.traces, key@);
            lemma_trace_stays_wf(t@, now as int, 0, 0, false, 0, 0);
            lemma_without(before.traces, key@);
        }
        t.decay(now);
        if t.stability < STABILITY_THRESHOLD {
            v.insert(at, t);
            proof {
                assert(views(v@) =~= before.traces.update(
                    at as int,
                    before.get(key@).decayed(now as int),
                ));
                let out = views(v@);
                assert forall|i: int, j: int| 0 <= i < j < out.len() implies out[i].key
                    != out[j].key by {
                    assert(out[i].key == before.traces[i].key);
                    assert(out[j].key == before.traces[j].key);
                }
            }
            self.traces = v;
            return None;
        }
        t.last_ts = now;
        let advice = t.advice();
        proof {
            lemma_touch(before, t@);
        }
        v.insert(0, t);
        assert(views(v@) =~= seq![before.get(key@).recalled(now as int)] + rest);
        self.traces = v;
        Some(advice)
    }

    /// Takes in one visit of the topic and returns the line to append to the
    /// log. The trace is created if the key is new, and is then the most
    /// recently touched one.
    pub fn consolidate(&mut self, key: &str, drift: i64, res: i64, emo_tag: bool, now: i64) -> (line:
        String)
        ensures
            final(self)@ == old(self)@.touch(
                old(self)@.consolidated_trace(key@, drift as int, res as int, emo_tag, now as int),
            ),
            final(self)@.wf(),
            line@ == render_line(
                old(self)@.consolidated_trace(key@, drift as int, res as int, emo_tag, now as int),
            ),
            key@.len() > 0 ==> parse_line(line@) == Some(
                old(self)@.consolidated_trace(key@, drift as int, res as int, emo_tag, now as int),
            ),
            key@.len() == 0 ==> parse_line(line@) is None,
    {
        proof {
            use_type_invariant(&*self);
        }
        let ghost before = self@;
        let owned: String = key.to_owned();
        let at = locate(&self.traces, &owned);
        let mut t = if at < self.traces.len() {
            self.traces[at].clone()
        } else {
            AstroTrace::new(owned, now)
        };
        proof {
            lemma_position_is_first(before.traces, key@);
            lemma_trace_stays_wf(
                before.get_or_fresh(key@, now as int),
                now as int,
                drift as int,
                res as int,
                emo_tag,
                0,
                0,
            );
        }
        t.consolidate(drift, res, emo_tag, now);
        let line = t.to_json_line();
        proof {
            lemma_touch(before, t@);
            crate::trace_line::lemma_line_round_trip(t@);
        }
        let mut v: Vec<AstroTrace> = Vec::new();
        assert(views(v@) =~= Seq::<TraceView>::empty());
        std::mem::swap(&mut self.traces, &mut v);
        touch_vec(&mut v, t, self.capacity);
        self.traces = v;
        line
    }

    /// Folds a pair of slow increments into the topic's long-term sync bias
    /// and returns the line to append to the log. Where both increments are
    /// zero nothing happens and there is no line.
    pub fn fold_sync_delta(&mut self, key: &str, drift_delta: i64, res_delta: i64, now: i64) -> (line:
        Option<String>)
        ensures
            drift_delta == 0 && res_delta == 0 ==> final(self)@ == old(self)@ && line is None,
            !(drift_delta == 0 && res_delta == 0) ==> {
                &&& final(self)@ == old(self)@.touch(
                    old(self)@.folded_trace(
                        key@,
                        drift_delta as int,
                        res_delta as int,
                        now as int,
                    ),
                )
                &&& line matches Some(text) && text@ == render_line(
                    old(self)@.folded_trace(
                        key@,
                        drift_delta as int,
                        res_delta as int,
                        now as int,
                    ),
                ) && (key@.len() > 0 ==> parse_line(text@) == Some(
                    old(self)@.folded_trace(
                        key@,
                        drift_delta as int,
                        res_delta as int,
                        now as int,
                    ),
                )) && (key@.len() == 0 ==> parse_line(text@) is None)
            },
            final(self)@.wf(),
    {
        proof {
            use_type_invariant(&*self);
        }
        if drift_delta == 0 && res_delta == 0 {
            return None;
        }
        let ghost before = self@;
        let owned: String = key.to_owned();
        let at = locate(&self.traces, &owned);
        let mut t = if at < self.traces.len() {
            self.traces[at].clone()
        } else {
            AstroTrace::new(owned, now)
        };
        proof {
            lemma_position_is_first(before.traces, key@);
            lemma_trace_stays_wf(
                before.get_or_fresh(key@, now as int),
                now as int,
                0,
                0,
                false,
                drift_delta as int,
                res_delta as int,
            );
        }
        t.fold(drift_delta, res_delta);
        let line = t.to_json_line();
        proof {
            lemma_touch(before, t@);
            crate::trace_line::lemma_line_round_trip(t@);
        }
        let mut v: Vec<AstroTrace> = Vec::new();
        assert(views(v@) =~= Seq::<TraceView>::empty());
        std::mem::swap(&mut self.traces, &mut v);
        touch_vec(&mut v, t, self.capacity);
        self.traces = v;
        Some(line)
    }

    /// The long-term sync bias that the topic suggests: none for an unknown
    /// topic or one into which no increments were folded. Reading it does
    /// not count as a touch.
    pub fn suggest_sync(&self, theme: &str) -> (bias: Option<SyncBias>)
        ensures
            bias == if self@.holds(theme@) {
                self@.get(theme@).suggestion()
            } else {
                None
            },
    {
        let owned: String = theme.to_owned();
        let at = locate(&self.traces, &owned);
        if at < self.traces.len() {
            self.traces[at].suggestion()
        } else {
            None
        }
    }
}

/// The key under which a topic is remembered: made from the utterance,
/// normalised, and the tone. The same text and tone always give the same key.
pub fn topic_key(text: &str, tone: ToneTag) -> (key: String)
    ensures
        key@ == topic_key_of(lowercase_of(trim_of(text@)), tone),
        key@.len() == 16,
{
    let normalized = normalize_text(text);
    key_for(normalized.as_str(), tone)
}

/// What a theme is made from: the script where one is set, else the first
/// utterance, else nothing.
pub open spec fn theme_source(script: Option<Seq<char>>, utterances: Seq<Seq<char>>) -> Seq<char> {
    match script {
        Some(s) => s,
        None => if utterances.len() > 0 {
            utterances[0]
        } else {
            Seq::empty()
        },
    }
}

/// The theme of a run, under which its slow increments are remembered:
/// the script, or without one the first utterance, normalised.
pub fn normalize_theme(script: Option<&str>, utterances: &Vec<String>) -> (theme: String)
    ensures
        theme@ == lowercase_of(
            trim_of(
                theme_source(
                    match script {
                        Some(s) => Some(s@),
                        None => None,
                    },
                    crate::text::texts(utterances@),
                ),
            ),
        ),
{
    proof {
        reveal_strlit("");
        assert(""@ =~= Seq::<char>::empty());
        if utterances.len() > 0 {
            assert(crate::text::texts(utterances@)[0] == utterances@[0]@);
        }
    }
    match script {
        Some(s) => normalize_text(s),
        None => {
            if utterances.len() > 0 {
                normalize_text(utterances[0].as_str())
            } else {
                normalize_text("")
            }
        },
    }
}

} // verus!
