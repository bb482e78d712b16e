use liminal_voice_core::astro::AstroTrace;
use liminal_voice_core::stabilizer::{Stabilizer, StabilizerCfg};
use liminal_voice_core::sync::{Baselines, Seeds, SyncCfg, SyncState};
use liminal_voice_core::stabilizer::EmoState;
use liminal_voice_core::topic::scale_to_20;

fn micro(x: f64) -> i64 {
    (x * 1_000_000.0).round() as i64
}

fn next(seed: &mut u64) -> f64 {
    *seed = seed.wrapping_mul(6_364_136_223_846_793_005).wrapping_add(1_442_695_040_888_963_407);
    ((*seed >> 33) % 1_000_001) as f64 / 1_000_000.0
}

#[test]
fn moving_averages_agree_with_floating_point() {
    let mut stab = Stabilizer::new(StabilizerCfg {
        win: 5,
        ema_alpha: 400_000,
        warm_drift: 320_000,
        hot_drift: 420_000,
        low_res: 580_000,
        cool_steps: 3,
        calm_boost: 80_000,
    });
    let mut seed = 7u64;
    let mut drift = 0.0f64;
    let mut res = 0.0f64;
    for turn in 0..500 {
        let d = next(&mut seed);
        let r = next(&mut seed);
        if turn == 0 {
            drift = d;
            res = r;
        } else {
            drift = 0.4 * d + 0.6 * drift;
            res = 0.4 * r + 0.6 * res;
        }
        stab.push(micro(d), micro(r));
        assert!((stab.ema_drift - micro(drift)).abs() <= 2, "drift at turn {}", turn);
        assert!((stab.ema_res - micro(res)).abs() <= 2, "resonance at turn {}", turn);
    }
}

#[test]
fn sync_corrections_agree_with_floating_point() {
    let cfg = SyncCfg { lr_fast: 150_000, lr_slow: 50_000, clamp_step: 20_000 };
    let mut sync = SyncState::default();
    sync.warm_start(Seeds::default(), Baselines { drift: 350_000, res: 650_000 });
    let mut seed = 11u64;
    let mut sum_d = 0.0f64;
    let mut sum_r = 0.0f64;
    for turn in 1..=200 {
        let d = next(&mut seed);
        let r = next(&mut seed);
        let dd = (d - 0.35).clamp(-1.0, 1.0);
        let dr = (0.65 - r).clamp(-1.0, 1.0);
        sum_d += dd;
        sum_r += dr;
        let (pace, pause, boost, relief) = sync.step(micro(d), micro(r), EmoState::Normal, &cfg);
        assert!((pace - micro((-0.15 * dd).clamp(-0.02, 0.02))).abs() <= 1);
        assert!((pause as f64 - (0.15 * dr * 80.0).clamp(-20.0, 40.0)).abs() <= 0.5 + 1e-4);
        assert!((boost - micro((0.15 * dr.max(0.0) * 0.05).clamp(0.0, 0.02))).abs() <= 1);
        assert!((relief - micro((0.15 * (-dd).max(0.0) * 0.05).clamp(0.0, 0.02))).abs() <= 1);
        let (slow_d, slow_r) = sync.to_slow_increments(&cfg);
        let n = turn as f64;
        assert!((slow_d - micro((-(sum_d / n) * 0.05).clamp(-0.03, 0.03))).abs() <= 1);
        assert!((slow_r - micro(((sum_r / n) * 0.05).clamp(-0.03, 0.03))).abs() <= 1);
    }
}

#[test]
fn traces_agree_with_floating_point() {
    let mut trace = AstroTrace::new("k".to_string(), 0);
    let mut seed = 3u64;
    let mut ema_d = 0.0f64;
    let mut ema_r = 0.0f64;
    let mut stability = 0.0f64;
    let mut tag = false;
    for visit in 1..=60i64 {
        let d = next(&mut seed);
        let r = next(&mut seed);
        let emo = visit % 7 == 0;
        if visit == 1 {
            ema_d = d;
            ema_r = r;
        } else {
            ema_d = 0.22 * d + 0.78 * ema_d;
            ema_r = 0.22 * r + 0.78 * ema_r;
        }
        let mut boost = 0.06;
        let on_the_edge = ((ema_r - r).abs() - 0.05).abs() <= 1e-4;
        if (ema_r - r).abs() < 0.05 {
            boost += 0.01;
        }
        if emo {
            boost += 0.05;
            tag = true;
        } else {
            tag = tag && stability > 0.18;
        }
        stability = (stability + boost).clamp(0.0, 1.0);
        trace.consolidate(micro(d), micro(r), emo, visit * 40_000);
        assert!((trace.ema_drift - micro(ema_d)).abs() <= 2);
        assert!((trace.ema_res - micro(ema_r)).abs() <= 2);
        if on_the_edge {
            stability = trace.stability as f64 / 1_000_000.0;
        }
        assert!((trace.stability - micro(stability)).abs() <= 2, "stability at visit {}", visit);
        assert_eq!(trace.emo_tag, tag);

        let days = (40_000.0f64 / 86_400.0).min(30.0);
        let later = trace.last_ts + 40_000;
        let mut faded = trace.clone();
        faded.decay(later);
        let left = (stability - (days * 0.08).min(stability)).max(0.0);
        assert!((faded.stability - micro(left)).abs() <= 2);
        let mut intensity = left * 0.7 + (visit.min(12) as f64 / 12.0) * 0.2 + ema_r * 0.1;
        if faded.emo_tag {
            intensity += 0.12;
        }
        let intensity = intensity.clamp(0.0, 1.0);
        assert!((faded.intensity() - micro(intensity)).abs() <= 3);
        let advice = faded.advice();
        assert!((advice.drift_bias - micro(-0.02 - 0.04 * intensity)).abs() <= 2);
        assert!((advice.res_bias - micro(0.02 + 0.04 * intensity)).abs() <= 2);
        assert!((advice.pace_delta - micro(-0.01 - 0.03 * intensity)).abs() <= 2);
        assert!((advice.pause_delta_ms as f64 - (10.0 + 30.0 * intensity)).abs() <= 0.5 + 1e-4);
        stability = trace.stability as f64 / 1_000_000.0;
        ema_d = trace.ema_drift as f64 / 1_000_000.0;
        ema_r = trace.ema_res as f64 / 1_000_000.0;
    }
}

#[test]
fn key_scaling_agrees_with_single_precision() {
    for n in 0..=65_535u64 {
        let a = n as f32 / 65_535.0;
        let expected = (a * 1_048_575.0).round() as u64;
        assert_eq!(scale_to_20(n), expected, "at {}", n);
    }
}
