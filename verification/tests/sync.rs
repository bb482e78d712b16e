use liminal_voice_core::stabilizer::EmoState;
use liminal_voice_core::sync::{merge_seeds, Baselines, Seeds, SyncCfg, SyncState};

fn default_sync_cfg() -> SyncCfg {
    SyncCfg { lr_fast: 150_000, lr_slow: 50_000, clamp_step: 20_000 }
}

#[test]
fn step_reacts_to_high_drift_low_res() {
    let mut sync = SyncState::default();
    sync.warm_start(Seeds::default(), Baselines { drift: 350_000, res: 650_000 });
    let cfg = default_sync_cfg();

    let (pace, pause, res_boost, drift_relief) = sync.step(500_000, 550_000, EmoState::Normal, &cfg);

    assert!(pace < 0, "pace should slow down when drift exceeds baseline");
    assert!(pause > 0, "pause should lengthen when resonance is low");
    assert!(res_boost > 0, "res_boost should encourage resonance recovery");
    assert!(drift_relief <= 0, "drift_relief stays near zero when drift is high");
    assert_eq!((pace, pause, res_boost, drift_relief), (-20_000, 1, 750, 0));
}

#[test]
fn to_slow_increments_reflects_means() {
    let mut sync = SyncState::default();
    sync.warm_start(Seeds::default(), Baselines { drift: 300_000, res: 700_000 });
    let cfg = default_sync_cfg();

    for _ in 0..5 {
        let _ = sync.step(450_000, 600_000, EmoState::Normal, &cfg);
    }

    let (drift_bias, res_bias) = sync.to_slow_increments(&cfg);
    assert!(drift_bias < 0, "drift bias should push Astro toward lower drift");
    assert!(res_bias > 0, "res bias should encourage higher resonance");
    assert!(drift_bias >= -30_000 && drift_bias <= 0);
    assert!(res_bias >= 0 && res_bias <= 30_000);
    assert_eq!((drift_bias, res_bias), (-7_500, 5_000));
}

#[test]
fn no_steps_no_bias() {
    let sync = SyncState::default();
    let cfg = default_sync_cfg();
    let (drift_bias, res_bias) = sync.to_slow_increments(&cfg);
    assert_eq!((drift_bias, res_bias), (0, 0));
}

#[test]
fn clamp_limits_slow_bias() {
    let mut sync = SyncState::default();
    sync.warm_start(Seeds::default(), Baselines { drift: 400_000, res: 400_000 });
    sync.accum_drift = 10_000_000;
    sync.accum_res = 10_000_000;
    sync.steps = 1;
    let cfg = default_sync_cfg();

    let (drift_bias, res_bias) = sync.to_slow_increments(&cfg);
    assert_eq!(drift_bias, -30_000);
    assert_eq!(res_bias, 30_000);
}

#[test]
fn slow_bias_is_bounded_for_any_accumulator() {
    let cfg = SyncCfg { lr_fast: i64::MAX, lr_slow: i64::MAX, clamp_step: 20_000 };
    for accum in [i64::MIN, -1, 0, 1, i64::MAX] {
        for steps in [1usize, 2, usize::MAX] {
            let mut sync = SyncState::default();
            sync.accum_drift = accum;
            sync.accum_res = accum;
            sync.steps = steps;
            let (d, r) = sync.to_slow_increments(&cfg);
            assert!((-30_000..=30_000).contains(&d));
            assert!((-30_000..=30_000).contains(&r));
            assert_eq!(d, -r);
        }
    }
}

#[test]
fn overheat_adds_a_fixed_penalty_after_the_clamp() {
    let cfg = default_sync_cfg();
    let base = Baselines { drift: 350_000, res: 650_000 };
    let mut calm = SyncState::default();
    calm.warm_start(Seeds::default(), base);
    let mut hot = SyncState::default();
    hot.warm_start(Seeds::default(), base);
    let a = calm.step(900_000, 100_000, EmoState::Warming, &cfg);
    let b = hot.step(900_000, 100_000, EmoState::Overheat, &cfg);
    assert_eq!(a, (-20_000, 7, 4_125, 0));
    assert_eq!(b, (-30_000, 17, 4_125, 0));
}

#[test]
fn step_outputs_stay_in_their_ranges_on_extreme_inputs() {
    let cfg = SyncCfg { lr_fast: i64::MAX, lr_slow: 50_000, clamp_step: 20_000 };
    let samples = [(i64::MAX, i64::MIN), (i64::MIN, i64::MAX), (0, 0), (1_000_000, 0)];
    for state in [EmoState::Normal, EmoState::Overheat] {
        for (d, r) in samples {
            let mut sync = SyncState::default();
            sync.warm_start(Seeds::default(), Baselines { drift: 350_000, res: 650_000 });
            let (pace, pause, boost, relief) = sync.step(d, r, state, &cfg);
            let extra = if state == EmoState::Overheat { 10_000 } else { 0 };
            let extra_ms = if state == EmoState::Overheat { 10 } else { 0 };
            assert!((-20_000 - extra..=20_000 - extra).contains(&pace));
            assert!((-20 + extra_ms..=40 + extra_ms).contains(&pause));
            assert!((0..=20_000).contains(&boost));
            assert!((0..=20_000).contains(&relief));
        }
    }
}

#[test]
fn step_accumulates_clamped_residuals() {
    let cfg = default_sync_cfg();
    let mut sync = SyncState::default();
    sync.warm_start(Seeds::default(), Baselines { drift: 350_000, res: 650_000 });
    let _ = sync.step(5_000_000, -5_000_000, EmoState::Normal, &cfg);
    assert_eq!((sync.accum_drift, sync.accum_res, sync.steps), (1_000_000, 1_000_000, 1));
    let out = sync.step(150_000, 950_000, EmoState::Normal, &cfg);
    assert_eq!((sync.accum_drift, sync.accum_res, sync.steps), (800_000, 700_000, 2));
    assert_eq!(out, (20_000, -4, 0, 1_500));
    sync.accum_drift = i64::MAX;
    sync.steps = usize::MAX;
    let _ = sync.step(5_000_000, 0, EmoState::Normal, &cfg);
    assert_eq!((sync.accum_drift, sync.steps), (i64::MAX, usize::MAX));
}

#[test]
fn warm_start_resets_the_run() {
    let cfg = default_sync_cfg();
    let mut sync = SyncState::default();
    let _ = sync.step(500_000, 500_000, EmoState::Normal, &cfg);
    let seeds = Seeds { pace_bias: 10, pause_bias_ms: 20, res_warm: 30, drift_soft: 40 };
    sync.warm_start(seeds, Baselines { drift: 1, res: 2 });
    assert_eq!((sync.accum_drift, sync.accum_res, sync.steps), (0, 0, 0));
    assert_eq!((sync.baselines.drift, sync.baselines.res), (1, 2));
    assert_eq!(sync.seeds.pace_bias, 10);
    assert_eq!(sync.seeds.pause_bias_ms, 20);
    assert_eq!(sync.seeds.res_warm, 30);
    assert_eq!(sync.seeds.drift_soft, 40);
}

#[test]
fn merge_seeds_takes_means() {
    let s = merge_seeds(40_000, 10_000, 50_000, -12, 20_000, 30_001);
    assert_eq!(s.pace_bias, 50_000);
    assert_eq!(s.pause_bias_ms, -12);
    assert_eq!(s.res_warm, 30_000);
    assert_eq!(s.drift_soft, 20_001);
    let t = merge_seeds(i64::MAX, i64::MIN, 0, 0, i64::MAX, i64::MIN);
    assert_eq!((t.res_warm, t.drift_soft), (i64::MAX, i64::MIN));
}

#[test]
fn a_negative_step_bound_counts_as_zero() {
    let cfg = SyncCfg { lr_fast: 150_000, lr_slow: 50_000, clamp_step: -20_000 };
    let mut sync = SyncState::default();
    sync.warm_start(Seeds::default(), Baselines { drift: 350_000, res: 650_000 });
    assert_eq!(sync.step(900_000, 100_000, EmoState::Normal, &cfg), (0, 7, 0, 0));
    assert_eq!(sync.step(900_000, 100_000, EmoState::Overheat, &cfg), (-10_000, 17, 0, 0));
}
