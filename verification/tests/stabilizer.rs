use liminal_voice_core::stabilizer::{format_status, Advice, EmoState, Stabilizer, StabilizerCfg};

fn default_cfg() -> StabilizerCfg {
    StabilizerCfg {
        win: 5,
        ema_alpha: 400_000,
        warm_drift: 320_000,
        hot_drift: 420_000,
        low_res: 580_000,
        cool_steps: 3,
        calm_boost: 80_000,
    }
}

#[test]
fn progression_and_advice_mapping() {
    let mut stab = Stabilizer::new(default_cfg());
    let cool_steps = stab.cfg.cool_steps;

    stab.push(200_000, 800_000);
    assert_eq!(stab.state, EmoState::Normal);
    let normal_adv = stab.advice();
    assert_eq!(normal_adv.pace_delta, 0);
    assert_eq!(normal_adv.pause_delta_ms, 0);

    stab.push(340_000, 700_000);
    assert_eq!(stab.state, EmoState::Warming);
    let warming_adv = stab.advice();
    assert!(warming_adv.pace_delta < 0);
    assert!(warming_adv.pause_delta_ms > 0);
    assert!(warming_adv.articulation_hint > 0);

    stab.push(450_000, 550_000);
    assert_eq!(stab.state, EmoState::Overheat);
    let overheat_adv = stab.advice();
    assert!(overheat_adv.pace_delta < -70_000);
    assert!(overheat_adv.pause_delta_ms >= 30);
    assert!(overheat_adv.articulation_hint > 40_000);

    for _ in 0..cool_steps {
        stab.push(300_000, 750_000);
        assert_eq!(stab.state, EmoState::Cooldown);
    }

    stab.push(250_000, 780_000);
    assert_eq!(stab.state, EmoState::Normal);

    let status = format_status(stab.state, stab.ema_drift, stab.ema_res);
    assert!(!status.is_empty());
    assert!(status.contains("state=Normal"));
}

#[test]
fn end_to_end_states_and_overheat_advice() {
    let mut stab = Stabilizer::new(default_cfg());
    stab.push(200_000, 800_000);
    assert_eq!(stab.state, EmoState::Normal);
    stab.push(340_000, 700_000);
    assert_eq!(stab.state, EmoState::Warming);
    stab.push(450_000, 550_000);
    assert_eq!(stab.state, EmoState::Overheat);
    let adv = stab.advice();
    assert!(adv.pace_delta < -70_000);
    assert_eq!(
        adv,
        Advice { pace_delta: -150_000, pause_delta_ms: 38, articulation_hint: 50_000 }
    );
}

#[test]
fn advice_table_is_exact() {
    let mut stab = Stabilizer::new(default_cfg());
    assert_eq!(stab.advice(), Advice { pace_delta: 0, pause_delta_ms: 0, articulation_hint: 0 });
    stab.state = EmoState::Warming;
    assert_eq!(
        stab.advice(),
        Advice { pace_delta: -30_000, pause_delta_ms: 10, articulation_hint: 20_000 }
    );
    stab.state = EmoState::Cooldown;
    assert_eq!(
        stab.advice(),
        Advice { pace_delta: -40_000, pause_delta_ms: 20, articulation_hint: 30_000 }
    );
    stab.state = EmoState::Overheat;
    stab.cfg.calm_boost = 124_999;
    assert_eq!(stab.advice().pause_delta_ms, 42);
    assert_eq!(stab.advice().pace_delta, -194_999);
    stab.cfg.calm_boost = 125_000;
    assert_eq!(stab.advice().pause_delta_ms, 43);
}

#[test]
fn cooldown_exit_takes_cool_steps() {
    let mut stab = Stabilizer::new(default_cfg());
    stab.push(450_000, 550_000);
    assert_eq!(stab.state, EmoState::Overheat);
    assert_eq!(stab.steps_in_state, 0);
    stab.push(100_000, 900_000);
    assert_eq!(stab.state, EmoState::Cooldown);
    stab.push(100_000, 900_000);
    assert_eq!(stab.state, EmoState::Cooldown);
    stab.push(100_000, 900_000);
    assert_eq!(stab.state, EmoState::Cooldown);
    assert_eq!(stab.steps_in_state, 2);
    stab.push(100_000, 900_000);
    assert_eq!(stab.state, EmoState::Normal);
    assert_eq!(stab.steps_in_state, 0);
}

#[test]
fn cooldown_is_skipped_with_one_cool_step() {
    let mut cfg = default_cfg();
    cfg.cool_steps = 1;
    let mut stab = Stabilizer::new(cfg);
    stab.push(450_000, 550_000);
    assert_eq!(stab.state, EmoState::Overheat);
    stab.push(100_000, 900_000);
    assert_eq!(stab.state, EmoState::Normal);
}

#[test]
fn long_overheat_returns_straight_to_normal() {
    let mut stab = Stabilizer::new(default_cfg());
    for _ in 0..4 {
        stab.push(450_000, 550_000);
    }
    assert_eq!(stab.state, EmoState::Overheat);
    assert_eq!(stab.steps_in_state, 3);
    stab.push(100_000, 900_000);
    assert_eq!(stab.state, EmoState::Normal);
}

#[test]
fn averages_stay_in_unit_range_on_extreme_inputs() {
    let mut stab = Stabilizer::new(default_cfg());
    let samples = [
        (i64::MAX, i64::MIN),
        (i64::MIN, i64::MAX),
        (5_000_000, -5_000_000),
        (0, 0),
        (1_000_000, 1_000_000),
    ];
    for (d, r) in samples {
        stab.push(d, r);
        assert!((0..=1_000_000).contains(&stab.ema_drift));
        assert!((0..=1_000_000).contains(&stab.ema_res));
    }
    stab.cfg.ema_alpha = i64::MAX;
    stab.ema_drift = i64::MIN;
    stab.push(500_000, 500_000);
    assert!((0..=1_000_000).contains(&stab.ema_drift));
    assert!((0..=1_000_000).contains(&stab.ema_res));
}

#[test]
fn first_sample_seeds_and_later_ones_blend() {
    let mut stab = Stabilizer::new(default_cfg());
    assert_eq!((stab.ema_drift, stab.ema_res), (0, 0));
    stab.push(200_000, 800_000);
    assert_eq!((stab.ema_drift, stab.ema_res), (200_000, 800_000));
    stab.push(340_000, 700_000);
    assert_eq!((stab.ema_drift, stab.ema_res), (256_000, 760_000));
    stab.push(450_000, 550_000);
    assert_eq!((stab.ema_drift, stab.ema_res), (333_600, 676_000));
    stab.push(2_000_000, -7);
    assert_eq!((stab.ema_drift, stab.ema_res), (600_160, 405_600));
}

#[test]
fn rising_drift_heats_in_order() {
    let mut stab = Stabilizer::new(default_cfg());
    let mut seen = Vec::new();
    let mut drift = 100_000;
    while drift <= 600_000 {
        stab.push(drift, 500_000);
        seen.push(stab.state);
        drift += 50_000;
    }
    let rank = |s: &EmoState| match s {
        EmoState::Normal | EmoState::Cooldown => 0,
        EmoState::Warming => 1,
        EmoState::Overheat => 2,
    };
    for pair in seen.windows(2) {
        assert!(rank(&pair[0]) <= rank(&pair[1]));
    }
    assert_eq!(seen[0], EmoState::Normal);
    assert!(seen.contains(&EmoState::Warming));
    assert_eq!(seen[seen.len() - 1], EmoState::Overheat);
}

#[test]
fn a_jump_in_drift_can_skip_warming() {
    let mut stab = Stabilizer::new(default_cfg());
    stab.push(100_000, 100_000);
    assert_eq!(stab.state, EmoState::Normal);
    stab.push(900_000, 100_000);
    assert_eq!(stab.state, EmoState::Overheat);
}

#[test]
fn hot_drift_with_good_resonance_only_warms() {
    let mut stab = Stabilizer::new(default_cfg());
    stab.push(900_000, 900_000);
    assert_eq!(stab.state, EmoState::Warming);
    stab.push(420_000, 580_000);
    assert_eq!(stab.state, EmoState::Overheat);
}

#[test]
fn new_moves_configuration_into_its_domain() {
    let stab = Stabilizer::new(StabilizerCfg {
        win: 0,
        ema_alpha: 7_000_000,
        warm_drift: -1,
        hot_drift: 1_000_001,
        low_res: -500,
        cool_steps: 0,
        calm_boost: 900_000,
    });
    assert_eq!(stab.cfg.win, 1);
    assert_eq!(stab.cfg.ema_alpha, 1_000_000);
    assert_eq!(stab.cfg.warm_drift, 0);
    assert_eq!(stab.cfg.hot_drift, 1_000_000);
    assert_eq!(stab.cfg.low_res, 0);
    assert_eq!(stab.cfg.cool_steps, 1);
    assert_eq!(stab.cfg.calm_boost, 200_000);
    assert_eq!(stab.window.capacity(), 1);
    assert_eq!(stab.state, EmoState::Normal);
    assert_eq!(stab.steps_in_state, 0);
}

#[test]
fn steps_in_state_stop_at_twice_cool_steps() {
    let mut stab = Stabilizer::new(default_cfg());
    for _ in 0..20 {
        stab.push(100_000, 900_000);
    }
    assert_eq!(stab.state, EmoState::Normal);
    assert_eq!(stab.steps_in_state, 6);
    stab.steps_in_state = usize::MAX;
    stab.push(100_000, 900_000);
    assert_eq!(stab.steps_in_state, 6);
}

#[test]
fn window_wraps_around() {
    let mut cfg = default_cfg();
    cfg.win = 2;
    let mut stab = Stabilizer::new(cfg);
    assert_eq!(stab.window.capacity(), 2);
    for _ in 0..5 {
        stab.push(100_000, 900_000);
    }
    assert_eq!(stab.window.capacity(), 2);
}

#[test]
fn status_line_is_exact() {
    assert_eq!(
        format_status(EmoState::Normal, 256_000, 765_000),
        "[stabilizer] state=Normal ema_drift=0.26 ema_res=0.77"
    );
    assert_eq!(
        format_status(EmoState::Overheat, -5, 3_000_000),
        "[stabilizer] state=Overheat ema_drift=0.00 ema_res=1.00"
    );
    assert_eq!(
        format_status(EmoState::Cooldown, 4_999, 5_000),
        "[stabilizer] state=Cooldown ema_drift=0.00 ema_res=0.01"
    );
    assert_eq!(
        format_status(EmoState::Warming, 1_000_000, 0),
        "[stabilizer] state=Warming ema_drift=1.00 ema_res=0.00"
    );
}

#[test]
fn rising_drift_under_low_resonance_decides_the_state() {
    let mut stab = Stabilizer::new(default_cfg());
    let mut drift = 0;
    while drift <= 1_000_000 {
        stab.push(drift, 580_000);
        let expected = if drift >= 420_000 {
            EmoState::Overheat
        } else if drift >= 320_000 {
            EmoState::Warming
        } else {
            EmoState::Normal
        };
        assert_eq!(stab.state, expected, "at drift {}", drift);
        drift += 10_000;
    }
}
