use liminal_voice_core::config::{arg_kind, env_key, from_env_or_args, ArgKind, Config, Key, VizMode};

fn args(words: &[&str]) -> Vec<String> {
    words.iter().map(|w| w.to_string()).collect()
}

fn env(pairs: &[(&str, &str)]) -> Vec<(String, String)> {
    pairs.iter().map(|(n, v)| (n.to_string(), v.to_string())).collect()
}

#[test]
fn defaults_are_as_documented() {
    let cfg = Config::default();
    assert_eq!(cfg.mode, "phone");
    assert_eq!((cfg.sample_rate, cfg.channels, cfg.frame_ms), (16_000, 1, 20));
    assert!(cfg.enable_metrics && !cfg.enable_logging);
    assert_eq!(cfg.viz_mode, VizMode::Compact);
    assert_eq!(cfg.cycles, 5);
    assert_eq!(cfg.log_dir, "logs");
    assert_eq!((cfg.script.clone(), cfg.inputs_path.clone()), (None, None));
    assert_eq!((cfg.baseline_drift, cfg.baseline_res), (350_000, 650_000));
    assert!(cfg.alarm && !cfg.strict && cfg.guard);
    assert_eq!((cfg.guard_drift, cfg.guard_res, cfg.guard_factor), (400_000, 600_000, 200_000));
    assert!(cfg.sync);
    assert_eq!((cfg.sync_lr_fast, cfg.sync_lr_slow, cfg.sync_step), (150_000, 50_000, 20_000));
    assert!(cfg.stabilizer);
    assert_eq!((cfg.stab_win, cfg.stab_alpha, cfg.stab_warm), (5, 400_000, 320_000));
    assert_eq!((cfg.stab_hot, cfg.stab_low_res, cfg.stab_cool, cfg.stab_calm), (420_000, 580_000, 3, 80_000));
    assert!(cfg.astro);
    assert_eq!(cfg.astro_path, "astro_traces.jsonl");
    assert_eq!(cfg.astro_cache, 512);
    assert!(cfg.memory);
    assert_eq!(cfg.memory_path, "device_memory.jsonl");
    assert!(cfg.emote);
    assert_eq!(cfg.emote_path, "emote_seed.jsonl");
    assert_eq!((cfg.emote_half_life, cfg.emote_warm), (180, 20_000));
    assert!(!cfg.awareness && !cfg.meta_viz && !cfg.compassion && !cfg.compassion_viz);
    assert_eq!((cfg.meta_stab_alpha, cfg.compassion_threshold), (250_000, 500_000));
}

#[test]
fn nothing_set_gives_the_defaults() {
    let cfg = from_env_or_args(&env(&[("HOME", "/root"), ("PATH", "/bin")]), &args(&[]));
    assert_eq!(format!("{:?}", cfg), format!("{:?}", Config::default()));
}

#[test]
fn arguments_set_values_and_flags() {
    let cfg = from_env_or_args(
        &env(&[]),
        &args(&[
            "--mode", "HeadSet", "--cycles", "7", "--no-metrics", "--viz", " FULL ", "--log",
            "--baseline-drift", "0.25", "--stab-alpha", "1", "--sync-step", "-0.5", "--script",
            "a;b", "--inputs", "in.txt", "--strict", "--no-guard", "--stab-cool", "4",
            "--channels", "2", "--emote-half-life", "+90", "--unknown", "--stab-lowres", ".5",
        ]),
    );
    assert_eq!(cfg.mode, "headset");
    assert_eq!(cfg.cycles, 7);
    assert!(!cfg.enable_metrics);
    assert_eq!(cfg.viz_mode, VizMode::Full);
    assert!(cfg.enable_logging);
    assert_eq!(cfg.baseline_drift, 250_000);
    assert_eq!(cfg.stab_alpha, 1_000_000);
    assert_eq!(cfg.sync_step, -500_000);
    assert_eq!(cfg.script, Some("a;b".to_string()));
    assert_eq!(cfg.inputs_path, Some("in.txt".to_string()));
    assert!(cfg.strict && !cfg.guard);
    assert_eq!(cfg.stab_cool, 4);
    assert_eq!(cfg.channels, 2);
    assert_eq!(cfg.emote_half_life, 90);
    assert_eq!(cfg.stab_low_res, 500_000);
}

#[test]
fn values_that_cannot_be_read_change_nothing() {
    let cfg = from_env_or_args(
        &env(&[]),
        &args(&[
            "--cycles", "0", "--stab-win", "-3", "--channels", "70000", "--sample-rate", "x",
            "--baseline-res", "high", "--viz", "tiny", "--log-dir", "  ", "--inputs", "",
            "--stab-cool", "99999999999999999999999", "--frame-ms", "4294967296", "--mode",
        ]),
    );
    assert_eq!(format!("{:?}", cfg), format!("{:?}", Config::default()));
}

#[test]
fn a_value_is_passed_over_even_where_it_looks_like_a_flag() {
    let cfg = from_env_or_args(&env(&[]), &args(&["--cycles", "--strict", "--no-alarm"]));
    assert!(!cfg.strict);
    assert!(!cfg.alarm);
    assert_eq!(cfg.cycles, 5);
    let cfg = from_env_or_args(&env(&[]), &args(&["--script", "", "--mode", ""]));
    assert_eq!(cfg.script, Some(String::new()));
    assert_eq!(cfg.mode, "");
}

#[test]
fn the_environment_sets_values_and_arguments_override_it() {
    let cfg = from_env_or_args(
        &env(&[
            ("LIMINAL_MODE", "Terminal"),
            ("LIMINAL_CYCLES", "9"),
            ("LIMINAL_LOG", "YES"),
            ("LIMINAL_ASTRO", "off"),
            ("LIMINAL_ASTRO_PATH", "traces/a.jsonl"),
            ("LIMINAL_ASTRO_CACHE", "64"),
            ("LIMINAL_SYNC_LR_FAST", "0.3"),
            ("LIMINAL_ENABLE_METRICS", "maybe"),
            ("LIMINAL_VIZ_MODE", "full"),
            ("LIMINAL_LOG_DIR", "out"),
            ("LIMINAL_COMPASSION", "1"),
            ("LIMINAL_MEMORY", "0"),
        ]),
        &args(&["--cycles", "2", "--memory"]),
    );
    assert_eq!(cfg.mode, "terminal");
    assert_eq!(cfg.cycles, 2);
    assert!(cfg.enable_logging);
    assert!(!cfg.astro);
    assert_eq!(cfg.astro_path, "traces/a.jsonl");
    assert_eq!(cfg.astro_cache, 64);
    assert_eq!(cfg.sync_lr_fast, 300_000);
    assert!(cfg.enable_metrics);
    assert_eq!(cfg.viz_mode, VizMode::Full);
    assert_eq!(cfg.log_dir, "out");
    assert!(cfg.compassion);
    assert!(cfg.memory);
    let blank = from_env_or_args(&env(&[("LIMINAL_MODE", "  "), ("LIMINAL_LOG_DIR", "")]), &args(&[]));
    assert_eq!(blank.mode, "phone");
    assert_eq!(blank.log_dir, "logs");
}

#[test]
fn names_are_known_exactly() {
    assert_eq!(env_key("LIMINAL_MODE"), Some(Key::Mode));
    assert_eq!(env_key("LIMINAL_LOG"), Some(Key::EnableLogging));
    assert_eq!(env_key("LIMINAL_LOG_DIR"), Some(Key::LogDir));
    assert_eq!(env_key("liminal_mode"), None);
    assert_eq!(env_key("LIMINAL_SCRIPT"), None);
    assert_eq!(arg_kind("--stab-lowres"), ArgKind::Takes(Key::StabLowRes));
    assert_eq!(arg_kind("--no-stabilizer"), ArgKind::Switch(Key::Stabilizer, false));
    assert_eq!(arg_kind("--meta-viz"), ArgKind::Switch(Key::MetaViz, true));
    assert_eq!(arg_kind("--astro"), ArgKind::Unknown);
    assert_eq!(arg_kind("mode"), ArgKind::Unknown);
}
