use liminal_voice_core::softguard::{check_and_rephrase, GuardAction, GuardConfig};

fn default_cfg() -> GuardConfig {
    GuardConfig::default()
}

#[test]
fn guard_allows_stable_response() {
    let cfg = default_cfg();
    let result = check_and_rephrase("hello", 200_000, 900_000, &cfg);
    assert!(matches!(result, GuardAction::Pass));
}

#[test]
fn guard_warns_on_high_drift() {
    let cfg = default_cfg();
    let result = check_and_rephrase("hello", cfg.drift_limit + 100_000, cfg.res_limit + 100_000, &cfg);
    match result {
        GuardAction::Warn(msg) => {
            assert!(msg.contains("soft-guard"));
        }
        other => panic!("expected warn, got {:?}", other),
    }
}

#[test]
fn guard_rephrases_when_resonance_low() {
    let cfg = default_cfg();
    let result = check_and_rephrase("excited!", cfg.drift_limit + 200_000, cfg.res_limit - 200_000, &cfg);
    match result {
        GuardAction::Rephrased(text) => {
            assert!(text.contains("[recentered]"));
            assert!(!text.contains("!"));
        }
        other => panic!("expected rephrased, got {:?}", other),
    }
}

#[test]
fn guard_handles_empty_text() {
    let cfg = default_cfg();
    let _ = check_and_rephrase("", cfg.drift_limit + 500_000, cfg.res_limit - 500_000, &cfg);
}

#[test]
fn guard_wording_is_exact() {
    let cfg = GuardConfig::default();
    assert_eq!((cfg.drift_limit, cfg.res_limit, cfg.rephrase_factor), (400_000, 600_000, 200_000));
    match check_and_rephrase("x", 456_000, 600_000, &cfg) {
        GuardAction::Warn(msg) => {
            assert_eq!(msg, "[soft-guard] high drift 0.46 \u{2192} adjusting tone")
        }
        other => panic!("expected warn, got {:?}", other),
    }
    match check_and_rephrase("  so   excited!!  now  ", 400_001, 599_999, &cfg) {
        GuardAction::Rephrased(text) => assert_eq!(text, "so  excited.. now [recentered]"),
        other => panic!("expected rephrased, got {:?}", other),
    }
    assert!(matches!(check_and_rephrase("x", 400_000, 0, &cfg), GuardAction::Pass));
    assert!(matches!(check_and_rephrase("x", 0, 0, &cfg), GuardAction::Pass));
}
