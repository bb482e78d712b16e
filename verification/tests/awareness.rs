use liminal_voice_core::awareness::{MetaCognition, MetaStabilizer};

#[test]
fn test_awareness_basic_flow() {
    let mut meta = MetaCognition::new();

    // Simulate stable conversation
    for _ in 0..5 {
        meta.observe(150_000, 850_000, "Normal", 10_000);
    }

    assert!(meta.confidence > 700_000);
    assert!(meta.clarity > 600_000);
    assert!(meta.doubt < 400_000);
    assert!(!meta.should_express_doubt());
}

#[test]
fn test_awareness_uncertain_state() {
    let mut meta = MetaCognition::new();

    // Simulate chaotic conversation
    meta.observe(900_000, 200_000, "Overheat", 800_000);

    assert!(meta.doubt > 500_000);
    assert!(meta.confidence < 500_000);
    assert!(meta.should_express_doubt());
}

#[test]
fn test_meta_stabilizer_smoothing() {
    let mut stabilizer = MetaStabilizer::new(300_000);
    let mut meta = MetaCognition::new();

    // Spike in self-drift
    meta.observe(800_000, 300_000, "Overheat", 700_000);
    stabilizer.update(&meta);

    let (drift, _) = stabilizer.get_stable_metrics();

    // Should be smoothed (less than raw value)
    assert!(drift < meta.self_drift);
}

#[test]
fn test_clarity_increases_with_observations() {
    let mut meta = MetaCognition::new();
    let initial_clarity = meta.clarity;

    // Many stable observations
    for _ in 0..10 {
        meta.observe(200_000, 800_000, "Normal", 10_000);
    }

    assert!(meta.clarity > initial_clarity);
    assert!(meta.is_clear_and_stable());
}

#[test]
fn test_metacognition_initialization() {
    let meta = MetaCognition::new();
    assert_eq!(meta.observation_count, 0);
    assert!(meta.confidence > 0 && meta.confidence <= 1_000_000);
    assert_eq!(meta.self_drift, 0);
    assert_eq!(meta.self_resonance, 1_000_000);
}

#[test]
fn test_observe_increases_count() {
    let mut meta = MetaCognition::new();
    meta.observe(200_000, 800_000, "Normal", 10_000);
    assert_eq!(meta.observation_count, 1);

    meta.observe(300_000, 700_000, "Normal", 20_000);
    assert_eq!(meta.observation_count, 2);
}

#[test]
fn test_self_resonance_varies_by_stabilizer_state() {
    let mut meta = MetaCognition::new();

    meta.observe(200_000, 800_000, "Normal", 10_000);
    let normal_resonance = meta.self_resonance;

    meta.observe(200_000, 800_000, "Overheat", 10_000);
    let overheat_resonance = meta.self_resonance;

    // Overheat state should reduce self_resonance
    assert!(overheat_resonance < normal_resonance);
}

#[test]
fn test_high_sync_corrections_increase_self_drift() {
    let mut meta = MetaCognition::new();

    meta.observe(200_000, 800_000, "Normal", 10_000);
    let low_correction_drift = meta.self_drift;

    meta.observe(200_000, 800_000, "Normal", 500_000);
    let high_correction_drift = meta.self_drift;

    // High sync corrections should increase self_drift
    assert!(high_correction_drift > low_correction_drift);
}

#[test]
fn test_meta_stabilizer_needs_more_awareness() {
    let mut stabilizer = MetaStabilizer::new(300_000);
    let mut meta = MetaCognition::new();

    // Start with good state
    meta.observe(200_000, 800_000, "Normal", 10_000);
    stabilizer.update(&meta);
    assert!(!stabilizer.needs_more_awareness());

    // Chaotic state
    for _ in 0..5 {
        meta.observe(900_000, 200_000, "Overheat", 700_000);
        stabilizer.update(&meta);
    }
    assert!(stabilizer.needs_more_awareness());
}

#[test]
fn test_self_assess_message() {
    let mut meta = MetaCognition::new();

    // Clear and stable state
    for _ in 0..10 {
        meta.observe(150_000, 850_000, "Normal", 10_000);
    }
    let message = meta.self_assess();
    assert!(message.contains("Clear & Stable") || message.contains("Observing"));

    // Uncertain state
    let mut meta2 = MetaCognition::new();
    meta2.observe(950_000, 100_000, "Overheat", 900_000);
    let message2 = meta2.self_assess();
    assert!(message2.contains("Uncertain"));
}

#[test]
fn test_default_implementation() {
    let meta1 = MetaCognition::new();
    let meta2 = MetaCognition::default();

    assert_eq!(meta1.observation_count, meta2.observation_count);
    assert_eq!(meta1.confidence, meta2.confidence);
}


#[test]
fn awareness_test_metacognition_initialization() {
    let meta = MetaCognition::new();
    assert_eq!(meta.observation_count, 0);
    assert!(meta.confidence > 0 && meta.confidence <= 1_000_000);
}

#[test]
fn test_observe_increases_clarity() {
    let mut meta = MetaCognition::new();
    let initial_clarity = meta.clarity;

    // Multiple observations should increase clarity
    for _ in 0..5 {
        meta.observe(200_000, 800_000, "Normal", 10_000);
    }

    assert!(meta.clarity > initial_clarity);
}

#[test]
fn test_high_drift_low_resonance_increases_doubt() {
    let mut meta = MetaCognition::new();
    meta.observe(900_000, 200_000, "Overheat", 500_000);

    assert!(meta.doubt > 500_000);
    assert!(meta.confidence < 500_000);
}

#[test]
fn test_meta_stabilizer() {
    let mut stabilizer = MetaStabilizer::new(300_000);
    let mut meta = MetaCognition::new();

    meta.observe(500_000, 500_000, "Normal", 100_000);
    stabilizer.update(&meta);

    let (drift, conf) = stabilizer.get_stable_metrics();
    assert!(drift >= 0 && drift <= 1_000_000);
    assert!(conf >= 0 && conf <= 1_000_000);
}

#[test]
fn test_should_express_doubt() {
    let mut meta = MetaCognition::new();

    // High drift, low resonance should trigger doubt
    meta.observe(950_000, 100_000, "Overheat", 800_000);
    assert!(meta.should_express_doubt());
}

#[test]
fn test_is_clear_and_stable() {
    let mut meta = MetaCognition::new();

    // Multiple stable observations
    for _ in 0..10 {
        meta.observe(150_000, 850_000, "Normal", 10_000);
    }

    assert!(meta.is_clear_and_stable());
}

#[test]
fn observe_is_exact() {
    let mut meta = MetaCognition::new();
    meta.observe(150_000, 850_000, "Normal", -10_000);
    assert_eq!(meta.self_drift, 50_000);
    assert_eq!(meta.self_resonance, 950_000);
    assert_eq!(meta.confidence, 722_500);
    assert_eq!(meta.clarity, 772_500);
    assert_eq!(meta.doubt, 277_500);
    meta.observe(150_000, 850_000, "Cooldown", 300_000);
    assert_eq!(meta.self_drift, 1_000_000);
    assert_eq!(meta.self_resonance, 750_000);
    assert_eq!(meta.clarity, 822_500);
    meta.observe(0, 1_000_000, "unknown", 0);
    assert_eq!(meta.self_resonance, 1_000_000);
    assert_eq!((meta.confidence, meta.clarity, meta.doubt), (1_000_000, 1_000_000, 100_000));
    meta.observe(0, 7_000_000, "unknown", 0);
    assert_eq!(meta.self_resonance, 7_000_000);
    assert_eq!(
        meta.self_assess(),
        "self_state=Clear & Stable conf=1.00 clarity=1.00 doubt=0.10"
    );
}

#[test]
fn meta_stabilizer_is_exact() {
    let mut stabilizer = MetaStabilizer::new(300_000);
    let mut meta = MetaCognition::new();
    meta.observe(800_000, 300_000, "Overheat", 700_000);
    stabilizer.update(&meta);
    assert_eq!(stabilizer.get_stable_metrics(), (300_000, 368_000));
    assert!(stabilizer.needs_more_awareness());
}
