use liminal_voice_core::compassion::{CompassionAdjustments, CompassionMetrics, SufferingType};
use liminal_voice_core::prosody::ToneTag;


#[test]
fn test_no_suffering_baseline() {
    let mut comp = CompassionMetrics::new();

    // Low drift, high resonance, normal state
    comp.detect_suffering(100_000, 800_000, ToneTag::Calm, 150_000_000, "Normal", false);

    assert_eq!(comp.suffering_type, SufferingType::Absent);
    assert!(comp.user_suffering < 300_000);
}

#[test]
fn test_high_drift_triggers_suffering() {
    let mut comp = CompassionMetrics::new();

    // High drift + low resonance = emotional chaos
    comp.detect_suffering(950_000, 300_000, ToneTag::Neutral, 150_000_000, "Normal", false);

    assert!(comp.user_suffering > 500_000);
    assert_ne!(comp.suffering_type, SufferingType::Absent);
}

#[test]
fn test_overheat_state_increases_suffering() {
    let mut comp = CompassionMetrics::new();

    // Overheat state should add to suffering score
    comp.detect_suffering(300_000, 600_000, ToneTag::Calm, 150_000_000, "Overheat", false);

    assert!(comp.user_suffering > 200_000);
}

#[test]
fn test_fast_energetic_speech_signals_anxiety() {
    let mut comp = CompassionMetrics::new();

    // Fast + energetic = anxiety
    comp.detect_suffering(400_000, 500_000, ToneTag::Energetic, 200_000_000, "Normal", false);

    assert!(comp.user_suffering > 150_000);
}

#[test]
fn test_repeated_theme_increases_suffering() {
    let mut comp = CompassionMetrics::new();

    // First without repeated theme
    comp.detect_suffering(300_000, 600_000, ToneTag::Calm, 150_000_000, "Normal", false);
    let suffering_without_repeat = comp.user_suffering;

    // Reset and test with repeated theme
    comp = CompassionMetrics::new();
    comp.detect_suffering(300_000, 600_000, ToneTag::Calm, 150_000_000, "Normal", true);
    let suffering_with_repeat = comp.user_suffering;

    assert!(suffering_with_repeat > suffering_without_repeat);
    assert_eq!(comp.suffering_streak, 1);
}

#[test]
fn test_suffering_streak_accumulates() {
    let mut comp = CompassionMetrics::new();

    // Build up streak with repeated theme
    for _ in 0..5 {
        comp.detect_suffering(500_000, 500_000, ToneTag::Calm, 150_000_000, "Normal", true);
    }

    assert!(comp.suffering_streak >= 5);
    // Extended streak (>2) should increase suffering further
    assert!(comp.user_suffering > 400_000);
}

#[test]
fn test_suffering_streak_resets_without_repeat() {
    let mut comp = CompassionMetrics::new();

    // Build up streak
    for _ in 0..3 {
        comp.detect_suffering(500_000, 500_000, ToneTag::Calm, 150_000_000, "Normal", true);
    }
    assert!(comp.suffering_streak > 0);

    // Break the streak
    comp.detect_suffering(200_000, 800_000, ToneTag::Calm, 150_000_000, "Normal", false);
    assert_eq!(comp.suffering_streak, 0);
}

#[test]
fn test_suffering_type_classification() {
    let mut comp = CompassionMetrics::new();

    // None (< 200_000)
    comp.detect_suffering(100_000, 900_000, ToneTag::Calm, 150_000_000, "Normal", false);
    assert_eq!(comp.suffering_type, SufferingType::Absent);

    // Mild (200_000-400_000) - Need drift > 500_000 to trigger, let's use 550_000 with resonance 500_000
    comp.detect_suffering(550_000, 500_000, ToneTag::Calm, 150_000_000, "Normal", false);
    assert_eq!(comp.suffering_type, SufferingType::Mild);

    // Moderate/Severe (>400_000) - High drift + low resonance + overheat
    comp.detect_suffering(800_000, 300_000, ToneTag::Energetic, 200_000_000, "Overheat", false);
    assert!(matches!(
        comp.suffering_type,
        SufferingType::Moderate | SufferingType::Severe
    ));
}

#[test]
fn test_calculate_kindness_with_interventions() {
    let mut comp = CompassionMetrics::new();

    // First detect suffering
    comp.detect_suffering(800_000, 300_000, ToneTag::Neutral, 150_000_000, "Overheat", true);

    // Calculate kindness with some interventions
    comp.calculate_kindness(true, -50_000, 20, 100_000);

    // Kindness should be positive with interventions
    assert!(comp.response_kindness > 500_000);
}

#[test]
fn test_calculate_kindness_without_interventions() {
    let mut comp = CompassionMetrics::new();

    // Detect suffering
    comp.detect_suffering(700_000, 400_000, ToneTag::Neutral, 150_000_000, "Normal", false);

    // No interventions
    comp.calculate_kindness(false, 0, 0, 0);

    // Kindness should still be present but lower
    assert!(comp.response_kindness >= 500_000);
}

#[test]
fn test_update_compassion_level() {
    let mut comp = CompassionMetrics::new();

    // Set up some values
    comp.detect_suffering(600_000, 400_000, ToneTag::Neutral, 150_000_000, "Normal", false);
    comp.calculate_kindness(true, -30_000, 15, 50_000);
    comp.update_compassion_level();

    // Compassion level = suffering * 500_000 + healing * 300_000 + kindness * 200_000
    let expected =
        (5 * comp.user_suffering + 3 * comp.healing_intent + 2 * comp.response_kindness) / 10;
    assert!((comp.compassion_level - expected).abs() < 10_000);
}

#[test]
fn test_should_offer_support() {
    let mut comp = CompassionMetrics::new();

    // Low suffering - no support needed
    comp.detect_suffering(100_000, 900_000, ToneTag::Calm, 150_000_000, "Normal", false);
    assert!(!comp.should_offer_support());

    // High suffering - support needed
    comp.detect_suffering(900_000, 200_000, ToneTag::Energetic, 200_000_000, "Overheat", true);
    assert!(comp.should_offer_support());
}

#[test]
fn test_should_activate_compassion() {
    let mut comp = CompassionMetrics::new();

    // No suffering
    comp.detect_suffering(100_000, 900_000, ToneTag::Calm, 150_000_000, "Normal", false);
    comp.update_compassion_level();
    assert!(!comp.should_activate_compassion());

    // Significant suffering
    comp.detect_suffering(800_000, 300_000, ToneTag::Neutral, 150_000_000, "Overheat", true);
    comp.calculate_kindness(true, -50_000, 20, 100_000);
    comp.update_compassion_level();
    assert!(comp.should_activate_compassion());
}

#[test]
fn test_get_adjustments_scales_with_suffering() {
    let mut comp = CompassionMetrics::new();

    // Mild suffering
    comp.detect_suffering(300_000, 600_000, ToneTag::Calm, 150_000_000, "Normal", false);
    comp.update_compassion_level();
    let adj_mild = CompassionAdjustments::from_compassion(&comp);

    // Severe suffering
    comp.detect_suffering(900_000, 200_000, ToneTag::Energetic, 200_000_000, "Overheat", true);
    comp.calculate_kindness(true, -100_000, 30, 150_000);
    comp.update_compassion_level();
    let adj_severe = CompassionAdjustments::from_compassion(&comp);

    // Severe should have stronger adjustments
    assert!(adj_severe.resonance_boost > adj_mild.resonance_boost);
    assert!(adj_severe.drift_reduction.abs() > adj_mild.drift_reduction.abs());
}

#[test]
fn test_status_message_format() {
    let mut comp = CompassionMetrics::new();
    comp.detect_suffering(600_000, 400_000, ToneTag::Neutral, 150_000_000, "Normal", true);
    comp.calculate_kindness(false, 0, 0, 0);
    comp.update_compassion_level();

    let msg = comp.status_message();

    // Should contain "Compassion" and "suffering" at minimum
    assert!(msg.contains("Compassion"));
    assert!(msg.contains("suffering"));
}

#[test]
fn test_healing_intent_increases_with_suffering() {
    let mut comp = CompassionMetrics::new();

    // Low suffering
    comp.detect_suffering(100_000, 900_000, ToneTag::Calm, 150_000_000, "Normal", false);
    let healing_low = comp.healing_intent;

    // High suffering
    comp.detect_suffering(900_000, 200_000, ToneTag::Energetic, 200_000_000, "Overheat", true);
    let healing_high = comp.healing_intent;

    assert!(healing_high > healing_low);
}

#[test]
fn test_suffering_count_increments() {
    let mut comp = CompassionMetrics::new();

    assert_eq!(comp.suffering_count, 0);

    // Below threshold (200_000) - should not increment
    comp.detect_suffering(100_000, 900_000, ToneTag::Calm, 150_000_000, "Normal", false);
    assert_eq!(comp.suffering_count, 0);

    // Above threshold - should increment
    comp.detect_suffering(600_000, 400_000, ToneTag::Neutral, 150_000_000, "Normal", false);
    assert!(comp.suffering_count > 0);

    // Another above threshold
    comp.detect_suffering(700_000, 300_000, ToneTag::Energetic, 180_000_000, "Overheat", false);
    assert!(comp.suffering_count > 1);
}


#[test]
fn test_compassion_initialization() {
    let comp = CompassionMetrics::new();
    assert_eq!(comp.user_suffering, 0);
    assert_eq!(comp.suffering_type, SufferingType::Absent);
    assert!(comp.response_kindness > 0);
}

#[test]
fn test_detect_high_drift_low_resonance_suffering() {
    let mut comp = CompassionMetrics::new();
    comp.detect_suffering(900_000, 300_000, ToneTag::Energetic, 150_000_000, "Overheat", false);

    assert!(comp.user_suffering > 500_000);
    assert!(matches!(
        comp.suffering_type,
        SufferingType::Moderate | SufferingType::Severe
    ));
}

#[test]
fn test_suffering_streak_increases_score() {
    let mut comp = CompassionMetrics::new();

    // First detection with repeated theme
    comp.detect_suffering(600_000, 500_000, ToneTag::Neutral, 150_000_000, "Normal", true);
    let first_score = comp.user_suffering;

    // Second detection with repeated theme
    comp.detect_suffering(600_000, 500_000, ToneTag::Neutral, 150_000_000, "Normal", true);
    let second_score = comp.user_suffering;

    // Streak should increase suffering
    assert!(second_score >= first_score);
    assert_eq!(comp.suffering_streak, 2);
}

#[test]
fn test_kindness_calculation() {
    let mut comp = CompassionMetrics::new();

    // Compassionate actions: rephrased, slowed down, added pauses, boosted resonance
    comp.calculate_kindness(true, -50_000, 25, 30_000);

    assert!(comp.response_kindness > 700_000);
}

#[test]
fn test_compassion_activation() {
    let mut comp = CompassionMetrics::new();

    // Detect severe suffering
    comp.detect_suffering(950_000, 200_000, ToneTag::Energetic, 200_000_000, "Overheat", true);
    comp.calculate_kindness(true, -100_000, 50, 50_000);
    comp.update_compassion_level();

    assert!(comp.should_activate_compassion());
    assert!(comp.should_offer_support());
}

#[test]
fn test_compassion_adjustments() {
    let mut comp = CompassionMetrics::new();
    comp.compassion_level = 800_000;

    let adj = CompassionAdjustments::from_compassion(&comp);

    assert!(adj.resonance_boost > 0);
    assert!(adj.pace_adjustment < 0); // Slower
    assert!(adj.pause_adjustment_ms > 0); // More pauses
    assert!(adj.drift_reduction > 0);
}

#[test]
fn detection_is_exact() {
    let mut comp = CompassionMetrics::new();
    comp.detect_suffering(550_000, 500_000, ToneTag::Calm, 150_000_000, "Normal", false);
    assert_eq!(comp.user_suffering, 250_000);
    assert_eq!(comp.suffering_type, SufferingType::Mild);
    assert_eq!(comp.healing_intent, 475_000);
    assert_eq!(comp.suffering_count, 1);
    comp.calculate_kindness(true, -50_000, 15, 30_000);
    assert_eq!(comp.response_kindness, 935_000);
    comp.update_compassion_level();
    assert_eq!(comp.compassion_level, 454_500);
    assert!(!comp.should_activate_compassion());
    assert_eq!(
        CompassionAdjustments::from_compassion(&comp),
        CompassionAdjustments {
            resonance_boost: 45_450,
            pace_adjustment: -22_725,
            pause_adjustment_ms: 13,
            drift_reduction: 36_360,
        }
    );
    assert_eq!(
        comp.status_message(),
        "Compassion: Gentle Care (suffering=0.25, healing=0.48)"
    );
    comp.detect_suffering(900_000, 200_000, ToneTag::Energetic, 200_000_000, "Overheat", true);
    assert_eq!(comp.user_suffering, 1_000_000);
    assert_eq!(comp.suffering_type, SufferingType::Severe);
    assert_eq!(
        comp.status_message(),
        "Compassion: \u{2764}\u{fe0f}  Deep Care (suffering=1.00, streak=1)"
    );
}
