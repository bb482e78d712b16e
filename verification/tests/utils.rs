use liminal_voice_core::adaptive_qa::{analyze_prompt, apply_prosody_bias};
use liminal_voice_core::config::VizMode;
use liminal_voice_core::dialog::default_utterance;
use liminal_voice_core::metrics::clamp01;
use liminal_voice_core::prosody::ToneTag;
use liminal_voice_core::topic::{key_for, scale_to_20};
use liminal_voice_core::utils::{hash01, hash_of, normalize_text};
use liminal_voice_core::voice_io::record_audio;

#[test]
fn clamp01_bounds() {
    assert_eq!(clamp01(-500_000), 0);
    assert_eq!(clamp01(500_000), 500_000);
    assert_eq!(clamp01(1_500_000), 1_000_000);
}

#[test]
fn clamp01_keeps_the_ends() {
    assert_eq!(clamp01(0), 0);
    assert_eq!(clamp01(1_000_000), 1_000_000);
    assert_eq!(clamp01(i64::MIN), 0);
    assert_eq!(clamp01(i64::MAX), 1_000_000);
}

#[test]
fn normalize_text_trims_and_lowers() {
    assert_eq!(normalize_text("  HeLLo Liminal \n"), "hello liminal");
    assert_eq!(normalize_text("ÄÖ Ü"), "äö ü");
    assert_eq!(normalize_text("\u{3000}x\u{2003}"), "x");
    assert_eq!(normalize_text("   "), "");
}

#[test]
fn hash_is_stable() {
    assert_eq!(hash_of(""), 0xcbf2_29d1_821f_1cfd);
    assert_eq!(hash01("abc"), (380_117, 446_311));
    assert_eq!(hash01("abc"), hash01("abc"));
    assert_ne!(hash01("abc"), hash01("abd"));
    let (a, b) = hash01("memory drift and resonance|calm");
    assert!((0..=1_000_000).contains(&a));
    assert!((0..=1_000_000).contains(&b));
}

#[test]
fn scaling_to_twenty_bits_follows_single_precision() {
    assert_eq!(scale_to_20(0), 0);
    assert_eq!(scale_to_20(1), 16);
    assert_eq!(scale_to_20(2168), 34_689);
    assert_eq!(scale_to_20(65_535), 1_048_575);
}

#[test]
fn key_for_squeezes_white_space() {
    assert_eq!(key_for("memory drift and resonance", ToneTag::Calm), "astro-668b6e226d");
    assert_eq!(key_for(" memory\t drift  and\nresonance ", ToneTag::Calm), "astro-668b6e226d");
    assert_ne!(key_for("memorydrift and resonance", ToneTag::Calm), "astro-668b6e226d");
    assert_eq!(key_for("hello liminal", ToneTag::Neutral), "astro-29492cf74c");
}

#[test]
fn analyze_prompt_stays_in_unit_range() {
    for _ in 0..200 {
        let (drift, res) = analyze_prompt("anything");
        assert!((0..=1_000_000).contains(&drift));
        assert!((0..=1_000_000).contains(&res));
    }
}

#[test]
fn prosody_bias_by_tone() {
    assert_eq!(apply_prosody_bias(300_000, 700_000, &ToneTag::Neutral), (300_000, 700_000));
    assert_eq!(apply_prosody_bias(300_000, 700_000, &ToneTag::Calm), (300_000, 720_000));
    assert_eq!(apply_prosody_bias(300_000, 700_000, &ToneTag::Energetic), (320_000, 690_000));
    assert_eq!(apply_prosody_bias(990_000, 5_000, &ToneTag::Energetic), (1_000_000, 0));
    assert_eq!(apply_prosody_bias(i64::MAX, i64::MAX, &ToneTag::Calm), (1_000_000, 1_000_000));
    assert_eq!(apply_prosody_bias(i64::MIN, i64::MIN, &ToneTag::Energetic), (0, 0));
}

#[test]
fn viz_mode_from_words() {
    assert_eq!(VizMode::from_str("compact"), Some(VizMode::Compact));
    assert_eq!(VizMode::from_str("  FULL \n"), Some(VizMode::Full));
    assert_eq!(VizMode::from_str("Compact"), Some(VizMode::Compact));
    assert_eq!(VizMode::from_str("fuller"), None);
    assert_eq!(VizMode::from_str(""), None);
}

#[test]
fn fixed_texts() {
    assert_eq!(default_utterance(), "hello liminal");
    assert_eq!(record_audio(), "recorded.wav");
}
