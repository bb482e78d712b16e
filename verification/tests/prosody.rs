use liminal_voice_core::prosody::{self, ToneTag};

#[test]
fn basic_analysis_ranges() {
    let p = prosody::analyze("hello liminal", 1_000_000, 60);
    assert!((60_000_000..=220_000_000).contains(&p.wpm), "unexpected wpm: {}", p.wpm);
    assert!(
        (0..=1_000_000).contains(&p.articulation),
        "unexpected articulation: {}",
        p.articulation
    );
    assert!(matches!(
        p.tone,
        ToneTag::Neutral | ToneTag::Calm | ToneTag::Energetic
    ));
}

#[test]
fn empty_text_safe() {
    let p = prosody::analyze("", 1_000_000, 60);
    assert!(p.wpm >= 0);
    assert!((0..=1_000_000).contains(&p.articulation));
}

#[test]
fn extreme_parameters_clamped() {
    let slow = prosody::analyze("slow", 500_000, 20);
    assert!((0..=220_000_000).contains(&slow.wpm));
    assert!((0..=1_000_000).contains(&slow.articulation));

    let fast = prosody::analyze("fast", 1_500_000, 200);
    assert!((0..=220_000_000).contains(&fast.wpm));
    assert!((0..=1_000_000).contains(&fast.articulation));
}

#[test]
fn articulation_hint_clamped() {
    let boosted = prosody::apply_articulation_hint(900_000, 200_000);
    assert!((0..=1_000_000).contains(&boosted));
    let reduced = prosody::apply_articulation_hint(50_000, -200_000);
    assert!((0..=1_000_000).contains(&reduced));
}

#[test]
fn analysis_is_exact() {
    let p = prosody::analyze("hello liminal", 1_000_000, 60);
    assert_eq!(p.wpm, 110_000_000);
    assert_eq!(p.articulation, 637_500);
    assert_eq!(p.tone, ToneTag::Calm);
    let q = prosody::analyze("", 1_050_000, 40);
    assert_eq!(q.wpm, 173_250_000);
    assert_eq!(q.tone, ToneTag::Neutral);
    let r = prosody::analyze("", 1_300_000, 5);
    assert_eq!(r.wpm, 220_000_000);
    assert_eq!(r.tone, ToneTag::Energetic);
    assert_eq!(r.articulation, 163_462);
    let s = prosody::analyze("", -5, u64::MAX);
    assert_eq!((s.wpm, s.articulation, s.tone), (0, 1_000_000, ToneTag::Calm));
    assert_eq!(prosody::apply_articulation_hint(900_000, 200_000), 1_000_000);
    assert_eq!(prosody::apply_articulation_hint(50_000, -200_000), 0);
    assert_eq!(prosody::apply_articulation_hint(500_000, 20_000), 520_000);
}
