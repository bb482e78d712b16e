use liminal_voice_core::spark;

fn is_glyph(ch: char) -> bool {
    (0..=8).any(|level| spark::glyph(level) == ch)
}

#[test]
fn sparkline_handles_empty() {
    assert_eq!(spark::sparkline(&[]), "");
}

#[test]
fn sparkline_uses_defined_glyphs() {
    let values = [0, 500_000, 1_000_000];
    let line = spark::sparkline(&values);
    assert_eq!(line.chars().count(), values.len());
    for ch in line.chars() {
        assert!(is_glyph(ch));
    }
}

#[test]
fn sparkline_is_exact() {
    let values = [i64::MIN, 0, 62_499, 62_500, 125_000, 500_000, 937_499, 937_500, 1_000_000, i64::MAX];
    assert_eq!(
        spark::sparkline(&values),
        "   \u{2581}\u{2581}\u{2584}\u{2587}\u{2588}\u{2588}\u{2588}"
    );
    assert_eq!(spark::glyph(0), ' ');
    assert_eq!(spark::glyph(8), '\u{2588}');
    assert_eq!(spark::glyph(usize::MAX), '\u{2588}');
}
