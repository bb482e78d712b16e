use liminal_voice_core::viz;

#[test]
fn bar_zero_empty() {
    assert!(viz::bar(0, 10).is_empty());
}

#[test]
fn bar_full_length() {
    assert_eq!(viz::bar(1_000_000, 10).len(), 10);
}

#[test]
fn bar_is_exact() {
    assert_eq!(viz::bar(500_000, 10), "#####");
    assert_eq!(viz::bar(449_999, 10), "####");
    assert_eq!(viz::bar(450_000, 10), "#####");
    assert_eq!(viz::bar(7_000_000, 3), "###");
    assert_eq!(viz::bar(-1, 3), "");
    assert_eq!(viz::bar(1, 3), "");
    assert_eq!(viz::bar(1_000_000, 0), "");
}

#[test]
fn rows_are_padded_to_their_columns() {
    assert_eq!(
        viz::format_row("Tone", "Neutral"),
        "| Tone                   | Neutral                   |"
    );
    assert_eq!(
        viz::format_row("a label that is far too long", ""),
        "| a label that is far too long |                           |"
    );
    assert_eq!(viz::format_row("é", "ü").chars().count(), 2 + 22 + 3 + 25 + 2);
}

#[test]
fn bar_entries_show_number_and_bar() {
    assert_eq!(viz::format_bar_entry(0), "0.00");
    assert_eq!(viz::format_bar_entry(120_000), "0.12  ##                 ");
    assert_eq!(viz::format_bar_entry(1_000_000), "1.00  ###################");
    assert_eq!(viz::format_bar_entry(20_000), "0.02");
    assert_eq!(viz::format_bar_entry(-500_000), "-0.50");
}
