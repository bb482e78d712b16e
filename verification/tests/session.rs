use liminal_voice_core::session::{escape_json, unescape_json};

#[test]
fn escape_handles_quotes() {
    assert_eq!(escape_json("\"test\\"), "\\\"test\\\\");
}

#[test]
fn escape_handles_control_characters() {
    assert_eq!(escape_json("a\nb\rc\td"), "a\\nb\\rc\\td");
    assert_eq!(escape_json(""), "");
    assert_eq!(escape_json("plain é"), "plain é");
}

#[test]
fn unescape_reads_escapes_back() {
    assert_eq!(unescape_json("\\\"test\\\\"), "\"test\\");
    assert_eq!(unescape_json("a\\nb\\rc\\td"), "a\nb\rc\td");
    assert_eq!(unescape_json("\\x\\"), "x");
    assert_eq!(unescape_json(""), "");
}

#[test]
fn unescape_undoes_escape() {
    for text in ["", "\"", "\\", "\\n", "a\"b\\c\nd\re\tf", "\\\\\"\"", "tab\there"] {
        assert_eq!(unescape_json(&escape_json(text)), text);
    }
}
