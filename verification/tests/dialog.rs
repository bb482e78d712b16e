use liminal_voice_core::config::Config;
use liminal_voice_core::dialog::{default_utterance, inputs_from, load_inputs};

#[test]
fn load_inputs_from_script() {
    let mut cfg = Config::default();
    cfg.script = Some("a;b;c".to_string());

    let items = load_inputs(&cfg, None);
    assert_eq!(items, vec!["a", "b", "c"]);
}

#[test]
fn load_inputs_from_file_trims_empty_lines() {
    let cfg = Config::default();
    let items = load_inputs(&cfg, Some("first\n\n second \n"));
    assert_eq!(items, vec!["first", "second"]);
}

#[test]
fn load_inputs_fallback_to_defaults() {
    let mut cfg = Config::default();
    cfg.cycles = 3;
    cfg.script = None;
    cfg.inputs_path = None;

    let items = load_inputs(&cfg, None);
    assert_eq!(items.len(), cfg.cycles);
    assert!(items.iter().all(|item| item == default_utterance()));
}

#[test]
fn inputs_prefer_file_then_script_then_default() {
    assert_eq!(inputs_from(Some("x\r\ny"), Some("a;b"), 1), vec!["x", "y"]);
    assert_eq!(inputs_from(Some(" \n\t\n"), Some(" a ;; b;"), 1), vec!["a", "b"]);
    assert_eq!(inputs_from(Some(""), Some(" ; ;"), 0), vec!["hello liminal"]);
    assert_eq!(inputs_from(None, None, 0).len(), 1);
}
