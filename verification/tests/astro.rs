use liminal_voice_core::astro::{
    topic_key, AstroAdvice, AstroSessionStats, AstroStore, AstroTrace, SyncBias,
};
use liminal_voice_core::prosody::ToneTag;

fn blank_trace(key: &str, now: i64) -> AstroTrace {
    AstroTrace::new(key.to_string(), now)
}

fn log_of(lines: &[String]) -> String {
    let mut log = String::new();
    for line in lines {
        log.push_str(line);
        log.push('\n');
    }
    log
}

#[test]
fn topic_key_deterministic() {
    let text = "Memory Drift and Resonance";
    let key1 = topic_key(text, ToneTag::Calm);
    let key2 = topic_key(text, ToneTag::Calm);
    assert_eq!(key1, key2);
    let energetic = topic_key(text, ToneTag::Energetic);
    assert_ne!(key1, energetic);
}

#[test]
fn topic_key_has_known_values() {
    assert_eq!(topic_key("Memory Drift and Resonance", ToneTag::Calm), "astro-668b6e226d");
    assert_eq!(topic_key("Memory Drift and Resonance", ToneTag::Energetic), "astro-49514ff71f");
    assert_eq!(topic_key("  hello   LIMINAL ", ToneTag::Neutral), "astro-29492cf74c");
    assert_eq!(
        topic_key("hello liminal", ToneTag::Neutral),
        topic_key("\tHello\n\nLiminal  ", ToneTag::Neutral)
    );
}

#[test]
fn trace_roundtrip_json() {
    let trace = AstroTrace {
        key: "astro-001".to_string(),
        ema_drift: 310_000,
        ema_res: 770_000,
        stability: 420_000,
        visits: 3,
        last_ts: 42,
        emo_tag: true,
        sync_bias_drift: 0,
        sync_bias_res: 0,
        sync_stability: 0,
        sync_visits: 0,
    };
    let line = trace.to_json_line();
    let parsed = AstroTrace::from_json_line(&line).expect("parsed");
    assert_eq!(parsed.key, trace.key);
    assert!((parsed.ema_drift - trace.ema_drift).abs() < 1);
    assert!(parsed.emo_tag);
}

#[test]
fn trace_round_trip_keeps_every_field() {
    let trace = AstroTrace {
        key: "topic: with colon and spaces ".to_string(),
        ema_drift: 1,
        ema_res: 1_000_000,
        stability: 999_999,
        visits: u32::MAX,
        last_ts: i64::MIN,
        emo_tag: false,
        sync_bias_drift: -200_000,
        sync_bias_res: 199_999,
        sync_stability: 500_000,
        sync_visits: 7,
    };
    let line = trace.to_json_line();
    let parsed = AstroTrace::from_json_line(&line).expect("parsed");
    assert_eq!(parsed.key, trace.key);
    assert_eq!(parsed.ema_drift, trace.ema_drift);
    assert_eq!(parsed.ema_res, trace.ema_res);
    assert_eq!(parsed.stability, trace.stability);
    assert_eq!(parsed.visits, trace.visits);
    assert_eq!(parsed.last_ts, trace.last_ts);
    assert_eq!(parsed.emo_tag, trace.emo_tag);
    assert_eq!(parsed.sync_bias_drift, trace.sync_bias_drift);
    assert_eq!(parsed.sync_bias_res, trace.sync_bias_res);
    assert_eq!(parsed.sync_stability, trace.sync_stability);
    assert_eq!(parsed.sync_visits, trace.sync_visits);
}

#[test]
fn trace_line_is_exact() {
    let mut trace = blank_trace("astro-test-key", 100);
    trace.consolidate(400_000, 700_000, false, 100);
    assert_eq!(
        trace.to_json_line(),
        "{\"key\":\"astro-test-key\",\"ema_drift\":0.400000,\"ema_res\":0.700000,\"stability\":0.070000,\"visits\":1,\"last_ts\":100,\"emo_tag\":false,\"sync_bias_drift\":0.000000,\"sync_bias_res\":0.000000,\"sync_stability\":0.000000,\"sync_visits\":0}"
    );
    trace.consolidate(350_000, 750_000, true, 120);
    trace.fold(-20_000, 15_000);
    assert_eq!(
        trace.to_json_line(),
        "{\"key\":\"astro-test-key\",\"ema_drift\":0.389000,\"ema_res\":0.711000,\"stability\":0.190000,\"visits\":2,\"last_ts\":120,\"emo_tag\":true,\"sync_bias_drift\":-0.020000,\"sync_bias_res\":0.015000,\"sync_stability\":0.982500,\"sync_visits\":1}"
    );
}

#[test]
fn line_without_sync_fields_defaults_them_to_zero() {
    let line = "{\"key\":\"old\",\"ema_drift\":0.310000,\"ema_res\":0.770000,\"stability\":0.420000,\"visits\":3,\"last_ts\":42,\"emo_tag\":true}";
    let t = AstroTrace::from_json_line(line).expect("parsed");
    assert_eq!(t.key, "old");
    assert_eq!((t.ema_drift, t.ema_res, t.stability), (310_000, 770_000, 420_000));
    assert_eq!((t.visits, t.last_ts, t.emo_tag), (3, 42, true));
    assert_eq!((t.sync_bias_drift, t.sync_bias_res, t.sync_stability, t.sync_visits), (0, 0, 0, 0));
}

#[test]
fn line_reader_ignores_unknown_fields_and_white_space() {
    let line = "  { \"colour\" : \"blue\" , \"key\" : \"k1\" , \"visits\" : +4 , \"emo_tag\" : 1 , \"stability\" : .5 }\r";
    let t = AstroTrace::from_json_line(line).expect("parsed");
    assert_eq!(t.key, "k1");
    assert_eq!(t.visits, 4);
    assert!(t.emo_tag);
    assert_eq!(t.stability, 500_000);
}

#[test]
fn line_reader_moves_values_into_their_domains() {
    let line = "{\"key\":\"k\",\"ema_drift\":7.25,\"ema_res\":-0.5,\"stability\":0.1234567,\"sync_bias_drift\":-3,\"sync_bias_res\":99999999999999999999999999,\"sync_stability\":1.}";
    let t = AstroTrace::from_json_line(line).expect("parsed");
    assert_eq!((t.ema_drift, t.ema_res, t.stability), (1_000_000, 0, 123_456));
    assert_eq!((t.sync_bias_drift, t.sync_bias_res, t.sync_stability), (-200_000, 200_000, 1_000_000));
}

#[test]
fn later_field_of_the_same_name_wins() {
    let t = AstroTrace::from_json_line("{\"key\":\"a\",\"visits\":1,\"key\":\"b\",\"visits\":2}")
        .expect("parsed");
    assert_eq!(t.key, "b");
    assert_eq!(t.visits, 2);
}

#[test]
fn malformed_lines_are_rejected() {
    let bad = [
        "",
        "   ",
        "{",
        "}",
        "{}",
        "\"key\":\"a\"",
        "{\"key\":\"a\"",
        "\"key\":\"a\"}",
        "{\"key\":\"\"}",
        "{\"visits\":3}",
        "{\"key\":\"a\",\"visits\":-1}",
        "{\"key\":\"a\",\"visits\":4294967296}",
        "{\"key\":\"a\",\"visits\":3.0}",
        "{\"key\":\"a\",\"last_ts\":9223372036854775808}",
        "{\"key\":\"a\",\"ema_drift\":abc}",
        "{\"key\":\"a\",\"ema_drift\":1e3}",
        "{\"key\":\"a\",\"ema_drift\":.}",
        "{\"key\":\"a\",\"ema_drift\":1.2.3}",
        "{\"key\":\"a\",\"ema_drift\":}",
        "{\"key\":\"a\",lonely}",
        "{\"key\":abc}",
        "{\"key\":\"a\\\"}",
        "{\"key\":\"a\"b\"}",
        "{\"key\":\"a\",\"note\":\"open}",
        "{\"key\":\"a,\"visits\":1}",
        "{\"key\":\"a\",}",
    ];
    for line in bad {
        assert!(AstroTrace::from_json_line(line).is_none(), "accepted: {}", line);
    }
    assert!(AstroTrace::from_json_line("{\"key\":\"a\",\"last_ts\":-9223372036854775808}").is_some());
    assert!(AstroTrace::from_json_line("{\"key\":\"a\",\"visits\":4294967295}").is_some());
}

#[test]
fn store_persists_and_recalls() {
    let mut written: Vec<String> = Vec::new();
    let mut store = AstroStore::load("", 4);
    let key = "astro-test-key";
    written.push(store.consolidate(key, 400_000, 700_000, false, 100));
    written.push(store.consolidate(key, 350_000, 750_000, true, 120));

    let advice = store.recall(key, 130).expect("advice");
    assert!(advice.res_bias >= 20_000);
    assert!(advice.drift_bias <= -20_000);
    assert_eq!(
        advice,
        AstroAdvice { drift_bias: -34_297, res_bias: 34_297, pace_delta: -20_723, pause_delta_ms: 21 }
    );

    drop(store);

    let mut store2 = AstroStore::load(&log_of(&written), 4);
    let advice2 = store2.recall(key, 140).expect("advice");
    assert!(advice2.pause_delta_ms >= 10);
}

#[test]
fn store_lru_evicts() {
    let mut store = AstroStore::load("", 2);
    let mut written: Vec<String> = Vec::new();
    written.push(store.consolidate("a", 400_000, 600_000, false, 1));
    written.push(store.consolidate("b", 300_000, 700_000, true, 2));
    written.push(store.consolidate("b", 320_000, 720_000, true, 3));
    written.push(store.consolidate("c", 200_000, 800_000, false, 4));
    assert!(store.recall("a", 5).is_none());
    assert!(store.recall("b", 5).is_some());

    let mut reloaded = AstroStore::load(&log_of(&written), 2);
    assert_eq!(reloaded.len(), 2);
    assert!(reloaded.recall("a", 5).is_none());
    assert!(reloaded.recall("b", 5).is_some());
    assert!(reloaded.suggest_sync("a").is_none());
}

#[test]
fn eviction_removes_the_least_recently_touched() {
    let mut store = AstroStore::load("", 2);
    for _ in 0..4 {
        let _ = store.consolidate("a", 300_000, 700_000, true, 10);
    }
    for _ in 0..4 {
        let _ = store.consolidate("b", 300_000, 700_000, true, 10);
    }
    assert!(store.recall("a", 10).is_some());
    let _ = store.consolidate("c", 300_000, 700_000, true, 10);
    assert_eq!(store.len(), 2);
    assert!(store.recall("b", 10).is_none());
    assert!(store.recall("a", 10).is_some());
    let _ = store.fold_sync_delta("d", 1_000, 0, 10);
    assert_eq!(store.len(), 2);
    assert!(store.suggest_sync("c").is_none());
    assert!(store.recall("a", 10).is_some());
    assert!(store.suggest_sync("d").is_some());
}

#[test]
fn capacity_is_at_least_one() {
    let mut store = AstroStore::load("", 0);
    assert_eq!(store.capacity(), 1);
    assert_eq!(store.len(), 0);
    let _ = store.consolidate("a", 0, 0, false, 0);
    let _ = store.consolidate("b", 0, 0, false, 0);
    assert_eq!(store.len(), 1);
    assert_eq!(AstroStore::load("", 512).capacity(), 512);
}

#[test]
fn replay_skips_bad_lines_and_keeps_the_last_record_of_a_key() {
    let log = "garbage\n{\"key\":\"a\",\"stability\":0.900000,\"visits\":1}\n\n{\"key\":\"b\",\"stability\":0.900000}\r\n{\"key\":\"a\",\"stability\":0.500000,\"visits\":9,\"sync_visits\":2,\"sync_bias_res\":0.010000}\n{broken";
    let mut store = AstroStore::load(log, 8);
    assert_eq!(store.len(), 2);
    let bias = store.suggest_sync("a").expect("bias");
    assert_eq!(bias, SyncBias { drift_bias: 0, res_bias: 10_000, stability: 0, visits: 2 });
    assert!(store.suggest_sync("b").is_none());
    assert!(store.recall("b", 0).is_some());
    let advice = store.recall("a", 0).expect("advice");
    assert_eq!(advice.pause_delta_ms, 10 + 15);
}

#[test]
fn recall_misses_unknown_and_faded_topics() {
    let mut store = AstroStore::load("", 4);
    assert!(store.recall("nothing", 0).is_none());
    let _ = store.consolidate("weak", 400_000, 700_000, false, 100);
    assert!(store.recall("weak", 100).is_none());
    for _ in 0..3 {
        let _ = store.consolidate("strong", 400_000, 700_000, true, 100);
    }
    assert!(store.recall("strong", 100).is_some());
    assert!(store.recall("strong", 100 + 86_400).is_some());
    assert!(store.recall("strong", 100 + 3 * 86_400).is_none());
    assert!(store.recall("strong", 100).is_none());
}

#[test]
fn decay_follows_elapsed_days_and_stops_at_thirty() {
    let mut t = blank_trace("k", 1_000);
    t.stability = 900_000;
    t.emo_tag = true;
    t.decay(1_000);
    assert_eq!((t.stability, t.emo_tag), (900_000, true));
    t.decay(999);
    assert_eq!(t.stability, 900_000);
    t.decay(1_000 + 86_400);
    assert_eq!((t.stability, t.emo_tag), (820_000, true));
    t.decay(1_000 + 9 * 86_400);
    assert_eq!((t.stability, t.emo_tag), (100_000, false));
    t.decay(1_000 + 9 * 86_400);
    assert_eq!(t.stability, 0);
    let mut u = blank_trace("k", 0);
    u.stability = 1_000_000;
    u.last_ts = i64::MIN;
    u.decay(i64::MAX);
    assert_eq!(u.stability, 0);
    let mut w = blank_trace("k", 0);
    w.stability = 1_000_000;
    w.decay(1);
    assert_eq!(w.stability, 999_999);
}

#[test]
fn consolidate_seeds_then_blends() {
    let mut t = blank_trace("k", 0);
    t.consolidate(5_000_000, -3, false, 7);
    assert_eq!((t.visits, t.ema_drift, t.ema_res), (1, 1_000_000, 0));
    assert_eq!((t.stability, t.emo_tag, t.last_ts), (70_000, false, 7));
    t.consolidate(0, 1_000_000, false, 8);
    assert_eq!((t.visits, t.ema_drift, t.ema_res), (2, 780_000, 220_000));
    assert_eq!((t.stability, t.emo_tag, t.last_ts), (130_000, false, 8));
    t.consolidate(0, 260_000, true, 9);
    assert_eq!((t.ema_drift, t.ema_res), (608_400, 228_800));
    assert_eq!((t.stability, t.emo_tag), (250_000, true));
    t.consolidate(0, 228_800, false, 10);
    assert_eq!((t.stability, t.emo_tag), (320_000, true));
    t.stability = 180_000;
    t.consolidate(0, 0, false, 11);
    assert!(!t.emo_tag);
    t.stability = 990_000;
    t.visits = u32::MAX;
    t.consolidate(0, 0, true, 12);
    assert_eq!((t.stability, t.visits), (1_000_000, u32::MAX));
}

#[test]
fn fold_sync_delta_is_a_no_op_for_zero_deltas() {
    let mut store = AstroStore::load("", 4);
    assert!(store.fold_sync_delta("focus", 0, 0, 10).is_none());
    assert_eq!(store.len(), 0);
    assert!(store.suggest_sync("focus").is_none());
    let _ = store.fold_sync_delta("focus", -20_000, 15_000, 10);
    let before = store.suggest_sync("focus");
    assert!(store.fold_sync_delta("focus", 0, 0, 20).is_none());
    assert_eq!(store.suggest_sync("focus"), before);
    assert_eq!(store.len(), 1);
}

#[test]
fn fold_sync_delta_accumulates_biases() {
    let mut written: Vec<String> = Vec::new();
    {
        let mut store = AstroStore::load("", 8);
        written.push(store.fold_sync_delta("focus", -20_000, 15_000, 10).expect("line"));
        written.push(store.fold_sync_delta("focus", -30_000, 20_000, 20).expect("line"));
    }
    let reloaded = AstroStore::load(&log_of(&written), 8);
    let bias = reloaded.suggest_sync("focus").expect("bias exists");
    assert!(bias.drift_bias <= 0);
    assert!(bias.res_bias >= 0);
    assert!(bias.visits >= 1);
    assert!(bias.stability >= 0 && bias.stability <= 1_000_000);
    assert_eq!(
        bias,
        SyncBias { drift_bias: -50_000, res_bias: 35_000, stability: 978_750, visits: 2 }
    );
}

#[test]
fn fold_keeps_biases_within_a_fifth() {
    let mut t = blank_trace("k", 0);
    t.fold(i64::MAX, i64::MIN);
    assert_eq!((t.sync_bias_drift, t.sync_bias_res), (200_000, -200_000));
    assert_eq!((t.sync_stability, t.sync_visits), (0, 1));
    t.fold(-150_000, 150_000);
    assert_eq!((t.sync_bias_drift, t.sync_bias_res), (50_000, -50_000));
    assert_eq!((t.sync_stability, t.sync_visits), (425_000, 2));
    assert_eq!(
        t.suggestion(),
        Some(SyncBias { drift_bias: 50_000, res_bias: -50_000, stability: 425_000, visits: 2 })
    );
}

#[test]
fn advice_is_linear_in_intensity() {
    let mut t = blank_trace("k", 0);
    assert_eq!(t.intensity(), 0);
    assert_eq!(
        t.advice(),
        AstroAdvice { drift_bias: -20_000, res_bias: 20_000, pace_delta: -10_000, pause_delta_ms: 10 }
    );
    t.stability = 1_000_000;
    t.visits = 50;
    t.ema_res = 1_000_000;
    assert_eq!(t.intensity(), 1_000_000);
    assert_eq!(
        t.advice(),
        AstroAdvice { drift_bias: -60_000, res_bias: 60_000, pace_delta: -40_000, pause_delta_ms: 40 }
    );
    t.stability = 500_000;
    t.visits = 6;
    t.ema_res = 400_000;
    assert_eq!(t.intensity(), 490_000);
    t.emo_tag = true;
    assert_eq!(t.intensity(), 610_000);
    assert_eq!(
        t.advice(),
        AstroAdvice { drift_bias: -44_400, res_bias: 44_400, pace_delta: -28_300, pause_delta_ms: 28 }
    );
}

#[test]
fn session_stats_start_at_zero() {
    let stats = AstroSessionStats::default();
    assert_eq!((stats.hits, stats.boost_res, stats.bias_drift), (0, 0, 0));
    assert_eq!(
        AstroAdvice::default(),
        AstroAdvice { drift_bias: 0, res_bias: 0, pace_delta: 0, pause_delta_ms: 0 }
    );
}

fn trace_with_key(key: &str) -> AstroTrace {
    AstroTrace {
        key: key.to_string(),
        ema_drift: 310_000,
        ema_res: 770_000,
        stability: 420_000,
        visits: 3,
        last_ts: -42,
        emo_tag: true,
        sync_bias_drift: -20_000,
        sync_bias_res: 15_000,
        sync_stability: 982_500,
        sync_visits: 1,
    }
}

#[test]
fn any_key_survives_a_write_and_a_read() {
    let keys = [
        "a,b",
        "hello, liminal",
        "\"",
        "\"quoted\"",
        "back\\slash",
        "ends with backslash\\",
        "\\\"",
        "two\nlines\r\nand a\ttab",
        "colon: and {braces}, and \"all\", of it\\",
        " spaces ",
        ",",
        ":",
        "}",
        "\u{e9}\u{4e16}\u{1f600}",
    ];
    for key in keys {
        let trace = trace_with_key(key);
        let line = trace.to_json_line();
        assert!(!line.contains('\n'), "line break in the line of {:?}", key);
        let parsed = AstroTrace::from_json_line(&line).expect("parsed");
        assert_eq!(parsed.key, key);
        assert_eq!(parsed.ema_drift, trace.ema_drift);
        assert_eq!(parsed.ema_res, trace.ema_res);
        assert_eq!(parsed.stability, trace.stability);
        assert_eq!(parsed.visits, trace.visits);
        assert_eq!(parsed.last_ts, trace.last_ts);
        assert_eq!(parsed.emo_tag, trace.emo_tag);
        assert_eq!(parsed.sync_bias_drift, trace.sync_bias_drift);
        assert_eq!(parsed.sync_bias_res, trace.sync_bias_res);
        assert_eq!(parsed.sync_stability, trace.sync_stability);
        assert_eq!(parsed.sync_visits, trace.sync_visits);
    }
    assert!(AstroTrace::from_json_line(&trace_with_key("").to_json_line()).is_none());
}

#[test]
fn the_key_is_written_escaped() {
    let line = trace_with_key("say \"hi\", then\\go\n").to_json_line();
    assert!(line.starts_with("{\"key\":\"say \\\"hi\\\", then\\\\go\\n\",\"ema_drift\":0.310000,"));
}

#[test]
fn commas_and_colons_inside_strings_separate_nothing() {
    let t = AstroTrace::from_json_line(
        "{\"note\":\"a,b:c\",\"key\":\"k:1,2\",\"visits\":7,\"more\":\"x\\\",y\"}",
    )
    .expect("parsed");
    assert_eq!(t.key, "k:1,2");
    assert_eq!(t.visits, 7);
}

#[test]
fn a_theme_with_a_comma_keeps_its_bias_over_a_reload() {
    let theme = "hello, liminal";
    let mut written: Vec<String> = Vec::new();
    {
        let mut store = AstroStore::load("", 8);
        written.push(store.fold_sync_delta(theme, -20_000, 15_000, 10).expect("line"));
        written.push(store.consolidate("two\nlines", 300_000, 700_000, true, 11));
    }
    let mut reloaded = AstroStore::load(&log_of(&written), 8);
    assert_eq!(reloaded.len(), 2);
    assert_eq!(
        reloaded.suggest_sync(theme),
        Some(SyncBias { drift_bias: -20_000, res_bias: 15_000, stability: 982_500, visits: 1 })
    );
    assert!(reloaded.suggest_sync("two\nlines").is_none());
    let _ = reloaded.consolidate("two\nlines", 300_000, 700_000, true, 12);
    let _ = reloaded.consolidate("two\nlines", 300_000, 700_000, true, 13);
    assert!(reloaded.recall("two\nlines", 13).is_some());
}
