use liminal_voice_core::adaptive_qa;
use liminal_voice_core::session::{session_file_name, session_id, snapshot_line, Snapshot};
use liminal_voice_core::voice_io::{
    asr_latency_ms, paced_latency_ms, synthesis_settings, tts_latency_ms,
};

#[test]
fn drift_and_resonance_within_range() {
    let (drift, res) = adaptive_qa::analyze_prompt("hello liminal");
    assert!((0..=1_000_000).contains(&drift), "drift out of range: {}", drift);
    assert!((0..=1_000_000).contains(&res), "resonance out of range: {}", res);
}

#[test]
fn latencies_follow_pause_frame_and_pace() {
    assert_eq!(asr_latency_ms(60, 20), 80);
    assert_eq!(asr_latency_ms(u64::MAX, 20), u64::MAX);
    assert_eq!(tts_latency_ms(60, 20), 50);
    assert_eq!(tts_latency_ms(u64::MAX, u32::MAX), u64::MAX / 2 + u32::MAX as u64);
    assert_eq!(synthesis_settings(100_000, 5), (500_000, 20));
    assert_eq!(synthesis_settings(9_000_000, 900), (2_000_000, 250));
    assert_eq!(paced_latency_ms(1_000_000, 60, 20), 50);
    assert_eq!(paced_latency_ms(930_000, 60, 20), 50 + 6);
    assert_eq!(paced_latency_ms(100_000, 60, 20), 50 + 40);
    assert_eq!(paced_latency_ms(1_300_000, 60, 20), 50 + 12);
    assert_eq!(paced_latency_ms(9_000_000, 1_000, 0), 125 + 40);
}

#[test]
fn session_writes_jsonl() {
    let snapshot1 = Snapshot {
        ts: "2024-01-01T00:00:00.000Z".to_string(),
        device: "test-device".to_string(),
        drift: 100_000,
        resonance: 200_000,
        wpm: 150_000_000,
        articulation: 500_000,
        tone: "Calm".to_string(),
        asr_ms: 10,
        tts_ms: 20,
        total_ms: 35,
        idx: 0,
        utterance: "hello liminal".to_string(),
        guard: None,
        state: None,
        emote_state: None,
    };
    let snapshot2 = Snapshot {
        ts: "2024-01-01T00:00:01.000Z".into(),
        device: "test-device".to_string(),
        drift: 100_000,
        resonance: 200_000,
        wpm: 150_000_000,
        articulation: 500_000,
        tone: "Energetic".into(),
        asr_ms: 10,
        tts_ms: 20,
        total_ms: 35,
        idx: 1,
        utterance: "say \"hi\"".into(),
        guard: Some("warn".into()),
        state: Some("Normal".into()),
        emote_state: Some("Energetic".into()),
    };
    let mut contents = String::new();
    contents.push_str(&snapshot_line(&snapshot1));
    contents.push('\n');
    contents.push_str(&snapshot_line(&snapshot2));
    contents.push('\n');

    assert!(!contents.is_empty());
    let lines: Vec<_> = contents.lines().collect();
    assert_eq!(lines.len(), 2);
    assert_eq!(
        lines[0],
        "{\"ts\":\"2024-01-01T00:00:00.000Z\",\"device\":\"test-device\",\"drift\":0.100,\"resonance\":0.200,\"wpm\":150.000,\"articulation\":0.500,\"tone\":\"Calm\",\"asr_ms\":10,\"tts_ms\":20,\"total_ms\":35,\"idx\":0,\"utt\":\"hello liminal\",\"guard\":null,\"state\":null,\"emote_state\":null}"
    );
    assert_eq!(
        lines[1],
        "{\"ts\":\"2024-01-01T00:00:01.000Z\",\"device\":\"test-device\",\"drift\":0.100,\"resonance\":0.200,\"wpm\":150.000,\"articulation\":0.500,\"tone\":\"Energetic\",\"asr_ms\":10,\"tts_ms\":20,\"total_ms\":35,\"idx\":1,\"utt\":\"say \\\"hi\\\"\",\"guard\":\"warn\",\"state\":\"Normal\",\"emote_state\":\"Energetic\"}"
    );
}

#[test]
fn session_names_come_from_the_clock() {
    assert_eq!(session_id(0), "00000000");
    assert_eq!(session_id(0x1234_5678_9abc_def0), "9abcdef0");
    assert_eq!(session_id(u128::MAX), "ffffffff");
    assert_eq!(session_file_name("9abcdef0"), "session-9abcdef0.jsonl");
}
