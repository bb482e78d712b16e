use liminal_voice_core::device_memory::{self, DeviceMemory, DeviceMemoryStore};

#[test]
fn load_missing_file_returns_empty() {
    let store = DeviceMemoryStore::load("nowhere.jsonl", "");
    assert!(store.data.is_empty());
    assert_eq!(store.path, "nowhere.jsonl");
}

#[test]
fn update_and_persist_device_memory() {
    let mut store = DeviceMemoryStore::load("memory.jsonl", "");
    store.update("Phone", 1_000_000, 60_000_000, 700_000, 200_000, 800_000);
    store.update("Phone", 1_200_000, 70_000_000, 800_000, 300_000, 700_000);
    let text = store.save();

    assert!(!text.is_empty());
    assert!(text.contains("Phone"));
    assert_eq!(text, "Phone|1.100|65.0|0.750|0.250|0.750|2\n");

    let store_reload = DeviceMemoryStore::load("memory.jsonl", &text);
    let memory =
        device_memory::suggest_profile(&store_reload, "Phone").expect("persisted device profile");

    assert_eq!(memory.sessions, 2);
    assert!((memory.avg_pace - 1_100_000).abs() < 1_000);
    assert!((memory.avg_pause - 65_000_000).abs() < 1_000);
    assert!((memory.avg_articulation - 750_000).abs() < 1_000);
    assert!((memory.avg_drift - 250_000).abs() < 1_000);
    assert!((memory.avg_res - 750_000).abs() < 1_000);
}

#[test]
fn memory_lines_need_seven_fields() {
    let text = "Phone|1.0|60.0|0.7|0.2|0.8|3\n\nHeadset|1.0|60.0|0.7|0.2|0.8\nTerminal|1.0|60.0|0.7|0.2|0.8|x\nTablet|1.0|60.0|0.7|0.2|0.8|3|9\n |1|2|3|4|5|6\nPhone|2.0|1|1|1|1|4";
    let store = DeviceMemoryStore::load("p", text);
    assert_eq!(store.data.len(), 2);
    assert_eq!(
        device_memory::suggest_profile(&store, "Phone"),
        Some(DeviceMemory {
            avg_pace: 2_000_000,
            avg_pause: 1_000_000,
            avg_articulation: 1_000_000,
            avg_drift: 1_000_000,
            avg_res: 1_000_000,
            sessions: 4,
        })
    );
    assert!(device_memory::suggest_profile(&store, " ").is_some());
    assert!(device_memory::suggest_profile(&store, "Headset").is_none());
    assert!(device_memory::suggest_profile(&store, "phone").is_none());
}

#[test]
fn update_keeps_running_means() {
    let mut store = DeviceMemoryStore::default();
    assert!(store.path.is_empty());
    store.update("a", 3, 0, 0, 0, 0);
    store.update("b", 10, 0, 0, 0, 0);
    store.update("a", 4, 0, 0, 0, 0);
    store.update("a", 4, 0, 0, 0, 0);
    let a = device_memory::suggest_profile(&store, "a").expect("a");
    assert_eq!((a.sessions, a.avg_pace), (3, 4));
    assert_eq!(store.data.len(), 2);
    assert_eq!(store.data[0].device, "a");
    assert_eq!(store.data[1].device, "b");
}
