use liminal_voice_core::device::{self, DeviceMode};

#[test]
fn detect_modes() {
    assert_eq!(device::detect("phone"), DeviceMode::Phone);
    assert_eq!(device::detect("headset"), DeviceMode::Headset);
    assert_eq!(device::detect("terminal"), DeviceMode::Terminal);
    assert_eq!(device::detect("UNKNOWN"), DeviceMode::Phone);
}

#[test]
fn detect_sets_case_aside() {
    assert_eq!(device::detect("HeadSet"), DeviceMode::Headset);
    assert_eq!(device::detect("TERMINAL"), DeviceMode::Terminal);
    assert_eq!(device::detect("Phone"), DeviceMode::Phone);
    assert_eq!(device::detect(" headset"), DeviceMode::Phone);
    assert_eq!(device::detect(""), DeviceMode::Phone);
}

#[test]
fn profile_defaults_match() {
    let phone = device::profile(&DeviceMode::Phone);
    assert_eq!(phone.gain_db, -2_000_000);
    assert_eq!(phone.pace_factor, 1_050_000);
    assert_eq!(phone.pause_ms, 60);

    let headset = device::profile(&DeviceMode::Headset);
    assert_eq!(headset.gain_db, 0);
    assert_eq!(headset.pace_factor, 1_000_000);
    assert_eq!(headset.pause_ms, 40);

    let terminal = device::profile(&DeviceMode::Terminal);
    assert_eq!(terminal.gain_db, 1_500_000);
    assert_eq!(terminal.pace_factor, 950_000);
    assert_eq!(terminal.pause_ms, 80);
}

#[test]
fn profile_ranges() {
    for mode in [DeviceMode::Phone, DeviceMode::Headset, DeviceMode::Terminal] {
        let prof = device::profile(&mode);
        assert!((800_000..=1_200_000).contains(&prof.pace_factor));
        assert!((20..=200).contains(&(prof.pause_ms as i32)));
    }
}
