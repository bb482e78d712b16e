//! Playback devices and their profiles.

use crate::text::{ascii_lowercase, chars_of, same_text_ignoring_case};
use vstd::prelude::*;

verus! {

/// Kind of playback device.
#[derive(Debug, Clone, Copy, PartialEq, Eq, Structural)]
pub enum DeviceMode {
    Phone,
    Headset,
    Terminal,
}

/// Gain in millionths of a decibel, pace factor in millionths, pause in milliseconds.
#[derive(Debug, Clone, Copy, PartialEq, Eq, Structural)]
pub struct DeviceProfile {
    pub gain_db: i64,
    pub pace_factor: i64,
    pub pause_ms: u64,
}

/// The device that a name stands for, whatever its case; a phone for any other name.
pub open spec fn mode_named(name: Seq<char>) -> DeviceMode {
    if ascii_lowercase(name) == "headset"@ {
        DeviceMode::Headset
    } else if ascii_lowercase(name) == "terminal"@ {
        DeviceMode::Terminal
    } else {
        DeviceMode::Phone
    }
}

/// The profile of a device.
pub open spec fn profile_of(mode: DeviceMode) -> DeviceProfile {
    match mode {
        DeviceMode::Phone => DeviceProfile {
            gain_db: -2_000_000i64,
            pace_factor: 1_050_000,
            pause_ms: 60,
        },
        DeviceMode::Headset => DeviceProfile { gain_db: 0, pace_factor: 1_000_000, pause_ms: 40 },
        DeviceMode::Terminal => DeviceProfile {
            gain_db: 1_500_000,
            pace_factor: 950_000,
            pause_ms: 80,
        },
    }
}

/// The device that a name stands for.
pub fn detect(mode_str: &str) -> (mode: DeviceMode)
    ensures
        mode == mode_named(mode_str@),
{
    let chars = chars_of(mode_str);
    if same_text_ignoring_case(chars.as_slice(), "headset") {
        DeviceMode::Headset
    } else if same_text_ignoring_case(chars.as_slice(), "terminal") {
        DeviceMode::Terminal
    } else {
        DeviceMode::Phone
    }
}

/// The profile of a device.
pub fn profile(mode: &DeviceMode) -> (p: DeviceProfile)
    ensures
        p == profile_of(*mode),
{
    match mode {
        DeviceMode::Phone => DeviceProfile {
            gain_db: -2_000_000,
            pace_factor: 1_050_000,
            pause_ms: 60,
        },
        DeviceMode::Headset => DeviceProfile { gain_db: 0, pace_factor: 1_000_000, pause_ms: 40 },
        DeviceMode::Terminal => DeviceProfile {
            gain_db: 1_500_000,
            pace_factor: 950_000,
            pause_ms: 80,
        },
    }
}

/// The name of a device.
pub open spec fn name_of(mode: DeviceMode) -> Seq<char> {
    match mode {
        DeviceMode::Phone => "phone"@,
        DeviceMode::Headset => "headset"@,
        DeviceMode::Terminal => "terminal"@,
    }
}

/// The name of a device, as `detect` reads it.
pub fn mode_name(mode: DeviceMode) -> (s: &'static str)
    ensures
        s@ == name_of(mode),
{
    match mode {
        DeviceMode::Phone => "phone",
        DeviceMode::Headset => "headset",
        DeviceMode::Terminal => "terminal",
    }
}

/// The label of a device, under which its memory is kept.
pub fn mode_label(mode: DeviceMode) -> (s: &'static str)
    ensures
        s@ == (match mode {
            DeviceMode::Phone => "Phone"@,
            DeviceMode::Headset => "Headset"@,
            DeviceMode::Terminal => "Terminal"@,
        }),
{
    match mode {
        DeviceMode::Phone => "Phone",
        DeviceMode::Headset => "Headset",
        DeviceMode::Terminal => "Terminal",
    }
}

} // verus!
