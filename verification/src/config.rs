//! Configuration of a run, and how the environment and the command line set it.

use crate::text::{
    ascii_lower, ascii_lowercase, chars_of, parse_int, parse_int_text, parse_micro,
    parse_micro_text, same_text, same_text_ignoring_case, string_of, strip_slice, trim_of,
    MICRO_BOUND_MAX,
};
use crate::micro::clamp_int;
use vstd::prelude::*;

verus! {

/// How much of a turn is shown.
#[derive(Debug, Clone, Copy, PartialEq, Eq, Structural)]
pub enum VizMode {
    Compact,
    Full,
}

/// The mode that a word stands for, white space around it and its case set aside.
pub open spec fn viz_named(value: Seq<char>) -> Option<VizMode> {
    if ascii_lowercase(trim_of(value)) == "compact"@ {
        Some(VizMode::Compact)
    } else if ascii_lowercase(trim_of(value)) == "full"@ {
        Some(VizMode::Full)
    } else {
        None
    }
}

impl VizMode {
    /// The mode that a word stands for, if it stands for one.
    pub fn from_str(value: &str) -> (mode: Option<VizMode>)
        ensures
            mode == viz_named(value@),
    {
        let chars = chars_of(value);
        let word = strip_slice(chars.as_slice(), false);
        if same_text_ignoring_case(word, "compact") {
            Some(VizMode::Compact)
        } else if same_text_ignoring_case(word, "full") {
            Some(VizMode::Full)
        } else {
            None
        }
    }
}

/// Everything that can be set for a run; fractions are in millionths.
#[derive(Debug)]
pub struct Config {
    pub mode: String,
    pub sample_rate: u32,
    pub channels: u16,
    pub frame_ms: u32,
    pub enable_metrics: bool,
    pub viz_mode: VizMode,
    pub cycles: usize,
    pub enable_logging: bool,
    pub log_dir: String,
    pub script: Option<String>,
    pub inputs_path: Option<String>,
    pub baseline_drift: i64,
    pub baseline_res: i64,
    pub alarm: bool,
    pub strict: bool,
    pub guard: bool,
    pub guard_drift: i64,
    pub guard_res: i64,
    pub guard_factor: i64,
    pub sync: bool,
    pub sync_lr_fast: i64,
    pub sync_lr_slow: i64,
    pub sync_step: i64,
    pub stabilizer: bool,
    pub stab_win: usize,
    pub stab_alpha: i64,
    pub stab_warm: i64,
    pub stab_hot: i64,
    pub stab_low_res: i64,
    pub stab_cool: usize,
    pub stab_calm: i64,
    pub astro: bool,
    pub astro_path: String,
    pub astro_cache: usize,
    pub memory: bool,
    pub memory_path: String,
    pub emote: bool,
    pub emote_path: String,
    pub emote_half_life: u32,
    pub emote_warm: i64,
    pub awareness: bool,
    pub meta_viz: bool,
    pub meta_stab_alpha: i64,
    pub compassion: bool,
    pub compassion_viz: bool,
    pub compassion_threshold: i64,
}

/// A configuration as a mathematical value.
pub struct ConfigView {
    pub mode: Seq<char>,
    pub sample_rate: u32,
    pub channels: u16,
    pub frame_ms: u32,
    pub enable_metrics: bool,
    pub viz_mode: VizMode,
    pub cycles: usize,
    pub enable_logging: bool,
    pub log_dir: Seq<char>,
    pub script: Option<Seq<char>>,
    pub inputs_path: Option<Seq<char>>,
    pub baseline_drift: i64,
    pub baseline_res: i64,
    pub alarm: bool,
    pub strict: bool,
    pub guard: bool,
    pub guard_drift: i64,
    pub guard_res: i64,
    pub guard_factor: i64,
    pub sync: bool,
    pub sync_lr_fast: i64,
    pub sync_lr_slow: i64,
    pub sync_step: i64,
    pub stabilizer: bool,
    pub stab_win: usize,
    pub stab_alpha: i64,
    pub stab_warm: i64,
    pub stab_hot: i64,
    pub stab_low_res: i64,
    pub stab_cool: usize,
    pub stab_calm: i64,
    pub astro: bool,
    pub astro_path: Seq<char>,
    pub astro_cache: usize,
    pub memory: bool,
    pub memory_path: Seq<char>,
    pub emote: bool,
    pub emote_path: Seq<char>,
    pub emote_half_life: u32,
    pub emote_warm: i64,
    pub awareness: bool,
    pub meta_viz: bool,
    pub meta_stab_alpha: i64,
    pub compassion: bool,
    pub compassion_viz: bool,
    pub compassion_threshold: i64,
}

/// The text of an optional string.
pub open spec fn optional_view(s: Option<String>) -> Option<Seq<char>> {
    match s {
        Some(t) => Some(t@),
        None => None,
    }
}

impl View for Config {
    type V = ConfigView;

    open spec fn view(&self) -> ConfigView {
        ConfigView {
            mode: self.mode@,
            sample_rate: self.sample_rate,
            channels: self.channels,
            frame_ms: self.frame_ms,
            enable_metrics: self.enable_metrics,
            viz_mode: self.viz_mode,
            cycles: self.cycles,
            enable_logging: self.enable_logging,
            log_dir: self.log_dir@,
            script: optional_view(self.script),
            inputs_path: optional_view(self.inputs_path),
            baseline_drift: self.baseline_drift,
            baseline_res: self.baseline_res,
            alarm: self.alarm,
            strict: self.strict,
            guard: self.guard,
            guard_drift: self.guard_drift,
            guard_res: self.guard_res,
            guard_factor: self.guard_factor,
            sync: self.sync,
            sync_lr_fast: self.sync_lr_fast,
            sync_lr_slow: self.sync_lr_slow,
            sync_step: self.sync_step,
            stabilizer: self.stabilizer,
            stab_win: self.stab_win,
            stab_alpha: self.stab_alpha,
            stab_warm: self.stab_warm,
            stab_hot: self.stab_hot,
            stab_low_res: self.stab_low_res,
            stab_cool: self.stab_cool,
            stab_calm: self.stab_calm,
            astro: self.astro,
            astro_path: self.astro_path@,
            astro_cache: self.astro_cache,
            memory: self.memory,
            memory_path: self.memory_path@,
            emote: self.emote,
            emote_path: self.emote_path@,
            emote_half_life: self.emote_half_life,
            emote_warm: self.emote_warm,
            awareness: self.awareness,
            meta_viz: self.meta_viz,
            meta_stab_alpha: self.meta_stab_alpha,
            compassion: self.compassion,
            compassion_viz: self.compassion_viz,
            compassion_threshold: self.compassion_threshold,
        }
    }
}

/// The configuration of a run for which nothing is set.
pub open spec fn defaults() -> ConfigView {
    ConfigView {
        mode: "phone"@,
        sample_rate: 16_000,
        channels: 1,
        frame_ms: 20,
        enable_metrics: true,
        viz_mode: VizMode::Compact,
        cycles: 5,
        enable_logging: false,
        log_dir: "logs"@,
        script: None,
        inputs_path: None,
        baseline_drift: 350_000,
        baseline_res: 650_000,
        alarm: true,
        strict: false,
        guard: true,
        guard_drift: 400_000,
        guard_res: 600_000,
        guard_factor: 200_000,
        sync: true,
        sync_lr_fast: 150_000,
        sync_lr_slow: 50_000,
        sync_step: 20_000,
        stabilizer: true,
        stab_win: 5,
        stab_alpha: 400_000,
        stab_warm: 320_000,
        stab_hot: 420_000,
        stab_low_res: 580_000,
        stab_cool: 3,
        stab_calm: 80_000,
        astro: true,
        astro_path: "astro_traces.jsonl"@,
        astro_cache: 512,
        memory: true,
        memory_path: "device_memory.jsonl"@,
        emote: true,
        emote_path: "emote_seed.jsonl"@,
        emote_half_life: 180,
        emote_warm: 20_000,
        awareness: false,
        meta_viz: false,
        meta_stab_alpha: 250_000,
        compassion: false,
        compassion_viz: false,
        compassion_threshold: 500_000,
    }
}

impl Default for Config {
    fn default() -> (c: Config)
        ensures
            c@ == defaults(),
    {
        Config {
            mode: "phone".to_owned(),
            sample_rate: 16_000,
            channels: 1,
            frame_ms: 20,
            enable_metrics: true,
            viz_mode: VizMode::Compact,
            cycles: 5,
            enable_logging: false,
            log_dir: "logs".to_owned(),
            script: None,
            inputs_path: None,
            baseline_drift: 350_000,
            baseline_res: 650_000,
            alarm: true,
            strict: false,
            guard: true,
            guard_drift: 400_000,
            guard_res: 600_000,
            guard_factor: 200_000,
            sync: true,
            sync_lr_fast: 150_000,
            sync_lr_slow: 50_000,
            sync_step: 20_000,
            stabilizer: true,
            stab_win: 5,
            stab_alpha: 400_000,
            stab_warm: 320_000,
            stab_hot: 420_000,
            stab_low_res: 580_000,
            stab_cool: 3,
            stab_calm: 80_000,
            astro: true,
            astro_path: "astro_traces.jsonl".to_owned(),
            astro_cache: 512,
            memory: true,
            memory_path: "device_memory.jsonl".to_owned(),
            emote: true,
            emote_path: "emote_seed.jsonl".to_owned(),
            emote_half_life: 180,
            emote_warm: 20_000,
            awareness: false,
            meta_viz: false,
            meta_stab_alpha: 250_000,
            compassion: false,
            compassion_viz: false,
            compassion_threshold: 500_000,
        }
    }
}

/// What can be set.
#[derive(Debug, Clone, Copy, PartialEq, Eq, Structural)]
pub enum Key {
    Mode,
    SampleRate,
    Channels,
    FrameMs,
    EnableMetrics,
    VizMode,
    Cycles,
    EnableLogging,
    LogDir,
    Script,
    InputsPath,
    BaselineDrift,
    BaselineRes,
    Alarm,
    Strict,
    Guard,
    GuardDrift,
    GuardRes,
    GuardFactor,
    Sync,
    SyncLrFast,
    SyncLrSlow,
    SyncStep,
    Stabilizer,
    StabWin,
    StabAlpha,
    StabWarm,
    StabHot,
    StabLowRes,
    StabCool,
    StabCalm,
    Astro,
    AstroPath,
    AstroCache,
    Memory,
    MemoryPath,
    Emote,
    EmotePath,
    EmoteHalfLife,
    EmoteWarm,
    Awareness,
    MetaViz,
    MetaStabAlpha,
    Compassion,
    CompassionViz,
    CompassionThreshold,
}

/// What an argument of the command line is: a switch that sets a flag, a
/// name whose value is the next argument, or nothing that is known.
#[derive(Debug, Clone, Copy, PartialEq, Eq, Structural)]
pub enum ArgKind {
    Switch(Key, bool),
    Takes(Key),
    Unknown,
}

/// The key that a variable of the environment sets, if it sets one.
pub open spec fn env_key_of(name: Seq<char>) -> Option<Key> {
    if name == "LIMINAL_MODE"@ {
        Some(Key::Mode)
    } else if name == "LIMINAL_SAMPLE_RATE"@ {
        Some(Key::SampleRate)
    } else if name == "LIMINAL_CHANNELS"@ {
        Some(Key::Channels)
    } else if name == "LIMINAL_FRAME_MS"@ {
        Some(Key::FrameMs)
    } else if name == "LIMINAL_ENABLE_METRICS"@ {
        Some(Key::EnableMetrics)
    } else if name == "LIMINAL_VIZ_MODE"@ {
        Some(Key::VizMode)
    } else if name == "LIMINAL_CYCLES"@ {
        Some(Key::Cycles)
    } else if name == "LIMINAL_LOG"@ {
        Some(Key::EnableLogging)
    } else if name == "LIMINAL_MEMORY"@ {
        Some(Key::Memory)
    } else if name == "LIMINAL_ASTRO"@ {
        Some(Key::Astro)
    } else if name == "LIMINAL_ASTRO_PATH"@ {
        Some(Key::AstroPath)
    } else if name == "LIMINAL_ASTRO_CACHE"@ {
        Some(Key::AstroCache)
    } else if name == "LIMINAL_MEMORY_PATH"@ {
        Some(Key::MemoryPath)
    } else if name == "LIMINAL_SYNC"@ {
        Some(Key::Sync)
    } else if name == "LIMINAL_SYNC_LR_FAST"@ {
        Some(Key::SyncLrFast)
    } else if name == "LIMINAL_SYNC_LR_SLOW"@ {
        Some(Key::SyncLrSlow)
    } else if name == "LIMINAL_SYNC_STEP"@ {
        Some(Key::SyncStep)
    } else if name == "LIMINAL_EMOTE"@ {
        Some(Key::Emote)
    } else if name == "LIMINAL_EMOTE_PATH"@ {
        Some(Key::EmotePath)
    } else if name == "LIMINAL_EMOTE_HALF_LIFE"@ {
        Some(Key::EmoteHalfLife)
    } else if name == "LIMINAL_EMOTE_WARM"@ {
        Some(Key::EmoteWarm)
    } else if name == "LIMINAL_AWARENESS"@ {
        Some(Key::Awareness)
    } else if name == "LIMINAL_META_VIZ"@ {
        Some(Key::MetaViz)
    } else if name == "LIMINAL_META_STAB_ALPHA"@ {
        Some(Key::MetaStabAlpha)
    } else if name == "LIMINAL_COMPASSION"@ {
        Some(Key::Compassion)
    } else if name == "LIMINAL_COMPASSION_VIZ"@ {
        Some(Key::CompassionViz)
    } else if name == "LIMINAL_COMPASSION_THRESHOLD"@ {
        Some(Key::CompassionThreshold)
    } else if name == "LIMINAL_LOG_DIR"@ {
        Some(Key::LogDir)
    } else {
        None
    }
}

/// What an argument of the command line is.
pub open spec fn arg_kind_of(arg: Seq<char>) -> ArgKind {
    if arg == "--mode"@ {
        ArgKind::Takes(Key::Mode)
    } else if arg == "--sample-rate"@ {
        ArgKind::Takes(Key::SampleRate)
    } else if arg == "--channels"@ {
        ArgKind::Takes(Key::Channels)
    } else if arg == "--frame-ms"@ {
        ArgKind::Takes(Key::FrameMs)
    } else if arg == "--viz"@ {
        ArgKind::Takes(Key::VizMode)
    } else if arg == "--cycles"@ {
        ArgKind::Takes(Key::Cycles)
    } else if arg == "--log-dir"@ {
        ArgKind::Takes(Key::LogDir)
    } else if arg == "--memory-path"@ {
        ArgKind::Takes(Key::MemoryPath)
    } else if arg == "--sync-lr-fast"@ {
        ArgKind::Takes(Key::SyncLrFast)
    } else if arg == "--sync-lr-slow"@ {
        ArgKind::Takes(Key::SyncLrSlow)
    } else if arg == "--sync-step"@ {
        ArgKind::Takes(Key::SyncStep)
    } else if arg == "--emote-path"@ {
        ArgKind::Takes(Key::EmotePath)
    } else if arg == "--emote-half-life"@ {
        ArgKind::Takes(Key::EmoteHalfLife)
    } else if arg == "--emote-warm"@ {
        ArgKind::Takes(Key::EmoteWarm)
    } else if arg == "--meta-stab-alpha"@ {
        ArgKind::Takes(Key::MetaStabAlpha)
    } else if arg == "--compassion-threshold"@ {
        ArgKind::Takes(Key::CompassionThreshold)
    } else if arg == "--script"@ {
        ArgKind::Takes(Key::Script)
    } else if arg == "--inputs"@ {
        ArgKind::Takes(Key::InputsPath)
    } else if arg == "--baseline-drift"@ {
        ArgKind::Takes(Key::BaselineDrift)
    } else if arg == "--baseline-res"@ {
        ArgKind::Takes(Key::BaselineRes)
    } else if arg == "--guard-drift"@ {
        ArgKind::Takes(Key::GuardDrift)
    } else if arg == "--guard-res"@ {
        ArgKind::Takes(Key::GuardRes)
    } else if arg == "--guard-factor"@ {
        ArgKind::Takes(Key::GuardFactor)
    } else if arg == "--stab-win"@ {
        ArgKind::Takes(Key::StabWin)
    } else if arg == "--stab-alpha"@ {
        ArgKind::Takes(Key::StabAlpha)
    } else if arg == "--stab-warm"@ {
        ArgKind::Takes(Key::StabWarm)
    } else if arg == "--stab-hot"@ {
        ArgKind::Takes(Key::StabHot)
    } else if arg == "--stab-lowres"@ {
        ArgKind::Takes(Key::StabLowRes)
    } else if arg == "--stab-cool"@ {
        ArgKind::Takes(Key::StabCool)
    } else if arg == "--stab-calm"@ {
        ArgKind::Takes(Key::StabCalm)
    } else if arg == "--no-metrics"@ {
        ArgKind::Switch(Key::EnableMetrics, false)
    } else if arg == "--log"@ {
        ArgKind::Switch(Key::EnableLogging, true)
    } else if arg == "--memory"@ {
        ArgKind::Switch(Key::Memory, true)
    } else if arg == "--no-memory"@ {
        ArgKind::Switch(Key::Memory, false)
    } else if arg == "--sync"@ {
        ArgKind::Switch(Key::Sync, true)
    } else if arg == "--no-sync"@ {
        ArgKind::Switch(Key::Sync, false)
    } else if arg == "--emote"@ {
        ArgKind::Switch(Key::Emote, true)
    } else if arg == "--no-emote"@ {
        ArgKind::Switch(Key::Emote, false)
    } else if arg == "--awareness"@ {
        ArgKind::Switch(Key::Awareness, true)
    } else if arg == "--no-awareness"@ {
        ArgKind::Switch(Key::Awareness, false)
    } else if arg == "--meta-viz"@ {
        ArgKind::Switch(Key::MetaViz, true)
    } else if arg == "--compassion"@ {
        ArgKind::Switch(Key::Compassion, true)
    } else if arg == "--no-compassion"@ {
        ArgKind::Switch(Key::Compassion, false)
    } else if arg == "--compassion-viz"@ {
        ArgKind::Switch(Key::CompassionViz, true)
    } else if arg == "--alarm"@ {
        ArgKind::Switch(Key::Alarm, true)
    } else if arg == "--no-alarm"@ {
        ArgKind::Switch(Key::Alarm, false)
    } else if arg == "--strict"@ {
        ArgKind::Switch(Key::Strict, true)
    } else if arg == "--guard"@ {
        ArgKind::Switch(Key::Guard, true)
    } else if arg == "--no-guard"@ {
        ArgKind::Switch(Key::Guard, false)
    } else if arg == "--stabilizer"@ {
        ArgKind::Switch(Key::Stabilizer, true)
    } else if arg == "--no-stabilizer"@ {
        ArgKind::Switch(Key::Stabilizer, false)
    } else {
        ArgKind::Unknown
    }
}

/// The flag that a word stands for: 1, true, yes and on for set, 0, false,
/// no and off for not set, whatever their case.
pub open spec fn flag_named(value: Seq<char>) -> Option<bool> {
    let word = ascii_lowercase(value);
    if word == "1"@ || word == "true"@ || word == "yes"@ || word == "on"@ {
        Some(true)
    } else if word == "0"@ || word == "false"@ || word == "no"@ || word == "off"@ {
        Some(false)
    } else {
        None
    }
}

/// A count that a text denotes, at least `least` and at most `most`.
pub open spec fn count_named(value: Seq<char>, least: int, most: int) -> Option<int> {
    match parse_int(value, false, 0, most) {
        Some(n) => if n >= least {
            Some(n)
        } else {
            None
        },
        None => None,
    }
}

/// A fraction in millionths that a text denotes, within a million units either way.
pub open spec fn fraction_named(value: Seq<char>) -> Option<int> {
    match parse_micro(value) {
        Some(v) => Some(clamp_int(v, -MICRO_BOUND_MAX as int, MICRO_BOUND_MAX as int)),
        None => None,
    }
}

/// Whether a text is more than white space.
pub open spec fn filled(value: Seq<char>) -> bool {
    trim_of(value).len() > 0
}

/// The configuration with a flag set.
pub open spec fn switched(c: ConfigView, key: Key, on: bool) -> ConfigView {
    match key {
        Key::EnableMetrics => ConfigView { enable_metrics: on, ..c },
        Key::EnableLogging => ConfigView { enable_logging: on, ..c },
        Key::Alarm => ConfigView { alarm: on, ..c },
        Key::Strict => ConfigView { strict: on, ..c },
        Key::Guard => ConfigView { guard: on, ..c },
        Key::Sync => ConfigView { sync: on, ..c },
        Key::Stabilizer => ConfigView { stabilizer: on, ..c },
        Key::Astro => ConfigView { astro: on, ..c },
        Key::Memory => ConfigView { memory: on, ..c },
        Key::Emote => ConfigView { emote: on, ..c },
        Key::Awareness => ConfigView { awareness: on, ..c },
        Key::MetaViz => ConfigView { meta_viz: on, ..c },
        Key::Compassion => ConfigView { compassion: on, ..c },
        Key::CompassionViz => ConfigView { compassion_viz: on, ..c },
        _ => c,
    }
}

/// The configuration with the value of a key set from its text, where the
/// text is a value for the key; else the configuration as it was. A value
/// from the environment must be more than white space to set the mode.
pub open spec fn assigned(c: ConfigView, key: Key, value: Seq<char>, from_env: bool) -> ConfigView {
    match key {
        Key::Mode => if from_env && !filled(value) {
            c
        } else {
            ConfigView { mode: ascii_lowercase(value), ..c }
        },
        Key::SampleRate => match count_named(value, 0, u32::MAX as int) {
            Some(n) => ConfigView { sample_rate: n as u32, ..c },
            None => c,
        },
        Key::Channels => match count_named(value, 0, u16::MAX as int) {
            Some(n) => ConfigView { channels: n as u16, ..c },
            None => c,
        },
        Key::FrameMs => match count_named(value, 0, u32::MAX as int) {
            Some(n) => ConfigView { frame_ms: n as u32, ..c },
            None => c,
        },
        Key::VizMode => match viz_named(value) {
            Some(m) => ConfigView { viz_mode: m, ..c },
            None => c,
        },
        Key::Cycles => match count_named(value, 1, usize::MAX as int) {
            Some(n) => ConfigView { cycles: n as usize, ..c },
            None => c,
        },
        Key::LogDir => if filled(value) {
            ConfigView { log_dir: value, ..c }
        } else {
            c
        },
        Key::Script => ConfigView { script: Some(value), ..c },
        Key::InputsPath => if filled(value) {
            ConfigView { inputs_path: Some(value), ..c }
        } else {
            c
        },
        Key::BaselineDrift => match fraction_named(value) {
            Some(v) => ConfigView { baseline_drift: v as i64, ..c },
            None => c,
        },
        Key::BaselineRes => match fraction_named(value) {
            Some(v) => ConfigView { baseline_res: v as i64, ..c },
            None => c,
        },
        Key::GuardDrift => match fraction_named(value) {
            Some(v) => ConfigView { guard_drift: v as i64, ..c },
            None => c,
        },
        Key::GuardRes => match fraction_named(value) {
            Some(v) => ConfigView { guard_res: v as i64, ..c },
            None => c,
        },
        Key::GuardFactor => match fraction_named(value) {
            Some(v) => ConfigView { guard_factor: v as i64, ..c },
            None => c,
        },
        Key::SyncLrFast => match fraction_named(value) {
            Some(v) => ConfigView { sync_lr_fast: v as i64, ..c },
            None => c,
        },
        Key::SyncLrSlow => match fraction_named(value) {
            Some(v) => ConfigView { sync_lr_slow: v as i64, ..c },
            None => c,
        },
        Key::SyncStep => match fraction_named(value) {
            Some(v) => ConfigView { sync_step: v as i64, ..c },
            None => c,
        },
        Key::StabWin => match count_named(value, 1, usize::MAX as int) {
            Some(n) => ConfigView { stab_win: n as usize, ..c },
            None => c,
        },
        Key::StabAlpha => match fraction_named(value) {
            Some(v) => ConfigView { stab_alpha: v as i64, ..c },
            None => c,
        },
        Key::StabWarm => match fraction_named(value) {
            Some(v) => ConfigView { stab_warm: v as i64, ..c },
            None => c,
        },
        Key::StabHot => match fraction_named(value) {
            Some(v) => ConfigView { stab_hot: v as i64, ..c },
            None => c,
        },
        Key::StabLowRes => match fraction_named(value) {
            Some(v) => ConfigView { stab_low_res: v as i64, ..c },
            None => c,
        },
        Key::StabCool => match count_named(value, 1, usize::MAX as int) {
            Some(n) => ConfigView { stab_cool: n as usize, ..c },
            None => c,
        },
        Key::StabCalm => match fraction_named(value) {
            Some(v) => ConfigView { stab_calm: v as i64, ..c },
            None => c,
        },
        Key::AstroPath => if filled(value) {
            ConfigView { astro_path: value, ..c }
        } else {
            c
        },
        Key::AstroCache => match count_named(value, 1, usize::MAX as int) {
            Some(n) => ConfigView { astro_cache: n as usize, ..c },
            None => c,
        },
        Key::MemoryPath => if filled(value) {
            ConfigView { memory_path: value, ..c }
        } else {
            c
        },
        Key::EmotePath => if filled(value) {
            ConfigView { emote_path: value, ..c }
        } else {
            c
        },
        Key::EmoteHalfLife => match count_named(value, 0, u32::MAX as int) {
            Some(n) => ConfigView { emote_half_life: n as u32, ..c },
            None => c,
        },
        Key::EmoteWarm => match fraction_named(value) {
            Some(v) => ConfigView { emote_warm: v as i64, ..c },
            None => c,
        },
        Key::MetaStabAlpha => match fraction_named(value) {
            Some(v) => ConfigView { meta_stab_alpha: v as i64, ..c },
            None => c,
        },
        Key::CompassionThreshold => match fraction_named(value) {
            Some(v) => ConfigView { compassion_threshold: v as i64, ..c },
            None => c,
        },
        _ => match flag_named(value) {
            Some(on) => switched(c, key, on),
            None => c,
        },
    }
}

/// The configuration after the variables of the environment, taken in order.
pub open spec fn after_env(c: ConfigView, env: Seq<(Seq<char>, Seq<char>)>) -> ConfigView
    decreases env.len(),
{
    if env.len() == 0 {
        c
    } else {
        let rest = after_env(c, env.drop_last());
        match env_key_of(env.last().0) {
            Some(key) => assigned(rest, key, env.last().1, true),
            None => rest,
        }
    }
}

/// The configuration after the arguments of the command line from the
/// `at`th on: a switch sets its flag; a name takes the next argument as its
/// value, if there is one, and that argument is then passed over.
pub open spec fn after_args(c: ConfigView, args: Seq<Seq<char>>, at: int) -> ConfigView
    decreases args.len() - at,
{
    if at < 0 || at >= args.len() {
        c
    } else {
        match arg_kind_of(args[at]) {
            ArgKind::Switch(key, on) => after_args(switched(c, key, on), args, at + 1),
            ArgKind::Takes(key) => if at + 1 < args.len() {
                after_args(assigned(c, key, args[at + 1], false), args, at + 2)
            } else {
                c
            },
            ArgKind::Unknown => after_args(c, args, at + 1),
        }
    }
}

/// The texts of the names and values of variables.
pub open spec fn pairs(env: Seq<(String, String)>) -> Seq<(Seq<char>, Seq<char>)> {
    Seq::new(env.len(), |k: int| (env[k].0@, env[k].1@))
}

/// The key that a variable of the environment sets.
pub fn env_key(name: &str) -> (key: Option<Key>)
    ensures
        key == env_key_of(name@),
{
    let n = chars_of(name);
    let s = n.as_slice();
    if same_text(s, "LIMINAL_MODE") {
        Some(Key::Mode)
    } else if same_text(s, "LIMINAL_SAMPLE_RATE") {
        Some(Key::SampleRate)
    } else if same_text(s, "LIMINAL_CHANNELS") {
        Some(Key::Channels)
    } else if same_text(s, "LIMINAL_FRAME_MS") {
        Some(Key::FrameMs)
    } else if same_text(s, "LIMINAL_ENABLE_METRICS") {
        Some(Key::EnableMetrics)
    } else if same_text(s, "LIMINAL_VIZ_MODE") {
        Some(Key::VizMode)
    } else if same_text(s, "LIMINAL_CYCLES") {
        Some(Key::Cycles)
    } else if same_text(s, "LIMINAL_LOG") {
        Some(Key::EnableLogging)
    } else if same_text(s, "LIMINAL_MEMORY") {
        Some(Key::Memory)
    } else if same_text(s, "LIMINAL_ASTRO") {
        Some(Key::Astro)
    } else if same_text(s, "LIMINAL_ASTRO_PATH") {
        Some(Key::AstroPath)
    } else if same_text(s, "LIMINAL_ASTRO_CACHE") {
        Some(Key::AstroCache)
    } else if same_text(s, "LIMINAL_MEMORY_PATH") {
        Some(Key::MemoryPath)
    } else if same_text(s, "LIMINAL_SYNC") {
        Some(Key::Sync)
    } else if same_text(s, "LIMINAL_SYNC_LR_FAST") {
        Some(Key::SyncLrFast)
    } else if same_text(s, "LIMINAL_SYNC_LR_SLOW") {
        Some(Key::SyncLrSlow)
    } else if same_text(s, "LIMINAL_SYNC_STEP") {
        Some(Key::SyncStep)
    } else if same_text(s, "LIMINAL_EMOTE") {
        Some(Key::Emote)
    } else if same_text(s, "LIMINAL_EMOTE_PATH") {
        Some(Key::EmotePath)
    } else if same_text(s, "LIMINAL_EMOTE_HALF_LIFE") {
        Some(Key::EmoteHalfLife)
    } else if same_text(s, "LIMINAL_EMOTE_WARM") {
        Some(Key::EmoteWarm)
    } else if same_text(s, "LIMINAL_AWARENESS") {
        Some(Key::Awareness)
    } else if same_text(s, "LIMINAL_META_VIZ") {
        Some(Key::MetaViz)
    } else if same_text(s, "LIMINAL_META_STAB_ALPHA") {
        Some(Key::MetaStabAlpha)
    } else if same_text(s, "LIMINAL_COMPASSION") {
        Some(Key::Compassion)
    } else if same_text(s, "LIMINAL_COMPASSION_VIZ") {
        Some(Key::CompassionViz)
    } else if same_text(s, "LIMINAL_COMPASSION_THRESHOLD") {
        Some(Key::CompassionThreshold)
    } else if same_text(s, "LIMINAL_LOG_DIR") {
        Some(Key::LogDir)
    } else {
        None
    }
}

/// What an argument of the command line is.
pub fn arg_kind(arg: &str) -> (kind: ArgKind)
    ensures
        kind == arg_kind_of(arg@),
{
    let a = chars_of(arg);
    let s = a.as_slice();
    if same_text(s, "--mode") {
        ArgKind::Takes(Key::Mode)
    } else if same_text(s, "--sample-rate") {
        ArgKind::Takes(Key::SampleRate)
    } else if same_text(s, "--channels") {
        ArgKind::Takes(Key::Channels)
    } else if same_text(s, "--frame-ms") {
        ArgKind::Takes(Key::FrameMs)
    } else if same_text(s, "--viz") {
        ArgKind::Takes(Key::VizMode)
    } else if same_text(s, "--cycles") {
        ArgKind::Takes(Key::Cycles)
    } else if same_text(s, "--log-dir") {
        ArgKind::Takes(Key::LogDir)
    } else if same_text(s, "--memory-path") {
        ArgKind::Takes(Key::MemoryPath)
    } else if same_text(s, "--sync-lr-fast") {
        ArgKind::Takes(Key::SyncLrFast)
    } else if same_text(s, "--sync-lr-slow") {
        ArgKind::Takes(Key::SyncLrSlow)
    } else if same_text(s, "--sync-step") {
        ArgKind::Takes(Key::SyncStep)
    } else if same_text(s, "--emote-path") {
        ArgKind::Takes(Key::EmotePath)
    } else if same_text(s, "--emote-half-life") {
        ArgKind::Takes(Key::EmoteHalfLife)
    } else if same_text(s, "--emote-warm") {
        ArgKind::Takes(Key::EmoteWarm)
    } else if same_text(s, "--meta-stab-alpha") {
        ArgKind::Takes(Key::MetaStabAlpha)
    } else if same_text(s, "--compassion-threshold") {
        ArgKind::Takes(Key::CompassionThreshold)
    } else if same_text(s, "--script") {
        ArgKind::Takes(Key::Script)
    } else if same_text(s, "--inputs") {
        ArgKind::Takes(Key::InputsPath)
    } else if same_text(s, "--baseline-drift") {
        ArgKind::Takes(Key::BaselineDrift)
    } else if same_text(s, "--baseline-res") {
        ArgKind::Takes(Key::BaselineRes)
    } else if same_text(s, "--guard-drift") {
        ArgKind::Takes(Key::GuardDrift)
    } else if same_text(s, "--guard-res") {
        ArgKind::Takes(Key::GuardRes)
    } else if same_text(s, "--guard-factor") {
        ArgKind::Takes(Key::GuardFactor)
    } else if same_text(s, "--stab-win") {
        ArgKind::Takes(Key::StabWin)
    } else if same_text(s, "--stab-alpha") {
        ArgKind::Takes(Key::StabAlpha)
    } else if same_text(s, "--stab-warm") {
        ArgKind::Takes(Key::StabWarm)
    } else if same_text(s, "--stab-hot") {
        ArgKind::Takes(Key::StabHot)
    } else if same_text(s, "--stab-lowres") {
        ArgKind::Takes(Key::StabLowRes)
    } else if same_text(s, "--stab-cool") {
        ArgKind::Takes(Key::StabCool)
    } else if same_text(s, "--stab-calm") {
        ArgKind::Takes(Key::StabCalm)
    } else if same_text(s, "--no-metrics") {
        ArgKind::Switch(Key::EnableMetrics, false)
    } else if same_text(s, "--log") {
        ArgKind::Switch(Key::EnableLogging, true)
    } else if same_text(s, "--memory") {
        ArgKind::Switch(Key::Memory, true)
    } else if same_text(s, "--no-memory") {
        ArgKind::Switch(Key::Memory, false)
    } else if same_text(s, "--sync") {
        ArgKind::Switch(Key::Sync, true)
    } else if same_text(s, "--no-sync") {
        ArgKind::Switch(Key::Sync, false)
    } else if same_text(s, "--emote") {
        ArgKind::Switch(Key::Emote, true)
    } else if same_text(s, "--no-emote") {
        ArgKind::Switch(Key::Emote, false)
    } else if same_text(s, "--awareness") {
        ArgKind::Switch(Key::Awareness, true)
    } else if same_text(s, "--no-awareness") {
        ArgKind::Switch(Key::Awareness, false)
    } else if same_text(s, "--meta-viz") {
        ArgKind::Switch(Key::MetaViz, true)
    } else if same_text(s, "--compassion") {
        ArgKind::Switch(Key::Compassion, true)
    } else if same_text(s, "--no-compassion") {
        ArgKind::Switch(Key::Compassion, false)
    } else if same_text(s, "--compassion-viz") {
        ArgKind::Switch(Key::CompassionViz, true)
    } else if same_text(s, "--alarm") {
        ArgKind::Switch(Key::Alarm, true)
    } else if same_text(s, "--no-alarm") {
        ArgKind::Switch(Key::Alarm, false)
    } else if same_text(s, "--strict") {
        ArgKind::Switch(Key::Strict, true)
    } else if same_text(s, "--guard") {
        ArgKind::Switch(Key::Guard, true)
    } else if same_text(s, "--no-guard") {
        ArgKind::Switch(Key::Guard, false)
    } else if same_text(s, "--stabilizer") {
        ArgKind::Switch(Key::Stabilizer, true)
    } else if same_text(s, "--no-stabilizer") {
        ArgKind::Switch(Key::Stabilizer, false)
    } else {
        ArgKind::Unknown
    }
}

fn lower_char(c: char) -> (r: char)
    ensures
        r == ascii_lower(c),
{
    if c == 'A' {
        'a'
    } else if c == 'B' {
        'b'
    } else if c == 'C' {
        'c'
    } else if c == 'D' {
        'd'
    } else if c == 'E' {
        'e'
    } else if c == 'F' {
        'f'
    } else if c == 'G' {
        'g'
    } else if c == 'H' {
        'h'
    } else if c == 'I' {
        'i'
    } else if c == 'J' {
        'j'
    } else if c == 'K' {
        'k'
    } else if c == 'L' {
        'l'
    } else if c == 'M' {
        'm'
    } else if c == 'N' {
        'n'
    } else if c == 'O' {
        'o'
    } else if c == 'P' {
        'p'
    } else if c == 'Q' {
        'q'
    } else if c == 'R' {
        'r'
    } else if c == 'S' {
        's'
    } else if c == 'T' {
        't'
    } else if c == 'U' {
        'u'
    } else if c == 'V' {
        'v'
    } else if c == 'W' {
        'w'
    } else if c == 'X' {
        'x'
    } else if c == 'Y' {
        'y'
    } else if c == 'Z' {
        'z'
    } else {
        c
    }
}

/// A text with its capital ASCII letters turned into small ones.
pub fn to_ascii_lower(s: &[char]) -> (r: String)
    ensures
        r@ == ascii_lowercase(s@),
{
    let mut out = String::new();
    let mut i: usize = 0;
    while i < s.len()
        invariant
            i <= s.len(),
            out@ == ascii_lowercase(s@).take(i as int),
        decreases s.len() - i,
    {
        out.push(lower_char(s[i]));
        i += 1;
        assert(out@ =~= ascii_lowercase(s@).take(i as int));
    }
    assert(ascii_lowercase(s@).take(i as int) =~= ascii_lowercase(s@));
    out
}

fn read_flag(s: &[char]) -> (r: Option<bool>)
    ensures
        r == flag_named(s@),
{
    if same_text_ignoring_case(s, "1") || same_text_ignoring_case(s, "true")
        || same_text_ignoring_case(s, "yes") || same_text_ignoring_case(s, "on") {
        Some(true)
    } else if same_text_ignoring_case(s, "0") || same_text_ignoring_case(s, "false")
        || same_text_ignoring_case(s, "no") || same_text_ignoring_case(s, "off") {
        Some(false)
    } else {
        None
    }
}

fn read_count(s: &[char], least: i64, most: i64) -> (r: Option<i64>)
    requires
        0 <= least,
    ensures
        match count_named(s@, least as int, most as int) {
            Some(n) => r == Some(n as i64) && least <= n <= most,
            None => r is None,
        },
{
    match parse_int_text(s, false, 0, most) {
        Some(n) => if n >= least {
            Some(n)
        } else {
            None
        },
        None => None,
    }
}

fn read_size(s: &[char]) -> (r: Option<usize>)
    ensures
        match count_named(s@, 1, usize::MAX as int) {
            Some(n) => r == Some(n as usize),
            None => r is None,
        },
{
    let body: &[char] = if s.len() > 0 && s[0] == '+' {
        vstd::slice::slice_subrange(s, 1, s.len())
    } else {
        s
    };
    assert(body@ =~= crate::text::unsigned_part(s@, false));
    if body.len() == 0 {
        return None;
    }
    match crate::text::read_digits(body, 0xFFFF_FFFF_FFFF_FFFF) {
        Some((value, over)) => {
            if over || value < 1 || value as u128 > usize::MAX as u128 {
                None
            } else {
                Some(value as usize)
            }
        },
        None => None,
    }
}

fn read_fraction(s: &[char]) -> (r: Option<i64>)
    ensures
        match fraction_named(s@) {
            Some(v) => r == Some(v as i64),
            None => r is None,
        },
{
    parse_micro_text(s, -MICRO_BOUND_MAX, MICRO_BOUND_MAX)
}

/// The sort of value that a key takes: 0 for a text, 1 for a count, 2 for a fraction, 3 for a flag or a mode of display.
pub open spec fn key_sort(key: Key) -> int {
    match key {
        Key::Mode => 0,
        Key::SampleRate => 1,
        Key::Channels => 1,
        Key::FrameMs => 1,
        Key::EnableMetrics => 3,
        Key::VizMode => 3,
        Key::Cycles => 1,
        Key::EnableLogging => 3,
        Key::LogDir => 0,
        Key::Script => 0,
        Key::InputsPath => 0,
        Key::BaselineDrift => 2,
        Key::BaselineRes => 2,
        Key::Alarm => 3,
        Key::Strict => 3,
        Key::Guard => 3,
        Key::GuardDrift => 2,
        Key::GuardRes => 2,
        Key::GuardFactor => 2,
        Key::Sync => 3,
        Key::SyncLrFast => 2,
        Key::SyncLrSlow => 2,
        Key::SyncStep => 2,
        Key::Stabilizer => 3,
        Key::StabWin => 1,
        Key::StabAlpha => 2,
        Key::StabWarm => 2,
        Key::StabHot => 2,
        Key::StabLowRes => 2,
        Key::StabCool => 1,
        Key::StabCalm => 2,
        Key::Astro => 3,
        Key::AstroPath => 0,
        Key::AstroCache => 1,
        Key::Memory => 3,
        Key::MemoryPath => 0,
        Key::Emote => 3,
        Key::EmotePath => 0,
        Key::EmoteHalfLife => 1,
        Key::EmoteWarm => 2,
        Key::Awareness => 3,
        Key::MetaViz => 3,
        Key::MetaStabAlpha => 2,
        Key::Compassion => 3,
        Key::CompassionViz => 3,
        Key::CompassionThreshold => 2,
    }
}

fn sort_of(key: Key) -> (r: u8)
    ensures
        r == key_sort(key),
{
    match key {
        Key::Mode => 0,
        Key::SampleRate => 1,
        Key::Channels => 1,
        Key::FrameMs => 1,
        Key::EnableMetrics => 3,
        Key::VizMode => 3,
        Key::Cycles => 1,
        Key::EnableLogging => 3,
        Key::LogDir => 0,
        Key::Script => 0,
        Key::InputsPath => 0,
        Key::BaselineDrift => 2,
        Key::BaselineRes => 2,
        Key::Alarm => 3,
        Key::Strict => 3,
        Key::Guard => 3,
        Key::GuardDrift => 2,
        Key::GuardRes => 2,
        Key::GuardFactor => 2,
        Key::Sync => 3,
        Key::SyncLrFast => 2,
        Key::SyncLrSlow => 2,
        Key::SyncStep => 2,
        Key::Stabilizer => 3,
        Key::StabWin => 1,
        Key::StabAlpha => 2,
        Key::StabWarm => 2,
        Key::StabHot => 2,
        Key::StabLowRes => 2,
        Key::StabCool => 1,
        Key::StabCalm => 2,
        Key::Astro => 3,
        Key::AstroPath => 0,
        Key::AstroCache => 1,
        Key::Memory => 3,
        Key::MemoryPath => 0,
        Key::Emote => 3,
        Key::EmotePath => 0,
        Key::EmoteHalfLife => 1,
        Key::EmoteWarm => 2,
        Key::Awareness => 3,
        Key::MetaViz => 3,
        Key::MetaStabAlpha => 2,
        Key::Compassion => 3,
        Key::CompassionViz => 3,
        Key::CompassionThreshold => 2,
    }
}

impl Config {
    fn set_mode(&mut self, v: String)
        ensures
            final(self)@ == (ConfigView { mode: v@, ..old(self)@ }),
    {
        self.mode = v;
    }

    fn set_sample_rate(&mut self, v: u32)
        ensures
            final(self)@ == (ConfigView { sample_rate: v, ..old(self)@ }),
    {
        self.sample_rate = v;
    }

    fn set_channels(&mut self, v: u16)
        ensures
            final(self)@ == (ConfigView { channels: v, ..old(self)@ }),
    {
        self.channels = v;
    }

    fn set_frame_ms(&mut self, v: u32)
        ensures
            final(self)@ == (ConfigView { frame_ms: v, ..old(self)@ }),
    {
        self.frame_ms = v;
    }

    fn set_enable_metrics(&mut self, v: bool)
        ensures
            final(self)@ == (ConfigView { enable_metrics: v, ..old(self)@ }),
    {
        self.enable_metrics = v;
    }

    fn set_viz_mode(&mut self, v: VizMode)
        ensures
            final(self)@ == (ConfigView { viz_mode: v, ..old(self)@ }),
    {
        self.viz_mode = v;
    }

    fn set_cycles(&mut self, v: usize)
        ensures
            final(self)@ == (ConfigView { cycles: v, ..old(self)@ }),
    {
        self.cycles = v;
    }

    fn set_enable_logging(&mut self, v: bool)
        ensures
            final(self)@ == (ConfigView { enable_logging: v, ..old(self)@ }),
    {
        self.enable_logging = v;
    }

    fn set_log_dir(&mut self, v: String)
        ensures
            final(self)@ == (ConfigView { log_dir: v@, ..old(self)@ }),
    {
        self.log_dir = v;
    }

    fn set_script(&mut self, v: String)
        ensures
            final(self)@ == (ConfigView { script: Some(v@), ..old(self)@ }),
    {
        self.script = Some(v);
    }

    fn set_inputs_path(&mut self, v: String)
        ensures
            final(self)@ == (ConfigView { inputs_path: Some(v@), ..old(self)@ }),
    {
        self.inputs_path = Some(v);
    }

    fn set_baseline_drift(&mut self, v: i64)
        ensures
            final(self)@ == (ConfigView { baseline_drift: v, ..old(self)@ }),
    {
        self.baseline_drift = v;
    }

    fn set_baseline_res(&mut self, v: i64)
        ensures
            final(self)@ == (ConfigView { baseline_res: v, ..old(self)@ }),
    {
        self.baseline_res = v;
    }

    fn set_alarm(&mut self, v: bool)
        ensures
            final(self)@ == (ConfigView { alarm: v, ..old(self)@ }),
    {
        self.alarm = v;
    }

    fn set_strict(&mut self, v: bool)
        ensures
            final(self)@ == (ConfigView { strict: v, ..old(self)@ }),
    {
        self.strict = v;
    }

    fn set_guard(&mut self, v: bool)
        ensures
            final(self)@ == (ConfigView { guard: v, ..old(self)@ }),
    {
        self.guard = v;
    }

    fn set_guard_drift(&mut self, v: i64)
        ensures
            final(self)@ == (ConfigView { guard_drift: v, ..old(self)@ }),
    {
        self.guard_drift = v;
    }

    fn set_guard_res(&mut self, v: i64)
        ensures
            final(self)@ == (ConfigView { guard_res: v, ..old(self)@ }),
    {
        self.guard_res = v;
    }

    fn set_guard_factor(&mut self, v: i64)
        ensures
            final(self)@ == (ConfigView { guard_factor: v, ..old(self)@ }),
    {
        self.guard_factor = v;
    }

    fn set_sync(&mut self, v: bool)
        ensures
            final(self)@ == (ConfigView { sync: v, ..old(self)@ }),
    {
        self.sync = v;
    }

    fn set_sync_lr_fast(&mut self, v: i64)
        ensures
            final(self)@ == (ConfigView { sync_lr_fast: v, ..old(self)@ }),
    {
        self.sync_lr_fast = v;
    }

    fn set_sync_lr_slow(&mut self, v: i64)
        ensures
            final(self)@ == (ConfigView { sync_lr_slow: v, ..old(self)@ }),
    {
        self.sync_lr_slow = v;
    }

    fn set_sync_step(&mut self, v: i64)
        ensures
            final(self)@ == (ConfigView { sync_step: v, ..old(self)@ }),
    {
        self.sync_step = v;
    }

    fn set_stabilizer(&mut self, v: bool)
        ensures
            final(self)@ == (ConfigView { stabilizer: v, ..old(self)@ }),
    {
        self.stabilizer = v;
    }

    fn set_stab_win(&mut self, v: usize)
        ensures
            final(self)@ == (ConfigView { stab_win: v, ..old(self)@ }),
    {
        self.stab_win = v;
    }

    fn set_stab_alpha(&mut self, v: i64)
        ensures
            final(self)@ == (ConfigView { stab_alpha: v, ..old(self)@ }),
    {
        self.stab_alpha = v;
    }

    fn set_stab_warm(&mut self, v: i64)
        ensures
            final(self)@ == (ConfigView { stab_warm: v, ..old(self)@ }),
    {
        self.stab_warm = v;
    }

    fn set_stab_hot(&mut self, v: i64)
        ensures
            final(self)@ == (ConfigView { stab_hot: v, ..old(self)@ }),
    {
        self.stab_hot = v;
    }

    fn set_stab_low_res(&mut self, v: i64)
        ensures
            final(self)@ == (ConfigView { stab_low_res: v, ..old(self)@ }),
    {
        self.stab_low_res = v;
    }

    fn set_stab_cool(&mut self, v: usize)
        ensures
            final(self)@ == (ConfigView { stab_cool: v, ..old(self)@ }),
    {
        self.stab_cool = v;
    }

    fn set_stab_calm(&mut self, v: i64)
        ensures
            final(self)@ == (ConfigView { stab_calm: v, ..old(self)@ }),
    {
        self.stab_calm = v;
    }

    fn set_astro(&mut self, v: bool)
        ensures
            final(self)@ == (ConfigView { astro: v, ..old(self)@ }),
    {
        self.astro = v;
    }

    fn set_astro_path(&mut self, v: String)
        ensures
            final(self)@ == (ConfigView { astro_path: v@, ..old(self)@ }),
    {
        self.astro_path = v;
    }

    fn set_astro_cache(&mut self, v: usize)
        ensures
            final(self)@ == (ConfigView { astro_cache: v, ..old(self)@ }),
    {
        self.astro_cache = v;
    }

    fn set_memory(&mut self, v: bool)
        ensures
            final(self)@ == (ConfigView { memory: v, ..old(self)@ }),
    {
        self.memory = v;
    }

    fn set_memory_path(&mut self, v: String)
        ensures
            final(self)@ == (ConfigView { memory_path: v@, ..old(self)@ }),
    {
        self.memory_path = v;
    }

    fn set_emote(&mut self, v: bool)
        ensures
            final(self)@ == (ConfigView { emote: v, ..old(self)@ }),
    {
        self.emote = v;
    }

    fn set_emote_path(&mut self, v: String)
        ensures
            final(self)@ == (ConfigView { emote_path: v@, ..old(self)@ }),
    {
        self.emote_path = v;
    }

    fn set_emote_half_life(&mut self, v: u32)
        ensures
            final(self)@ == (ConfigView { emote_half_life: v, ..old(self)@ }),
    {
        self.emote_half_life = v;
    }

    fn set_emote_warm(&mut self, v: i64)
        ensures
            final(self)@ == (ConfigView { emote_warm: v, ..old(self)@ }),
    {
        self.emote_warm = v;
    }

    fn set_awareness(&mut self, v: bool)
        ensures
            final(self)@ == (ConfigView { awareness: v, ..old(self)@ }),
    {
        self.awareness = v;
    }

    fn set_meta_viz(&mut self, v: bool)
        ensures
            final(self)@ == (ConfigView { meta_viz: v, ..old(self)@ }),
    {
        self.meta_viz = v;
    }

    fn set_meta_stab_alpha(&mut self, v: i64)
        ensures
            final(self)@ == (ConfigView { meta_stab_alpha: v, ..old(self)@ }),
    {
        self.meta_stab_alpha = v;
    }

    fn set_compassion(&mut self, v: bool)
        ensures
            final(self)@ == (ConfigView { compassion: v, ..old(self)@ }),
    {
        self.compassion = v;
    }

    fn set_compassion_viz(&mut self, v: bool)
        ensures
            final(self)@ == (ConfigView { compassion_viz: v, ..old(self)@ }),
    {
        self.compassion_viz = v;
    }

    fn set_compassion_threshold(&mut self, v: i64)
        ensures
            final(self)@ == (ConfigView { compassion_threshold: v, ..old(self)@ }),
    {
        self.compassion_threshold = v;
    }

    /// Sets a flag; a key that is no flag is left alone.
    pub fn switch(&mut self, key: Key, on: bool)
        ensures
            final(self)@ == switched(old(self)@, key, on),
    {
        match key {
            Key::EnableMetrics => self.set_enable_metrics(on),
            Key::EnableLogging => self.set_enable_logging(on),
            Key::Alarm => self.set_alarm(on),
            Key::Strict => self.set_strict(on),
            Key::Guard => self.set_guard(on),
            Key::Sync => self.set_sync(on),
            Key::Stabilizer => self.set_stabilizer(on),
            Key::Astro => self.set_astro(on),
            Key::Memory => self.set_memory(on),
            Key::Emote => self.set_emote(on),
            Key::Awareness => self.set_awareness(on),
            Key::MetaViz => self.set_meta_viz(on),
            Key::Compassion => self.set_compassion(on),
            Key::CompassionViz => self.set_compassion_viz(on),
            _ => {},
        }
    }

    fn assign_text(&mut self, key: Key, s: &[char], from_env: bool)
        requires
            key_sort(key) == 0,
        ensures
            final(self)@ == assigned(old(self)@, key, s@, from_env),
    {
        let has_text: bool = strip_slice(s, false).len() > 0;
        match key {
            Key::Mode => {
                if !from_env || has_text {
                    self.set_mode(to_ascii_lower(s));
                }
            },
            Key::LogDir => {
                if has_text {
                    self.set_log_dir(string_of(s));
                }
            },
            Key::Script => self.set_script(string_of(s)),
            Key::InputsPath => {
                if has_text {
                    self.set_inputs_path(string_of(s));
                }
            },
            Key::AstroPath => {
                if has_text {
                    self.set_astro_path(string_of(s));
                }
            },
            Key::MemoryPath => {
                if has_text {
                    self.set_memory_path(string_of(s));
                }
            },
            Key::EmotePath => {
                if has_text {
                    self.set_emote_path(string_of(s));
                }
            },
            _ => {},
        }
    }

    fn assign_count(&mut self, key: Key, s: &[char], from_env: bool)
        requires
            key_sort(key) == 1,
        ensures
            final(self)@ == assigned(old(self)@, key, s@, from_env),
    {
        match key {
            Key::SampleRate => {
                match read_count(s, 0, 0xFFFF_FFFF) {
                    Some(n) => self.set_sample_rate(n as u32),
                    None => {},
                }
            },
            Key::Channels => {
                match read_count(s, 0, 0xFFFF) {
                    Some(n) => self.set_channels(n as u16),
                    None => {},
                }
            },
            Key::FrameMs => {
                match read_count(s, 0, 0xFFFF_FFFF) {
                    Some(n) => self.set_frame_ms(n as u32),
                    None => {},
                }
            },
            Key::Cycles => {
                match read_size(s) {
                    Some(n) => self.set_cycles(n),
                    None => {},
                }
            },
            Key::StabWin => {
                match read_size(s) {
                    Some(n) => self.set_stab_win(n),
                    None => {},
                }
            },
            Key::StabCool => {
                match read_size(s) {
                    Some(n) => self.set_stab_cool(n),
                    None => {},
                }
            },
            Key::AstroCache => {
                match read_size(s) {
                    Some(n) => self.set_astro_cache(n),
                    None => {},
                }
            },
            Key::EmoteHalfLife => {
                match read_count(s, 0, 0xFFFF_FFFF) {
                    Some(n) => self.set_emote_half_life(n as u32),
                    None => {},
                }
            },
            _ => {},
        }
    }

    fn assign_fraction(&mut self, key: Key, s: &[char], from_env: bool)
        requires
            key_sort(key) == 2,
        ensures
            final(self)@ == assigned(old(self)@, key, s@, from_env),
    {
        match read_fraction(s) {
            Some(v) => {
                match key {
                    Key::BaselineDrift => self.set_baseline_drift(v),
                    Key::BaselineRes => self.set_baseline_res(v),
                    Key::GuardDrift => self.set_guard_drift(v),
                    Key::GuardRes => self.set_guard_res(v),
                    Key::GuardFactor => self.set_guard_factor(v),
                    Key::SyncLrFast => self.set_sync_lr_fast(v),
                    Key::SyncLrSlow => self.set_sync_lr_slow(v),
                    Key::SyncStep => self.set_sync_step(v),
                    Key::StabAlpha => self.set_stab_alpha(v),
                    Key::StabWarm => self.set_stab_warm(v),
                    Key::StabHot => self.set_stab_hot(v),
                    Key::StabLowRes => self.set_stab_low_res(v),
                    Key::StabCalm => self.set_stab_calm(v),
                    Key::EmoteWarm => self.set_emote_warm(v),
                    Key::MetaStabAlpha => self.set_meta_stab_alpha(v),
                    Key::CompassionThreshold => self.set_compassion_threshold(v),
                    _ => {},
                }
            },
            None => {},
        }
    }

    fn assign_flag(&mut self, key: Key, s: &[char], from_env: bool)
        requires
            key_sort(key) == 3,
        ensures
            final(self)@ == assigned(old(self)@, key, s@, from_env),
    {
        match key {
            Key::VizMode => {
                let word = string_of(s);
                match VizMode::from_str(word.as_str()) {
                    Some(m) => self.set_viz_mode(m),
                    None => {},
                }
            },
            _ => {
                match read_flag(s) {
                    Some(on) => self.switch(key, on),
                    None => {},
                }
            },
        }
    }

    /// Sets the value of a key from its text; see `assigned`.
    pub fn assign(&mut self, key: Key, value: &str, from_env: bool)
        ensures
            final(self)@ == assigned(old(self)@, key, value@, from_env),
    {
        let chars = chars_of(value);
        let s = chars.as_slice();
        let sort = sort_of(key);
        if sort == 0 {
            self.assign_text(key, s, from_env);
        } else if sort == 1 {
            self.assign_count(key, s, from_env);
        } else if sort == 2 {
            self.assign_fraction(key, s, from_env);
        } else {
            self.assign_flag(key, s, from_env);
        }
    }
}

/// The configuration of a run: the defaults, then what the variables of
/// the environment set, then what the arguments of the command line set.
pub fn from_env_or_args(env: &Vec<(String, String)>, args: &Vec<String>) -> (cfg: Config)
    ensures
        cfg@ == after_args(after_env(defaults(), pairs(env@)), crate::text::texts(args@), 0),
{
    let mut cfg = Config::default();
    let mut i: usize = 0;
    assert(pairs(env@).take(0) =~= Seq::<(Seq<char>, Seq<char>)>::empty());
    while i < env.len()
        invariant
            i <= env.len(),
            cfg@ == after_env(defaults(), pairs(env@).take(i as int)),
        decreases env.len() - i,
    {
        proof {
            let all = pairs(env@);
            assert(all.take(i + 1).drop_last() =~= all.take(i as int));
            assert(all.take(i + 1).last() == all[i as int]);
        }
        match env_key(env[i].0.as_str()) {
            Some(key) => {
                cfg.assign(key, env[i].1.as_str(), true);
            },
            None => {},
        }
        i += 1;
    }
    assert(pairs(env@).take(i as int) =~= pairs(env@));
    let ghost start = cfg@;
    let ghost words = crate::text::texts(args@);
    let mut at: usize = 0;
    while at < args.len()
        invariant
            at <= args.len(),
            words == crate::text::texts(args@),
            after_args(start, words, 0) == after_args(cfg@, words, at as int),
        decreases args.len() - at,
    {
        assert(words[at as int] == args@[at as int]@);
        match arg_kind(args[at].as_str()) {
            ArgKind::Switch(key, on) => {
                cfg.switch(key, on);
                at += 1;
            },
            ArgKind::Takes(key) => {
                if at + 1 < args.len() {
                    assert(words[at + 1] == args@[at + 1]@);
                    cfg.assign(key, args[at + 1].as_str(), false);
                    at += 2;
                } else {
                    at = args.len();
                }
            },
            ArgKind::Unknown => {
                at += 1;
            },
        }
    }
    cfg
}

} // verus!
