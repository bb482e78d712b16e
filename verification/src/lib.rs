//! Adaptive regulation of two conversational signals, drift and resonance.
//!
//! Three parts do the regulating. The stabilizer smooths the signals of
//! each turn and keeps a four-state temperament. The sync controller turns
//! the gap to the baselines into bounded corrections of pace, pause,
//! resonance and drift, and into a slow increment at the end of a run. The
//! topic memory keeps, for each topic, what worked: a bounded store that
//! drops the topic touched longest ago, lets confidence fade with time, and
//! writes every change as a line of an append-only log.
//!
//! Around them stand the parts that feed them and show their work: prosody,
//! the soft guard, self-observation, compassion, device and emotive memory,
//! the configuration, and the texts of logs and tables.
//!
//! Every fractional quantity is held as a whole number of millionths, so
//! that the arithmetic is exact and the six-decimal text of the trace log
//! maps onto it digit for digit. A quotient is rounded to the nearest whole
//! number, a tie going away from zero.
//!
//! The library reads no file and no clock but the one of `metrics`: callers
//! hand it the text of a log and append the lines it returns.

pub mod adaptive_qa;
pub mod alerts;
pub mod astro;
pub mod awareness;
pub mod clock;
pub mod compassion;
pub mod config;
pub mod device;
pub mod device_memory;
pub mod dialog;
pub mod emotive;
pub mod metrics;
pub mod micro;
pub mod prosody;
pub mod quoted;
pub mod session;
pub mod softguard;
pub mod spark;
pub mod stabilizer;
pub mod sync;
pub mod text;
pub mod topic;
pub mod trace_line;
pub mod turn;
pub mod utils;
pub mod viz;
pub mod voice_io;
