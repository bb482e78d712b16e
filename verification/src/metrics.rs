//! Clamp of a signal to the unit range.

use crate::micro::{clamp, unit, ONE};
use crate::text::{decimal_digits, push_decimal, push_text};
use std::time::{Duration, Instant};
use vstd::prelude::*;

verus! {

/// `std::time::Instant`: a reading of a clock that never runs backwards.
/// Nothing inside it is seen here.
#[verifier::external_type_specification]
#[verifier::external_body]
pub struct ExInstant(std::time::Instant);

/// `Instant::now`: the reading of the clock at the call. Nothing is known of it.
pub assume_specification[ Instant::now ]() -> (now: Instant)
;

/// `Instant::elapsed`: the time that has passed since the reading. Nothing is known of it.
pub assume_specification[ Instant::elapsed ](start: &Instant) -> (passed: Duration)
;

/// `Duration::as_millis`: the whole milliseconds of the duration. Nothing is known of them.
pub assume_specification[ Duration::as_millis ](passed: &Duration) -> (ms: u128)
;

/// Wall-clock time of the stages of one turn, in milliseconds.
#[derive(Debug)]
pub struct VoiceMetrics {
    pub start_ts: Instant,
    pub asr_ms: u128,
    pub tts_ms: u128,
    pub total_ms: u128,
}

/// Starts the clock of a turn: no stage has taken any time yet.
pub fn start() -> (vm: VoiceMetrics)
    ensures
        vm.asr_ms == 0,
        vm.tts_ms == 0,
        vm.total_ms == 0,
{
    started_at(Instant::now())
}

/// Stops the clock of a turn: sets the total to the time since its start
/// and leaves the times of the stages as they are.
pub fn finish(vm: &mut VoiceMetrics)
    ensures
        final(vm).start_ts == old(vm).start_ts,
        final(vm).asr_ms == old(vm).asr_ms,
        final(vm).tts_ms == old(vm).tts_ms,
{
    let passed = vm.start_ts.elapsed();
    set_total(vm, passed.as_millis());
}

/// The times of a turn that started at the given reading of the clock: no
/// stage has taken any time yet.
pub fn started_at(now: Instant) -> (vm: VoiceMetrics)
    ensures
        vm.start_ts == now,
        vm.asr_ms == 0,
        vm.tts_ms == 0,
        vm.total_ms == 0,
{
    VoiceMetrics { start_ts: now, asr_ms: 0, tts_ms: 0, total_ms: 0 }
}

/// Sets the total time of a turn and leaves its start and the times of the
/// stages as they are.
pub fn set_total(vm: &mut VoiceMetrics, total_ms: u128)
    ensures
        final(vm).total_ms == total_ms,
        final(vm).start_ts == old(vm).start_ts,
        final(vm).asr_ms == old(vm).asr_ms,
        final(vm).tts_ms == old(vm).tts_ms,
{
    vm.total_ms = total_ms;
}

/// The line that reports the times of a turn.
pub fn report_line(vm: &VoiceMetrics) -> (line: String)
    ensures
        line@ == metrics_text(vm.asr_ms as nat, vm.tts_ms as nat, vm.total_ms as nat),
{
    metrics_line(vm.asr_ms, vm.tts_ms, vm.total_ms)
}

/// `v` moved into the unit range: 0 below it, `ONE` above it.
pub fn clamp01(v: i64) -> (r: i64)
    ensures
        r == unit(v as int),
        0 <= r <= ONE,
{
    clamp(v, 0, ONE)
}

/// The three times of a turn as a line of the log.
pub open spec fn metrics_text(asr_ms: nat, tts_ms: nat, total_ms: nat) -> Seq<char> {
    "[metrics] asr="@ + decimal_digits(asr_ms) + "ms tts="@ + decimal_digits(tts_ms) + "ms total="@
        + decimal_digits(total_ms) + "ms"@
}

/// The line that reports the three times of a turn.
pub fn metrics_line(asr_ms: u128, tts_ms: u128, total_ms: u128) -> (line: String)
    ensures
        line@ == metrics_text(asr_ms as nat, tts_ms as nat, total_ms as nat),
{
    let mut out = String::new();
    push_text(&mut out, "[metrics] asr=");
    push_decimal(&mut out, asr_ms);
    push_text(&mut out, "ms tts=");
    push_decimal(&mut out, tts_ms);
    push_text(&mut out, "ms total=");
    push_decimal(&mut out, total_ms);
    push_text(&mut out, "ms");
    assert(out@ =~= metrics_text(asr_ms as nat, tts_ms as nat, total_ms as nat));
    out
}

} // verus!
