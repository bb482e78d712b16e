use std::time::{Duration, Instant};

use liminal_voice_core::metrics;

#[test]
fn latency_total_exceeds_sleep() {
    let mut vm = metrics::start();
    let begun = Instant::now();
    while begun.elapsed() < Duration::from_millis(20) {
        std::hint::spin_loop();
    }
    metrics::finish(&mut vm);
    assert!(vm.total_ms >= 20);
}

#[test]
fn clock_of_a_turn_starts_at_zero() {
    let mut vm = metrics::start();
    assert_eq!((vm.asr_ms, vm.tts_ms, vm.total_ms), (0, 0, 0));
    vm.asr_ms = 45;
    vm.tts_ms = 32;
    metrics::finish(&mut vm);
    assert_eq!((vm.asr_ms, vm.tts_ms), (45, 32));
    vm.total_ms = 90;
    assert_eq!(metrics::report_line(&vm), "[metrics] asr=45ms tts=32ms total=90ms");
}

#[test]
fn a_turn_keeps_its_start_and_takes_the_total_it_is_given() {
    let begun = Instant::now();
    let mut vm = metrics::started_at(begun);
    assert_eq!(vm.start_ts, begun);
    assert_eq!((vm.asr_ms, vm.tts_ms, vm.total_ms), (0, 0, 0));
    vm.asr_ms = 3;
    vm.tts_ms = 4;
    metrics::set_total(&mut vm, 12);
    assert_eq!(vm.start_ts, begun);
    assert_eq!((vm.asr_ms, vm.tts_ms, vm.total_ms), (3, 4, 12));
}
