//! Bars and table rows for the display of a turn.

use crate::awareness::MetaCognition;
use crate::micro::{clamp, div_round, round_div, unit, ONE};
use crate::stabilizer::{state_name, EmoState};
use crate::text::{
    chars_of, decimal_digits, push_chars, push_decimal, push_places, push_text, render_places,
    texts,
};
use vstd::prelude::*;

verus! {

/// Width of the label column.
pub const LABEL_WIDTH: usize = 22;

/// Width of the value column.
pub const VALUE_WIDTH: usize = 25;

/// Width of a bar in the value column.
pub const BAR_WIDTH: usize = 19;

/// How many places of a bar of the given width are filled: the value's
/// share of the width, rounded, the value taken to the unit range.
pub open spec fn filled_of(value: int, width: int) -> int {
    if width <= 0 || unit(value) <= 0 {
        0
    } else if round_div(unit(value) * width, ONE as int) > width {
        width
    } else {
        round_div(unit(value) * width, ONE as int)
    }
}

/// A text of `n` copies of one character.
pub open spec fn repeated(c: char, n: int) -> Seq<char> {
    Seq::new(
        if n < 0 {
            0
        } else {
            n as nat
        },
        |k: int| c,
    )
}

/// A text with blanks after it up to the given width; a longer text stays as it is.
pub open spec fn padded(s: Seq<char>, width: int) -> Seq<char> {
    s + repeated(' ', width - s.len())
}

/// A row of the table: label and value, each padded to its column.
pub open spec fn row_of(label: Seq<char>, value: Seq<char>) -> Seq<char> {
    "| "@ + padded(label, LABEL_WIDTH as int) + " | "@ + padded(value, VALUE_WIDTH as int) + " |"@
}

/// The value column for a fraction: the number with two decimals, and a bar
/// after it unless the bar is empty.
pub open spec fn bar_entry_of(value: int) -> Seq<char> {
    if filled_of(value, BAR_WIDTH as int) == 0 {
        render_places(value, 2)
    } else {
        render_places(value, 2) + "  "@ + padded(
            repeated('#', filled_of(value, BAR_WIDTH as int)),
            BAR_WIDTH as int,
        )
    }
}

fn push_repeated(out: &mut String, c: char, n: usize)
    ensures
        final(out)@ == old(out)@ + repeated(c, n as int),
{
    let mut i: usize = 0;
    assert(old(out)@ + repeated(c, 0) =~= old(out)@);
    while i < n
        invariant
            i <= n,
            out@ == old(out)@ + repeated(c, i as int),
        decreases n - i,
    {
        out.push(c);
        i += 1;
        assert(out@ =~= old(out)@ + repeated(c, i as int));
    }
}

fn push_padded(out: &mut String, s: &[char], width: usize)
    ensures
        final(out)@ == old(out)@ + padded(s@, width as int),
{
    push_chars(out, s);
    let fill: usize = if s.len() < width {
        width - s.len()
    } else {
        0
    };
    push_repeated(out, ' ', fill);
    assert(final(out)@ =~= old(out)@ + padded(s@, width as int));
}

fn filled(value: i64, width: usize) -> (n: usize)
    ensures
        n == filled_of(value as int, width as int),
        n <= width,
{
    if width == 0 {
        return 0;
    }
    let clamped: i64 = clamp(value, 0, ONE);
    if clamped <= 0 {
        return 0;
    }
    assert(0 <= clamped * width <= 1_000_000 * 0x1_0000_0000_0000_0000) by (nonlinear_arith)
        requires
            0 <= clamped <= 1_000_000,
            0 <= width <= 0x1_0000_0000_0000_0000,
    ;
    let share: i128 = div_round(clamped as i128 * width as i128, ONE as i128);
    proof {
        crate::micro::lemma_round_div_bounds(clamped * width, ONE as int);
    }
    if share > width as i128 {
        width
    } else {
        share as usize
    }
}

/// A bar of number signs for a fraction of the unit range.
pub fn bar(value_0_1: i64, width: usize) -> (s: String)
    ensures
        s@ == repeated('#', filled_of(value_0_1 as int, width as int)),
        s@.len() <= width,
{
    let mut out = String::new();
    let n = filled(value_0_1, width);
    push_repeated(&mut out, '#', n);
    assert(out@ =~= repeated('#', n as int));
    out
}

/// The value column for a fraction.
pub fn format_bar_entry(value: i64) -> (s: String)
    ensures
        s@ == bar_entry_of(value as int),
{
    let n = filled(value, BAR_WIDTH);
    let mut out = String::new();
    push_places(&mut out, value, 2);
    if n > 0 {
        push_text(&mut out, "  ");
        let mut hashes = String::new();
        push_repeated(&mut hashes, '#', n);
        assert(hashes@ =~= repeated('#', n as int));
        let v = chars_of(hashes.as_str());
        push_padded(&mut out, v.as_slice(), BAR_WIDTH);
    }
    assert(out@ =~= bar_entry_of(value as int));
    out
}

/// A row of the table.
pub fn format_row(label: &str, value: &str) -> (s: String)
    ensures
        s@ == row_of(label@, value@),
{
    let l = chars_of(label);
    let v = chars_of(value);
    let mut out = String::new();
    push_text(&mut out, "| ");
    push_padded(&mut out, l.as_slice(), LABEL_WIDTH);
    push_text(&mut out, " | ");
    push_padded(&mut out, v.as_slice(), VALUE_WIDTH);
    push_text(&mut out, " |");
    assert(out@ =~= row_of(label@, value@));
    out
}

/// The line above, below and under the head of the table.
pub open spec fn border_of() -> Seq<char> {
    seq!['+'] + repeated('-', LABEL_WIDTH as int + 2) + seq!['+'] + repeated(
        '-',
        VALUE_WIDTH as int + 2,
    ) + seq!['+']
}

/// The three times of a turn as text.
pub open spec fn latency_of(asr_ms: nat, tts_ms: nat, total_ms: nat) -> Seq<char> {
    decimal_digits(asr_ms) + "ms / "@ + decimal_digits(tts_ms) + "ms / "@ + decimal_digits(total_ms)
        + "ms"@
}

/// What the table shows of self-observation: drift and resonance.
pub open spec fn meta_self_of(m: MetaCognition) -> Seq<char> {
    "self_d="@ + render_places(m.self_drift as int, 2) + " self_r="@ + render_places(
        m.self_resonance as int,
        2,
    )
}

/// What the table shows of self-observation: confidence, clarity and doubt.
pub open spec fn meta_sure_of(m: MetaCognition) -> Seq<char> {
    "conf="@ + render_places(m.confidence as int, 2) + " clarity="@ + render_places(
        m.clarity as int,
        2,
    ) + " doubt="@ + render_places(m.doubt as int, 2)
}

/// The rows that every table has, up to the latencies.
pub open spec fn table_head(
    drift: int,
    res: int,
    wpm: int,
    articulation: int,
    tone: Seq<char>,
    asr_ms: nat,
    tts_ms: nat,
    total_ms: nat,
) -> Seq<Seq<char>> {
    seq![
        border_of(),
        row_of("Metric"@, "Value"@),
        border_of(),
        row_of("Semantic Drift"@, bar_entry_of(drift)),
        row_of("Resonance"@, bar_entry_of(res)),
        row_of("WPM"@, render_places(wpm, 1)),
        row_of("Articulation"@, bar_entry_of(articulation)),
        row_of("Tone"@, tone),
        row_of("Latency (ASR/TTS/T)"@, latency_of(asr_ms, tts_ms, total_ms)),
    ]
}

/// A row that stands only where its value is given.
pub open spec fn optional_row(label: Seq<char>, value: Option<Seq<char>>) -> Seq<Seq<char>> {
    match value {
        Some(v) => seq![row_of(label, v)],
        None => Seq::empty(),
    }
}

/// The rows of self-observation, where it is given: two rows, and a third
/// where the system should say that it is unsure.
pub open spec fn meta_rows(meta: Option<MetaCognition>) -> Seq<Seq<char>> {
    match meta {
        Some(m) => seq![
            row_of("Meta-Cognition"@, meta_self_of(m)),
            row_of("  Confidence/Clarity"@, meta_sure_of(m)),
        ] + (if m.doubt > 600_000 && m.confidence < 400_000 {
            seq![row_of("  Status"@, "\u{26a0}\u{fe0f}  UNCERTAIN STATE"@)]
        } else {
            Seq::empty()
        }),
        None => Seq::empty(),
    }
}

/// The text of an optional string slice.
pub open spec fn slice_view(s: Option<&str>) -> Option<Seq<char>> {
    match s {
        Some(t) => Some(t@),
        None => None,
    }
}

/// The value of an optional reference.
pub open spec fn meta_view(m: Option<&MetaCognition>) -> Option<MetaCognition> {
    match m {
        Some(r) => Some(*r),
        None => None,
    }
}

fn push_row(lines: &mut Vec<String>, label: &str, value: &str)
    ensures
        texts(final(lines)@) == texts(old(lines)@).push(row_of(label@, value@)),
{
    lines.push(format_row(label, value));
    assert(texts(lines@) =~= texts(old(lines)@).push(row_of(label@, value@)));
}

fn push_line(lines: &mut Vec<String>, line: String)
    ensures
        texts(final(lines)@) == texts(old(lines)@).push(line@),
{
    lines.push(line);
    assert(texts(lines@) =~= texts(old(lines)@).push(line@));
}

fn border() -> (s: String)
    ensures
        s@ == border_of(),
{
    let mut out = String::new();
    out.push('+');
    push_repeated(&mut out, '-', LABEL_WIDTH + 2);
    out.push('+');
    push_repeated(&mut out, '-', VALUE_WIDTH + 2);
    out.push('+');
    assert(out@ =~= border_of());
    out
}

fn latency(asr_ms: u128, tts_ms: u128, total_ms: u128) -> (s: String)
    ensures
        s@ == latency_of(asr_ms as nat, tts_ms as nat, total_ms as nat),
{
    let mut out = String::new();
    push_decimal(&mut out, asr_ms);
    push_text(&mut out, "ms / ");
    push_decimal(&mut out, tts_ms);
    push_text(&mut out, "ms / ");
    push_decimal(&mut out, total_ms);
    push_text(&mut out, "ms");
    assert(out@ =~= latency_of(asr_ms as nat, tts_ms as nat, total_ms as nat));
    out
}

fn head_lines(
    drift: i64,
    res: i64,
    wpm: i64,
    articulation: i64,
    tone: &str,
    asr_ms: u128,
    tts_ms: u128,
    total_ms: u128,
) -> (lines: Vec<String>)
    ensures
        texts(lines@) == table_head(
            drift as int,
            res as int,
            wpm as int,
            articulation as int,
            tone@,
            asr_ms as nat,
            tts_ms as nat,
            total_ms as nat,
        ),
{
    let mut lines: Vec<String> = Vec::new();
    assert(texts(lines@) =~= Seq::<Seq<char>>::empty());
    push_line(&mut lines, border());
    push_row(&mut lines, "Metric", "Value");
    push_line(&mut lines, border());
    let d = format_bar_entry(drift);
    push_row(&mut lines, "Semantic Drift", d.as_str());
    let r = format_bar_entry(res);
    push_row(&mut lines, "Resonance", r.as_str());
    let mut w = String::new();
    push_places(&mut w, wpm, 1);
    assert(w@ =~= render_places(wpm as int, 1));
    push_row(&mut lines, "WPM", w.as_str());
    let a = format_bar_entry(articulation);
    push_row(&mut lines, "Articulation", a.as_str());
    push_row(&mut lines, "Tone", tone);
    let l = latency(asr_ms, tts_ms, total_ms);
    push_row(&mut lines, "Latency (ASR/TTS/T)", l.as_str());
    assert(texts(lines@) =~= table_head(
        drift as int,
        res as int,
        wpm as int,
        articulation as int,
        tone@,
        asr_ms as nat,
        tts_ms as nat,
        total_ms as nat,
    ));
    lines
}

fn push_optional_row(lines: &mut Vec<String>, label: &str, value: Option<&str>)
    ensures
        texts(final(lines)@) == texts(old(lines)@) + optional_row(label@, slice_view(value)),
{
    match value {
        Some(v) => {
            push_row(lines, label, v);
            assert(texts(lines@) =~= texts(old(lines)@) + optional_row(label@, slice_view(value)));
        },
        None => {
            assert(texts(lines@) =~= texts(old(lines)@) + optional_row(label@, slice_view(value)));
        },
    }
}

fn push_meta_rows(lines: &mut Vec<String>, meta: Option<&MetaCognition>)
    ensures
        texts(final(lines)@) == texts(old(lines)@) + meta_rows(meta_view(meta)),
{
    match meta {
        Some(m) => {
            let mut own = String::new();
            push_text(&mut own, "self_d=");
            push_places(&mut own, m.self_drift, 2);
            push_text(&mut own, " self_r=");
            push_places(&mut own, m.self_resonance, 2);
            assert(own@ =~= meta_self_of(*m));
            push_row(lines, "Meta-Cognition", own.as_str());
            let mut sure = String::new();
            push_text(&mut sure, "conf=");
            push_places(&mut sure, m.confidence, 2);
            push_text(&mut sure, " clarity=");
            push_places(&mut sure, m.clarity, 2);
            push_text(&mut sure, " doubt=");
            push_places(&mut sure, m.doubt, 2);
            assert(sure@ =~= meta_sure_of(*m));
            push_row(lines, "  Confidence/Clarity", sure.as_str());
            if m.should_express_doubt() {
                push_row(lines, "  Status", "\u{26a0}\u{fe0f}  UNCERTAIN STATE");
            }
            assert(texts(lines@) =~= texts(old(lines)@) + meta_rows(meta_view(meta)));
        },
        None => {
            assert(texts(lines@) =~= texts(old(lines)@) + meta_rows(meta_view(meta)));
        },
    }
}

/// The lines of the table of a turn: the rows that every table has, the
/// rows for the stabilizer's state, the emotive seed and self-observation
/// where those are given, and the closing border.
pub fn table_lines(
    drift: i64,
    res: i64,
    wpm: i64,
    articulation: i64,
    tone: &str,
    asr_ms: u128,
    tts_ms: u128,
    total_ms: u128,
    stab_state: Option<&str>,
    emote_seed: Option<&str>,
    meta_cognition: Option<&MetaCognition>,
) -> (lines: Vec<String>)
    ensures
        texts(lines@) == table_head(
            drift as int,
            res as int,
            wpm as int,
            articulation as int,
            tone@,
            asr_ms as nat,
            tts_ms as nat,
            total_ms as nat,
        ) + optional_row("Stabilizer State"@, slice_view(stab_state)) + optional_row(
            "Emotive Seed"@,
            slice_view(emote_seed),
        ) + meta_rows(meta_view(meta_cognition)) + seq![border_of()],
{
    let mut lines = head_lines(drift, res, wpm, articulation, tone, asr_ms, tts_ms, total_ms);
    push_optional_row(&mut lines, "Stabilizer State", stab_state);
    push_optional_row(&mut lines, "Emotive Seed", emote_seed);
    push_meta_rows(&mut lines, meta_cognition);
    let ghost before = texts(lines@);
    push_line(&mut lines, border());
    assert(texts(lines@) =~= before + seq![border_of()]);
    lines
}

/// The short status of the stabilizer: its state and both moving averages,
/// taken to the unit range and shown with two decimals.
pub open spec fn compact_of(state: EmoState, ema_drift: int, ema_res: int) -> Seq<char> {
    "[stab] "@ + state_name(state) + " d="@ + render_places(unit(ema_drift), 2) + " r="@
        + render_places(unit(ema_res), 2)
}

/// The short status line of the stabilizer.
pub fn compact_stabilizer_line(state: EmoState, ema_drift: i64, ema_res: i64) -> (line: String)
    ensures
        line@ == compact_of(state, ema_drift as int, ema_res as int),
{
    let mut out = String::new();
    push_text(&mut out, "[stab] ");
    match state {
        EmoState::Normal => push_text(&mut out, "Normal"),
        EmoState::Warming => push_text(&mut out, "Warming"),
        EmoState::Overheat => push_text(&mut out, "Overheat"),
        EmoState::Cooldown => push_text(&mut out, "Cooldown"),
    }
    push_text(&mut out, " d=");
    push_places(&mut out, clamp(ema_drift, 0, ONE), 2);
    push_text(&mut out, " r=");
    push_places(&mut out, clamp(ema_res, 0, ONE), 2);
    assert(out@ =~= compact_of(state, ema_drift as int, ema_res as int));
    out
}

} // verus!
