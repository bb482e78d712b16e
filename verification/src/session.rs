//! Text of the session log.

use crate::text::{chars_of, decimal_digits, push_decimal, push_places, push_text, render_places};
use crate::topic::{fixed_hex, push_hex};
use vstd::prelude::*;

verus! {

/// A character as it stands inside a quoted value: a backslash before a
/// double quote and before a backslash, and a letter after a backslash for
/// a line feed, a carriage return and a tab.
pub open spec fn escaped_char(c: char) -> Seq<char> {
    if c == '"' {
        seq!['\\', '"']
    } else if c == '\\' {
        seq!['\\', '\\']
    } else if c == '\n' {
        seq!['\\', 'n']
    } else if c == '\r' {
        seq!['\\', 'r']
    } else if c == '\t' {
        seq!['\\', 't']
    } else {
        seq![c]
    }
}

/// A text as it stands inside a quoted value.
pub open spec fn escaped(s: Seq<char>) -> Seq<char>
    decreases s.len(),
{
    if s.len() == 0 {
        Seq::empty()
    } else {
        escaped(s.drop_last()) + escaped_char(s.last())
    }
}

/// The character that stands for `c` after a backslash.
pub open spec fn unescaped_char(c: char) -> char {
    if c == 'n' {
        '\n'
    } else if c == 'r' {
        '\r'
    } else if c == 't' {
        '\t'
    } else {
        c
    }
}

/// The text that a quoted value stands for: a backslash and the character
/// after it stand for one character, and a backslash at the very end for nothing.
pub open spec fn unescaped(s: Seq<char>) -> Seq<char>
    decreases s.len(),
{
    if s.len() == 0 {
        Seq::empty()
    } else if s[0] != '\\' {
        seq![s[0]] + unescaped(s.drop_first())
    } else if s.len() == 1 {
        Seq::empty()
    } else {
        seq![unescaped_char(s[1])] + unescaped(s.skip(2))
    }
}

/// An escaped text followed by more text reads back as the text and what the rest reads as.
pub proof fn lemma_unescape_after_escape(s: Seq<char>, rest: Seq<char>)
    ensures
        unescaped(escaped(s) + rest) == s + unescaped(rest),
    decreases s.len(),
{
    if s.len() == 0 {
        assert(escaped(s) + rest =~= rest);
        assert(s + unescaped(rest) =~= unescaped(rest));
    } else {
        let c = s.last();
        let e = escaped_char(c);
        let tail = e + rest;
        assert(escaped(s) + rest =~= escaped(s.drop_last()) + tail);
        lemma_unescape_after_escape(s.drop_last(), tail);
        if e.len() == 2 {
            assert(tail[0] == '\\');
            assert(tail.skip(2) =~= rest);
            assert(unescaped(tail) == seq![unescaped_char(tail[1])] + unescaped(rest));
            assert(unescaped_char(e[1]) == c);
            assert(tail[1] == e[1]);
        } else {
            assert(tail[0] == c);
            assert(tail.drop_first() =~= rest);
        }
        assert(s.drop_last() + (seq![c] + unescaped(rest)) =~= s + unescaped(rest));
    }
}

/// Reading an escaped text back gives the text.
pub proof fn lemma_unescape_escaped(s: Seq<char>)
    ensures
        unescaped(escaped(s)) == s,
{
    lemma_unescape_after_escape(s, Seq::empty());
    assert(escaped(s) + Seq::<char>::empty() =~= escaped(s));
    assert(s + unescaped(Seq::<char>::empty()) =~= s);
}

/// Escapes a text for a quoted value.
pub fn escape_json(value: &str) -> (r: String)
    ensures
        r@ == escaped(value@),
{
    let chars = chars_of(value);
    let mut out = String::new();
    let mut i: usize = 0;
    assert(chars@.take(0) =~= Seq::<char>::empty());
    while i < chars.len()
        invariant
            i <= chars.len(),
            out@ == escaped(chars@.take(i as int)),
        decreases chars.len() - i,
    {
        let c: char = chars[i];
        let ghost before = out@;
        proof {
            assert(chars@.take(i + 1).drop_last() =~= chars@.take(i as int));
        }
        if c == '"' {
            out.push('\\');
            out.push('"');
        } else if c == '\\' {
            out.push('\\');
            out.push('\\');
        } else if c == '\n' {
            out.push('\\');
            out.push('n');
        } else if c == '\r' {
            out.push('\\');
            out.push('r');
        } else if c == '\t' {
            out.push('\\');
            out.push('t');
        } else {
            out.push(c);
        }
        assert(out@ =~= before + escaped_char(c));
        i += 1;
    }
    assert(chars@.take(i as int) =~= chars@);
    out
}

/// Reads a quoted value back into the text it stands for.
pub fn unescape_json(value: &str) -> (r: String)
    ensures
        r@ == unescaped(value@),
{
    let chars = chars_of(value);
    let mut out = String::new();
    let mut i: usize = 0;
    assert(chars@.skip(0) =~= chars@);
    while i < chars.len()
        invariant
            i <= chars.len(),
            unescaped(chars@) == out@ + unescaped(chars@.skip(i as int)),
        decreases chars.len() - i,
    {
        let ghost rest = chars@.skip(i as int);
        let ghost before = out@;
        let c: char = chars[i];
        assert(rest[0] == c);
        if c != '\\' {
            out.push(c);
            i += 1;
            proof {
                assert(rest.drop_first() =~= chars@.skip(i as int));
                assert(out@ + unescaped(chars@.skip(i as int)) =~= before + (seq![c] + unescaped(
                    rest.drop_first(),
                )));
            }
        } else if i + 1 < chars.len() {
            let n: char = chars[i + 1];
            assert(rest[1] == n);
            let u: char = if n == 'n' {
                '\n'
            } else if n == 'r' {
                '\r'
            } else if n == 't' {
                '\t'
            } else {
                n
            };
            out.push(u);
            i += 2;
            proof {
                assert(rest.skip(2) =~= chars@.skip(i as int));
                assert(out@ + unescaped(chars@.skip(i as int)) =~= before + (seq![u] + unescaped(
                    rest.skip(2),
                )));
            }
        } else {
            i += 1;
            proof {
                assert(rest.len() == 1);
                assert(chars@.skip(i as int).len() == 0);
                assert(out@ + unescaped(chars@.skip(i as int)) =~= before + Seq::<char>::empty());
            }
        }
    }
    assert(out@ + unescaped(chars@.skip(i as int)) =~= out@);
    out
}

/// What one turn leaves in the session log; fractions and pace are in millionths.
#[derive(Debug)]
pub struct Snapshot {
    pub ts: String,
    pub device: String,
    pub drift: i64,
    pub resonance: i64,
    pub wpm: i64,
    pub articulation: i64,
    pub tone: String,
    pub asr_ms: u128,
    pub tts_ms: u128,
    pub total_ms: u128,
    pub idx: usize,
    pub utterance: String,
    pub guard: Option<String>,
    pub state: Option<String>,
    pub emote_state: Option<String>,
}

/// An optional text as a value of the log: quoted and escaped, or `null`.
pub open spec fn optional_text(s: Option<String>) -> Seq<char> {
    match s {
        Some(t) => seq!['"'] + escaped(t@) + seq!['"'],
        None => "null"@,
    }
}

/// The first third of a snapshot's line: time stamp, device and the four measures.
pub open spec fn line_head(s: Snapshot) -> Seq<char> {
    "{\"ts\":\""@ + escaped(s.ts@) + "\",\"device\":\""@ + escaped(s.device@) + "\",\"drift\":"@
        + render_places(s.drift as int, 3) + ",\"resonance\":"@ + render_places(
        s.resonance as int,
        3,
    ) + ",\"wpm\":"@ + render_places(s.wpm as int, 3) + ",\"articulation\":"@ + render_places(
        s.articulation as int,
        3,
    )
}

/// The middle of a snapshot's line: tone, the three times, index and utterance.
pub open spec fn line_middle(s: Snapshot) -> Seq<char> {
    ",\"tone\":\""@ + escaped(s.tone@) + "\",\"asr_ms\":"@ + decimal_digits(s.asr_ms as nat)
        + ",\"tts_ms\":"@ + decimal_digits(s.tts_ms as nat) + ",\"total_ms\":"@ + decimal_digits(
        s.total_ms as nat,
    ) + ",\"idx\":"@ + decimal_digits(s.idx as nat) + ",\"utt\":\""@ + escaped(s.utterance@)
        + "\""@
}

/// The end of a snapshot's line: guard, state and emotive state.
pub open spec fn line_tail(s: Snapshot) -> Seq<char> {
    ",\"guard\":"@ + optional_text(s.guard) + ",\"state\":"@ + optional_text(s.state)
        + ",\"emote_state\":"@ + optional_text(s.emote_state) + "}"@
}

/// A snapshot as one line of the session log, without a line end.
pub open spec fn snapshot_line_of(s: Snapshot) -> Seq<char> {
    line_head(s) + line_middle(s) + line_tail(s)
}

fn push_escaped(out: &mut String, s: &str)
    ensures
        final(out)@ == old(out)@ + escaped(s@),
{
    let e = escape_json(s);
    push_text(out, e.as_str());
}

fn push_optional(out: &mut String, s: &Option<String>)
    ensures
        final(out)@ == old(out)@ + optional_text(*s),
{
    match s {
        Some(t) => {
            out.push('"');
            push_escaped(out, t.as_str());
            out.push('"');
            assert(final(out)@ =~= old(out)@ + optional_text(*s));
        },
        None => {
            push_text(out, "null");
        },
    }
}

fn push_head(out: &mut String, snap: &Snapshot)
    ensures
        final(out)@ == old(out)@ + line_head(*snap),
{
    push_text(out, "{\"ts\":\"");
    push_escaped(out, snap.ts.as_str());
    push_text(out, "\",\"device\":\"");
    push_escaped(out, snap.device.as_str());
    push_text(out, "\",\"drift\":");
    push_places(out, snap.drift, 3);
    push_text(out, ",\"resonance\":");
    push_places(out, snap.resonance, 3);
    push_text(out, ",\"wpm\":");
    push_places(out, snap.wpm, 3);
    push_text(out, ",\"articulation\":");
    push_places(out, snap.articulation, 3);
    assert(final(out)@ =~= old(out)@ + line_head(*snap));
}

fn push_middle(out: &mut String, snap: &Snapshot)
    ensures
        final(out)@ == old(out)@ + line_middle(*snap),
{
    push_text(out, ",\"tone\":\"");
    push_escaped(out, snap.tone.as_str());
    push_text(out, "\",\"asr_ms\":");
    push_decimal(out, snap.asr_ms);
    push_text(out, ",\"tts_ms\":");
    push_decimal(out, snap.tts_ms);
    push_text(out, ",\"total_ms\":");
    push_decimal(out, snap.total_ms);
    push_text(out, ",\"idx\":");
    push_decimal(out, snap.idx as u128);
    push_text(out, ",\"utt\":\"");
    push_escaped(out, snap.utterance.as_str());
    push_text(out, "\"");
    assert(final(out)@ =~= old(out)@ + line_middle(*snap));
}

fn push_tail(out: &mut String, snap: &Snapshot)
    ensures
        final(out)@ == old(out)@ + line_tail(*snap),
{
    push_text(out, ",\"guard\":");
    push_optional(out, &snap.guard);
    push_text(out, ",\"state\":");
    push_optional(out, &snap.state);
    push_text(out, ",\"emote_state\":");
    push_optional(out, &snap.emote_state);
    push_text(out, "}");
    assert(final(out)@ =~= old(out)@ + line_tail(*snap));
}

/// The line of the session log for a snapshot.
pub fn snapshot_line(snap: &Snapshot) -> (line: String)
    ensures
        line@ == snapshot_line_of(*snap),
{
    let mut out = String::new();
    push_head(&mut out, snap);
    push_middle(&mut out, snap);
    push_tail(&mut out, snap);
    assert(out@ =~= snapshot_line_of(*snap));
    out
}

/// The name of a session: the last eight hexadecimal digits of the time
/// of its start in nanoseconds.
pub fn session_id(nanos: u128) -> (id: String)
    ensures
        id@ == fixed_hex(nanos as nat, 8),
{
    let mut out = String::new();
    push_hex(&mut out, nanos, 8);
    assert(out@ =~= fixed_hex(nanos as nat, 8));
    out
}

/// The file name of a session's log.
pub fn session_file_name(id: &str) -> (name: String)
    ensures
        name@ == "session-"@ + id@ + ".jsonl"@,
{
    let mut out = String::new();
    push_text(&mut out, "session-");
    push_text(&mut out, id);
    push_text(&mut out, ".jsonl");
    assert(out@ =~= "session-"@ + id@ + ".jsonl"@);
    out
}
} // verus!
