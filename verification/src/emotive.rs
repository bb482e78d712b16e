//! The emotional seed that one run leaves for the next.

use crate::micro::{clamp, clamp_int, clamp_wide, div_round, round_div, saturate, unit, ONE};
use crate::session::{escaped, unescaped, escape_json, unescape_json};
use crate::text::{
    chars_of, find, find_char, find_in, find_text, lemma_strip_start, parse_int, parse_int_text,
    parse_micro, parse_micro_text, push_int, push_places, push_text, render_int, render_places,
    string_of, strip_slice, strip_start, strips, trim_of, char_is_space, MICRO_BOUND_MAX,
};
use vstd::prelude::*;
use vstd::slice::slice_subrange;

verus! {

/// What a run remembers of its mood; fractions and pace are in millionths.
#[derive(Debug)]
pub struct EmoteSeed {
    pub ema_drift: i64,
    pub ema_res: i64,
    pub tone: String,
    pub wpm: i64,
    pub ts_unix: i64,
}

/// A seed as a mathematical value.
pub struct SeedView {
    pub ema_drift: int,
    pub ema_res: int,
    pub tone: Seq<char>,
    pub wpm: int,
    pub ts_unix: int,
}

impl View for EmoteSeed {
    type V = SeedView;

    open spec fn view(&self) -> SeedView {
        SeedView {
            ema_drift: self.ema_drift as int,
            ema_res: self.ema_res as int,
            tone: self.tone@,
            wpm: self.wpm as int,
            ts_unix: self.ts_unix as int,
        }
    }
}

impl Clone for EmoteSeed {
    fn clone(&self) -> (s: EmoteSeed)
        ensures
            s == *self,
    {
        EmoteSeed {
            ema_drift: self.ema_drift,
            ema_res: self.ema_res,
            tone: self.tone.clone(),
            wpm: self.wpm,
            ts_unix: self.ts_unix,
        }
    }
}

impl Default for EmoteSeed {
    fn default() -> (s: EmoteSeed)
        ensures
            s@ == (SeedView { ema_drift: 0, ema_res: 0, tone: Seq::empty(), wpm: 0, ts_unix: 0 }),
    {
        EmoteSeed { ema_drift: 0, ema_res: 0, tone: String::new(), wpm: 0, ts_unix: 0 }
    }
}

/// Where the seed is kept and how it fades.
#[derive(Debug)]
pub struct EmoteCfg {
    pub path: String,
    pub enable: bool,
    pub half_life_min: u32,
    pub warm_bias: i64,
}

impl Default for EmoteCfg {
    fn default() -> (c: EmoteCfg)
        ensures
            c.path@ == "emote_seed.jsonl"@,
            c.enable,
            c.half_life_min == 180,
            c.warm_bias == 20_000,
    {
        EmoteCfg {
            path: "emote_seed.jsonl".to_owned(),
            enable: true,
            half_life_min: 180,
            warm_bias: 20_000,
        }
    }
}

/// Index of the first comma or closing brace, or the length where there is neither.
pub open spec fn value_end(s: Seq<char>) -> int {
    if find(s, ',') < find(s, '}') {
        find(s, ',')
    } else {
        find(s, '}')
    }
}

/// What follows the first occurrence of `key` in a line, without the white space before it.
pub open spec fn after_key(line: Seq<char>, key: Seq<char>) -> Option<Seq<char>> {
    match find_text(line, key) {
        Some(at) => Some(strip_start(line.skip(at + key.len()), false)),
        None => None,
    }
}

/// The bare value after `key`: what stands up to the next comma or closing
/// brace, without white space around it, if that is anything.
pub open spec fn raw_field(line: Seq<char>, key: Seq<char>) -> Option<Seq<char>> {
    match after_key(line, key) {
        Some(rest) => {
            let value = trim_of(rest.take(value_end(rest)));
            if value.len() == 0 {
                None
            } else {
                Some(value)
            }
        },
        None => None,
    }
}

/// The quoted value after `key`: what stands between the double quote that
/// follows the key and the next double quote, escapes read back.
pub open spec fn string_field(line: Seq<char>, key: Seq<char>) -> Option<Seq<char>> {
    match after_key(line, key) {
        Some(rest) => if rest.len() > 0 && rest[0] == '"' && find(rest.drop_first(), '"')
            < rest.len() - 1 {
            Some(unescaped(rest.drop_first().take(find(rest.drop_first(), '"'))))
        } else {
            None
        },
        None => None,
    }
}

/// The whole number after `key`, if a number of 64 bits stands there.
pub open spec fn i64_field(line: Seq<char>, key: Seq<char>) -> Option<int> {
    match raw_field(line, key) {
        Some(raw) => parse_int(raw, true, i64::MIN as int, i64::MAX as int),
        None => None,
    }
}

/// The decimal numeral after `key` in millionths, kept within a million units.
pub open spec fn fraction_field(line: Seq<char>, key: Seq<char>) -> Option<int> {
    match raw_field(line, key) {
        Some(raw) => match parse_micro(raw) {
            Some(v) => Some(clamp_int(v, -MICRO_BOUND_MAX as int, MICRO_BOUND_MAX as int)),
            None => None,
        },
        None => None,
    }
}

/// The seed that a line denotes, if all five of its fields can be read.
pub open spec fn seed_of_line(line: Seq<char>) -> Option<SeedView> {
    match (
        fraction_field(line, "\"ema_drift\":"@),
        fraction_field(line, "\"ema_res\":"@),
        string_field(line, "\"tone\":"@),
        fraction_field(line, "\"wpm\":"@),
        i64_field(line, "\"ts\":"@),
    ) {
        (Some(d), Some(r), Some(t), Some(w), Some(ts)) => Some(
            SeedView { ema_drift: d, ema_res: r, tone: t, wpm: w, ts_unix: ts },
        ),
        _ => None,
    }
}

/// The seed of the last line of a text that denotes one, or `best` if no line does.
pub open spec fn latest_seed_in(text: Seq<char>, best: Option<SeedView>) -> Option<SeedView>
    decreases text.len(),
{
    let end = find(text, '\n');
    let next = match seed_of_line(trim_of(text.take(end))) {
        Some(s) => Some(s),
        None => best,
    };
    if 0 <= end < text.len() {
        latest_seed_in(text.skip(end + 1), next)
    } else {
        next
    }
}

/// A value moved from `value` towards `target`: all of the way for `k` of
/// zero, none of it for `k` of one.
pub open spec fn lerp_of(target: int, value: int, k: int) -> int {
    saturate(target + round_div((value - target) * unit(k), ONE as int))
}

/// A seed as a line of the seed log, with its line end.
pub open spec fn seed_line_of(s: SeedView) -> Seq<char> {
    "{\"ema_drift\":"@ + render_places(unit(s.ema_drift), 6) + ",\"ema_res\":"@ + render_places(
        unit(s.ema_res),
        6,
    ) + ",\"tone\":\""@ + escaped(s.tone) + "\",\"wpm\":"@ + render_places(s.wpm, 3) + ",\"ts\":"@
        + render_int(s.ts_unix) + "}\n"@
}

fn skip_spaces<'a>(s: &'a [char]) -> (r: &'a [char])
    ensures
        r@ == strip_start(s@, false),
{
    let mut from: usize = 0;
    while from < s.len() && char_is_space(s[from])
        invariant
            from <= s.len(),
            forall|k: int| 0 <= k < from ==> strips(s@[k], false),
        decreases s.len() - from,
    {
        from += 1;
    }
    proof {
        lemma_strip_start(s@, false, from as int);
    }
    let r = slice_subrange(s, from, s.len());
    assert(r@ =~= s@.skip(from as int));
    r
}

fn rest_after<'a>(line: &'a [char], key: &[char]) -> (r: Option<&'a [char]>)
    ensures
        match after_key(line@, key@) {
            Some(rest) => r matches Some(found) && found@ == rest,
            None => r is None,
        },
{
    match find_in(line, key) {
        Some(at) => {
            let total: usize = line.len();
            let tail = slice_subrange(line, at + key.len(), total);
            assert(tail@ =~= line@.skip(at + key@.len()));
            Some(skip_spaces(tail))
        },
        None => None,
    }
}

fn raw_after<'a>(line: &'a [char], key: &[char]) -> (r: Option<&'a [char]>)
    ensures
        match raw_field(line@, key@) {
            Some(value) => r matches Some(found) && found@ == value,
            None => r is None,
        },
{
    match rest_after(line, key) {
        Some(rest) => {
            let comma = find_char(rest, ',');
            let brace = find_char(rest, '}');
            let end = if comma < brace {
                comma
            } else {
                brace
            };
            let head = slice_subrange(rest, 0, end);
            assert(head@ =~= rest@.take(end as int));
            let value = strip_slice(head, false);
            if value.len() == 0 {
                None
            } else {
                Some(value)
            }
        },
        None => None,
    }
}

/// The bare value after `key` in a line; see `raw_field`.
pub fn parse_raw_field(line: &str, key: &str) -> (r: Option<String>)
    ensures
        match raw_field(line@, key@) {
            Some(value) => r matches Some(found) && found@ == value,
            None => r is None,
        },
{
    let l = chars_of(line);
    let k = chars_of(key);
    match raw_after(l.as_slice(), k.as_slice()) {
        Some(value) => Some(string_of(value)),
        None => None,
    }
}

/// The whole number after `key` in a line; see `i64_field`.
pub fn parse_i64_field(line: &str, key: &str) -> (r: Option<i64>)
    ensures
        match i64_field(line@, key@) {
            Some(v) => r == Some(v as i64),
            None => r is None,
        },
{
    let l = chars_of(line);
    let k = chars_of(key);
    match raw_after(l.as_slice(), k.as_slice()) {
        Some(value) => parse_int_text(value, true, i64::MIN, i64::MAX),
        None => None,
    }
}

/// The decimal numeral after `key` in a line, in millionths; see `fraction_field`.
pub fn parse_fraction_field(line: &str, key: &str) -> (r: Option<i64>)
    ensures
        match fraction_field(line@, key@) {
            Some(v) => r == Some(v as i64),
            None => r is None,
        },
{
    let l = chars_of(line);
    let k = chars_of(key);
    match raw_after(l.as_slice(), k.as_slice()) {
        Some(value) => parse_micro_text(value, -MICRO_BOUND_MAX, MICRO_BOUND_MAX),
        None => None,
    }
}

/// The quoted value after `key` in a line; see `string_field`.
pub fn parse_string_field(line: &str, key: &str) -> (r: Option<String>)
    ensures
        match string_field(line@, key@) {
            Some(value) => r matches Some(found) && found@ == value,
            None => r is None,
        },
{
    let l = chars_of(line);
    let k = chars_of(key);
    match rest_after(l.as_slice(), k.as_slice()) {
        Some(rest) => {
            if rest.len() == 0 || rest[0] != '"' {
                return None;
            }
            let inner = slice_subrange(rest, 1, rest.len());
            assert(inner@ =~= rest@.drop_first());
            let end = find_char(inner, '"');
            if end >= inner.len() {
                return None;
            }
            let body = slice_subrange(inner, 0, end);
            assert(body@ =~= inner@.take(end as int));
            let quoted = string_of(body);
            Some(unescape_json(quoted.as_str()))
        },
        None => None,
    }
}

/// The seed that a line of the seed log denotes; see `seed_of_line`.
pub fn parse_seed(line: &str) -> (r: Option<EmoteSeed>)
    ensures
        match seed_of_line(line@) {
            Some(v) => r matches Some(s) && s@ == v,
            None => r is None,
        },
{
    let ema_drift = match parse_fraction_field(line, "\"ema_drift\":") {
        Some(v) => v,
        None => {
            return None;
        },
    };
    let ema_res = match parse_fraction_field(line, "\"ema_res\":") {
        Some(v) => v,
        None => {
            return None;
        },
    };
    let tone = match parse_string_field(line, "\"tone\":") {
        Some(v) => v,
        None => {
            return None;
        },
    };
    let wpm = match parse_fraction_field(line, "\"wpm\":") {
        Some(v) => v,
        None => {
            return None;
        },
    };
    let ts = match parse_i64_field(line, "\"ts\":") {
        Some(v) => v,
        None => {
            return None;
        },
    };
    Some(EmoteSeed { ema_drift, ema_res, tone, wpm, ts_unix: ts })
}

/// The seed of the last line of a seed log that denotes one.
pub fn load_latest(contents: &str) -> (r: Option<EmoteSeed>)
    ensures
        match latest_seed_in(contents@, None) {
            Some(v) => r matches Some(s) && s@ == v,
            None => r is None,
        },
{
    let chars = chars_of(contents);
    let mut rest: &[char] = chars.as_slice();
    let mut best: Option<EmoteSeed> = None;
    let mut more: bool = true;
    let ghost mut best_view: Option<SeedView> = None;
    while more
        invariant
            match best_view {
                Some(v) => best matches Some(s) && s@ == v,
                None => best is None,
            },
            more ==> latest_seed_in(contents@, None) == latest_seed_in(rest@, best_view),
            !more ==> latest_seed_in(contents@, None) == best_view,
        decreases
            rest@.len() + if more {
                1int
            } else {
                0int
            },
    {
        let end = find_char(rest, '\n');
        let head = slice_subrange(rest, 0, end);
        assert(head@ =~= rest@.take(end as int));
        let line = string_of(strip_slice(head, false));
        match parse_seed(line.as_str()) {
            Some(seed) => {
                proof {
                    best_view = Some(seed@);
                }
                best = Some(seed);
            },
            None => {},
        }
        if end < rest.len() {
            let after = slice_subrange(rest, end + 1, rest.len());
            assert(after@ =~= rest@.skip(end + 1));
            rest = after;
        } else {
            more = false;
        }
    }
    best
}

/// Moves `value` towards `target`; see `lerp_of`.
pub fn lerp(target: i64, value: i64, k: i64) -> (r: i64)
    ensures
        r == lerp_of(target as int, value as int, k as int),
{
    let share: i64 = clamp(k, 0, ONE);
    let gap: i128 = value as i128 - target as i128;
    assert(-0x1_0000_0000_0000_0000 * 1_000_000 <= gap * share <= 0x1_0000_0000_0000_0000
        * 1_000_000) by (nonlinear_arith)
        requires
            -0x1_0000_0000_0000_0000 <= gap <= 0x1_0000_0000_0000_0000,
            0 <= share <= 1_000_000,
    ;
    let moved: i128 = div_round(gap * (share as i128), ONE as i128);
    proof {
        crate::micro::lemma_round_div_bounds(gap * share, ONE as int);
    }
    clamp_wide(target as i128 + moved, i64::MIN, i64::MAX)
}

/// A seed faded towards the neutral mood: drift towards 0.3, resonance
/// towards 0.7, pace towards 160 words per minute, by the share `k` that is
/// left of it; the tone is kept while more than 0.3 is left.
pub fn decay(seed: &EmoteSeed, k: i64) -> (r: EmoteSeed)
    ensures
        r.ema_drift == lerp_of(300_000, seed.ema_drift as int, k as int),
        r.ema_res == lerp_of(700_000, seed.ema_res as int, k as int),
        r.wpm == lerp_of(160 * ONE, seed.wpm as int, k as int),
        r.tone@ == if k > 300_000 {
            seed.tone@
        } else {
            "Neutral"@
        },
        r.ts_unix == seed.ts_unix,
{
    EmoteSeed {
        ema_drift: lerp(300_000, seed.ema_drift, k),
        ema_res: lerp(700_000, seed.ema_res, k),
        tone: if k > 300_000 {
            seed.tone.clone()
        } else {
            "Neutral".to_owned()
        },
        wpm: lerp(160_000_000, seed.wpm, k),
        ts_unix: seed.ts_unix,
    }
}

/// Raises resonance by the warm bias at the start of a run, not above one.
pub fn apply_boot_bias(ema_res: &mut i64, warm_bias: i64)
    ensures
        *final(ema_res) == if *old(ema_res) + warm_bias > ONE {
            ONE as int
        } else {
            saturate(*old(ema_res) + warm_bias)
        },
{
    let sum: i128 = *ema_res as i128 + warm_bias as i128;
    *ema_res = if sum > ONE as i128 {
        ONE
    } else {
        clamp_wide(sum, i64::MIN, i64::MAX)
    };
}

/// The line that is appended to the seed log for a seed.
pub fn seed_line(seed: &EmoteSeed) -> (line: String)
    ensures
        line@ == seed_line_of(seed@),
{
    let mut out = String::new();
    push_text(&mut out, "{\"ema_drift\":");
    push_places(&mut out, clamp(seed.ema_drift, 0, ONE), 6);
    push_text(&mut out, ",\"ema_res\":");
    push_places(&mut out, clamp(seed.ema_res, 0, ONE), 6);
    push_text(&mut out, ",\"tone\":\"");
    let tone = escape_json(seed.tone.as_str());
    push_text(&mut out, tone.as_str());
    push_text(&mut out, "\",\"wpm\":");
    push_places(&mut out, seed.wpm, 3);
    push_text(&mut out, ",\"ts\":");
    push_int(&mut out, seed.ts_unix);
    push_text(&mut out, "}\n");
    assert(out@ =~= seed_line_of(seed@));
    out
}

} // verus!
