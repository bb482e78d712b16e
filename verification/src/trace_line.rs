//! The line format of the trace log: one object per line, a comma between
//! fields, a colon between a field's name and its value. The key is a
//! quoted string with its quotes, backslashes, line ends and tabs escaped,
//! so that it may hold any character; commas and colons inside a quoted
//! string separate nothing.

use crate::astro::{AstroTrace, TraceView, SYNC_BIAS_BOUND};
use crate::micro::{clamp_int, unit, ONE};
use crate::quoted::{
    find_outside, find_outside_char, lemma_escaped_sealed, lemma_find_outside_bounds,
    lemma_passes_concat, lemma_passes_prefix, lemma_plain_passes, lemma_plain_sealed,
    lemma_quoted_passes, lemma_string_value_of_escaped, passes, passes_char, read_string,
    string_value,
};
use crate::session::{escape_json, escaped};
use crate::text::{
    chars_of, is_digit, is_space, lemma_int_round_trip, lemma_micro_round_trip,
    lemma_strip_end, lemma_strip_start, parse_int, parse_int_text, parse_micro,
    parse_micro_text, push_int, push_micro, push_text, render_int, render_micro, same_text,
    strip, strip_slice, strips, trim_of, unquote,
};
use vstd::prelude::*;
use vstd::slice::slice_subrange;

verus! {

/// A field as it stands in a line: the name in double quotes, a colon, the value.
pub open spec fn field_text(name: Seq<char>, value: Seq<char>) -> Seq<char> {
    seq!['"'] + name + seq!['"', ':'] + value
}

/// A text in double quotes.
pub open spec fn quoted(s: Seq<char>) -> Seq<char> {
    seq!['"'] + s + seq!['"']
}

/// A flag as text.
pub open spec fn flag_text(b: bool) -> Seq<char> {
    if b {
        "true"@
    } else {
        "false"@
    }
}

/// A field followed by a comma and the fields after it.
pub open spec fn and_next(field: Seq<char>, rest: Seq<char>) -> Seq<char> {
    field + seq![','] + rest
}

/// The fields of a trace as names and values, in the order of the log.
pub open spec fn fields_of(t: TraceView) -> Seq<(Seq<char>, Seq<char>)> {
    seq![
        ("key"@, quoted(escaped(t.key))),
        ("ema_drift"@, render_micro(t.ema_drift)),
        ("ema_res"@, render_micro(t.ema_res)),
        ("stability"@, render_micro(t.stability)),
        ("visits"@, render_int(t.visits)),
        ("last_ts"@, render_int(t.last_ts)),
        ("emo_tag"@, flag_text(t.emo_tag)),
        ("sync_bias_drift"@, render_micro(t.sync_bias_drift)),
        ("sync_bias_res"@, render_micro(t.sync_bias_res)),
        ("sync_stability"@, render_micro(t.sync_stability)),
        ("sync_visits"@, render_int(t.sync_visits)),
    ]
}

/// Fields as text, a comma between one and the next.
pub open spec fn join_fields(fields: Seq<(Seq<char>, Seq<char>)>) -> Seq<char>
    decreases fields.len(),
{
    if fields.len() == 0 {
        Seq::empty()
    } else if fields.len() == 1 {
        field_text(fields[0].0, fields[0].1)
    } else {
        and_next(field_text(fields[0].0, fields[0].1), join_fields(fields.drop_first()))
    }
}

/// A trace as one line of the log, without a line end.
pub open spec fn render_line(t: TraceView) -> Seq<char> {
    seq!['{'] + join_fields(fields_of(t)) + seq!['}']
}

/// Joined fields from the `k`th on, between two texts, with the `k`th field written out.
pub proof fn lemma_join_step(
    fields: Seq<(Seq<char>, Seq<char>)>,
    k: int,
    pre: Seq<char>,
    post: Seq<char>,
)
    requires
        0 <= k < fields.len(),
    ensures
        k < fields.len() - 1 ==> pre + join_fields(fields.skip(k)) + post == (pre + field_text(
            fields[k].0,
            fields[k].1,
        ) + seq![',']) + join_fields(fields.skip(k + 1)) + post,
        k == fields.len() - 1 ==> pre + join_fields(fields.skip(k)) + post == pre + field_text(
            fields[k].0,
            fields[k].1,
        ) + post,
{
    let here = fields.skip(k);
    assert(here[0] == fields[k]);
    if k < fields.len() - 1 {
        assert(here.drop_first() =~= fields.skip(k + 1));
        let f = field_text(fields[k].0, fields[k].1);
        let r = join_fields(fields.skip(k + 1));
        assert(pre + and_next(f, r) + post =~= (pre + f + seq![',']) + r + post);
    }
}

/// The trace that parsing starts from: no key, everything zero.
pub open spec fn blank() -> TraceView {
    TraceView::fresh(Seq::empty(), 0)
}

/// A fraction field's value moved into the unit range, if it is a numeral.
pub open spec fn unit_field(value: Seq<char>) -> Option<int> {
    match parse_micro(value) {
        Some(v) => Some(unit(v)),
        None => None,
    }
}

/// A bias field's value moved into the bias range, if it is a numeral.
pub open spec fn bias_field(value: Seq<char>) -> Option<int> {
    match parse_micro(value) {
        Some(v) => Some(clamp_int(v, -SYNC_BIAS_BOUND as int, SYNC_BIAS_BOUND as int)),
        None => None,
    }
}

/// A counter field's value, if it is a whole number that a counter holds.
pub open spec fn count_field(value: Seq<char>) -> Option<int> {
    parse_int(value, false, 0, u32::MAX as int)
}

/// The trace with one named field set from its text, or nothing where the
/// text of the key is no quoted string or the text of a number field is no
/// number. A name that the format does not know leaves the trace as it is.
pub open spec fn apply_field(acc: TraceView, name: Seq<char>, value: Seq<char>) -> Option<
    TraceView,
> {
    if name == "key"@ {
        match string_value(value) {
            Some(key) => Some(TraceView { key: key, ..acc }),
            None => None,
        }
    } else if name == "ema_drift"@ {
        match unit_field(value) {
            Some(v) => Some(TraceView { ema_drift: v, ..acc }),
            None => None,
        }
    } else if name == "ema_res"@ {
        match unit_field(value) {
            Some(v) => Some(TraceView { ema_res: v, ..acc }),
            None => None,
        }
    } else if name == "stability"@ {
        match unit_field(value) {
            Some(v) => Some(TraceView { stability: v, ..acc }),
            None => None,
        }
    } else if name == "visits"@ {
        match count_field(value) {
            Some(v) => Some(TraceView { visits: v, ..acc }),
            None => None,
        }
    } else if name == "last_ts"@ {
        match parse_int(value, true, i64::MIN as int, i64::MAX as int) {
            Some(v) => Some(TraceView { last_ts: v, ..acc }),
            None => None,
        }
    } else if name == "emo_tag"@ {
        Some(TraceView { emo_tag: value == "true"@ || value == "1"@, ..acc })
    } else if name == "sync_bias_drift"@ {
        match bias_field(value) {
            Some(v) => Some(TraceView { sync_bias_drift: v, ..acc }),
            None => None,
        }
    } else if name == "sync_bias_res"@ {
        match bias_field(value) {
            Some(v) => Some(TraceView { sync_bias_res: v, ..acc }),
            None => None,
        }
    } else if name == "sync_stability"@ {
        match unit_field(value) {
            Some(v) => Some(TraceView { sync_stability: v, ..acc }),
            None => None,
        }
    } else if name == "sync_visits"@ {
        match count_field(value) {
            Some(v) => Some(TraceView { sync_visits: v, ..acc }),
            None => None,
        }
    } else {
        Some(acc)
    }
}

/// The name of a part: what stands before its first colon outside a
/// string, without white space and then without double quotes at its ends.
pub open spec fn part_name(part: Seq<char>) -> Seq<char> {
    unquote(trim_of(part.take(find_outside(part, ':'))))
}

/// The value of a part: what stands after its first colon outside a
/// string, without white space at its ends.
pub open spec fn part_value(part: Seq<char>) -> Seq<char> {
    trim_of(part.skip(find_outside(part, ':') + 1))
}

/// The trace after one part, or nothing where a string of the part does
/// not close, the part has no colon outside a string, or its field cannot
/// be read.
pub open spec fn parse_part(acc: TraceView, part: Seq<char>) -> Option<TraceView> {
    if !passes(part, ',') || find_outside(part, ':') >= part.len() {
        None
    } else {
        apply_field(acc, part_name(part), part_value(part))
    }
}

/// The trace after all the parts of `inner`, which commas outside strings
/// separate, taken left to right, so that a later field of the same name
/// overrides an earlier one.
pub open spec fn parse_parts(acc: TraceView, inner: Seq<char>) -> Option<TraceView>
    decreases inner.len(),
{
    let comma = find_outside(inner, ',');
    match parse_part(acc, inner.take(comma)) {
        None => None,
        Some(next) => if 0 <= comma < inner.len() {
            parse_parts(next, inner.skip(comma + 1))
        } else {
            Some(next)
        },
    }
}

/// The trace that a line of the log denotes, or nothing where the line is
/// not an object in braces, a part cannot be read, or no key results.
pub open spec fn parse_line(line: Seq<char>) -> Option<TraceView> {
    let t = trim_of(line);
    if t.len() < 2 || t[0] != '{' || t.last() != '}' {
        None
    } else {
        match parse_parts(blank(), t.subrange(1, t.len() - 1)) {
            Some(v) => if v.key.len() == 0 {
                None
            } else {
                Some(v)
            },
            None => None,
        }
    }
}

/// A character that field names are made of: a small letter or an underscore.
pub open spec fn name_char(c: char) -> bool {
    0x61 <= c as u32 <= 0x7A || c == '_'
}

/// A field name: not empty, made of name characters.
pub open spec fn clean_name(name: Seq<char>) -> bool {
    name.len() > 0 && forall|k: int| 0 <= k < name.len() ==> name_char(#[trigger] name[k])
}

/// A value that stands in a line unchanged: not empty, no white space at
/// its ends, no comma outside a string, and every string in it closed.
pub open spec fn clean_value(value: Seq<char>) -> bool {
    &&& value.len() > 0
    &&& !is_space(value[0])
    &&& !is_space(value.last())
    &&& passes(value, ',')
}

/// Every field has a clean name and a clean value.
pub open spec fn clean_fields(fields: Seq<(Seq<char>, Seq<char>)>) -> bool {
    forall|k: int|
        0 <= k < fields.len() ==> clean_name((#[trigger] fields[k]).0) && clean_value(fields[k].1)
}

/// The trace after a list of fields has been applied, first to last.
pub open spec fn apply_all(acc: TraceView, fields: Seq<(Seq<char>, Seq<char>)>) -> Option<
    TraceView,
>
    decreases fields.len(),
{
    if fields.len() == 0 {
        Some(acc)
    } else {
        match apply_field(acc, fields[0].0, fields[0].1) {
            None => None,
            Some(next) => apply_all(next, fields.drop_first()),
        }
    }
}

/// Nothing is stripped from a text whose ends are not of the stripped kind.
pub proof fn lemma_strip_same(s: Seq<char>, quotes: bool)
    requires
        s.len() > 0,
        !strips(s[0], quotes),
        !strips(s.last(), quotes),
    ensures
        strip(s, quotes) == s,
{
    lemma_strip_start(s, quotes, 0);
    assert(s.skip(0) =~= s);
    lemma_strip_end(s, quotes, s.len() as int);
    assert(s.take(s.len() as int) =~= s);
}

/// Taking the quotes off a quoted text gives the text, where its own ends are no quotes.
pub proof fn lemma_unquote_quoted(s: Seq<char>)
    requires
        s.len() > 0,
        s[0] != '"',
        s.last() != '"',
    ensures
        unquote(quoted(s)) == s,
        trim_of(quoted(s)) == quoted(s),
{
    let q = quoted(s);
    assert(q.len() == s.len() + 2);
    assert(q[0] == '"');
    assert(q[1] == s[0]);
    assert(q.last() == '"');
    lemma_strip_start(q, true, 1);
    let mid = q.skip(1);
    assert(mid =~= s + seq!['"']);
    assert(mid[s.len() - 1] == s.last());
    lemma_strip_end(mid, true, s.len() as int);
    assert(mid.take(s.len() as int) =~= s);
    lemma_strip_same(q, false);
}

/// A quoted field name passes every search for a comma or a colon.
pub proof fn lemma_name_passes(name: Seq<char>, sep: char)
    requires
        clean_name(name),
        sep == ',' || sep == ':',
    ensures
        passes(quoted(name), sep),
{
    assert forall|k: int| 0 <= k < name.len() implies #[trigger] name[k] != '"' && name[k]
        != '\\' by {
        assert(name_char(name[k]));
    }
    lemma_plain_sealed(name);
    lemma_quoted_passes(name, sep);
}

/// A field written with a clean name and a clean value is read as that
/// name and that value, and holds no comma outside a string.
pub proof fn lemma_read_field(acc: TraceView, name: Seq<char>, value: Seq<char>)
    requires
        clean_name(name),
        clean_value(value),
    ensures
        parse_part(acc, field_text(name, value)) == apply_field(acc, name, value),
        passes(field_text(name, value), ','),
{
    let f = field_text(name, value);
    let q = quoted(name);
    let colon = seq![':'];
    let at: int = name.len() as int + 2;
    assert(f =~= q + (colon + value));
    assert(q.len() == at);
    lemma_name_passes(name, ':');
    lemma_passes_prefix(q, colon + value, ':');
    assert((colon + value)[0] == ':');
    assert(find_outside(colon + value, ':') == 0);
    assert(find_outside(f, ':') == at);
    assert(f.take(at) =~= q);
    assert(f.skip(at + 1) =~= value);
    assert(name_char(name[0]));
    assert(name_char(name[name.len() - 1]));
    lemma_unquote_quoted(name);
    lemma_strip_same(value, false);
    lemma_name_passes(name, ',');
    assert forall|k: int| 0 <= k < colon.len() implies #[trigger] colon[k] != '"' && colon[k]
        != ',' by {}
    lemma_plain_passes(colon, ',');
    lemma_passes_concat(colon, value, ',');
    lemma_passes_concat(q, colon + value, ',');
}

/// Parts are read one after the other: a part that holds no comma outside
/// a string, then the rest.
pub proof fn lemma_read_parts(acc: TraceView, part: Seq<char>, rest: Seq<char>)
    requires
        passes(part, ','),
    ensures
        parse_parts(acc, and_next(part, rest)) == (match parse_part(acc, part) {
            None => None,
            Some(next) => parse_parts(next, rest),
        }),
        parse_parts(acc, part) == parse_part(acc, part),
{
    let all = and_next(part, rest);
    let tail = seq![','] + rest;
    assert(all =~= part + tail);
    lemma_passes_prefix(part, tail, ',');
    assert(tail[0] == ',');
    assert(find_outside(tail, ',') == 0);
    assert(all.take(part.len() as int) =~= part);
    assert(all.skip(part.len() as int + 1) =~= rest);
    lemma_passes_prefix(part, Seq::empty(), ',');
    assert(part + Seq::<char>::empty() =~= part);
    assert(find_outside(Seq::<char>::empty(), ',') == 0);
    assert(part.take(part.len() as int) =~= part);
}

/// Joined clean fields are read back as the same fields, applied in order.
pub proof fn lemma_read_joined(acc: TraceView, fields: Seq<(Seq<char>, Seq<char>)>)
    requires
        fields.len() >= 1,
        clean_fields(fields),
    ensures
        parse_parts(acc, join_fields(fields)) == apply_all(acc, fields),
    decreases fields.len(),
{
    let f = field_text(fields[0].0, fields[0].1);
    lemma_read_field(acc, fields[0].0, fields[0].1);
    let tail = fields.drop_first();
    if fields.len() == 1 {
        lemma_read_parts(acc, f, Seq::empty());
        assert(tail.len() == 0);
        match apply_field(acc, fields[0].0, fields[0].1) {
            None => {},
            Some(next) => {
                assert(apply_all(next, tail) == Some(next));
            },
        }
    } else {
        lemma_read_parts(acc, f, join_fields(tail));
        assert(clean_fields(tail)) by {
            assert forall|k: int| 0 <= k < tail.len() implies clean_name(
                (#[trigger] tail[k]).0,
            ) && clean_value(tail[k].1) by {
                assert(tail[k] == fields[k + 1]);
            }
        }
        match apply_field(acc, fields[0].0, fields[0].1) {
            None => {},
            Some(next) => {
                lemma_read_joined(next, tail);
            },
        }
    }
}

/// Applying fields from the `k`th on applies the `k`th and then those after it.
pub proof fn lemma_apply_from(acc: TraceView, fields: Seq<(Seq<char>, Seq<char>)>, k: int)
    requires
        0 <= k <= fields.len(),
    ensures
        k == fields.len() ==> apply_all(acc, fields.skip(k)) == Some(acc),
        k < fields.len() ==> apply_all(acc, fields.skip(k)) == (match apply_field(
            acc,
            fields[k].0,
            fields[k].1,
        ) {
            None => None,
            Some(next) => apply_all(next, fields.skip(k + 1)),
        }),
{
    let here = fields.skip(k);
    if k < fields.len() {
        assert(here[0] == fields[k]);
        assert(here.drop_first() =~= fields.skip(k + 1));
    }
}

/// A rendered number is a clean value.
pub proof fn lemma_numbers_are_clean(v: int)
    ensures
        clean_value(render_micro(v)),
        clean_value(render_int(v)),
{
    lemma_micro_round_trip(v);
    lemma_int_round_trip(v, true, v, v);
    let m = render_micro(v);
    assert(is_digit(m[0]) || m[0] == '-' || m[0] == '.');
    assert(is_digit(m.last()) || m.last() == '-' || m.last() == '.');
    assert forall|k: int| 0 <= k < m.len() implies #[trigger] m[k] != '"' && m[k] != ',' by {
        assert(is_digit(m[k]) || m[k] == '-' || m[k] == '.');
    }
    lemma_plain_passes(m, ',');
    let i = render_int(v);
    assert(is_digit(i[0]) || i[0] == '-');
    assert(is_digit(i.last()) || i.last() == '-');
    assert forall|k: int| 0 <= k < i.len() implies #[trigger] i[k] != '"' && i[k] != ',' by {
        assert(is_digit(i[k]) || i[k] == '-');
    }
    lemma_plain_passes(i, ',');
}

/// The names of the format are clean, and no two of them are the same.
pub proof fn lemma_names()
    ensures
        clean_name("key"@),
        clean_name("ema_drift"@),
        clean_name("ema_res"@),
        clean_name("stability"@),
        clean_name("visits"@),
        clean_name("last_ts"@),
        clean_name("emo_tag"@),
        clean_name("sync_bias_drift"@),
        clean_name("sync_bias_res"@),
        clean_name("sync_stability"@),
        clean_name("sync_visits"@),
        "key"@.len() == 3,
        "ema_drift"@.len() == 9 && "ema_drift"@[0] == 'e',
        "ema_res"@.len() == 7 && "ema_res"@[1] == 'm' && "ema_res"@[2] == 'a',
        "stability"@.len() == 9 && "stability"@[0] == 's',
        "visits"@.len() == 6,
        "last_ts"@.len() == 7 && "last_ts"@[1] == 'a',
        "emo_tag"@.len() == 7 && "emo_tag"@[1] == 'm' && "emo_tag"@[2] == 'o',
        "sync_bias_drift"@.len() == 15,
        "sync_bias_res"@.len() == 13,
        "sync_stability"@.len() == 14,
        "sync_visits"@.len() == 11,
{
    reveal_strlit("key");
    reveal_strlit("ema_drift");
    reveal_strlit("ema_res");
    reveal_strlit("stability");
    reveal_strlit("visits");
    reveal_strlit("last_ts");
    reveal_strlit("emo_tag");
    reveal_strlit("sync_bias_drift");
    reveal_strlit("sync_bias_res");
    reveal_strlit("sync_stability");
    reveal_strlit("sync_visits");
}

/// The two flag texts are clean values, and only the text of a set flag reads as set.
pub proof fn lemma_flags(b: bool)
    ensures
        clean_value(flag_text(b)),
        (flag_text(b) == "true"@ || flag_text(b) == "1"@) == b,
{
    reveal_strlit("true");
    reveal_strlit("false");
    reveal_strlit("1");
    let f = flag_text(b);
    if b {
        assert(f.len() == 4);
    } else {
        assert(f.len() == 5);
        assert("true"@.len() == 4);
        assert("1"@.len() == 1);
    }
    assert forall|k: int| 0 <= k < f.len() implies #[trigger] f[k] != '"' && f[k] != ',' by {}
    lemma_plain_passes(f, ',');
}

/// The fields of a trace are clean, whatever its key holds.
pub proof fn lemma_fields_are_clean(t: TraceView)
    ensures
        clean_fields(fields_of(t)),
        fields_of(t).len() == 11,
{
    lemma_names();
    lemma_flags(t.emo_tag);
    lemma_numbers_are_clean(t.ema_drift);
    lemma_numbers_are_clean(t.ema_res);
    lemma_numbers_are_clean(t.stability);
    lemma_numbers_are_clean(t.visits);
    lemma_numbers_are_clean(t.last_ts);
    lemma_numbers_are_clean(t.sync_bias_drift);
    lemma_numbers_are_clean(t.sync_bias_res);
    lemma_numbers_are_clean(t.sync_stability);
    lemma_numbers_are_clean(t.sync_visits);
    let q = quoted(escaped(t.key));
    assert(q[0] == '"');
    assert(q.last() == '"');
    lemma_escaped_sealed(t.key);
    lemma_quoted_passes(escaped(t.key), ',');
    assert(clean_value(q));
    let fs = fields_of(t);
    assert forall|k: int| 0 <= k < fs.len() implies clean_name((#[trigger] fs[k]).0) && clean_value(
        fs[k].1,
    ) by {
        if k == 0 {
        } else if k == 1 {
        } else if k == 2 {
        } else if k == 3 {
        } else if k == 4 {
        } else if k == 5 {
        } else if k == 6 {
        } else if k == 7 {
        } else if k == 8 {
        } else if k == 9 {
        } else {
            assert(k == 10);
        }
    }
}

/// Each field of a well-formed trace, applied to any trace, sets just that
/// field, to the value it was written from.
pub proof fn lemma_field_sets(acc: TraceView, t: TraceView)
    requires
        t.wf(),
    ensures
        apply_field(acc, "key"@, quoted(escaped(t.key))) == Some(TraceView { key: t.key, ..acc }),
        apply_field(acc, "ema_drift"@, render_micro(t.ema_drift)) == Some(
            TraceView { ema_drift: t.ema_drift, ..acc },
        ),
        apply_field(acc, "ema_res"@, render_micro(t.ema_res)) == Some(
            TraceView { ema_res: t.ema_res, ..acc },
        ),
        apply_field(acc, "stability"@, render_micro(t.stability)) == Some(
            TraceView { stability: t.stability, ..acc },
        ),
        apply_field(acc, "visits"@, render_int(t.visits)) == Some(
            TraceView { visits: t.visits, ..acc },
        ),
        apply_field(acc, "last_ts"@, render_int(t.last_ts)) == Some(
            TraceView { last_ts: t.last_ts, ..acc },
        ),
        apply_field(acc, "emo_tag"@, flag_text(t.emo_tag)) == Some(
            TraceView { emo_tag: t.emo_tag, ..acc },
        ),
        apply_field(acc, "sync_bias_drift"@, render_micro(t.sync_bias_drift)) == Some(
            TraceView { sync_bias_drift: t.sync_bias_drift, ..acc },
        ),
        apply_field(acc, "sync_bias_res"@, render_micro(t.sync_bias_res)) == Some(
            TraceView { sync_bias_res: t.sync_bias_res, ..acc },
        ),
        apply_field(acc, "sync_stability"@, render_micro(t.sync_stability)) == Some(
            TraceView { sync_stability: t.sync_stability, ..acc },
        ),
        apply_field(acc, "sync_visits"@, render_int(t.sync_visits)) == Some(
            TraceView { sync_visits: t.sync_visits, ..acc },
        ),
{
    lemma_names();
    lemma_flags(t.emo_tag);
    lemma_string_value_of_escaped(t.key);
    lemma_micro_round_trip(t.ema_drift);
    lemma_micro_round_trip(t.ema_res);
    lemma_micro_round_trip(t.stability);
    lemma_micro_round_trip(t.sync_bias_drift);
    lemma_micro_round_trip(t.sync_bias_res);
    lemma_micro_round_trip(t.sync_stability);
    lemma_int_round_trip(t.visits, false, 0, u32::MAX as int);
    lemma_int_round_trip(t.sync_visits, false, 0, u32::MAX as int);
    lemma_int_round_trip(t.last_ts, true, i64::MIN as int, i64::MAX as int);
}

/// Applying the fields of a well-formed trace to the blank trace gives the trace.
pub proof fn lemma_fields_give_trace(t: TraceView)
    requires
        t.wf(),
    ensures
        apply_all(blank(), fields_of(t)) == Some(t),
{
    let fs = fields_of(t);
    let a0 = blank();
    let a1 = TraceView { key: t.key, ..a0 };
    let a2 = TraceView { ema_drift: t.ema_drift, ..a1 };
    let a3 = TraceView { ema_res: t.ema_res, ..a2 };
    let a4 = TraceView { stability: t.stability, ..a3 };
    let a5 = TraceView { visits: t.visits, ..a4 };
    let a6 = TraceView { last_ts: t.last_ts, ..a5 };
    let a7 = TraceView { emo_tag: t.emo_tag, ..a6 };
    let a8 = TraceView { sync_bias_drift: t.sync_bias_drift, ..a7 };
    let a9 = TraceView { sync_bias_res: t.sync_bias_res, ..a8 };
    let a10 = TraceView { sync_stability: t.sync_stability, ..a9 };
    let a11 = TraceView { sync_visits: t.sync_visits, ..a10 };
    assert(a11 == t);
    assert(fs.skip(0) =~= fs);
    lemma_field_sets(a0, t);
    lemma_apply_from(a0, fs, 0);
    lemma_field_sets(a1, t);
    lemma_apply_from(a1, fs, 1);
    lemma_field_sets(a2, t);
    lemma_apply_from(a2, fs, 2);
    lemma_field_sets(a3, t);
    lemma_apply_from(a3, fs, 3);
    lemma_field_sets(a4, t);
    lemma_apply_from(a4, fs, 4);
    lemma_field_sets(a5, t);
    lemma_apply_from(a5, fs, 5);
    lemma_field_sets(a6, t);
    lemma_apply_from(a6, fs, 6);
    lemma_field_sets(a7, t);
    lemma_apply_from(a7, fs, 7);
    lemma_field_sets(a8, t);
    lemma_apply_from(a8, fs, 8);
    lemma_field_sets(a9, t);
    lemma_apply_from(a9, fs, 9);
    lemma_field_sets(a10, t);
    lemma_apply_from(a10, fs, 10);
    lemma_apply_from(a11, fs, 11);
}

/// Round trip of the log format: a well-formed trace, written as a line
/// and read back, is the same trace in every field, whatever characters
/// its key holds. A trace without a key is written too, but no line
/// without a key is read.
pub proof fn lemma_line_round_trip(t: TraceView)
    requires
        t.wf(),
    ensures
        t.key.len() > 0 ==> parse_line(render_line(t)) == Some(t),
        t.key.len() == 0 ==> parse_line(render_line(t)) is None,
{
    let inner = join_fields(fields_of(t));
    let line = render_line(t);
    lemma_fields_are_clean(t);
    lemma_read_joined(blank(), fields_of(t));
    lemma_fields_give_trace(t);
    assert(line[0] == '{');
    assert(line.last() == '}');
    lemma_strip_same(line, false);
    assert(line.subrange(1, line.len() - 1) =~= inner);
}

/// No character of the text is a line feed.
pub open spec fn on_one_line(s: Seq<char>) -> bool {
    forall|k: int| 0 <= k < s.len() ==> #[trigger] s[k] != '\n'
}

/// An escaped text stands on one line.
pub proof fn lemma_escaped_on_one_line(s: Seq<char>)
    ensures
        on_one_line(escaped(s)),
    decreases s.len(),
{
    if s.len() > 0 {
        lemma_escaped_on_one_line(s.drop_last());
        let head = escaped(s.drop_last());
        let e = crate::session::escaped_char(s.last());
        assert forall|k: int| 0 <= k < escaped(s).len() implies #[trigger] escaped(s)[k]
            != '\n' by {
            if k < head.len() {
                assert(escaped(s)[k] == head[k]);
            } else {
                assert(escaped(s)[k] == e[k - head.len()]);
            }
        }
    }
}

/// Joined fields stand on one line where every name and value does.
pub proof fn lemma_joined_on_one_line(fields: Seq<(Seq<char>, Seq<char>)>)
    requires
        forall|k: int|
            0 <= k < fields.len() ==> on_one_line((#[trigger] fields[k]).0) && on_one_line(
                fields[k].1,
            ),
    ensures
        on_one_line(join_fields(fields)),
    decreases fields.len(),
{
    if fields.len() > 0 {
        let name = fields[0].0;
        let value = fields[0].1;
        let f = field_text(name, value);
        assert forall|k: int| 0 <= k < f.len() implies #[trigger] f[k] != '\n' by {
            if 1 <= k <= name.len() {
                assert(f[k] == name[k - 1]);
            } else if k >= name.len() + 3 {
                assert(f[k] == value[k - name.len() - 3]);
            }
        }
        if fields.len() > 1 {
            let tail = fields.drop_first();
            assert forall|k: int| 0 <= k < tail.len() implies on_one_line(
                (#[trigger] tail[k]).0,
            ) && on_one_line(tail[k].1) by {
                assert(tail[k] == fields[k + 1]);
            }
            lemma_joined_on_one_line(tail);
            let rest = join_fields(tail);
            let all = join_fields(fields);
            assert forall|k: int| 0 <= k < all.len() implies #[trigger] all[k] != '\n' by {
                if k < f.len() {
                    assert(all[k] == f[k]);
                } else if k > f.len() {
                    assert(all[k] == rest[k - f.len() - 1]);
                }
            }
        }
    }
}

/// A written trace stands on one line, whatever its key holds: a log of
/// written lines is read back line by line.
pub proof fn lemma_line_on_one_line(t: TraceView)
    ensures
        on_one_line(render_line(t)),
{
    lemma_names();
    lemma_flags(t.emo_tag);
    lemma_escaped_on_one_line(t.key);
    let fs = fields_of(t);
    assert forall|k: int| 0 <= k < fs.len() implies on_one_line((#[trigger] fs[k]).0)
        && on_one_line(fs[k].1) by {
        lemma_value_on_one_line(t, k);
    }
    lemma_joined_on_one_line(fs);
    let inner = join_fields(fs);
    let line = render_line(t);
    assert forall|k: int| 0 <= k < line.len() implies #[trigger] line[k] != '\n' by {
        if 1 <= k <= inner.len() {
            assert(line[k] == inner[k - 1]);
        }
    }
}

/// The name and the value of each field of a trace stand on one line.
pub proof fn lemma_value_on_one_line(t: TraceView, k: int)
    requires
        0 <= k < fields_of(t).len(),
    ensures
        on_one_line(fields_of(t)[k].0),
        on_one_line(fields_of(t)[k].1),
{
    lemma_names();
    lemma_fields_are_clean(t);
    reveal_strlit("true");
    reveal_strlit("false");
    lemma_escaped_on_one_line(t.key);
    let fs = fields_of(t);
    let name = fs[k].0;
    let value = fs[k].1;
    assert(clean_name(name));
    assert forall|i: int| 0 <= i < name.len() implies #[trigger] name[i] != '\n' by {
        assert(name_char(name[i]));
    }
    if k == 0 {
        let e = escaped(t.key);
        assert forall|i: int| 0 <= i < value.len() implies #[trigger] value[i] != '\n' by {
            if 1 <= i <= e.len() {
                assert(value[i] == e[i - 1]);
            }
        }
    } else if k == 6 {
        let f = flag_text(t.emo_tag);
        assert forall|i: int| 0 <= i < f.len() implies #[trigger] f[i] != '\n' by {}
    } else {
        let v: int = if k == 1 {
            t.ema_drift
        } else if k == 2 {
            t.ema_res
        } else if k == 3 {
            t.stability
        } else if k == 4 {
            t.visits
        } else if k == 5 {
            t.last_ts
        } else if k == 7 {
            t.sync_bias_drift
        } else if k == 8 {
            t.sync_bias_res
        } else if k == 9 {
            t.sync_stability
        } else {
            t.sync_visits
        };
        lemma_micro_round_trip(v);
        lemma_int_round_trip(v, true, v, v);
        let m = render_micro(v);
        assert forall|i: int| 0 <= i < m.len() implies #[trigger] m[i] != '\n' by {
            assert(is_digit(m[i]) || m[i] == '-' || m[i] == '.');
        }
        let n = render_int(v);
        assert forall|i: int| 0 <= i < n.len() implies #[trigger] n[i] != '\n' by {
            assert(is_digit(n[i]) || n[i] == '-');
        }
    }
}

/// Setting a field keeps a trace well formed.
pub proof fn lemma_apply_field_wf(acc: TraceView, name: Seq<char>, value: Seq<char>)
    requires
        acc.wf(),
    ensures
        apply_field(acc, name, value) matches Some(next) ==> next.wf(),
{
}

/// Reading parts keeps a trace well formed.
pub proof fn lemma_parse_parts_wf(acc: TraceView, inner: Seq<char>)
    requires
        acc.wf(),
    ensures
        parse_parts(acc, inner) matches Some(next) ==> next.wf(),
    decreases inner.len(),
{
    let comma = find_outside(inner, ',');
    lemma_find_outside_bounds(inner, ',');
    let part = inner.take(comma);
    if passes(part, ',') && find_outside(part, ':') < part.len() {
        lemma_apply_field_wf(acc, part_name(part), part_value(part));
        match parse_part(acc, part) {
            None => {},
            Some(next) => {
                if 0 <= comma < inner.len() {
                    lemma_parse_parts_wf(next, inner.skip(comma + 1));
                }
            },
        }
    }
}

/// A line that denotes a trace denotes a well-formed one, with a key.
pub proof fn lemma_parse_line_wf(line: Seq<char>)
    ensures
        parse_line(line) matches Some(t) ==> t.wf() && t.key.len() > 0,
{
    let t = trim_of(line);
    if !(t.len() < 2 || t[0] != '{' || t.last() != '}') {
        lemma_parse_parts_wf(blank(), t.subrange(1, t.len() - 1));
    }
}

fn push_name(out: &mut String, name: &str)
    ensures
        final(out)@ == old(out)@ + seq!['"'] + name@ + seq!['"', ':'],
{
    out.push('"');
    push_text(out, name);
    out.push('"');
    out.push(':');
    assert(final(out)@ =~= old(out)@ + seq!['"'] + name@ + seq!['"', ':']);
}

fn push_micro_field(out: &mut String, name: &str, v: i64, sep: char)
    ensures
        final(out)@ == old(out)@ + field_text(name@, render_micro(v as int)) + seq![sep],
{
    push_name(out, name);
    push_micro(out, v);
    out.push(sep);
    assert(final(out)@ =~= old(out)@ + field_text(name@, render_micro(v as int)) + seq![sep]);
}

fn push_int_field(out: &mut String, name: &str, v: i64, sep: char)
    ensures
        final(out)@ == old(out)@ + field_text(name@, render_int(v as int)) + seq![sep],
{
    push_name(out, name);
    push_int(out, v);
    out.push(sep);
    assert(final(out)@ =~= old(out)@ + field_text(name@, render_int(v as int)) + seq![sep]);
}

fn push_key_field(out: &mut String, key: &str)
    ensures
        final(out)@ == old(out)@ + field_text("key"@, quoted(escaped(key@))) + seq![','],
{
    push_name(out, "key");
    out.push('"');
    let written = escape_json(key);
    push_text(out, written.as_str());
    out.push('"');
    out.push(',');
    assert(final(out)@ =~= old(out)@ + field_text("key"@, quoted(escaped(key@))) + seq![',']);
}

fn push_flag_field(out: &mut String, name: &str, flag: bool)
    ensures
        final(out)@ == old(out)@ + field_text(name@, flag_text(flag)) + seq![','],
{
    push_name(out, name);
    if flag {
        push_text(out, "true");
    } else {
        push_text(out, "false");
    }
    out.push(',');
    assert(final(out)@ =~= old(out)@ + field_text(name@, flag_text(flag)) + seq![',']);
}

/// One field and its comma written: what is still to come are the fields after it.
proof fn lemma_written(
    fields: Seq<(Seq<char>, Seq<char>)>,
    k: int,
    pre: Seq<char>,
    now: Seq<char>,
    whole: Seq<char>,
)
    requires
        0 <= k < fields.len() - 1,
        whole == pre + join_fields(fields.skip(k)) + seq!['}'],
        now == pre + field_text(fields[k].0, fields[k].1) + seq![','],
    ensures
        whole == now + join_fields(fields.skip(k + 1)) + seq!['}'],
{
    lemma_join_step(fields, k, pre, seq!['}']);
}

fn set_field(trace: &mut AstroTrace, name: &[char], value: &[char]) -> (ok: bool)
    ensures
        match apply_field(old(trace)@, name@, value@) {
            Some(next) => ok && final(trace)@ == next,
            None => !ok,
        },
{
    if same_text(name, "key") {
        match read_string(value) {
            Some(key) => {
                trace.key = key;
                true
            },
            None => false,
        }
    } else if same_text(name, "ema_drift") {
        match parse_micro_text(value, 0, ONE) {
            Some(v) => {
                trace.ema_drift = v;
                true
            },
            None => false,
        }
    } else if same_text(name, "ema_res") {
        match parse_micro_text(value, 0, ONE) {
            Some(v) => {
                trace.ema_res = v;
                true
            },
            None => false,
        }
    } else if same_text(name, "stability") {
        match parse_micro_text(value, 0, ONE) {
            Some(v) => {
                trace.stability = v;
                true
            },
            None => false,
        }
    } else if same_text(name, "visits") {
        match parse_int_text(value, false, 0, 0xFFFF_FFFF) {
            Some(v) => {
                trace.visits = v as u32;
                true
            },
            None => false,
        }
    } else if same_text(name, "last_ts") {
        match parse_int_text(value, true, i64::MIN, i64::MAX) {
            Some(v) => {
                trace.last_ts = v;
                true
            },
            None => false,
        }
    } else if same_text(name, "emo_tag") {
        trace.emo_tag = same_text(value, "true") || same_text(value, "1");
        true
    } else if same_text(name, "sync_bias_drift") {
        match parse_micro_text(value, -SYNC_BIAS_BOUND, SYNC_BIAS_BOUND) {
            Some(v) => {
                trace.sync_bias_drift = v;
                true
            },
            None => false,
        }
    } else if same_text(name, "sync_bias_res") {
        match parse_micro_text(value, -SYNC_BIAS_BOUND, SYNC_BIAS_BOUND) {
            Some(v) => {
                trace.sync_bias_res = v;
                true
            },
            None => false,
        }
    } else if same_text(name, "sync_stability") {
        match parse_micro_text(value, 0, ONE) {
            Some(v) => {
                trace.sync_stability = v;
                true
            },
            None => false,
        }
    } else if same_text(name, "sync_visits") {
        match parse_int_text(value, false, 0, 0xFFFF_FFFF) {
            Some(v) => {
                trace.sync_visits = v as u32;
                true
            },
            None => false,
        }
    } else {
        true
    }
}

/// Reads one line of the log, given as characters; see `parse_line`.
pub fn read_line(chars: &[char]) -> (r: Option<AstroTrace>)
    ensures
        match parse_line(chars@) {
            Some(v) => r matches Some(t) && t@ == v,
            None => r is None,
        },
{
    let t = strip_slice(chars, false);
    if t.len() < 2 || t[0] != '{' || t[t.len() - 1] != '}' {
        return None;
    }
    let inner = slice_subrange(t, 1, t.len() - 1);
    let mut trace = AstroTrace::new(String::new(), 0);
    let mut rest: &[char] = inner;
    let mut more: bool = true;
    assert(inner@ == trim_of(chars@).subrange(1, trim_of(chars@).len() - 1));
    while more
        invariant
            parse_line(chars@) == (match parse_parts(blank(), inner@) {
                Some(v) => if v.key.len() == 0 {
                    None
                } else {
                    Some(v)
                },
                None => None,
            }),
            more ==> parse_parts(blank(), inner@) == parse_parts(trace@, rest@),
            !more ==> parse_parts(blank(), inner@) == Some(trace@),
        decreases
            rest@.len() + if more {
                1int
            } else {
                0int
            },
    {
        let comma = find_outside_char(rest, ',');
        let part = slice_subrange(rest, 0, comma);
        assert(part@ =~= rest@.take(comma as int));
        let colon = find_outside_char(part, ':');
        if !passes_char(part, ',') || colon >= part.len() {
            return None;
        }
        let name = strip_slice(strip_slice(slice_subrange(part, 0, colon), false), true);
        let value = strip_slice(slice_subrange(part, colon + 1, part.len()), false);
        assert(part@.subrange(0, colon as int) =~= part@.take(colon as int));
        assert(part@.subrange(colon + 1, part@.len() as int) =~= part@.skip(colon + 1));
        if !set_field(&mut trace, name, value) {
            return None;
        }
        if comma < rest.len() {
            let after = slice_subrange(rest, comma + 1, rest.len());
            assert(after@ =~= rest@.skip(comma + 1));
            rest = after;
        } else {
            more = false;
        }
    }
    if trace.key.as_str().is_empty() {
        return None;
    }
    Some(trace)
}

impl AstroTrace {
    /// The trace as one line of the log, without a line end.
    pub fn to_json_line(&self) -> (line: String)
        ensures
            line@ == render_line(self@),
    {
        let ghost fs = fields_of(self@);
        let ghost whole = render_line(self@);
        let mut out = String::new();
        out.push('{');
        proof {
            assert(fs.skip(0) =~= fs);
            assert(out@ =~= seq!['{']);
            assert(fs.len() == 11);
        }
        let ghost pre = out@;
        push_key_field(&mut out, self.key.as_str());
        proof {
            lemma_written(fs, 0, pre, out@, whole);
        }
        let ghost pre = out@;
        push_micro_field(&mut out, "ema_drift", self.ema_drift, ',');
        proof {
            lemma_written(fs, 1, pre, out@, whole);
        }
        let ghost pre = out@;
        push_micro_field(&mut out, "ema_res", self.ema_res, ',');
        proof {
            lemma_written(fs, 2, pre, out@, whole);
        }
        let ghost pre = out@;
        push_micro_field(&mut out, "stability", self.stability, ',');
        proof {
            lemma_written(fs, 3, pre, out@, whole);
        }
        let ghost pre = out@;
        push_int_field(&mut out, "visits", self.visits as i64, ',');
        proof {
            lemma_written(fs, 4, pre, out@, whole);
        }
        let ghost pre = out@;
        push_int_field(&mut out, "last_ts", self.last_ts, ',');
        proof {
            lemma_written(fs, 5, pre, out@, whole);
        }
        let ghost pre = out@;
        push_flag_field(&mut out, "emo_tag", self.emo_tag);
        proof {
            lemma_written(fs, 6, pre, out@, whole);
        }
        let ghost pre = out@;
        push_micro_field(&mut out, "sync_bias_drift", self.sync_bias_drift, ',');
        proof {
            lemma_written(fs, 7, pre, out@, whole);
        }
        let ghost pre = out@;
        push_micro_field(&mut out, "sync_bias_res", self.sync_bias_res, ',');
        proof {
            lemma_written(fs, 8, pre, out@, whole);
        }
        let ghost pre = out@;
        push_micro_field(&mut out, "sync_stability", self.sync_stability, ',');
        proof {
            lemma_written(fs, 9, pre, out@, whole);
        }
        let ghost pre = out@;
        push_int_field(&mut out, "sync_visits", self.sync_visits as i64, '}');
        proof {
            lemma_join_step(fs, 10, pre, seq!['}']);
        }
        out
    }

    /// Reads one line of the log; see `parse_line`.
    pub fn from_json_line(line: &str) -> (r: Option<AstroTrace>)
        ensures
            match parse_line(line@) {
                Some(v) => r matches Some(t) && t@ == v,
                None => r is None,
            },
    {
        let chars = chars_of(line);
        read_line(chars.as_slice())
    }
}

} // verus!
