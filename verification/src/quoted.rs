//! Quoted strings inside a line: where a string closes, and where a
//! separator stands outside every string.

use crate::session::{escaped, escaped_char, unescape_json, unescaped};
use crate::text::string_of;
use vstd::prelude::*;
use vstd::slice::slice_subrange;

verus! {

/// Index of the double quote that closes a string, counted from after the
/// quote that opens it, or the length where none closes it. A backslash
/// takes the character after it along, so that an escaped quote closes nothing.
pub open spec fn string_close(s: Seq<char>) -> int
    decreases s.len(),
{
    if s.len() == 0 || s[0] == '"' {
        0
    } else if s[0] == '\\' {
        if s.len() == 1 {
            1
        } else {
            2 + string_close(s.skip(2))
        }
    } else {
        1 + string_close(s.drop_first())
    }
}

/// Where a string closes lies within the text.
pub proof fn lemma_string_close_bounds(s: Seq<char>)
    ensures
        0 <= string_close(s) <= s.len(),
    decreases s.len(),
{
    if s.len() == 0 || s[0] == '"' {
    } else if s[0] == '\\' {
        if s.len() > 1 {
            lemma_string_close_bounds(s.skip(2));
        }
    } else {
        lemma_string_close_bounds(s.drop_first());
    }
}

/// Index of the first `sep` that stands outside every quoted string, or the
/// length where there is none. A string that never closes takes the rest
/// of the text.
pub open spec fn find_outside(s: Seq<char>, sep: char) -> int
    decreases s.len(),
{
    if s.len() == 0 || s[0] == sep {
        0
    } else if s[0] == '"' {
        let close = string_close(s.drop_first());
        if close < 0 || close + 1 >= s.len() {
            s.len() as int
        } else {
            close + 2 + find_outside(s.skip(close + 2), sep)
        }
    } else {
        1 + find_outside(s.drop_first(), sep)
    }
}

/// Where a separator stands outside strings lies within the text.
pub proof fn lemma_find_outside_bounds(s: Seq<char>, sep: char)
    ensures
        0 <= find_outside(s, sep) <= s.len(),
        find_outside(s, sep) < s.len() ==> s[find_outside(s, sep)] == sep,
    decreases s.len(),
{
    if s.len() == 0 || s[0] == sep {
    } else if s[0] == '"' {
        let close = string_close(s.drop_first());
        lemma_string_close_bounds(s.drop_first());
        if close + 1 < s.len() {
            lemma_find_outside_bounds(s.skip(close + 2), sep);
        }
    } else {
        lemma_find_outside_bounds(s.drop_first(), sep);
    }
}

/// Whether a text, read from outside a string, holds no `sep` outside a
/// string and ends outside a string.
pub open spec fn passes(t: Seq<char>, sep: char) -> bool
    decreases t.len(),
{
    if t.len() == 0 {
        true
    } else if t[0] == sep {
        false
    } else if t[0] == '"' {
        let close = string_close(t.drop_first());
        if close < 0 || close + 1 >= t.len() {
            false
        } else {
            passes(t.skip(close + 2), sep)
        }
    } else {
        passes(t.drop_first(), sep)
    }
}

/// A string that closes within a text closes at the same place whatever follows the text.
pub proof fn lemma_close_prefix(s: Seq<char>, rest: Seq<char>)
    requires
        string_close(s) < s.len(),
    ensures
        string_close(s + rest) == string_close(s),
    decreases s.len(),
{
    let all = s + rest;
    assert(all[0] == s[0]);
    if s[0] == '"' {
    } else if s[0] == '\\' {
        if s.len() == 1 {
        } else {
            assert(all.skip(2) =~= s.skip(2) + rest);
            lemma_close_prefix(s.skip(2), rest);
        }
    } else {
        assert(all.drop_first() =~= s.drop_first() + rest);
        lemma_close_prefix(s.drop_first(), rest);
    }
}

/// After a text that passes, the search goes on in what follows it.
pub proof fn lemma_passes_prefix(t: Seq<char>, rest: Seq<char>, sep: char)
    requires
        passes(t, sep),
    ensures
        find_outside(t + rest, sep) == t.len() + find_outside(rest, sep),
    decreases t.len(),
{
    let all = t + rest;
    if t.len() == 0 {
        assert(all =~= rest);
    } else {
        assert(all[0] == t[0]);
        if t[0] == '"' {
            let inner = t.drop_first();
            let close = string_close(inner);
            lemma_string_close_bounds(inner);
            lemma_close_prefix(inner, rest);
            assert(all.drop_first() =~= inner + rest);
            assert(all.skip(close + 2) =~= t.skip(close + 2) + rest);
            lemma_passes_prefix(t.skip(close + 2), rest, sep);
        } else {
            assert(all.drop_first() =~= t.drop_first() + rest);
            lemma_passes_prefix(t.drop_first(), rest, sep);
        }
    }
}

/// Two texts that pass, one after the other, pass.
pub proof fn lemma_passes_concat(a: Seq<char>, b: Seq<char>, sep: char)
    requires
        passes(a, sep),
        passes(b, sep),
    ensures
        passes(a + b, sep),
    decreases a.len(),
{
    let all = a + b;
    if a.len() == 0 {
        assert(all =~= b);
    } else {
        assert(all[0] == a[0]);
        if a[0] == '"' {
            let inner = a.drop_first();
            let close = string_close(inner);
            lemma_string_close_bounds(inner);
            lemma_close_prefix(inner, b);
            assert(all.drop_first() =~= inner + b);
            assert(all.skip(close + 2) =~= a.skip(close + 2) + b);
            lemma_passes_concat(a.skip(close + 2), b, sep);
        } else {
            assert(all.drop_first() =~= a.drop_first() + b);
            lemma_passes_concat(a.drop_first(), b, sep);
        }
    }
}

/// A text without a double quote and without `sep` passes.
pub proof fn lemma_plain_passes(t: Seq<char>, sep: char)
    requires
        forall|k: int| 0 <= k < t.len() ==> #[trigger] t[k] != '"' && t[k] != sep,
    ensures
        passes(t, sep),
    decreases t.len(),
{
    if t.len() > 0 {
        assert(t[0] != '"' && t[0] != sep);
        assert forall|k: int| 0 <= k < t.drop_first().len() implies #[trigger] t.drop_first()[k]
            != '"' && t.drop_first()[k] != sep by {
            assert(t.drop_first()[k] == t[k + 1]);
        }
        lemma_plain_passes(t.drop_first(), sep);
    }
}

/// What stands between quotes and holds no closing quote of its own.
pub open spec fn sealed(body: Seq<char>) -> bool {
    string_close(body + seq!['"']) == body.len()
}

/// A sealed text between quotes passes.
pub proof fn lemma_quoted_passes(body: Seq<char>, sep: char)
    requires
        sealed(body),
        sep != '"',
    ensures
        passes(seq!['"'] + body + seq!['"'], sep),
{
    let q = seq!['"'] + body + seq!['"'];
    assert(q.len() == body.len() + 2);
    assert(q[0] == '"');
    assert(q.drop_first() =~= body + seq!['"']);
    assert(string_close(q.drop_first()) == body.len());
    assert(q.skip(body.len() as int + 2) =~= Seq::<char>::empty());
    assert(passes(q.skip(body.len() as int + 2), sep));
}

/// A text without a double quote and without a backslash is sealed.
pub proof fn lemma_plain_sealed(t: Seq<char>)
    requires
        forall|k: int| 0 <= k < t.len() ==> #[trigger] t[k] != '"' && t[k] != '\\',
    ensures
        sealed(t),
    decreases t.len(),
{
    let all = t + seq!['"'];
    if t.len() == 0 {
        assert(all[0] == '"');
    } else {
        assert(all[0] == t[0]);
        assert(t[0] != '"' && t[0] != '\\');
        assert(all.drop_first() =~= t.drop_first() + seq!['"']);
        assert forall|k: int| 0 <= k < t.drop_first().len() implies #[trigger] t.drop_first()[k]
            != '"' && t.drop_first()[k] != '\\' by {
            assert(t.drop_first()[k] == t[k + 1]);
        }
        lemma_plain_sealed(t.drop_first());
    }
}

/// An escaped text holds no closing quote: a string closes where what
/// follows the escaped text closes it.
pub proof fn lemma_escaped_closes_after(s: Seq<char>, tail: Seq<char>)
    ensures
        string_close(escaped(s) + tail) == escaped(s).len() + string_close(tail),
    decreases s.len(),
{
    if s.len() == 0 {
        assert(escaped(s) + tail =~= tail);
    } else {
        let c = s.last();
        let e = escaped_char(c);
        let next = e + tail;
        assert(escaped(s) + tail =~= escaped(s.drop_last()) + next);
        lemma_escaped_closes_after(s.drop_last(), next);
        if e.len() == 2 {
            assert(next[0] == '\\');
            assert(next.skip(2) =~= tail);
        } else {
            assert(next[0] == c);
            assert(next.drop_first() =~= tail);
        }
    }
}

/// An escaped text is sealed.
pub proof fn lemma_escaped_sealed(s: Seq<char>)
    ensures
        sealed(escaped(s)),
{
    lemma_escaped_closes_after(s, seq!['"']);
}

/// The text that a quoted string stands for: what stands between its
/// quotes, escapes read back; nothing where the value is not one string
/// from its first to its last character.
pub open spec fn string_value(value: Seq<char>) -> Option<Seq<char>> {
    if value.len() >= 2 && value[0] == '"' && string_close(value.drop_first()) == value.len() - 2 {
        Some(unescaped(value.subrange(1, value.len() - 1)))
    } else {
        None
    }
}

/// A text, escaped and put between quotes, stands for itself.
pub proof fn lemma_string_value_of_escaped(s: Seq<char>)
    ensures
        string_value(seq!['"'] + escaped(s) + seq!['"']) == Some(s),
{
    let q = seq!['"'] + escaped(s) + seq!['"'];
    lemma_escaped_sealed(s);
    assert(q.drop_first() =~= escaped(s) + seq!['"']);
    assert(q.subrange(1, q.len() - 1) =~= escaped(s));
    crate::session::lemma_unescape_escaped(s);
}

/// Finds where a string closes; see `string_close`.
pub fn close_of(s: &[char]) -> (at: usize)
    ensures
        at == string_close(s@),
        at <= s@.len(),
{
    let mut i: usize = 0;
    assert(s@.skip(0) =~= s@);
    loop
        invariant
            i <= s.len(),
            string_close(s@) == i + string_close(s@.skip(i as int)),
        decreases s.len() - i,
    {
        let ghost rest = s@.skip(i as int);
        if i >= s.len() {
            return i;
        }
        assert(rest[0] == s@[i as int]);
        let c: char = s[i];
        if c == '"' {
            return i;
        }
        if c == '\\' {
            if i + 1 >= s.len() {
                assert(rest.len() == 1);
                return i + 1;
            }
            assert(rest.skip(2) =~= s@.skip(i + 2));
            i += 2;
        } else {
            assert(rest.drop_first() =~= s@.skip(i + 1));
            i += 1;
        }
    }
}

/// Finds the first `sep` outside every quoted string; see `find_outside`.
pub fn find_outside_char(s: &[char], sep: char) -> (at: usize)
    ensures
        at == find_outside(s@, sep),
        at <= s@.len(),
{
    let mut i: usize = 0;
    assert(s@.skip(0) =~= s@);
    loop
        invariant
            i <= s.len(),
            find_outside(s@, sep) == i + find_outside(s@.skip(i as int), sep),
        decreases s.len() - i,
    {
        let ghost rest = s@.skip(i as int);
        if i >= s.len() {
            return i;
        }
        assert(rest[0] == s@[i as int]);
        let c: char = s[i];
        if c == sep {
            return i;
        }
        if c == '"' {
            let inner = slice_subrange(s, i + 1, s.len());
            assert(inner@ =~= rest.drop_first());
            let close = close_of(inner);
            if close + 1 >= s.len() - i {
                return s.len();
            }
            assert(rest.skip(close + 2) =~= s@.skip(i + close + 2));
            i = i + close + 2;
        } else {
            assert(rest.drop_first() =~= s@.skip(i + 1));
            i += 1;
        }
    }
}

/// Whether a text holds no `sep` outside a string and closes every string; see `passes`.
pub fn passes_char(s: &[char], sep: char) -> (b: bool)
    ensures
        b == passes(s@, sep),
{
    let mut i: usize = 0;
    assert(s@.skip(0) =~= s@);
    loop
        invariant
            i <= s.len(),
            passes(s@, sep) == passes(s@.skip(i as int), sep),
        decreases s.len() - i,
    {
        let ghost rest = s@.skip(i as int);
        if i >= s.len() {
            return true;
        }
        assert(rest[0] == s@[i as int]);
        let c: char = s[i];
        if c == sep {
            return false;
        }
        if c == '"' {
            let inner = slice_subrange(s, i + 1, s.len());
            assert(inner@ =~= rest.drop_first());
            let close = close_of(inner);
            if close + 1 >= s.len() - i {
                return false;
            }
            assert(rest.skip(close + 2) =~= s@.skip(i + close + 2));
            i = i + close + 2;
        } else {
            assert(rest.drop_first() =~= s@.skip(i + 1));
            i += 1;
        }
    }
}

/// Reads a quoted string; see `string_value`.
pub fn read_string(value: &[char]) -> (r: Option<String>)
    ensures
        match string_value(value@) {
            Some(text) => r matches Some(found) && found@ == text,
            None => r is None,
        },
{
    if value.len() < 2 || value[0] != '"' {
        return None;
    }
    let inner = slice_subrange(value, 1, value.len());
    assert(inner@ =~= value@.drop_first());
    if close_of(inner) != value.len() - 2 {
        return None;
    }
    let body = slice_subrange(value, 1, value.len() - 1);
    assert(body@ =~= value@.subrange(1, value@.len() - 1));
    let raw = string_of(body);
    Some(unescape_json(raw.as_str()))
}

} // verus!
