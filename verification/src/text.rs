//! Text as sequences of characters: trimming, searching, and decimal numbers.

use crate::micro::{clamp_int, ONE};
use vstd::prelude::*;
use vstd::slice::slice_subrange;

verus! {

/// `String::push` appends one character to the end of the string.
pub assume_specification[ String::push ](s: &mut String, ch: char)
    ensures
        final(s)@ == old(s)@.push(ch),
;

/// The characters of a string slice, in order.
pub fn chars_of(s: &str) -> (v: Vec<char>)
    ensures
        v@ == s@,
{
    let mut v: Vec<char> = Vec::new();
    for c in it: s.chars()
        invariant
            v@ == it.seq().take(it.index() as int),
            it.seq() == s@,
    {
        v.push(c);
        assert(v@ =~= it.seq().take(it.index() + 1));
    }
    assert(v@ =~= s@);
    v
}

/// Appends the characters of `tail` to `s`.
pub fn push_chars(s: &mut String, tail: &[char])
    ensures
        final(s)@ == old(s)@ + tail@,
{
    let mut i: usize = 0;
    while i < tail.len()
        invariant
            i <= tail.len(),
            s@ == old(s)@ + tail@.take(i as int),
        decreases tail.len() - i,
    {
        s.push(tail[i]);
        i += 1;
        assert(s@ =~= old(s)@ + tail@.take(i as int));
    }
    assert(tail@.take(i as int) =~= tail@);
}

/// Appends the characters of the string slice `tail` to `s`.
pub fn push_text(s: &mut String, tail: &str)
    ensures
        final(s)@ == old(s)@ + tail@,
{
    let v = chars_of(tail);
    push_chars(s, v.as_slice());
}

/// A string made of the given characters, in order.
pub fn string_of(v: &[char]) -> (s: String)
    ensures
        s@ == v@,
{
    let mut s = String::new();
    push_chars(&mut s, v);
    assert(Seq::<char>::empty() + v@ =~= v@);
    s
}

/// Whether the characters are exactly those of `lit`.
pub fn same_text(s: &[char], lit: &str) -> (b: bool)
    ensures
        b == (s@ == lit@),
{
    let v = chars_of(lit);
    if v.len() != s.len() {
        return false;
    }
    let mut i: usize = 0;
    while i < s.len()
        invariant
            i <= s.len(),
            v.len() == s.len(),
            v@ == lit@,
            forall|k: int| 0 <= k < i ==> s@[k] == v@[k],
        decreases s.len() - i,
    {
        if s[i] != v[i] {
            return false;
        }
        i += 1;
    }
    assert(s@ =~= lit@);
    true
}

/// A character with a capital ASCII letter turned into the small one.
pub open spec fn ascii_lower(c: char) -> char {
    if 0x41 <= c as u32 <= 0x5A {
        ((c as u32) + 0x20) as char
    } else {
        c
    }
}

/// A text with its capital ASCII letters turned into small ones.
pub open spec fn ascii_lowercase(s: Seq<char>) -> Seq<char> {
    Seq::new(s.len(), |k: int| ascii_lower(s[k]))
}

fn lower_code(c: char) -> (u: u32)
    ensures
        u == ascii_lower(c) as u32,
{
    let u: u32 = c as u32;
    if 0x41 <= u && u <= 0x5A {
        u + 0x20
    } else {
        u
    }
}

/// Whether the characters, capital ASCII letters taken as small ones, are those of `lit`.
pub fn same_text_ignoring_case(s: &[char], lit: &str) -> (b: bool)
    ensures
        b == (ascii_lowercase(s@) == lit@),
{
    let v = chars_of(lit);
    if v.len() != s.len() {
        return false;
    }
    let mut i: usize = 0;
    while i < s.len()
        invariant
            i <= s.len(),
            v.len() == s.len(),
            v@ == lit@,
            forall|k: int| 0 <= k < i ==> ascii_lowercase(s@)[k] == v@[k],
        decreases s.len() - i,
    {
        let a: u32 = lower_code(s[i]);
        let b: u32 = v[i] as u32;
        proof {
            let low = ascii_lower(s@[i as int]);
            assert(ascii_lowercase(s@)[i as int] == low);
            vstd::utf8::char_u32_cast(low, a);
            vstd::utf8::char_u32_cast(v@[i as int], b);
        }
        if a != b {
            return false;
        }
        i += 1;
    }
    assert(ascii_lowercase(s@) =~= lit@);
    true
}

/// White space as Unicode defines it (the property White_Space).
pub open spec fn is_space(c: char) -> bool {
    let u = c as u32;
    ||| 0x09 <= u <= 0x0D
    ||| u == 0x20
    ||| u == 0x85
    ||| u == 0xA0
    ||| u == 0x1680
    ||| 0x2000 <= u <= 0x200A
    ||| u == 0x2028
    ||| u == 0x2029
    ||| u == 0x202F
    ||| u == 0x205F
    ||| u == 0x3000
}

/// Whether a character is white space.
pub fn char_is_space(c: char) -> (b: bool)
    ensures
        b == is_space(c),
{
    let u: u32 = c as u32;
    (0x09 <= u && u <= 0x0D) || u == 0x20 || u == 0x85 || u == 0xA0 || u == 0x1680 || (0x2000 <= u
        && u <= 0x200A) || u == 0x2028 || u == 0x2029 || u == 0x202F || u == 0x205F || u == 0x3000
}

/// Whether a character is removed from an end: a double quote when `quotes`
/// is set, white space otherwise.
pub open spec fn strips(c: char, quotes: bool) -> bool {
    if quotes {
        c == '"'
    } else {
        is_space(c)
    }
}

/// `s` without its leading characters of the stripped kind.
pub open spec fn strip_start(s: Seq<char>, quotes: bool) -> Seq<char>
    decreases s.len(),
{
    if s.len() > 0 && strips(s[0], quotes) {
        strip_start(s.drop_first(), quotes)
    } else {
        s
    }
}

/// `s` without its trailing characters of the stripped kind.
pub open spec fn strip_end(s: Seq<char>, quotes: bool) -> Seq<char>
    decreases s.len(),
{
    if s.len() > 0 && strips(s.last(), quotes) {
        strip_end(s.drop_last(), quotes)
    } else {
        s
    }
}

/// `s` without characters of the stripped kind at either end.
pub open spec fn strip(s: Seq<char>, quotes: bool) -> Seq<char> {
    strip_end(strip_start(s, quotes), quotes)
}

/// `s` without white space at either end.
pub open spec fn trim_of(s: Seq<char>) -> Seq<char> {
    strip(s, false)
}

/// `s` without double quotes at either end.
pub open spec fn unquote(s: Seq<char>) -> Seq<char> {
    strip(s, true)
}

/// Index of the first `c` in `s`, or the length of `s` where there is none.
pub open spec fn find(s: Seq<char>, c: char) -> int
    decreases s.len(),
{
    if s.len() == 0 || s[0] == c {
        0
    } else {
        1 + find(s.drop_first(), c)
    }
}

/// The first occurrence is where no earlier character matches and this one does.
pub proof fn lemma_find(s: Seq<char>, c: char, at: int)
    requires
        0 <= at <= s.len(),
        forall|k: int| 0 <= k < at ==> s[k] != c,
        at < s.len() ==> s[at] == c,
    ensures
        find(s, c) == at,
    decreases s.len(),
{
    if s.len() != 0 && s[0] != c {
        let rest = s.drop_first();
        assert forall|k: int| 0 <= k < at - 1 implies rest[k] != c by {
            assert(rest[k] == s[k + 1]);
        }
        lemma_find(rest, c, at - 1);
    }
}

/// What `find` returns lies within the sequence and is a first occurrence.
pub proof fn lemma_find_is_first(s: Seq<char>, c: char)
    ensures
        0 <= find(s, c) <= s.len(),
        forall|k: int| 0 <= k < find(s, c) ==> s[k] != c,
        find(s, c) < s.len() ==> s[find(s, c)] == c,
    decreases s.len(),
{
    if s.len() != 0 && s[0] != c {
        let rest = s.drop_first();
        lemma_find_is_first(rest, c);
        assert forall|k: int| 0 <= k < find(s, c) implies s[k] != c by {
            if k > 0 {
                assert(rest[k - 1] == s[k]);
            }
        }
    }
}

/// Finds the first `c` in `s`; the length of `s` stands for none.
pub fn find_char(s: &[char], c: char) -> (at: usize)
    ensures
        at == find(s@, c),
        at <= s@.len(),
{
    let mut i: usize = 0;
    while i < s.len() && s[i] != c
        invariant
            i <= s.len(),
            forall|k: int| 0 <= k < i ==> s@[k] != c,
        decreases s.len() - i,
    {
        i += 1;
    }
    proof {
        lemma_find(s@, c, i as int);
    }
    i
}

/// Stripping the start leaves the part from the first character that stays.
pub proof fn lemma_strip_start(s: Seq<char>, quotes: bool, from: int)
    requires
        0 <= from <= s.len(),
        forall|k: int| 0 <= k < from ==> strips(s[k], quotes),
        from < s.len() ==> !strips(s[from], quotes),
    ensures
        strip_start(s, quotes) == s.skip(from),
    decreases s.len(),
{
    if from == 0 {
        assert(s.skip(0) =~= s);
    } else {
        let rest = s.drop_first();
        assert forall|k: int| 0 <= k < from - 1 implies strips(rest[k], quotes) by {
            assert(rest[k] == s[k + 1]);
        }
        lemma_strip_start(rest, quotes, from - 1);
        assert(rest.skip(from - 1) =~= s.skip(from));
    }
}

/// Stripping the end leaves the part up to the last character that stays.
pub proof fn lemma_strip_end(s: Seq<char>, quotes: bool, to: int)
    requires
        0 <= to <= s.len(),
        forall|k: int| to <= k < s.len() ==> strips(s[k], quotes),
        to > 0 ==> !strips(s[to - 1], quotes),
    ensures
        strip_end(s, quotes) == s.take(to),
    decreases s.len(),
{
    if to == s.len() {
        assert(s.take(to) =~= s);
    } else {
        let rest = s.drop_last();
        lemma_strip_end(rest, quotes, to);
        assert(rest.take(to) =~= s.take(to));
    }
}

fn strips_char(c: char, quotes: bool) -> (b: bool)
    ensures
        b == strips(c, quotes),
{
    if quotes {
        c == '"'
    } else {
        char_is_space(c)
    }
}

/// The slice without characters of the stripped kind at either end.
pub fn strip_slice<'a>(s: &'a [char], quotes: bool) -> (r: &'a [char])
    ensures
        r@ == strip(s@, quotes),
{
    let mut from: usize = 0;
    while from < s.len() && strips_char(s[from], quotes)
        invariant
            from <= s.len(),
            forall|k: int| 0 <= k < from ==> strips(s@[k], quotes),
        decreases s.len() - from,
    {
        from += 1;
    }
    let mut to: usize = s.len();
    while to > from && strips_char(s[to - 1], quotes)
        invariant
            from <= to <= s.len(),
            forall|k: int| to <= k < s.len() ==> strips(s@[k], quotes),
        decreases to,
    {
        to -= 1;
    }
    proof {
        lemma_strip_start(s@, quotes, from as int);
        let mid = s@.skip(from as int);
        assert forall|k: int| to - from <= k < mid.len() implies strips(mid[k], quotes) by {
            assert(mid[k] == s@[k + from]);
        }
        if to > from {
            assert(mid[to - from - 1] == s@[to - 1]);
        }
        lemma_strip_end(mid, quotes, to - from);
        assert(mid.take(to - from) =~= s@.subrange(from as int, to as int));
    }
    slice_subrange(s, from, to)
}

/// A decimal digit.
pub open spec fn is_digit(c: char) -> bool {
    0x30 <= c as u32 <= 0x39
}

/// The number a decimal digit stands for.
pub open spec fn digit_value(c: char) -> int {
    c as u32 - 0x30
}

/// The decimal digit of a number below ten.
pub open spec fn digit_char(d: int) -> char {
    (0x30 + d) as char
}

/// Every character is a decimal digit.
pub open spec fn all_digits(s: Seq<char>) -> bool {
    forall|k: int| 0 <= k < s.len() ==> is_digit(#[trigger] s[k])
}

/// The number that a run of decimal digits denotes; the empty run denotes 0.
pub open spec fn decimal_value(s: Seq<char>) -> int
    decreases s.len(),
{
    if s.len() == 0 {
        0
    } else {
        decimal_value(s.drop_last()) * 10 + digit_value(s.last())
    }
}

/// The first six characters of `s`, with zeros where `s` is shorter.
pub open spec fn six_places(s: Seq<char>) -> Seq<char> {
    Seq::new(
        6,
        |k: int|
            if k < s.len() {
                s[k]
            } else {
                '0'
            },
    )
}

/// Fractional digits as millionths: the number that the first six digits
/// denote, a shorter run counting as if zeros followed it.
pub open spec fn fraction_value(s: Seq<char>) -> int {
    decimal_value(six_places(s))
}

/// A leading sign is a minus, or a plus.
pub open spec fn has_sign(s: Seq<char>, signed: bool) -> bool {
    s.len() > 0 && (s[0] == '+' || (signed && s[0] == '-'))
}

/// The text after its sign, if it has one.
pub open spec fn unsigned_part(s: Seq<char>, signed: bool) -> Seq<char> {
    if has_sign(s, signed) {
        s.drop_first()
    } else {
        s
    }
}

/// The whole number that `s` denotes, if it is an optional sign and at least
/// one digit and the number lies between `lo` and `hi`. A minus is a sign
/// only where `signed` is set.
pub open spec fn parse_int(s: Seq<char>, signed: bool, lo: int, hi: int) -> Option<int> {
    let body = unsigned_part(s, signed);
    if body.len() == 0 || !all_digits(body) {
        None
    } else {
        let v = if has_sign(s, signed) && s[0] == '-' {
            -decimal_value(body)
        } else {
            decimal_value(body)
        };
        if lo <= v <= hi {
            Some(v)
        } else {
            None
        }
    }
}

/// The digits after the decimal point of a decimal numeral, if it has one.
pub open spec fn after_point(body: Seq<char>) -> Seq<char> {
    if find(body, '.') < body.len() {
        body.skip(find(body, '.') + 1)
    } else {
        Seq::empty()
    }
}

/// The value in millionths that a decimal numeral denotes: an optional
/// sign, digits, and optionally a point and more digits, with at least one
/// digit in all. Fractional digits past the sixth are dropped.
pub open spec fn parse_micro(s: Seq<char>) -> Option<int> {
    let body = unsigned_part(s, true);
    let whole = body.take(find(body, '.'));
    let frac = after_point(body);
    if whole.len() + frac.len() == 0 || !all_digits(whole) || !all_digits(frac) {
        None
    } else {
        let mag = decimal_value(whole) * ONE + fraction_value(frac);
        if has_sign(s, true) && s[0] == '-' {
            Some(-mag)
        } else {
            Some(mag)
        }
    }
}

/// The decimal digits of a natural number, without leading zeros.
pub open spec fn decimal_digits(n: nat) -> Seq<char>
    decreases n,
{
    if n < 10 {
        seq![digit_char(n as int)]
    } else {
        decimal_digits(n / 10).push(digit_char((n % 10) as int))
    }
}

/// The last `width` decimal digits of a natural number, with leading zeros.
pub open spec fn fixed_digits(n: nat, width: nat) -> Seq<char>
    decreases width,
{
    if width == 0 {
        Seq::empty()
    } else {
        fixed_digits(n / 10, (width - 1) as nat).push(digit_char((n % 10) as int))
    }
}

/// The size of a number.
pub open spec fn magnitude(v: int) -> nat {
    if v < 0 {
        (-v) as nat
    } else {
        v as nat
    }
}

/// The sign of a rendered number: a minus for a negative one, else nothing.
pub open spec fn sign_text(v: int) -> Seq<char> {
    if v < 0 {
        seq!['-']
    } else {
        Seq::empty()
    }
}

/// A whole number in decimal.
pub open spec fn render_int(v: int) -> Seq<char> {
    sign_text(v) + decimal_digits(magnitude(v))
}

/// A value in millionths as a decimal numeral with six fractional digits.
pub open spec fn render_micro(v: int) -> Seq<char> {
    sign_text(v) + decimal_digits(magnitude(v) / (ONE as nat)) + seq!['.'] + fixed_digits(
        magnitude(v) % (ONE as nat),
        6,
    )
}

/// Appending a digit multiplies the value by ten and adds the digit.
pub proof fn lemma_decimal_push(s: Seq<char>, c: char)
    ensures
        decimal_value(s.push(c)) == decimal_value(s) * 10 + digit_value(c),
{
    assert(s.push(c).drop_last() =~= s);
}

/// A run of digits denotes a number that is not negative.
pub proof fn lemma_decimal_value_sign(s: Seq<char>)
    requires
        all_digits(s),
    ensures
        decimal_value(s) >= 0,
    decreases s.len(),
{
    if s.len() > 0 {
        assert(all_digits(s.drop_last())) by {
            assert forall|k: int| 0 <= k < s.drop_last().len() implies is_digit(
                #[trigger] s.drop_last()[k],
            ) by {
                assert(s.drop_last()[k] == s[k]);
            }
        }
        lemma_decimal_value_sign(s.drop_last());
        assert(is_digit(s[s.len() - 1]));
    }
}

/// The digits of a number are digits, at least one, and denote the number.
pub proof fn lemma_decimal_digits(n: nat)
    ensures
        all_digits(decimal_digits(n)),
        decimal_digits(n).len() >= 1,
        decimal_value(decimal_digits(n)) == n,
    decreases n,
{
    if n < 10 {
        let s = seq![digit_char(n as int)];
        assert(s.drop_last() =~= Seq::<char>::empty());
        assert(decimal_value(s.drop_last()) == 0);
    } else {
        lemma_decimal_digits(n / 10);
        lemma_decimal_push(decimal_digits(n / 10), digit_char((n % 10) as int));
    }
}

/// Fixed-width digits are digits, as many as asked for.
pub proof fn lemma_fixed_digits(n: nat, width: nat)
    ensures
        all_digits(fixed_digits(n, width)),
        fixed_digits(n, width).len() == width,
        width > 0 ==> decimal_value(fixed_digits(n, width)) == decimal_value(
            fixed_digits(n / 10, (width - 1) as nat),
        ) * 10 + n % 10,
    decreases width,
{
    if width > 0 {
        lemma_fixed_digits(n / 10, (width - 1) as nat);
        lemma_decimal_push(
            fixed_digits(n / 10, (width - 1) as nat),
            digit_char((n % 10) as int),
        );
    }
}

/// Six fixed digits of a number below a million denote that number, also as a fraction.
pub proof fn lemma_six_digits(n: nat)
    requires
        n < 1_000_000,
    ensures
        all_digits(fixed_digits(n, 6)),
        fixed_digits(n, 6).len() == 6,
        decimal_value(fixed_digits(n, 6)) == n,
        fraction_value(fixed_digits(n, 6)) == n,
{
    lemma_fixed_digits(n, 6);
    lemma_fixed_digits(n / 10, 5);
    lemma_fixed_digits(n / 10 / 10, 4);
    lemma_fixed_digits(n / 10 / 10 / 10, 3);
    lemma_fixed_digits(n / 10 / 10 / 10 / 10, 2);
    lemma_fixed_digits(n / 10 / 10 / 10 / 10 / 10, 1);
    assert(fixed_digits(n / 10 / 10 / 10 / 10 / 10 / 10, 0) =~= Seq::<char>::empty());
    assert(six_places(fixed_digits(n, 6)) =~= fixed_digits(n, 6));
}

/// A rendered whole number parses back to itself.
pub proof fn lemma_int_round_trip(v: int, signed: bool, lo: int, hi: int)
    requires
        lo <= v <= hi,
        v < 0 ==> signed,
    ensures
        parse_int(render_int(v), signed, lo, hi) == Some(v),
        render_int(v).len() >= 1,
        forall|k: int|
            0 <= k < render_int(v).len() ==> is_digit(#[trigger] render_int(v)[k]) || render_int(
                v,
            )[k] == '-',
{
    let digits = decimal_digits(magnitude(v));
    lemma_decimal_digits(magnitude(v));
    let text = render_int(v);
    if v < 0 {
        assert(text[0] == '-');
        assert(text.drop_first() =~= digits);
        assert forall|k: int| 0 <= k < text.len() implies is_digit(#[trigger] text[k]) || text[k]
            == '-' by {
            if k > 0 {
                assert(text[k] == digits[k - 1]);
            }
        }
    } else {
        assert(text =~= digits);
        assert(is_digit(digits[0]));
    }
}

/// A rendered value in millionths parses back to itself.
pub proof fn lemma_micro_round_trip(v: int)
    ensures
        parse_micro(render_micro(v)) == Some(v),
        render_micro(v).len() >= 1,
        forall|k: int|
            0 <= k < render_micro(v).len() ==> is_digit(#[trigger] render_micro(v)[k])
                || render_micro(v)[k] == '-' || render_micro(v)[k] == '.',
{
    let m = magnitude(v);
    let whole = decimal_digits(m / (ONE as nat));
    let frac = fixed_digits(m % (ONE as nat), 6);
    lemma_decimal_digits(m / (ONE as nat));
    lemma_six_digits(m % (ONE as nat));
    let body = whole + seq!['.'] + frac;
    let text = render_micro(v);
    assert(body.len() == whole.len() + 7);
    assert forall|k: int| 0 <= k < body.len() implies is_digit(#[trigger] body[k]) || body[k]
        == '.' by {
        if k < whole.len() {
            assert(body[k] == whole[k]);
        } else if k > whole.len() {
            assert(body[k] == frac[k - whole.len() - 1]);
        }
    }
    assert(is_digit(whole[0]));
    assert(body[0] == whole[0]);
    assert forall|k: int| 0 <= k < whole.len() implies body[k] != '.' by {
        assert(body[k] == whole[k]);
        assert(is_digit(whole[k]));
    }
    assert(body[whole.len() as int] == '.');
    lemma_find(body, '.', whole.len() as int);
    assert(body.take(whole.len() as int) =~= whole);
    assert(body.skip(whole.len() as int + 1) =~= frac);
    if v < 0 {
        assert(text =~= seq!['-'] + body);
        assert(text[0] == '-');
        assert(text.drop_first() =~= body);
        assert forall|k: int| 0 <= k < text.len() implies is_digit(#[trigger] text[k]) || text[k]
            == '-' || text[k] == '.' by {
            if k > 0 {
                assert(text[k] == body[k - 1]);
            }
        }
    } else {
        assert(text =~= body);
    }
    assert(m == (m / (ONE as nat)) * ONE + m % (ONE as nat)) by (nonlinear_arith)
        requires
            ONE == 1_000_000,
    ;
}

/// Largest count that `read_digits` may be asked to tell apart.
pub const READ_LIMIT_MAX: i128 = 1_000_000_000_000_000_000_000_000_000;

/// Reads a run of digits: nothing if a character is no digit; else the
/// number it denotes where that is at most `limit`, or the mark that it is larger.
pub fn read_digits(s: &[char], limit: i128) -> (r: Option<(i128, bool)>)
    requires
        0 <= limit <= READ_LIMIT_MAX,
    ensures
        r is None <==> !all_digits(s@),
        r matches Some((value, over)) ==> (if over {
            decimal_value(s@) > limit
        } else {
            value == decimal_value(s@) && 0 <= value <= limit
        }),
{
    let mut acc: i128 = 0;
    let mut over: bool = false;
    let mut i: usize = 0;
    while i < s.len()
        invariant
            i <= s.len(),
            0 <= limit <= READ_LIMIT_MAX,
            all_digits(s@.take(i as int)),
            0 <= acc <= limit,
            over ==> decimal_value(s@.take(i as int)) > limit,
            !over ==> acc == decimal_value(s@.take(i as int)),
        decreases s.len() - i,
    {
        let u: u32 = s[i] as u32;
        if u < 0x30 || u > 0x39 {
            assert(!is_digit(s@[i as int]));
            return None;
        }
        let d: i128 = (u - 0x30) as i128;
        proof {
            let before = s@.take(i as int);
            assert(s@.take(i + 1) =~= before.push(s@[i as int]));
            lemma_decimal_push(before, s@[i as int]);
            lemma_decimal_value_sign(before);
            assert forall|k: int| 0 <= k < i + 1 implies is_digit(#[trigger] s@.take(i + 1)[k]) by {
                if k < i {
                    assert(s@.take(i + 1)[k] == before[k]);
                }
            }
        }
        if !over {
            let next: i128 = acc * 10 + d;
            if next > limit {
                over = true;
            } else {
                acc = next;
            }
        }
        i += 1;
    }
    assert(s@.take(i as int) =~= s@);
    Some((acc, over))
}

/// Ten to the power `k`.
pub open spec fn power_of_ten(k: nat) -> nat
    decreases k,
{
    if k == 0 {
        1
    } else {
        10 * power_of_ten((k - 1) as nat)
    }
}

/// Reads fractional digits as millionths; nothing if a character is no digit.
pub fn read_fraction(s: &[char]) -> (r: Option<i64>)
    ensures
        r is None <==> !all_digits(s@),
        r matches Some(v) ==> v == fraction_value(s@) && 0 <= v < ONE,
{
    if read_digits(s, 0).is_none() {
        return None;
    }
    let mut acc: i64 = 0;
    let mut bound: i64 = 1;
    let mut k: usize = 0;
    while k < 6
        invariant
            k <= 6,
            all_digits(s@),
            0 <= acc < bound,
            bound == power_of_ten(k as nat),
            acc == decimal_value(six_places(s@).take(k as int)),
        decreases 6 - k,
    {
        let c: char = if k < s.len() {
            s[k]
        } else {
            '0'
        };
        let u: u32 = c as u32;
        proof {
            reveal_with_fuel(power_of_ten, 8);
            let before = six_places(s@).take(k as int);
            assert(six_places(s@)[k as int] == c);
            assert(six_places(s@).take(k + 1) =~= before.push(c));
            lemma_decimal_push(before, c);
            if k < s.len() {
                assert(is_digit(s@[k as int]));
            }
        }
        acc = acc * 10 + (u - 0x30) as i64;
        bound = bound * 10;
        k += 1;
    }
    proof {
        reveal_with_fuel(power_of_ten, 8);
        assert(six_places(s@).take(6) =~= six_places(s@));
    }
    Some(acc)
}

/// Reads a whole number between `lo` and `hi`; see `parse_int`.
pub fn parse_int_text(s: &[char], signed: bool, lo: i64, hi: i64) -> (r: Option<i64>)
    ensures
        match parse_int(s@, signed, lo as int, hi as int) {
            Some(v) => r == Some(v as i64) && lo <= v <= hi,
            None => r is None,
        },
{
    let neg: bool = signed && s.len() > 0 && s[0] == '-';
    let plus: bool = s.len() > 0 && s[0] == '+';
    let body: &[char] = if neg || plus {
        slice_subrange(s, 1, s.len())
    } else {
        s
    };
    assert(body@ =~= unsigned_part(s@, signed));
    if body.len() == 0 {
        return None;
    }
    match read_digits(body, 0x8000_0000_0000_0000) {
        None => None,
        Some((value, over)) => {
            if over {
                None
            } else {
                let v: i128 = if neg {
                    -value
                } else {
                    value
                };
                if lo as i128 <= v && v <= hi as i128 {
                    Some(v as i64)
                } else {
                    None
                }
            }
        },
    }
}

/// Largest size of a bound that `parse_micro_text` takes: a million units.
pub const MICRO_BOUND_MAX: i64 = 1_000_000_000_000;

/// Reads a decimal numeral as millionths and moves the value into the range
/// from `lo` to `hi`; see `parse_micro`.
pub fn parse_micro_text(s: &[char], lo: i64, hi: i64) -> (r: Option<i64>)
    requires
        -MICRO_BOUND_MAX <= lo <= hi <= MICRO_BOUND_MAX,
    ensures
        match parse_micro(s@) {
            Some(v) => r == Some(clamp_int(v, lo as int, hi as int) as i64),
            None => r is None,
        },
{
    let neg: bool = s.len() > 0 && s[0] == '-';
    let plus: bool = s.len() > 0 && s[0] == '+';
    let body: &[char] = if neg || plus {
        slice_subrange(s, 1, s.len())
    } else {
        s
    };
    assert(body@ =~= unsigned_part(s@, true));
    let dot: usize = find_char(body, '.');
    let whole: &[char] = slice_subrange(body, 0, dot);
    let frac: &[char] = if dot < body.len() {
        slice_subrange(body, dot + 1, body.len())
    } else {
        slice_subrange(body, 0, 0)
    };
    assert(whole@ =~= body@.take(dot as int));
    assert(frac@ =~= after_point(body@));
    if whole.len() == 0 && frac.len() == 0 {
        return None;
    }
    let w = read_digits(whole, 10_000_000);
    let f = read_fraction(frac);
    match (w, f) {
        (Some((units, over)), Some(part)) => {
            let mag: i128 = if over {
                20_000_000_000_000
            } else {
                units * 1_000_000 + part as i128
            };
            let v: i128 = if neg {
                -mag
            } else {
                mag
            };
            Some(crate::micro::clamp_wide(v, lo, hi))
        },
        _ => None,
    }
}

fn digit_to_char(d: u64) -> (c: char)
    requires
        d < 10,
    ensures
        c == digit_char(d as int),
        is_digit(c),
{
    if d == 0 {
        '0'
    } else if d == 1 {
        '1'
    } else if d == 2 {
        '2'
    } else if d == 3 {
        '3'
    } else if d == 4 {
        '4'
    } else if d == 5 {
        '5'
    } else if d == 6 {
        '6'
    } else if d == 7 {
        '7'
    } else if d == 8 {
        '8'
    } else {
        '9'
    }
}

/// Appends the decimal digits of `n`.
pub fn push_decimal(out: &mut String, n: u128)
    ensures
        final(out)@ == old(out)@ + decimal_digits(n as nat),
    decreases n,
{
    if n >= 10 {
        push_decimal(out, n / 10);
    }
    out.push(digit_to_char((n % 10) as u64));
    proof {
        if n >= 10 {
            assert(final(out)@ =~= old(out)@ + decimal_digits(n as nat));
        } else {
            assert(final(out)@ =~= old(out)@ + decimal_digits(n as nat));
        }
    }
}

/// Appends the last `width` decimal digits of `n`, zeros leading.
pub fn push_fixed(out: &mut String, n: u64, width: usize)
    ensures
        final(out)@ == old(out)@ + fixed_digits(n as nat, width as nat),
    decreases width,
{
    if width == 0 {
        assert(old(out)@ + fixed_digits(n as nat, 0) =~= old(out)@);
        return ;
    }
    push_fixed(out, n / 10, width - 1);
    out.push(digit_to_char(n % 10));
    assert(final(out)@ =~= old(out)@ + fixed_digits(n as nat, width as nat));
}

fn magnitude_of(v: i64) -> (m: u64)
    ensures
        m == magnitude(v as int),
{
    if v < 0 {
        (-(v as i128)) as u64
    } else {
        v as u64
    }
}

/// Appends a whole number in decimal.
pub fn push_int(out: &mut String, v: i64)
    ensures
        final(out)@ == old(out)@ + render_int(v as int),
{
    if v < 0 {
        out.push('-');
    }
    push_decimal(out, magnitude_of(v) as u128);
    assert(final(out)@ =~= old(out)@ + render_int(v as int));
}

/// Appends a value in millionths as a decimal numeral with six fractional digits.
pub fn push_micro(out: &mut String, v: i64)
    ensures
        final(out)@ == old(out)@ + render_micro(v as int),
{
    if v < 0 {
        out.push('-');
    }
    let m: u64 = magnitude_of(v);
    push_decimal(out, (m / 1_000_000) as u128);
    out.push('.');
    push_fixed(out, m % 1_000_000, 6);
    assert(final(out)@ =~= old(out)@ + render_micro(v as int));
}

/// A value in millionths as a decimal numeral with `places` fractional
/// digits, none to six, rounded to the nearest, a tie going away from
/// zero. Without fractional digits there is no point either.
pub open spec fn render_places(v: int, places: nat) -> Seq<char> {
    let h = crate::micro::round_div(v, power_of_ten((6 - places) as nat) as int);
    if places == 0 {
        sign_text(h) + decimal_digits(magnitude(h))
    } else {
        sign_text(h) + decimal_digits(magnitude(h) / power_of_ten(places)) + seq!['.']
            + fixed_digits(magnitude(h) % power_of_ten(places), places)
    }
}

fn ten_to(k: usize) -> (r: u64)
    requires
        k <= 6,
    ensures
        r == power_of_ten(k as nat),
        1 <= r <= 1_000_000,
{
    proof {
        reveal_with_fuel(power_of_ten, 8);
    }
    if k == 0 {
        1
    } else if k == 1 {
        10
    } else if k == 2 {
        100
    } else if k == 3 {
        1_000
    } else if k == 4 {
        10_000
    } else if k == 5 {
        100_000
    } else {
        1_000_000
    }
}

/// Appends a value in millionths as a decimal numeral with `places` fractional digits.
pub fn push_places(out: &mut String, v: i64, places: usize)
    requires
        places <= 6,
    ensures
        final(out)@ == old(out)@ + render_places(v as int, places as nat),
{
    let cut: u64 = ten_to(6 - places);
    let unit: u64 = ten_to(places);
    let h: i128 = crate::micro::div_round(v as i128, cut as i128);
    proof {
        crate::micro::lemma_round_div_bounds(v as int, cut as int);
    }
    if h < 0 {
        out.push('-');
    }
    let m: u64 = magnitude_of(h as i64);
    if places == 0 {
        push_decimal(out, m as u128);
    } else {
        push_decimal(out, (m / unit) as u128);
        out.push('.');
        push_fixed(out, m % unit, places);
    }
    assert(final(out)@ =~= old(out)@ + render_places(v as int, places as nat));
}

/// A value in millionths as a decimal numeral with at most six fractional
/// digits: with `places` of them, or with six where more are asked for.
pub fn format_places(v: i64, places: usize) -> (s: String)
    ensures
        s@ == render_places(
            v as int,
            if places > 6 {
                6
            } else {
                places as nat
            },
        ),
{
    let mut out = String::new();
    push_places(
        &mut out,
        v,
        if places > 6 {
            6
        } else {
            places
        },
    );
    assert(Seq::<char>::empty() + out@ =~= out@);
    out
}

/// Whether `s` begins with `pat`.
pub open spec fn starts_with(s: Seq<char>, pat: Seq<char>) -> bool {
    pat.len() <= s.len() && s.take(pat.len() as int) == pat
}

/// Index at which `pat` first occurs in `s`, if it occurs.
pub open spec fn find_text(s: Seq<char>, pat: Seq<char>) -> Option<int>
    decreases s.len(),
{
    if starts_with(s, pat) {
        Some(0)
    } else if s.len() == 0 {
        None
    } else {
        match find_text(s.drop_first(), pat) {
            Some(at) => Some(at + 1),
            None => None,
        }
    }
}

/// `pat` occurs from `at` on where it occurs in what is left from `at` on.
pub proof fn lemma_find_text(s: Seq<char>, pat: Seq<char>, at: int)
    requires
        0 <= at <= s.len(),
        forall|k: int| 0 <= k < at ==> !starts_with(#[trigger] s.skip(k), pat),
    ensures
        find_text(s, pat) == (match find_text(s.skip(at), pat) {
            Some(i) => Some(i + at),
            None => None,
        }),
    decreases at,
{
    if at == 0 {
        assert(s.skip(0) =~= s);
    } else {
        assert(s.skip(0) =~= s);
        assert(!starts_with(s, pat));
        let rest = s.drop_first();
        assert forall|k: int| 0 <= k < at - 1 implies !starts_with(
            #[trigger] rest.skip(k),
            pat,
        ) by {
            assert(rest.skip(k) =~= s.skip(k + 1));
        }
        lemma_find_text(rest, pat, at - 1);
        assert(rest.skip(at - 1) =~= s.skip(at));
    }
}

fn begins_with(s: &[char], from: usize, pat: &[char]) -> (b: bool)
    requires
        from <= s.len(),
    ensures
        b == starts_with(s@.skip(from as int), pat@),
{
    if pat.len() > s.len() - from {
        return false;
    }
    let mut k: usize = 0;
    while k < pat.len()
        invariant
            k <= pat.len(),
            from <= s.len(),
            pat.len() <= s.len() - from,
            forall|j: int| 0 <= j < k ==> s@[from + j] == pat@[j],
        decreases pat.len() - k,
    {
        if s[from + k] != pat[k] {
            assert(s@.skip(from as int).take(pat@.len() as int)[k as int] != pat@[k as int]);
            return false;
        }
        k += 1;
    }
    assert(s@.skip(from as int).take(pat@.len() as int) =~= pat@);
    true
}

/// Finds where `pat` first occurs in `s`.
pub fn find_in(s: &[char], pat: &[char]) -> (r: Option<usize>)
    ensures
        match find_text(s@, pat@) {
            Some(at) => r == Some(at as usize) && 0 <= at && at + pat@.len() <= s@.len(),
            None => r is None,
        },
        r matches Some(i) ==> i + pat@.len() <= s@.len(),
{
    let mut i: usize = 0;
    loop
        invariant
            i <= s.len(),
            forall|k: int| 0 <= k < i ==> !starts_with(#[trigger] s@.skip(k), pat@),
        decreases s.len() - i,
    {
        proof {
            lemma_find_text(s@, pat@, i as int);
        }
        if begins_with(s, i, pat) {
            return Some(i);
        }
        if i == s.len() {
            assert(s@.skip(i as int).len() == 0);
            return None;
        }
        i += 1;
    }
}

/// The pieces of a text between occurrences of `sep`; a text without `sep` is one piece.
pub open spec fn pieces(s: Seq<char>, sep: char) -> Seq<Seq<char>>
    decreases s.len(),
{
    let at = find(s, sep);
    if 0 <= at < s.len() {
        seq![s.take(at)] + pieces(s.skip(at + 1), sep)
    } else {
        seq![s]
    }
}

/// The pieces of a text between occurrences of `sep`, each without white
/// space at its ends, the empty ones left out.
pub open spec fn trimmed_pieces(s: Seq<char>, sep: char) -> Seq<Seq<char>>
    decreases s.len(),
{
    let at = find(s, sep);
    let head = trim_of(s.take(at));
    let rest = if 0 <= at < s.len() {
        trimmed_pieces(s.skip(at + 1), sep)
    } else {
        Seq::empty()
    };
    if head.len() > 0 {
        seq![head] + rest
    } else {
        rest
    }
}

/// The texts of a run of strings.
pub open spec fn texts(v: Seq<String>) -> Seq<Seq<char>> {
    Seq::new(v.len(), |k: int| v[k]@)
}

/// The texts of a run of slices.
pub open spec fn slice_texts(v: Seq<&[char]>) -> Seq<Seq<char>> {
    Seq::new(v.len(), |k: int| v[k]@)
}

/// Splits a text at each occurrence of `sep`.
pub fn split_on<'a>(s: &'a [char], sep: char) -> (v: Vec<&'a [char]>)
    ensures
        slice_texts(v@) == pieces(s@, sep),
        v.len() >= 1,
{
    let mut v: Vec<&'a [char]> = Vec::new();
    let mut rest: &'a [char] = s;
    let mut more: bool = true;
    assert(slice_texts(v@) =~= Seq::<Seq<char>>::empty());
    while more
        invariant
            more ==> pieces(s@, sep) == slice_texts(v@) + pieces(rest@, sep),
            !more ==> pieces(s@, sep) == slice_texts(v@) && v.len() >= 1,
        decreases
            rest@.len() + if more {
                1int
            } else {
                0int
            },
    {
        let at = find_char(rest, sep);
        let ghost before = slice_texts(v@);
        if at < rest.len() {
            let head = slice_subrange(rest, 0, at);
            let after = slice_subrange(rest, at + 1, rest.len());
            assert(head@ =~= rest@.take(at as int));
            assert(after@ =~= rest@.skip(at + 1));
            v.push(head);
            assert(slice_texts(v@) =~= before + seq![head@]);
            assert(before + (seq![head@] + pieces(after@, sep)) =~= slice_texts(v@) + pieces(
                after@,
                sep,
            ));
            rest = after;
        } else {
            v.push(rest);
            assert(slice_texts(v@) =~= before + seq![rest@]);
            more = false;
        }
    }
    v
}

/// Splits a text at each occurrence of `sep`, trims the pieces and leaves out the empty ones.
pub fn split_trimmed(s: &[char], sep: char) -> (v: Vec<String>)
    ensures
        texts(v@) == trimmed_pieces(s@, sep),
{
    let mut v: Vec<String> = Vec::new();
    let mut rest: &[char] = s;
    let mut more: bool = true;
    assert(texts(v@) =~= Seq::<Seq<char>>::empty());
    while more
        invariant
            more ==> trimmed_pieces(s@, sep) == texts(v@) + trimmed_pieces(rest@, sep),
            !more ==> trimmed_pieces(s@, sep) == texts(v@),
        decreases
            rest@.len() + if more {
                1int
            } else {
                0int
            },
    {
        let at = find_char(rest, sep);
        let ghost before = texts(v@);
        let ghost here = rest@;
        let head = slice_subrange(rest, 0, at);
        assert(head@ =~= rest@.take(at as int));
        let piece = strip_slice(head, false);
        let ghost tail = if at < rest.len() {
            trimmed_pieces(here.skip(at + 1), sep)
        } else {
            Seq::<Seq<char>>::empty()
        };
        if piece.len() > 0 {
            v.push(string_of(piece));
            assert(texts(v@) =~= before + seq![piece@]);
            assert(before + (seq![piece@] + tail) =~= texts(v@) + tail);
        }
        if at < rest.len() {
            let after = slice_subrange(rest, at + 1, rest.len());
            assert(after@ =~= rest@.skip(at + 1));
            rest = after;
        } else {
            assert(texts(v@) + tail =~= texts(v@));
            more = false;
        }
    }
    v
}

} // verus!
