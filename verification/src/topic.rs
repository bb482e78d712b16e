//! Topic keys: a fixed-length name for a normalised utterance and its tone.

use crate::prosody::ToneTag;
use crate::text::{char_is_space, chars_of, is_space, push_text};
use crate::utils::{halves, hash_of, hash_text, high_half, low_half};
use vstd::prelude::*;

verus! {

/// The words of a text with one space between them: white space is
/// dropped, and a word's first character gets one space before it unless
/// nothing stands before it yet.
pub open spec fn squeeze(s: Seq<char>) -> Seq<char>
    decreases s.len(),
{
    if s.len() == 0 {
        Seq::empty()
    } else {
        let before = squeeze(s.drop_last());
        if is_space(s.last()) {
            before
        } else if before.len() > 0 && s.len() >= 2 && is_space(s[s.len() - 2]) {
            before + seq![' ', s.last()]
        } else {
            before.push(s.last())
        }
    }
}

/// The name of a tone as it enters a topic key.
pub open spec fn tone_name(tone: ToneTag) -> Seq<char> {
    match tone {
        ToneTag::Neutral => "neutral"@,
        ToneTag::Calm => "calm"@,
        ToneTag::Energetic => "energetic"@,
    }
}

/// What is hashed for a topic key: the squeezed text, a bar, the tone's name.
pub open spec fn topic_seed(normalized: Seq<char>, tone: ToneTag) -> Seq<char> {
    squeeze(normalized) + seq!['|'] + tone_name(tone)
}

/// `p / d` rounded to the nearest whole number, a tie going to the even one.
pub open spec fn nearest_even(p: nat, d: nat) -> nat {
    let q = p / d;
    let r = p % d;
    if 2 * r > d || (2 * r == d && q % 2 == 1) {
        q + 1
    } else {
        q
    }
}

/// The scaled value of `n1 * 16 / d` for `n1` with its top bit at place 15.
/// The quotient by 65535 is rounded to 24 significant bits, the product
/// with 1048575 again, and what results to the nearest whole number.
#[verifier::opaque]
pub open spec fn scale_core(n1: nat, d: nat) -> nat {
    let m = (n1 * 0x200_0000 + 65535) / 131070;
    let p = m * 1048575;
    if p >= 0x800_0000_0000 {
        (2 * nearest_even(p, 0x10_0000) + d) / (2 * d)
    } else {
        (nearest_even(p, 0x8_0000) + d) / (2 * d)
    }
}

/// `scale_core` after `n1` has been doubled, with `d`, until its top bit is at place 15.
pub open spec fn scale_norm(n1: nat, d: nat) -> nat
    decreases
        (if n1 < 32768 {
            32768 - n1
        } else {
            0
        }),
{
    if n1 == 0 {
        scale_core(n1, d)
    } else if n1 >= 32768 {
        scale_core(n1, d)
    } else {
        scale_norm(2 * n1, 2 * d)
    }
}

/// A sixteen-bit value scaled to twenty bits by the rule of
/// single-precision arithmetic: `n / 65535 * 1048575`, each step rounded
/// to 24 significant bits, the result rounded to a whole number.
pub open spec fn scale20(n: nat) -> nat {
    if n == 0 {
        0
    } else {
        scale_norm(n, 16)
    }
}

/// The hexadecimal digit of a number below sixteen, in lowercase.
pub open spec fn hex_char(d: int) -> char {
    if d < 10 {
        (0x30 + d) as char
    } else {
        (0x57 + d) as char
    }
}

/// The last `width` hexadecimal digits of a number, zeros leading.
pub open spec fn fixed_hex(n: nat, width: nat) -> Seq<char>
    decreases width,
{
    if width == 0 {
        Seq::empty()
    } else {
        fixed_hex(n / 16, (width - 1) as nat).push(hex_char((n % 16) as int))
    }
}

/// The key that belongs to a hash: a prefix and five hexadecimal digits for
/// each scaled half.
pub open spec fn key_text(h: u64) -> Seq<char> {
    "astro-"@ + fixed_hex(scale20(low_half(h) as nat), 5) + fixed_hex(
        scale20(high_half(h) as nat),
        5,
    )
}

/// The topic key of a normalised text and a tone.
pub open spec fn topic_key_of(normalized: Seq<char>, tone: ToneTag) -> Seq<char> {
    key_text(hash_text(topic_seed(normalized, tone)))
}

/// Fixed-width hexadecimal digits are as many as asked for.
pub proof fn lemma_fixed_hex(n: nat, width: nat)
    ensures
        fixed_hex(n, width).len() == width,
    decreases width,
{
    if width > 0 {
        lemma_fixed_hex(n / 16, (width - 1) as nat);
    }
}

/// A topic key has sixteen characters.
pub proof fn lemma_key_text_length(h: u64)
    ensures
        key_text(h).len() == 16,
{
    reveal_strlit("astro-");
    lemma_fixed_hex(scale20(low_half(h) as nat), 5);
    lemma_fixed_hex(scale20(high_half(h) as nat), 5);
}

fn round_even(p: u64, d: u64) -> (r: u64)
    requires
        d > 0,
        p < 0x1000_0000_0000,
    ensures
        r == nearest_even(p as nat, d as nat),
{
    let q: u64 = p / d;
    let m: u64 = p % d;
    if m > d - m || (m == d - m && q % 2 == 1) {
        q + 1
    } else {
        q
    }
}

/// Scales a sixteen-bit value to twenty bits; see `scale20`.
pub fn scale_to_20(n: u64) -> (r: u64)
    requires
        n <= 0xFFFF,
    ensures
        r == scale20(n as nat),
        r <= 0xF_FFFF,
{
    if n == 0 {
        return 0;
    }
    let mut n1: u64 = n;
    let mut d: u64 = 16;
    while n1 < 32768
        invariant
            1 <= n1 <= 0xFFFF,
            16 <= d <= 16 * n1,
            scale20(n as nat) == scale_norm(n1 as nat, d as nat),
        decreases 0x1_0000 - n1,
    {
        assert(scale_norm(n1 as nat, d as nat) == scale_norm(2 * (n1 as nat), 2 * (d as nat)));
        n1 = n1 * 2;
        d = d * 2;
    }
    assert(scale_norm(n1 as nat, d as nat) == scale_core(n1 as nat, d as nat));
    let m: u64 = (n1 * 0x200_0000 + 65535) / 131070;
    let p: u64 = m * 1048575;
    proof {
        reveal(scale_core);
    }
    if p >= 0x800_0000_0000 {
        let big: u64 = round_even(p, 0x10_0000);
        assert((2 * big + d) / (2 * d as int) <= 0xF_FFFF) by (nonlinear_arith)
            requires
                big <= 16777200,
                d >= 16,
        ;
        (2 * big + d) / (2 * d)
    } else {
        let big: u64 = round_even(p, 0x8_0000);
        assert((big + d) / (2 * d as int) <= 0xF_FFFF) by (nonlinear_arith)
            requires
                big <= 0x100_0000,
                d >= 16,
        ;
        (big + d) / (2 * d)
    }
}

fn hex_digit(d: u64) -> (c: char)
    requires
        d < 16,
    ensures
        c == hex_char(d as int),
{
    if d == 0 {
        '0'
    } else if d == 1 {
        '1'
    } else if d == 2 {
        '2'
    } else if d == 3 {
        '3'
    } else if d == 4 {
        '4'
    } else if d == 5 {
        '5'
    } else if d == 6 {
        '6'
    } else if d == 7 {
        '7'
    } else if d == 8 {
        '8'
    } else if d == 9 {
        '9'
    } else if d == 10 {
        'a'
    } else if d == 11 {
        'b'
    } else if d == 12 {
        'c'
    } else if d == 13 {
        'd'
    } else if d == 14 {
        'e'
    } else {
        'f'
    }
}

/// Appends the last `width` hexadecimal digits of `n`, zeros leading.
pub fn push_hex(out: &mut String, n: u128, width: usize)
    ensures
        final(out)@ == old(out)@ + fixed_hex(n as nat, width as nat),
    decreases width,
{
    if width == 0 {
        assert(old(out)@ + fixed_hex(n as nat, 0) =~= old(out)@);
        return ;
    }
    push_hex(out, n / 16, width - 1);
    out.push(hex_digit((n % 16) as u64));
    assert(final(out)@ =~= old(out)@ + fixed_hex(n as nat, width as nat));
}

/// The key that belongs to a hash.
pub fn key_of_hash(h: u64) -> (key: String)
    ensures
        key@ == key_text(h),
{
    let (a, b) = halves(h);
    let mut key = String::new();
    push_text(&mut key, "astro-");
    push_hex(&mut key, scale_to_20(a) as u128, 5);
    push_hex(&mut key, scale_to_20(b) as u128, 5);
    assert(key@ =~= key_text(h));
    key
}

/// Appends the words of `text` with one space between them.
pub fn push_squeezed(out: &mut String, text: &[char])
    requires
        old(out)@.len() == 0,
    ensures
        final(out)@ == squeeze(text@),
{
    let mut i: usize = 0;
    assert(text@.take(0) =~= Seq::<char>::empty());
    while i < text.len()
        invariant
            i <= text.len(),
            out@ == squeeze(text@.take(i as int)),
        decreases text.len() - i,
    {
        let c: char = text[i];
        let ghost upto = text@.take(i + 1);
        proof {
            assert(upto.drop_last() =~= text@.take(i as int));
            assert(upto.last() == c);
            if i >= 1 {
                assert(upto[upto.len() - 2] == text@[i - 1]);
            }
        }
        if !char_is_space(c) {
            if !out.as_str().is_empty() && i >= 1 && char_is_space(text[i - 1]) {
                out.push(' ');
                out.push(c);
                assert(out@ =~= squeeze(text@.take(i as int)) + seq![' ', c]);
            } else {
                out.push(c);
            }
        }
        i += 1;
    }
    assert(text@.take(i as int) =~= text@);
}

/// The topic key of a text that is already normalised, and a tone.
pub fn key_for(normalized: &str, tone: ToneTag) -> (key: String)
    ensures
        key@ == topic_key_of(normalized@, tone),
        key@.len() == 16,
{
    proof {
        lemma_key_text_length(hash_text(topic_seed(normalized@, tone)));
    }
    let chars = chars_of(normalized);
    let mut seed = String::new();
    push_squeezed(&mut seed, chars.as_slice());
    seed.push('|');
    match tone {
        ToneTag::Neutral => push_text(&mut seed, "neutral"),
        ToneTag::Calm => push_text(&mut seed, "calm"),
        ToneTag::Energetic => push_text(&mut seed, "energetic"),
    }
    assert(seed@ =~= topic_seed(normalized@, tone));
    key_of_hash(hash_of(seed.as_str()))
}

} // verus!
