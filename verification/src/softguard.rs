//! Soft guard: a warning or a calmer wording when a response drifts.

use crate::text::{chars_of, push_places, push_text, render_places, strip_slice, trim_of};
use vstd::prelude::*;

verus! {

/// Limits of the guard, in millionths.
#[derive(Debug, Clone, Copy, PartialEq, Eq, Structural)]
pub struct GuardConfig {
    pub drift_limit: i64,
    pub res_limit: i64,
    pub rephrase_factor: i64,
}

/// What the guard did.
#[derive(Debug, Clone)]
pub enum GuardAction {
    Pass,
    Warn(String),
    Rephrased(String),
}

/// What the guard does, as a mathematical value.
pub enum GuardView {
    Pass,
    Warn(Seq<char>),
    Rephrased(Seq<char>),
}

impl View for GuardAction {
    type V = GuardView;

    open spec fn view(&self) -> GuardView {
        match self {
            GuardAction::Pass => GuardView::Pass,
            GuardAction::Warn(s) => GuardView::Warn(s@),
            GuardAction::Rephrased(s) => GuardView::Rephrased(s@),
        }
    }
}

impl Default for GuardConfig {
    fn default() -> (c: GuardConfig)
        ensures
            c == (GuardConfig { drift_limit: 400_000, res_limit: 600_000, rephrase_factor: 200_000 }),
    {
        GuardConfig { drift_limit: 400_000, res_limit: 600_000, rephrase_factor: 200_000 }
    }
}

/// A text with a full stop in place of each exclamation mark.
pub open spec fn calmed(s: Seq<char>) -> Seq<char> {
    Seq::new(
        s.len(),
        |k: int|
            if s[k] == '!' {
                '.'
            } else {
                s[k]
            },
    )
}

/// A text with each pair of blanks, taken from the left, made one blank.
pub open spec fn halved_blanks(s: Seq<char>) -> Seq<char>
    decreases s.len(),
{
    if s.len() == 0 {
        Seq::empty()
    } else if s.len() >= 2 && s[0] == ' ' && s[1] == ' ' {
        seq![' '] + halved_blanks(s.skip(2))
    } else {
        seq![s[0]] + halved_blanks(s.drop_first())
    }
}

/// The calmer wording of a text.
pub open spec fn rephrased(text: Seq<char>) -> Seq<char> {
    halved_blanks(calmed(trim_of(text))) + " [recentered]"@
}

/// The warning for a drift.
pub open spec fn warning(drift: int) -> Seq<char> {
    "[soft-guard] high drift "@ + render_places(drift, 2) + " \u{2192} adjusting tone"@
}

/// What the guard does for a response: nothing while drift is within its
/// limit; a warning where drift is over the limit and resonance holds; a
/// calmer wording where drift is over the limit and resonance is under its limit.
pub open spec fn guarded(text: Seq<char>, drift: int, res: int, cfg: GuardConfig) -> GuardView {
    if drift <= cfg.drift_limit {
        GuardView::Pass
    } else if res >= cfg.res_limit {
        GuardView::Warn(warning(drift))
    } else {
        GuardView::Rephrased(rephrased(text))
    }
}

fn push_halved(out: &mut String, s: &[char])
    requires
        old(out)@.len() == 0,
    ensures
        final(out)@ == halved_blanks(s@),
{
    let mut i: usize = 0;
    assert(s@.skip(0) =~= s@);
    while i < s.len()
        invariant
            i <= s.len(),
            halved_blanks(s@) == out@ + halved_blanks(s@.skip(i as int)),
        decreases s.len() - i,
    {
        let ghost rest = s@.skip(i as int);
        let ghost before = out@;
        let c: char = s[i];
        assert(rest[0] == c);
        if c == ' ' && i + 1 < s.len() && s[i + 1] == ' ' {
            assert(rest[1] == ' ');
            out.push(' ');
            i += 2;
            proof {
                assert(rest.skip(2) =~= s@.skip(i as int));
                assert(out@ + halved_blanks(s@.skip(i as int)) =~= before + (seq![' ']
                    + halved_blanks(rest.skip(2))));
            }
        } else {
            proof {
                if rest.len() >= 2 {
                    assert(rest[1] == s@[i + 1]);
                }
            }
            out.push(c);
            i += 1;
            proof {
                assert(rest.drop_first() =~= s@.skip(i as int));
                assert(out@ + halved_blanks(s@.skip(i as int)) =~= before + (seq![c]
                    + halved_blanks(rest.drop_first())));
            }
        }
    }
    assert(out@ + halved_blanks(s@.skip(i as int)) =~= out@);
}

/// Checks a response against the guard's limits.
pub fn check_and_rephrase(text: &str, drift: i64, res: i64, cfg: &GuardConfig) -> (action:
    GuardAction)
    ensures
        action@ == guarded(text@, drift as int, res as int, *cfg),
{
    if drift <= cfg.drift_limit {
        return GuardAction::Pass;
    }
    if res >= cfg.res_limit {
        let mut msg = String::new();
        push_text(&mut msg, "[soft-guard] high drift ");
        push_places(&mut msg, drift, 2);
        push_text(&mut msg, " \u{2192} adjusting tone");
        assert(msg@ =~= warning(drift as int));
        return GuardAction::Warn(msg);
    }
    let chars = chars_of(text);
    let trimmed = strip_slice(chars.as_slice(), false);
    let mut calm: Vec<char> = Vec::new();
    let mut i: usize = 0;
    while i < trimmed.len()
        invariant
            i <= trimmed.len(),
            calm@ == calmed(trimmed@).take(i as int),
        decreases trimmed.len() - i,
    {
        let c: char = trimmed[i];
        calm.push(
            if c == '!' {
                '.'
            } else {
                c
            },
        );
        i += 1;
        assert(calm@ =~= calmed(trimmed@).take(i as int));
    }
    assert(calmed(trimmed@).take(i as int) =~= calmed(trimmed@));
    let mut out = String::new();
    push_halved(&mut out, calm.as_slice());
    push_text(&mut out, " [recentered]");
    GuardAction::Rephrased(out)
}

} // verus!
