//! The utterances of a run.

use crate::config::{optional_view, Config};
use crate::text::{chars_of, split_trimmed, texts, trimmed_pieces};
use vstd::prelude::*;

verus! {

/// The utterance of a turn for which no input is given.
pub fn default_utterance() -> (s: &'static str)
    ensures
        s@ == "hello liminal"@,
{
    "hello liminal"
}

/// The number of turns that are run: at least one.
pub open spec fn turns(cycles: int) -> int {
    if cycles < 1 {
        1
    } else {
        cycles
    }
}

/// The utterances of a run: the lines of the inputs file, trimmed, if it
/// has any; else the parts of the script between semicolons, trimmed, if it
/// has any; else the default utterance once for each turn.
pub open spec fn inputs_of(
    contents: Option<Seq<char>>,
    script: Option<Seq<char>>,
    cycles: int,
) -> Seq<Seq<char>> {
    if contents is Some && trimmed_pieces(contents->0, '\n').len() > 0 {
        trimmed_pieces(contents->0, '\n')
    } else if script is Some && trimmed_pieces(script->0, ';').len() > 0 {
        trimmed_pieces(script->0, ';')
    } else {
        Seq::new(turns(cycles) as nat, |k: int| "hello liminal"@)
    }
}

/// The views of an optional text.
pub open spec fn text_of(s: Option<&str>) -> Option<Seq<char>> {
    match s {
        Some(t) => Some(t@),
        None => None,
    }
}

/// The utterances of a run, from the text of the inputs file if it could be
/// read, the script if one is set, and the number of turns.
pub fn inputs_from(contents: Option<&str>, script: Option<&str>, cycles: usize) -> (items: Vec<
    String,
>)
    ensures
        texts(items@) == inputs_of(text_of(contents), text_of(script), cycles as int),
        items.len() >= 1,
{
    match contents {
        Some(text) => {
            let chars = chars_of(text);
            let lines = split_trimmed(chars.as_slice(), '\n');
            if lines.len() > 0 {
                return lines;
            }
        },
        None => {},
    }
    match script {
        Some(text) => {
            let chars = chars_of(text);
            let parts = split_trimmed(chars.as_slice(), ';');
            if parts.len() > 0 {
                return parts;
            }
        },
        None => {},
    }
    let n: usize = if cycles < 1 {
        1
    } else {
        cycles
    };
    let mut items: Vec<String> = Vec::new();
    let mut i: usize = 0;
    while i < n
        invariant
            i <= n,
            items.len() == i,
            forall|k: int| 0 <= k < i ==> items@[k]@ == "hello liminal"@,
        decreases n - i,
    {
        items.push(default_utterance().to_owned());
        i += 1;
    }
    assert(texts(items@) =~= Seq::new(n as nat, |k: int| "hello liminal"@));
    items
}

/// The utterances of a run for a configuration, given the text of its
/// inputs file if that file is set and could be read.
pub fn load_inputs(cfg: &Config, contents: Option<&str>) -> (items: Vec<String>)
    ensures
        texts(items@) == inputs_of(text_of(contents), optional_view(cfg.script), cfg.cycles as int),
        items.len() >= 1,
{
    match &cfg.script {
        Some(script) => inputs_from(contents, Some(script.as_str()), cfg.cycles),
        None => inputs_from(contents, None, cfg.cycles),
    }
}

/// Fills the utterances of a run up to the number of its turns with the
/// default utterance; a run with more utterances than turns keeps them all.
pub fn fill_turns(items: &mut Vec<String>, cycles: usize)
    ensures
        final(items)@.len() == if old(items)@.len() < cycles {
            cycles as int
        } else {
            old(items)@.len() as int
        },
        forall|k: int| 0 <= k < old(items)@.len() ==> final(items)@[k] == old(items)@[k],
        forall|k: int|
            old(items)@.len() <= k < final(items)@.len() ==> (#[trigger] final(items)@[k])@
                == "hello liminal"@,
{
    while items.len() < cycles
        invariant
            old(items)@.len() <= items@.len(),
            items@.len() <= cycles || items@.len() == old(items)@.len(),
            forall|k: int| 0 <= k < old(items)@.len() ==> items@[k] == old(items)@[k],
            forall|k: int|
                old(items)@.len() <= k < items@.len() ==> (#[trigger] items@[k])@
                    == "hello liminal"@,
        decreases cycles - items.len(),
    {
        items.push(default_utterance().to_owned());
    }
}

} // verus!
