//! What is remembered of each device across runs.

use crate::micro::{clamp_wide, div_round, mul_wide, round_div, saturate};
use crate::text::{
    chars_of, parse_int, parse_int_text, parse_micro, parse_micro_text, pieces, push_decimal,
    push_places, push_text, decimal_digits, render_places, slice_texts, split_on, string_of,
    strip_slice, trim_of, find, find_char, MICRO_BOUND_MAX,
};
use crate::micro::clamp_int;
use vstd::prelude::*;
use vstd::slice::slice_subrange;

verus! {

/// Running means of a device's sessions; all but the count are in millionths.
#[derive(Clone, Copy, Debug, PartialEq, Eq, Structural)]
pub struct DeviceMemory {
    pub avg_pace: i64,
    pub avg_pause: i64,
    pub avg_articulation: i64,
    pub avg_drift: i64,
    pub avg_res: i64,
    pub sessions: u32,
}

impl Default for DeviceMemory {
    fn default() -> (m: DeviceMemory)
        ensures
            m == (DeviceMemory {
                avg_pace: 0,
                avg_pause: 0,
                avg_articulation: 0,
                avg_drift: 0,
                avg_res: 0,
                sessions: 0,
            }),
    {
        DeviceMemory {
            avg_pace: 0,
            avg_pause: 0,
            avg_articulation: 0,
            avg_drift: 0,
            avg_res: 0,
            sessions: 0,
        }
    }
}

/// One device by name and what is remembered of it.
#[derive(Debug)]
pub struct DeviceEntry {
    pub device: String,
    pub memory: DeviceMemory,
}

/// The devices that are remembered, each once, in the order in which they were first seen.
#[derive(Debug)]
pub struct DeviceMemoryStore {
    pub path: String,
    pub data: Vec<DeviceEntry>,
}

/// The entries of a store as names and memories.
pub open spec fn entries(data: Seq<DeviceEntry>) -> Seq<(Seq<char>, DeviceMemory)> {
    Seq::new(data.len(), |k: int| (data[k].device@, data[k].memory))
}

/// Index of the first entry of a device, or the number of entries where there is none.
pub open spec fn index_of(data: Seq<(Seq<char>, DeviceMemory)>, device: Seq<char>) -> int
    decreases data.len(),
{
    if data.len() == 0 || data[0].0 == device {
        0
    } else {
        1 + index_of(data.drop_first(), device)
    }
}

/// The entries with the memory of a device set: in place if the device is known, at the end if not.
pub open spec fn with_entry(
    data: Seq<(Seq<char>, DeviceMemory)>,
    device: Seq<char>,
    memory: DeviceMemory,
) -> Seq<(Seq<char>, DeviceMemory)> {
    let at = index_of(data, device);
    if 0 <= at < data.len() {
        data.update(at, (device, memory))
    } else {
        data.push((device, memory))
    }
}

/// What is remembered of a device, if anything.
pub open spec fn lookup(data: Seq<(Seq<char>, DeviceMemory)>, device: Seq<char>) -> Option<
    DeviceMemory,
> {
    let at = index_of(data, device);
    if 0 <= at < data.len() {
        Some(data[at].1)
    } else {
        None
    }
}

/// A field of a memory line as millionths, kept within a million units.
pub open spec fn mean_field(s: Seq<char>) -> Option<int> {
    match parse_micro(s) {
        Some(v) => Some(clamp_int(v, -MICRO_BOUND_MAX as int, MICRO_BOUND_MAX as int)),
        None => None,
    }
}

/// The entry that a line denotes: seven fields between bars, the name first,
/// then five decimal numerals and the count of sessions.
pub open spec fn entry_of_line(line: Seq<char>) -> Option<(Seq<char>, DeviceMemory)> {
    let parts = pieces(line, '|');
    if parts.len() != 7 {
        None
    } else {
        match (
            mean_field(parts[1]),
            mean_field(parts[2]),
            mean_field(parts[3]),
            mean_field(parts[4]),
            mean_field(parts[5]),
            parse_int(parts[6], false, 0, u32::MAX as int),
        ) {
            (Some(pace), Some(pause), Some(art), Some(drift), Some(res), Some(n)) => Some(
                (
                    parts[0],
                    DeviceMemory {
                        avg_pace: pace as i64,
                        avg_pause: pause as i64,
                        avg_articulation: art as i64,
                        avg_drift: drift as i64,
                        avg_res: res as i64,
                        sessions: n as u32,
                    },
                ),
            ),
            _ => None,
        }
    }
}

/// The entries after the lines of a text: each line that denotes an entry
/// sets the memory of its device; blank and other lines are skipped.
pub open spec fn loaded(data: Seq<(Seq<char>, DeviceMemory)>, text: Seq<char>) -> Seq<
    (Seq<char>, DeviceMemory),
>
    decreases text.len(),
{
    let end = find(text, '\n');
    let line = text.take(end);
    let next = if trim_of(line).len() == 0 {
        data
    } else {
        match entry_of_line(line) {
            Some(e) => with_entry(data, e.0, e.1),
            None => data,
        }
    };
    if 0 <= end < text.len() {
        loaded(next, text.skip(end + 1))
    } else {
        next
    }
}

/// A running mean after one more value: `(mean * (n - 1) + x) / n`.
pub open spec fn mean_after(mean: int, x: int, n: int) -> int {
    saturate(round_div(mean * (n - 1) + x, n))
}

/// The count of sessions after one more; it stops at its largest value.
pub open spec fn sessions_after(n: u32) -> u32 {
    if n < u32::MAX {
        (n + 1) as u32
    } else {
        n
    }
}

/// A memory after one more session.
pub open spec fn remembered(m: DeviceMemory, pace: int, pause: int, art: int, drift: int, res: int) -> DeviceMemory {
    let n = sessions_after(m.sessions);
    DeviceMemory {
        sessions: n,
        avg_pace: mean_after(m.avg_pace as int, pace, n as int) as i64,
        avg_pause: mean_after(m.avg_pause as int, pause, n as int) as i64,
        avg_articulation: mean_after(m.avg_articulation as int, art, n as int) as i64,
        avg_drift: mean_after(m.avg_drift as int, drift, n as int) as i64,
        avg_res: mean_after(m.avg_res as int, res, n as int) as i64,
    }
}

/// An entry as a line of the memory file, with its line end.
pub open spec fn line_of(device: Seq<char>, m: DeviceMemory) -> Seq<char> {
    device + seq!['|'] + render_places(m.avg_pace as int, 3) + seq!['|'] + render_places(
        m.avg_pause as int,
        1,
    ) + seq!['|'] + render_places(m.avg_articulation as int, 3) + seq!['|'] + render_places(
        m.avg_drift as int,
        3,
    ) + seq!['|'] + render_places(m.avg_res as int, 3) + seq!['|'] + decimal_digits(
        m.sessions as nat,
    ) + seq!['\n']
}

/// The entries as the text of the memory file.
pub open spec fn text_of(data: Seq<(Seq<char>, DeviceMemory)>) -> Seq<char>
    decreases data.len(),
{
    if data.len() == 0 {
        Seq::empty()
    } else {
        text_of(data.drop_last()) + line_of(data.last().0, data.last().1)
    }
}

fn mean_text(s: &[char]) -> (r: Option<i64>)
    ensures
        match mean_field(s@) {
            Some(v) => r == Some(v as i64),
            None => r is None,
        },
{
    parse_micro_text(s, -MICRO_BOUND_MAX, MICRO_BOUND_MAX)
}

/// The entry that a line of the memory file denotes; see `entry_of_line`.
pub fn parse_line(line: &[char]) -> (r: Option<DeviceEntry>)
    ensures
        match entry_of_line(line@) {
            Some(e) => r matches Some(found) && found.device@ == e.0 && found.memory == e.1,
            None => r is None,
        },
{
    let parts = split_on(line, '|');
    if parts.len() != 7 {
        return None;
    }
    proof {
        let p = pieces(line@, '|');
        assert(p == slice_texts(parts@));
        assert(p[0] == parts@[0]@);
        assert(p[1] == parts@[1]@);
        assert(p[2] == parts@[2]@);
        assert(p[3] == parts@[3]@);
        assert(p[4] == parts@[4]@);
        assert(p[5] == parts@[5]@);
        assert(p[6] == parts@[6]@);
    }
    let pace = mean_text(parts[1]);
    let pause = mean_text(parts[2]);
    let art = mean_text(parts[3]);
    let drift = mean_text(parts[4]);
    let res = mean_text(parts[5]);
    let sessions = parse_int_text(parts[6], false, 0, 0xFFFF_FFFF);
    match (pace, pause, art, drift, res, sessions) {
        (Some(a), Some(b), Some(c), Some(d), Some(e), Some(n)) => Some(
            DeviceEntry {
                device: string_of(parts[0]),
                memory: DeviceMemory {
                    avg_pace: a,
                    avg_pause: b,
                    avg_articulation: c,
                    avg_drift: d,
                    avg_res: e,
                    sessions: n as u32,
                },
            },
        ),
        _ => None,
    }
}

/// Index of the first entry of a device is where no earlier entry has its name and this one does.
pub proof fn lemma_index_of(data: Seq<(Seq<char>, DeviceMemory)>, device: Seq<char>, at: int)
    requires
        0 <= at <= data.len(),
        forall|k: int| 0 <= k < at ==> data[k].0 != device,
        at < data.len() ==> data[at].0 == device,
    ensures
        index_of(data, device) == at,
    decreases data.len(),
{
    if data.len() != 0 && data[0].0 != device {
        let rest = data.drop_first();
        assert forall|k: int| 0 <= k < at - 1 implies rest[k].0 != device by {
            assert(rest[k] == data[k + 1]);
        }
        lemma_index_of(rest, device, at - 1);
    }
}

fn average(mean: i64, x: i64, n: u32) -> (r: i64)
    requires
        n >= 1,
    ensures
        r == mean_after(mean as int, x as int, n as int),
{
    let total: i128 = mul_wide(mean, (n - 1) as i64) + x as i128;
    clamp_wide(div_round(total, n as i128), i64::MIN, i64::MAX)
}

fn remember(m: &DeviceMemory, pace: i64, pause: i64, art: i64, drift: i64, res: i64) -> (r:
    DeviceMemory)
    ensures
        r == remembered(*m, pace as int, pause as int, art as int, drift as int, res as int),
{
    let n: u32 = if m.sessions < u32::MAX {
        m.sessions + 1
    } else {
        m.sessions
    };
    DeviceMemory {
        sessions: n,
        avg_pace: average(m.avg_pace, pace, n),
        avg_pause: average(m.avg_pause, pause, n),
        avg_articulation: average(m.avg_articulation, art, n),
        avg_drift: average(m.avg_drift, drift, n),
        avg_res: average(m.avg_res, res, n),
    }
}

impl Default for DeviceMemoryStore {
    fn default() -> (s: DeviceMemoryStore)
        ensures
            s.path@.len() == 0,
            s.data@.len() == 0,
    {
        DeviceMemoryStore { path: String::new(), data: Vec::new() }
    }
}

impl DeviceMemoryStore {
    fn locate(&self, device: &String) -> (at: usize)
        ensures
            at == index_of(entries(self.data@), device@),
            at <= self.data.len(),
    {
        let mut i: usize = 0;
        while i < self.data.len() && !(self.data[i].device == *device)
            invariant
                i <= self.data.len(),
                forall|k: int| 0 <= k < i ==> entries(self.data@)[k].0 != device@,
            decreases self.data.len() - i,
        {
            i += 1;
        }
        proof {
            lemma_index_of(entries(self.data@), device@, i as int);
        }
        i
    }

    fn set(&mut self, device: String, memory: DeviceMemory)
        ensures
            final(self).path == old(self).path,
            entries(final(self).data@) == with_entry(entries(old(self).data@), device@, memory),
    {
        let at = self.locate(&device);
        let ghost before = entries(self.data@);
        if at < self.data.len() {
            self.data[at] = DeviceEntry { device, memory };
            assert(entries(self.data@) =~= before.update(at as int, (device@, memory)));
        } else {
            self.data.push(DeviceEntry { device, memory });
            assert(entries(self.data@) =~= before.push((device@, memory)));
        }
    }

    /// A store for the file at `path`, filled from the text of that file.
    pub fn load(path: &str, contents: &str) -> (s: DeviceMemoryStore)
        ensures
            s.path@ == path@,
            entries(s.data@) == loaded(Seq::empty(), contents@),
    {
        let mut store = DeviceMemoryStore { path: path.to_owned(), data: Vec::new() };
        let chars = chars_of(contents);
        let mut rest: &[char] = chars.as_slice();
        let mut more: bool = true;
        assert(entries(store.data@) =~= Seq::<(Seq<char>, DeviceMemory)>::empty());
        while more
            invariant
                store.path@ == path@,
                more ==> loaded(Seq::empty(), contents@) == loaded(entries(store.data@), rest@),
                !more ==> loaded(Seq::empty(), contents@) == entries(store.data@),
            decreases
                rest@.len() + if more {
                    1int
                } else {
                    0int
                },
        {
            let end = find_char(rest, '\n');
            let line = slice_subrange(rest, 0, end);
            assert(line@ =~= rest@.take(end as int));
            if strip_slice(line, false).len() != 0 {
                match parse_line(line) {
                    Some(e) => {
                        store.set(e.device, e.memory);
                    },
                    None => {},
                }
            }
            if end < rest.len() {
                let after = slice_subrange(rest, end + 1, rest.len());
                assert(after@ =~= rest@.skip(end + 1));
                rest = after;
            } else {
                more = false;
            }
        }
        store
    }

    /// Takes in one more session of a device.
    pub fn update(&mut self, device: &str, pace: i64, pause: i64, art: i64, drift: i64, res: i64)
        ensures
            final(self).path == old(self).path,
            entries(final(self).data@) == with_entry(
                entries(old(self).data@),
                device@,
                remembered(
                    match lookup(entries(old(self).data@), device@) {
                        Some(m) => m,
                        None => DeviceMemory {
                            avg_pace: 0,
                            avg_pause: 0,
                            avg_articulation: 0,
                            avg_drift: 0,
                            avg_res: 0,
                            sessions: 0,
                        },
                    },
                    pace as int,
                    pause as int,
                    art as int,
                    drift as int,
                    res as int,
                ),
            ),
    {
        let name: String = device.to_owned();
        let at = self.locate(&name);
        let old_memory = if at < self.data.len() {
            self.data[at].memory
        } else {
            DeviceMemory::default()
        };
        let memory = remember(&old_memory, pace, pause, art, drift, res);
        self.set(name, memory);
    }

    /// The text of the memory file for what the store holds.
    pub fn save(&self) -> (text: String)
        ensures
            text@ == text_of(entries(self.data@)),
    {
        let mut out = String::new();
        let mut i: usize = 0;
        assert(entries(self.data@).take(0) =~= Seq::<(Seq<char>, DeviceMemory)>::empty());
        while i < self.data.len()
            invariant
                i <= self.data.len(),
                out@ == text_of(entries(self.data@).take(i as int)),
            decreases self.data.len() - i,
        {
            let ghost before = out@;
            let ghost all = entries(self.data@);
            proof {
                assert(all.take(i + 1).drop_last() =~= all.take(i as int));
                assert(all.take(i + 1).last() == all[i as int]);
            }
            let m = self.data[i].memory;
            push_text(&mut out, self.data[i].device.as_str());
            out.push('|');
            push_places(&mut out, m.avg_pace, 3);
            out.push('|');
            push_places(&mut out, m.avg_pause, 1);
            out.push('|');
            push_places(&mut out, m.avg_articulation, 3);
            out.push('|');
            push_places(&mut out, m.avg_drift, 3);
            out.push('|');
            push_places(&mut out, m.avg_res, 3);
            out.push('|');
            push_decimal(&mut out, m.sessions as u128);
            out.push('\n');
            assert(out@ =~= before + line_of(all[i as int].0, all[i as int].1));
            i += 1;
        }
        assert(entries(self.data@).take(i as int) =~= entries(self.data@));
        out
    }
}

/// What the store remembers of a device, if anything.
pub fn suggest_profile(store: &DeviceMemoryStore, device: &str) -> (m: Option<DeviceMemory>)
    ensures
        m == lookup(entries(store.data@), device@),
{
    let name: String = device.to_owned();
    let at = store.locate(&name);
    if at < store.data.len() {
        Some(store.data[at].memory)
    } else {
        None
    }
}

} // verus!
