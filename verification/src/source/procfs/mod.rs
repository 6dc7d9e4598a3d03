//! Linux procfs sampling: record parsers and the process tracker that turns
//! successive samples into lifecycle, CPU and I/O events.
use vstd::prelude::*;

pub mod live;
pub mod tracker;

pub use live::{LiveProcSource, ProcRead, ProcSourceError};
pub use tracker::{ProcSample, ProcStats, ProcTracker};

use crate::parse::{
    all_digits, first_index_of, lemma_first_index_of, lines_of, parse_unsigned, parse_unsigned_exec,
    split_lines, split_once_colon, strip_prefix_chars, trim_chars, trim_text, words, words_of,
};
use crate::text::{bounded_text, bounded_text_exec, chars_of, starts_with, string_from_range};

verus! {

/// Default sampling period.
pub const DEFAULT_SAMPLE_INTERVAL_MS: u64 = 250;

/// Processes read per sample; more are counted as refused.
pub const MAX_SCANNED_PROCESSES: usize = 8_192;

/// Processes remembered between samples.
pub const MAX_TRACKED_PROCESSES: usize = 4_096;

/// Events produced per sample.
pub const MAX_EVENTS_PER_SAMPLE: usize = 8_192;

/// Characters of a command name that are kept.
pub const MAX_COMM_CHARS: usize = 64;

/// Largest I/O delta reported as one event.
pub const MAX_DELTA_BYTES: u64 = 64 * 1024 * 1024;

/// One process as read from `/proc/<pid>`.
#[derive(Clone, Debug, PartialEq, Eq)]
pub struct ProcessSample {
    pub pid: u32,
    pub comm: String,
    pub cpu_ticks: u64,
    pub start_ticks: u64,
    pub read_bytes: Option<u64>,
    pub write_bytes: Option<u64>,
}

/// Host CPU counters from `/proc/stat`.
#[derive(Clone, Copy, Debug, PartialEq, Eq, Structural)]
pub struct ProcStat {
    pub total_cpu_ticks: u64,
    pub idle_cpu_ticks: u64,
    pub procs_running: u32,
}

/// Host memory from `/proc/meminfo`.
#[derive(Clone, Copy, Debug, PartialEq, Eq, Structural)]
pub struct MemorySample {
    pub total_kib: u64,
    pub available_kib: u64,
}

/// Why a procfs record is refused.
#[derive(Clone, Copy, Debug, PartialEq, Eq)]
pub enum ProcParseError {
    MissingField(&'static str),
    InvalidNumber,
    Overflow,
    MalformedProcessStat,
}

/// The kind of a parse error, with the missing field's name.
pub open spec fn missing(e: ProcParseError, name: Seq<char>) -> bool {
    e matches ProcParseError::MissingField(f) && f@ == name
}

/// Index of the first line starting with `prefix`, or `lines.len()`.
pub open spec fn first_line_with(lines: Seq<Seq<char>>, prefix: Seq<char>) -> int
    decreases lines.len(),
{
    if lines.len() == 0 {
        0
    } else if starts_with(lines[0], prefix) {
        0
    } else {
        1 + first_line_with(lines.drop_first(), prefix)
    }
}

proof fn lemma_first_line_with(lines: Seq<Seq<char>>, prefix: Seq<char>, i: int)
    requires
        0 <= i <= lines.len(),
        forall|j: int| 0 <= j < i ==> !starts_with(#[trigger] lines[j], prefix),
        i < lines.len() ==> starts_with(lines[i], prefix),
    ensures
        first_line_with(lines, prefix) == i,
    decreases lines.len(),
{
    if lines.len() > 0 && i > 0 {
        assert forall|j: int| 0 <= j < i - 1 implies !starts_with(
            #[trigger] lines.drop_first()[j],
            prefix,
        ) by {
            assert(lines.drop_first()[j] == lines[j + 1]);
        }
        lemma_first_line_with(lines.drop_first(), prefix, i - 1);
    }
}

/// Every word is a `u64`.
pub open spec fn all_u64(ws: Seq<Seq<char>>) -> bool {
    forall|j: int| 0 <= j < ws.len() ==> parse_unsigned(#[trigger] ws[j], u64::MAX as nat) is Some
}

/// The values of words that are all `u64`.
pub open spec fn u64_values(ws: Seq<Seq<char>>) -> Seq<nat> {
    Seq::new(ws.len(), |j: int| parse_unsigned(ws[j], u64::MAX as nat).unwrap())
}

/// Sum of a sequence of naturals.
pub open spec fn nat_sum(s: Seq<nat>) -> nat
    decreases s.len(),
{
    if s.len() == 0 {
        0
    } else {
        nat_sum(s.drop_last()) + s.last()
    }
}

/// The outcome of parsing `/proc/stat`: the first line starting `cpu `
/// gives the CPU counters (their sum, and idle plus iowait), the first line
/// starting `procs_running ` the runnable task count.
pub open spec fn proc_stat_result(input: Seq<char>) -> Result<ProcStat, ProcParseError> {
    let ls = split_lines(input);
    let c = first_line_with(ls, "cpu "@);
    let p = first_line_with(ls, "procs_running "@);
    if c >= ls.len() {
        Err(ProcParseError::MissingField("cpu"))
    } else if !all_u64(words(ls[c]).drop_first()) {
        Err(ProcParseError::InvalidNumber)
    } else {
        let values = u64_values(words(ls[c]).drop_first());
        if values.len() < 4 {
            Err(ProcParseError::MissingField("cpu counters"))
        } else if nat_sum(values) > u64::MAX {
            Err(ProcParseError::Overflow)
        } else if p >= ls.len() {
            Err(ProcParseError::MissingField("procs_running"))
        } else if parse_unsigned(ls[p].subrange(14, ls[p].len() as int), u32::MAX as nat) is None {
            Err(ProcParseError::InvalidNumber)
        } else {
            let iowait = if values.len() > 4 { values[4] } else { 0 };
            Ok(ProcStat {
                total_cpu_ticks: nat_sum(values) as u64,
                idle_cpu_ticks: if values[3] + iowait > u64::MAX { u64::MAX } else { (values[3]
                    + iowait) as u64 },
                procs_running: parse_unsigned(
                    ls[p].subrange(14, ls[p].len() as int),
                    u32::MAX as nat,
                ).unwrap() as u32,
            })
        }
    }
}

fn find_line(lines: &Vec<Vec<char>>, prefix: &str) -> (r: usize)
    ensures
        r < lines.len() ==> starts_with(lines@[r as int]@, prefix@),
        r == first_line_with(lines@.map_values(|l: Vec<char>| l@), prefix@),
        r <= lines.len(),
{
    let ghost ls = lines@.map_values(|l: Vec<char>| l@);
    let mut i: usize = 0;
    while i < lines.len()
        invariant
            i <= lines.len(),
            ls == lines@.map_values(|l: Vec<char>| l@),
            forall|j: int| 0 <= j < i ==> !starts_with(#[trigger] ls[j], prefix@),
        decreases lines.len() - i,
    {
        match strip_prefix_chars(&lines[i], prefix) {
            Some(_) => {
                proof {
                    lemma_first_line_with(ls, prefix@, i as int);
                }
                return i;
            },
            None => {},
        }
        i = i + 1;
    }
    proof {
        lemma_first_line_with(ls, prefix@, i as int);
    }
    i
}

/// Parses every word as a `u64`, or reports the first that is not one.
fn parse_all_u64(ws: &Vec<Vec<char>>, from: usize) -> (r: Option<Vec<u64>>)
    requires
        from <= ws.len(),
    ensures
        all_u64(ws@.map_values(|w: Vec<char>| w@).subrange(from as int, ws@.len() as int)) ==> (r matches Some(
            v,
        ) && v@.map_values(|x: u64| x as nat) == u64_values(
            ws@.map_values(|w: Vec<char>| w@).subrange(from as int, ws@.len() as int),
        )),
        !all_u64(ws@.map_values(|w: Vec<char>| w@).subrange(from as int, ws@.len() as int)) ==> r is None,
{
    let ghost all = ws@.map_values(|w: Vec<char>| w@).subrange(from as int, ws@.len() as int);
    let mut out: Vec<u64> = Vec::new();
    let mut i = from;
    while i < ws.len()
        invariant
            from <= i <= ws.len(),
            all == ws@.map_values(|w: Vec<char>| w@).subrange(from as int, ws@.len() as int),
            out@.len() == i - from,
            forall|j: int| 0 <= j < i - from ==> parse_unsigned(#[trigger] all[j], u64::MAX as nat) is Some,
            forall|j: int| 0 <= j < i - from ==> out@[j] as nat == parse_unsigned(#[trigger] all[j], u64::MAX as nat).unwrap(),
        decreases ws.len() - i,
    {
        match parse_unsigned_exec(&ws[i], u64::MAX) {
            Some(v) => {
                out.push(v);
            },
            None => {
                assert(all[i - from] == ws@[i as int]@);
                return None;
            },
        }
        i = i + 1;
    }
    assert(out@.map_values(|x: u64| x as nat) =~= u64_values(all));
    Some(out)
}

/// Sums with overflow detection.
fn checked_total(values: &Vec<u64>) -> (r: Option<u64>)
    ensures
        nat_sum(values@.map_values(|x: u64| x as nat)) <= u64::MAX ==> r == Some(
            nat_sum(values@.map_values(|x: u64| x as nat)) as u64,
        ),
        nat_sum(values@.map_values(|x: u64| x as nat)) > u64::MAX ==> r is None,
{
    let ghost vs = values@.map_values(|x: u64| x as nat);
    let mut total: u64 = 0;
    let mut i: usize = 0;
    while i < values.len()
        invariant
            i <= values.len(),
            vs == values@.map_values(|x: u64| x as nat),
            total as nat == nat_sum(vs.subrange(0, i as int)),
        decreases values.len() - i,
    {
        proof {
            assert(vs.subrange(0, i + 1).drop_last() =~= vs.subrange(0, i as int));
        }
        match total.checked_add(values[i]) {
            Some(t) => total = t,
            None => {
                proof {
                    lemma_sum_prefix_monotone(vs, i + 1);
                }
                return None;
            },
        }
        i = i + 1;
    }
    assert(vs.subrange(0, i as int) =~= vs);
    Some(total)
}

proof fn lemma_sum_prefix_monotone(s: Seq<nat>, k: int)
    requires
        0 <= k <= s.len(),
    ensures
        nat_sum(s.subrange(0, k)) <= nat_sum(s),
    decreases s.len() - k,
{
    if k < s.len() {
        lemma_sum_prefix_monotone(s, k + 1);
        assert(s.subrange(0, k + 1).drop_last() =~= s.subrange(0, k));
    } else {
        assert(s.subrange(0, k) =~= s);
    }
}

/// Parses `/proc/stat`.
pub fn parse_proc_stat(input: &str) -> (r: Result<ProcStat, ProcParseError>)
    ensures
        r == proc_stat_result(input@),
{
    let chars = chars_of(input);
    let lines = lines_of(&chars);
    let ghost ls = lines@.map_values(|l: Vec<char>| l@);
    let c = find_line(&lines, "cpu ");
    if c >= lines.len() {
        return Err(ProcParseError::MissingField("cpu"));
    }
    let ws = words_of(&lines[c]);
    proof {
        reveal_strlit("cpu ");
        assert(ls[c as int] == lines@[c as int]@);
        assert(starts_with(ls[c as int], "cpu "@));
        assert(ls[c as int].subrange(0, 4)[0] == ls[c as int][0]);
        assert(ls[c as int][0] == 'c');
        crate::parse::lemma_words_first(ls[c as int]);
        if ws@.len() > 0 {
            assert(ws@.map_values(|w: Vec<char>| w@).subrange(1, ws@.len() as int) =~= words(
                ls[c as int],
            ).drop_first());
        }
    }
    if ws.len() == 0 {
        proof {
            assert(words(ls[c as int]) =~= ws@.map_values(|w: Vec<char>| w@));
        }
        return Err(ProcParseError::MissingField("cpu"));
    }
    let values = match parse_all_u64(&ws, 1) {
        Some(v) => v,
        None => return Err(ProcParseError::InvalidNumber),
    };
    if values.len() < 4 {
        return Err(ProcParseError::MissingField("cpu counters"));
    }
    let total = match checked_total(&values) {
        Some(t) => t,
        None => return Err(ProcParseError::Overflow),
    };
    let iowait = if values.len() > 4 { values[4] } else { 0 };
    let idle = values[3].saturating_add(iowait);
    let p = find_line(&lines, "procs_running ");
    if p >= lines.len() {
        return Err(ProcParseError::MissingField("procs_running"));
    }
    let rest = match strip_prefix_chars(&lines[p], "procs_running ") {
        Some(rest) => rest,
        None => return Err(ProcParseError::MissingField("procs_running")),
    };
    proof {
        reveal_strlit("procs_running ");
        assert(ls[p as int] == lines@[p as int]@);
    }
    let running = match parse_unsigned_exec(&rest, 0xffff_ffff) {
        Some(v) => v as u32,
        None => return Err(ProcParseError::InvalidNumber),
    };
    proof {
        assert(values@.map_values(|x: u64| x as nat) == u64_values(words(ls[c as int]).drop_first()));
        assert(values@.map_values(|x: u64| x as nat)[3] == values@[3] as nat);
        if values@.len() > 4 {
            assert(values@.map_values(|x: u64| x as nat)[4] == values@[4] as nat);
        }
    }
    Ok(ProcStat { total_cpu_ticks: total, idle_cpu_ticks: idle, procs_running: running })
}

/// Index of the last `c` in `s`, or -1.
pub open spec fn last_index_of(s: Seq<char>, c: char) -> int
    decreases s.len(),
{
    if s.len() == 0 {
        -1
    } else if s.last() == c {
        s.len() - 1
    } else {
        last_index_of(s.drop_last(), c)
    }
}

proof fn lemma_last_index_of(s: Seq<char>, c: char, i: int)
    requires
        -1 <= i < s.len(),
        forall|j: int| i < j < s.len() ==> s[j] != c,
        i >= 0 ==> s[i] == c,
    ensures
        last_index_of(s, c) == i,
    decreases s.len(),
{
    if s.len() > 0 && i < s.len() - 1 {
        lemma_last_index_of(s.drop_last(), c, i);
    }
}

/// The outcome of parsing `/proc/<pid>/stat`: the pid before the first
/// `(`, the command between it and the last `)` (without control
/// characters, at most 64 characters), and from the words after it the
/// user and system ticks (words 11 and 12) and the start time (word 19).
pub open spec fn process_stat_ok(r: Result<ProcessSample, ProcParseError>, input: Seq<char>) -> bool {
    let open = first_index_of(input, '(');
    let close = last_index_of(input, ')');
    if open >= input.len() || close <= open {
        r == Err::<ProcessSample, ProcParseError>(ProcParseError::MalformedProcessStat)
    } else if parse_unsigned(trim_text(input.subrange(0, open)), u32::MAX as nat) is None {
        r == Err::<ProcessSample, ProcParseError>(ProcParseError::InvalidNumber)
    } else {
        let tail = words(input.subrange(close + 1, input.len() as int));
        let user = parse_unsigned(tail[11], u64::MAX as nat);
        let system = parse_unsigned(tail[12], u64::MAX as nat);
        let start = parse_unsigned(tail[19], u64::MAX as nat);
        if tail.len() <= 19 {
            r is Err && missing(r->Err_0, "process stat counters"@)
        } else if user is None || system is None {
            r == Err::<ProcessSample, ProcParseError>(ProcParseError::InvalidNumber)
        } else if user.unwrap() + system.unwrap() > u64::MAX {
            r == Err::<ProcessSample, ProcParseError>(ProcParseError::Overflow)
        } else if start is None {
            r == Err::<ProcessSample, ProcParseError>(ProcParseError::InvalidNumber)
        } else {
            r matches Ok(p) && p.pid == parse_unsigned(
                trim_text(input.subrange(0, open)),
                u32::MAX as nat,
            ).unwrap() && p.comm@ == bounded_text(input.subrange(open + 1, close), MAX_COMM_CHARS as nat)
                && p.cpu_ticks == user.unwrap() + system.unwrap() && p.start_ticks == start.unwrap()
                && p.read_bytes is None && p.write_bytes is None
        }
    }
}

fn slice_chars(v: &Vec<char>, from: usize, to: usize) -> (out: Vec<char>)
    requires
        from <= to <= v.len(),
    ensures
        out@ == v@.subrange(from as int, to as int),
{
    let mut out: Vec<char> = Vec::new();
    let mut i = from;
    while i < to
        invariant
            from <= i <= to <= v.len(),
            out@ == v@.subrange(from as int, i as int),
        decreases to - i,
    {
        out.push(v[i]);
        i = i + 1;
        assert(out@ =~= v@.subrange(from as int, i as int));
    }
    out
}

/// Parses `/proc/<pid>/stat`, tolerating parentheses and spaces in the
/// command name.
pub fn parse_process_stat(input: &str) -> (r: Result<ProcessSample, ProcParseError>)
    ensures
        process_stat_ok(r, input@),
{
    let chars = chars_of(input);
    let mut open: usize = 0;
    while open < chars.len() && chars[open] != '('
        invariant
            open <= chars.len(),
            chars@ == input@,
            forall|j: int| 0 <= j < open ==> chars@[j] != '(',
        decreases chars.len() - open,
    {
        open = open + 1;
    }
    proof {
        crate::parse::lemma_first_index_unique(input@, '(', open as int);
    }
    if open >= chars.len() {
        return Err(ProcParseError::MalformedProcessStat);
    }
    let mut close: usize = chars.len();
    while close > 0 && chars[close - 1] != ')'
        invariant
            close <= chars.len(),
            chars@ == input@,
            forall|j: int| close <= j < chars.len() ==> chars@[j] != ')',
        decreases close,
    {
        close = close - 1;
    }
    proof {
        lemma_last_index_of(input@, ')', close - 1);
    }
    if close == 0 || close - 1 <= open {
        return Err(ProcParseError::MalformedProcessStat);
    }
    let close = close - 1;
    let head = slice_chars(&chars, 0, open);
    let pid = match parse_unsigned_exec(&trim_chars(&head), 0xffff_ffff) {
        Some(v) => v as u32,
        None => return Err(ProcParseError::InvalidNumber),
    };
    let name = string_from_range(&chars, open + 1, close);
    let comm = bounded_text_exec(name.as_str(), MAX_COMM_CHARS);
    let after = slice_chars(&chars, close + 1, chars.len());
    let tail = words_of(&after);
    let ghost t = tail@.map_values(|w: Vec<char>| w@);
    if tail.len() <= 19 {
        return Err(ProcParseError::MissingField("process stat counters"));
    }
    proof {
        assert(t[11] == tail@[11]@);
        assert(t[12] == tail@[12]@);
        assert(t[19] == tail@[19]@);
    }
    let user = match parse_unsigned_exec(&tail[11], u64::MAX) {
        Some(v) => v,
        None => return Err(ProcParseError::InvalidNumber),
    };
    let system = match parse_unsigned_exec(&tail[12], u64::MAX) {
        Some(v) => v,
        None => return Err(ProcParseError::InvalidNumber),
    };
    let cpu_ticks = match user.checked_add(system) {
        Some(v) => v,
        None => return Err(ProcParseError::Overflow),
    };
    let start_ticks = match parse_unsigned_exec(&tail[19], u64::MAX) {
        Some(v) => v,
        None => return Err(ProcParseError::InvalidNumber),
    };
    Ok(ProcessSample { pid, comm, cpu_ticks, start_ticks, read_bytes: None, write_bytes: None })
}

/// The `name:value` pairs of the lines of a text (lines without a colon
/// are skipped).
pub open spec fn colon_pairs(lines: Seq<Seq<char>>) -> Seq<(Seq<char>, Seq<char>)>
    decreases lines.len(),
{
    if lines.len() == 0 {
        Seq::empty()
    } else {
        let rest = colon_pairs(lines.drop_last());
        let l = lines.last();
        let i = first_index_of(l, ':');
        if i < l.len() {
            rest.push((l.subrange(0, i), l.subrange(i + 1, l.len() as int)))
        } else {
            rest
        }
    }
}

fn colon_pairs_of(lines: &Vec<Vec<char>>) -> (out: Vec<(Vec<char>, Vec<char>)>)
    ensures
        out@.map_values(|p: (Vec<char>, Vec<char>)| (p.0@, p.1@)) == colon_pairs(
            lines@.map_values(|l: Vec<char>| l@),
        ),
{
    let ghost ls = lines@.map_values(|l: Vec<char>| l@);
    let mut out: Vec<(Vec<char>, Vec<char>)> = Vec::new();
    let mut i: usize = 0;
    while i < lines.len()
        invariant
            i <= lines.len(),
            ls == lines@.map_values(|l: Vec<char>| l@),
            out@.map_values(|p: (Vec<char>, Vec<char>)| (p.0@, p.1@)) == colon_pairs(
                ls.subrange(0, i as int),
            ),
        decreases lines.len() - i,
    {
        proof {
            assert(ls.subrange(0, i + 1).drop_last() =~= ls.subrange(0, i as int));
            assert(ls.subrange(0, i + 1).last() == lines@[i as int]@);
        }
        let ghost before = out@.map_values(|p: (Vec<char>, Vec<char>)| (p.0@, p.1@));
        match split_once_colon(&lines[i]) {
            Some(pair) => {
                out.push(pair);
                assert(out@.map_values(|p: (Vec<char>, Vec<char>)| (p.0@, p.1@)) =~= colon_pairs(
                    ls.subrange(0, i + 1),
                ));
            },
            None => {},
        }
        i = i + 1;
    }
    assert(ls.subrange(0, i as int) =~= ls);
    out
}

/// Index of the last pair whose (possibly trimmed) name is `key`, or -1.
pub open spec fn last_named(pairs: Seq<(Seq<char>, Seq<char>)>, key: Seq<char>, trimmed: bool) -> int
    decreases pairs.len(),
{
    if pairs.len() == 0 {
        -1
    } else if (if trimmed { trim_text(pairs.last().0) } else { pairs.last().0 }) == key {
        pairs.len() - 1
    } else {
        last_named(pairs.drop_last(), key, trimmed)
    }
}

/// The value text of an I/O counter line: the trimmed text after the colon.
pub open spec fn io_value(pair: (Seq<char>, Seq<char>)) -> Option<nat> {
    parse_unsigned(trim_text(pair.1), u64::MAX as nat)
}

/// The outcome of parsing `/proc/<pid>/io`: every `name: value` line must
/// hold a number; the last `read_bytes` and `write_bytes` are returned.
pub open spec fn process_io_result(input: Seq<char>) -> Result<(u64, u64), ProcParseError> {
    let pairs = colon_pairs(split_lines(input));
    let r = last_named(pairs, "read_bytes"@, true);
    let w = last_named(pairs, "write_bytes"@, true);
    if exists|j: int| 0 <= j < pairs.len() && io_value(#[trigger] pairs[j]) is None {
        Err(ProcParseError::InvalidNumber)
    } else if r < 0 {
        Err(ProcParseError::MissingField("read_bytes"))
    } else if w < 0 {
        Err(ProcParseError::MissingField("write_bytes"))
    } else {
        Ok((io_value(pairs[r]).unwrap() as u64, io_value(pairs[w]).unwrap() as u64))
    }
}

/// The value of a meminfo line: the first word after the colon.
pub open spec fn meminfo_value(pair: (Seq<char>, Seq<char>)) -> Option<nat> {
    if words(pair.1).len() == 0 {
        None
    } else {
        parse_unsigned(words(pair.1)[0], u64::MAX as nat)
    }
}

/// The outcome of parsing `/proc/meminfo`: every `name: value` line must
/// start its value with a number; the last `MemTotal` and `MemAvailable`
/// are returned.
pub open spec fn meminfo_result(input: Seq<char>) -> Result<MemorySample, ProcParseError> {
    let pairs = colon_pairs(split_lines(input));
    let t = last_named(pairs, "MemTotal"@, false);
    let a = last_named(pairs, "MemAvailable"@, false);
    if exists|j: int| 0 <= j < pairs.len() && meminfo_value(#[trigger] pairs[j]) is None {
        Err(ProcParseError::InvalidNumber)
    } else if t < 0 {
        Err(ProcParseError::MissingField("MemTotal"))
    } else if a < 0 {
        Err(ProcParseError::MissingField("MemAvailable"))
    } else {
        Ok(MemorySample {
            total_kib: meminfo_value(pairs[t]).unwrap() as u64,
            available_kib: meminfo_value(pairs[a]).unwrap() as u64,
        })
    }
}

/// Parsed `name: value` entries: the name (trimmed or not) and the number.
fn parse_entries(pairs: &Vec<(Vec<char>, Vec<char>)>, meminfo: bool) -> (r: Option<Vec<(Vec<char>, u64)>>)
    ensures
        ({
            let ps = pairs@.map_values(|p: (Vec<char>, Vec<char>)| (p.0@, p.1@));
            let ok = forall|j: int| 0 <= j < ps.len() ==> (if meminfo { meminfo_value(#[trigger] ps[j]) } else { io_value(ps[j]) }) is Some;
            &&& ok ==> (r matches Some(v) && v@.len() == ps.len() && forall|j: int| 0 <= j < ps.len() ==> {
                &&& (#[trigger] v@[j]).0@ == (if meminfo { ps[j].0 } else { trim_text(ps[j].0) })
                &&& v@[j].1 as nat == (if meminfo { meminfo_value(ps[j]) } else { io_value(ps[j]) }).unwrap()
            })
            &&& !ok ==> r is None
        }),
{
    let ghost ps = pairs@.map_values(|p: (Vec<char>, Vec<char>)| (p.0@, p.1@));
    let mut out: Vec<(Vec<char>, u64)> = Vec::new();
    let mut i: usize = 0;
    while i < pairs.len()
        invariant
            i <= pairs.len(),
            ps == pairs@.map_values(|p: (Vec<char>, Vec<char>)| (p.0@, p.1@)),
            out@.len() == i,
            forall|j: int| 0 <= j < i ==> (if meminfo { meminfo_value(#[trigger] ps[j]) } else { io_value(ps[j]) }) is Some,
            forall|j: int| 0 <= j < i ==> {
                &&& (#[trigger] out@[j]).0@ == (if meminfo { ps[j].0 } else { trim_text(ps[j].0) })
                &&& out@[j].1 as nat == (if meminfo { meminfo_value(ps[j]) } else { io_value(ps[j]) }).unwrap()
            },
        decreases pairs.len() - i,
    {
        let ghost p = ps[i as int];
        assert(p == (pairs@[i as int].0@, pairs@[i as int].1@));
        let value = if meminfo {
            let ws = words_of(&pairs[i].1);
            if ws.len() == 0 {
                None
            } else {
                assert(ws@[0]@ == ws@.map_values(|w: Vec<char>| w@)[0]);
                parse_unsigned_exec(&ws[0], u64::MAX)
            }
        } else {
            parse_unsigned_exec(&trim_chars(&pairs[i].1), u64::MAX)
        };
        match value {
            Some(v) => {
                let name = if meminfo {
                    slice_chars(&pairs[i].0, 0, pairs[i].0.len())
                } else {
                    trim_chars(&pairs[i].0)
                };
                assert(pairs@[i as int].0@.subrange(0, pairs@[i as int].0@.len() as int) =~= pairs@[i as int].0@);
                out.push((name, v));
            },
            None => {
                return None;
            },
        }
        i = i + 1;
    }
    Some(out)
}

/// The value of the last entry named `key`.
fn last_value(entries: &Vec<(Vec<char>, u64)>, key: &str) -> (r: Option<u64>)
    ensures
        match r {
            Some(v) => exists|j: int| 0 <= j < entries@.len() && entries@[j].0@ == key@ && entries@[j].1 == v
                && forall|k: int| j < k < entries@.len() ==> entries@[k].0@ != key@,
            None => forall|k: int| 0 <= k < entries@.len() ==> entries@[k].0@ != key@,
        },
{
    let mut i = entries.len();
    while i > 0
        invariant
            i <= entries.len(),
            forall|k: int| i <= k < entries@.len() ==> entries@[k].0@ != key@,
        decreases i,
    {
        i = i - 1;
        if crate::parse::chars_eq_str(&entries[i].0, key) {
            return Some(entries[i].1);
        }
    }
    None
}

proof fn lemma_last_named(pairs: Seq<(Seq<char>, Seq<char>)>, key: Seq<char>, trimmed: bool, j: int)
    requires
        -1 <= j < pairs.len(),
        j >= 0 ==> (if trimmed { trim_text(pairs[j].0) } else { pairs[j].0 }) == key,
        forall|k: int| j < k < pairs.len() ==> (if trimmed { trim_text(pairs[k].0) } else { pairs[k].0 }) != key,
    ensures
        last_named(pairs, key, trimmed) == j,
    decreases pairs.len(),
{
    if pairs.len() > 0 && j < pairs.len() - 1 {
        lemma_last_named(pairs.drop_last(), key, trimmed, j);
    }
}

proof fn lemma_lookup(
    entries: Seq<(Vec<char>, u64)>,
    ps: Seq<(Seq<char>, Seq<char>)>,
    key: Seq<char>,
    trimmed: bool,
    j: int,
)
    requires
        entries.len() == ps.len(),
        forall|k: int| 0 <= k < ps.len() ==> (#[trigger] entries[k]).0@ == (if trimmed { trim_text(ps[k].0) } else { ps[k].0 }),
        -1 <= j < ps.len(),
        j >= 0 ==> entries[j].0@ == key,
        forall|k: int| j < k < entries.len() ==> entries[k].0@ != key,
    ensures
        last_named(ps, key, trimmed) == j,
{
    assert forall|k: int| j < k < ps.len() implies (if trimmed { trim_text(ps[k].0) } else { ps[k].0 }) != key by {
        assert(entries[k].0@ != key);
    }
    if j >= 0 {
        assert(entries[j].0@ == key);
    }
    lemma_last_named(ps, key, trimmed, j);
}

/// Parses `/proc/<pid>/io` into read and write byte counters.
pub fn parse_process_io(input: &str) -> (r: Result<(u64, u64), ProcParseError>)
    ensures
        r == process_io_result(input@),
{
    let chars = chars_of(input);
    let lines = lines_of(&chars);
    let pairs = colon_pairs_of(&lines);
    let ghost ps = pairs@.map_values(|p: (Vec<char>, Vec<char>)| (p.0@, p.1@));
    let entries = match parse_entries(&pairs, false) {
        Some(e) => e,
        None => return Err(ProcParseError::InvalidNumber),
    };
    let read = last_value(&entries, "read_bytes");
    let write = last_value(&entries, "write_bytes");
    proof {
        match read {
            Some(v) => {
                let j = choose|j: int| 0 <= j < entries@.len() && entries@[j].0@ == "read_bytes"@ && entries@[j].1 == v
                    && forall|k: int| j < k < entries@.len() ==> entries@[k].0@ != "read_bytes"@;
                lemma_lookup(entries@, ps, "read_bytes"@, true, j);
            },
            None => {
                lemma_lookup(entries@, ps, "read_bytes"@, true, -1);
            },
        }
        match write {
            Some(v) => {
                let j = choose|j: int| 0 <= j < entries@.len() && entries@[j].0@ == "write_bytes"@ && entries@[j].1 == v
                    && forall|k: int| j < k < entries@.len() ==> entries@[k].0@ != "write_bytes"@;
                lemma_lookup(entries@, ps, "write_bytes"@, true, j);
            },
            None => {
                lemma_lookup(entries@, ps, "write_bytes"@, true, -1);
            },
        }
    }
    match (read, write) {
        (Some(r), Some(w)) => Ok((r, w)),
        (None, _) => Err(ProcParseError::MissingField("read_bytes")),
        (_, None) => Err(ProcParseError::MissingField("write_bytes")),
    }
}

/// Parses `/proc/meminfo` into total and available memory.
pub fn parse_meminfo(input: &str) -> (r: Result<MemorySample, ProcParseError>)
    ensures
        r == meminfo_result(input@),
{
    let chars = chars_of(input);
    let lines = lines_of(&chars);
    let pairs = colon_pairs_of(&lines);
    let ghost ps = pairs@.map_values(|p: (Vec<char>, Vec<char>)| (p.0@, p.1@));
    let entries = match parse_entries(&pairs, true) {
        Some(e) => e,
        None => return Err(ProcParseError::InvalidNumber),
    };
    let total = last_value(&entries, "MemTotal");
    let available = last_value(&entries, "MemAvailable");
    proof {
        match total {
            Some(v) => {
                let j = choose|j: int| 0 <= j < entries@.len() && entries@[j].0@ == "MemTotal"@ && entries@[j].1 == v
                    && forall|k: int| j < k < entries@.len() ==> entries@[k].0@ != "MemTotal"@;
                lemma_lookup(entries@, ps, "MemTotal"@, false, j);
            },
            None => {
                lemma_lookup(entries@, ps, "MemTotal"@, false, -1);
            },
        }
        match available {
            Some(v) => {
                let j = choose|j: int| 0 <= j < entries@.len() && entries@[j].0@ == "MemAvailable"@ && entries@[j].1 == v
                    && forall|k: int| j < k < entries@.len() ==> entries@[k].0@ != "MemAvailable"@;
                lemma_lookup(entries@, ps, "MemAvailable"@, false, j);
            },
            None => {
                lemma_lookup(entries@, ps, "MemAvailable"@, false, -1);
            },
        }
    }
    match (total, available) {
        (Some(t), Some(a)) => Ok(MemorySample { total_kib: t, available_kib: a }),
        (None, _) => Err(ProcParseError::MissingField("MemTotal")),
        (_, None) => Err(ProcParseError::MissingField("MemAvailable")),
    }
}

} // verus!
