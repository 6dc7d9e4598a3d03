//! The process tracker: successive procfs samples become lifecycle, CPU,
//! I/O and host events, with bounded state and bounded output.
use vstd::prelude::*;

use super::{
    MemorySample, ProcStat, ProcessSample, MAX_COMM_CHARS, MAX_DELTA_BYTES, MAX_EVENTS_PER_SAMPLE,
    MAX_SCANNED_PROCESSES, MAX_TRACKED_PROCESSES,
};
use crate::event::{
    event_views, Direction, EventView, Labels, NormalizedEvent, Quantity, SCHEMA_VERSION,
};
use crate::source::{all_ascii, ascii_bytes, fnv1a, stable_hash_str};
use crate::text::{
    bounded_text, bounded_text_exec, decimal, hex16_text, hex_fixed, is_digit,
    lemma_decimal_digits, starts_with, str_starts_with, u64_text,
};

verus! {

/// The value of a [`ProcessSample`].
pub struct ProcessView {
    pub pid: u32,
    pub comm: Seq<char>,
    pub cpu_ticks: u64,
    pub start_ticks: u64,
    pub read_bytes: Option<u64>,
    pub write_bytes: Option<u64>,
}

impl View for ProcessSample {
    type V = ProcessView;

    open spec fn view(&self) -> ProcessView {
        ProcessView {
            pid: self.pid,
            comm: self.comm@,
            cpu_ticks: self.cpu_ticks,
            start_ticks: self.start_ticks,
            read_bytes: self.read_bytes,
            write_bytes: self.write_bytes,
        }
    }
}

/// The values of a list of processes.
pub open spec fn process_views(s: Seq<ProcessSample>) -> Seq<ProcessView> {
    s.map_values(|p: ProcessSample| p@)
}

/// `a + b`, saturating at the largest `u64`.
pub open spec fn sat_add(a: u64, b: u64) -> u64 {
    if a + b > u64::MAX {
        u64::MAX
    } else {
        (a + b) as u64
    }
}

/// Processes and host counters read in one sampling pass.
#[derive(Clone, Debug)]
pub struct ProcSample {
    pub timestamp: Quantity,
    pub processes: Vec<ProcessSample>,
    pub stat: ProcStat,
    pub memory: Option<MemorySample>,
    /// Records that could not be read or parsed.
    pub unreadable: u64,
    /// Processes that disappeared while being read.
    pub vanished: u64,
    /// Processes not read because the scan was full.
    pub scan_refused: u64,
}

impl Default for ProcSample {
    fn default() -> (s: Self)
        ensures
            s.timestamp == (Quantity::Ratio { numerator: 0, denominator: 1 }),
            s.processes@.len() == 0,
            s.stat == (ProcStat { total_cpu_ticks: 0, idle_cpu_ticks: 0, procs_running: 0 }),
            s.memory is None,
            s.unreadable == 0,
            s.vanished == 0,
            s.scan_refused == 0,
    {
        ProcSample::new(Quantity::Ratio { numerator: 0, denominator: 1 })
    }
}

impl ProcSample {
    /// An empty sample taken at `timestamp`.
    pub fn new(timestamp: Quantity) -> (s: Self)
        ensures
            s.timestamp == timestamp,
            s.processes@.len() == 0,
            s.stat == (ProcStat { total_cpu_ticks: 0, idle_cpu_ticks: 0, procs_running: 0 }),
            s.memory is None,
            s.unreadable == 0,
            s.vanished == 0,
            s.scan_refused == 0,
    {
        ProcSample {
            timestamp,
            processes: Vec::new(),
            stat: ProcStat { total_cpu_ticks: 0, idle_cpu_ticks: 0, procs_running: 0 },
            memory: None,
            unreadable: 0,
            vanished: 0,
            scan_refused: 0,
        }
    }

    /// Adds a process unless the scan already holds the maximum, in which
    /// case it is counted as refused.
    pub fn push_process(&mut self, process: ProcessSample) -> (accepted: bool)
        ensures
            accepted == (old(self).processes.len() != MAX_SCANNED_PROCESSES),
            accepted ==> final(self).processes@ == old(self).processes@.push(process)
                && final(self).scan_refused == old(self).scan_refused,
            !accepted ==> final(self).processes@ == old(self).processes@ && final(self).scan_refused
                == sat_add(old(self).scan_refused, 1),
            final(self).timestamp == old(self).timestamp,
            final(self).stat == old(self).stat,
            final(self).memory == old(self).memory,
            final(self).unreadable == old(self).unreadable,
            final(self).vanished == old(self).vanished,
    {
        if self.processes.len() == MAX_SCANNED_PROCESSES {
            self.scan_refused = self.scan_refused.saturating_add(1);
            return false;
        }
        self.processes.push(process);
        true
    }
}

/// What the tracker has counted since it was created.
#[derive(Clone, Copy, Debug, PartialEq, Eq, Structural)]
pub struct ProcStats {
    pub samples: u64,
    pub tracked_processes: usize,
    pub cpu_events: u64,
    pub io_events: u64,
    pub starts: u64,
    pub exits: u64,
    pub unreadable: u64,
    pub vanished: u64,
    pub scan_refused: u64,
    pub tracking_refused: u64,
    pub event_refused: u64,
    pub counter_resets: u64,
}

/// All counters at zero.
pub open spec fn zero_stats() -> ProcStats {
    ProcStats {
        samples: 0,
        tracked_processes: 0,
        cpu_events: 0,
        io_events: 0,
        starts: 0,
        exits: 0,
        unreadable: 0,
        vanished: 0,
        scan_refused: 0,
        tracking_refused: 0,
        event_refused: 0,
        counter_resets: 0,
    }
}

impl Default for ProcStats {
    fn default() -> (s: Self)
        ensures
            s == zero_stats(),
    {
        ProcStats {
            samples: 0,
            tracked_processes: 0,
            cpu_events: 0,
            io_events: 0,
            starts: 0,
            exits: 0,
            unreadable: 0,
            vanished: 0,
            scan_refused: 0,
            tracking_refused: 0,
            event_refused: 0,
            counter_resets: 0,
        }
    }
}

/// What the tracker remembers of a process between samples.
#[derive(Clone, Debug)]
pub struct TrackedProcess {
    pub comm: String,
    pub start_ticks: u64,
    pub cpu_ticks: u64,
    pub read_bytes: Option<u64>,
    pub write_bytes: Option<u64>,
}

/// The value of a [`TrackedProcess`].
pub struct TrackedView {
    pub comm: Seq<char>,
    pub start_ticks: u64,
    pub cpu_ticks: u64,
    pub read_bytes: Option<u64>,
    pub write_bytes: Option<u64>,
}

impl View for TrackedProcess {
    type V = TrackedView;

    open spec fn view(&self) -> TrackedView {
        TrackedView {
            comm: self.comm@,
            start_ticks: self.start_ticks,
            cpu_ticks: self.cpu_ticks,
            read_bytes: self.read_bytes,
            write_bytes: self.write_bytes,
        }
    }
}

/// The known processes by pid.
pub open spec fn tracked_views(t: Seq<(u32, TrackedProcess)>) -> Seq<(u32, TrackedView)> {
    t.map_values(|e: (u32, TrackedProcess)| (e.0, e.1@))
}

/// Pids strictly increase along the sequence.
pub open spec fn pids_increasing(t: Seq<(u32, TrackedView)>) -> bool {
    forall|i: int, j: int| 0 <= i < j < t.len() ==> t[i].0 < t[j].0
}

/// The first index whose pid is not below `pid`.
pub open spec fn lower_bound(t: Seq<(u32, TrackedView)>, pid: u32) -> int
    decreases t.len(),
{
    if t.len() == 0 {
        0
    } else if t[0].0 >= pid {
        0
    } else {
        1 + lower_bound(t.drop_first(), pid)
    }
}

proof fn lemma_lower_bound_at(t: Seq<(u32, TrackedView)>, pid: u32, i: int)
    requires
        0 <= i <= t.len(),
        forall|j: int| 0 <= j < i ==> t[j].0 < pid,
        i < t.len() ==> t[i].0 >= pid,
    ensures
        lower_bound(t, pid) == i,
    decreases t.len(),
{
    if i > 0 {
        assert forall|j: int| 0 <= j < i - 1 implies t.drop_first()[j].0 < pid by {
            assert(t.drop_first()[j] == t[j + 1]);
        }
        lemma_lower_bound_at(t.drop_first(), pid, i - 1);
    }
}

/// Where `pid` is known, if it is.
pub open spec fn position_of(t: Seq<(u32, TrackedView)>, pid: u32) -> Option<int> {
    let i = lower_bound(t, pid);
    if 0 <= i < t.len() && t[i].0 == pid {
        Some(i)
    } else {
        None
    }
}

/// Is `pid` known?
pub open spec fn is_tracked(t: Seq<(u32, TrackedView)>, pid: u32) -> bool {
    position_of(t, pid) is Some
}

/// `t` with `pid` mapped to `v`: the entry replaced when present, else
/// inserted in pid order.
pub open spec fn tracked_put(t: Seq<(u32, TrackedView)>, pid: u32, v: TrackedView) -> Seq<(u32, TrackedView)> {
    match position_of(t, pid) {
        Some(i) => t.update(i, (pid, v)),
        None => t.insert(lower_bound(t, pid), (pid, v)),
    }
}

/// In an increasing sequence, entries before the lower bound are below
/// `pid`, the others not.
proof fn lemma_lower_bound_split(t: Seq<(u32, TrackedView)>, pid: u32)
    requires
        pids_increasing(t),
    ensures
        0 <= lower_bound(t, pid) <= t.len(),
        forall|j: int| 0 <= j < lower_bound(t, pid) ==> t[j].0 < pid,
        forall|j: int| lower_bound(t, pid) <= j < t.len() ==> t[j].0 >= pid,
        is_tracked(t, pid) <==> exists|j: int| 0 <= j < t.len() && t[j].0 == pid,
    decreases t.len(),
{
    if t.len() > 0 {
        if t[0].0 < pid {
            lemma_lower_bound_split(t.drop_first(), pid);
            assert forall|j: int| 0 <= j < lower_bound(t, pid) implies t[j].0 < pid by {
                if j > 0 {
                    assert(t[j] == t.drop_first()[j - 1]);
                }
            }
            assert forall|j: int| lower_bound(t, pid) <= j < t.len() implies t[j].0 >= pid by {
                assert(t[j] == t.drop_first()[j - 1]);
            }
        }
    }
    let i = lower_bound(t, pid);
    if exists|j: int| 0 <= j < t.len() && t[j].0 == pid {
        let j = choose|j: int| 0 <= j < t.len() && t[j].0 == pid;
        if j > i {
            assert(t[i].0 < t[j].0);
        }
    }
}

/// Putting an entry keeps pids increasing and the length bounded by one
/// more entry, which only an untracked pid adds.
proof fn lemma_tracked_put(t: Seq<(u32, TrackedView)>, pid: u32, v: TrackedView)
    requires
        pids_increasing(t),
    ensures
        pids_increasing(tracked_put(t, pid, v)),
        tracked_put(t, pid, v).len() == t.len() + if is_tracked(t, pid) { 0int } else { 1int },
{
    lemma_lower_bound_split(t, pid);
    let i = lower_bound(t, pid);
    let r = tracked_put(t, pid, v);
    if !is_tracked(t, pid) {
        assert forall|a: int, b: int| 0 <= a < b < r.len() implies r[a].0 < r[b].0 by {
            if b < i {
            } else if b == i {
            } else if a < i {
                assert(r[b] == t[b - 1]);
            } else if a == i {
                assert(r[b] == t[b - 1]);
                if b - 1 == i {
                    assert(t[i].0 != pid);
                }
            } else {
                assert(r[a] == t[a - 1]);
                assert(r[b] == t[b - 1]);
            }
        }
    }
}

/// The index of the first known entry whose pid is not below `pid`.
fn lower_bound_exec(t: &Vec<(u32, TrackedProcess)>, pid: u32) -> (i: usize)
    ensures
        i == lower_bound(tracked_views(t@), pid),
        i <= t.len(),
{
    let ghost tv = tracked_views(t@);
    let mut i: usize = 0;
    while i < t.len() && t[i].0 < pid
        invariant
            i <= t.len(),
            tv == tracked_views(t@),
            forall|j: int| 0 <= j < i ==> tv[j].0 < pid,
        decreases t.len() - i,
    {
        i = i + 1;
    }
    proof {
        lemma_lower_bound_at(tv, pid, i as int);
    }
    i
}

/// Where `pid` is known, if it is.
fn position_exec(t: &Vec<(u32, TrackedProcess)>, pid: u32) -> (r: Option<usize>)
    ensures
        match position_of(tracked_views(t@), pid) {
            Some(i) => r == Some(i as usize),
            None => r is None,
        },
{
    let i = lower_bound_exec(t, pid);
    if i < t.len() && t[i].0 == pid {
        Some(i)
    } else {
        None
    }
}

/// Maps `pid` to `entry`, replacing or inserting in pid order.
fn put_exec(t: &mut Vec<(u32, TrackedProcess)>, pid: u32, entry: TrackedProcess)
    ensures
        tracked_views(final(t)@) == tracked_put(tracked_views(old(t)@), pid, entry@),
{
    let ghost before = tracked_views(t@);
    let ghost ev = entry@;
    let i = lower_bound_exec(t, pid);
    if i < t.len() && t[i].0 == pid {
        t.set(i, (pid, entry));
        proof {
            assert(tracked_views(t@) =~= before.update(i as int, (pid, ev)));
        }
    } else {
        t.insert(i, (pid, entry));
        proof {
            assert(tracked_views(t@) =~= before.insert(i as int, (pid, ev)));
        }
    }
}

/// A command name as kept: without control characters, at most 64 of them.
pub open spec fn bounded_comm(comm: Seq<char>) -> Seq<char> {
    bounded_text(comm, MAX_COMM_CHARS as nat)
}

/// The material hashed for an anonymous identity: seed, pid and start
/// ticks in decimal, separated by U+001F.
pub open spec fn identity_material(seed: u64, pid: u32, start: u64) -> Seq<char> {
    decimal(seed as nat) + seq!['\u{1f}'] + decimal(pid as nat) + seq!['\u{1f}'] + decimal(
        start as nat,
    )
}

/// The identity of a process: `proc:` and sixteen hex digits of a keyed
/// hash when anonymous, else `proc:comm[pid]@start`.
pub open spec fn identity_text(anonymize: bool, seed: u64, pid: u32, start: u64, comm: Seq<char>) -> Seq<char> {
    if anonymize {
        "proc:"@ + hex_fixed(fnv1a(ascii_bytes(identity_material(seed, pid, start))) as nat, 16)
    } else {
        "proc:"@ + bounded_comm(comm) + "["@ + decimal(pid as nat) + "]@"@ + decimal(start as nat)
    }
}

proof fn lemma_decimal_ascii(n: nat)
    ensures
        all_ascii(decimal(n)),
{
    lemma_decimal_digits(n);
    assert forall|i: int| 0 <= i < decimal(n).len() implies '\0' <= #[trigger] decimal(n)[i] <= '\u{7f}' by {
        assert(is_digit(decimal(n)[i]));
    }
}

/// The identity of a process, anonymous or named.
pub fn identity_for(anonymize: bool, seed: u64, pid: u32, start: u64, comm: &str) -> (s: String)
    ensures
        s@ == identity_text(anonymize, seed, pid, start, comm@),
{
    if anonymize {
        let mut material = u64_text(seed);
        material.append("\u{1f}");
        let p = u64_text(pid as u64);
        material.append(p.as_str());
        material.append("\u{1f}");
        let t = u64_text(start);
        material.append(t.as_str());
        proof {
            reveal_strlit("\u{1f}");
            assert(material@ =~= identity_material(seed, pid, start));
            lemma_decimal_ascii(seed as nat);
            lemma_decimal_ascii(pid as nat);
            lemma_decimal_ascii(start as nat);
            assert(all_ascii(material@));
        }
        let hash = stable_hash_str(material.as_str());
        let mut s = String::from_str("proc:");
        let digits = hex16_text(hash);
        s.append(digits.as_str());
        s
    } else {
        let mut s = String::from_str("proc:");
        let name = bounded_text_exec(comm, MAX_COMM_CHARS);
        s.append(name.as_str());
        s.append("[");
        let p = u64_text(pid as u64);
        s.append(p.as_str());
        s.append("]@");
        let t = u64_text(start);
        s.append(t.as_str());
        s
    }
}

/// The lane of a process event: the origin if it names a process, else
/// the target if it does, else `proc:unknown`.
pub open spec fn process_lane(origin: Option<Seq<char>>, target: Option<Seq<char>>) -> Seq<char> {
    if origin is Some && starts_with(origin.unwrap(), "proc:"@) {
        origin.unwrap()
    } else if target is Some && starts_with(target.unwrap(), "proc:"@) {
        target.unwrap()
    } else {
        "proc:unknown"@
    }
}

/// An event about one process; anonymous events carry no pid or name.
pub open spec fn process_event_view(
    timestamp: Quantity,
    category: Seq<char>,
    origin: Option<Seq<char>>,
    target: Option<Seq<char>>,
    magnitude: Quantity,
    direction: Direction,
    pid: u32,
    start: u64,
    comm: Seq<char>,
    anonymize: bool,
) -> EventView {
    let base = Map::<Seq<char>, Seq<char>>::empty().insert(
        "synesthesia.lane"@,
        process_lane(origin, target),
    ).insert("process_start_ticks"@, decimal(start as nat));
    EventView {
        v: SCHEMA_VERSION,
        timestamp: Some(timestamp),
        category,
        origin,
        target,
        magnitude,
        direction,
        labels: if anonymize {
            base
        } else {
            base.insert("pid"@, decimal(pid as nat)).insert("comm"@, bounded_comm(comm))
        },
    }
}

/// The text of an optional string.
pub open spec fn opt_seq(s: Option<String>) -> Option<Seq<char>> {
    match s {
        Some(t) => Some(t@),
        None => None,
    }
}

/// Builds an event about one process.
fn process_event(
    timestamp: Quantity,
    category: &str,
    origin: Option<String>,
    target: Option<String>,
    magnitude: Quantity,
    direction: Direction,
    pid: u32,
    start: u64,
    comm: &str,
    anonymize: bool,
) -> (e: NormalizedEvent)
    ensures
        e@ == process_event_view(
            timestamp,
            category@,
            opt_seq(origin),
            opt_seq(target),
            magnitude,
            direction,
            pid,
            start,
            comm@,
            anonymize,
        ),
{
    let lane = match &origin {
        Some(o) if str_starts_with(o.as_str(), "proc:") => o.clone(),
        _ => match &target {
            Some(t) if str_starts_with(t.as_str(), "proc:") => t.clone(),
            _ => String::from_str("proc:unknown"),
        },
    };
    let mut labels = Labels::new();
    labels.insert_str("synesthesia.lane", lane);
    labels.insert_str("process_start_ticks", u64_text(start));
    if !anonymize {
        labels.insert_str("pid", u64_text(pid as u64));
        labels.insert_str("comm", bounded_text_exec(comm, MAX_COMM_CHARS));
    }
    NormalizedEvent {
        v: SCHEMA_VERSION,
        timestamp: Some(timestamp),
        category: String::from_str(category),
        origin,
        target,
        magnitude,
        direction,
        labels,
    }
}

/// A host-wide event with one numeric label.
pub open spec fn host_event_view(
    timestamp: Quantity,
    category: Seq<char>,
    magnitude: Quantity,
    label: Seq<char>,
    value: u64,
) -> EventView {
    EventView {
        v: SCHEMA_VERSION,
        timestamp: Some(timestamp),
        category,
        origin: Some("host"@),
        target: None,
        magnitude,
        direction: Direction::Neutral,
        labels: Map::<Seq<char>, Seq<char>>::empty().insert("synesthesia.lane"@, category).insert(
            label,
            decimal(value as nat),
        ),
    }
}

/// Builds a host-wide event with one numeric label.
fn host_event(timestamp: Quantity, category: &str, magnitude: Quantity, label: &str, value: u64) -> (e: NormalizedEvent)
    ensures
        e@ == host_event_view(timestamp, category@, magnitude, label@, value),
{
    let mut labels = Labels::new();
    labels.insert_str("synesthesia.lane", String::from_str(category));
    labels.insert_str(label, u64_text(value));
    NormalizedEvent {
        v: SCHEMA_VERSION,
        timestamp: Some(timestamp),
        category: String::from_str(category),
        origin: Some(String::from_str("host")),
        target: None,
        magnitude,
        direction: Direction::Neutral,
        labels,
    }
}

/// Sorting order of a sample: by pid, then by start ticks.
pub open spec fn sorts_before(a: ProcessView, b: ProcessView) -> bool {
    a.pid < b.pid || (a.pid == b.pid && a.start_ticks < b.start_ticks)
}

/// Where `x` goes in a sorted sequence after every entry that does not
/// sort after it.
pub open spec fn insertion_point(s: Seq<ProcessView>, x: ProcessView) -> int
    decreases s.len(),
{
    if s.len() == 0 {
        0
    } else if sorts_before(x, s[0]) {
        0
    } else {
        1 + insertion_point(s.drop_first(), x)
    }
}

/// The sample's processes sorted by pid and start ticks; processes with
/// the same pid and start keep their order.
pub open spec fn sorted_processes(s: Seq<ProcessView>) -> Seq<ProcessView>
    decreases s.len(),
{
    if s.len() == 0 {
        Seq::empty()
    } else {
        let t = sorted_processes(s.drop_last());
        t.insert(insertion_point(t, s.last()), s.last())
    }
}

proof fn lemma_insertion_point_at(s: Seq<ProcessView>, x: ProcessView, i: int)
    requires
        0 <= i <= s.len(),
        forall|j: int| 0 <= j < i ==> !sorts_before(x, #[trigger] s[j]),
        i < s.len() ==> sorts_before(x, s[i]),
    ensures
        insertion_point(s, x) == i,
    decreases s.len(),
{
    if i > 0 {
        assert forall|j: int| 0 <= j < i - 1 implies !sorts_before(x, #[trigger] s.drop_first()[j]) by {
            assert(s.drop_first()[j] == s[j + 1]);
        }
        lemma_insertion_point_at(s.drop_first(), x, i - 1);
    }
}

proof fn lemma_insertion_point_bound(s: Seq<ProcessView>, x: ProcessView)
    ensures
        0 <= insertion_point(s, x) <= s.len(),
    decreases s.len(),
{
    if s.len() > 0 {
        lemma_insertion_point_bound(s.drop_first(), x);
    }
}

proof fn lemma_sorted_len(s: Seq<ProcessView>)
    ensures
        sorted_processes(s).len() == s.len(),
    decreases s.len(),
{
    if s.len() > 0 {
        lemma_sorted_len(s.drop_last());
        lemma_insertion_point_bound(sorted_processes(s.drop_last()), s.last());
    }
}

/// A copy of a process sample.
fn copy_process(p: &ProcessSample) -> (c: ProcessSample)
    ensures
        c@ == p@,
{
    ProcessSample {
        pid: p.pid,
        comm: p.comm.clone(),
        cpu_ticks: p.cpu_ticks,
        start_ticks: p.start_ticks,
        read_bytes: p.read_bytes,
        write_bytes: p.write_bytes,
    }
}

/// Does `a` sort before `b`?
fn sorts_before_exec(a: &ProcessSample, b: &ProcessSample) -> (r: bool)
    ensures
        r == sorts_before(a@, b@),
{
    a.pid < b.pid || (a.pid == b.pid && a.start_ticks < b.start_ticks)
}

/// Sorts processes by pid and start ticks, keeping the order of equals.
fn sort_processes(s: &Vec<ProcessSample>) -> (out: Vec<ProcessSample>)
    ensures
        process_views(out@) == sorted_processes(process_views(s@)),
{
    let ghost sv = process_views(s@);
    let mut out: Vec<ProcessSample> = Vec::new();
    let mut k: usize = 0;
    proof {
        assert(process_views(out@) =~= sorted_processes(sv.take(0)));
    }
    while k < s.len()
        invariant
            k <= s.len(),
            sv == process_views(s@),
            process_views(out@) == sorted_processes(sv.take(k as int)),
        decreases s.len() - k,
    {
        let ghost ov = process_views(out@);
        let mut i: usize = 0;
        while i < out.len() && !sorts_before_exec(&s[k], &out[i])
            invariant
                i <= out.len(),
                ov == process_views(out@),
                sv == process_views(s@),
                k < s.len(),
                forall|j: int| 0 <= j < i ==> !sorts_before(sv[k as int], #[trigger] ov[j]),
            decreases out.len() - i,
        {
            i = i + 1;
        }
        proof {
            lemma_insertion_point_at(ov, sv[k as int], i as int);
            assert(sv.take(k + 1).drop_last() =~= sv.take(k as int));
            assert(sv.take(k + 1).last() == sv[k as int]);
        }
        let p = copy_process(&s[k]);
        out.insert(i, p);
        proof {
            assert(process_views(out@) =~= ov.insert(i as int, sv[k as int]));
        }
        k = k + 1;
    }
    proof {
        assert(sv.take(s.len() as int) =~= sv);
    }
    out
}

/// The process tracker's state.
pub struct TrackerView {
    pub known: Seq<(u32, TrackedView)>,
    pub stats: ProcStats,
    pub anonymize: bool,
    pub session_seed: u64,
    pub last_running: Option<u32>,
    pub last_memory_band: Option<u8>,
    /// The total and idle CPU ticks of the last sample.
    pub last_ticks: Option<(u64, u64)>,
    pub initialized: bool,
}

/// Turns successive procfs samples into events, remembering a bounded set
/// of processes between samples.
#[derive(Clone, Debug)]
pub struct ProcTracker {
    known: Vec<(u32, TrackedProcess)>,
    stats: ProcStats,
    anonymize: bool,
    session_seed: u64,
    last_running: Option<u32>,
    last_memory_band: Option<u8>,
    last_ticks: Option<(u64, u64)>,
    initialized: bool,
}

impl View for ProcTracker {
    type V = TrackerView;

    closed spec fn view(&self) -> TrackerView {
        TrackerView {
            known: tracked_views(self.known@),
            stats: self.stats,
            anonymize: self.anonymize,
            session_seed: self.session_seed,
            last_running: self.last_running,
            last_memory_band: self.last_memory_band,
            last_ticks: self.last_ticks,
            initialized: self.initialized,
        }
    }
}

/// A well-formed tracker state: processes in pid order, at most the
/// tracking bound of them, and the known count in the statistics.
pub open spec fn tracker_wf(v: TrackerView) -> bool {
    &&& pids_increasing(v.known)
    &&& v.known.len() <= MAX_TRACKED_PROCESSES
    &&& v.stats.tracked_processes == v.known.len()
}

impl ProcTracker {
    /// A tracker that has seen nothing; `anonymize` replaces names and
    /// pids with identities keyed by `session_seed`.
    pub fn new(anonymize: bool, session_seed: u64) -> (t: ProcTracker)
        ensures
            tracker_wf(t@),
            t@.known.len() == 0,
            t@.stats == zero_stats(),
            t@.anonymize == anonymize,
            t@.session_seed == session_seed,
            t@.last_running is None,
            t@.last_memory_band is None,
            t@.last_ticks is None,
            !t@.initialized,
    {
        let t = ProcTracker {
            known: Vec::new(),
            stats: ProcStats::default(),
            anonymize,
            session_seed,
            last_running: None,
            last_memory_band: None,
            last_ticks: None,
            initialized: false,
        };
        proof {
            assert(tracked_views(t.known@) =~= Seq::<(u32, TrackedView)>::empty());
        }
        t
    }

    /// The counters so far.
    pub fn stats(&self) -> (s: ProcStats)
        ensures
            s == self@.stats,
    {
        self.stats
    }

    /// The identity of a process under this tracker's settings.
    pub fn identity(&self, pid: u32, start_ticks: u64, comm: &str) -> (s: String)
        ensures
            s@ == identity_text(self@.anonymize, self@.session_seed, pid, start_ticks, comm@),
    {
        identity_for(self.anonymize, self.session_seed, pid, start_ticks, comm)
    }
}


/// The parameters every event of one ingestion shares.
pub struct Ctx {
    pub timestamp: Quantity,
    pub anonymize: bool,
    pub seed: u64,
}

/// The work of one ingestion so far: known processes, counters, events.
pub struct Pass {
    pub known: Seq<(u32, TrackedView)>,
    pub stats: ProcStats,
    pub events: Seq<EventView>,
}

/// The pass that the executable state stands for.
pub open spec fn pass_of(known: Seq<(u32, TrackedProcess)>, stats: ProcStats, events: Seq<NormalizedEvent>) -> Pass {
    Pass { known: tracked_views(known), stats, events: event_views(events) }
}

/// Emits one event, or counts it as refused when the sample's output is
/// full.
pub open spec fn emit(p: Pass, e: EventView) -> Pass {
    if p.events.len() >= MAX_EVENTS_PER_SAMPLE {
        Pass {
            known: p.known,
            stats: ProcStats { event_refused: sat_add(p.stats.event_refused, 1), ..p.stats },
            events: p.events,
        }
    } else {
        Pass { known: p.known, stats: p.stats, events: p.events.push(e) }
    }
}

/// Emits one event unless the output is full.
fn emit_exec(
    known: &Vec<(u32, TrackedProcess)>,
    stats: &mut ProcStats,
    events: &mut Vec<NormalizedEvent>,
    e: NormalizedEvent,
)
    requires
        old(events).len() <= MAX_EVENTS_PER_SAMPLE,
    ensures
        pass_of(known@, *final(stats), final(events)@) == emit(pass_of(known@, *old(stats), old(events)@), e@),
        final(events).len() <= MAX_EVENTS_PER_SAMPLE,
{
    let ghost ev = e@;
    let ghost before = pass_of(known@, *stats, events@);
    if events.len() == MAX_EVENTS_PER_SAMPLE {
        stats.event_refused = stats.event_refused.saturating_add(1);
        proof {
            let after = pass_of(known@, *stats, events@);
            let expected = emit(before, ev);
            assert(after.known == expected.known);
            assert(after.events == expected.events);
            assert(after.stats == expected.stats);
        }
    } else {
        let ghost old_events = events@;
        let ghost copy = e;
        events.push(e);
        proof {
            assert(events@ == old_events.push(copy));
            assert(event_views(events@) =~= event_views(old_events).push(ev));
            let after = pass_of(known@, *stats, events@);
            let expected = emit(before, ev);
            assert(after.events =~= expected.events);
        }
    }
}

/// What a process becomes when remembered, under the given name.
pub open spec fn remembered(x: ProcessView, comm: Seq<char>) -> TrackedView {
    TrackedView {
        comm,
        start_ticks: x.start_ticks,
        cpu_ticks: x.cpu_ticks,
        read_bytes: x.read_bytes,
        write_bytes: x.write_bytes,
    }
}

/// The first sample: every process is remembered, in order, while there
/// is room; the rest are counted as refused.
pub open spec fn baseline(p: Pass, procs: Seq<ProcessView>) -> Pass
    decreases procs.len(),
{
    if procs.len() == 0 {
        p
    } else {
        let q = baseline(p, procs.drop_last());
        let x = procs.last();
        if q.known.len() >= MAX_TRACKED_PROCESSES {
            Pass {
                known: q.known,
                stats: ProcStats { tracking_refused: sat_add(q.stats.tracking_refused, 1), ..q.stats },
                events: q.events,
            }
        } else {
            Pass {
                known: tracked_put(q.known, x.pid, remembered(x, bounded_comm(x.comm))),
                stats: q.stats,
                events: q.events,
            }
        }
    }
}

/// The state a tracker remembers for a process.
fn remember(x: &ProcessSample) -> (t: TrackedProcess)
    ensures
        t@ == remembered(x@, bounded_comm(x@.comm)),
{
    TrackedProcess {
        comm: bounded_text_exec(x.comm.as_str(), MAX_COMM_CHARS),
        start_ticks: x.start_ticks,
        cpu_ticks: x.cpu_ticks,
        read_bytes: x.read_bytes,
        write_bytes: x.write_bytes,
    }
}

/// The pass of a first sample from known processes and counters.
pub open spec fn baseline_from(known: Seq<(u32, TrackedView)>, stats: ProcStats, procs: Seq<ProcessView>) -> Pass {
    baseline(Pass { known, stats, events: Seq::empty() }, procs)
}

/// Remembers the processes of a first sample.
fn baseline_exec(known: &mut Vec<(u32, TrackedProcess)>, stats: &mut ProcStats, procs: &Vec<ProcessSample>)
    requires
        pids_increasing(tracked_views(old(known)@)),
        old(known).len() <= MAX_TRACKED_PROCESSES,
    ensures
        pids_increasing(tracked_views(final(known)@)),
        final(known).len() <= MAX_TRACKED_PROCESSES,
        tracked_views(final(known)@) == baseline_from(tracked_views(old(known)@), *old(stats), process_views(procs@)).known,
        *final(stats) == baseline_from(tracked_views(old(known)@), *old(stats), process_views(procs@)).stats,
{
    let ghost k0 = tracked_views(known@);
    let ghost s0 = *stats;
    let ghost pv = process_views(procs@);
    let mut i: usize = 0;
    while i < procs.len()
        invariant
            i <= procs.len(),
            pv == process_views(procs@),
            pids_increasing(tracked_views(known@)),
            known.len() <= MAX_TRACKED_PROCESSES,
            tracked_views(known@) == baseline_from(k0, s0, pv.take(i as int)).known,
            *stats == baseline_from(k0, s0, pv.take(i as int)).stats,
        decreases procs.len() - i,
    {
        proof {
            assert(pv.take(i + 1).drop_last() =~= pv.take(i as int));
            assert(pv.take(i + 1).last() == pv[i as int]);
        }
        if known.len() == MAX_TRACKED_PROCESSES {
            stats.tracking_refused = stats.tracking_refused.saturating_add(1);
        } else {
            let ghost before = tracked_views(known@);
            let entry = remember(&procs[i]);
            put_exec(known, procs[i].pid, entry);
            proof {
                lemma_tracked_put(before, procs@[i as int].pid, remembered(pv[i as int], bounded_comm(pv[i as int].comm)));
            }
        }
        i = i + 1;
    }
    proof {
        assert(pv.take(procs.len() as int) =~= pv);
    }
}

/// The start ticks of the last process with `pid` among the scanned ones.
pub open spec fn present_start(scan: Seq<ProcessView>, pid: u32) -> Option<u64>
    decreases scan.len(),
{
    if scan.len() == 0 {
        None
    } else if scan.last().pid == pid {
        Some(scan.last().start_ticks)
    } else {
        present_start(scan.drop_last(), pid)
    }
}

/// The start ticks of the last process with `pid` among the first
/// `scan_len` sorted processes.
fn present_start_exec(sorted: &Vec<ProcessSample>, scan_len: usize, pid: u32) -> (r: Option<u64>)
    requires
        scan_len <= sorted.len(),
    ensures
        r == present_start(process_views(sorted@).take(scan_len as int), pid),
{
    let ghost pv = process_views(sorted@);
    let mut i = scan_len;
    while i > 0
        invariant
            i <= scan_len <= sorted.len(),
            pv == process_views(sorted@),
            present_start(pv.take(scan_len as int), pid) == present_start(pv.take(i as int), pid),
        decreases i,
    {
        proof {
            assert(pv.take(i as int).drop_last() =~= pv.take(i - 1));
            assert(pv.take(i as int).last() == pv[i - 1]);
        }
        if sorted[i - 1].pid == pid {
            return Some(sorted[i - 1].start_ticks);
        }
        i = i - 1;
    }
    None
}

/// `n` as a whole quantity.
pub open spec fn whole(n: u64) -> Quantity {
    Quantity::Ratio { numerator: n, denominator: 1 }
}

/// The event for a process that exited or was replaced by a new one with
/// the same pid.
pub open spec fn exit_event(c: Ctx, pid: u32, t: TrackedView) -> EventView {
    process_event_view(
        c.timestamp,
        "proc.exit"@,
        Some(identity_text(c.anonymize, c.seed, pid, t.start_ticks, t.comm)),
        None,
        whole(2048),
        Direction::Outbound,
        pid,
        t.start_ticks,
        t.comm,
        c.anonymize,
    )
}

/// Known processes, in pid order, either stay (the scan shows the same
/// pid with the same start) or exit: forgotten, with an exit event.
pub open spec fn exit_pass(c: Ctx, scan: Seq<ProcessView>, entries: Seq<(u32, TrackedView)>, p: Pass) -> Pass
    decreases entries.len(),
{
    if entries.len() == 0 {
        p
    } else {
        let q = exit_pass(c, scan, entries.drop_last(), p);
        let e = entries.last();
        if present_start(scan, e.0) != Some(e.1.start_ticks) {
            let r = emit(q, exit_event(c, e.0, e.1));
            Pass { known: r.known, stats: ProcStats { exits: sat_add(r.stats.exits, 1), ..r.stats }, events: r.events }
        } else {
            Pass { known: q.known.push(e), stats: q.stats, events: q.events }
        }
    }
}

/// A copy of a remembered process.
fn copy_tracked(t: &TrackedProcess) -> (c: TrackedProcess)
    ensures
        c@ == t@,
{
    TrackedProcess {
        comm: t.comm.clone(),
        start_ticks: t.start_ticks,
        cpu_ticks: t.cpu_ticks,
        read_bytes: t.read_bytes,
        write_bytes: t.write_bytes,
    }
}

/// Forgets the processes that exited and emits their exit events.
fn exit_exec(
    timestamp: Quantity,
    anonymize: bool,
    seed: u64,
    sorted: &Vec<ProcessSample>,
    scan_len: usize,
    previous: &Vec<(u32, TrackedProcess)>,
    known: &mut Vec<(u32, TrackedProcess)>,
    stats: &mut ProcStats,
    events: &mut Vec<NormalizedEvent>,
)
    requires
        scan_len <= sorted.len(),
        old(known)@.len() == 0,
        old(events).len() <= MAX_EVENTS_PER_SAMPLE,
        pids_increasing(tracked_views(previous@)),
    ensures
        pass_of(final(known)@, *final(stats), final(events)@) == exit_pass(
            (Ctx { timestamp, anonymize, seed }),
            process_views(sorted@).take(scan_len as int),
            tracked_views(previous@),
            pass_of(old(known)@, *old(stats), old(events)@),
        ),
        pids_increasing(tracked_views(final(known)@)),
        final(known).len() <= previous.len(),
        final(events).len() <= MAX_EVENTS_PER_SAMPLE,
{
    let ghost c = Ctx { timestamp, anonymize, seed };
    let ghost scan = process_views(sorted@).take(scan_len as int);
    let ghost entries = tracked_views(previous@);
    let ghost p0 = pass_of(known@, *stats, events@);
    let mut k: usize = 0;
    while k < previous.len()
        invariant
            k <= previous.len(),
            scan_len <= sorted.len(),
            scan == process_views(sorted@).take(scan_len as int),
            entries == tracked_views(previous@),
            pids_increasing(entries),
            c == (Ctx { timestamp, anonymize, seed }),
            pass_of(known@, *stats, events@) == exit_pass(c, scan, entries.take(k as int), p0),
            pids_increasing(tracked_views(known@)),
            known.len() > 0 && k < previous.len() ==> tracked_views(known@).last().0 < entries[k as int].0,
            known.len() <= k,
            events.len() <= MAX_EVENTS_PER_SAMPLE,
        decreases previous.len() - k,
    {
        proof {
            assert(entries.take(k + 1).drop_last() =~= entries.take(k as int));
            assert(entries.take(k + 1).last() == entries[k as int]);
        }
        let pid = previous[k].0;
        let entry = &previous[k].1;
        let present = present_start_exec(sorted, scan_len, pid);
        if present != Some(entry.start_ticks) {
            let identity = identity_for(anonymize, seed, pid, entry.start_ticks, entry.comm.as_str());
            let event = process_event(
                timestamp,
                "proc.exit",
                Some(identity),
                None,
                Quantity::Ratio { numerator: 2048, denominator: 1 },
                Direction::Outbound,
                pid,
                entry.start_ticks,
                entry.comm.as_str(),
                anonymize,
            );
            let ghost before_known = known@;
            emit_exec(known, stats, events, event);
            stats.exits = stats.exits.saturating_add(1);
            proof {
                if k + 1 < previous.len() && known.len() > 0 {
                    assert(entries[k as int].0 < entries[k + 1].0);
                }
            }
        } else {
            let ghost before = tracked_views(known@);
            let copy = copy_tracked(entry);
            known.push((pid, copy));
            proof {
                assert(tracked_views(known@) =~= before.push(entries[k as int]));
                let t = tracked_views(known@);
                assert forall|a: int, b: int| 0 <= a < b < t.len() implies t[a].0 < t[b].0 by {
                    if b == t.len() - 1 && a < b {
                        if a < before.len() - 1 {
                            assert(before[a].0 < before.last().0);
                        }
                    }
                }
                if k + 1 < previous.len() {
                    assert(entries[k as int].0 < entries[k + 1].0);
                }
            }
        }
        k = k + 1;
    }
    proof {
        assert(entries.take(previous.len() as int) =~= entries);
    }
}

/// The growth of a counter, zero when it went backwards.
pub open spec fn step_delta(previous: u64, current: u64) -> u64 {
    if current >= previous {
        (current - previous) as u64
    } else {
        0
    }
}

/// The growth of an optional counter, when both readings exist.
pub open spec fn opt_step(previous: Option<u64>, current: Option<u64>) -> Option<u64> {
    match (previous, current) {
        (Some(a), Some(b)) => Some(step_delta(a, b)),
        _ => None,
    }
}

/// Did an optional counter go backwards?
pub open spec fn opt_reset(previous: Option<u64>, current: Option<u64>) -> bool {
    match (previous, current) {
        (Some(a), Some(b)) => b < a,
        _ => false,
    }
}

/// A counter increased by one when `yes`, saturating.
pub open spec fn bump(n: u64, yes: bool) -> u64 {
    if yes {
        sat_add(n, 1)
    } else {
        n
    }
}

/// The CPU event weight: 128 per tick, at most 2^20.
pub open spec fn cpu_weight(delta: u64) -> u64 {
    if delta >= 8192 {
        1_048_576
    } else {
        (delta * 128) as u64
    }
}

/// The I/O event weight: the bytes moved, at most 64 MiB.
pub open spec fn io_weight(delta: u64) -> u64 {
    if delta > MAX_DELTA_BYTES {
        MAX_DELTA_BYTES
    } else {
        delta
    }
}

/// CPU time a process used since the last sample.
pub open spec fn cpu_event(c: Ctx, x: ProcessView, id: Seq<char>, delta: u64) -> EventView {
    process_event_view(c.timestamp, "proc.cpu"@, Some(id), Some("host:cpu"@), whole(cpu_weight(delta)),
        Direction::Neutral, x.pid, x.start_ticks, x.comm, c.anonymize)
}

/// Bytes a process read from storage since the last sample.
pub open spec fn read_event(c: Ctx, x: ProcessView, id: Seq<char>, delta: u64) -> EventView {
    process_event_view(c.timestamp, "proc.io.read"@, Some("host:storage"@), Some(id), whole(io_weight(delta)),
        Direction::Inbound, x.pid, x.start_ticks, x.comm, c.anonymize)
}

/// Bytes a process wrote to storage since the last sample.
pub open spec fn write_event(c: Ctx, x: ProcessView, id: Seq<char>, delta: u64) -> EventView {
    process_event_view(c.timestamp, "proc.io.write"@, Some(id), Some("host:storage"@), whole(io_weight(delta)),
        Direction::Outbound, x.pid, x.start_ticks, x.comm, c.anonymize)
}

/// What a known process becomes after a new reading: its latest name and
/// counters, its original start.
pub open spec fn refreshed(previous: TrackedView, x: ProcessView) -> TrackedView {
    TrackedView {
        comm: bounded_comm(x.comm),
        start_ticks: previous.start_ticks,
        cpu_ticks: x.cpu_ticks,
        read_bytes: x.read_bytes,
        write_bytes: x.write_bytes,
    }
}

/// A known process read again: its counters are refreshed, counter
/// resets counted, and the CPU, read and write growth emitted as events
/// when positive.
pub open spec fn update_one(c: Ctx, p: Pass, i: int, x: ProcessView) -> Pass {
    let previous = p.known[i].1;
    let id = identity_text(c.anonymize, c.seed, x.pid, x.start_ticks, x.comm);
    let cpu = step_delta(previous.cpu_ticks, x.cpu_ticks);
    let read = opt_step(previous.read_bytes, x.read_bytes);
    let write = opt_step(previous.write_bytes, x.write_bytes);
    let cpu_ev = cpu > 0;
    let read_ev = read is Some && read.unwrap() > 0;
    let write_ev = write is Some && write.unwrap() > 0;
    let stats = ProcStats {
        counter_resets: bump(
            bump(
                bump(p.stats.counter_resets, x.cpu_ticks < previous.cpu_ticks),
                opt_reset(previous.read_bytes, x.read_bytes),
            ),
            opt_reset(previous.write_bytes, x.write_bytes),
        ),
        cpu_events: bump(p.stats.cpu_events, cpu_ev),
        io_events: bump(bump(p.stats.io_events, read_ev), write_ev),
        ..p.stats
    };
    let q0 = Pass { known: p.known.update(i, (x.pid, refreshed(previous, x))), stats, events: p.events };
    let q1 = if cpu_ev { emit(q0, cpu_event(c, x, id, cpu)) } else { q0 };
    let q2 = if read_ev { emit(q1, read_event(c, x, id, read.unwrap())) } else { q1 };
    if write_ev { emit(q2, write_event(c, x, id, write.unwrap())) } else { q2 }
}

/// Each sorted process that is known is refreshed; the others are
/// returned, in order, as new.
pub open spec fn update_pass(c: Ctx, procs: Seq<ProcessView>, p: Pass) -> (Pass, Seq<ProcessView>)
    decreases procs.len(),
{
    if procs.len() == 0 {
        (p, Seq::empty())
    } else {
        let (q, fresh) = update_pass(c, procs.drop_last(), p);
        let x = procs.last();
        match position_of(q.known, x.pid) {
            Some(i) => (update_one(c, q, i, x), fresh),
            None => (q, fresh.push(x)),
        }
    }
}

/// The growth of a counter and whether it went backwards.
fn delta_exec(previous: u64, current: u64) -> (r: (u64, bool))
    ensures
        r.0 == step_delta(previous, current),
        r.1 == (current < previous),
{
    if current >= previous {
        (current - previous, false)
    } else {
        (0, true)
    }
}

/// The growth of an optional counter and whether it went backwards.
fn opt_delta_exec(previous: Option<u64>, current: Option<u64>) -> (r: (Option<u64>, bool))
    ensures
        r.0 == opt_step(previous, current),
        r.1 == opt_reset(previous, current),
{
    match (previous, current) {
        (Some(a), Some(b)) => {
            let (d, reset) = delta_exec(a, b);
            (Some(d), reset)
        },
        _ => (None, false),
    }
}

/// Refreshes the known process at `i` from a new reading of it.
#[verifier::rlimit(40)]
fn update_one_exec(
    timestamp: Quantity,
    anonymize: bool,
    seed: u64,
    known: &mut Vec<(u32, TrackedProcess)>,
    stats: &mut ProcStats,
    events: &mut Vec<NormalizedEvent>,
    i: usize,
    x: &ProcessSample,
)
    requires
        i < old(known).len(),
        old(known)@[i as int].0 == x.pid,
        old(events).len() <= MAX_EVENTS_PER_SAMPLE,
    ensures
        pass_of(final(known)@, *final(stats), final(events)@) == update_one(
            (Ctx { timestamp, anonymize, seed }),
            pass_of(old(known)@, *old(stats), old(events)@),
            i as int,
            x@,
        ),
        tracked_views(final(known)@) == tracked_views(old(known)@).update(
            i as int,
            (x.pid, refreshed(tracked_views(old(known)@)[i as int].1, x@)),
        ),
        final(events).len() <= MAX_EVENTS_PER_SAMPLE,
        final(known).len() == old(known).len(),
{
    let ghost c = Ctx { timestamp, anonymize, seed };
    let ghost p = pass_of(known@, *stats, events@);
    let identity = identity_for(anonymize, seed, x.pid, x.start_ticks, x.comm.as_str());
    let previous_start = known[i].1.start_ticks;
    let (cpu, cpu_reset) = delta_exec(known[i].1.cpu_ticks, x.cpu_ticks);
    let (read, read_reset) = opt_delta_exec(known[i].1.read_bytes, x.read_bytes);
    let (write, write_reset) = opt_delta_exec(known[i].1.write_bytes, x.write_bytes);
    if cpu_reset {
        stats.counter_resets = stats.counter_resets.saturating_add(1);
    }
    if read_reset {
        stats.counter_resets = stats.counter_resets.saturating_add(1);
    }
    if write_reset {
        stats.counter_resets = stats.counter_resets.saturating_add(1);
    }
    let cpu_ev = cpu > 0;
    let read_ev = match read {
        Some(d) => d > 0,
        None => false,
    };
    let write_ev = match write {
        Some(d) => d > 0,
        None => false,
    };
    if cpu_ev {
        stats.cpu_events = stats.cpu_events.saturating_add(1);
    }
    if read_ev {
        stats.io_events = stats.io_events.saturating_add(1);
    }
    if write_ev {
        stats.io_events = stats.io_events.saturating_add(1);
    }
    let ghost before = tracked_views(known@);
    let refreshed_entry = TrackedProcess {
        comm: bounded_text_exec(x.comm.as_str(), MAX_COMM_CHARS),
        start_ticks: previous_start,
        cpu_ticks: x.cpu_ticks,
        read_bytes: x.read_bytes,
        write_bytes: x.write_bytes,
    };
    known.set(i, (x.pid, refreshed_entry));
    proof {
        assert(tracked_views(known@) =~= before.update(i as int, (x.pid, refreshed(before[i as int].1, x@))));
        let q0 = pass_of(known@, *stats, events@);
        let spec_q0 = Pass {
            known: p.known.update(i as int, (x.pid, refreshed(p.known[i as int].1, x@))),
            stats: ProcStats {
                counter_resets: bump(
                    bump(
                        bump(p.stats.counter_resets, x.cpu_ticks < p.known[i as int].1.cpu_ticks),
                        opt_reset(p.known[i as int].1.read_bytes, x.read_bytes),
                    ),
                    opt_reset(p.known[i as int].1.write_bytes, x.write_bytes),
                ),
                cpu_events: bump(p.stats.cpu_events, cpu_ev),
                io_events: bump(bump(p.stats.io_events, read_ev), write_ev),
                ..p.stats
            },
            events: p.events,
        };
        assert(q0.known == spec_q0.known);
        assert(q0.stats == spec_q0.stats);
        assert(q0 == spec_q0);
    }
    if cpu_ev {
        let e = process_event(
            timestamp,
            "proc.cpu",
            Some(identity.clone()),
            Some(String::from_str("host:cpu")),
            Quantity::Ratio { numerator: if cpu >= 8192 { 1_048_576 } else { cpu * 128 }, denominator: 1 },
            Direction::Neutral,
            x.pid,
            x.start_ticks,
            x.comm.as_str(),
            anonymize,
        );
        emit_exec(known, stats, events, e);
    }
    if read_ev {
        let d = match read {
            Some(d) => d,
            None => 0,
        };
        let e = process_event(
            timestamp,
            "proc.io.read",
            Some(String::from_str("host:storage")),
            Some(identity.clone()),
            Quantity::Ratio { numerator: if d > MAX_DELTA_BYTES { MAX_DELTA_BYTES } else { d }, denominator: 1 },
            Direction::Inbound,
            x.pid,
            x.start_ticks,
            x.comm.as_str(),
            anonymize,
        );
        emit_exec(known, stats, events, e);
    }
    if write_ev {
        let d = match write {
            Some(d) => d,
            None => 0,
        };
        let e = process_event(
            timestamp,
            "proc.io.write",
            Some(identity.clone()),
            Some(String::from_str("host:storage")),
            Quantity::Ratio { numerator: if d > MAX_DELTA_BYTES { MAX_DELTA_BYTES } else { d }, denominator: 1 },
            Direction::Outbound,
            x.pid,
            x.start_ticks,
            x.comm.as_str(),
            anonymize,
        );
        emit_exec(known, stats, events, e);
    }
}

/// Refreshes the known processes of a sample and collects the new ones.
fn update_exec(
    timestamp: Quantity,
    anonymize: bool,
    seed: u64,
    sorted: &Vec<ProcessSample>,
    known: &mut Vec<(u32, TrackedProcess)>,
    stats: &mut ProcStats,
    events: &mut Vec<NormalizedEvent>,
) -> (fresh: Vec<ProcessSample>)
    requires
        pids_increasing(tracked_views(old(known)@)),
        old(events).len() <= MAX_EVENTS_PER_SAMPLE,
    ensures
        pass_of(final(known)@, *final(stats), final(events)@) == update_pass(
            (Ctx { timestamp, anonymize, seed }),
            process_views(sorted@),
            pass_of(old(known)@, *old(stats), old(events)@),
        ).0,
        process_views(fresh@) == update_pass(
            (Ctx { timestamp, anonymize, seed }),
            process_views(sorted@),
            pass_of(old(known)@, *old(stats), old(events)@),
        ).1,
        pids_increasing(tracked_views(final(known)@)),
        final(known).len() == old(known).len(),
        final(events).len() <= MAX_EVENTS_PER_SAMPLE,
{
    let ghost c = Ctx { timestamp, anonymize, seed };
    let ghost pv = process_views(sorted@);
    let ghost p0 = pass_of(known@, *stats, events@);
    let ghost n0 = known.len();
    let mut fresh: Vec<ProcessSample> = Vec::new();
    let mut k: usize = 0;
    while k < sorted.len()
        invariant
            k <= sorted.len(),
            pv == process_views(sorted@),
            c == (Ctx { timestamp, anonymize, seed }),
            pass_of(known@, *stats, events@) == update_pass(c, pv.take(k as int), p0).0,
            process_views(fresh@) == update_pass(c, pv.take(k as int), p0).1,
            pids_increasing(tracked_views(known@)),
            known.len() == n0,
            events.len() <= MAX_EVENTS_PER_SAMPLE,
        decreases sorted.len() - k,
    {
        proof {
            assert(pv.take(k + 1).drop_last() =~= pv.take(k as int));
            assert(pv.take(k + 1).last() == pv[k as int]);
        }
        match position_exec(known, sorted[k].pid) {
            Some(i) => {
                let ghost before = tracked_views(known@);
                proof {
                    lemma_lower_bound_split(before, sorted@[k as int].pid);
                }
                update_one_exec(timestamp, anonymize, seed, known, stats, events, i, &sorted[k]);
                proof {
                    let t = tracked_views(known@);
                    assert forall|a: int, b: int| 0 <= a < b < t.len() implies t[a].0 < t[b].0 by {
                        assert(t[a].0 == before[a].0);
                        assert(t[b].0 == before[b].0);
                    }
                }
            },
            None => {
                let ghost before = process_views(fresh@);
                let copy = copy_process(&sorted[k]);
                fresh.push(copy);
                proof {
                    assert(process_views(fresh@) =~= before.push(pv[k as int]));
                }
            },
        }
        k = k + 1;
    }
    proof {
        assert(pv.take(sorted.len() as int) =~= pv);
    }
    fresh
}

/// The event for a process seen for the first time.
pub open spec fn start_event(c: Ctx, x: ProcessView) -> EventView {
    let comm = bounded_comm(x.comm);
    process_event_view(
        c.timestamp,
        "proc.start"@,
        None,
        Some(identity_text(c.anonymize, c.seed, x.pid, x.start_ticks, comm)),
        whole(512),
        Direction::Inbound,
        x.pid,
        x.start_ticks,
        comm,
        c.anonymize,
    )
}

/// New processes are remembered, with a start event, while there is room;
/// the others are counted as refused and as untracked.
pub open spec fn start_pass(c: Ctx, fresh: Seq<ProcessView>, p: Pass, untracked: u64) -> (Pass, u64)
    decreases fresh.len(),
{
    if fresh.len() == 0 {
        (p, untracked)
    } else {
        let (q, u) = start_pass(c, fresh.drop_last(), p, untracked);
        let x = fresh.last();
        if q.known.len() >= MAX_TRACKED_PROCESSES {
            (
                Pass {
                    known: q.known,
                    stats: ProcStats { tracking_refused: sat_add(q.stats.tracking_refused, 1), ..q.stats },
                    events: q.events,
                },
                sat_add(u, 1),
            )
        } else {
            let q1 = Pass {
                known: tracked_put(q.known, x.pid, remembered(x, bounded_comm(x.comm))),
                stats: q.stats,
                events: q.events,
            };
            let q2 = emit(q1, start_event(c, x));
            (Pass { known: q2.known, stats: ProcStats { starts: sat_add(q2.stats.starts, 1), ..q2.stats }, events: q2.events }, u)
        }
    }
}

/// Remembers new processes and emits their start events.
fn start_exec(
    timestamp: Quantity,
    anonymize: bool,
    seed: u64,
    fresh: &Vec<ProcessSample>,
    known: &mut Vec<(u32, TrackedProcess)>,
    stats: &mut ProcStats,
    events: &mut Vec<NormalizedEvent>,
    untracked: u64,
) -> (u: u64)
    requires
        pids_increasing(tracked_views(old(known)@)),
        old(known).len() <= MAX_TRACKED_PROCESSES,
        old(events).len() <= MAX_EVENTS_PER_SAMPLE,
    ensures
        (pass_of(final(known)@, *final(stats), final(events)@), u) == start_pass(
            (Ctx { timestamp, anonymize, seed }),
            process_views(fresh@),
            pass_of(old(known)@, *old(stats), old(events)@),
            untracked,
        ),
        pids_increasing(tracked_views(final(known)@)),
        final(known).len() <= MAX_TRACKED_PROCESSES,
        final(events).len() <= MAX_EVENTS_PER_SAMPLE,
{
    let ghost c = Ctx { timestamp, anonymize, seed };
    let ghost fv = process_views(fresh@);
    let ghost p0 = pass_of(known@, *stats, events@);
    let mut u = untracked;
    let mut k: usize = 0;
    while k < fresh.len()
        invariant
            k <= fresh.len(),
            fv == process_views(fresh@),
            c == (Ctx { timestamp, anonymize, seed }),
            (pass_of(known@, *stats, events@), u) == start_pass(c, fv.take(k as int), p0, untracked),
            pids_increasing(tracked_views(known@)),
            known.len() <= MAX_TRACKED_PROCESSES,
            events.len() <= MAX_EVENTS_PER_SAMPLE,
        decreases fresh.len() - k,
    {
        proof {
            assert(fv.take(k + 1).drop_last() =~= fv.take(k as int));
            assert(fv.take(k + 1).last() == fv[k as int]);
        }
        let x = &fresh[k];
        if known.len() == MAX_TRACKED_PROCESSES {
            stats.tracking_refused = stats.tracking_refused.saturating_add(1);
            u = u.saturating_add(1);
        } else {
            let comm = bounded_text_exec(x.comm.as_str(), MAX_COMM_CHARS);
            let identity = identity_for(anonymize, seed, x.pid, x.start_ticks, comm.as_str());
            let ghost before = tracked_views(known@);
            let entry = TrackedProcess {
                comm: comm.clone(),
                start_ticks: x.start_ticks,
                cpu_ticks: x.cpu_ticks,
                read_bytes: x.read_bytes,
                write_bytes: x.write_bytes,
            };
            put_exec(known, x.pid, entry);
            proof {
                lemma_tracked_put(before, x.pid, remembered(fv[k as int], bounded_comm(fv[k as int].comm)));
            }
            let e = process_event(
                timestamp,
                "proc.start",
                None,
                Some(identity),
                Quantity::Ratio { numerator: 512, denominator: 1 },
                Direction::Inbound,
                x.pid,
                x.start_ticks,
                comm.as_str(),
                anonymize,
            );
            emit_exec(known, stats, events, e);
            stats.starts = stats.starts.saturating_add(1);
        }
        k = k + 1;
    }
    proof {
        assert(fv.take(fresh.len() as int) =~= fv);
    }
    u
}

/// The memory band: the available fraction in twentieths, rounded down;
/// 20 when the total is unknown or nothing is in use.
pub open spec fn memory_band(m: MemorySample) -> u8 {
    if m.total_kib == 0 || m.available_kib >= m.total_kib {
        20
    } else {
        ((20 * m.available_kib) / (m.total_kib as int)) as u8
    }
}

/// Memory pressure: less than 15% of the total is available.
pub open spec fn memory_pressure(m: MemorySample) -> bool {
    m.total_kib != 0 && 100 * m.available_kib < 15 * m.total_kib
}

/// The available percentage, rounded to the nearest whole number (halves
/// up).
pub open spec fn available_percent(m: MemorySample) -> u64 {
    ((200 * m.available_kib + m.total_kib) / (2 * m.total_kib as int)) as u64
}

/// The weight of memory pressure, `4096 (total - available) / total`: exact
/// while the total is below 2^52, beyond that with the total divided
/// by 4096 (rounded down) as the denominator.
pub open spec fn pressure_magnitude(m: MemorySample) -> Quantity {
    if m.total_kib < 0x10_0000_0000_0000 {
        Quantity::Ratio {
            numerator: (4096 * (m.total_kib - m.available_kib)) as u64,
            denominator: m.total_kib,
        }
    } else {
        Quantity::Ratio {
            numerator: (m.total_kib - m.available_kib) as u64,
            denominator: (m.total_kib / 4096) as u64,
        }
    }
}

/// The memory band of a memory reading.
fn memory_band_exec(m: MemorySample) -> (b: u8)
    ensures
        b == memory_band(m),
{
    if m.total_kib == 0 || m.available_kib >= m.total_kib {
        20
    } else {
        let scaled = 20u128 * (m.available_kib as u128);
        let band = scaled / (m.total_kib as u128);
        proof {
            assert(band < 20) by (nonlinear_arith)
                requires
                    band == scaled / (m.total_kib as u128),
                    scaled == 20 * m.available_kib,
                    m.available_kib < m.total_kib,
            ;
        }
        band as u8
    }
}

/// Host events after the processes: untracked processes, a changed run
/// queue, and memory pressure when its band changes.
pub open spec fn host_pass(
    timestamp: Quantity,
    p: Pass,
    untracked: u64,
    stat: ProcStat,
    memory: Option<MemorySample>,
    last_running: Option<u32>,
    last_band: Option<u8>,
) -> (Pass, Option<u32>, Option<u8>) {
    let p1 = if untracked > 0 {
        emit(
            p,
            host_event_view(
                timestamp,
                "proc.background"@,
                whole(if untracked > 1_048_576 { 1_048_576 } else { untracked }),
                "untracked_processes"@,
                untracked,
            ),
        )
    } else {
        p
    };
    let running = stat.procs_running;
    let p2 = if last_running != Some(running) {
        emit(
            p1,
            host_event_view(
                timestamp,
                "host.runqueue"@,
                whole(((if running == 0 { 1 } else { running }) * 256) as u64),
                "procs_running"@,
                running as u64,
            ),
        )
    } else {
        p1
    };
    match memory {
        Some(m) => {
            let band = memory_band(m);
            let p3 = if memory_pressure(m) && last_band != Some(band) {
                emit(
                    p2,
                    host_event_view(
                        timestamp,
                        "host.memory.pressure"@,
                        pressure_magnitude(m),
                        "available_percent"@,
                        available_percent(m),
                    ),
                )
            } else {
                p2
            };
            (p3, Some(running), Some(band))
        },
        None => (p2, Some(running), last_band),
    }
}

/// Emits the host events and returns the run queue and memory band seen.
fn host_exec(
    timestamp: Quantity,
    known: &Vec<(u32, TrackedProcess)>,
    stats: &mut ProcStats,
    events: &mut Vec<NormalizedEvent>,
    untracked: u64,
    stat: ProcStat,
    memory: Option<MemorySample>,
    last_running: Option<u32>,
    last_band: Option<u8>,
) -> (r: (Option<u32>, Option<u8>))
    requires
        old(events).len() <= MAX_EVENTS_PER_SAMPLE,
    ensures
        (pass_of(known@, *final(stats), final(events)@), r.0, r.1) == host_pass(
            timestamp,
            pass_of(known@, *old(stats), old(events)@),
            untracked,
            stat,
            memory,
            last_running,
            last_band,
        ),
        final(events).len() <= MAX_EVENTS_PER_SAMPLE,
{
    if untracked > 0 {
        let e = host_event(
            timestamp,
            "proc.background",
            Quantity::Ratio { numerator: if untracked > 1_048_576 { 1_048_576 } else { untracked }, denominator: 1 },
            "untracked_processes",
            untracked,
        );
        emit_exec(known, stats, events, e);
    }
    let running = stat.procs_running;
    if last_running != Some(running) {
        let base: u64 = if running == 0 { 1 } else { running as u64 };
        let e = host_event(
            timestamp,
            "host.runqueue",
            Quantity::Ratio { numerator: base * 256, denominator: 1 },
            "procs_running",
            running as u64,
        );
        emit_exec(known, stats, events, e);
    }
    match memory {
        Some(m) => {
            let band = memory_band_exec(m);
            let pressure = m.total_kib != 0 && 100u128 * (m.available_kib as u128) < 15u128 * (m.total_kib as u128);
            if pressure && last_band != Some(band) {
                let t = m.total_kib;
                let a = m.available_kib;
                assert(a < t);
                let magnitude = if t < 0x10_0000_0000_0000 {
                    Quantity::Ratio { numerator: 4096 * (t - a), denominator: t }
                } else {
                    Quantity::Ratio { numerator: t - a, denominator: t / 4096 }
                };
                let rounded = (200u128 * (a as u128) + (t as u128)) / (2u128 * (t as u128));
                proof {
                    assert(rounded <= 200 * a + t) by (nonlinear_arith)
                        requires
                            rounded == (200 * a + t) / (2 * t as int),
                            t > 0,
                    ;
                    assert(100 * a < 15 * t);
                    assert(rounded < 100) by (nonlinear_arith)
                        requires
                            rounded == (200 * a + t) / (2 * t as int),
                            t > 0,
                            100 * a < 15 * t,
                    ;
                }
                let e = host_event(
                    timestamp,
                    "host.memory.pressure",
                    magnitude,
                    "available_percent",
                    rounded as u64,
                );
                emit_exec(known, stats, events, e);
            }
            (Some(running), Some(band))
        },
        None => (Some(running), last_band),
    }
}

/// The busy and total CPU ticks since the previous sample, when the total
/// advanced: idle ticks that went backwards count as none, and idle never
/// exceeds the total. A stalled or regressed total gives nothing.
pub open spec fn tick_delta(previous: Option<(u64, u64)>, stat: ProcStat) -> Option<(u64, u64)> {
    match previous {
        Some((total0, idle0)) => if stat.total_cpu_ticks > total0 {
            let total = (stat.total_cpu_ticks - total0) as u64;
            let idle = if stat.idle_cpu_ticks >= idle0 { (stat.idle_cpu_ticks - idle0) as u64 } else { 0u64 };
            let idle = if idle > total { total } else { idle };
            Some(((total - idle) as u64, total))
        } else {
            None
        },
        None => None,
    }
}

/// The host CPU gauge: the busy share of the ticks since the previous
/// sample, a ratio between 0 and 1.
pub open spec fn cpu_gauge_view(timestamp: Quantity, busy: u64, total: u64) -> EventView {
    host_event_view(
        timestamp,
        "host.cpu"@,
        Quantity::Ratio { numerator: busy, denominator: total },
        "busy_ticks"@,
        busy,
    )
}

/// The memory in use, `total - available` (none when more is available
/// than the total).
pub open spec fn used_kib(m: MemorySample) -> u64 {
    if m.available_kib >= m.total_kib {
        0
    } else {
        (m.total_kib - m.available_kib) as u64
    }
}

/// The host memory gauge: `1 - available / total`, a ratio between 0 and 1.
pub open spec fn memory_gauge_view(timestamp: Quantity, m: MemorySample) -> EventView {
    host_event_view(
        timestamp,
        "host.memory"@,
        Quantity::Ratio { numerator: used_kib(m), denominator: m.total_kib },
        "available_kib"@,
        m.available_kib,
    )
}

/// The host gauges of a later sample. They come only when the tick counter
/// advanced: the CPU gauge, then the memory gauge when memory was read with
/// a non-zero total. A stalled counter gives neither.
pub open spec fn gauge_pass(
    timestamp: Quantity,
    p: Pass,
    stat: ProcStat,
    memory: Option<MemorySample>,
    last_ticks: Option<(u64, u64)>,
) -> Pass {
    match tick_delta(last_ticks, stat) {
        Some((busy, total)) => {
            let p1 = emit(p, cpu_gauge_view(timestamp, busy, total));
            match memory {
                Some(m) => if m.total_kib > 0 {
                    emit(p1, memory_gauge_view(timestamp, m))
                } else {
                    p1
                },
                None => p1,
            }
        },
        None => p,
    }
}

/// Emits the host gauges.
fn gauge_exec(
    timestamp: Quantity,
    known: &Vec<(u32, TrackedProcess)>,
    stats: &mut ProcStats,
    events: &mut Vec<NormalizedEvent>,
    stat: ProcStat,
    memory: Option<MemorySample>,
    last_ticks: Option<(u64, u64)>,
)
    requires
        old(events).len() <= MAX_EVENTS_PER_SAMPLE,
    ensures
        pass_of(known@, *final(stats), final(events)@) == gauge_pass(
            timestamp,
            pass_of(known@, *old(stats), old(events)@),
            stat,
            memory,
            last_ticks,
        ),
        final(events).len() <= MAX_EVENTS_PER_SAMPLE,
{
    match last_ticks {
        Some((total0, idle0)) => {
            if stat.total_cpu_ticks > total0 {
                let total = stat.total_cpu_ticks - total0;
                let idle = if stat.idle_cpu_ticks >= idle0 { stat.idle_cpu_ticks - idle0 } else { 0 };
                let idle = if idle > total { total } else { idle };
                let busy = total - idle;
                let e = host_event(
                    timestamp,
                    "host.cpu",
                    Quantity::Ratio { numerator: busy, denominator: total },
                    "busy_ticks",
                    busy,
                );
                emit_exec(known, stats, events, e);
                match memory {
                    Some(m) => {
                        if m.total_kib > 0 {
                            let used = if m.available_kib >= m.total_kib { 0 } else { m.total_kib - m.available_kib };
                            let e = host_event(
                                timestamp,
                                "host.memory",
                                Quantity::Ratio { numerator: used, denominator: m.total_kib },
                                "available_kib",
                                m.available_kib,
                            );
                            emit_exec(known, stats, events, e);
                        }
                    },
                    None => {},
                }
            }
        },
        None => {},
    }
}

/// The counters after one more sample, before its processes are seen.
pub open spec fn counted(s: ProcStats, sample: ProcSample) -> ProcStats {
    ProcStats {
        samples: sat_add(s.samples, 1),
        unreadable: sat_add(s.unreadable, sample.unreadable),
        vanished: sat_add(s.vanished, sample.vanished),
        scan_refused: sat_add(s.scan_refused, sample.scan_refused),
        ..s
    }
}

/// How many sorted processes count as present: at most the scan bound.
pub open spec fn scanned(n: nat) -> int {
    if n > MAX_SCANNED_PROCESSES {
        MAX_SCANNED_PROCESSES as int
    } else {
        n as int
    }
}

/// The tracker after a sample, and the events the sample produces.
///
/// The first sample is a quiet baseline: its processes are remembered and
/// nothing is emitted. Later samples, with the processes sorted by pid and
/// start, emit in order: the host CPU and memory gauges when the tick
/// counter advanced; exits of known
/// processes that the scan no longer
/// shows with the same start; CPU and I/O growth of known processes;
/// starts of new ones; then untracked processes, a changed run queue and
/// memory pressure. Output beyond the per-sample bound is counted, not
/// kept.
pub open spec fn ingest_result(t: TrackerView, sample: ProcSample) -> (TrackerView, Seq<EventView>) {
    let stats0 = counted(t.stats, sample);
    let order = sorted_processes(process_views(sample.processes@));
    if !t.initialized {
        let b = baseline_from(t.known, stats0, order);
        (
            TrackerView {
                known: b.known,
                stats: ProcStats { tracked_processes: b.known.len() as usize, ..b.stats },
                anonymize: t.anonymize,
                session_seed: t.session_seed,
                last_running: Some(sample.stat.procs_running),
                last_memory_band: match sample.memory {
                    Some(m) => Some(memory_band(m)),
                    None => None,
                },
                last_ticks: Some((sample.stat.total_cpu_ticks, sample.stat.idle_cpu_ticks)),
                initialized: true,
            },
            Seq::empty(),
        )
    } else {
        let c = Ctx { timestamp: sample.timestamp, anonymize: t.anonymize, seed: t.session_seed };
        let scan = order.take(scanned(order.len()));
        let g = gauge_pass(
            sample.timestamp,
            Pass { known: Seq::empty(), stats: stats0, events: Seq::empty() },
            sample.stat,
            sample.memory,
            t.last_ticks,
        );
        let a = exit_pass(c, scan, t.known, g);
        let (b, fresh) = update_pass(c, order, a);
        let (d, untracked) = start_pass(c, fresh, b, sample.scan_refused);
        let (e, running, band) = host_pass(
            sample.timestamp,
            d,
            untracked,
            sample.stat,
            sample.memory,
            t.last_running,
            t.last_memory_band,
        );
        (
            TrackerView {
                known: e.known,
                stats: ProcStats { tracked_processes: e.known.len() as usize, ..e.stats },
                anonymize: t.anonymize,
                session_seed: t.session_seed,
                last_running: running,
                last_memory_band: band,
                last_ticks: Some((sample.stat.total_cpu_ticks, sample.stat.idle_cpu_ticks)),
                initialized: true,
            },
            e.events,
        )
    }
}

impl ProcTracker {
    /// Ingests one sample and returns its events.
    pub fn ingest(&mut self, sample: ProcSample) -> (events: Vec<NormalizedEvent>)
        requires
            tracker_wf(old(self)@),
        ensures
            tracker_wf(final(self)@),
            (final(self)@, event_views(events@)) == ingest_result(old(self)@, sample),
            events.len() <= MAX_EVENTS_PER_SAMPLE,
    {
        let ghost t0 = self@;
        let sorted = sort_processes(&sample.processes);
        self.stats.samples = self.stats.samples.saturating_add(1);
        self.stats.unreadable = self.stats.unreadable.saturating_add(sample.unreadable);
        self.stats.vanished = self.stats.vanished.saturating_add(sample.vanished);
        self.stats.scan_refused = self.stats.scan_refused.saturating_add(sample.scan_refused);
        proof {
            assert(self.stats == counted(t0.stats, sample));
        }
        if !self.initialized {
            baseline_exec(&mut self.known, &mut self.stats, &sorted);
            self.stats.tracked_processes = self.known.len();
            self.last_running = Some(sample.stat.procs_running);
            self.last_ticks = Some((sample.stat.total_cpu_ticks, sample.stat.idle_cpu_ticks));
            self.last_memory_band = match sample.memory {
                Some(m) => Some(memory_band_exec(m)),
                None => None,
            };
            self.initialized = true;
            let events: Vec<NormalizedEvent> = Vec::new();
            proof {
                assert(event_views(events@) =~= Seq::<EventView>::empty());
            }
            return events;
        }
        let scan_len = if sorted.len() > MAX_SCANNED_PROCESSES { MAX_SCANNED_PROCESSES } else { sorted.len() };
        let mut events: Vec<NormalizedEvent> = Vec::new();
        let mut known: Vec<(u32, TrackedProcess)> = Vec::new();
        proof {
            assert(tracked_views(known@) =~= Seq::<(u32, TrackedView)>::empty());
            assert(event_views(events@) =~= Seq::<EventView>::empty());
        }
        gauge_exec(
            sample.timestamp,
            &known,
            &mut self.stats,
            &mut events,
            sample.stat,
            sample.memory,
            self.last_ticks,
        );
        exit_exec(
            sample.timestamp,
            self.anonymize,
            self.session_seed,
            &sorted,
            scan_len,
            &self.known,
            &mut known,
            &mut self.stats,
            &mut events,
        );
        self.known = known;
        let fresh = update_exec(
            sample.timestamp,
            self.anonymize,
            self.session_seed,
            &sorted,
            &mut self.known,
            &mut self.stats,
            &mut events,
        );
        let untracked = start_exec(
            sample.timestamp,
            self.anonymize,
            self.session_seed,
            &fresh,
            &mut self.known,
            &mut self.stats,
            &mut events,
            sample.scan_refused,
        );
        let (running, band) = host_exec(
            sample.timestamp,
            &self.known,
            &mut self.stats,
            &mut events,
            untracked,
            sample.stat,
            sample.memory,
            self.last_running,
            self.last_memory_band,
        );
        self.last_running = running;
        self.last_memory_band = band;
        self.last_ticks = Some((sample.stat.total_cpu_ticks, sample.stat.idle_cpu_ticks));
        self.stats.tracked_processes = self.known.len();
        self.initialized = true;
        events
    }
}


/// Law: the first sample a tracker sees is a quiet baseline: it emits no
/// event, whatever the sample holds, and the tracker is initialized after it.
pub proof fn law_first_sample_is_quiet(t: TrackerView, sample: ProcSample)
    requires
        !t.initialized,
    ensures
        ingest_result(t, sample).1.len() == 0,
        ingest_result(t, sample).0.initialized,
{
}

/// Law: an anonymous identity hides the process name: it is the same for
/// every name, and within a session depends only on the pid and start time.
pub proof fn law_anonymous_identity_hides_name(seed: u64, pid: u32, start: u64, name: Seq<char>, other: Seq<char>)
    ensures
        identity_text(true, seed, pid, start, name) == identity_text(true, seed, pid, start, other),
{
}

/// No entry of `known` is for `pid`.
pub open spec fn forgets(known: Seq<(u32, TrackedView)>, pid: u32) -> bool {
    forall|j: int| 0 <= j < known.len() ==> (#[trigger] known[j]).0 != pid
}

/// No process of `procs` has `pid`.
pub open spec fn lacks(procs: Seq<ProcessView>, pid: u32) -> bool {
    forall|k: int| 0 <= k < procs.len() ==> (#[trigger] procs[k]).pid != pid
}

proof fn lemma_lower_bound_range(t: Seq<(u32, TrackedView)>, pid: u32)
    ensures
        0 <= lower_bound(t, pid) <= t.len(),
    decreases t.len(),
{
    if t.len() > 0 && t[0].0 < pid {
        lemma_lower_bound_range(t.drop_first(), pid);
    }
}

proof fn lemma_put_keeps_forgotten(t: Seq<(u32, TrackedView)>, other: u32, v: TrackedView, pid: u32)
    requires
        forgets(t, pid),
        other != pid,
    ensures
        forgets(tracked_put(t, other, v), pid),
{
    lemma_lower_bound_range(t, other);
}

proof fn lemma_sorted_lacks(s: Seq<ProcessView>, pid: u32)
    requires
        lacks(s, pid),
    ensures
        lacks(sorted_processes(s), pid),
    decreases s.len(),
{
    if s.len() > 0 {
        let t = sorted_processes(s.drop_last());
        assert(lacks(s.drop_last(), pid)) by {
            assert forall|k: int| 0 <= k < s.drop_last().len() implies (#[trigger] s.drop_last()[k]).pid != pid by {
                assert(s.drop_last()[k] == s[k]);
            }
        }
        lemma_sorted_lacks(s.drop_last(), pid);
        lemma_insertion_point_bound(t, s.last());
        assert(s.last() == s[s.len() - 1]);
    }
}

proof fn lemma_present_start_lacking(scan: Seq<ProcessView>, pid: u32)
    requires
        lacks(scan, pid),
    ensures
        present_start(scan, pid) is None,
    decreases scan.len(),
{
    if scan.len() > 0 {
        assert(scan.last() == scan[scan.len() - 1]);
        assert(lacks(scan.drop_last(), pid)) by {
            assert forall|k: int| 0 <= k < scan.drop_last().len() implies (#[trigger] scan.drop_last()[k]).pid != pid by {
                assert(scan.drop_last()[k] == scan[k]);
            }
        }
        lemma_present_start_lacking(scan.drop_last(), pid);
    }
}

proof fn lemma_exit_pass_forgets(c: Ctx, scan: Seq<ProcessView>, entries: Seq<(u32, TrackedView)>, p: Pass, pid: u32)
    requires
        forgets(p.known, pid),
        present_start(scan, pid) is None,
    ensures
        forgets(exit_pass(c, scan, entries, p).known, pid),
    decreases entries.len(),
{
    if entries.len() > 0 {
        lemma_exit_pass_forgets(c, scan, entries.drop_last(), p, pid);
    }
}

proof fn lemma_update_pass_forgets(c: Ctx, procs: Seq<ProcessView>, p: Pass, pid: u32)
    requires
        forgets(p.known, pid),
        lacks(procs, pid),
    ensures
        forgets(update_pass(c, procs, p).0.known, pid),
        lacks(update_pass(c, procs, p).1, pid),
    decreases procs.len(),
{
    if procs.len() > 0 {
        assert(procs.last() == procs[procs.len() - 1]);
        assert(lacks(procs.drop_last(), pid)) by {
            assert forall|k: int| 0 <= k < procs.drop_last().len() implies (#[trigger] procs.drop_last()[k]).pid != pid by {
                assert(procs.drop_last()[k] == procs[k]);
            }
        }
        lemma_update_pass_forgets(c, procs.drop_last(), p, pid);
        let (q, fresh) = update_pass(c, procs.drop_last(), p);
        let x = procs.last();
        match position_of(q.known, x.pid) {
            Some(i) => {
                let r = update_one(c, q, i, x);
                assert(forgets(r.known, pid)) by {
                    assert forall|j: int| 0 <= j < r.known.len() implies (#[trigger] r.known[j]).0 != pid by {
                        if j != i {
                            assert(r.known[j] == q.known[j]);
                        }
                    }
                }
            },
            None => {
                assert forall|k: int| 0 <= k < fresh.push(x).len() implies (#[trigger] fresh.push(x)[k]).pid != pid by {
                    if k < fresh.len() {
                        assert(fresh.push(x)[k] == fresh[k]);
                    }
                }
            },
        }
    }
}

proof fn lemma_start_pass_forgets(c: Ctx, fresh: Seq<ProcessView>, p: Pass, untracked: u64, pid: u32)
    requires
        forgets(p.known, pid),
        lacks(fresh, pid),
    ensures
        forgets(start_pass(c, fresh, p, untracked).0.known, pid),
    decreases fresh.len(),
{
    if fresh.len() > 0 {
        assert(fresh.last() == fresh[fresh.len() - 1]);
        assert(lacks(fresh.drop_last(), pid)) by {
            assert forall|k: int| 0 <= k < fresh.drop_last().len() implies (#[trigger] fresh.drop_last()[k]).pid != pid by {
                assert(fresh.drop_last()[k] == fresh[k]);
            }
        }
        lemma_start_pass_forgets(c, fresh.drop_last(), p, untracked, pid);
        let (q, u) = start_pass(c, fresh.drop_last(), p, untracked);
        let x = fresh.last();
        lemma_put_keeps_forgotten(q.known, x.pid, remembered(x, bounded_comm(x.comm)), pid);
    }
}

proof fn lemma_baseline_forgets(p: Pass, procs: Seq<ProcessView>, pid: u32)
    requires
        forgets(p.known, pid),
        lacks(procs, pid),
    ensures
        forgets(baseline(p, procs).known, pid),
    decreases procs.len(),
{
    if procs.len() > 0 {
        assert(procs.last() == procs[procs.len() - 1]);
        assert(lacks(procs.drop_last(), pid)) by {
            assert forall|k: int| 0 <= k < procs.drop_last().len() implies (#[trigger] procs.drop_last()[k]).pid != pid by {
                assert(procs.drop_last()[k] == procs[k]);
            }
        }
        lemma_baseline_forgets(p, procs.drop_last(), pid);
        let q = baseline(p, procs.drop_last());
        let x = procs.last();
        lemma_put_keeps_forgotten(q.known, x.pid, remembered(x, bounded_comm(x.comm)), pid);
    }
}

/// Law: a tracker knows only processes that its latest sample showed: a
/// process that vanished between samples is forgotten. (A tracker that has
/// not seen a sample yet knows no process.)
pub proof fn law_vanished_process_is_forgotten(t: TrackerView, sample: ProcSample, pid: u32)
    requires
        t.initialized || t.known.len() == 0,
        forall|k: int| 0 <= k < sample.processes@.len() ==> (#[trigger] sample.processes@[k]).pid != pid,
    ensures
        forgets(ingest_result(t, sample).0.known, pid),
{
    let views = process_views(sample.processes@);
    assert(lacks(views, pid)) by {
        assert forall|k: int| 0 <= k < views.len() implies (#[trigger] views[k]).pid != pid by {
            assert(views[k] == sample.processes@[k]@);
        }
    }
    lemma_sorted_lacks(views, pid);
    let order = sorted_processes(views);
    let stats0 = counted(t.stats, sample);
    if !t.initialized {
        lemma_baseline_forgets(Pass { known: t.known, stats: stats0, events: Seq::empty() }, order, pid);
    } else {
        let c = Ctx { timestamp: sample.timestamp, anonymize: t.anonymize, seed: t.session_seed };
        let scan = order.take(scanned(order.len()));
        assert(lacks(scan, pid)) by {
            assert forall|k: int| 0 <= k < scan.len() implies (#[trigger] scan[k]).pid != pid by {
                assert(scan[k] == order[k]);
            }
        }
        lemma_present_start_lacking(scan, pid);
        let p0 = gauge_pass(
            sample.timestamp,
            Pass { known: Seq::empty(), stats: stats0, events: Seq::empty() },
            sample.stat,
            sample.memory,
            t.last_ticks,
        );
        lemma_exit_pass_forgets(c, scan, t.known, p0, pid);
        let a = exit_pass(c, scan, t.known, p0);
        lemma_update_pass_forgets(c, order, a, pid);
        let (b, fresh) = update_pass(c, order, a);
        lemma_start_pass_forgets(c, fresh, b, sample.scan_refused, pid);
    }
}

/// Every event of `a` stands, in place, at the start of `b`.
pub open spec fn extends(a: Seq<EventView>, b: Seq<EventView>) -> bool {
    a.len() <= b.len() && forall|i: int| 0 <= i < a.len() ==> #[trigger] b[i] == a[i]
}

/// No process of `procs` with `pid` started at `start`.
pub open spec fn not_restarted(procs: Seq<ProcessView>, pid: u32, start: u64) -> bool {
    forall|k: int| 0 <= k < procs.len() && (#[trigger] procs[k]).pid == pid ==> procs[k].start_ticks != start
}

proof fn lemma_extends_contains(a: Seq<EventView>, b: Seq<EventView>, e: EventView)
    requires
        extends(a, b),
        a.contains(e),
    ensures
        b.contains(e),
{
    let i = choose|i: int| 0 <= i < a.len() && a[i] == e;
    assert(b[i] == e);
}

proof fn lemma_extends_trans(a: Seq<EventView>, b: Seq<EventView>, c: Seq<EventView>)
    requires
        extends(a, b),
        extends(b, c),
    ensures
        extends(a, c),
{
    assert forall|i: int| 0 <= i < a.len() implies #[trigger] c[i] == a[i] by {
        assert(c[i] == b[i]);
    }
}

proof fn lemma_emit_extends(p: Pass, e: EventView)
    ensures
        extends(p.events, emit(p, e).events),
        emit(p, e).known == p.known,
{
}

proof fn lemma_update_one_extends(c: Ctx, p: Pass, i: int, x: ProcessView)
    ensures
        extends(p.events, update_one(c, p, i, x).events),
{
    let previous = p.known[i].1;
    let id = identity_text(c.anonymize, c.seed, x.pid, x.start_ticks, x.comm);
    let cpu = step_delta(previous.cpu_ticks, x.cpu_ticks);
    let read = opt_step(previous.read_bytes, x.read_bytes);
    let write = opt_step(previous.write_bytes, x.write_bytes);
    let q0 = Pass {
        known: p.known.update(i, (x.pid, refreshed(previous, x))),
        stats: update_one(c, p, i, x).stats,
        events: p.events,
    };
    lemma_emit_extends(q0, cpu_event(c, x, id, cpu));
    let q1 = if cpu > 0 { emit(q0, cpu_event(c, x, id, cpu)) } else { q0 };
    lemma_emit_extends(q1, read_event(c, x, id, read.unwrap()));
    let q2 = if read is Some && read.unwrap() > 0 { emit(q1, read_event(c, x, id, read.unwrap())) } else { q1 };
    lemma_emit_extends(q2, write_event(c, x, id, write.unwrap()));
    let q3 = if write is Some && write.unwrap() > 0 { emit(q2, write_event(c, x, id, write.unwrap())) } else { q2 };
    lemma_extends_trans(p.events, q1.events, q2.events);
    lemma_extends_trans(p.events, q2.events, q3.events);
    assert(update_one(c, p, i, x).events == q3.events);
}

proof fn lemma_update_pass_extends(c: Ctx, procs: Seq<ProcessView>, p: Pass)
    ensures
        extends(p.events, update_pass(c, procs, p).0.events),
    decreases procs.len(),
{
    if procs.len() > 0 {
        lemma_update_pass_extends(c, procs.drop_last(), p);
        let (q, fresh) = update_pass(c, procs.drop_last(), p);
        let x = procs.last();
        match position_of(q.known, x.pid) {
            Some(i) => {
                lemma_update_one_extends(c, q, i, x);
                lemma_extends_trans(p.events, q.events, update_one(c, q, i, x).events);
            },
            None => {},
        }
    }
}

proof fn lemma_start_pass_extends(c: Ctx, fresh: Seq<ProcessView>, p: Pass, untracked: u64)
    ensures
        extends(p.events, start_pass(c, fresh, p, untracked).0.events),
    decreases fresh.len(),
{
    if fresh.len() > 0 {
        lemma_start_pass_extends(c, fresh.drop_last(), p, untracked);
        let (q, u) = start_pass(c, fresh.drop_last(), p, untracked);
        let x = fresh.last();
        if q.known.len() < MAX_TRACKED_PROCESSES {
            let q1 = Pass {
                known: tracked_put(q.known, x.pid, remembered(x, bounded_comm(x.comm))),
                stats: q.stats,
                events: q.events,
            };
            lemma_emit_extends(q1, start_event(c, x));
            lemma_extends_trans(p.events, q.events, emit(q1, start_event(c, x)).events);
        }
    }
}

proof fn lemma_host_pass_extends(
    timestamp: Quantity,
    p: Pass,
    untracked: u64,
    stat: ProcStat,
    memory: Option<MemorySample>,
    last_running: Option<u32>,
    last_band: Option<u8>,
)
    ensures
        extends(p.events, host_pass(timestamp, p, untracked, stat, memory, last_running, last_band).0.events),
{
    let p1 = if untracked > 0 {
        emit(
            p,
            host_event_view(
                timestamp,
                "proc.background"@,
                whole(if untracked > 1_048_576 { 1_048_576 } else { untracked }),
                "untracked_processes"@,
                untracked,
            ),
        )
    } else {
        p
    };
    let running = stat.procs_running;
    let e2 = host_event_view(
        timestamp,
        "host.runqueue"@,
        whole(((if running == 0 { 1 } else { running }) * 256) as u64),
        "procs_running"@,
        running as u64,
    );
    let p2 = if last_running != Some(running) { emit(p1, e2) } else { p1 };
    lemma_emit_extends(p1, e2);
    lemma_extends_trans(p.events, p1.events, p2.events);
    match memory {
        Some(m) => {
            let e3 = host_event_view(
                timestamp,
                "host.memory.pressure"@,
                pressure_magnitude(m),
                "available_percent"@,
                available_percent(m),
            );
            lemma_emit_extends(p2, e3);
            let p3 = if memory_pressure(m) && last_band != Some(memory_band(m)) { emit(p2, e3) } else { p2 };
            lemma_extends_trans(p.events, p2.events, p3.events);
        },
        None => {},
    }
}

proof fn lemma_exit_pass_reports(c: Ctx, scan: Seq<ProcessView>, entries: Seq<(u32, TrackedView)>, p: Pass, j: int)
    requires
        0 <= j < entries.len(),
        present_start(scan, entries[j].0) != Some(entries[j].1.start_ticks),
        p.events.len() + entries.len() <= MAX_EVENTS_PER_SAMPLE,
    ensures
        exit_pass(c, scan, entries, p).events.contains(exit_event(c, entries[j].0, entries[j].1)),
        exit_pass(c, scan, entries, p).events.len() <= p.events.len() + entries.len(),
    decreases entries.len(),
{
    lemma_exit_pass_bounds(c, scan, entries.drop_last(), p);
    let q = exit_pass(c, scan, entries.drop_last(), p);
    let e = entries.last();
    let ev = exit_event(c, e.0, e.1);
    if j < entries.len() - 1 {
        assert(entries.drop_last()[j] == entries[j]);
        lemma_exit_pass_reports(c, scan, entries.drop_last(), p, j);
        if present_start(scan, e.0) != Some(e.1.start_ticks) {
            lemma_emit_extends(q, ev);
            lemma_extends_contains(q.events, emit(q, ev).events, exit_event(c, entries[j].0, entries[j].1));
        }
    } else {
        assert(e == entries[j]);
        assert(emit(q, ev).events == q.events.push(ev));
        assert(q.events.push(ev)[q.events.len() as int] == ev);
    }
}

proof fn lemma_exit_pass_bounds(c: Ctx, scan: Seq<ProcessView>, entries: Seq<(u32, TrackedView)>, p: Pass)
    ensures
        exit_pass(c, scan, entries, p).events.len() <= p.events.len() + entries.len(),
    decreases entries.len(),
{
    if entries.len() > 0 {
        lemma_exit_pass_bounds(c, scan, entries.drop_last(), p);
    }
}

proof fn lemma_sorted_not_restarted(s: Seq<ProcessView>, pid: u32, start: u64)
    requires
        not_restarted(s, pid, start),
    ensures
        not_restarted(sorted_processes(s), pid, start),
    decreases s.len(),
{
    if s.len() > 0 {
        let t = sorted_processes(s.drop_last());
        assert(not_restarted(s.drop_last(), pid, start)) by {
            assert forall|k: int| 0 <= k < s.drop_last().len() && (#[trigger] s.drop_last()[k]).pid == pid implies s.drop_last()[k].start_ticks != start by {
                assert(s.drop_last()[k] == s[k]);
            }
        }
        lemma_sorted_not_restarted(s.drop_last(), pid, start);
        lemma_insertion_point_bound(t, s.last());
        assert(s.last() == s[s.len() - 1]);
    }
}

proof fn lemma_present_start_not_restarted(scan: Seq<ProcessView>, pid: u32, start: u64)
    requires
        not_restarted(scan, pid, start),
    ensures
        present_start(scan, pid) != Some(start),
    decreases scan.len(),
{
    if scan.len() > 0 {
        assert(scan.last() == scan[scan.len() - 1]);
        assert(not_restarted(scan.drop_last(), pid, start)) by {
            assert forall|k: int| 0 <= k < scan.drop_last().len() && (#[trigger] scan.drop_last()[k]).pid == pid implies scan.drop_last()[k].start_ticks != start by {
                assert(scan.drop_last()[k] == scan[k]);
            }
        }
        lemma_present_start_not_restarted(scan.drop_last(), pid, start);
    }
}

/// Law: a known process that the next sample does not show again with the
/// same start (it vanished, or its pid now belongs to a new process) is
/// reported as exited.
pub proof fn law_vanished_process_reports_exit(t: TrackerView, sample: ProcSample, j: int)
    requires
        tracker_wf(t),
        t.initialized,
        0 <= j < t.known.len(),
        forall|k: int|
            0 <= k < sample.processes@.len() && (#[trigger] sample.processes@[k]).pid == t.known[j].0
                ==> sample.processes@[k].start_ticks != t.known[j].1.start_ticks,
    ensures
        ingest_result(t, sample).1.contains(
            exit_event(
                Ctx { timestamp: sample.timestamp, anonymize: t.anonymize, seed: t.session_seed },
                t.known[j].0,
                t.known[j].1,
            ),
        ),
{
    let pid = t.known[j].0;
    let start = t.known[j].1.start_ticks;
    let views = process_views(sample.processes@);
    assert(not_restarted(views, pid, start)) by {
        assert forall|k: int| 0 <= k < views.len() && (#[trigger] views[k]).pid == pid implies views[k].start_ticks != start by {
            assert(views[k] == sample.processes@[k]@);
        }
    }
    lemma_sorted_not_restarted(views, pid, start);
    let order = sorted_processes(views);
    let stats0 = counted(t.stats, sample);
    let c = Ctx { timestamp: sample.timestamp, anonymize: t.anonymize, seed: t.session_seed };
    let scan = order.take(scanned(order.len()));
    assert(not_restarted(scan, pid, start)) by {
        assert forall|k: int| 0 <= k < scan.len() && (#[trigger] scan[k]).pid == pid implies scan[k].start_ticks != start by {
            assert(scan[k] == order[k]);
        }
    }
    lemma_present_start_not_restarted(scan, pid, start);
    let p0 = gauge_pass(
        sample.timestamp,
        Pass { known: Seq::empty(), stats: stats0, events: Seq::empty() },
        sample.stat,
        sample.memory,
        t.last_ticks,
    );
    assert(p0.events.len() <= 2);
    lemma_exit_pass_reports(c, scan, t.known, p0, j);
    let a = exit_pass(c, scan, t.known, p0);
    let ev = exit_event(c, pid, t.known[j].1);
    lemma_update_pass_extends(c, order, a);
    let (b, fresh) = update_pass(c, order, a);
    lemma_extends_contains(a.events, b.events, ev);
    lemma_start_pass_extends(c, fresh, b, sample.scan_refused);
    let (d, untracked) = start_pass(c, fresh, b, sample.scan_refused);
    lemma_extends_contains(b.events, d.events, ev);
    lemma_host_pass_extends(
        sample.timestamp,
        d,
        untracked,
        sample.stat,
        sample.memory,
        t.last_running,
        t.last_memory_band,
    );
    let (e, running, band) = host_pass(
        sample.timestamp,
        d,
        untracked,
        sample.stat,
        sample.memory,
        t.last_running,
        t.last_memory_band,
    );
    lemma_extends_contains(d.events, e.events, ev);
}

/// The host gauges a later sample opens with.
pub open spec fn host_gauges(
    timestamp: Quantity,
    stat: ProcStat,
    memory: Option<MemorySample>,
    last_ticks: Option<(u64, u64)>,
) -> Seq<EventView> {
    match tick_delta(last_ticks, stat) {
        Some((busy, total)) => {
            let cpu = seq![cpu_gauge_view(timestamp, busy, total)];
            match memory {
                Some(m) => if m.total_kib > 0 {
                    cpu.push(memory_gauge_view(timestamp, m))
                } else {
                    cpu
                },
                None => cpu,
            }
        },
        None => Seq::empty(),
    }
}

/// Neither host gauge.
pub open spec fn not_host_gauge(e: EventView) -> bool {
    e.category != "host.cpu"@ && e.category != "host.memory"@
}

/// `b` extends `a` with events none of which is a host gauge.
pub open spec fn grows(a: Seq<EventView>, b: Seq<EventView>) -> bool {
    &&& extends(a, b)
    &&& forall|i: int| a.len() <= i < b.len() ==> not_host_gauge(#[trigger] b[i])
}

proof fn lemma_categories_are_not_host_gauge()
    ensures
        "proc.exit"@ != "host.cpu"@,
        "proc.cpu"@ != "host.cpu"@,
        "proc.io.read"@ != "host.cpu"@,
        "proc.io.write"@ != "host.cpu"@,
        "proc.start"@ != "host.cpu"@,
        "proc.background"@ != "host.cpu"@,
        "host.runqueue"@ != "host.cpu"@,
        "host.memory.pressure"@ != "host.cpu"@,
        "proc.exit"@ != "host.memory"@,
        "proc.cpu"@ != "host.memory"@,
        "proc.io.read"@ != "host.memory"@,
        "proc.io.write"@ != "host.memory"@,
        "proc.start"@ != "host.memory"@,
        "proc.background"@ != "host.memory"@,
        "host.runqueue"@ != "host.memory"@,
        "host.memory.pressure"@ != "host.memory"@,
{
    reveal_strlit("host.cpu");
    reveal_strlit("host.memory");
    reveal_strlit("proc.exit");
    reveal_strlit("proc.cpu");
    reveal_strlit("proc.io.read");
    reveal_strlit("proc.io.write");
    reveal_strlit("proc.start");
    reveal_strlit("proc.background");
    reveal_strlit("host.runqueue");
    reveal_strlit("host.memory.pressure");
    assert("proc.cpu"@[0] != "host.cpu"@[0]);
    assert("host.runqueue"@[5] != "host.cpu"@[5]);
    assert("host.memory.pressure"@[5] != "host.cpu"@[5]);
    assert("proc.cpu"@[0] != "host.memory"@[0]);
    assert("host.runqueue"@[5] != "host.memory"@[5]);
    assert("host.memory.pressure"@.len() != "host.memory"@.len());
}

proof fn lemma_grows_trans(a: Seq<EventView>, b: Seq<EventView>, c: Seq<EventView>)
    requires
        grows(a, b),
        grows(b, c),
    ensures
        grows(a, c),
{
    lemma_extends_trans(a, b, c);
    assert forall|i: int| a.len() <= i < c.len() implies not_host_gauge(#[trigger] c[i]) by {
        if i < b.len() {
            assert(c[i] == b[i]);
        }
    }
}

proof fn lemma_emit_grows(p: Pass, e: EventView)
    requires
        not_host_gauge(e),
    ensures
        grows(p.events, emit(p, e).events),
{
}

proof fn lemma_exit_pass_grows(c: Ctx, scan: Seq<ProcessView>, entries: Seq<(u32, TrackedView)>, p: Pass)
    ensures
        grows(p.events, exit_pass(c, scan, entries, p).events),
    decreases entries.len(),
{
    lemma_categories_are_not_host_gauge();
    if entries.len() > 0 {
        lemma_exit_pass_grows(c, scan, entries.drop_last(), p);
        let q = exit_pass(c, scan, entries.drop_last(), p);
        let e = entries.last();
        if present_start(scan, e.0) != Some(e.1.start_ticks) {
            lemma_emit_grows(q, exit_event(c, e.0, e.1));
            lemma_grows_trans(p.events, q.events, emit(q, exit_event(c, e.0, e.1)).events);
        }
    }
}

proof fn lemma_update_one_grows(c: Ctx, p: Pass, i: int, x: ProcessView)
    ensures
        grows(p.events, update_one(c, p, i, x).events),
{
    lemma_categories_are_not_host_gauge();
    let previous = p.known[i].1;
    let id = identity_text(c.anonymize, c.seed, x.pid, x.start_ticks, x.comm);
    let cpu = step_delta(previous.cpu_ticks, x.cpu_ticks);
    let read = opt_step(previous.read_bytes, x.read_bytes);
    let write = opt_step(previous.write_bytes, x.write_bytes);
    let q0 = Pass {
        known: p.known.update(i, (x.pid, refreshed(previous, x))),
        stats: update_one(c, p, i, x).stats,
        events: p.events,
    };
    lemma_emit_grows(q0, cpu_event(c, x, id, cpu));
    let q1 = if cpu > 0 { emit(q0, cpu_event(c, x, id, cpu)) } else { q0 };
    lemma_emit_grows(q1, read_event(c, x, id, read.unwrap()));
    let q2 = if read is Some && read.unwrap() > 0 { emit(q1, read_event(c, x, id, read.unwrap())) } else { q1 };
    lemma_emit_grows(q2, write_event(c, x, id, write.unwrap()));
    let q3 = if write is Some && write.unwrap() > 0 { emit(q2, write_event(c, x, id, write.unwrap())) } else { q2 };
    lemma_grows_trans(p.events, q1.events, q2.events);
    lemma_grows_trans(p.events, q2.events, q3.events);
    assert(update_one(c, p, i, x).events == q3.events);
}

proof fn lemma_update_pass_grows(c: Ctx, procs: Seq<ProcessView>, p: Pass)
    ensures
        grows(p.events, update_pass(c, procs, p).0.events),
    decreases procs.len(),
{
    if procs.len() > 0 {
        lemma_update_pass_grows(c, procs.drop_last(), p);
        let (q, fresh) = update_pass(c, procs.drop_last(), p);
        let x = procs.last();
        match position_of(q.known, x.pid) {
            Some(i) => {
                lemma_update_one_grows(c, q, i, x);
                lemma_grows_trans(p.events, q.events, update_one(c, q, i, x).events);
            },
            None => {},
        }
    }
}

proof fn lemma_start_pass_grows(c: Ctx, fresh: Seq<ProcessView>, p: Pass, untracked: u64)
    ensures
        grows(p.events, start_pass(c, fresh, p, untracked).0.events),
    decreases fresh.len(),
{
    lemma_categories_are_not_host_gauge();
    if fresh.len() > 0 {
        lemma_start_pass_grows(c, fresh.drop_last(), p, untracked);
        let (q, u) = start_pass(c, fresh.drop_last(), p, untracked);
        let x = fresh.last();
        if q.known.len() < MAX_TRACKED_PROCESSES {
            let q1 = Pass {
                known: tracked_put(q.known, x.pid, remembered(x, bounded_comm(x.comm))),
                stats: q.stats,
                events: q.events,
            };
            lemma_emit_grows(q1, start_event(c, x));
            lemma_grows_trans(p.events, q.events, emit(q1, start_event(c, x)).events);
        }
    }
}

proof fn lemma_host_pass_grows(
    timestamp: Quantity,
    p: Pass,
    untracked: u64,
    stat: ProcStat,
    memory: Option<MemorySample>,
    last_running: Option<u32>,
    last_band: Option<u8>,
)
    ensures
        grows(p.events, host_pass(timestamp, p, untracked, stat, memory, last_running, last_band).0.events),
{
    lemma_categories_are_not_host_gauge();
    let e1 = host_event_view(
        timestamp,
        "proc.background"@,
        whole(if untracked > 1_048_576 { 1_048_576 } else { untracked }),
        "untracked_processes"@,
        untracked,
    );
    lemma_emit_grows(p, e1);
    let p1 = if untracked > 0 { emit(p, e1) } else { p };
    let running = stat.procs_running;
    let e2 = host_event_view(
        timestamp,
        "host.runqueue"@,
        whole(((if running == 0 { 1 } else { running }) * 256) as u64),
        "procs_running"@,
        running as u64,
    );
    let p2 = if last_running != Some(running) { emit(p1, e2) } else { p1 };
    lemma_emit_grows(p1, e2);
    lemma_grows_trans(p.events, p1.events, p2.events);
    match memory {
        Some(m) => {
            let e3 = host_event_view(
                timestamp,
                "host.memory.pressure"@,
                pressure_magnitude(m),
                "available_percent"@,
                available_percent(m),
            );
            lemma_emit_grows(p2, e3);
            let p3 = if memory_pressure(m) && last_band != Some(memory_band(m)) { emit(p2, e3) } else { p2 };
            lemma_grows_trans(p.events, p2.events, p3.events);
        },
        None => {},
    }
}

/// Law: every sample after the first in which the tick counter advanced
/// opens with the host gauges. The CPU gauge carries the busy share of the
/// ticks since the previous sample, a ratio between 0 and 1; the memory
/// gauge, present whenever memory was read with a non-zero total, carries
/// `1 - available / total`, also between 0 and 1. A stalled counter yields
/// no gauge anywhere in the sample's events.
pub proof fn law_host_gauges_lead_each_sample(t: TrackerView, sample: ProcSample)
    requires
        t.initialized,
    ensures
        ({
            let events = ingest_result(t, sample).1;
            let g = host_gauges(sample.timestamp, sample.stat, sample.memory, t.last_ticks);
            &&& g.len() <= events.len()
            &&& events.subrange(0, g.len() as int) == g
        }),
        tick_delta(t.last_ticks, sample.stat) matches Some((busy, total)) ==> 0 < total && busy <= total,
        sample.memory matches Some(m) ==> used_kib(m) <= m.total_kib,
        tick_delta(t.last_ticks, sample.stat) is None ==> forall|i: int|
            0 <= i < ingest_result(t, sample).1.len() ==> not_host_gauge(#[trigger] ingest_result(t, sample).1[i]),
        ingest_result(t, sample).0.last_ticks == Some((sample.stat.total_cpu_ticks, sample.stat.idle_cpu_ticks)),
{
    let views = process_views(sample.processes@);
    let order = sorted_processes(views);
    let stats0 = counted(t.stats, sample);
    let c = Ctx { timestamp: sample.timestamp, anonymize: t.anonymize, seed: t.session_seed };
    let scan = order.take(scanned(order.len()));
    let p0 = Pass { known: Seq::empty(), stats: stats0, events: Seq::empty() };
    let g = gauge_pass(sample.timestamp, p0, sample.stat, sample.memory, t.last_ticks);
    let gs = host_gauges(sample.timestamp, sample.stat, sample.memory, t.last_ticks);
    assert(g.events =~= gs);
    lemma_exit_pass_grows(c, scan, t.known, g);
    let a = exit_pass(c, scan, t.known, g);
    lemma_update_pass_grows(c, order, a);
    let (b, fresh) = update_pass(c, order, a);
    lemma_grows_trans(g.events, a.events, b.events);
    lemma_start_pass_grows(c, fresh, b, sample.scan_refused);
    let (d, untracked) = start_pass(c, fresh, b, sample.scan_refused);
    lemma_grows_trans(g.events, b.events, d.events);
    lemma_host_pass_grows(
        sample.timestamp,
        d,
        untracked,
        sample.stat,
        sample.memory,
        t.last_running,
        t.last_memory_band,
    );
    let (e, running, band) = host_pass(
        sample.timestamp,
        d,
        untracked,
        sample.stat,
        sample.memory,
        t.last_running,
        t.last_memory_band,
    );
    lemma_grows_trans(g.events, d.events, e.events);
    assert(e.events.subrange(0, gs.len() as int) =~= gs);
}

/// The counters of `b` against those of `a`: the sample's own counts
/// unchanged, every other counter at least as large.
pub open spec fn counters_grow(a: ProcStats, b: ProcStats) -> bool {
    &&& b.samples == a.samples
    &&& b.unreadable == a.unreadable
    &&& b.vanished == a.vanished
    &&& b.scan_refused == a.scan_refused
    &&& a.cpu_events <= b.cpu_events
    &&& a.io_events <= b.io_events
    &&& a.starts <= b.starts
    &&& a.exits <= b.exits
    &&& a.tracking_refused <= b.tracking_refused
    &&& a.event_refused <= b.event_refused
    &&& a.counter_resets <= b.counter_resets
}

proof fn lemma_emit_steps(p: Pass, e: EventView)
    ensures
        counters_grow(p.stats, emit(p, e).stats),
        emit(p, e).known == p.known,
        p.events.len() <= MAX_EVENTS_PER_SAMPLE ==> emit(p, e).events.len() <= MAX_EVENTS_PER_SAMPLE,
{
}

proof fn lemma_put_len(t: Seq<(u32, TrackedView)>, pid: u32, v: TrackedView)
    ensures
        tracked_put(t, pid, v).len() <= t.len() + 1,
{
    lemma_lower_bound_range(t, pid);
}

proof fn lemma_baseline_steps(p: Pass, procs: Seq<ProcessView>)
    ensures
        counters_grow(p.stats, baseline(p, procs).stats),
        baseline(p, procs).events == p.events,
        p.known.len() <= MAX_TRACKED_PROCESSES ==> baseline(p, procs).known.len() <= MAX_TRACKED_PROCESSES,
    decreases procs.len(),
{
    if procs.len() > 0 {
        lemma_baseline_steps(p, procs.drop_last());
        let q = baseline(p, procs.drop_last());
        let x = procs.last();
        lemma_put_len(q.known, x.pid, remembered(x, bounded_comm(x.comm)));
    }
}

proof fn lemma_exit_pass_steps(c: Ctx, scan: Seq<ProcessView>, entries: Seq<(u32, TrackedView)>, p: Pass)
    ensures
        counters_grow(p.stats, exit_pass(c, scan, entries, p).stats),
        p.events.len() <= MAX_EVENTS_PER_SAMPLE ==> exit_pass(c, scan, entries, p).events.len()
            <= MAX_EVENTS_PER_SAMPLE,
        exit_pass(c, scan, entries, p).known.len() <= p.known.len() + entries.len(),
    decreases entries.len(),
{
    if entries.len() > 0 {
        lemma_exit_pass_steps(c, scan, entries.drop_last(), p);
        let q = exit_pass(c, scan, entries.drop_last(), p);
        let e = entries.last();
        lemma_emit_steps(q, exit_event(c, e.0, e.1));
    }
}

proof fn lemma_update_one_steps(c: Ctx, p: Pass, i: int, x: ProcessView)
    requires
        0 <= i < p.known.len(),
    ensures
        counters_grow(p.stats, update_one(c, p, i, x).stats),
        p.events.len() <= MAX_EVENTS_PER_SAMPLE ==> update_one(c, p, i, x).events.len()
            <= MAX_EVENTS_PER_SAMPLE,
        update_one(c, p, i, x).known.len() == p.known.len(),
{
    let previous = p.known[i].1;
    let id = identity_text(c.anonymize, c.seed, x.pid, x.start_ticks, x.comm);
    let cpu = step_delta(previous.cpu_ticks, x.cpu_ticks);
    let read = opt_step(previous.read_bytes, x.read_bytes);
    let write = opt_step(previous.write_bytes, x.write_bytes);
    let q0 = Pass {
        known: p.known.update(i, (x.pid, refreshed(previous, x))),
        stats: ProcStats {
            counter_resets: bump(
                bump(
                    bump(p.stats.counter_resets, x.cpu_ticks < previous.cpu_ticks),
                    opt_reset(previous.read_bytes, x.read_bytes),
                ),
                opt_reset(previous.write_bytes, x.write_bytes),
            ),
            cpu_events: bump(p.stats.cpu_events, cpu > 0),
            io_events: bump(
                bump(p.stats.io_events, read is Some && read.unwrap() > 0),
                write is Some && write.unwrap() > 0,
            ),
            ..p.stats
        },
        events: p.events,
    };
    lemma_emit_steps(q0, cpu_event(c, x, id, cpu));
    let q1 = if cpu > 0 { emit(q0, cpu_event(c, x, id, cpu)) } else { q0 };
    lemma_emit_steps(q1, read_event(c, x, id, read.unwrap()));
    let q2 = if read is Some && read.unwrap() > 0 { emit(q1, read_event(c, x, id, read.unwrap())) } else { q1 };
    lemma_emit_steps(q2, write_event(c, x, id, write.unwrap()));
    assert(update_one(c, p, i, x).stats == (if write is Some && write.unwrap() > 0 {
        emit(q2, write_event(c, x, id, write.unwrap()))
    } else {
        q2
    }).stats);
}

proof fn lemma_update_pass_steps(c: Ctx, procs: Seq<ProcessView>, p: Pass)
    ensures
        counters_grow(p.stats, update_pass(c, procs, p).0.stats),
        p.events.len() <= MAX_EVENTS_PER_SAMPLE ==> update_pass(c, procs, p).0.events.len()
            <= MAX_EVENTS_PER_SAMPLE,
        update_pass(c, procs, p).0.known.len() == p.known.len(),
    decreases procs.len(),
{
    if procs.len() > 0 {
        lemma_update_pass_steps(c, procs.drop_last(), p);
        let (q, fresh) = update_pass(c, procs.drop_last(), p);
        let x = procs.last();
        match position_of(q.known, x.pid) {
            Some(i) => {
                lemma_update_one_steps(c, q, i, x);
            },
            None => {},
        }
    }
}

proof fn lemma_start_pass_steps(c: Ctx, fresh: Seq<ProcessView>, p: Pass, untracked: u64)
    ensures
        counters_grow(p.stats, start_pass(c, fresh, p, untracked).0.stats),
        p.events.len() <= MAX_EVENTS_PER_SAMPLE ==> start_pass(c, fresh, p, untracked).0.events.len()
            <= MAX_EVENTS_PER_SAMPLE,
        p.known.len() <= MAX_TRACKED_PROCESSES ==> start_pass(c, fresh, p, untracked).0.known.len()
            <= MAX_TRACKED_PROCESSES,
    decreases fresh.len(),
{
    if fresh.len() > 0 {
        lemma_start_pass_steps(c, fresh.drop_last(), p, untracked);
        let (q, u) = start_pass(c, fresh.drop_last(), p, untracked);
        let x = fresh.last();
        let q1 = Pass {
            known: tracked_put(q.known, x.pid, remembered(x, bounded_comm(x.comm))),
            stats: q.stats,
            events: q.events,
        };
        lemma_put_len(q.known, x.pid, remembered(x, bounded_comm(x.comm)));
        lemma_emit_steps(q1, start_event(c, x));
    }
}

proof fn lemma_gauge_pass_steps(
    timestamp: Quantity,
    p: Pass,
    stat: ProcStat,
    memory: Option<MemorySample>,
    last_ticks: Option<(u64, u64)>,
)
    ensures
        counters_grow(p.stats, gauge_pass(timestamp, p, stat, memory, last_ticks).stats),
        p.events.len() <= MAX_EVENTS_PER_SAMPLE ==> gauge_pass(timestamp, p, stat, memory, last_ticks).events.len()
            <= MAX_EVENTS_PER_SAMPLE,
        gauge_pass(timestamp, p, stat, memory, last_ticks).known == p.known,
{
    match tick_delta(last_ticks, stat) {
        Some((busy, total)) => {
            let p1 = emit(p, cpu_gauge_view(timestamp, busy, total));
            lemma_emit_steps(p, cpu_gauge_view(timestamp, busy, total));
            match memory {
                Some(m) => {
                    lemma_emit_steps(p1, memory_gauge_view(timestamp, m));
                },
                None => {},
            }
        },
        None => {},
    }
}

proof fn lemma_host_pass_steps(
    timestamp: Quantity,
    p: Pass,
    untracked: u64,
    stat: ProcStat,
    memory: Option<MemorySample>,
    last_running: Option<u32>,
    last_band: Option<u8>,
)
    ensures
        ({
            let q = host_pass(timestamp, p, untracked, stat, memory, last_running, last_band).0;
            &&& counters_grow(p.stats, q.stats)
            &&& p.events.len() <= MAX_EVENTS_PER_SAMPLE ==> q.events.len() <= MAX_EVENTS_PER_SAMPLE
            &&& q.known == p.known
        }),
{
    let e1 = host_event_view(
        timestamp,
        "proc.background"@,
        whole(if untracked > 1_048_576 { 1_048_576 } else { untracked }),
        "untracked_processes"@,
        untracked,
    );
    lemma_emit_steps(p, e1);
    let p1 = if untracked > 0 { emit(p, e1) } else { p };
    let running = stat.procs_running;
    let e2 = host_event_view(
        timestamp,
        "host.runqueue"@,
        whole(((if running == 0 { 1 } else { running }) * 256) as u64),
        "procs_running"@,
        running as u64,
    );
    lemma_emit_steps(p1, e2);
    let p2 = if last_running != Some(running) { emit(p1, e2) } else { p1 };
    match memory {
        Some(m) => {
            let e3 = host_event_view(
                timestamp,
                "host.memory.pressure"@,
                pressure_magnitude(m),
                "available_percent"@,
                available_percent(m),
            );
            lemma_emit_steps(p2, e3);
        },
        None => {},
    }
}

/// Law: each sample moves the tracker's statistics forward by saturating
/// steps. The sample count grows by one and the unreadable, vanished and
/// refused-scan counts by the sample's own, each saturating; the event,
/// start, exit, refusal and reset counters never decrease. The tracked
/// count stays within the tracking bound and the sample's events within
/// the per-sample bound.
pub proof fn law_counters_grow_by_saturating_steps(t: TrackerView, sample: ProcSample)
    requires
        tracker_wf(t),
    ensures
        ({
            let s = t.stats;
            let n = ingest_result(t, sample).0.stats;
            &&& n.samples == sat_add(s.samples, 1)
            &&& n.unreadable == sat_add(s.unreadable, sample.unreadable)
            &&& n.vanished == sat_add(s.vanished, sample.vanished)
            &&& n.scan_refused == sat_add(s.scan_refused, sample.scan_refused)
            &&& s.cpu_events <= n.cpu_events
            &&& s.io_events <= n.io_events
            &&& s.starts <= n.starts
            &&& s.exits <= n.exits
            &&& s.tracking_refused <= n.tracking_refused
            &&& s.event_refused <= n.event_refused
            &&& s.counter_resets <= n.counter_resets
            &&& n.tracked_processes <= MAX_TRACKED_PROCESSES
        }),
        ingest_result(t, sample).1.len() <= MAX_EVENTS_PER_SAMPLE,
{
    let stats0 = counted(t.stats, sample);
    let order = sorted_processes(process_views(sample.processes@));
    if !t.initialized {
        lemma_baseline_steps(Pass { known: t.known, stats: stats0, events: Seq::empty() }, order);
    } else {
        let c = Ctx { timestamp: sample.timestamp, anonymize: t.anonymize, seed: t.session_seed };
        let scan = order.take(scanned(order.len()));
        let p0 = Pass { known: Seq::empty(), stats: stats0, events: Seq::empty() };
        lemma_gauge_pass_steps(sample.timestamp, p0, sample.stat, sample.memory, t.last_ticks);
        let g = gauge_pass(sample.timestamp, p0, sample.stat, sample.memory, t.last_ticks);
        lemma_exit_pass_steps(c, scan, t.known, g);
        let a = exit_pass(c, scan, t.known, g);
        lemma_update_pass_steps(c, order, a);
        let (b, fresh) = update_pass(c, order, a);
        lemma_start_pass_steps(c, fresh, b, sample.scan_refused);
        let (d, untracked) = start_pass(c, fresh, b, sample.scan_refused);
        lemma_host_pass_steps(
            sample.timestamp,
            d,
            untracked,
            sample.stat,
            sample.memory,
            t.last_running,
            t.last_memory_band,
        );
    }
}

/// Storage I/O is drawn as a flow between storage and the process: a read
/// flows inbound from `host:storage` to the process, a write outbound from
/// the process to `host:storage`.
pub open spec fn storage_flow_shaped(e: EventView) -> bool {
    &&& e.category == "proc.io.read"@ ==> {
        &&& e.origin == Some("host:storage"@)
        &&& e.target matches Some(t) && starts_with(t, "proc:"@)
        &&& e.direction == Direction::Inbound
    }
    &&& e.category == "proc.io.write"@ ==> {
        &&& e.origin matches Some(o) && starts_with(o, "proc:"@)
        &&& e.target == Some("host:storage"@)
        &&& e.direction == Direction::Outbound
    }
}

/// Every event of `events` is storage-flow shaped.
pub open spec fn all_storage_flow_shaped(events: Seq<EventView>) -> bool {
    forall|i: int| 0 <= i < events.len() ==> storage_flow_shaped(#[trigger] events[i])
}

proof fn lemma_identity_is_a_process(anonymize: bool, seed: u64, pid: u32, start: u64, comm: Seq<char>)
    ensures
        starts_with(identity_text(anonymize, seed, pid, start, comm), "proc:"@),
{
    let id = identity_text(anonymize, seed, pid, start, comm);
    if anonymize {
        assert(id.subrange(0, "proc:"@.len() as int) =~= "proc:"@);
    } else {
        assert(id.subrange(0, "proc:"@.len() as int) =~= "proc:"@);
    }
}

proof fn lemma_other_categories_are_not_storage_io()
    ensures
        "proc.exit"@ != "proc.io.read"@ && "proc.exit"@ != "proc.io.write"@,
        "proc.cpu"@ != "proc.io.read"@ && "proc.cpu"@ != "proc.io.write"@,
        "proc.start"@ != "proc.io.read"@ && "proc.start"@ != "proc.io.write"@,
        "proc.background"@ != "proc.io.read"@ && "proc.background"@ != "proc.io.write"@,
        "host.runqueue"@ != "proc.io.read"@ && "host.runqueue"@ != "proc.io.write"@,
        "host.memory.pressure"@ != "proc.io.read"@ && "host.memory.pressure"@ != "proc.io.write"@,
        "host.cpu"@ != "proc.io.read"@ && "host.cpu"@ != "proc.io.write"@,
        "host.memory"@ != "proc.io.read"@ && "host.memory"@ != "proc.io.write"@,
        "proc.io.read"@ != "proc.io.write"@,
{
    reveal_strlit("proc.io.read");
    reveal_strlit("proc.io.write");
    reveal_strlit("proc.exit");
    reveal_strlit("proc.cpu");
    reveal_strlit("proc.start");
    reveal_strlit("proc.background");
    reveal_strlit("host.runqueue");
    reveal_strlit("host.memory.pressure");
    reveal_strlit("host.cpu");
    reveal_strlit("host.memory");
    assert("host.runqueue"@[0] != "proc.io.write"@[0]);
    assert("proc.exit"@[5] != "proc.io.read"@[5]);
    assert("proc.exit"@[5] != "proc.io.write"@[5]);
    assert("proc.cpu"@[5] != "proc.io.read"@[5]);
    assert("proc.cpu"@[5] != "proc.io.write"@[5]);
    assert("proc.io.read"@[8] != "proc.io.write"@[8]);
}

proof fn lemma_emit_shaped(p: Pass, e: EventView)
    requires
        all_storage_flow_shaped(p.events),
        storage_flow_shaped(e),
    ensures
        all_storage_flow_shaped(emit(p, e).events),
{
    let q = emit(p, e);
    assert forall|i: int| 0 <= i < q.events.len() implies storage_flow_shaped(#[trigger] q.events[i]) by {
        if i < p.events.len() {
            assert(q.events[i] == p.events[i]);
        }
    }
}

proof fn lemma_exit_pass_shaped(c: Ctx, scan: Seq<ProcessView>, entries: Seq<(u32, TrackedView)>, p: Pass)
    requires
        all_storage_flow_shaped(p.events),
    ensures
        all_storage_flow_shaped(exit_pass(c, scan, entries, p).events),
    decreases entries.len(),
{
    lemma_other_categories_are_not_storage_io();
    if entries.len() > 0 {
        lemma_exit_pass_shaped(c, scan, entries.drop_last(), p);
        let q = exit_pass(c, scan, entries.drop_last(), p);
        let e = entries.last();
        if present_start(scan, e.0) != Some(e.1.start_ticks) {
            lemma_emit_shaped(q, exit_event(c, e.0, e.1));
        }
    }
}

proof fn lemma_update_one_shaped(c: Ctx, p: Pass, i: int, x: ProcessView)
    requires
        all_storage_flow_shaped(p.events),
    ensures
        all_storage_flow_shaped(update_one(c, p, i, x).events),
{
    lemma_other_categories_are_not_storage_io();
    let previous = p.known[i].1;
    let id = identity_text(c.anonymize, c.seed, x.pid, x.start_ticks, x.comm);
    lemma_identity_is_a_process(c.anonymize, c.seed, x.pid, x.start_ticks, x.comm);
    let cpu = step_delta(previous.cpu_ticks, x.cpu_ticks);
    let read = opt_step(previous.read_bytes, x.read_bytes);
    let write = opt_step(previous.write_bytes, x.write_bytes);
    let q0 = Pass {
        known: p.known.update(i, (x.pid, refreshed(previous, x))),
        stats: update_one(c, p, i, x).stats,
        events: p.events,
    };
    lemma_emit_shaped(q0, cpu_event(c, x, id, cpu));
    let q1 = if cpu > 0 { emit(q0, cpu_event(c, x, id, cpu)) } else { q0 };
    lemma_emit_shaped(q1, read_event(c, x, id, read.unwrap()));
    let q2 = if read is Some && read.unwrap() > 0 { emit(q1, read_event(c, x, id, read.unwrap())) } else { q1 };
    lemma_emit_shaped(q2, write_event(c, x, id, write.unwrap()));
    let q3 = if write is Some && write.unwrap() > 0 { emit(q2, write_event(c, x, id, write.unwrap())) } else { q2 };
    assert(update_one(c, p, i, x).events == q3.events);
}

proof fn lemma_update_pass_shaped(c: Ctx, procs: Seq<ProcessView>, p: Pass)
    requires
        all_storage_flow_shaped(p.events),
    ensures
        all_storage_flow_shaped(update_pass(c, procs, p).0.events),
    decreases procs.len(),
{
    if procs.len() > 0 {
        lemma_update_pass_shaped(c, procs.drop_last(), p);
        let (q, fresh) = update_pass(c, procs.drop_last(), p);
        let x = procs.last();
        match position_of(q.known, x.pid) {
            Some(i) => {
                lemma_update_one_shaped(c, q, i, x);
            },
            None => {},
        }
    }
}

proof fn lemma_start_pass_shaped(c: Ctx, fresh: Seq<ProcessView>, p: Pass, untracked: u64)
    requires
        all_storage_flow_shaped(p.events),
    ensures
        all_storage_flow_shaped(start_pass(c, fresh, p, untracked).0.events),
    decreases fresh.len(),
{
    lemma_other_categories_are_not_storage_io();
    if fresh.len() > 0 {
        lemma_start_pass_shaped(c, fresh.drop_last(), p, untracked);
        let (q, u) = start_pass(c, fresh.drop_last(), p, untracked);
        let x = fresh.last();
        let q1 = Pass {
            known: tracked_put(q.known, x.pid, remembered(x, bounded_comm(x.comm))),
            stats: q.stats,
            events: q.events,
        };
        lemma_emit_shaped(q1, start_event(c, x));
    }
}

proof fn lemma_gauge_pass_shaped(
    timestamp: Quantity,
    p: Pass,
    stat: ProcStat,
    memory: Option<MemorySample>,
    last_ticks: Option<(u64, u64)>,
)
    requires
        all_storage_flow_shaped(p.events),
    ensures
        all_storage_flow_shaped(gauge_pass(timestamp, p, stat, memory, last_ticks).events),
{
    lemma_other_categories_are_not_storage_io();
    match tick_delta(last_ticks, stat) {
        Some((busy, total)) => {
            lemma_emit_shaped(p, cpu_gauge_view(timestamp, busy, total));
            let p1 = emit(p, cpu_gauge_view(timestamp, busy, total));
            match memory {
                Some(m) => {
                    lemma_emit_shaped(p1, memory_gauge_view(timestamp, m));
                },
                None => {},
            }
        },
        None => {},
    }
}

proof fn lemma_host_pass_shaped(
    timestamp: Quantity,
    p: Pass,
    untracked: u64,
    stat: ProcStat,
    memory: Option<MemorySample>,
    last_running: Option<u32>,
    last_band: Option<u8>,
)
    requires
        all_storage_flow_shaped(p.events),
    ensures
        all_storage_flow_shaped(host_pass(timestamp, p, untracked, stat, memory, last_running, last_band).0.events),
{
    lemma_other_categories_are_not_storage_io();
    let e1 = host_event_view(
        timestamp,
        "proc.background"@,
        whole(if untracked > 1_048_576 { 1_048_576 } else { untracked }),
        "untracked_processes"@,
        untracked,
    );
    lemma_emit_shaped(p, e1);
    let p1 = if untracked > 0 { emit(p, e1) } else { p };
    let running = stat.procs_running;
    let e2 = host_event_view(
        timestamp,
        "host.runqueue"@,
        whole(((if running == 0 { 1 } else { running }) * 256) as u64),
        "procs_running"@,
        running as u64,
    );
    lemma_emit_shaped(p1, e2);
    let p2 = if last_running != Some(running) { emit(p1, e2) } else { p1 };
    match memory {
        Some(m) => {
            let e3 = host_event_view(
                timestamp,
                "host.memory.pressure"@,
                pressure_magnitude(m),
                "available_percent"@,
                available_percent(m),
            );
            lemma_emit_shaped(p2, e3);
        },
        None => {},
    }
}

/// Law: storage I/O is drawn with its true direction. In the events of any
/// sample, every `proc.io.read` flows inbound from `host:storage` to a
/// process identity, and every `proc.io.write` flows outbound from a
/// process identity to `host:storage`.
pub proof fn law_storage_io_flows_have_their_direction(t: TrackerView, sample: ProcSample)
    ensures
        all_storage_flow_shaped(ingest_result(t, sample).1),
{
    if t.initialized {
        let order = sorted_processes(process_views(sample.processes@));
        let stats0 = counted(t.stats, sample);
        let c = Ctx { timestamp: sample.timestamp, anonymize: t.anonymize, seed: t.session_seed };
        let scan = order.take(scanned(order.len()));
        let p0 = Pass { known: Seq::empty(), stats: stats0, events: Seq::empty() };
        lemma_gauge_pass_shaped(sample.timestamp, p0, sample.stat, sample.memory, t.last_ticks);
        let g = gauge_pass(sample.timestamp, p0, sample.stat, sample.memory, t.last_ticks);
        lemma_exit_pass_shaped(c, scan, t.known, g);
        let a = exit_pass(c, scan, t.known, g);
        lemma_update_pass_shaped(c, order, a);
        let (b, fresh) = update_pass(c, order, a);
        lemma_start_pass_shaped(c, fresh, b, sample.scan_refused);
        let (d, untracked) = start_pass(c, fresh, b, sample.scan_refused);
        lemma_host_pass_shaped(
            sample.timestamp,
            d,
            untracked,
            sample.stat,
            sample.memory,
            t.last_running,
            t.last_memory_band,
        );
    }
}

} // verus!
