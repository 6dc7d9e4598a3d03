//! The decisions behind the passive probes: what a status file says about
//! identity, whether a BPF filesystem is mounted, how tracepoint and procfs
//! probes resolve, and the explicitly requested live checks.
use vstd::prelude::*;

use super::report::{
    check, check_views, mode_lookup, mode_views, opt_text, seen_text, CheckView, DoctorCheck,
    DoctorReport, JsonScalar, Observed,
};
use super::{CheckGroup, CheckStatus, ModeAvailability, ProbeResult};
use crate::parse::{
    lines_of, parse_hex, parse_hex_exec, parse_unsigned, parse_unsigned_exec, split_lines,
    strip_prefix_chars, trim_chars, trim_text, unicode_words, unicode_words_of,
};
use crate::text::{chars_of, occurs_at, occurs_at_exec, starts_with, str_eq};

verus! {

/// The effective user id of a `Uid:` line: its second field.
pub open spec fn uid_field(line: Seq<char>) -> Option<nat> {
    if starts_with(line, "Uid:"@) {
        let ws = unicode_words(line.subrange(4, line.len() as int));
        if ws.len() >= 2 {
            parse_unsigned(ws[1], u32::MAX as nat)
        } else {
            None
        }
    } else {
        None
    }
}

/// The effective capability mask of a `CapEff:` line, in hexadecimal.
pub open spec fn caps_field(line: Seq<char>) -> Option<nat> {
    if starts_with(line, "CapEff:"@) {
        parse_hex(trim_text(line.subrange(7, line.len() as int)), u64::MAX as nat)
    } else {
        None
    }
}

/// The first value a line yields, in line order.
pub open spec fn first_value(lines: Seq<Seq<char>>, field: spec_fn(Seq<char>) -> Option<nat>) -> Option<nat>
    decreases lines.len(),
{
    if lines.len() == 0 {
        None
    } else if field(lines[0]) is Some {
        field(lines[0])
    } else {
        first_value(lines.drop_first(), field)
    }
}

/// Capabilities that may permit BPF attachment: `CAP_SYS_ADMIN` (bit 21),
/// or both `CAP_PERFMON` (bit 38) and `CAP_BPF` (bit 39).
pub open spec fn bpf_capable(caps: u64) -> bool {
    caps & 0x20_0000u64 != 0 || (caps & 0x40_0000_0000u64 != 0 && caps & 0x80_0000_0000u64 != 0)
}

/// Whether the process runs as root, and whether it holds capabilities
/// relevant to BPF, according to the text of `/proc/self/status`.
pub open spec fn identity_inference(status: Seq<char>) -> (Option<bool>, Option<bool>) {
    let ls = split_lines(status);
    (
        match first_value(ls, |l: Seq<char>| uid_field(l)) {
            Some(u) => Some(u == 0),
            None => None,
        },
        match first_value(ls, |l: Seq<char>| caps_field(l)) {
            Some(c) => Some(bpf_capable(c as u64)),
            None => None,
        },
    )
}

/// The effective user id of one line, if it is a `Uid:` line with one.
fn uid_of(line: &Vec<char>) -> (r: Option<u32>)
    ensures
        match uid_field(line@) {
            Some(v) => r == Some(v as u32),
            None => r is None,
        },
{
    match strip_prefix_chars(line, "Uid:") {
        Some(rest) => {
            let ws = unicode_words_of(&rest);
            proof {
                reveal_strlit("Uid:");
            }
            if ws.len() >= 2 {
                assert(ws@[1]@ == ws@.map_values(|w: Vec<char>| w@)[1]);
                match parse_unsigned_exec(&ws[1], 0xffff_ffff) {
                    Some(v) => Some(v as u32),
                    None => None,
                }
            } else {
                None
            }
        },
        None => None,
    }
}

/// The effective capabilities of one line, if it is a `CapEff:` line with
/// a mask.
fn caps_of(line: &Vec<char>) -> (r: Option<u64>)
    ensures
        match caps_field(line@) {
            Some(v) => r == Some(v as u64),
            None => r is None,
        },
{
    match strip_prefix_chars(line, "CapEff:") {
        Some(rest) => {
            proof {
                reveal_strlit("CapEff:");
            }
            let trimmed = trim_chars(&rest);
            parse_hex_exec(&trimmed, 0xffff_ffff_ffff_ffff)
        },
        None => None,
    }
}

/// Reads root identity and BPF-relevant capabilities from the text of
/// `/proc/self/status`: the first `Uid:` line with an effective id, and
/// the first `CapEff:` line with a mask.
pub fn identity_from_status(status: &str) -> (r: (Option<bool>, Option<bool>))
    ensures
        r == identity_inference(status@),
{
    let chars = chars_of(status);
    let lines = lines_of(&chars);
    let ghost ls = lines@.map_values(|l: Vec<char>| l@);
    let mut uid: Option<u32> = None;
    let mut caps: Option<u64> = None;
    let mut i: usize = 0;
    proof {
        assert(ls.subrange(0, ls.len() as int) =~= ls);
    }
    while i < lines.len()
        invariant
            i <= lines.len(),
            ls == lines@.map_values(|l: Vec<char>| l@),
            ls == split_lines(status@),
            match uid {
                Some(u) => first_value(ls, |l: Seq<char>| uid_field(l)) == Some(u as nat),
                None => first_value(ls, |l: Seq<char>| uid_field(l)) == first_value(
                    ls.subrange(i as int, ls.len() as int),
                    |l: Seq<char>| uid_field(l),
                ),
            },
            match caps {
                Some(c) => first_value(ls, |l: Seq<char>| caps_field(l)) == Some(c as nat),
                None => first_value(ls, |l: Seq<char>| caps_field(l)) == first_value(
                    ls.subrange(i as int, ls.len() as int),
                    |l: Seq<char>| caps_field(l),
                ),
            },
        decreases lines.len() - i,
    {
        let ghost rest = ls.subrange(i as int, ls.len() as int);
        proof {
            assert(rest[0] == lines@[i as int]@);
            assert(rest.drop_first() =~= ls.subrange(i + 1, ls.len() as int));
        }
        if uid.is_none() {
            uid = uid_of(&lines[i]);
        }
        if caps.is_none() {
            caps = caps_of(&lines[i]);
        }
        i = i + 1;
    }
    proof {
        assert(ls.subrange(i as int, ls.len() as int) =~= Seq::<Seq<char>>::empty());
    }
    let root = match uid {
        Some(u) => Some(u == 0),
        None => None,
    };
    let relevant = match caps {
        Some(c) => Some(c & 0x20_0000u64 != 0 || (c & 0x40_0000_0000u64 != 0 && c & 0x80_0000_0000u64 != 0)),
        None => None,
    };
    (root, relevant)
}

/// Index of the first occurrence of `needle` in `haystack`, or the length
/// of `haystack` when it does not occur.
pub open spec fn first_occurrence(haystack: Seq<char>, needle: Seq<char>) -> int
    decreases haystack.len(),
{
    if occurs_at(haystack, needle, 0) {
        0
    } else if haystack.len() == 0 {
        0
    } else {
        1 + first_occurrence(haystack.drop_first(), needle)
    }
}

proof fn lemma_first_occurrence(h: Seq<char>, n: Seq<char>, i: int)
    requires
        0 <= i <= h.len(),
        forall|j: int| 0 <= j < i ==> !occurs_at(h, n, j),
        occurs_at(h, n, i) || i == h.len(),
    ensures
        first_occurrence(h, n) == i,
    decreases h.len(),
{
    if i > 0 {
        let d = h.drop_first();
        assert forall|j: int| 0 <= j < i - 1 implies !occurs_at(d, n, j) by {
            if occurs_at(d, n, j) {
                assert(h.subrange(j + 1, j + 1 + n.len()) =~= d.subrange(j, j + n.len()));
                assert(occurs_at(h, n, j + 1));
            }
        }
        if occurs_at(h, n, i) {
            assert(h.subrange(i, i + n.len()) =~= d.subrange(i - 1, i - 1 + n.len()));
        }
        lemma_first_occurrence(d, n, i - 1);
    }
}

/// A mountinfo line of a BPF filesystem: after the first ` - ` separator
/// the filesystem type is `bpf`.
pub open spec fn bpf_mount_line(line: Seq<char>) -> bool {
    let i = first_occurrence(line, " - "@);
    occurs_at(line, " - "@, i) && starts_with(line.subrange(i + 3, line.len() as int), "bpf "@)
}

/// Some line of the mount table mounts a BPF filesystem.
pub open spec fn bpf_mount_seen(mountinfo: Seq<char>) -> bool {
    exists|k: int| 0 <= k < split_lines(mountinfo).len() && bpf_mount_line(#[trigger] split_lines(mountinfo)[k])
}

/// Is one mountinfo line a BPF filesystem?
fn is_bpf_mount_line(line: &Vec<char>) -> (b: bool)
    ensures
        b == bpf_mount_line(line@),
{
    let sep = chars_of(" - ");
    proof {
        reveal_strlit(" - ");
    }
    let mut i: usize = 0;
    while i < line.len() && !occurs_at_exec(line, &sep, i)
        invariant
            i <= line.len(),
            sep@ == " - "@,
            forall|j: int| 0 <= j < i ==> !occurs_at(line@, sep@, j),
        decreases line.len() - i,
    {
        i = i + 1;
    }
    proof {
        lemma_first_occurrence(line@, sep@, i as int);
    }
    if !occurs_at_exec(line, &sep, i) {
        return false;
    }
    let mut rest: Vec<char> = Vec::new();
    let mut j = i + 3;
    while j < line.len()
        invariant
            i + 3 <= j <= line.len(),
            rest@ == line@.subrange(i + 3, j as int),
        decreases line.len() - j,
    {
        rest.push(line[j]);
        j = j + 1;
        assert(rest@ =~= line@.subrange(i + 3, j as int));
    }
    strip_prefix_chars(&rest, "bpf ").is_some()
}

/// Does the text of `/proc/self/mountinfo` show a mounted BPF filesystem?
pub fn bpf_mounted(mountinfo: &str) -> (b: bool)
    ensures
        b == bpf_mount_seen(mountinfo@),
{
    let chars = chars_of(mountinfo);
    let lines = lines_of(&chars);
    let ghost ls = lines@.map_values(|l: Vec<char>| l@);
    let mut i: usize = 0;
    while i < lines.len()
        invariant
            i <= lines.len(),
            ls == lines@.map_values(|l: Vec<char>| l@),
            ls == split_lines(mountinfo@),
            forall|k: int| 0 <= k < i ==> !bpf_mount_line(#[trigger] ls[k]),
        decreases lines.len() - i,
    {
        assert(ls[i as int] == lines@[i as int]@);
        if is_bpf_mount_line(&lines[i]) {
            return true;
        }
        i = i + 1;
    }
    false
}

/// What looking up one path found.
#[derive(Clone, Copy, Debug, PartialEq, Eq, Structural)]
pub enum PathProbe {
    /// A directory.
    Directory,
    /// Something that is not a directory.
    NotDirectory,
    /// Access was denied.
    PermissionDenied,
    /// Nothing is there.
    NotFound,
    /// Any other failure.
    Failed,
}

/// How the tracepoint root settles: the first candidate that is a
/// directory is available, a denied one restricted, a failing one unknown;
/// candidates that are absent or not directories are passed over, and when
/// all are, the last of them stands as the missing root.
pub open spec fn tracepoint_root_choice(probes: Seq<PathProbe>) -> (Option<int>, ProbeResult)
    decreases probes.len(),
{
    if probes.len() == 0 {
        (None, ProbeResult::Missing)
    } else {
        let earlier = tracepoint_root_choice(probes.drop_last());
        let i = probes.len() - 1;
        if earlier.1 != ProbeResult::Missing {
            earlier
        } else {
            match probes.last() {
                PathProbe::Directory => (Some(i), ProbeResult::Available),
                PathProbe::PermissionDenied => (Some(i), ProbeResult::Restricted),
                PathProbe::Failed => (Some(i), ProbeResult::Unknown),
                _ => (Some(i), ProbeResult::Missing),
            }
        }
    }
}

/// Chooses the tracepoint root among the probed candidates, in order.
pub fn tracepoint_root(probes: &Vec<PathProbe>) -> (r: (Option<usize>, ProbeResult))
    ensures
        (match r.0 {
            Some(i) => Some(i as int),
            None => None,
        }, r.1) == tracepoint_root_choice(probes@),
{
    let mut chosen: Option<usize> = None;
    let mut result = ProbeResult::Missing;
    let mut i: usize = 0;
    while i < probes.len()
        invariant
            i <= probes.len(),
            (match chosen {
                Some(k) => Some(k as int),
                None => None,
            }, result) == tracepoint_root_choice(probes@.take(i as int)),
        decreases probes.len() - i,
    {
        proof {
            assert(probes@.take(i + 1).drop_last() =~= probes@.take(i as int));
        }
        if result == ProbeResult::Missing {
            chosen = Some(i);
            result = match probes[i] {
                PathProbe::Directory => ProbeResult::Available,
                PathProbe::PermissionDenied => ProbeResult::Restricted,
                PathProbe::Failed => ProbeResult::Unknown,
                _ => ProbeResult::Missing,
            };
        }
        i = i + 1;
    }
    proof {
        assert(probes@.take(probes.len() as int) =~= probes@);
    }
    (chosen, result)
}

/// The state of one tracepoint: the root's verdict unless the root is
/// available, in which case the tracepoint's own directory decides.
pub open spec fn tracepoint_verdict(has_root: bool, root: ProbeResult, probe: PathProbe) -> ProbeResult {
    match root {
        ProbeResult::Restricted => ProbeResult::Restricted,
        ProbeResult::Missing => ProbeResult::Missing,
        ProbeResult::Unknown => ProbeResult::Unknown,
        ProbeResult::Available => if !has_root {
            ProbeResult::Unknown
        } else {
            match probe {
                PathProbe::Directory => ProbeResult::Available,
                PathProbe::NotDirectory | PathProbe::NotFound => ProbeResult::Missing,
                PathProbe::PermissionDenied => ProbeResult::Restricted,
                PathProbe::Failed => ProbeResult::Unknown,
            }
        },
    }
}

/// Decides the state of one tracepoint; `probe` is what looking up its
/// directory under the root found, and matters only for an available root.
pub fn tracepoint_state(has_root: bool, root: ProbeResult, probe: PathProbe) -> (r: ProbeResult)
    ensures
        r == tracepoint_verdict(has_root, root, probe),
{
    match root {
        ProbeResult::Restricted => ProbeResult::Restricted,
        ProbeResult::Missing => ProbeResult::Missing,
        ProbeResult::Unknown => ProbeResult::Unknown,
        ProbeResult::Available => if !has_root {
            ProbeResult::Unknown
        } else {
            match probe {
                PathProbe::Directory => ProbeResult::Available,
                PathProbe::NotDirectory | PathProbe::NotFound => ProbeResult::Missing,
                PathProbe::PermissionDenied => ProbeResult::Restricted,
                PathProbe::Failed => ProbeResult::Unknown,
            }
        },
    }
}

/// How many process directories may have their `stat` file sampled.
pub const SAMPLED_PROCESS_DIRECTORIES: u32 = 64;

/// A directory entry of `/proc` names a process: it parses as a `u32`.
pub open spec fn pid_name(name: Seq<char>) -> bool {
    parse_unsigned(name, u32::MAX as nat) is Some
}

/// A scan of `/proc` that counts process directories and notes whether
/// sampling a process's `stat` file was ever refused.
#[derive(Clone, Copy, Debug, PartialEq, Eq, Structural)]
pub struct ProcScan {
    pub numeric: u32,
    pub restricted: bool,
}

impl ProcScan {
    /// A scan that has seen nothing.
    pub fn new() -> (s: ProcScan)
        ensures
            s.numeric == 0,
            !s.restricted,
    {
        ProcScan { numeric: 0, restricted: false }
    }

    /// Records one directory entry, and says whether its `stat` file
    /// should be sampled: only process directories among the first 64.
    pub fn entry(&mut self, name: &str) -> (sample: bool)
        ensures
            final(self).restricted == old(self).restricted,
            final(self).numeric == if pid_name(name@) {
                if old(self).numeric == u32::MAX { u32::MAX } else { (old(self).numeric + 1) as u32 }
            } else {
                old(self).numeric
            },
            sample == (pid_name(name@) && final(self).numeric <= SAMPLED_PROCESS_DIRECTORIES),
    {
        let chars = chars_of(name);
        if parse_unsigned_exec(&chars, 0xffff_ffff).is_none() {
            return false;
        }
        self.numeric = self.numeric.saturating_add(1);
        self.numeric <= SAMPLED_PROCESS_DIRECTORIES
    }

    /// Records that sampling a `stat` file was refused for lack of
    /// permission.
    pub fn permission_denied(&mut self)
        ensures
            final(self).restricted,
            final(self).numeric == old(self).numeric,
    {
        self.restricted = true;
    }

    /// Enumeration and visibility: nothing numeric is unknown, a refused
    /// sample means restricted visibility.
    pub fn outcome(&self) -> (r: (ProbeResult, ProbeResult))
        ensures
            r == if self.numeric == 0 {
                (ProbeResult::Unknown, ProbeResult::Unknown)
            } else if self.restricted {
                (ProbeResult::Available, ProbeResult::Restricted)
            } else {
                (ProbeResult::Available, ProbeResult::Available)
            },
    {
        if self.numeric == 0 {
            (ProbeResult::Unknown, ProbeResult::Unknown)
        } else if self.restricted {
            (ProbeResult::Available, ProbeResult::Restricted)
        } else {
            (ProbeResult::Available, ProbeResult::Available)
        }
    }
}

/// Enumeration and visibility when `/proc` cannot be listed: restricted if
/// it exists, missing otherwise.
pub fn unlisted_proc(present: bool) -> (r: (ProbeResult, ProbeResult))
    ensures
        r == if present {
            (ProbeResult::Restricted, ProbeResult::Unknown)
        } else {
            (ProbeResult::Missing, ProbeResult::Missing)
        },
{
    if present {
        (ProbeResult::Restricted, ProbeResult::Unknown)
    } else {
        (ProbeResult::Missing, ProbeResult::Missing)
    }
}

/// The check that records an explicitly requested live attach/detach test.
pub open spec fn live_check_view(source: Seq<char>, status: CheckStatus, summary: Seq<char>) -> CheckView {
    check(
        source + ".live_attachment_active"@,
        if source == "scheduler"@ { CheckGroup::Scheduler } else { CheckGroup::Tcp },
        source + " active attach/detach test"@,
        status,
        seen_text("explicitly requested active test"@),
        summary,
        None,
    )
}

/// Records the outcome of an explicitly requested live attach/detach test.
pub fn live_check(source: &str, status: CheckStatus, summary: &str) -> (c: DoctorCheck)
    ensures
        c@ == live_check_view(source@, status, summary@),
{
    let mut id = String::from_str(source);
    id.append(".live_attachment_active");
    let mut label = String::from_str(source);
    label.append(" active attach/detach test");
    DoctorCheck {
        id,
        group: if str_eq(source, "scheduler") { CheckGroup::Scheduler } else { CheckGroup::Tcp },
        label,
        status,
        observed: Some(Observed::Scalar(JsonScalar::Text(String::from_str("explicitly requested active test")))),
        summary: String::from_str(summary),
        remediation: None,
        safe_to_share: true,
    }
}

/// Appends the scheduler and TCP live checks; true when either failed.
pub fn add_live_checks(report: &mut DoctorReport, scheduler: DoctorCheck, tcp: DoctorCheck) -> (failed: bool)
    ensures
        check_views(final(report).checks@) == check_views(old(report).checks@).push(scheduler@).push(tcp@),
        final(report).mode_summary@ == old(report).mode_summary@,
        failed == (scheduler.status != CheckStatus::Pass || tcp.status != CheckStatus::Pass),
{
    let ghost before = check_views(report.checks@);
    let ghost sv = scheduler@;
    let ghost tv = tcp@;
    let failed = scheduler.status != CheckStatus::Pass || tcp.status != CheckStatus::Pass;
    report.checks.push(scheduler);
    report.checks.push(tcp);
    proof {
        assert(check_views(report.checks@) =~= before.push(sv).push(tv));
    }
    failed
}

/// A mode an eBPF check accepts: ready, ready with limitations, or only
/// waiting for external privilege.
pub open spec fn acceptable(m: Option<ModeAvailability>) -> bool {
    m == Some(ModeAvailability::Available) || m == Some(ModeAvailability::AvailableWithLimitations)
        || m == Some(ModeAvailability::PermissionRequired)
}

/// A requested eBPF check fails unless both the scheduler and the TCP
/// modes are acceptable.
pub fn ebpf_check_failed(report: &DoctorReport) -> (failed: bool)
    ensures
        failed == (!acceptable(mode_lookup(mode_views(report.mode_summary@), "scheduler"@))
            || !acceptable(mode_lookup(mode_views(report.mode_summary@), "tcp"@))),
{
    let scheduler = report.mode("scheduler");
    let tcp = report.mode("tcp");
    !is_acceptable(scheduler) || !is_acceptable(tcp)
}

/// Is the mode acceptable to a requested eBPF check?
fn is_acceptable(m: Option<ModeAvailability>) -> (b: bool)
    ensures
        b == acceptable(m),
{
    m == Some(ModeAvailability::Available) || m == Some(ModeAvailability::AvailableWithLimitations)
        || m == Some(ModeAvailability::PermissionRequired)
}

/// What a doctor run prints and how it exits.
pub struct DoctorOutcome {
    pub output: String,
    pub exit_code: u8,
}

/// The outcome of a run: exit code 1 exactly when a requested check failed.
pub fn doctor_outcome(output: String, requested_failure: bool) -> (o: DoctorOutcome)
    ensures
        o.output@ == output@,
        o.exit_code == if requested_failure { 1u8 } else { 0u8 },
{
    DoctorOutcome { output, exit_code: if requested_failure { 1 } else { 0 } }
}

} // verus!
