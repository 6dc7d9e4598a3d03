//! The live procfs source: what it makes of each file it reads under its
//! procfs root. Reading the files is the caller's; every outcome of a read
//! is handed back here.
use vstd::prelude::*;

use crate::event::{event_views, EventView, NormalizedEvent};
use crate::parse::parse_unsigned;
use crate::source::procfs::tracker::{ingest_result, sat_add, tracker_wf, TrackerView};
use crate::source::procfs::{
    meminfo_result, parse_meminfo, parse_process_io, parse_process_stat, parse_proc_stat, proc_stat_result,
    process_io_result, process_stat_ok, ProcParseError, ProcSample, ProcStats, ProcTracker, ProcessSample,
    MAX_EVENTS_PER_SAMPLE, MAX_SCANNED_PROCESSES,
};
use crate::text::{chars_of, decimal, io_error_text, path_text, starts_with};

verus! {

/// What reading one procfs file gave: its text, nothing because it does
/// not exist, or a failure.
#[derive(Debug)]
pub enum ProcRead {
    Text(String),
    Missing,
    Failed,
}

/// Why a live sample failed.
#[derive(Debug)]
pub enum ProcSourceError {
    UnsupportedOperatingSystem,
    ReadHost { path: std::path::PathBuf, source: std::io::Error },
    Parse(ProcParseError),
}

/// The message of a parse error.
pub open spec fn parse_error_text(e: ProcParseError) -> Seq<char> {
    match e {
        ProcParseError::MissingField(f) => "missing /proc field "@ + f@,
        ProcParseError::InvalidNumber => "invalid number in /proc record"@,
        ProcParseError::Overflow => "counter overflow in /proc record"@,
        ProcParseError::MalformedProcessStat => "malformed /proc/<pid>/stat record"@,
    }
}

impl ProcParseError {
    /// The human-readable description of the error.
    pub fn message(&self) -> (s: String)
        ensures
            s@ == parse_error_text(*self),
    {
        match self {
            ProcParseError::MissingField(f) => {
                let mut s = String::from_str("missing /proc field ");
                s.append(f);
                s
            },
            ProcParseError::InvalidNumber => String::from_str("invalid number in /proc record"),
            ProcParseError::Overflow => String::from_str("counter overflow in /proc record"),
            ProcParseError::MalformedProcessStat => String::from_str("malformed /proc/<pid>/stat record"),
        }
    }
}

/// Where the host mounts procfs.
pub const HOST_PROC_ROOT: &'static str = "/proc";

/// `PathBuf::from` on a path's text; nothing is stated of the path built.
#[verifier::external_body]
fn path_from(text: &str) -> std::path::PathBuf {
    std::path::PathBuf::from(text)
}

impl ProcSourceError {
    /// The human-readable description of the error.
    pub fn message(&self) -> (s: String)
        ensures
            match *self {
                ProcSourceError::UnsupportedOperatingSystem => s@
                    == "the proc activity source is supported only on Linux"@,
                ProcSourceError::ReadHost { .. } => starts_with(s@, "could not read Linux procfs path "@),
                ProcSourceError::Parse(e) => s@ == "could not parse Linux procfs host record: "@
                    + parse_error_text(e),
            },
    {
        match self {
            ProcSourceError::UnsupportedOperatingSystem => String::from_str(
                "the proc activity source is supported only on Linux",
            ),
            ProcSourceError::ReadHost { path, source } => {
                let mut s = String::from_str("could not read Linux procfs path ");
                let shown = path_text(path);
                let detail = io_error_text(source);
                let ghost head = s@;
                s.append(shown.as_str());
                s.append(": ");
                s.append(detail.as_str());
                proof {
                    assert(s@.subrange(0, head.len() as int) =~= head);
                }
                s
            },
            ProcSourceError::Parse(e) => {
                let mut s = String::from_str("could not parse Linux procfs host record: ");
                let m = e.message();
                s.append(m.as_str());
                s
            },
        }
    }
}

/// The sample with one more unreadable record.
pub open spec fn with_unreadable(s: ProcSample) -> ProcSample {
    ProcSample { unreadable: sat_add(s.unreadable, 1), ..s }
}

/// The sample with one more vanished process.
pub open spec fn with_vanished(s: ProcSample) -> ProcSample {
    ProcSample { vanished: sat_add(s.vanished, 1), ..s }
}

/// Samples procfs under a root, for one process or for all of them.
pub struct LiveProcSource {
    root: std::path::PathBuf,
    pid: Option<u32>,
    tracker: ProcTracker,
}

impl LiveProcSource {
    /// The source's process tracker.
    pub closed spec fn tracker_view(&self) -> TrackerView {
        self.tracker@
    }

    /// The process the source follows, if it follows one.
    pub closed spec fn spec_pid(&self) -> Option<u32> {
        self.pid
    }

    /// The source's invariant: its tracker's.
    pub open spec fn wf(&self) -> bool {
        tracker_wf(self.tracker_view())
    }

    /// A source over the host's `/proc`.
    pub fn new(pid: Option<u32>, anonymize: bool, session_seed: u64) -> (s: LiveProcSource)
        ensures
            s.wf(),
            s.spec_pid() == pid,
            s.tracker_view().known.len() == 0,
            s.tracker_view().anonymize == anonymize,
            s.tracker_view().session_seed == session_seed,
            !s.tracker_view().initialized,
    {
        LiveProcSource { root: path_from(HOST_PROC_ROOT), pid, tracker: ProcTracker::new(anonymize, session_seed) }
    }

    /// A source over procfs mounted at `root`.
    pub fn with_root(root: std::path::PathBuf, pid: Option<u32>, anonymize: bool, session_seed: u64) -> (s:
        LiveProcSource)
        ensures
            s.wf(),
            s.spec_pid() == pid,
            s.tracker_view().known.len() == 0,
            s.tracker_view().anonymize == anonymize,
            s.tracker_view().session_seed == session_seed,
            !s.tracker_view().initialized,
    {
        LiveProcSource { root, pid, tracker: ProcTracker::new(anonymize, session_seed) }
    }

    /// The procfs root.
    pub closed spec fn spec_root(&self) -> std::path::PathBuf {
        self.root
    }

    /// The procfs root.
    pub fn root(&self) -> (r: &std::path::PathBuf)
        ensures
            *r == self.spec_root(),
    {
        &self.root
    }

    /// The process the source follows, if it follows one.
    #[verifier::when_used_as_spec(spec_pid)]
    pub fn pid(&self) -> (p: Option<u32>)
        ensures
            p == self.spec_pid(),
    {
        self.pid
    }

    /// The tracker's counters.
    pub fn stats(&self) -> (s: ProcStats)
        ensures
            s == self.tracker_view().stats,
    {
        self.tracker.stats()
    }

    /// Takes the host's `/proc/stat` text into the sample.
    pub fn host_stat(sample: &mut ProcSample, text: &str) -> (r: Result<(), ProcSourceError>)
        ensures
            match proc_stat_result(text@) {
                Ok(stat) => r is Ok && *final(sample) == (ProcSample { stat, ..*old(sample) }),
                Err(e) => r matches Err(ProcSourceError::Parse(f)) && f == e && *final(sample) == *old(sample),
            },
    {
        match parse_proc_stat(text) {
            Ok(stat) => {
                sample.stat = stat;
                Ok(())
            },
            Err(e) => Err(ProcSourceError::Parse(e)),
        }
    }

    /// Takes what reading `/proc/meminfo` gave into the sample: its memory
    /// when it parses, one more unreadable record otherwise.
    pub fn host_memory(sample: &mut ProcSample, read: ProcRead)
        ensures
            match read {
                ProcRead::Text(t) => match meminfo_result(t@) {
                    Ok(m) => *final(sample) == (ProcSample { memory: Some(m), ..*old(sample) }),
                    Err(_) => *final(sample) == with_unreadable(*old(sample)),
                },
                _ => *final(sample) == with_unreadable(*old(sample)),
            },
    {
        match read {
            ProcRead::Text(t) => match parse_meminfo(t.as_str()) {
                Ok(m) => sample.memory = Some(m),
                Err(_) => sample.unreadable = sample.unreadable.saturating_add(1),
            },
            _ => sample.unreadable = sample.unreadable.saturating_add(1),
        }
    }

    /// A directory entry that could not be listed counts as unreadable.
    pub fn unlisted_entry(sample: &mut ProcSample)
        ensures
            *final(sample) == with_unreadable(*old(sample)),
    {
        sample.unreadable = sample.unreadable.saturating_add(1);
    }

    /// The process id a directory entry names, if its name is a `u32`.
    pub fn entry_pid(name: Option<&str>) -> (p: Option<u32>)
        ensures
            match name {
                Some(n) => match parse_unsigned(n@, u32::MAX as nat) {
                    Some(v) => p == Some(v as u32),
                    None => p is None,
                },
                None => p is None,
            },
    {
        match name {
            Some(n) => {
                let chars = chars_of(n);
                match crate::parse::parse_unsigned_exec(&chars, 0xffff_ffff) {
                    Some(v) => Some(v as u32),
                    None => None,
                }
            },
            None => None,
        }
    }

    /// Whether another process may be read into the sample; a full scan
    /// counts the process as refused.
    pub fn admits_process(sample: &mut ProcSample) -> (b: bool)
        ensures
            b == (old(sample).processes.len() != MAX_SCANNED_PROCESSES),
            b ==> *final(sample) == *old(sample),
            !b ==> *final(sample) == (ProcSample { scan_refused: sat_add(old(sample).scan_refused, 1), ..*old(sample) }),
    {
        if sample.processes.len() == MAX_SCANNED_PROCESSES {
            sample.scan_refused = sample.scan_refused.saturating_add(1);
            return false;
        }
        true
    }

    /// Takes what reading `/proc/<pid>/stat` gave: the process when it
    /// parses; otherwise nothing, counting a missing file as a vanished
    /// process and any other failure as unreadable.
    pub fn process_stat(sample: &mut ProcSample, read: ProcRead) -> (p: Option<ProcessSample>)
        ensures
            match read {
                ProcRead::Text(t) => match p {
                    Some(q) => process_stat_ok(Ok(q), t@) && *final(sample) == *old(sample),
                    None => (exists|e: ProcParseError| process_stat_ok(Err(e), t@)) && *final(sample)
                        == with_unreadable(*old(sample)),
                },
                ProcRead::Missing => p is None && *final(sample) == with_vanished(*old(sample)),
                ProcRead::Failed => p is None && *final(sample) == with_unreadable(*old(sample)),
            },
    {
        match read {
            ProcRead::Text(t) => match parse_process_stat(t.as_str()) {
                Ok(process) => Some(process),
                Err(e) => {
                    assert(process_stat_ok(Err(e), t@));
                    sample.unreadable = sample.unreadable.saturating_add(1);
                    None
                },
            },
            ProcRead::Missing => {
                sample.vanished = sample.vanished.saturating_add(1);
                None
            },
            ProcRead::Failed => {
                sample.unreadable = sample.unreadable.saturating_add(1);
                None
            },
        }
    }

    /// Takes what reading `/proc/<pid>/io` gave and adds the process to
    /// the sample: with its byte counters when they parse; otherwise
    /// without them, counting a missing file as vanished and any other
    /// failure as unreadable.
    pub fn process_io(sample: &mut ProcSample, process: ProcessSample, read: ProcRead)
        ensures
            ({
                let (counted, kept) = match read {
                    ProcRead::Text(t) => match process_io_result(t@) {
                        Ok((r, w)) => (
                            *old(sample),
                            ProcessSample { read_bytes: Some(r), write_bytes: Some(w), ..process },
                        ),
                        Err(_) => (with_unreadable(*old(sample)), process),
                    },
                    ProcRead::Missing => (with_vanished(*old(sample)), process),
                    ProcRead::Failed => (with_unreadable(*old(sample)), process),
                };
                &&& final(sample).unreadable == counted.unreadable
                &&& final(sample).vanished == counted.vanished
                &&& final(sample).timestamp == counted.timestamp
                &&& final(sample).stat == counted.stat
                &&& final(sample).memory == counted.memory
                &&& if counted.processes.len() != MAX_SCANNED_PROCESSES {
                    final(sample).processes@ == counted.processes@.push(kept) && final(sample).scan_refused
                        == counted.scan_refused
                } else {
                    final(sample).processes@ == counted.processes@ && final(sample).scan_refused == sat_add(
                        counted.scan_refused,
                        1,
                    )
                }
            }),
    {
        let mut process = process;
        match read {
            ProcRead::Text(t) => match parse_process_io(t.as_str()) {
                Ok((r, w)) => {
                    process.read_bytes = Some(r);
                    process.write_bytes = Some(w);
                },
                Err(_) => sample.unreadable = sample.unreadable.saturating_add(1),
            },
            ProcRead::Missing => sample.vanished = sample.vanished.saturating_add(1),
            ProcRead::Failed => sample.unreadable = sample.unreadable.saturating_add(1),
        }
        let _ = sample.push_process(process);
    }

    /// Turns a complete sample into events through the tracker.
    pub fn ingest(&mut self, sample: ProcSample) -> (events: Vec<NormalizedEvent>)
        requires
            old(self).wf(),
        ensures
            final(self).wf(),
            final(self).spec_pid() == old(self).spec_pid(),
            (final(self).tracker_view(), event_views(events@)) == ingest_result(old(self).tracker_view(), sample),
            events.len() <= MAX_EVENTS_PER_SAMPLE,
    {
        self.tracker.ingest(sample)
    }
}

} // verus!
