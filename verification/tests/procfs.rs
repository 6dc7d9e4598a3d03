use std::collections::BTreeSet;

use synesthesia::event::{Direction, NormalizedEvent, Quantity};
use synesthesia::source::procfs::{
    parse_meminfo, parse_proc_stat, parse_process_io, parse_process_stat, LiveProcSource, MemorySample,
    ProcParseError, ProcRead, ProcSample, ProcSourceError, ProcStat, ProcTracker, ProcessSample,
    MAX_EVENTS_PER_SAMPLE, MAX_SCANNED_PROCESSES, MAX_TRACKED_PROCESSES,
};

fn seconds(value: f64) -> Quantity {
    Quantity::Double { bits: value.to_bits() }
}

fn value(q: Quantity) -> f64 {
    match q {
        Quantity::Ratio { numerator, denominator } => numerator as f64 / denominator as f64,
        Quantity::Double { bits } => f64::from_bits(bits),
    }
}

fn label<'a>(event: &'a NormalizedEvent, key: &str) -> Option<&'a String> {
    event.labels.entries.iter().rev().find(|(k, _)| k == key).map(|(_, v)| v)
}

fn same(a: &NormalizedEvent, b: &NormalizedEvent) -> bool {
    a.v == b.v
        && a.timestamp == b.timestamp
        && a.category == b.category
        && a.origin == b.origin
        && a.target == b.target
        && a.magnitude == b.magnitude
        && a.direction == b.direction
        && a.labels.entries == b.labels.entries
}

fn process(pid: u32, comm: &str, start: u64, cpu: u64, read: u64, write: u64) -> ProcessSample {
    ProcessSample {
        pid,
        comm: comm.to_owned(),
        cpu_ticks: cpu,
        start_ticks: start,
        read_bytes: Some(read),
        write_bytes: Some(write),
    }
}

fn sample(timestamp: f64, processes: Vec<ProcessSample>) -> ProcSample {
    let mut s = ProcSample::new(seconds(timestamp));
    s.processes = processes;
    s.stat = ProcStat { total_cpu_ticks: 10_000, idle_cpu_ticks: 8_000, procs_running: 2 };
    s.memory = Some(MemorySample { total_kib: 1_000_000, available_kib: 500_000 });
    s
}

#[test]
fn parses_host_and_process_stats_including_hostile_comm_shape() {
    let stat = parse_proc_stat("cpu  10 2 3 40 5 6 7 8 9 10\nintr 1\nprocs_running 3\n").unwrap();
    assert_eq!(stat.total_cpu_ticks, 100);
    assert_eq!(stat.idle_cpu_ticks, 45);
    assert_eq!(stat.procs_running, 3);

    let process =
        parse_process_stat("42 (compiler (worker) one) R 1 2 3 4 5 6 7 8 9 10 13 17 14 15 16 17 18 19 1234 21")
            .unwrap();
    assert_eq!(process.pid, 42);
    assert_eq!(process.comm, "compiler (worker) one");
    assert_eq!(process.cpu_ticks, 30);
    assert_eq!(process.start_ticks, 1234);
}

#[test]
fn parses_io_and_memory_without_accepting_partial_records() {
    assert_eq!(parse_process_io("rchar: 9\nwchar: 10\nread_bytes: 4096\nwrite_bytes: 8192\n").unwrap(), (4096, 8192));
    assert!(parse_process_io("read_bytes: 1\n").is_err());
    assert_eq!(
        parse_meminfo("MemTotal: 1000 kB\nMemAvailable: 240 kB\n").unwrap(),
        MemorySample { total_kib: 1000, available_kib: 240 }
    );
}

#[test]
fn deltas_map_to_cpu_and_directional_io_events() {
    let mut tracker = ProcTracker::new(false, 7);
    tracker.ingest(sample(0.0, vec![process(10, "database", 100, 20, 1_000, 2_000)]));
    let events = tracker.ingest(sample(0.25, vec![process(10, "database", 100, 35, 5_096, 10_192)]));
    let categories: BTreeSet<_> = events.iter().map(|event| event.category.as_str()).collect();
    assert_eq!(categories, BTreeSet::from(["proc.cpu", "proc.io.read", "proc.io.write"]));
    assert_eq!(value(events.iter().find(|event| event.category == "proc.cpu").unwrap().magnitude), 1_920.0);
    assert_eq!(events.iter().find(|event| event.category == "proc.io.read").unwrap().direction, Direction::Inbound);
    assert_eq!(events.iter().find(|event| event.category == "proc.io.write").unwrap().direction, Direction::Outbound);
}

#[test]
fn pid_reuse_emits_exit_and_start_without_counter_spike() {
    let mut tracker = ProcTracker::new(false, 11);
    tracker.ingest(sample(0.0, vec![process(99, "old-worker", 100, 1000, 1000, 1000)]));
    let events = tracker.ingest(sample(1.0, vec![process(99, "new-worker", 900, 2, 0, 0)]));
    assert_eq!(events.iter().map(|event| event.category.as_str()).collect::<Vec<_>>(), ["proc.exit", "proc.start"]);
    assert_eq!(tracker.stats().counter_resets, 0);
}

#[test]
fn process_disappearance_emits_one_exit_and_is_forgotten() {
    let mut tracker = ProcTracker::new(false, 1);
    tracker.ingest(sample(0.0, vec![process(2, "worker", 50, 1, 0, 0)]));
    let first = tracker.ingest(sample(0.5, Vec::new()));
    let second = tracker.ingest(sample(1.0, Vec::new()));
    assert_eq!(first.iter().filter(|event| event.category == "proc.exit").count(), 1);
    assert!(second.iter().all(|event| event.category != "proc.exit"));
    assert_eq!(tracker.stats().tracked_processes, 0);
}

#[test]
fn initial_snapshot_is_a_quiet_baseline_and_later_birth_is_visible() {
    let mut tracker = ProcTracker::new(false, 2);
    let baseline = sample(0.0, vec![process(1, "existing", 10, 1, 0, 0)]);
    assert!(tracker.ingest(baseline).is_empty());
    let events = tracker.ingest(sample(
        0.25,
        vec![process(1, "existing", 10, 1, 0, 0), process(2, "new-worker", 20, 0, 0, 0)],
    ));
    let start = events.iter().find(|event| event.category == "proc.start").unwrap();
    assert!(start.target.as_deref().unwrap().contains("new-worker"));
    assert_eq!(tracker.stats().starts, 1);
}

#[test]
fn permission_and_disappearance_counts_are_separate_from_parse_failures() {
    let mut tracker = ProcTracker::new(false, 3);
    let mut baseline = sample(0.0, Vec::new());
    baseline.unreadable = 4;
    baseline.vanished = 2;
    tracker.ingest(baseline);
    let stats = tracker.stats();
    assert_eq!(stats.unreadable, 4);
    assert_eq!(stats.vanished, 2);
    assert_eq!(stats.counter_resets, 0);
}

#[test]
fn unreadable_io_and_counter_reset_degrade_without_false_delta() {
    let mut tracker = ProcTracker::new(false, 3);
    let mut initial = process(3, "worker", 1, 100, 900, 900);
    initial.read_bytes = None;
    initial.write_bytes = None;
    tracker.ingest(sample(0.0, vec![initial]));
    let mut next = process(3, "worker", 1, 50, 100, 100);
    next.read_bytes = None;
    next.write_bytes = None;
    let events = tracker.ingest(sample(0.25, vec![next]));
    assert!(events.iter().all(|event| !event.category.starts_with("proc.io")));
    assert!(events.iter().all(|event| event.category != "proc.cpu"));
    assert_eq!(tracker.stats().counter_resets, 1);
}

#[test]
fn process_tracking_and_event_output_are_bounded_deterministically() {
    let mut first = ProcTracker::new(true, 55);
    let processes: Vec<_> =
        (1..=(MAX_TRACKED_PROCESSES as u32 + 32)).map(|pid| process(pid, "worker", u64::from(pid), 0, 0, 0)).collect();
    assert!(first.ingest(sample(0.0, processes.clone())).is_empty());
    assert_eq!(first.stats().tracked_processes, MAX_TRACKED_PROCESSES);
    assert_eq!(first.stats().tracking_refused, 32);
    let events = first.ingest(sample(0.25, processes.clone()));
    assert!(events.len() <= MAX_EVENTS_PER_SAMPLE);
    assert!(events.iter().any(|event| event.category == "proc.background"));

    let mut second = ProcTracker::new(true, 55);
    second.ingest(sample(0.0, processes.clone()));
    let again = second.ingest(sample(0.25, processes));
    assert_eq!(events.len(), again.len());
    assert!(events.iter().zip(again.iter()).all(|(a, b)| same(a, b)));
}

#[test]
fn anonymization_is_stable_within_session_and_removes_name_and_pid_labels() {
    let mut tracker = ProcTracker::new(true, 99);
    tracker.ingest(sample(0.0, Vec::new()));
    let start = tracker.ingest(sample(0.25, vec![process(7, "private-name", 77, 0, 0, 0)]));
    let cpu = tracker.ingest(sample(0.5, vec![process(7, "private-name", 77, 10, 0, 0)]));
    let start_identity = start.iter().find(|event| event.category == "proc.start").unwrap().target.clone().unwrap();
    let cpu_event = cpu.iter().find(|event| event.category == "proc.cpu").unwrap();
    assert_eq!(cpu_event.origin.as_deref(), Some(start_identity.as_str()));
    assert!(label(cpu_event, "comm").is_none());
    assert!(label(cpu_event, "pid").is_none());
    let texts = [Some(cpu_event.category.clone()), cpu_event.origin.clone(), cpu_event.target.clone()];
    assert!(texts.iter().flatten().all(|text| !text.contains("private-name")));
    assert!(cpu_event.labels.entries.iter().all(|(k, v)| !k.contains("private-name") && !v.contains("private-name")));
}

#[test]
fn low_memory_and_runqueue_are_observations_not_diagnoses() {
    let mut tracker = ProcTracker::new(false, 5);
    tracker.ingest(sample(0.0, Vec::new()));
    let mut pressured = sample(0.0, Vec::new());
    pressured.timestamp = seconds(0.25);
    pressured.stat.procs_running = 8;
    pressured.memory = Some(MemorySample { total_kib: 1_000, available_kib: 90 });
    let events = tracker.ingest(pressured);
    assert!(events.iter().any(|event| event.category == "host.runqueue"));
    let memory = events.iter().find(|event| event.category == "host.memory.pressure").unwrap();
    assert_eq!(label(memory, "available_percent").unwrap(), "9");
    assert!(!memory.category.contains("oom"));
}

#[test]
fn unsupported_platform_error_is_explicit() {
    assert_eq!(
        ProcSourceError::UnsupportedOperatingSystem.message(),
        "the proc activity source is supported only on Linux"
    );
}

#[test]
fn parse_errors_describe_the_refused_record() {
    assert_eq!(ProcParseError::MissingField("cpu").message(), "missing /proc field cpu");
    assert_eq!(
        ProcSourceError::Parse(ProcParseError::InvalidNumber).message(),
        "could not parse Linux procfs host record: invalid number in /proc record"
    );
}

#[test]
fn live_reader_boundary_reads_injected_records_not_the_host() {
    let mut source = LiveProcSource::with_root(std::path::PathBuf::from("/nonexistent/proc"), Some(42), false, 1);
    assert_eq!(source.pid(), Some(42));
    let read = |stat: &str, io: &str| {
        let mut sample = ProcSample::new(seconds(0.0));
        LiveProcSource::host_stat(&mut sample, "cpu  10 2 3 40 5 6 7 8 9 10\nprocs_running 1\n").unwrap();
        LiveProcSource::host_memory(&mut sample, ProcRead::Text("MemTotal: 1000 kB\nMemAvailable: 600 kB\n".to_owned()));
        assert!(LiveProcSource::admits_process(&mut sample));
        let process = LiveProcSource::process_stat(&mut sample, ProcRead::Text(stat.to_owned())).unwrap();
        LiveProcSource::process_io(&mut sample, process, ProcRead::Text(io.to_owned()));
        sample
    };
    let first = read(
        "42 (compiler worker) R 1 2 3 4 5 6 7 8 9 10 13 17 14 15 16 17 18 19 1234 21",
        "read_bytes: 4096\nwrite_bytes: 8192\n",
    );
    assert!(source.ingest(first).is_empty());
    let mut second = read(
        "42 (compiler worker) R 1 2 3 4 5 6 7 8 9 10 23 27 14 15 16 17 18 19 1234 21",
        "read_bytes: 8192\nwrite_bytes: 16384\n",
    );
    second.timestamp = seconds(0.25);
    let events = source.ingest(second);
    assert_eq!(
        events.iter().map(|event| event.category.as_str()).collect::<BTreeSet<_>>(),
        BTreeSet::from(["proc.cpu", "proc.io.read", "proc.io.write"])
    );
}

#[test]
fn missing_host_stat_fails_but_missing_process_files_are_counted() {
    let mut sample = ProcSample::new(seconds(0.0));
    assert!(matches!(
        LiveProcSource::host_stat(&mut sample, "intr 1\n"),
        Err(ProcSourceError::Parse(ProcParseError::MissingField(_)))
    ));
    LiveProcSource::host_memory(&mut sample, ProcRead::Failed);
    assert_eq!(sample.unreadable, 1);
    assert!(LiveProcSource::process_stat(&mut sample, ProcRead::Missing).is_none());
    assert_eq!(sample.vanished, 1);
    assert!(LiveProcSource::process_stat(&mut sample, ProcRead::Text("garbage".to_owned())).is_none());
    assert_eq!(sample.unreadable, 2);
    let process = process(9, "worker", 1, 1, 1, 1);
    LiveProcSource::process_io(&mut sample, process, ProcRead::Missing);
    assert_eq!(sample.vanished, 2);
    assert_eq!(sample.processes.len(), 1);
    assert_eq!(sample.processes[0].read_bytes, Some(1));
    assert_eq!(LiveProcSource::entry_pid(Some("1234")), Some(1234));
    assert_eq!(LiveProcSource::entry_pid(Some("self")), None);
    assert_eq!(LiveProcSource::entry_pid(None), None);
}

#[test]
fn full_scan_refuses_more_processes() {
    let mut sample = ProcSample::new(seconds(0.0));
    for pid in 0..MAX_SCANNED_PROCESSES as u32 {
        assert!(LiveProcSource::admits_process(&mut sample));
        sample.push_process(process(pid, "worker", 1, 0, 0, 0));
    }
    assert!(!LiveProcSource::admits_process(&mut sample));
    assert_eq!(sample.scan_refused, 1);
}

#[test]
fn anonymous_identity_does_not_depend_on_the_name() {
    let tracker = ProcTracker::new(true, 99);
    let one = tracker.identity(7, 77, "private-name");
    let other = tracker.identity(7, 77, "another-name");
    assert_eq!(one, other);
    assert!(one.starts_with("proc:"));
    assert!(!one.contains("private-name"));
    let named = ProcTracker::new(false, 99).identity(7, 77, "worker");
    assert_eq!(named, "proc:worker[7]@77");
}

#[test]
fn advancing_ticks_lead_the_sample_with_cpu_and_memory_gauges() {
    let mut tracker = ProcTracker::new(false, 21);
    tracker.ingest(sample(0.0, vec![process(10, "database", 100, 20, 0, 0)]));
    let mut next = sample(0.25, vec![process(10, "database", 100, 20, 0, 0)]);
    next.stat = ProcStat { total_cpu_ticks: 10_400, idle_cpu_ticks: 8_300, procs_running: 2 };
    next.memory = Some(MemorySample { total_kib: 1_000_000, available_kib: 250_000 });
    let events = tracker.ingest(next);
    assert_eq!(events[0].category, "host.cpu");
    assert_eq!(events[0].magnitude, Quantity::Ratio { numerator: 100, denominator: 400 });
    assert_eq!(value(events[0].magnitude), 0.25);
    assert_eq!(label(&events[0], "busy_ticks").unwrap(), "100");
    assert_eq!(events[1].category, "host.memory");
    assert_eq!(value(events[1].magnitude), 0.75);
    assert_eq!(label(&events[1], "available_kib").unwrap(), "250000");
    assert_eq!(events.len(), 2);
}

#[test]
fn stalled_ticks_emit_no_gauge() {
    let mut tracker = ProcTracker::new(false, 22);
    tracker.ingest(sample(0.0, Vec::new()));
    let mut regressed = sample(0.25, Vec::new());
    regressed.stat.total_cpu_ticks = 9_000;
    let stalled = tracker.ingest(sample(0.5, Vec::new()));
    assert!(stalled.iter().all(|event| event.category != "host.cpu" && event.category != "host.memory"));
    let backwards = tracker.ingest(regressed);
    assert!(backwards.iter().all(|event| event.category != "host.cpu" && event.category != "host.memory"));
    let mut advanced = sample(0.75, Vec::new());
    advanced.stat.total_cpu_ticks = 9_100;
    advanced.stat.idle_cpu_ticks = 9_000;
    advanced.memory = None;
    let events = tracker.ingest(advanced);
    assert_eq!(events.iter().map(|event| event.category.as_str()).collect::<Vec<_>>(), ["host.cpu"]);
    assert_eq!(events[0].magnitude, Quantity::Ratio { numerator: 0, denominator: 100 });
}

#[test]
fn each_sample_advances_the_counters_by_saturating_steps() {
    let mut tracker = ProcTracker::new(false, 23);
    let mut first = sample(0.0, vec![process(1, "worker", 5, 10, 0, 0)]);
    first.unreadable = 2;
    first.vanished = 1;
    tracker.ingest(first);
    let before = tracker.stats();
    let mut second = sample(0.25, vec![process(1, "worker", 5, 30, 0, 0), process(2, "fresh", 9, 0, 0, 0)]);
    second.unreadable = u64::MAX;
    second.scan_refused = 3;
    tracker.ingest(second);
    let after = tracker.stats();
    assert_eq!(after.samples, before.samples + 1);
    assert_eq!(after.unreadable, u64::MAX);
    assert_eq!(after.vanished, 1);
    assert_eq!(after.scan_refused, 3);
    assert_eq!(after.cpu_events, before.cpu_events + 1);
    assert_eq!(after.starts, before.starts + 1);
    assert_eq!(after.tracked_processes, 2);
}

#[test]
fn sanitized_fixture_covers_cpu_io_churn_and_settle_without_host_identity() {
    let mut tracker = ProcTracker::new(true, 77);
    let editor = |cpu: u64, read: u64, write: u64| process(100, "sushi-k-editor", 10, cpu, read, write);
    let at = |timestamp: f64, processes: Vec<ProcessSample>, running: u32| {
        let mut s = sample(timestamp, processes);
        s.stat.procs_running = running;
        s
    };
    let mut recording = Vec::new();
    recording.extend(tracker.ingest(at(0.0, vec![editor(0, 0, 0)], 2)));
    recording.extend(tracker.ingest(at(1.0, vec![editor(50, 4_096, 8_192)], 3)));
    recording.extend(tracker.ingest(at(2.0, vec![editor(50, 4_096, 8_192), process(200, "/home/sushi-k/bin/x", 20, 0, 0, 0)], 3)));
    recording.extend(tracker.ingest(at(3.0, vec![editor(50, 4_096, 8_192)], 3)));
    recording.extend(tracker.ingest(at(4.0, vec![editor(50, 4_096, 8_192)], 3)));
    recording.extend(tracker.ingest(at(5.0, vec![editor(50, 4_096, 8_192)], 2)));
    let mut categories = BTreeSet::new();
    let mut previous = 0.0;
    for event in &recording {
        let timestamp = value(event.timestamp.unwrap());
        assert!(timestamp >= previous);
        previous = timestamp;
        categories.insert(event.category.clone());
        let mut texts = vec![event.category.clone()];
        texts.extend(event.origin.clone());
        texts.extend(event.target.clone());
        for (key, value) in &event.labels.entries {
            texts.push(key.clone());
            texts.push(value.clone());
        }
        assert!(texts.iter().all(|text| !text.contains("/home/") && !text.contains("sushi-k")));
    }
    assert_eq!(
        categories,
        BTreeSet::from([
            "host.runqueue".to_owned(),
            "proc.cpu".to_owned(),
            "proc.exit".to_owned(),
            "proc.io.read".to_owned(),
            "proc.io.write".to_owned(),
            "proc.start".to_owned(),
        ])
    );
    assert_eq!(previous, 5.0);
}
