use synesthesia::event::{Direction, Labels, NormalizedEvent, Quantity};
use synesthesia::flight::recorder::{ExistingIncident, IncidentWrite};
use synesthesia::flight::replay::IncidentReplay;
use synesthesia::flight::{
    parse_metadata_event, seconds, FlightConfig, FlightError, FlightRecorder, FlightSource, FlightState,
    HostMetadata, IncidentLosses, Termination, TriggerInfo, METADATA_CATEGORY, PHASE_LABEL, TRIGGER_CATEGORY,
};
use synesthesia::source::demo::DemoSource;

const MS: u64 = 1_000_000;

fn config() -> FlightConfig {
    FlightConfig {
        output: std::path::PathBuf::from("/tmp/synesthesia-flight-test.ndjson"),
        source: FlightSource::Tcp,
        pre_trigger: 2_000 * MS,
        post_trigger: 1_000 * MS,
        max_events: 32,
        max_bytes: 64 * 1024,
        host: HostMetadata { kernel: "test-kernel".to_owned(), architecture: "test-arch".to_owned() },
    }
}

fn event(index: usize) -> NormalizedEvent {
    let mut source = DemoSource::new(42);
    let mut event = source.next_event();
    for _ in 0..index {
        event = source.next_event();
    }
    event.timestamp = Some(Quantity::Double { bits: (index as f64 * 0.1).to_bits() });
    event
}

fn at(seconds: f64) -> Option<Quantity> {
    Some(Quantity::Double { bits: seconds.to_bits() })
}

fn label<'a>(event: &'a NormalizedEvent, key: &str) -> &'a str {
    event.labels.get(key).unwrap().as_str()
}

fn none() -> IncidentLosses {
    IncidentLosses::default()
}

fn same(a: &NormalizedEvent, b: &NormalizedEvent) -> bool {
    let mut left = a.labels.entries.clone();
    let mut right = b.labels.entries.clone();
    left.sort();
    right.sort();
    a.v == b.v
        && a.timestamp == b.timestamp
        && a.category == b.category
        && a.origin == b.origin
        && a.target == b.target
        && a.magnitude == b.magnitude
        && a.direction == b.direction
        && left == right
}

fn append(file: &mut Vec<NormalizedEvent>, write: IncidentWrite) -> bool {
    file.extend(write.records);
    write.publish
}

#[test]
fn explicit_state_machine_refuses_illegal_transitions() {
    let mut recorder = FlightRecorder::new(config()).unwrap();
    assert_eq!(recorder.state(), FlightState::Disarmed);
    assert!(matches!(
        recorder.trigger(0, None, TriggerInfo::manual(), none()),
        Err(FlightError::IllegalTransition { .. })
    ));
    recorder.arm(0, ExistingIncident::Absent).unwrap();
    assert!(matches!(recorder.arm(100 * MS, ExistingIncident::Absent), Err(FlightError::IllegalTransition { .. })));
    recorder.cancel().unwrap();
    assert_eq!(recorder.state(), FlightState::Cancelled);
}

#[test]
fn manual_trigger_preserves_order_and_completes_after_bounded_tail() {
    let mut recorder = FlightRecorder::new(config()).unwrap();
    let mut file = Vec::new();
    recorder.arm(0, ExistingIncident::Absent).unwrap();
    assert!(!append(&mut file, recorder.observe(event(1), 400, 200 * MS, none()).unwrap()));
    assert!(!append(&mut file, recorder.observe(event(2), 400, 400 * MS, none()).unwrap()));
    let opened = recorder.trigger(500 * MS, at(0.5), TriggerInfo::manual(), none()).unwrap();
    assert!(opened.create);
    assert!(!append(&mut file, opened));
    assert!(!append(&mut file, recorder.observe(event(3), 400, 800 * MS, none()).unwrap()));
    assert!(append(&mut file, recorder.tick(1_500 * MS, none())));
    assert_eq!(recorder.state(), FlightState::Complete);

    assert_eq!(file[0].category, METADATA_CATEGORY);
    assert_eq!(label(&file[1], PHASE_LABEL), "pre");
    assert_eq!(label(&file[2], PHASE_LABEL), "pre");
    assert_eq!(file[3].category, TRIGGER_CATEGORY);
    assert_eq!(label(&file[4], PHASE_LABEL), "post");
    assert_eq!(label(&file[5], "record"), "end");
    assert_eq!(label(&file[0], "trigger_at"), "0.500000");
    assert_eq!(label(&file[5], "actual_post_trigger_seconds"), "1.000000");
    assert_eq!(label(&file[5], "post_event_count"), "1");
}

#[test]
fn time_event_and_byte_bounds_evict_oldest_deterministically() {
    let mut bounded = config();
    bounded.pre_trigger = 500 * MS;
    bounded.max_events = 2;
    bounded.max_bytes = 900;
    let mut recorder = FlightRecorder::new(bounded).unwrap();
    recorder.arm(0, ExistingIncident::Absent).unwrap();
    for index in 0..5 {
        recorder.observe(event(index), 450, index as u64 * 200 * MS, none()).unwrap();
    }
    let status = recorder.status(800 * MS);
    assert!(status.retained_events <= 2);
    assert!(status.retained_bytes <= 900);
    assert!(status.retained_duration <= 500 * MS);
    assert!(status.pre_trigger_evictions > 0);
    recorder.cancel().unwrap();
}

#[test]
fn cancellation_creates_no_file_and_existing_paths_are_refused() {
    let mut recorder = FlightRecorder::new(config()).unwrap();
    recorder.arm(0, ExistingIncident::Absent).unwrap();
    let write = recorder.observe(event(0), 400, 100 * MS, none()).unwrap();
    assert!(!write.create && write.records.is_empty() && !write.publish);
    recorder.cancel().unwrap();
    assert_eq!(recorder.state(), FlightState::Cancelled);

    let mut recorder = FlightRecorder::new(config()).unwrap();
    assert!(matches!(recorder.arm(0, ExistingIncident::Output), Err(FlightError::OutputExists(_))));
    assert_eq!(recorder.state(), FlightState::Disarmed);
    let part = std::path::PathBuf::from("/tmp/synesthesia-flight-test.ndjson.part");
    assert!(matches!(
        recorder.arm(0, ExistingIncident::Partial(part.clone())),
        Err(FlightError::PartialExists(p)) if p == part
    ));
}

#[test]
fn interrupted_tail_publishes_valid_early_incident() {
    let mut recorder = FlightRecorder::new(config()).unwrap();
    let mut file = Vec::new();
    recorder.arm(0, ExistingIncident::Absent).unwrap();
    append(&mut file, recorder.observe(event(0), 400, 100 * MS, none()).unwrap());
    append(&mut file, recorder.trigger(200 * MS, at(0.2), TriggerInfo::manual(), none()).unwrap());
    assert!(append(&mut file, recorder.interrupt(400 * MS, none()).unwrap()));
    let final_record = file.last().unwrap();
    assert_eq!(label(final_record, "termination"), "interrupted");
    assert_eq!(label(final_record, "actual_post_trigger_seconds"), "0.200000");
}

#[test]
fn writer_failure_never_presents_a_final_incident() {
    let mut recorder = FlightRecorder::new(config()).unwrap();
    recorder.arm(0, ExistingIncident::Absent).unwrap();
    let write = recorder.trigger(100 * MS, at(0.1), TriggerInfo::manual(), none()).unwrap();
    assert!(write.create);
    recorder.writer_failed(&write);
    assert_eq!(recorder.state(), FlightState::Failed);
    assert!(matches!(recorder.observe(event(1), 400, 200 * MS, none()), Err(FlightError::IllegalTransition { .. })));
    assert!(matches!(recorder.interrupt(300 * MS, none()), Err(FlightError::IllegalTransition { .. })));
}

#[test]
fn metadata_version_is_explicit_and_refused_when_unknown() {
    let mut labels = Labels::new();
    labels.insert("format_version".to_owned(), "1".to_owned());
    labels.insert("record".to_owned(), "start".to_owned());
    labels.insert("source".to_owned(), "tcp".to_owned());
    let mut event = NormalizedEvent {
        v: 1,
        timestamp: at(1.0),
        category: METADATA_CATEGORY.to_owned(),
        origin: None,
        target: None,
        magnitude: Quantity::whole(0),
        direction: Direction::Neutral,
        labels,
    };
    assert_eq!(parse_metadata_event(&event).unwrap().unwrap().format_version, 1);
    event.labels.insert("format_version".to_owned(), "9".to_owned());
    assert!(matches!(parse_metadata_event(&event), Err(FlightError::UnsupportedMetadataVersion(9))));
}

#[test]
fn deterministic_inputs_produce_deterministic_incident_bytes() {
    let run = || {
        let mut recorder = FlightRecorder::new(config()).unwrap();
        let mut file = Vec::new();
        recorder.arm(0, ExistingIncident::Absent).unwrap();
        append(&mut file, recorder.observe(event(0), 400, 100 * MS, none()).unwrap());
        append(&mut file, recorder.trigger(200 * MS, at(0.2), TriggerInfo::manual(), none()).unwrap());
        append(&mut file, recorder.tick(1_200 * MS, none()));
        file
    };
    let left = run();
    let right = run();
    assert_eq!(left.len(), right.len());
    assert!(left.iter().zip(right.iter()).all(|(a, b)| same(a, b)));
}

#[test]
fn zero_tail_closes_the_incident_at_the_trigger() {
    let mut immediate = config();
    immediate.post_trigger = 0;
    let mut recorder = FlightRecorder::new(immediate).unwrap();
    recorder.arm(0, ExistingIncident::Absent).unwrap();
    let write = recorder.trigger(100 * MS, None, TriggerInfo::manual(), none()).unwrap();
    assert!(write.create && write.publish);
    assert_eq!(write.records.len(), 3);
    assert_eq!(label(&write.records[2], "termination"), "normal");
    assert_eq!(recorder.state(), FlightState::Complete);
}

#[test]
fn configuration_bounds_are_enforced() {
    let mut long = config();
    long.pre_trigger = 31_000 * MS;
    assert!(matches!(
        FlightRecorder::new(long),
        Err(FlightError::InvalidConfig(m)) if m == "pre-trigger duration exceeds 30 seconds"
    ));
    let mut empty = config();
    empty.max_events = 0;
    assert!(matches!(FlightRecorder::new(empty), Err(FlightError::InvalidConfig(_))));
    assert_eq!(seconds(1_234_567_890), "1.234568");
    assert_eq!(seconds(500), "0.000001");
    assert_eq!(Termination::CollectorError.as_str(), "collector-error");
}

#[test]
fn failure_completion_requires_an_error_termination() {
    let mut recorder = FlightRecorder::new(config()).unwrap();
    recorder.arm(0, ExistingIncident::Absent).unwrap();
    assert!(matches!(
        recorder.fail_after_trigger(0, none(), Termination::Normal),
        Err(FlightError::InvalidConfig(_))
    ));
    let write = recorder.fail_after_trigger(0, none(), Termination::CollectorError).unwrap();
    assert!(write.records.is_empty());
    assert_eq!(recorder.state(), FlightState::Cancelled);
}

#[test]
fn trigger_descriptions_are_bounded() {
    let mut recorder = FlightRecorder::new(config()).unwrap();
    recorder.arm(0, ExistingIncident::Absent).unwrap();
    let empty = TriggerInfo { kind: String::new(), reason: "why".to_owned(), threshold: None };
    assert!(matches!(
        recorder.trigger(0, None, empty, none()),
        Err(FlightError::InvalidTrigger(m)) if m == "trigger kind must contain 1 to 96 bytes"
    ));
    let infinite = Some(Quantity::Double { bits: f64::INFINITY.to_bits() });
    assert!(matches!(
        recorder.trigger(0, infinite, TriggerInfo::manual(), none()),
        Err(FlightError::InvalidTrigger(m)) if m == "recorded trigger timestamp must be finite"
    ));
    assert_eq!(recorder.state(), FlightState::Armed);
}

#[test]
fn recorded_incident_replays_with_source_on_trigger_marker() {
    let mut recorder = FlightRecorder::new(config()).unwrap();
    let mut file = Vec::new();
    recorder.arm(0, ExistingIncident::Absent).unwrap();
    append(&mut file, recorder.trigger(100 * MS, at(0.1), TriggerInfo::manual(), none()).unwrap());
    append(&mut file, recorder.tick(1_100 * MS, none()));
    let mut replay = IncidentReplay::new();
    let mut shown = Vec::new();
    for record in file {
        shown.push(replay.next(record).unwrap());
    }
    assert!(shown[0].metadata);
    assert_eq!(replay.flight_source, Some(FlightSource::Tcp));
    let marker = shown.iter().find(|r| r.event.category == TRIGGER_CATEGORY).unwrap();
    assert!(!marker.metadata);
    assert_eq!(label(&marker.event, "source"), "tcp");
    assert_eq!(label(&marker.event, "trigger_kind"), "manual");
    assert_eq!(label(&marker.event, PHASE_LABEL), "trigger");
    assert_eq!(shown.iter().filter(|r| r.event.category == TRIGGER_CATEGORY).count(), 1);
}

#[test]
fn replay_refuses_unsupported_flight_metadata() {
    let mut labels = Labels::new();
    labels.insert("format_version".to_owned(), "99".to_owned());
    labels.insert("record".to_owned(), "start".to_owned());
    labels.insert("source".to_owned(), "tcp".to_owned());
    let event = NormalizedEvent {
        v: 1,
        timestamp: None,
        category: METADATA_CATEGORY.to_owned(),
        origin: None,
        target: None,
        magnitude: Quantity::whole(0),
        direction: Direction::Neutral,
        labels,
    };
    let mut replay = IncidentReplay::new();
    assert!(matches!(replay.next(event), Err(FlightError::UnsupportedMetadataVersion(99))));
    assert_eq!(replay.flight_source, None);
}

#[test]
fn incident_metadata_reads_back_as_its_header() {
    let mut recorder = FlightRecorder::new(config()).unwrap();
    let mut file = Vec::new();
    recorder.arm(0, ExistingIncident::Absent).unwrap();
    append(&mut file, recorder.trigger(100 * MS, at(0.1), TriggerInfo::manual(), none()).unwrap());
    append(&mut file, recorder.interrupt(200 * MS, none()).unwrap());
    let start = parse_metadata_event(&file[0]).unwrap().unwrap();
    assert_eq!(start.record, "start");
    assert_eq!(start.source, FlightSource::Tcp);
    let end = parse_metadata_event(file.last().unwrap()).unwrap().unwrap();
    assert_eq!(end.record, "end");
    assert_eq!(end.format_version, 1);
    assert!(parse_metadata_event(&file[1]).unwrap().is_none());
}

#[test]
fn a_recorder_fires_at_most_once() {
    let mut recorder = FlightRecorder::new(config()).unwrap();
    recorder.arm(0, ExistingIncident::Absent).unwrap();
    recorder.trigger(100 * MS, at(0.1), TriggerInfo::manual(), none()).unwrap();
    assert_eq!(recorder.state(), FlightState::CapturingTail);
    assert!(matches!(
        recorder.trigger(200 * MS, at(0.2), TriggerInfo::manual(), none()),
        Err(FlightError::IllegalTransition { state: FlightState::CapturingTail, .. })
    ));
    assert!(recorder.tick(1_200 * MS, none()).publish);
    assert_eq!(recorder.state(), FlightState::Complete);
    assert!(matches!(
        recorder.trigger(1_300 * MS, at(1.3), TriggerInfo::manual(), none()),
        Err(FlightError::IllegalTransition { state: FlightState::Complete, .. })
    ));
    assert!(matches!(
        recorder.arm(1_400 * MS, ExistingIncident::Absent),
        Err(FlightError::IllegalTransition { state: FlightState::Complete, .. })
    ));
}

#[test]
fn a_tripping_event_is_held_before_the_incident_opens() {
    let mut recorder = FlightRecorder::new(config()).unwrap();
    let mut file = Vec::new();
    recorder.arm(0, ExistingIncident::Absent).unwrap();
    assert!(!append(&mut file, recorder.observe_then_trigger(event(1), 400, 200 * MS, none(), None).unwrap()));
    assert_eq!(recorder.state(), FlightState::Armed);
    let opened = recorder.observe_then_trigger(event(2), 400, 400 * MS, none(), Some(TriggerInfo::manual())).unwrap();
    assert!(opened.create);
    assert!(!append(&mut file, opened));
    assert_eq!(recorder.state(), FlightState::CapturingTail);
    assert_eq!(file[0].category, METADATA_CATEGORY);
    assert_eq!(label(&file[1], PHASE_LABEL), "pre");
    assert_eq!(label(&file[2], PHASE_LABEL), "pre");
    assert_eq!(file[2].category, event(2).category);
    assert_eq!(file[2].timestamp, event(2).timestamp);
    assert_eq!(file[3].category, TRIGGER_CATEGORY);
    assert_eq!(label(&file[0], "trigger_at"), "0.400000");
    assert_eq!(label(&file[0], "pre_event_count"), "2");
    let late = recorder.observe_then_trigger(event(3), 400, 600 * MS, none(), Some(TriggerInfo::manual())).unwrap();
    assert!(!late.create);
    assert_eq!(label(&late.records[0], PHASE_LABEL), "post");
    assert!(append(&mut file, recorder.tick_or_trigger(1_500 * MS, None, Some(TriggerInfo::manual()), none()).unwrap()));
    assert_eq!(recorder.state(), FlightState::Complete);
}

#[test]
fn an_armed_tick_fires_only_a_tripped_trigger() {
    let mut recorder = FlightRecorder::new(config()).unwrap();
    recorder.arm(0, ExistingIncident::Absent).unwrap();
    let quiet = recorder.tick_or_trigger(100 * MS, at(0.1), None, none()).unwrap();
    assert!(!quiet.create && !quiet.publish && quiet.records.is_empty());
    assert_eq!(recorder.state(), FlightState::Armed);
    let opened = recorder.tick_or_trigger(300 * MS, at(0.3), Some(TriggerInfo::manual()), none()).unwrap();
    assert!(opened.create);
    assert_eq!(recorder.state(), FlightState::CapturingTail);
    let status = recorder.status(300 * MS);
    assert_eq!(status.output, std::path::PathBuf::from("/tmp/synesthesia-flight-test.ndjson"));
}

#[test]
fn new_config_keeps_its_output_path() {
    let output = std::path::PathBuf::from("/var/tmp/incident.ndjson");
    let host = HostMetadata { kernel: "k".to_owned(), architecture: "a".to_owned() };
    let config = FlightConfig::new(output.clone(), FlightSource::Tcp, host);
    assert_eq!(config.output, output);
    let recorder = FlightRecorder::new(config).unwrap();
    assert_eq!(recorder.status(0).output, output);
}
