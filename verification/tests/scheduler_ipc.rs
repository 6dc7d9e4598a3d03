use synesthesia::source::scheduler::{KernelSchedulerEvent, SchedulerEventKind};
use synesthesia::source::scheduler_ipc::{
    NormalizedSchedulerPulse, PulseKind, SchedulerAggregator, SchedulerWireError, MAX_PULSES_PER_WINDOW,
};

fn kernel(kind: SchedulerEventKind, cpu: u32) -> KernelSchedulerEvent {
    KernelSchedulerEvent {
        timestamp_ns: 1_000_000,
        kind,
        cpu,
        source_cpu: cpu,
        target_cpu: cpu + 1,
        pid: 30,
        previous_pid: 10,
        next_pid: 20,
        previous_state: 0,
    }
}

#[test]
fn binary_protocol_round_trips_without_json() {
    let expected = NormalizedSchedulerPulse {
        timestamp_ns: 123,
        kind: PulseKind::MigrateArrive,
        lane_cpu: 3,
        source_cpu: 2,
        target_cpu: 3,
        origin_pid: 7,
        target_pid: 8,
        event_count: 9,
        magnitude_bits: 42.5f64.to_bits(),
        kernel_ring_drops: 11,
        collector_drops: 12,
    };
    assert_eq!(NormalizedSchedulerPulse::decode(&expected.encode()).unwrap(), expected);
}

#[test]
fn aggregation_occurs_before_normalized_event_materialization() {
    let mut aggregator = SchedulerAggregator::new();
    for _ in 0..10 {
        aggregator.ingest(kernel(SchedulerEventKind::Switch, 2));
    }
    let pulses = aggregator.flush(2_000_000, 0);
    assert_eq!(pulses.len(), 1);
    assert_eq!(pulses[0].event_count, 10);
    let event = pulses[0].into_normalized().unwrap();
    assert_eq!(event.category, "sched.switch");
    assert_eq!(event.labels.get("synesthesia.lane").unwrap(), "cpu:2");
}

#[test]
fn migrations_aggregate_into_both_cpu_lanes() {
    let mut aggregator = SchedulerAggregator::new();
    aggregator.ingest(kernel(SchedulerEventKind::Migrate, 2));
    let pulses = aggregator.flush(2_000_000, 0);
    assert_eq!(pulses.len(), 2);
    assert!(pulses.iter().any(|pulse| pulse.lane_cpu == 2));
    assert!(pulses.iter().any(|pulse| pulse.lane_cpu == 3));
}

#[test]
fn aggregation_cardinality_is_bounded() {
    let mut aggregator = SchedulerAggregator::new();
    for cpu in 0..10_000 {
        aggregator.ingest(kernel(SchedulerEventKind::Switch, cpu));
    }
    assert_eq!(aggregator.bucket_count(), MAX_PULSES_PER_WINDOW);
    assert!(aggregator.flush(2_000_000, 0).iter().all(|pulse| pulse.collector_drops > 0));
}

#[test]
fn malformed_wire_records_are_refused() {
    let pulse = SchedulerAggregator::new().flush(0, 0).remove(0);
    let mut bytes = pulse.encode();
    bytes[0] = b'X';
    assert!(matches!(NormalizedSchedulerPulse::decode(&bytes), Err(SchedulerWireError::BadMagic)));
    bytes = pulse.encode();
    bytes[4..6].copy_from_slice(&99_u16.to_le_bytes());
    assert!(matches!(NormalizedSchedulerPulse::decode(&bytes), Err(SchedulerWireError::UnsupportedVersion(99))));
}

#[test]
fn pulse_kinds_round_trip_through_their_codes() {
    for kind in [PulseKind::Heartbeat, PulseKind::Switch, PulseKind::Wakeup, PulseKind::MigrateDepart, PulseKind::MigrateArrive] {
        assert_eq!(PulseKind::from_code(kind.code()).unwrap(), kind);
    }
    assert!(matches!(PulseKind::from_code(5), Err(SchedulerWireError::UnsupportedKind(5))));
}

#[test]
fn every_aggregated_record_is_counted_or_dropped() {
    let mut aggregator = SchedulerAggregator::new();
    let mut expected = 0u64;
    for cpu in 0..3_000 {
        aggregator.ingest(kernel(SchedulerEventKind::Switch, cpu));
        aggregator.ingest(kernel(SchedulerEventKind::Migrate, cpu));
        expected += 3;
    }
    let pulses = aggregator.flush(2_000_000, 0);
    let counted: u64 = pulses.iter().map(|pulse| u64::from(pulse.event_count)).sum();
    assert_eq!(counted + pulses[0].collector_drops, expected);
}
