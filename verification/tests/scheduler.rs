use synesthesia::event::{Direction, NormalizedEvent};
use synesthesia::source::ebpf_prerequisites::SCHEDULER_COLLECTOR;
use synesthesia::source::scheduler::{
    classify_attach_error, KernelSchedulerEvent, SchedulerDecodeError, SchedulerEventKind, SchedulerLossStats,
    SchedulerNormalizer, SchedulerSourceError, KERNEL_EVENT_BYTES, LANE_LABEL, MAX_CPUS,
};
use synesthesia::source::scheduler::cpu_lane_hash;
use synesthesia::source::stable_hash;

fn encoded(event: KernelSchedulerEvent) -> [u8; KERNEL_EVENT_BYTES] {
    let mut bytes = [0; KERNEL_EVENT_BYTES];
    bytes[0..8].copy_from_slice(&event.timestamp_ns.to_ne_bytes());
    bytes[8..12].copy_from_slice(&event.kind.code().to_ne_bytes());
    bytes[12..16].copy_from_slice(&event.cpu.to_ne_bytes());
    bytes[16..20].copy_from_slice(&event.source_cpu.to_ne_bytes());
    bytes[20..24].copy_from_slice(&event.target_cpu.to_ne_bytes());
    bytes[24..28].copy_from_slice(&event.pid.to_ne_bytes());
    bytes[28..32].copy_from_slice(&event.previous_pid.to_ne_bytes());
    bytes[32..36].copy_from_slice(&event.next_pid.to_ne_bytes());
    bytes[40..48].copy_from_slice(&event.previous_state.to_ne_bytes());
    bytes
}

fn switch(cpu: u32, previous_pid: u32, next_pid: u32) -> KernelSchedulerEvent {
    KernelSchedulerEvent {
        timestamp_ns: 1_000_000,
        kind: SchedulerEventKind::Switch,
        cpu,
        source_cpu: cpu,
        target_cpu: cpu,
        pid: next_pid,
        previous_pid,
        next_pid,
        previous_state: 1,
    }
}

fn label<'a>(event: &'a NormalizedEvent, key: &str) -> &'a str {
    event.labels.get(key).unwrap().as_str()
}

#[test]
fn decodes_exact_kernel_event_structure() {
    let expected = KernelSchedulerEvent {
        timestamp_ns: 9_876_543_210,
        kind: SchedulerEventKind::Migrate,
        cpu: 2,
        source_cpu: 2,
        target_cpu: 7,
        pid: 4242,
        previous_pid: 0,
        next_pid: 0,
        previous_state: -1,
    };
    assert_eq!(KernelSchedulerEvent::decode(&encoded(expected)), Ok(expected));
}

#[test]
fn refuses_malformed_oversized_and_unknown_events() {
    assert!(matches!(
        KernelSchedulerEvent::decode(&[0; KERNEL_EVENT_BYTES - 1]),
        Err(SchedulerDecodeError::WrongSize { .. })
    ));
    assert!(matches!(
        KernelSchedulerEvent::decode(&[0; KERNEL_EVENT_BYTES + 1]),
        Err(SchedulerDecodeError::WrongSize { .. })
    ));
    let mut unknown = encoded(switch(1, 2, 3));
    unknown[8..12].copy_from_slice(&99_u32.to_ne_bytes());
    assert_eq!(KernelSchedulerEvent::decode(&unknown), Err(SchedulerDecodeError::UnsupportedKind(99)));
}

#[test]
fn switch_and_wakeup_map_to_distinct_categories() {
    let mut normalizer = SchedulerNormalizer::new();
    let switched = normalizer.normalize(switch(3, 10, 11));
    let wakeup = normalizer.normalize(KernelSchedulerEvent {
        timestamp_ns: 2_000_000,
        kind: SchedulerEventKind::Wakeup,
        cpu: 1,
        source_cpu: 1,
        target_cpu: 3,
        pid: 12,
        previous_pid: 10,
        next_pid: 0,
        previous_state: 0,
    });
    assert_eq!(switched[0].category, "sched.switch");
    assert_eq!(switched[0].direction, Direction::Neutral);
    assert_eq!(wakeup[0].category, "sched.wakeup");
    assert_eq!(wakeup[0].direction, Direction::Inbound);
    assert_eq!(label(&wakeup[0], "target_cpu"), "3");
}

#[test]
fn migration_emits_departure_and_arrival_lanes() {
    let events = SchedulerNormalizer::new().normalize(KernelSchedulerEvent {
        timestamp_ns: 3_000_000,
        kind: SchedulerEventKind::Migrate,
        cpu: 1,
        source_cpu: 1,
        target_cpu: 6,
        pid: 77,
        previous_pid: 0,
        next_pid: 0,
        previous_state: 0,
    });
    assert_eq!(events.len(), 2);
    assert_eq!(label(&events[0], "migration_phase"), "depart");
    assert_eq!(label(&events[0], LANE_LABEL), "cpu:1");
    assert_eq!(label(&events[1], "migration_phase"), "arrive");
    assert_eq!(label(&events[1], LANE_LABEL), "cpu:6");
    assert_ne!(events[0].direction, events[1].direction);
}

#[test]
fn normalizer_state_is_cpu_bounded_not_task_bounded() {
    let mut normalizer = SchedulerNormalizer::new();
    for pid in 1..20_000 {
        let events = normalizer.normalize(switch(pid % 8, pid, pid + 1));
        assert!(events[0].origin.as_ref().unwrap().len() < 32);
        assert!(events[0].target.as_ref().unwrap().len() < 32);
    }
    assert_eq!(normalizer.tracked_cpu_slots(), MAX_CPUS);
}

#[test]
fn load_errors_are_classified_without_privilege() {
    assert!(matches!(
        SchedulerSourceError::classify_load_message("Operation not permitted (os error 1)"),
        SchedulerSourceError::InsufficientPermissions(_)
    ));
    assert!(matches!(
        SchedulerSourceError::classify_load_message("verifier rejected instruction 12"),
        SchedulerSourceError::VerifierRejected(_)
    ));
    assert!(matches!(
        SchedulerSourceError::classify_load_message("ring buffer map missing"),
        SchedulerSourceError::RingBufferSetup(_)
    ));
}

#[test]
fn kernel_and_userspace_loss_counters_remain_separate() {
    let stats = SchedulerLossStats { kernel_ring_drops: 11, userspace_channel_drops: 7, malformed_records: 3 };
    assert_eq!(stats.kernel_ring_drops, 11);
    assert_eq!(stats.userspace_channel_drops, 7);
    assert_eq!(stats.malformed_records, 3);
}

#[test]
fn missing_tracepoint_is_classified_separately() {
    assert_eq!(
        classify_attach_error("sched_switch", "No such file or directory"),
        SchedulerSourceError::TracepointUnavailable("sched_switch".to_owned())
    );
}

#[test]
fn permission_attach_failure_is_actionable() {
    assert!(matches!(
        classify_attach_error("sched_switch", "Operation not permitted"),
        SchedulerSourceError::InsufficientPermissions(_)
    ));
}

#[test]
fn helper_name_is_fixed_not_user_selected() {
    let fake = std::path::PathBuf::from("/tmp/bin/synesthesia");
    assert_eq!(
        fake.parent().unwrap().join(SCHEDULER_COLLECTOR).file_name().unwrap(),
        "synesthesia-scheduler-collector"
    );
}

#[test]
fn switch_lane_label_hashes_to_the_cpu_lane_whatever_the_tasks() {
    let mut normalizer = SchedulerNormalizer::new();
    let first = normalizer.normalize(switch(4, 100, 101)).remove(0);
    let second = normalizer.normalize(switch(4, 8_000, 9_000)).remove(0);
    let other = normalizer.normalize(switch(5, 100, 101)).remove(0);
    let lane = |event: &NormalizedEvent| stable_hash(label(event, LANE_LABEL).as_bytes());
    assert_eq!(lane(&first), cpu_lane_hash(4));
    assert_eq!(lane(&second), cpu_lane_hash(4));
    assert_eq!(lane(&other), cpu_lane_hash(5));
    assert_ne!(cpu_lane_hash(4), cpu_lane_hash(5));
    assert_eq!(cpu_lane_hash(4), stable_hash(b"cpu:4"));
}

#[test]
fn normalized_names_stay_short_at_the_widest_ids() {
    let mut normalizer = SchedulerNormalizer::new();
    let events = normalizer.normalize(switch(MAX_CPUS as u32 - 1, u32::MAX, u32::MAX - 1));
    assert_eq!(events[0].origin.as_deref(), Some("task:4294967295"));
    assert!(events[0].origin.as_ref().unwrap().len() < 32);
    let migration = SchedulerNormalizer::new().normalize(KernelSchedulerEvent {
        timestamp_ns: 1,
        kind: SchedulerEventKind::Migrate,
        cpu: 0,
        source_cpu: u32::MAX - 1,
        target_cpu: 0,
        pid: 1,
        previous_pid: 0,
        next_pid: 0,
        previous_state: 0,
    });
    assert_eq!(migration[0].origin.as_deref(), Some("cpu:4294967294"));
    assert!(migration.iter().all(|e| e.origin.as_ref().unwrap().len() < 32 && e.target.as_ref().unwrap().len() < 32));
}

#[test]
fn sanitized_kernel_fixture_covers_all_event_kinds() {
    let fixture = "# timestamp_ns\tkind\tcpu\tsource_cpu\ttarget_cpu\tpid\tprevious_pid\tnext_pid\tprevious_state\n\
                   1000000\t1\t0\t0\t0\t101\t100\t101\t1\n\
                   1000500\t2\t1\t1\t2\t202\t0\t0\t0\n\
                   1001000\t3\t2\t2\t4294967295\t303\t0\t0\t0\n\
                   1001500\t4\t3\t3\t7\t4242\t0\t0\t-1\n";
    let mut seen = Vec::new();
    for line in fixture.lines() {
        if line.starts_with('#') || line.is_empty() {
            continue;
        }
        let fields: Vec<_> = line.split('\t').collect();
        assert_eq!(fields.len(), 9);
        let raw_kind = fields[1].parse::<u32>().unwrap();
        let event = KernelSchedulerEvent {
            timestamp_ns: fields[0].parse().unwrap(),
            kind: SchedulerEventKind::from_code(raw_kind).unwrap(),
            cpu: fields[2].parse().unwrap(),
            source_cpu: fields[3].parse().unwrap(),
            target_cpu: fields[4].parse().unwrap(),
            pid: fields[5].parse().unwrap(),
            previous_pid: fields[6].parse().unwrap(),
            next_pid: fields[7].parse().unwrap(),
            previous_state: fields[8].parse().unwrap(),
        };
        seen.push(KernelSchedulerEvent::decode(&encoded(event)).unwrap().kind);
    }
    assert_eq!(
        seen,
        [SchedulerEventKind::Switch, SchedulerEventKind::Wakeup, SchedulerEventKind::WakeupNew, SchedulerEventKind::Migrate]
    );
}
