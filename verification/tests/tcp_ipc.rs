use synesthesia::source::scheduler_ipc::WIRE_MAGIC;
use synesthesia::source::tcp::{ipv4_endpoint_text, KernelTcpEvent, TcpAddressFamily, TcpPathologyKind};
use synesthesia::source::tcp_ipc::{
    heartbeat, NormalizedTcpPulse, TcpAggregator, TcpPulseKind, TcpWireError, MAX_TCP_BUCKETS_PER_WINDOW,
    TCP_WIRE_BYTES, TCP_WIRE_MAGIC,
};

fn raw(kind: TcpPathologyKind, flow: u16) -> KernelTcpEvent {
    let mut source = [0; 16];
    source[..4].copy_from_slice(&[192, 0, 2, 10]);
    let mut destination = [0; 16];
    destination[..4].copy_from_slice(&[198, 51, 100, (flow % 250) as u8 + 1]);
    KernelTcpEvent {
        timestamp_ns: 1_000_000,
        kind,
        family: TcpAddressFamily::Ipv4,
        cpu: 2,
        source_port: 40_000 + flow,
        destination_port: 443,
        socket_state: 1,
        source_address: source,
        destination_address: destination,
    }
}

#[test]
fn tcp_wire_protocol_is_distinct_fixed_and_round_trips() {
    assert_eq!(TCP_WIRE_BYTES, 96);
    assert_ne!(TCP_WIRE_MAGIC, WIRE_MAGIC);
    let mut aggregator = TcpAggregator::new();
    aggregator.ingest(raw(TcpPathologyKind::Retransmit, 1));
    let pulse = aggregator.flush(2_000_000, 7).remove(0);
    assert_eq!(NormalizedTcpPulse::decode(&pulse.encode()).unwrap(), pulse);
    assert_eq!(pulse.kernel_ring_drops, 7);
    assert_eq!(pulse.ipc_drops, 0);
}

#[test]
fn repeated_retransmits_coalesce_and_scale_magnitude() {
    let mut one = TcpAggregator::new();
    one.ingest(raw(TcpPathologyKind::Retransmit, 1));
    let one = one.flush(2_000_000, 0).remove(0);
    let mut burst = TcpAggregator::new();
    for _ in 0..20 {
        burst.ingest(raw(TcpPathologyKind::Retransmit, 1));
    }
    let burst = burst.flush(2_000_000, 0).remove(0);
    assert_eq!(burst.event_count, 20);
    assert!(f64::from_bits(burst.magnitude_bits) > f64::from_bits(one.magnitude_bits));
    assert!(f64::from_bits(burst.magnitude_bits) <= 65_536.0);
}

#[test]
fn reset_pulses_remain_distinct_from_retransmits() {
    let mut aggregator = TcpAggregator::new();
    aggregator.ingest(raw(TcpPathologyKind::Retransmit, 1));
    aggregator.ingest(raw(TcpPathologyKind::ResetSent, 1));
    aggregator.ingest(raw(TcpPathologyKind::ResetReceived, 1));
    let pulses = aggregator.flush(2_000_000, 0);
    assert_eq!(pulses.len(), 3);
    assert!(pulses.iter().any(|pulse| pulse.kind == TcpPulseKind::ResetSent));
    assert!(pulses.iter().any(|pulse| pulse.kind == TcpPulseKind::ResetReceived));
}

#[test]
fn aggregation_refuses_new_buckets_deterministically_at_bound() {
    let mut aggregator = TcpAggregator::new();
    for flow in 0..(MAX_TCP_BUCKETS_PER_WINDOW as u16 + 50) {
        aggregator.ingest(raw(TcpPathologyKind::Retransmit, flow));
    }
    assert_eq!(aggregator.bucket_count(), MAX_TCP_BUCKETS_PER_WINDOW);
    let pulses = aggregator.flush(2_000_000, 0);
    assert_eq!(pulses.len(), MAX_TCP_BUCKETS_PER_WINDOW);
    assert!(pulses.iter().all(|pulse| pulse.collector_drops == 50));
}

#[test]
fn malformed_or_cross_protocol_wire_records_are_refused() {
    let pulse = heartbeat(0, 0, 0);
    let mut bytes = pulse.encode();
    bytes[0..4].copy_from_slice(&WIRE_MAGIC);
    assert!(matches!(NormalizedTcpPulse::decode(&bytes), Err(TcpWireError::BadMagic)));
    bytes = pulse.encode();
    bytes[4..6].copy_from_slice(&99_u16.to_le_bytes());
    assert!(matches!(NormalizedTcpPulse::decode(&bytes), Err(TcpWireError::UnsupportedVersion(99))));
}

#[test]
fn normalized_pulse_preserves_count_and_loss_boundaries() {
    let mut aggregator = TcpAggregator::new();
    for _ in 0..3 {
        aggregator.ingest(raw(TcpPathologyKind::Retransmit, 1));
    }
    let pulse = aggregator.flush(2_000_000, 11).remove(0);
    let local = ipv4_endpoint_text(pulse.source_address, pulse.source_port);
    let peer = ipv4_endpoint_text(pulse.destination_address, pulse.destination_port);
    let event = pulse.into_normalized_with_endpoints(local, peer).unwrap();
    assert_eq!(event.category, "tcp.retransmit");
    assert_eq!(event.labels.get("synesthesia.event_count").unwrap(), "3");
    assert_eq!(pulse.kernel_ring_drops, 11);
    assert_eq!(pulse.collector_drops, 0);
    assert_eq!(pulse.ipc_drops, 0);
}

#[test]
fn heartbeat_has_no_event() {
    let pulse = heartbeat(5, 1, 2);
    assert_eq!(pulse.kind, TcpPulseKind::Heartbeat);
    assert!(pulse.into_normalized_with_endpoints(String::new(), String::new()).is_none());
}

#[test]
fn every_tcp_record_is_counted_or_refused() {
    let mut aggregator = TcpAggregator::new();
    for flow in 0..2_000u16 {
        aggregator.ingest(raw(TcpPathologyKind::Retransmit, flow));
        aggregator.ingest(raw(TcpPathologyKind::ResetSent, flow));
    }
    let pulses = aggregator.flush(2_000_000, 0);
    let counted: u64 = pulses.iter().map(|pulse| u64::from(pulse.event_count)).sum();
    assert_eq!(counted + pulses[0].collector_drops, 4_000);
}
