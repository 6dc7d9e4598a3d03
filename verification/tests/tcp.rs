use synesthesia::event::{Direction, NormalizedEvent, Quantity};
use synesthesia::source::ebpf_prerequisites::TCP_COLLECTOR;
use synesthesia::source::tcp::{
    classify_tcp_attach_error, ipv4_endpoint_text, KernelTcpEvent, TcpAddressFamily, TcpDecodeError,
    TcpPathologyKind, TcpSourceError, AF_INET, AF_INET6, TCP_KERNEL_EVENT_BYTES, TCP_KERNEL_EVENT_VERSION,
};

fn encoded(event: KernelTcpEvent) -> [u8; TCP_KERNEL_EVENT_BYTES] {
    let mut bytes = [0; TCP_KERNEL_EVENT_BYTES];
    bytes[0..8].copy_from_slice(&event.timestamp_ns.to_ne_bytes());
    bytes[8..10].copy_from_slice(&TCP_KERNEL_EVENT_VERSION.to_ne_bytes());
    bytes[10] = event.kind.code();
    bytes[11] = match event.family {
        TcpAddressFamily::Ipv4 => AF_INET,
        TcpAddressFamily::Ipv6 => AF_INET6,
    };
    bytes[12..16].copy_from_slice(&event.cpu.to_ne_bytes());
    bytes[16..18].copy_from_slice(&event.source_port.to_ne_bytes());
    bytes[18..20].copy_from_slice(&event.destination_port.to_ne_bytes());
    bytes[20..24].copy_from_slice(&event.socket_state.to_ne_bytes());
    bytes[24..40].copy_from_slice(&event.source_address);
    bytes[40..56].copy_from_slice(&event.destination_address);
    bytes
}

fn ipv4(kind: TcpPathologyKind) -> KernelTcpEvent {
    let mut source = [0; 16];
    source[..4].copy_from_slice(&[192, 0, 2, 10]);
    let mut destination = [0; 16];
    destination[..4].copy_from_slice(&[198, 51, 100, 20]);
    KernelTcpEvent {
        timestamp_ns: 9_000_000,
        kind,
        family: TcpAddressFamily::Ipv4,
        cpu: 3,
        source_port: 42_000,
        destination_port: 443,
        socket_state: 1,
        source_address: source,
        destination_address: destination,
    }
}

fn normalize(event: KernelTcpEvent) -> NormalizedEvent {
    let local = ipv4_endpoint_text(event.source_address, event.source_port);
    let peer = ipv4_endpoint_text(event.destination_address, event.destination_port);
    event.normalize_with_endpoints(local, peer)
}

fn value(q: Quantity) -> f64 {
    match q {
        Quantity::Ratio { numerator, denominator } => numerator as f64 / denominator as f64,
        Quantity::Double { bits } => f64::from_bits(bits),
    }
}

#[test]
fn fixed_kernel_layout_is_exactly_56_bytes() {
    assert_eq!(TCP_KERNEL_EVENT_BYTES, 56);
    let expected = ipv4(TcpPathologyKind::Retransmit);
    assert_eq!(KernelTcpEvent::decode(&encoded(expected)), Ok(expected));
}

#[test]
fn refuses_wrong_size_version_kind_and_family() {
    assert!(matches!(KernelTcpEvent::decode(&[0; 55]), Err(TcpDecodeError::WrongSize { .. })));
    let mut bytes = encoded(ipv4(TcpPathologyKind::Retransmit));
    bytes[8..10].copy_from_slice(&2_u16.to_ne_bytes());
    assert_eq!(KernelTcpEvent::decode(&bytes), Err(TcpDecodeError::UnsupportedVersion(2)));
    bytes = encoded(ipv4(TcpPathologyKind::Retransmit));
    bytes[10] = 99;
    assert_eq!(KernelTcpEvent::decode(&bytes), Err(TcpDecodeError::UnsupportedKind(99)));
    bytes = encoded(ipv4(TcpPathologyKind::Retransmit));
    bytes[11] = 1;
    assert_eq!(KernelTcpEvent::decode(&bytes), Err(TcpDecodeError::UnsupportedFamily(1)));
}

#[test]
fn decodes_ipv4_and_host_order_ports() {
    let event = KernelTcpEvent::decode(&encoded(ipv4(TcpPathologyKind::Retransmit))).unwrap();
    assert_eq!(ipv4_endpoint_text(event.source_address, event.source_port), "192.0.2.10:42000");
    assert_eq!(ipv4_endpoint_text(event.destination_address, event.destination_port), "198.51.100.20:443");
    assert_eq!(event.source_port, 42_000);
    assert_eq!(event.destination_port, 443);
}

#[test]
fn pathology_kinds_normalize_with_truthful_direction_and_impact() {
    let retransmit = normalize(ipv4(TcpPathologyKind::Retransmit));
    let sent = normalize(ipv4(TcpPathologyKind::ResetSent));
    let received = normalize(ipv4(TcpPathologyKind::ResetReceived));
    assert_eq!(retransmit.category, "tcp.retransmit");
    assert_eq!(retransmit.direction, Direction::Outbound);
    assert_eq!(sent.category, "tcp.reset.send");
    assert_eq!(sent.direction, Direction::Outbound);
    assert_eq!(received.category, "tcp.reset.receive");
    assert_eq!(received.direction, Direction::Inbound);
    assert_eq!(received.origin.as_deref(), Some("198.51.100.20:443"));
    assert!(value(received.magnitude) > value(sent.magnitude));
    assert!(value(sent.magnitude) > value(retransmit.magnitude));
}

#[test]
fn repeated_flow_lane_label_is_stable_and_distinct_flows_diverge() {
    let first = normalize(ipv4(TcpPathologyKind::Retransmit));
    let repeated = normalize(ipv4(TcpPathologyKind::ResetSent));
    let mut other = ipv4(TcpPathologyKind::Retransmit);
    other.destination_address[3] = 21;
    let other = normalize(other);
    let flow_hash = |event: &NormalizedEvent| synesthesia::source::stable_hash(event.flow_key().as_bytes());
    assert_ne!(first.category, repeated.category);
    assert_ne!(flow_hash(&first), flow_hash(&repeated));
    let lane = |event: &NormalizedEvent| event.labels.get("synesthesia.lane").cloned();
    assert_eq!(lane(&first), lane(&repeated));
    assert_ne!(lane(&repeated), lane(&other));
}

#[test]
fn source_errors_classify_permission_and_verifier_failures() {
    assert!(matches!(
        TcpSourceError::classify_load_message("Operation not permitted"),
        TcpSourceError::InsufficientPermissions(_)
    ));
    assert!(matches!(
        TcpSourceError::classify_load_message("verifier rejected instruction"),
        TcpSourceError::VerifierRejected(_)
    ));
}

#[test]
fn missing_tcp_tracepoint_is_classified_separately() {
    assert_eq!(
        classify_tcp_attach_error("tcp_retransmit_skb", "No such file or directory"),
        TcpSourceError::TracepointUnavailable("tcp_retransmit_skb".to_owned())
    );
}

#[test]
fn tcp_attach_permission_failure_is_actionable() {
    assert!(matches!(
        classify_tcp_attach_error("tcp_retransmit_skb", "Operation not permitted"),
        TcpSourceError::InsufficientPermissions(_)
    ));
}

#[test]
fn tcp_helper_name_is_fixed_not_user_selected() {
    let fake = std::path::PathBuf::from("/tmp/bin/synesthesia");
    assert_eq!(fake.parent().unwrap().join(TCP_COLLECTOR).file_name().unwrap(), "synesthesia-tcp-collector");
}

#[test]
fn raw_event_version_constant_matches_wire_materialization() {
    assert_eq!(TCP_KERNEL_EVENT_VERSION, 1);
}

fn decode_hex_16(value: &str) -> [u8; 16] {
    assert_eq!(value.len(), 32);
    let mut bytes = [0; 16];
    for (index, byte) in bytes.iter_mut().enumerate() {
        *byte = u8::from_str_radix(&value[index * 2..index * 2 + 2], 16).unwrap();
    }
    bytes
}

#[test]
fn raw_fixture_covers_all_pathology_kinds_and_families() {
    let fixture = "# version\tkind\tfamily\tcpu\tsport\tdport\tsaddr\tdaddr\tstate\tlabel\n\
                   1\t1\t2\t0\t42000\t443\tc000020a000000000000000000000000\tc6336414000000000000000000000000\t1\tretransmit\n\
                   1\t2\t2\t1\t42001\t443\tc000020a000000000000000000000000\tc6336414000000000000000000000000\t1\treset_sent\n\
                   1\t3\t2\t2\t42002\t443\tc000020a000000000000000000000000\tc6336414000000000000000000000000\t1\treset_received\n\
                   1\t1\t10\t3\t42003\t443\t20010db8000000000000000000000010\t20010db8000000000000000000000020\t1\tretransmit_ipv6\n";
    let mut decoded = Vec::new();
    for line in fixture.lines().filter(|line| !line.starts_with('#')) {
        let fields: Vec<_> = line.split('\t').collect();
        assert_eq!(fields.len(), 10);
        let mut bytes = [0; TCP_KERNEL_EVENT_BYTES];
        bytes[0..8].copy_from_slice(&1_000_000_u64.to_ne_bytes());
        bytes[8..10].copy_from_slice(&fields[0].parse::<u16>().unwrap().to_ne_bytes());
        bytes[10] = fields[1].parse().unwrap();
        bytes[11] = fields[2].parse().unwrap();
        bytes[12..16].copy_from_slice(&fields[3].parse::<u32>().unwrap().to_ne_bytes());
        bytes[16..18].copy_from_slice(&fields[4].parse::<u16>().unwrap().to_ne_bytes());
        bytes[18..20].copy_from_slice(&fields[5].parse::<u16>().unwrap().to_ne_bytes());
        bytes[20..24].copy_from_slice(&fields[8].parse::<u32>().unwrap().to_ne_bytes());
        bytes[24..40].copy_from_slice(&decode_hex_16(fields[6]));
        bytes[40..56].copy_from_slice(&decode_hex_16(fields[7]));
        decoded.push((KernelTcpEvent::decode(&bytes).unwrap(), fields[9]));
    }
    assert_eq!(decoded.len(), 4);
    assert_eq!(ipv4_endpoint_text(decoded[0].0.source_address, decoded[0].0.source_port), "192.0.2.10:42000");
    assert_eq!(decoded[3].0.family, TcpAddressFamily::Ipv6);
    assert_eq!(decoded[3].0.source_address, decode_hex_16("20010db8000000000000000000000010"));
    assert_eq!(
        decoded.iter().map(|(event, _)| event.kind).collect::<Vec<_>>(),
        [
            TcpPathologyKind::Retransmit,
            TcpPathologyKind::ResetSent,
            TcpPathologyKind::ResetReceived,
            TcpPathologyKind::Retransmit
        ]
    );
    assert_eq!(
        decoded.iter().map(|(_, label)| *label).collect::<Vec<_>>(),
        ["retransmit", "reset_sent", "reset_received", "retransmit_ipv6"]
    );
}
