use synesthesia::event::{Direction, EventError, Labels, NormalizedEvent, Quantity};
use synesthesia::source::lines::LineSource;
use synesthesia::source::ndjson::NdjsonSource;
use synesthesia::source::tshark::{IpAddress, RowReadings, TsharkTsvSource};
use synesthesia::source::{absorb_chunk, record_truncated, MAX_RECORD_BYTES};

fn event(v: u8, category: &str, magnitude: f64) -> NormalizedEvent {
    NormalizedEvent {
        v,
        timestamp: None,
        category: category.to_owned(),
        origin: None,
        target: None,
        magnitude: Quantity::Double { bits: magnitude.to_bits() },
        direction: Direction::Unknown,
        labels: Labels::new(),
    }
}

fn value(q: Quantity) -> f64 {
    match q {
        Quantity::Ratio { numerator, denominator } => numerator as f64 / denominator as f64,
        Quantity::Double { bits } => f64::from_bits(bits),
    }
}

fn lines(input: &[u8]) -> Vec<Vec<u8>> {
    input.split_inclusive(|b| *b == b'\n').map(|l| l.to_vec()).collect()
}

/// The addresses the rows below use, as the platform parser reads them.
fn ip_address(text: &str) -> Option<IpAddress> {
    match text {
        "fd00::4" => Some(IpAddress::V6(0xfd00_u128 << 112 | 4)),
        "ff02::fb" => Some(IpAddress::V6(0xff02_u128 << 112 | 0xfb)),
        _ => {
            let parts: Vec<&str> = text.split('.').collect();
            if parts.len() != 4 {
                return None;
            }
            let mut value = 0u32;
            for part in parts {
                value = value << 8 | part.parse::<u8>().ok()? as u32;
            }
            Some(IpAddress::V4(value))
        }
    }
}

/// Reads a row as the command line does: split, then parse numbers and
/// addresses with std, then build the event.
fn tshark_row(source: &mut TsharkTsvSource, row: &[u8]) -> Result<NormalizedEvent, &'static str> {
    let outcome = TsharkTsvSource::split_row(row).and_then(|columns| {
        let number = |text: &str| text.parse::<f64>().ok().map(|v| Quantity::Double { bits: v.to_bits() });
        let address = |first: &str, second: &str| {
            let text = if !first.is_empty() { first } else { second };
            ip_address(text)
        };
        let readings = RowReadings {
            timestamp: number(&columns[0]),
            frame_length: number(&columns[6]),
            source_address: address(&columns[1], &columns[2]),
            target_address: address(&columns[3], &columns[4]),
        };
        TsharkTsvSource::parse_row(&columns, &readings)
    });
    source.count(outcome)
}

#[test]
fn line_hashing_is_stable_and_content_sensitive() {
    let mut first = LineSource::new();
    let records = lines(b"alpha\nalpha\nbeta\n");
    let a = first.next_event(&records[0], None).unwrap();
    let a_again = first.next_event(&records[1], None).unwrap();
    let b = first.next_event(&records[2], None).unwrap();
    assert_eq!(a.origin, a_again.origin);
    assert_eq!(a.category, a_again.category);
    assert_ne!(a.origin, b.origin);
}

#[test]
fn binaryish_lines_are_lossy_not_fatal() {
    let mut source = LineSource::new();
    let event = source.next_event(&b"a\xff\0b\n"[..], None).unwrap();
    assert_eq!(value(event.magnitude), 5.0);
    assert_eq!(source.stats().malformed, 0);
    assert_eq!(event.labels.get("preview").unwrap(), "a\u{fffd}b");
}

#[test]
fn line_events_are_hash_derived_and_end_of_input_yields_nothing() {
    let mut source = LineSource::new();
    assert!(source.next_event(b"", None).is_none());
    let event = source.next_event(b"alpha\r\n", None).unwrap();
    let hash = synesthesia::source::stable_hash(b"alpha");
    assert_eq!(event.origin.as_deref(), Some(format!("line:{:04x}", hash & 0xffff).as_str()));
    assert_eq!(event.labels.get("lane").unwrap(), &((hash >> 16) % 32).to_string());
    assert_eq!(event.category, ["whisper", "pulse", "spark", "drift"][(hash % 4) as usize]);
    assert_eq!(value(event.magnitude), 7.0);
    assert_eq!(source.stats().accepted, 1);
}

#[test]
fn malformed_and_invalid_records_are_counted_and_stream_continues() {
    let mut source = NdjsonSource::new();
    assert!(!NdjsonSource::is_blank(b"not json\n"));
    source.undecodable();
    assert!(matches!(source.accept(event(9, "future", 1.0)), Err(EventError::UnsupportedVersion(9))));
    let accepted = source.accept(event(1, "alive", 3.0)).unwrap();
    assert_eq!(accepted.category, "alive");
    assert_eq!(source.stats().accepted, 1);
    assert_eq!(source.stats().malformed, 2);
    assert!(NdjsonSource::is_blank(b" \t\r\n"));
}

#[test]
fn exact_fixture_maps_ipv4_ipv6_protocol_ports_and_direction() {
    let fixture = "1720000000.1\t10.0.0.4\t\t93.184.216.34\t\tTCP\t60\t54321\t\t443\t\n\
                   1720000000.2\t8.8.8.8\t\t10.0.0.4\t\tDNS\t90\t\t53\t\t53000\n\
                   1720000000.3\t\tfd00::4\t\tff02::fb\tMDNS\t120\t5353\t\t5353\t\n\
                   1720000000.4\t\t\t\t\tARP\t42\t\t\t\t\n\
                   1720000000.5\t10.0.0.4\t\t10.0.0.9\t\tTCP\t9000\t1\t\t2\t\n";
    let mut source = TsharkTsvSource::new();
    let events: Vec<_> = lines(fixture.as_bytes()).iter().map(|row| tshark_row(&mut source, row).unwrap()).collect();
    assert_eq!(events.len(), 5);
    assert_eq!(events[0].origin.as_deref(), Some("10.0.0.4:54321"));
    assert_eq!(events[0].target.as_deref(), Some("93.184.216.34:443"));
    assert_eq!(events[0].direction, Direction::Outbound);
    assert_eq!(events[1].category, "dns");
    assert_eq!(events[1].origin.as_deref(), Some("8.8.8.8:53"));
    assert_eq!(events[1].direction, Direction::Inbound);
    assert_eq!(events[2].origin.as_deref(), Some("[fd00::4]:5353"));
    assert_eq!(events[2].labels.get("ip_version").unwrap(), "6");
    assert_eq!(events[3].origin, None);
    assert_eq!(value(events[4].magnitude), 9_000.0);
    assert_eq!(source.stats().malformed, 0);
}

#[test]
fn malformed_rows_are_counted_and_following_rows_survive() {
    let input = "too\tfew\n\
                 not-a-time\t10.0.0.1\t\t10.0.0.2\t\tTCP\t60\t1\t\t2\t\n\
                 1720000000.0\t10.0.0.1\t\t10.0.0.2\t\tTCP\t60\t1\t\t2\t\n";
    let mut source = TsharkTsvSource::new();
    let outcomes: Vec<_> = lines(input.as_bytes()).iter().map(|row| tshark_row(&mut source, row)).collect();
    assert_eq!(outcomes[0].as_ref().err(), Some(&"expected exactly 11 tab-separated fields"));
    assert_eq!(outcomes[1].as_ref().err(), Some(&"invalid timestamp"));
    let event = outcomes[2].as_ref().unwrap();
    assert_eq!(value(event.magnitude), 60.0);
    assert_eq!(source.stats().malformed, 2);
}

#[test]
fn tshark_refuses_non_utf8_and_negative_frames() {
    assert_eq!(TsharkTsvSource::split_row(b"\xff\n").err(), Some("row is not UTF-8"));
    let mut source = TsharkTsvSource::new();
    let row = b"\t10.0.0.1\t\t10.0.0.2\t\t\t-4\t\t\t\t\n";
    assert_eq!(tshark_row(&mut source, row).err(), Some("invalid frame length"));
    let row = b"\t\t\t\t\t\t\t\t\t\t\n";
    let event = tshark_row(&mut source, row).unwrap();
    assert_eq!(event.category, "unknown");
    assert_eq!(event.timestamp, None);
    assert_eq!(value(event.magnitude), 1.0);
    assert_eq!(event.direction, Direction::Unknown);
    let row = b"1\t127.0.0.1\t\t127.0.0.1\t\tUDP\t1\t\t\t\t\n";
    assert_eq!(tshark_row(&mut source, row).unwrap().direction, Direction::Neutral);
}

#[test]
fn bounded_records_keep_at_most_the_limit_and_count_everything() {
    let mut buffer = Vec::new();
    let mut total = 0usize;
    let chunk = vec![b'x'; MAX_RECORD_BYTES + 10];
    let step = absorb_chunk(&mut buffer, &mut total, &chunk);
    assert!(!step.complete);
    assert_eq!(step.consumed, MAX_RECORD_BYTES + 10);
    assert_eq!(buffer.len(), MAX_RECORD_BYTES);
    let step = absorb_chunk(&mut buffer, &mut total, b"yz\nnext");
    assert!(step.complete);
    assert_eq!(step.consumed, 3);
    assert_eq!(buffer.len(), MAX_RECORD_BYTES);
    assert_eq!(total, MAX_RECORD_BYTES + 13);
    assert!(record_truncated(total));
    assert!(!record_truncated(MAX_RECORD_BYTES));
}
