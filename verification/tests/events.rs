use serde_json::Value;
use synesthesia::event::{Direction, EventError, Labels, NormalizedEvent, Quantity};
use synesthesia::source::ndjson::NdjsonSource;

fn double(value: f64) -> Quantity {
    Quantity::Double { bits: value.to_bits() }
}

fn text(value: &Value, key: &str) -> Option<String> {
    value.get(key).and_then(Value::as_str).map(str::to_owned)
}

/// Decodes one JSON record of the wire schema into an event, by hand.
fn decode(record: &str) -> Option<NormalizedEvent> {
    let value: Value = serde_json::from_str(record).ok()?;
    let direction = match value.get("direction").and_then(Value::as_str) {
        Some("inbound") => Direction::Inbound,
        Some("outbound") => Direction::Outbound,
        Some("neutral") => Direction::Neutral,
        Some("unknown") | None => Direction::Unknown,
        Some(_) => return None,
    };
    let mut labels = Labels::new();
    if let Some(map) = value.get("labels").and_then(Value::as_object) {
        for (key, label) in map {
            labels.insert(key.clone(), label.as_str()?.to_owned());
        }
    }
    Some(NormalizedEvent {
        v: u8::try_from(value.get("v")?.as_u64()?).ok()?,
        timestamp: value.get("timestamp").and_then(Value::as_f64).map(double),
        category: text(&value, "category")?,
        origin: text(&value, "origin"),
        target: text(&value, "target"),
        magnitude: double(value.get("magnitude")?.as_f64()?),
        direction,
        labels,
    })
}

#[test]
fn parses_documented_v1_shape() {
    let input = r#"{"v":1,"timestamp":1720000000.125,"category":"tcp","origin":"10.0.0.4:54321","target":"10.0.0.8:443","magnitude":1514,"direction":"outbound","labels":{"protocol":"TLS"}}"#;
    let event = decode(input).unwrap().validate().unwrap();
    assert_eq!(event.category, "tcp");
    assert_eq!(event.direction, Direction::Outbound);
    assert_eq!(event.labels.get("protocol").unwrap(), "TLS");
}

#[test]
fn optional_fields_degrade_gracefully() {
    let event = decode(r#"{"v":1,"category":"pulse","magnitude":2}"#).unwrap().validate().unwrap();
    assert_eq!(event.direction, Direction::Unknown);
    assert!(event.origin.is_none());
    assert!(event.labels.is_empty());
}

#[test]
fn refuses_unsupported_versions_explicitly() {
    let event = decode(r#"{"v":9,"category":"future","magnitude":1}"#).unwrap();
    assert!(matches!(event.validate(), Err(EventError::UnsupportedVersion(9))));
}

#[test]
fn malformed_records_increment_errors_and_stream_continues() {
    let input = "not json\n{\"v\":9,\"category\":\"future\",\"magnitude\":1}\n{\"v\":1,\"category\":\"alive\",\"magnitude\":3}\n";
    let mut source = NdjsonSource::new();
    let mut accepted = Vec::new();
    for record in input.split_inclusive('\n') {
        if NdjsonSource::is_blank(record.as_bytes()) {
            continue;
        }
        match decode(record) {
            Some(event) => {
                if let Ok(event) = source.accept(event) {
                    accepted.push(event);
                }
            }
            None => source.undecodable(),
        }
    }
    assert_eq!(accepted.len(), 1);
    assert_eq!(accepted[0].category, "alive");
    assert_eq!(source.stats().accepted, 1);
    assert_eq!(source.stats().malformed, 2);
}
