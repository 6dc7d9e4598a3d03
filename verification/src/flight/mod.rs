//! The incident flight recorder: its configuration, the metadata records
//! that frame an incident file, and the state machine that decides what is
//! kept before a trigger and written after it.
use vstd::prelude::*;

pub mod recorder;
pub mod replay;

pub use recorder::{FlightRecorder, FlightStatus, TriggerInfo};

use crate::event::{EventView, Labels, NormalizedEvent};
use crate::parse::parse_unsigned;
use crate::text::{
    around_number, chars_of, concat2, concat3, decimal, io_error_text, path_text, starts_with, str_eq, u64_text,
    zero_padded, zero_padded_text,
};

verus! {

/// Version of the incident file format.
pub const FLIGHT_FORMAT_VERSION: u16 = 1;

/// Nanoseconds per second; durations and times are held in nanoseconds.
pub const NANOS: u64 = 1_000_000_000;

/// Default history kept before a trigger (10 s).
pub const DEFAULT_PRE_TRIGGER: u64 = 10_000_000_000;

/// Default tail recorded after a trigger (5 s).
pub const DEFAULT_POST_TRIGGER: u64 = 5_000_000_000;

/// Longest history before a trigger (30 s).
pub const HARD_MAX_PRE_TRIGGER: u64 = 30_000_000_000;

/// Longest tail after a trigger (30 s).
pub const HARD_MAX_POST_TRIGGER: u64 = 30_000_000_000;

/// Most events kept before a trigger.
pub const HARD_MAX_EVENTS: usize = 100_000;

/// Most encoded bytes kept before a trigger.
pub const HARD_MAX_BYTES: usize = 33_554_432;

/// Category of the metadata records that open and close an incident.
pub const METADATA_CATEGORY: &'static str = "synesthesia.flight.metadata";

/// Category of the trigger marker record.
pub const TRIGGER_CATEGORY: &'static str = "synesthesia.flight.trigger";

/// Label naming the phase (pre, trigger, post) of a recorded event.
pub const PHASE_LABEL: &'static str = "synesthesia.flight.phase";

/// Declares `serde_json::Error`, which a serialization failure carries.
#[verifier::external_type_specification]
#[verifier::external_body]
pub struct ExJsonError(serde_json::Error);

/// The source an incident is recorded from.
#[derive(Clone, Copy, Debug, PartialEq, Eq, Structural)]
pub enum FlightSource {
    Scheduler,
    Tcp,
}

/// The name of a flight source.
pub open spec fn source_name(s: FlightSource) -> Seq<char> {
    match s {
        FlightSource::Scheduler => "scheduler"@,
        FlightSource::Tcp => "tcp"@,
    }
}

impl FlightSource {
    /// The name of the source.
    pub fn as_str(self) -> (s: &'static str)
        ensures
            s@ == source_name(self),
    {
        match self {
            FlightSource::Scheduler => "scheduler",
            FlightSource::Tcp => "tcp",
        }
    }
}

/// The states of the recorder.
#[derive(Clone, Copy, Debug, PartialEq, Eq, Structural)]
pub enum FlightState {
    Disarmed,
    Armed,
    CapturingTail,
    Complete,
    Cancelled,
    Failed,
}

/// Losses that an incident reports, by where they happened.
#[derive(Clone, Copy, Debug, PartialEq, Eq, Structural)]
pub struct IncidentLosses {
    pub kernel_ring: u64,
    pub collector: u64,
    pub ipc: u64,
    pub renderer_channel: u64,
    pub malformed: u64,
    pub writer: u64,
}

impl Default for IncidentLosses {
    fn default() -> (l: Self)
        ensures
            l == (IncidentLosses {
                kernel_ring: 0,
                collector: 0,
                ipc: 0,
                renderer_channel: 0,
                malformed: 0,
                writer: 0,
            }),
    {
        IncidentLosses { kernel_ring: 0, collector: 0, ipc: 0, renderer_channel: 0, malformed: 0, writer: 0 }
    }
}

/// The host an incident was recorded on.
#[derive(Clone, Debug)]
pub struct HostMetadata {
    pub kernel: String,
    pub architecture: String,
}

/// How an incident is recorded. Durations are in nanoseconds.
#[derive(Debug)]
pub struct FlightConfig {
    pub output: std::path::PathBuf,
    pub source: FlightSource,
    pub pre_trigger: u64,
    pub post_trigger: u64,
    pub max_events: usize,
    pub max_bytes: usize,
    pub host: HostMetadata,
}

/// How a recording ended.
#[derive(Clone, Copy, Debug, PartialEq, Eq, Structural)]
pub enum Termination {
    Normal,
    Interrupted,
    CollectorError,
    RendererError,
}

/// The name of a termination.
pub open spec fn termination_name(t: Termination) -> Seq<char> {
    match t {
        Termination::Normal => "normal"@,
        Termination::Interrupted => "interrupted"@,
        Termination::CollectorError => "collector-error"@,
        Termination::RendererError => "renderer-error"@,
    }
}

impl Termination {
    /// The name of the termination.
    pub fn as_str(self) -> (s: &'static str)
        ensures
            s@ == termination_name(self),
    {
        match self {
            Termination::Normal => "normal",
            Termination::Interrupted => "interrupted",
            Termination::CollectorError => "collector-error",
            Termination::RendererError => "renderer-error",
        }
    }
}

/// Why the recorder refused or failed.
#[derive(Debug)]
pub enum FlightError {
    InvalidConfig(String),
    InvalidTrigger(String),
    IllegalTransition { state: FlightState, operation: &'static str },
    OutputExists(std::path::PathBuf),
    PartialExists(std::path::PathBuf),
    UnsupportedMetadataVersion(u16),
    MalformedMetadata(String),
    Io { action: &'static str, path: std::path::PathBuf, source: std::io::Error },
    Serialize { path: std::path::PathBuf, source: serde_json::Error },
}

/// The name of a recorder state, as its `Debug` form writes it.
pub open spec fn state_name(s: FlightState) -> Seq<char> {
    match s {
        FlightState::Disarmed => "Disarmed"@,
        FlightState::Armed => "Armed"@,
        FlightState::CapturingTail => "CapturingTail"@,
        FlightState::Complete => "Complete"@,
        FlightState::Cancelled => "Cancelled"@,
        FlightState::Failed => "Failed"@,
    }
}

fn state_text(s: FlightState) -> (t: &'static str)
    ensures
        t@ == state_name(s),
{
    match s {
        FlightState::Disarmed => "Disarmed",
        FlightState::Armed => "Armed",
        FlightState::CapturingTail => "CapturingTail",
        FlightState::Complete => "Complete",
        FlightState::Cancelled => "Cancelled",
        FlightState::Failed => "Failed",
    }
}

/// A serialization error's description, as `format!` writes it. Nothing
/// is stated of the text.
#[verifier::external_body]
fn json_error_text(error: &serde_json::Error) -> String {
    format!("{error}")
}

/// The message of a recorder error; for errors that carry a path or a
/// system description, its beginning (the rest is the path as the
/// platform displays it, and the description).
pub open spec fn flight_error_text(e: FlightError) -> Seq<char> {
    match e {
        FlightError::InvalidConfig(m) => "invalid flight-recorder configuration: "@ + m@,
        FlightError::InvalidTrigger(m) => "invalid flight-recorder trigger: "@ + m@,
        FlightError::IllegalTransition { state, operation } => "cannot "@ + operation@
            + " flight recorder while it is "@ + state_name(state),
        FlightError::OutputExists(_) => "refusing to overwrite existing incident "@,
        FlightError::PartialExists(_) => "refusing to overwrite existing partial incident "@,
        FlightError::UnsupportedMetadataVersion(v) => "unsupported flight metadata version "@ + decimal(v as nat)
            + "; supported version is 1"@,
        FlightError::MalformedMetadata(m) => "malformed flight metadata: "@ + m@,
        FlightError::Io { action, .. } => "could not "@ + action@ + " "@,
        FlightError::Serialize { .. } => "could not serialize incident record to "@,
    }
}

/// Errors whose message ends in text the platform supplies.
pub open spec fn carries_system_text(e: FlightError) -> bool {
    e is OutputExists || e is PartialExists || e is Io || e is Serialize
}

proof fn lemma_starts_with_concat(a: Seq<char>, b: Seq<char>)
    ensures
        starts_with(a + b, a),
{
    assert((a + b).subrange(0, a.len() as int) =~= a);
}

impl FlightError {
    /// The human-readable description of the error.
    pub fn message(&self) -> (s: String)
        ensures
            carries_system_text(*self) ==> starts_with(s@, flight_error_text(*self)),
            !carries_system_text(*self) ==> s@ == flight_error_text(*self),
    {
        match self {
            FlightError::InvalidConfig(m) => concat2("invalid flight-recorder configuration: ", m.as_str()),
            FlightError::InvalidTrigger(m) => concat2("invalid flight-recorder trigger: ", m.as_str()),
            FlightError::IllegalTransition { state, operation } => {
                let mut s = concat3("cannot ", operation, " flight recorder while it is ");
                s.append(state_text(*state));
                s
            },
            FlightError::OutputExists(path) => {
                let shown = path_text(path);
                let s = concat2("refusing to overwrite existing incident ", shown.as_str());
                proof {
                    lemma_starts_with_concat("refusing to overwrite existing incident "@, shown@);
                }
                s
            },
            FlightError::PartialExists(path) => {
                let shown = path_text(path);
                let s = concat2("refusing to overwrite existing partial incident ", shown.as_str());
                proof {
                    lemma_starts_with_concat("refusing to overwrite existing partial incident "@, shown@);
                }
                s
            },
            FlightError::UnsupportedMetadataVersion(v) => around_number(
                "unsupported flight metadata version ",
                *v as u64,
                "; supported version is 1",
            ),
            FlightError::MalformedMetadata(m) => concat2("malformed flight metadata: ", m.as_str()),
            FlightError::Io { action, path, source } => {
                let mut s = concat3("could not ", action, " ");
                let shown = path_text(path);
                let detail = io_error_text(source);
                let ghost head = s@;
                s.append(shown.as_str());
                s.append(": ");
                s.append(detail.as_str());
                proof {
                    lemma_starts_with_concat(head, shown@ + ": "@ + detail@);
                    assert(s@ == head + (shown@ + ": "@ + detail@));
                }
                s
            },
            FlightError::Serialize { path, source } => {
                let mut s = String::from_str("could not serialize incident record to ");
                let shown = path_text(path);
                let detail = json_error_text(source);
                let ghost head = s@;
                s.append(shown.as_str());
                s.append(": ");
                s.append(detail.as_str());
                proof {
                    lemma_starts_with_concat(head, shown@ + ": "@ + detail@);
                    assert(s@ == head + (shown@ + ": "@ + detail@));
                }
                s
            },
        }
    }
}

/// The configuration problem, if any: durations up to their hard maximum,
/// event and byte bounds between one and theirs.
pub open spec fn config_problem(pre_trigger: u64, post_trigger: u64, max_events: usize, max_bytes: usize) -> Option<Seq<char>> {
    if pre_trigger > HARD_MAX_PRE_TRIGGER {
        Some("pre-trigger duration exceeds 30 seconds"@)
    } else if post_trigger > HARD_MAX_POST_TRIGGER {
        Some("post-trigger duration exceeds 30 seconds"@)
    } else if max_events == 0 || max_events > HARD_MAX_EVENTS {
        Some("event bound must be between 1 and 100000"@)
    } else if max_bytes == 0 || max_bytes > HARD_MAX_BYTES {
        Some("byte bound must be between 1 and 33554432"@)
    } else {
        None
    }
}

impl FlightConfig {
    /// A configuration with the default durations and the hard bounds.
    pub fn new(output: std::path::PathBuf, source: FlightSource, host: HostMetadata) -> (c: FlightConfig)
        ensures
            c.output == output,
            c.source == source,
            c.pre_trigger == DEFAULT_PRE_TRIGGER,
            c.post_trigger == DEFAULT_POST_TRIGGER,
            c.max_events == HARD_MAX_EVENTS,
            c.max_bytes == HARD_MAX_BYTES,
            c.host.kernel@ == host.kernel@,
            c.host.architecture@ == host.architecture@,
    {
        FlightConfig {
            output,
            source,
            pre_trigger: DEFAULT_PRE_TRIGGER,
            post_trigger: DEFAULT_POST_TRIGGER,
            max_events: HARD_MAX_EVENTS,
            max_bytes: HARD_MAX_BYTES,
            host,
        }
    }

    /// Accepts the configuration, or says which bound it breaks.
    pub fn validate(&self) -> (r: Result<(), FlightError>)
        ensures
            match config_problem(self.pre_trigger, self.post_trigger, self.max_events, self.max_bytes) {
                None => r is Ok,
                Some(m) => r matches Err(FlightError::InvalidConfig(s)) && s@ == m,
            },
    {
        if self.pre_trigger > HARD_MAX_PRE_TRIGGER {
            return Err(FlightError::InvalidConfig(String::from_str("pre-trigger duration exceeds 30 seconds")));
        }
        if self.post_trigger > HARD_MAX_POST_TRIGGER {
            return Err(FlightError::InvalidConfig(String::from_str("post-trigger duration exceeds 30 seconds")));
        }
        if self.max_events == 0 || self.max_events > HARD_MAX_EVENTS {
            return Err(FlightError::InvalidConfig(String::from_str("event bound must be between 1 and 100000")));
        }
        if self.max_bytes == 0 || self.max_bytes > HARD_MAX_BYTES {
            return Err(FlightError::InvalidConfig(String::from_str("byte bound must be between 1 and 33554432")));
        }
        Ok(())
    }
}

/// Seconds with six decimals, as `{:.6}` writes them, for a time or
/// duration in nanoseconds rounded to the nearest microsecond (halves up).
pub open spec fn seconds_text(ns: u64) -> Seq<char> {
    let micros = ns as nat / 1000 + if ns as nat % 1000 >= 500 { 1nat } else { 0nat };
    decimal(micros / 1_000_000) + "."@ + zero_padded(micros % 1_000_000, 6)
}

/// Writes a time or duration in nanoseconds as seconds with six decimals.
pub fn seconds(ns: u64) -> (s: String)
    ensures
        s@ == seconds_text(ns),
{
    let micros: u64 = ns / 1000 + if ns % 1000 >= 500 { 1 } else { 0 };
    let mut s = u64_text(micros / 1_000_000);
    s.append(".");
    let fraction = zero_padded_text(micros % 1_000_000, 6);
    s.append(fraction.as_str());
    s
}

/// The labels every metadata record carries.
pub open spec fn base_labels(config: FlightConfig, record: Seq<char>) -> Map<Seq<char>, Seq<char>> {
    Map::<Seq<char>, Seq<char>>::empty().insert("format_version"@, decimal(FLIGHT_FORMAT_VERSION as nat)).insert(
        "record"@,
        record,
    ).insert("source"@, source_name(config.source)).insert(
        "configured_pre_trigger_seconds"@,
        seconds_text(config.pre_trigger),
    ).insert("configured_post_trigger_seconds"@, seconds_text(config.post_trigger)).insert(
        "timestamp_domain"@,
        "kernel-monotonic"@,
    ).insert("kernel"@, config.host.kernel@).insert("architecture"@, config.host.architecture@)
}

/// The labels every metadata record carries: format version, record kind,
/// source, configured durations, time domain and host.
pub fn base_metadata(config: &FlightConfig, record: &str) -> (l: Labels)
    ensures
        l@ == base_labels(*config, record@),
{
    let mut l = Labels::new();
    l.insert_str("format_version", u64_text(FLIGHT_FORMAT_VERSION as u64));
    l.insert_str("record", String::from_str(record));
    l.insert_str("source", String::from_str(config.source.as_str()));
    l.insert_str("configured_pre_trigger_seconds", seconds(config.pre_trigger));
    l.insert_str("configured_post_trigger_seconds", seconds(config.post_trigger));
    l.insert_str("timestamp_domain", String::from_str("kernel-monotonic"));
    l.insert_str("kernel", config.host.kernel.clone());
    l.insert_str("architecture", config.host.architecture.clone());
    l
}

/// The loss labels, each name after `prefix` and `_`.
pub open spec fn loss_labels(m: Map<Seq<char>, Seq<char>>, prefix: Seq<char>, losses: IncidentLosses) -> Map<Seq<char>, Seq<char>> {
    m.insert(prefix + "_kernel_ring_loss"@, decimal(losses.kernel_ring as nat)).insert(
        prefix + "_collector_loss"@,
        decimal(losses.collector as nat),
    ).insert(prefix + "_ipc_loss"@, decimal(losses.ipc as nat)).insert(
        prefix + "_renderer_channel_loss"@,
        decimal(losses.renderer_channel as nat),
    ).insert(prefix + "_malformed_count"@, decimal(losses.malformed as nat)).insert(
        prefix + "_writer_loss"@,
        decimal(losses.writer as nat),
    )
}

/// A label name: a prefix, `_` and a name.
fn prefixed(prefix: &str, name: &str) -> (s: String)
    ensures
        s@ == prefix@ + "_"@ + name@,
{
    let mut s = String::from_str(prefix);
    s.append("_");
    s.append(name);
    proof {
        reveal_strlit("_");
    }
    s
}

/// Adds the six loss counters under names that start with `prefix`.
pub fn insert_losses(labels: &mut Labels, prefix: &str, losses: IncidentLosses)
    ensures
        final(labels)@ == loss_labels(old(labels)@, prefix@, losses),
{
    proof {
        reveal_strlit("_");
        reveal_strlit("kernel_ring_loss");
        reveal_strlit("_kernel_ring_loss");
        reveal_strlit("collector_loss");
        reveal_strlit("_collector_loss");
        reveal_strlit("ipc_loss");
        reveal_strlit("_ipc_loss");
        reveal_strlit("renderer_channel_loss");
        reveal_strlit("_renderer_channel_loss");
        reveal_strlit("malformed_count");
        reveal_strlit("_malformed_count");
        reveal_strlit("writer_loss");
        reveal_strlit("_writer_loss");
    }
    let k = prefixed(prefix, "kernel_ring_loss");
    assert(k@ == prefix@ + "_kernel_ring_loss"@);
    labels.insert(k, u64_text(losses.kernel_ring));
    let k = prefixed(prefix, "collector_loss");
    assert(k@ == prefix@ + "_collector_loss"@);
    labels.insert(k, u64_text(losses.collector));
    let k = prefixed(prefix, "ipc_loss");
    assert(k@ == prefix@ + "_ipc_loss"@);
    labels.insert(k, u64_text(losses.ipc));
    let k = prefixed(prefix, "renderer_channel_loss");
    assert(k@ == prefix@ + "_renderer_channel_loss"@);
    labels.insert(k, u64_text(losses.renderer_channel));
    let k = prefixed(prefix, "malformed_count");
    assert(k@ == prefix@ + "_malformed_count"@);
    labels.insert(k, u64_text(losses.malformed));
    let k = prefixed(prefix, "writer_loss");
    assert(k@ == prefix@ + "_writer_loss"@);
    labels.insert(k, u64_text(losses.writer));
}

/// The header an incident's metadata record declares.
#[derive(Clone, Debug)]
pub struct ParsedFlightMetadata {
    pub record: String,
    pub source: FlightSource,
    pub format_version: u16,
}

/// What reading an event as incident metadata finds.
pub enum MetadataVerdict {
    /// Not a metadata record.
    NotMetadata,
    /// A required label is absent.
    Missing(Seq<char>),
    /// The format version is not a `u16`.
    InvalidVersion,
    /// The format version is not supported.
    Unsupported(u16),
    /// The source is neither `scheduler` nor `tcp`.
    InvalidSource,
    /// A supported header.
    Parsed { record: Seq<char>, source: FlightSource, version: u16 },
}

/// How an event reads as incident metadata: only metadata records count;
/// they need a `format_version` that is 1, a known `source` and a `record`.
pub open spec fn metadata_verdict(e: EventView) -> MetadataVerdict {
    let l = e.labels;
    if e.category != METADATA_CATEGORY@ {
        MetadataVerdict::NotMetadata
    } else if !l.contains_key("format_version"@) {
        MetadataVerdict::Missing("format_version"@)
    } else if parse_unsigned(l["format_version"@], u16::MAX as nat) is None {
        MetadataVerdict::InvalidVersion
    } else if parse_unsigned(l["format_version"@], u16::MAX as nat).unwrap() != FLIGHT_FORMAT_VERSION {
        MetadataVerdict::Unsupported(parse_unsigned(l["format_version"@], u16::MAX as nat).unwrap() as u16)
    } else if !l.contains_key("source"@) {
        MetadataVerdict::Missing("source"@)
    } else if l["source"@] != "scheduler"@ && l["source"@] != "tcp"@ {
        MetadataVerdict::InvalidSource
    } else if !l.contains_key("record"@) {
        MetadataVerdict::Missing("record"@)
    } else {
        MetadataVerdict::Parsed {
            record: l["record"@],
            source: if l["source"@] == "scheduler"@ { FlightSource::Scheduler } else { FlightSource::Tcp },
            version: FLIGHT_FORMAT_VERSION,
        }
    }
}

/// The message for a missing label.
fn missing(key: &str) -> (e: FlightError)
    ensures
        e matches FlightError::MalformedMetadata(s) && s@ == "missing "@ + key@,
{
    let mut s = String::from_str("missing ");
    s.append(key);
    FlightError::MalformedMetadata(s)
}

/// Reads an event as incident metadata: `None` for other records, the
/// header for a supported one, an error for a malformed or unsupported one.
pub fn parse_metadata_event(event: &NormalizedEvent) -> (r: Result<Option<ParsedFlightMetadata>, FlightError>)
    ensures
        match metadata_verdict(event@) {
            MetadataVerdict::NotMetadata => r matches Ok(None),
            MetadataVerdict::Missing(k) => r matches Err(FlightError::MalformedMetadata(s)) && s@ == "missing "@ + k,
            MetadataVerdict::InvalidVersion => r matches Err(FlightError::MalformedMetadata(s)) && s@ == "invalid format_version"@,
            MetadataVerdict::Unsupported(v) => r matches Err(FlightError::UnsupportedMetadataVersion(w)) && w == v,
            MetadataVerdict::InvalidSource => r matches Err(FlightError::MalformedMetadata(s)) && s@ == "invalid source"@,
            MetadataVerdict::Parsed { record, source, version } => r matches Ok(Some(m)) && m.record@ == record
                && m.source == source && m.format_version == version,
        },
{
    if !str_eq(event.category.as_str(), METADATA_CATEGORY) {
        return Ok(None);
    }
    let version_text = match event.labels.get("format_version") {
        Some(v) => v,
        None => return Err(missing("format_version")),
    };
    let chars = chars_of(version_text.as_str());
    let version = match crate::parse::parse_unsigned_exec(&chars, 0xffff) {
        Some(v) => v as u16,
        None => return Err(FlightError::MalformedMetadata(String::from_str("invalid format_version"))),
    };
    if version != FLIGHT_FORMAT_VERSION {
        return Err(FlightError::UnsupportedMetadataVersion(version));
    }
    let source_text = match event.labels.get("source") {
        Some(v) => v,
        None => return Err(missing("source")),
    };
    let source = if str_eq(source_text.as_str(), "scheduler") {
        FlightSource::Scheduler
    } else if str_eq(source_text.as_str(), "tcp") {
        FlightSource::Tcp
    } else {
        return Err(FlightError::MalformedMetadata(String::from_str("invalid source")));
    };
    let record = match event.labels.get("record") {
        Some(v) => v.clone(),
        None => return Err(missing("record")),
    };
    Ok(Some(ParsedFlightMetadata { record, source, format_version: version }))
}

} // verus!
