//! Linux scheduler tracepoint events: the fixed kernel record, load-error
//! classification and normalization into lanes keyed by CPU.
use vstd::prelude::*;

use crate::event::{Direction, Labels, NormalizedEvent, Quantity, SCHEMA_VERSION};
use crate::source::{all_ascii, ascii_bytes, fnv1a, ne_u32, ne_u64, read_ne_u32, read_ne_u64, stable_hash_str};
use crate::text::{
    around_number, ascii_lower, chars_contain, concat2, concat3, contains_seq, decimal, i64_text,
    lemma_decimal_digits, lemma_decimal_injective, lemma_decimal_u32_len, signed_decimal, to_ascii_lower,
    u64_text, with_number,
};

verus! {

/// Size of one kernel scheduler record.
pub const KERNEL_EVENT_BYTES: usize = 48;

/// CPUs beyond this index are refused.
pub const MAX_CPUS: usize = 4_096;

/// Marker for an unknown CPU.
pub const UNKNOWN_CPU: u32 = 0xffff_ffff;

/// The label that names an event's visual lane.
pub const LANE_LABEL: &'static str = "synesthesia.lane";

/// Nanoseconds per second, the denominator of kernel timestamps.
pub const NANOS_PER_SECOND: u64 = 1_000_000_000;

/// Kinds of scheduler records.
#[derive(Clone, Copy, Debug, PartialEq, Eq, Structural)]
pub enum SchedulerEventKind {
    Switch,
    Wakeup,
    WakeupNew,
    Migrate,
}

/// Why a kernel record is refused.
#[derive(Clone, Copy, Debug, PartialEq, Eq, Structural)]
pub enum SchedulerDecodeError {
    WrongSize { expected: usize, actual: usize },
    UnsupportedKind(u32),
    InvalidCpu(u32),
}

/// The kind for a wire code (1 to 4).
pub open spec fn kind_for_code(code: u32) -> Option<SchedulerEventKind> {
    if code == 1 {
        Some(SchedulerEventKind::Switch)
    } else if code == 2 {
        Some(SchedulerEventKind::Wakeup)
    } else if code == 3 {
        Some(SchedulerEventKind::WakeupNew)
    } else if code == 4 {
        Some(SchedulerEventKind::Migrate)
    } else {
        None
    }
}

impl SchedulerEventKind {
    /// The kind for a wire code, or `UnsupportedKind`.
    pub fn from_code(value: u32) -> (r: Result<SchedulerEventKind, SchedulerDecodeError>)
        ensures
            match kind_for_code(value) {
                Some(kind) => r == Ok::<SchedulerEventKind, SchedulerDecodeError>(kind),
                None => r == Err::<SchedulerEventKind, SchedulerDecodeError>(
                    SchedulerDecodeError::UnsupportedKind(value),
                ),
            },
    {
        match value {
            1 => Ok(SchedulerEventKind::Switch),
            2 => Ok(SchedulerEventKind::Wakeup),
            3 => Ok(SchedulerEventKind::WakeupNew),
            4 => Ok(SchedulerEventKind::Migrate),
            _ => Err(SchedulerDecodeError::UnsupportedKind(value)),
        }
    }

    /// The wire code of the kind.
    pub fn code(self) -> (c: u32)
        ensures
            kind_for_code(c) == Some(self),
    {
        match self {
            SchedulerEventKind::Switch => 1,
            SchedulerEventKind::Wakeup => 2,
            SchedulerEventKind::WakeupNew => 3,
            SchedulerEventKind::Migrate => 4,
        }
    }
}

/// One scheduler record as the kernel program emits it.
#[derive(Clone, Copy, Debug, PartialEq, Eq, Structural)]
pub struct KernelSchedulerEvent {
    pub timestamp_ns: u64,
    pub kind: SchedulerEventKind,
    pub cpu: u32,
    pub source_cpu: u32,
    pub target_cpu: u32,
    pub pid: u32,
    pub previous_pid: u32,
    pub next_pid: u32,
    pub previous_state: i64,
}

/// A CPU field is acceptable: known and below [`MAX_CPUS`], or unknown.
pub open spec fn cpu_acceptable(cpu: u32) -> bool {
    cpu == UNKNOWN_CPU || cpu < MAX_CPUS
}

/// The outcome of decoding a kernel record. The layout is the x86_64 one:
/// timestamp at 0, kind at 8, cpu at 12, source and target cpu at 16 and 20,
/// pid, previous and next pid at 24, 28 and 32, previous state at 40, all
/// in the machine's byte order, as the kernel wrote them.
pub open spec fn decode_scheduler(bytes: Seq<u8>) -> Result<KernelSchedulerEvent, SchedulerDecodeError> {
    if bytes.len() != KERNEL_EVENT_BYTES {
        Err(SchedulerDecodeError::WrongSize { expected: KERNEL_EVENT_BYTES, actual: bytes.len() as usize })
    } else if kind_for_code(ne_u32(bytes, 8)) is None {
        Err(SchedulerDecodeError::UnsupportedKind(ne_u32(bytes, 8)))
    } else {
        let event = KernelSchedulerEvent {
            timestamp_ns: ne_u64(bytes, 0),
            kind: kind_for_code(ne_u32(bytes, 8)).unwrap(),
            cpu: ne_u32(bytes, 12),
            source_cpu: ne_u32(bytes, 16),
            target_cpu: ne_u32(bytes, 20),
            pid: ne_u32(bytes, 24),
            previous_pid: ne_u32(bytes, 28),
            next_pid: ne_u32(bytes, 32),
            previous_state: ne_u64(bytes, 40) as i64,
        };
        if !cpu_acceptable(event.cpu) {
            Err(SchedulerDecodeError::InvalidCpu(event.cpu))
        } else if !cpu_acceptable(event.source_cpu) {
            Err(SchedulerDecodeError::InvalidCpu(event.source_cpu))
        } else if !cpu_acceptable(event.target_cpu) {
            Err(SchedulerDecodeError::InvalidCpu(event.target_cpu))
        } else {
            Ok(event)
        }
    }
}

fn check_cpu(cpu: u32) -> (r: Result<(), SchedulerDecodeError>)
    ensures
        r is Ok <==> cpu_acceptable(cpu),
        r is Err ==> r == Err::<(), SchedulerDecodeError>(SchedulerDecodeError::InvalidCpu(cpu)),
{
    if cpu != UNKNOWN_CPU && cpu as usize >= MAX_CPUS {
        Err(SchedulerDecodeError::InvalidCpu(cpu))
    } else {
        Ok(())
    }
}

impl KernelSchedulerEvent {
    /// Decodes exactly one kernel record.
    pub fn decode(bytes: &[u8]) -> (r: Result<KernelSchedulerEvent, SchedulerDecodeError>)
        ensures
            r == decode_scheduler(bytes@),
    {
        if bytes.len() != KERNEL_EVENT_BYTES {
            return Err(SchedulerDecodeError::WrongSize {
                expected: KERNEL_EVENT_BYTES,
                actual: bytes.len(),
            });
        }
        let kind = match SchedulerEventKind::from_code(read_ne_u32(bytes, 8)) {
            Ok(kind) => kind,
            Err(error) => return Err(error),
        };
        let event = KernelSchedulerEvent {
            timestamp_ns: read_ne_u64(bytes, 0),
            kind,
            cpu: read_ne_u32(bytes, 12),
            source_cpu: read_ne_u32(bytes, 16),
            target_cpu: read_ne_u32(bytes, 20),
            pid: read_ne_u32(bytes, 24),
            previous_pid: read_ne_u32(bytes, 28),
            next_pid: read_ne_u32(bytes, 32),
            previous_state: read_ne_u64(bytes, 40) as i64,
        };
        match check_cpu(event.cpu) {
            Ok(()) => {},
            Err(error) => return Err(error),
        }
        match check_cpu(event.source_cpu) {
            Ok(()) => {},
            Err(error) => return Err(error),
        }
        match check_cpu(event.target_cpu) {
            Ok(()) => {},
            Err(error) => return Err(error),
        }
        Ok(event)
    }
}

/// Why the live scheduler source cannot run.
#[derive(Clone, Debug, PartialEq, Eq)]
pub enum SchedulerSourceError {
    UnsupportedOperatingSystem,
    FeatureDisabled,
    UnsupportedArchitecture(String),
    MissingBtf,
    TracepointUnavailable(String),
    InsufficientPermissions(String),
    VerifierRejected(String),
    RingBufferSetup(String),
    MissingDevelopmentDependency(String),
    Load(String),
}

/// The advice given when the kernel refuses for lack of privilege.
pub open spec fn privilege_advice() -> Seq<char> {
    "run the built binary explicitly with sufficient BPF privileges"@
}

/// The classification of a load failure message: which class it falls in
/// (permission, verifier, ring buffer or other), decided on its ASCII
/// lower-case form.
pub enum LoadFailureClass {
    Permission,
    Verifier,
    RingBuffer,
    Other,
}

/// The class of a load message; `extra_permission` is one more phrase that
/// also counts as a permission failure (empty when there is none).
pub open spec fn load_failure_class(message: Seq<char>, extra_permission: Seq<char>) -> LoadFailureClass {
    let lower = ascii_lower(message);
    if contains_seq(lower, "permission denied"@) || contains_seq(lower, "operation not permitted"@)
        || contains_seq(lower, "eperm"@) || (extra_permission.len() > 0 && contains_seq(
        lower,
        extra_permission,
    )) {
        LoadFailureClass::Permission
    } else if contains_seq(lower, "verifier"@) || contains_seq(lower, "invalid argument"@) {
        LoadFailureClass::Verifier
    } else if contains_seq(lower, "ringbuf"@) || contains_seq(lower, "ring buffer"@) {
        LoadFailureClass::RingBuffer
    } else {
        LoadFailureClass::Other
    }
}

/// Classifies a load message on its lower-case form.
pub fn classify_message(message: &str, extra_permission: &str) -> (c: LoadFailureClass)
    ensures
        c == load_failure_class(message@, extra_permission@),
{
    let lower = to_ascii_lower(message);
    let extra = extra_permission.unicode_len() > 0;
    if chars_contain(&lower, "permission denied") || chars_contain(&lower, "operation not permitted")
        || chars_contain(&lower, "eperm") || (extra && chars_contain(&lower, extra_permission)) {
        LoadFailureClass::Permission
    } else if chars_contain(&lower, "verifier") || chars_contain(&lower, "invalid argument") {
        LoadFailureClass::Verifier
    } else if chars_contain(&lower, "ringbuf") || chars_contain(&lower, "ring buffer") {
        LoadFailureClass::RingBuffer
    } else {
        LoadFailureClass::Other
    }
}

/// `e` is the classification of the loader message `message`.
pub open spec fn classified_load_error(e: SchedulerSourceError, message: Seq<char>) -> bool {
    match load_failure_class(message, Seq::empty()) {
        LoadFailureClass::Permission => (e matches SchedulerSourceError::InsufficientPermissions(advice)
            && advice@ == privilege_advice()),
        LoadFailureClass::Verifier => (e matches SchedulerSourceError::VerifierRejected(m) && m@
            == message),
        LoadFailureClass::RingBuffer => (e matches SchedulerSourceError::RingBufferSetup(m) && m@
            == message),
        LoadFailureClass::Other => (e matches SchedulerSourceError::Load(m) && m@ == message),
    }
}

impl SchedulerSourceError {
    /// Classifies a loader message: permission problems become
    /// `InsufficientPermissions` with fixed advice, verifier problems
    /// `VerifierRejected`, ring-buffer problems `RingBufferSetup`, and the
    /// rest `Load`, each carrying the message.
    pub fn classify_load_message(message: &str) -> (e: SchedulerSourceError)
        ensures
            classified_load_error(e, message@),
    {
        proof {
            reveal_strlit("");
        }
        match classify_message(message, "") {
            LoadFailureClass::Permission => SchedulerSourceError::InsufficientPermissions(
                String::from_str("run the built binary explicitly with sufficient BPF privileges"),
            ),
            LoadFailureClass::Verifier => SchedulerSourceError::VerifierRejected(
                String::from_str(message),
            ),
            LoadFailureClass::RingBuffer => SchedulerSourceError::RingBufferSetup(
                String::from_str(message),
            ),
            LoadFailureClass::Other => SchedulerSourceError::Load(String::from_str(message)),
        }
    }
}

/// The attach failure for one tracepoint: a missing tracepoint is
/// `TracepointUnavailable`; anything else is classified as a load message.
pub fn classify_attach_error(tracepoint: &str, message: &str) -> (e: SchedulerSourceError)
    ensures
        (contains_seq(ascii_lower(message@), "no such file"@) || contains_seq(
            ascii_lower(message@),
            "not found"@,
        )) ==> (e matches SchedulerSourceError::TracepointUnavailable(t) && t@ == tracepoint@),
        !(contains_seq(ascii_lower(message@), "no such file"@) || contains_seq(
            ascii_lower(message@),
            "not found"@,
        )) ==> classified_load_error(e, message@),
{
    let lower = to_ascii_lower(message);
    if chars_contain(&lower, "no such file") || chars_contain(&lower, "not found") {
        SchedulerSourceError::TracepointUnavailable(String::from_str(tracepoint))
    } else {
        SchedulerSourceError::classify_load_message(message)
    }
}

/// Loss counters kept apart by where the loss happened.
#[derive(Clone, Copy, Debug, PartialEq, Eq, Structural)]
pub struct SchedulerLossStats {
    pub kernel_ring_drops: u64,
    pub userspace_channel_drops: u64,
    pub malformed_records: u64,
}

/// `cpu:N`.
pub open spec fn cpu_name(cpu: nat) -> Seq<char> {
    "cpu:"@ + decimal(cpu)
}

/// `idle` for pid 0, `task:N` otherwise.
pub open spec fn task_name(pid: nat) -> Seq<char> {
    if pid == 0 {
        "idle"@
    } else {
        "task:"@ + decimal(pid)
    }
}

/// The labels every scheduler event carries for its CPU lane.
pub open spec fn base_label_map(cpu: nat) -> Map<Seq<char>, Seq<char>> {
    map!["cpu"@ => decimal(cpu), LANE_LABEL@ => cpu_name(cpu)]
}

/// A kernel timestamp in seconds.
pub open spec fn kernel_time(ns: u64) -> Option<Quantity> {
    Some(Quantity::Ratio { numerator: ns, denominator: NANOS_PER_SECOND })
}

/// Switch weight: nanoseconds since the previous switch on the CPU, capped
/// at 2 048 units of 50 µs, and nothing for the first switch seen.
pub open spec fn switch_weight(previous: u64, now: u64) -> u64 {
    if previous == 0 {
        0
    } else if now <= previous {
        0
    } else if now - previous > 102_400_000 {
        102_400_000
    } else {
        (now - previous) as u64
    }
}

/// The normalized event for a context switch.
pub open spec fn switch_event(e: NormalizedEvent, k: KernelSchedulerEvent, previous: u64) -> bool {
    &&& e.v == SCHEMA_VERSION
    &&& e.timestamp == kernel_time(k.timestamp_ns)
    &&& e.category@ == "sched.switch"@
    &&& e.origin is Some && e.origin.unwrap()@ == task_name(k.previous_pid as nat)
    &&& e.target is Some && e.target.unwrap()@ == task_name(k.next_pid as nat)
    &&& e.magnitude == (Quantity::Ratio {
        numerator: (3_200_000 + switch_weight(previous, k.timestamp_ns)) as u64,
        denominator: 50_000,
    })
    &&& e.direction == Direction::Neutral
    &&& e.labels@ == base_label_map(k.cpu as nat).insert("previous_pid"@, decimal(k.previous_pid as nat))
        .insert("next_pid"@, decimal(k.next_pid as nat)).insert(
        "previous_state"@,
        signed_decimal(k.previous_state as int),
    ).insert("scheduler_kind"@, "switch"@)
}

/// The CPU a wakeup lands on: the target CPU, or the reporting CPU when the
/// target is unknown.
pub open spec fn wakeup_cpu(k: KernelSchedulerEvent) -> u32 {
    if k.target_cpu == UNKNOWN_CPU {
        k.cpu
    } else {
        k.target_cpu
    }
}

/// The normalized event for a wakeup.
pub open spec fn wakeup_event(e: NormalizedEvent, k: KernelSchedulerEvent) -> bool {
    let cpu = wakeup_cpu(k) as nat;
    let labels = base_label_map(cpu).insert("pid"@, decimal(k.pid as nat)).insert(
        "target_cpu"@,
        decimal(cpu),
    ).insert("scheduler_kind"@, "wakeup"@);
    &&& e.v == SCHEMA_VERSION
    &&& e.timestamp == kernel_time(k.timestamp_ns)
    &&& e.category@ == "sched.wakeup"@
    &&& e.origin is Some && e.origin.unwrap()@ == task_name(k.previous_pid as nat)
    &&& e.target is Some && e.target.unwrap()@ == task_name(k.pid as nat)
    &&& e.magnitude == Quantity::Ratio { numerator: 192, denominator: 1 }
    &&& e.direction == Direction::Inbound
    &&& e.labels@ == if k.kind == SchedulerEventKind::WakeupNew {
        labels.insert("new_task"@, "true"@)
    } else {
        labels
    }
}

/// The labels of one half of a migration.
pub open spec fn migration_labels(k: KernelSchedulerEvent, lane: u32, phase: Seq<char>) -> Map<Seq<char>, Seq<char>> {
    base_label_map(lane as nat).insert("pid"@, decimal(k.pid as nat)).insert(
        "source_cpu"@,
        decimal(k.source_cpu as nat),
    ).insert("target_cpu"@, decimal(k.target_cpu as nat)).insert("scheduler_kind"@, "migrate"@).insert(
        "migration_phase"@,
        phase,
    )
}

/// The departure and arrival events of a migration.
pub open spec fn migration_events(d: NormalizedEvent, a: NormalizedEvent, k: KernelSchedulerEvent) -> bool {
    &&& d.v == SCHEMA_VERSION && a.v == SCHEMA_VERSION
    &&& d.timestamp == kernel_time(k.timestamp_ns) && a.timestamp == kernel_time(k.timestamp_ns)
    &&& d.category@ == "sched.migrate"@ && a.category@ == "sched.migrate"@
    &&& d.origin is Some && d.origin.unwrap()@ == cpu_name(k.source_cpu as nat)
    &&& d.target is Some && d.target.unwrap()@ == cpu_name(k.target_cpu as nat)
    &&& a.origin is Some && a.origin.unwrap()@ == cpu_name(k.target_cpu as nat)
    &&& a.target is Some && a.target.unwrap()@ == cpu_name(k.source_cpu as nat)
    &&& d.magnitude == Quantity::Ratio { numerator: 2_048, denominator: 1 }
    &&& a.magnitude == Quantity::Ratio { numerator: 1_536, denominator: 1 }
    &&& d.direction == Direction::Outbound && a.direction == Direction::Inbound
    &&& d.labels@ == migration_labels(k, k.source_cpu, "depart"@)
    &&& a.labels@ == migration_labels(k, k.target_cpu, "arrive"@)
}

/// The events for one kernel record, given the previous switch time of
/// the record's CPU: one for a switch or wakeup, the departure and the
/// arrival for a migration.
pub open spec fn normalized(events: Seq<NormalizedEvent>, k: KernelSchedulerEvent, previous: u64) -> bool {
    match k.kind {
        SchedulerEventKind::Switch => events.len() == 1 && switch_event(events[0], k, previous),
        SchedulerEventKind::Wakeup | SchedulerEventKind::WakeupNew => events.len() == 1 && wakeup_event(
            events[0],
            k,
        ),
        SchedulerEventKind::Migrate => events.len() == 2 && migration_events(events[0], events[1], k),
    }
}

/// `cpu:N` as a string.
pub fn cpu_identity(cpu: u32) -> (s: String)
    ensures
        s@ == cpu_name(cpu as nat),
{
    let mut s = String::from_str("cpu:");
    s.append(u64_text(cpu as u64).as_str());
    s
}

/// `idle` or `task:N` as a string.
pub fn task_identity(pid: u32) -> (s: String)
    ensures
        s@ == task_name(pid as nat),
{
    if pid == 0 {
        String::from_str("idle")
    } else {
        let mut s = String::from_str("task:");
        s.append(u64_text(pid as u64).as_str());
        s
    }
}

fn base_labels(cpu: u32) -> (l: Labels)
    ensures
        l@ == base_label_map(cpu as nat),
{
    let mut labels = Labels::new();
    labels.insert_str("cpu", u64_text(cpu as u64));
    labels.insert_str(LANE_LABEL, cpu_identity(cpu));
    proof {
        assert(labels@ =~= base_label_map(cpu as nat));
    }
    labels
}

/// The lane hash of a CPU: the stable hash of `cpu:N`.
pub fn cpu_lane_hash(cpu: u32) -> (h: u64)
    ensures
        h == fnv1a(ascii_bytes(cpu_name(cpu as nat))),
{
    let name = cpu_identity(cpu);
    proof {
        reveal_strlit("cpu:");
        lemma_decimal_digits(cpu as nat);
        assert(all_ascii(name@)) by {
            assert forall|i: int| 0 <= i < name@.len() implies '\0' <= #[trigger] name@[i] <= '\u{7f}' by {
                if i >= 4 {
                    assert(name@[i] == decimal(cpu as nat)[i - 4]);
                }
            }
        }
    }
    stable_hash_str(name.as_str())
}

/// Turns kernel scheduler records into normalized events, remembering the
/// last switch time of each CPU.
pub struct SchedulerNormalizer {
    last_switch_ns: Vec<u64>,
}

impl View for SchedulerNormalizer {
    type V = Seq<u64>;

    closed spec fn view(&self) -> Seq<u64> {
        self.last_switch_ns@
    }
}

impl SchedulerNormalizer {
    /// Well-formed: one slot per supported CPU.
    pub closed spec fn wf(&self) -> bool {
        self.last_switch_ns@.len() == MAX_CPUS
    }

    /// A normalizer that has seen no switch.
    pub fn new() -> (n: SchedulerNormalizer)
        ensures
            n.wf(),
            n@ == Seq::new(MAX_CPUS as nat, |i: int| 0u64),
    {
        let mut slots: Vec<u64> = Vec::new();
        let mut i: usize = 0;
        while i < MAX_CPUS
            invariant
                i <= MAX_CPUS,
                slots@ == Seq::new(i as nat, |j: int| 0u64),
            decreases MAX_CPUS - i,
        {
            slots.push(0);
            i = i + 1;
            assert(slots@ =~= Seq::new(i as nat, |j: int| 0u64));
        }
        SchedulerNormalizer { last_switch_ns: slots }
    }

    /// The number of CPU slots kept; state is bounded by CPUs, not tasks.
    pub fn tracked_cpu_slots(&self) -> (n: usize)
        requires
            self.wf(),
        ensures
            n == MAX_CPUS,
    {
        self.last_switch_ns.len()
    }

    /// The events for one kernel record: one for a switch or wakeup, two
    /// (departure, arrival) for a migration. A switch records its time as
    /// the CPU's last switch.
    pub fn normalize(&mut self, event: KernelSchedulerEvent) -> (events: Vec<NormalizedEvent>)
        requires
            old(self).wf(),
            event.kind == SchedulerEventKind::Switch ==> event.cpu < MAX_CPUS,
        ensures
            final(self).wf(),
            normalized(events@, event, old(self)@[event.cpu as int]),
            final(self)@ == if event.kind == SchedulerEventKind::Switch {
                old(self)@.update(event.cpu as int, event.timestamp_ns)
            } else {
                old(self)@
            },
    {
        let mut events: Vec<NormalizedEvent> = Vec::new();
        match event.kind {
            SchedulerEventKind::Switch => {
                let e = self.normalize_switch(event);
                events.push(e);
            },
            SchedulerEventKind::Wakeup | SchedulerEventKind::WakeupNew => {
                events.push(normalize_wakeup(event));
            },
            SchedulerEventKind::Migrate => {
                let (departure, arrival) = normalize_migration(event);
                events.push(departure);
                events.push(arrival);
            },
        }
        events
    }

    fn normalize_switch(&mut self, event: KernelSchedulerEvent) -> (e: NormalizedEvent)
        requires
            old(self).wf(),
            event.cpu < MAX_CPUS,
        ensures
            final(self).wf(),
            switch_event(e, event, old(self)@[event.cpu as int]),
            final(self)@ == old(self)@.update(event.cpu as int, event.timestamp_ns),
    {
        let previous = self.last_switch_ns[event.cpu as usize];
        self.last_switch_ns.set(event.cpu as usize, event.timestamp_ns);
        let weight: u64 = if previous == 0 {
            0
        } else {
            let elapsed = event.timestamp_ns.saturating_sub(previous);
            if elapsed > 102_400_000 {
                102_400_000
            } else {
                elapsed
            }
        };
        let mut labels = base_labels(event.cpu);
        labels.insert_str("previous_pid", u64_text(event.previous_pid as u64));
        labels.insert_str("next_pid", u64_text(event.next_pid as u64));
        labels.insert_str("previous_state", i64_text(event.previous_state));
        labels.insert_str("scheduler_kind", String::from_str("switch"));
        NormalizedEvent {
            v: SCHEMA_VERSION,
            timestamp: Some(Quantity::Ratio { numerator: event.timestamp_ns, denominator: NANOS_PER_SECOND }),
            category: String::from_str("sched.switch"),
            origin: Some(task_identity(event.previous_pid)),
            target: Some(task_identity(event.next_pid)),
            magnitude: Quantity::Ratio { numerator: 3_200_000 + weight, denominator: 50_000 },
            direction: Direction::Neutral,
            labels,
        }
    }
}

fn normalize_wakeup(event: KernelSchedulerEvent) -> (e: NormalizedEvent)
    ensures
        wakeup_event(e, event),
{
    let target_cpu = if event.target_cpu == UNKNOWN_CPU {
        event.cpu
    } else {
        event.target_cpu
    };
    let mut labels = base_labels(target_cpu);
    labels.insert_str("pid", u64_text(event.pid as u64));
    labels.insert_str("target_cpu", u64_text(target_cpu as u64));
    labels.insert_str("scheduler_kind", String::from_str("wakeup"));
    if event.kind == SchedulerEventKind::WakeupNew {
        labels.insert_str("new_task", String::from_str("true"));
    }
    NormalizedEvent {
        v: SCHEMA_VERSION,
        timestamp: Some(Quantity::Ratio { numerator: event.timestamp_ns, denominator: NANOS_PER_SECOND }),
        category: String::from_str("sched.wakeup"),
        origin: Some(task_identity(event.previous_pid)),
        target: Some(task_identity(event.pid)),
        magnitude: Quantity::Ratio { numerator: 192, denominator: 1 },
        direction: Direction::Inbound,
        labels,
    }
}

fn migration_label_set(event: KernelSchedulerEvent, lane: u32, phase: &str) -> (l: Labels)
    ensures
        l@ == migration_labels(event, lane, phase@),
{
    let mut labels = base_labels(lane);
    labels.insert_str("pid", u64_text(event.pid as u64));
    labels.insert_str("source_cpu", u64_text(event.source_cpu as u64));
    labels.insert_str("target_cpu", u64_text(event.target_cpu as u64));
    labels.insert_str("scheduler_kind", String::from_str("migrate"));
    labels.insert_str("migration_phase", String::from_str(phase));
    labels
}

fn normalize_migration(event: KernelSchedulerEvent) -> (r: (NormalizedEvent, NormalizedEvent))
    ensures
        migration_events(r.0, r.1, event),
{
    let departure = NormalizedEvent {
        v: SCHEMA_VERSION,
        timestamp: Some(Quantity::Ratio { numerator: event.timestamp_ns, denominator: NANOS_PER_SECOND }),
        category: String::from_str("sched.migrate"),
        origin: Some(cpu_identity(event.source_cpu)),
        target: Some(cpu_identity(event.target_cpu)),
        magnitude: Quantity::Ratio { numerator: 2_048, denominator: 1 },
        direction: Direction::Outbound,
        labels: migration_label_set(event, event.source_cpu, "depart"),
    };
    let arrival = NormalizedEvent {
        v: SCHEMA_VERSION,
        timestamp: Some(Quantity::Ratio { numerator: event.timestamp_ns, denominator: NANOS_PER_SECOND }),
        category: String::from_str("sched.migrate"),
        origin: Some(cpu_identity(event.target_cpu)),
        target: Some(cpu_identity(event.source_cpu)),
        magnitude: Quantity::Ratio { numerator: 1_536, denominator: 1 },
        direction: Direction::Inbound,
        labels: migration_label_set(event, event.target_cpu, "arrive"),
    };
    (departure, arrival)
}

/// The message of a refused kernel scheduler record.
pub open spec fn scheduler_decode_text(e: SchedulerDecodeError) -> Seq<char> {
    match e {
        SchedulerDecodeError::WrongSize { expected, actual } => "scheduler event has "@ + decimal(actual as nat)
            + " bytes; expected exactly "@ + decimal(expected as nat),
        SchedulerDecodeError::UnsupportedKind(k) => "unsupported scheduler event kind "@ + decimal(k as nat),
        SchedulerDecodeError::InvalidCpu(c) => "scheduler event CPU "@ + decimal(c as nat)
            + " exceeds the supported bound"@,
    }
}

impl SchedulerDecodeError {
    /// The human-readable description of the error.
    pub fn message(&self) -> (s: String)
        ensures
            s@ == scheduler_decode_text(*self),
    {
        match self {
            SchedulerDecodeError::WrongSize { expected, actual } => {
                let mut s = around_number("scheduler event has ", *actual as u64, " bytes; expected exactly ");
                let digits = u64_text(*expected as u64);
                s.append(digits.as_str());
                s
            },
            SchedulerDecodeError::UnsupportedKind(k) => with_number("unsupported scheduler event kind ", *k as u64),
            SchedulerDecodeError::InvalidCpu(c) => around_number(
                "scheduler event CPU ",
                *c as u64,
                " exceeds the supported bound",
            ),
        }
    }
}

/// The message of a scheduler source error.
pub open spec fn scheduler_source_text(e: SchedulerSourceError) -> Seq<char> {
    match e {
        SchedulerSourceError::UnsupportedOperatingSystem => "the eBPF scheduler source is supported only on Linux"@,
        SchedulerSourceError::FeatureDisabled => "the eBPF scheduler source is not compiled in; rebuild with --features ebpf"@,
        SchedulerSourceError::UnsupportedArchitecture(a) => "unsupported architecture "@ + a@
            + "; this build currently supports x86_64"@,
        SchedulerSourceError::MissingBtf => "kernel BTF is unavailable at /sys/kernel/btf/vmlinux"@,
        SchedulerSourceError::TracepointUnavailable(n) => "required scheduler tracepoint is unavailable: "@ + n@,
        SchedulerSourceError::InsufficientPermissions(m) => "insufficient eBPF permissions: "@ + m@,
        SchedulerSourceError::VerifierRejected(m) => "the kernel eBPF verifier rejected the scheduler program: "@
            + m@,
        SchedulerSourceError::RingBufferSetup(m) => "could not create or read the eBPF ring buffer: "@ + m@,
        SchedulerSourceError::MissingDevelopmentDependency(m) => "missing external eBPF build dependency: "@ + m@,
        SchedulerSourceError::Load(m) => "could not load the eBPF scheduler source: "@ + m@,
    }
}

impl SchedulerSourceError {
    /// The human-readable description of the error.
    pub fn message(&self) -> (s: String)
        ensures
            s@ == scheduler_source_text(*self),
    {
        match self {
            SchedulerSourceError::UnsupportedOperatingSystem => String::from_str(
                "the eBPF scheduler source is supported only on Linux",
            ),
            SchedulerSourceError::FeatureDisabled => String::from_str(
                "the eBPF scheduler source is not compiled in; rebuild with --features ebpf",
            ),
            SchedulerSourceError::UnsupportedArchitecture(a) => concat3(
                "unsupported architecture ",
                a.as_str(),
                "; this build currently supports x86_64",
            ),
            SchedulerSourceError::MissingBtf => String::from_str("kernel BTF is unavailable at /sys/kernel/btf/vmlinux"),
            SchedulerSourceError::TracepointUnavailable(n) => concat2(
                "required scheduler tracepoint is unavailable: ",
                n.as_str(),
            ),
            SchedulerSourceError::InsufficientPermissions(m) => concat2("insufficient eBPF permissions: ", m.as_str()),
            SchedulerSourceError::VerifierRejected(m) => concat2(
                "the kernel eBPF verifier rejected the scheduler program: ",
                m.as_str(),
            ),
            SchedulerSourceError::RingBufferSetup(m) => concat2(
                "could not create or read the eBPF ring buffer: ",
                m.as_str(),
            ),
            SchedulerSourceError::MissingDevelopmentDependency(m) => concat2(
                "missing external eBPF build dependency: ",
                m.as_str(),
            ),
            SchedulerSourceError::Load(m) => concat2("could not load the eBPF scheduler source: ", m.as_str()),
        }
    }
}

/// A name that fits a fixed-size slot: ASCII, so one byte per character,
/// and under 32 of them.
pub open spec fn short_name(s: Seq<char>) -> bool {
    s.len() < 32 && all_ascii(s)
}

/// Both ends of an event, where present, are short names.
pub open spec fn short_ends(e: NormalizedEvent) -> bool {
    &&& e.origin matches Some(o) ==> short_name(o@)
    &&& e.target matches Some(t) ==> short_name(t@)
}

proof fn lemma_cpu_name_short(cpu: u32)
    ensures
        short_name(cpu_name(cpu as nat)),
{
    reveal_strlit("cpu:");
    lemma_decimal_u32_len(cpu);
    lemma_decimal_digits(cpu as nat);
    let n = cpu_name(cpu as nat);
    assert forall|i: int| 0 <= i < n.len() implies '\0' <= #[trigger] n[i] <= '\u{7f}' by {
        if i >= 4 {
            assert(n[i] == decimal(cpu as nat)[i - 4]);
        }
    }
}

proof fn lemma_task_name_short(pid: u32)
    ensures
        short_name(task_name(pid as nat)),
{
    reveal_strlit("idle");
    reveal_strlit("task:");
    lemma_decimal_u32_len(pid);
    lemma_decimal_digits(pid as nat);
    let n = task_name(pid as nat);
    assert forall|i: int| 0 <= i < n.len() implies '\0' <= #[trigger] n[i] <= '\u{7f}' by {
        if pid != 0 && i >= 5 {
            assert(n[i] == decimal(pid as nat)[i - 5]);
        }
    }
}

/// Law: every origin and target the normalizer writes, whatever the
/// record, is a CPU or task name of under 32 ASCII bytes.
pub proof fn law_normalized_names_are_short(events: Seq<NormalizedEvent>, k: KernelSchedulerEvent, previous: u64)
    requires
        normalized(events, k, previous),
    ensures
        forall|i: int| 0 <= i < events.len() ==> short_ends(#[trigger] events[i]),
{
    lemma_task_name_short(k.previous_pid);
    lemma_task_name_short(k.next_pid);
    lemma_task_name_short(k.pid);
    lemma_cpu_name_short(k.source_cpu);
    lemma_cpu_name_short(k.target_cpu);
}

/// The CPU whose lane the `i`-th event of a record lands on.
pub open spec fn lane_cpu(k: KernelSchedulerEvent, i: int) -> u32 {
    match k.kind {
        SchedulerEventKind::Switch => k.cpu,
        SchedulerEventKind::Wakeup | SchedulerEventKind::WakeupNew => wakeup_cpu(k),
        SchedulerEventKind::Migrate => if i == 0 {
            k.source_cpu
        } else {
            k.target_cpu
        },
    }
}

/// Law: every normalized event carries a lane label naming its CPU, and
/// the stable hash of that label is the CPU's lane hash, the value
/// [`cpu_lane_hash`] returns. A switch lands on the lane of its CPU,
/// whatever tasks it involves, and distinct CPUs have distinct lane names.
pub proof fn law_lane_label_is_cpu_lane(events: Seq<NormalizedEvent>, k: KernelSchedulerEvent, previous: u64)
    requires
        normalized(events, k, previous),
    ensures
        forall|i: int|
            0 <= i < events.len() ==> {
                let labels = (#[trigger] events[i]).labels@;
                &&& labels.contains_key(LANE_LABEL@)
                &&& labels[LANE_LABEL@] == cpu_name(lane_cpu(k, i) as nat)
                &&& fnv1a(ascii_bytes(labels[LANE_LABEL@])) == fnv1a(ascii_bytes(cpu_name(lane_cpu(k, i) as nat)))
            },
        k.kind == SchedulerEventKind::Switch ==> lane_cpu(k, 0) == k.cpu,
        forall|a: u32, b: u32| a != b ==> #[trigger] cpu_name(a as nat) != #[trigger] cpu_name(b as nat),
{
    reveal_strlit("synesthesia.lane");
    reveal_strlit("cpu");
    reveal_strlit("pid");
    reveal_strlit("target_cpu");
    reveal_strlit("source_cpu");
    reveal_strlit("scheduler_kind");
    reveal_strlit("new_task");
    reveal_strlit("previous_pid");
    reveal_strlit("next_pid");
    reveal_strlit("previous_state");
    reveal_strlit("migration_phase");
    assert(LANE_LABEL@ == "synesthesia.lane"@);
    assert(LANE_LABEL@ != "pid"@);
    assert(LANE_LABEL@ != "cpu"@);
    assert(LANE_LABEL@ != "target_cpu"@);
    assert(LANE_LABEL@ != "source_cpu"@);
    assert(LANE_LABEL@ != "scheduler_kind"@);
    assert(LANE_LABEL@ != "new_task"@);
    assert(LANE_LABEL@ != "previous_pid"@);
    assert(LANE_LABEL@ != "next_pid"@);
    assert(LANE_LABEL@ != "previous_state"@);
    assert(LANE_LABEL@ != "migration_phase"@);
    assert forall|a: u32, b: u32| a != b implies #[trigger] cpu_name(a as nat) != #[trigger] cpu_name(b as nat) by {
        if cpu_name(a as nat) == cpu_name(b as nat) {
            reveal_strlit("cpu:");
            assert(decimal(a as nat) =~= cpu_name(a as nat).subrange(4, cpu_name(a as nat).len() as int));
            assert(decimal(b as nat) =~= cpu_name(b as nat).subrange(4, cpu_name(b as nat).len() as int));
            lemma_decimal_injective(a as nat, b as nat);
        }
    }
}

} // verus!
