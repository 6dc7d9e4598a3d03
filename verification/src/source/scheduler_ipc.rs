//! The binary protocol between the scheduler collector and the launcher:
//! fixed 64-byte pulses, and the aggregation that turns kernel records into
//! one pulse per CPU lane and kind per window.
use vstd::prelude::*;

use vstd::bytes::{
    spec_u16_to_le_bytes, spec_u32_to_le_bytes, spec_u64_to_le_bytes, u16_to_le_bytes,
    u32_to_le_bytes, u64_to_le_bytes,
};

use crate::event::{binary64_of, double_bits_of, Direction, EventView, Labels, NormalizedEvent, Quantity, SCHEMA_VERSION};
use crate::source::scheduler::{
    cpu_identity, cpu_name, task_identity, task_name, KernelSchedulerEvent, SchedulerEventKind,
    NANOS_PER_SECOND, UNKNOWN_CPU,
};
use crate::source::{le_u16, le_u32, le_u64, read_u16, read_u32, read_u64};
use crate::text::{around_number, concat2, decimal, io_error_text, starts_with, u64_text, with_number};

verus! {

/// Size of one scheduler pulse on the wire.
pub const WIRE_BYTES: usize = 64;

/// Protocol version of scheduler pulses.
pub const WIRE_VERSION: u16 = 1;

/// Buckets kept per window; pulses for more are counted as dropped.
pub const MAX_PULSES_PER_WINDOW: usize = 2_048;

/// The record magic, `SYNB`.
pub const WIRE_MAGIC: [u8; 4] = [0x53, 0x59, 0x4e, 0x42];

/// The record magic as a sequence.
pub open spec fn wire_magic() -> Seq<u8> {
    seq![0x53u8, 0x59u8, 0x4eu8, 0x42u8]
}

/// Declares `std::io::Error`, which a wire error can carry.
#[verifier::external_type_specification]
#[verifier::external_body]
pub struct ExIoError(std::io::Error);

/// Kinds of scheduler pulses.
#[derive(Clone, Copy, Debug, PartialEq, Eq, Structural)]
pub enum PulseKind {
    Heartbeat,
    Switch,
    Wakeup,
    MigrateDepart,
    MigrateArrive,
}

/// The wire code of a pulse kind.
pub open spec fn pulse_code(k: PulseKind) -> u8 {
    match k {
        PulseKind::Heartbeat => 0,
        PulseKind::Switch => 1,
        PulseKind::Wakeup => 2,
        PulseKind::MigrateDepart => 3,
        PulseKind::MigrateArrive => 4,
    }
}

/// The pulse kind of a wire code.
pub open spec fn pulse_kind_for(code: u8) -> Option<PulseKind> {
    if code == 0 {
        Some(PulseKind::Heartbeat)
    } else if code == 1 {
        Some(PulseKind::Switch)
    } else if code == 2 {
        Some(PulseKind::Wakeup)
    } else if code == 3 {
        Some(PulseKind::MigrateDepart)
    } else if code == 4 {
        Some(PulseKind::MigrateArrive)
    } else {
        None
    }
}

/// Why a scheduler pulse is refused.
#[derive(Debug)]
pub enum SchedulerWireError {
    WrongSize(usize),
    BadMagic,
    UnsupportedVersion(u16),
    UnsupportedKind(u8),
    Truncated(usize),
    Io(std::io::Error),
}

impl PulseKind {
    /// The kind for a wire code, or `UnsupportedKind`.
    pub fn from_code(value: u8) -> (r: Result<PulseKind, SchedulerWireError>)
        ensures
            match pulse_kind_for(value) {
                Some(k) => r matches Ok(x) && x == k,
                None => r matches Err(SchedulerWireError::UnsupportedKind(v)) && v == value,
            },
    {
        match value {
            0 => Ok(PulseKind::Heartbeat),
            1 => Ok(PulseKind::Switch),
            2 => Ok(PulseKind::Wakeup),
            3 => Ok(PulseKind::MigrateDepart),
            4 => Ok(PulseKind::MigrateArrive),
            _ => Err(SchedulerWireError::UnsupportedKind(value)),
        }
    }

    /// The wire code of the kind.
    pub fn code(self) -> (c: u8)
        ensures
            c == pulse_code(self),
    {
        match self {
            PulseKind::Heartbeat => 0,
            PulseKind::Switch => 1,
            PulseKind::Wakeup => 2,
            PulseKind::MigrateDepart => 3,
            PulseKind::MigrateArrive => 4,
        }
    }
}

/// One aggregated scheduler pulse. The magnitude is carried as the bit
/// pattern of a binary64 value, exactly as the wire holds it.
#[derive(Clone, Copy, Debug, PartialEq, Eq, Structural)]
pub struct NormalizedSchedulerPulse {
    pub timestamp_ns: u64,
    pub kind: PulseKind,
    pub lane_cpu: u32,
    pub source_cpu: u32,
    pub target_cpu: u32,
    pub origin_pid: u32,
    pub target_pid: u32,
    pub event_count: u32,
    pub magnitude_bits: u64,
    pub kernel_ring_drops: u64,
    pub collector_drops: u64,
}

/// The wire bytes of a pulse: magic, version, kind and a zero byte, then
/// the fields in order, all little-endian.
pub open spec fn pulse_bytes(p: NormalizedSchedulerPulse) -> Seq<u8> {
    wire_magic() + spec_u16_to_le_bytes(WIRE_VERSION) + seq![pulse_code(p.kind), 0u8]
        + spec_u64_to_le_bytes(p.timestamp_ns) + spec_u32_to_le_bytes(p.lane_cpu)
        + spec_u32_to_le_bytes(p.source_cpu) + spec_u32_to_le_bytes(p.target_cpu)
        + spec_u32_to_le_bytes(p.origin_pid) + spec_u32_to_le_bytes(p.target_pid)
        + spec_u32_to_le_bytes(p.event_count) + spec_u64_to_le_bytes(p.magnitude_bits)
        + spec_u64_to_le_bytes(p.kernel_ring_drops) + spec_u64_to_le_bytes(p.collector_drops)
}

/// The outcome of decoding a scheduler pulse.
pub open spec fn decoded_pulse(b: Seq<u8>) -> Result<NormalizedSchedulerPulse, SchedulerWireError> {
    if b.len() != WIRE_BYTES {
        Err(SchedulerWireError::WrongSize(b.len() as usize))
    } else if b.subrange(0, 4) != wire_magic() {
        Err(SchedulerWireError::BadMagic)
    } else if le_u16(b, 4) != WIRE_VERSION {
        Err(SchedulerWireError::UnsupportedVersion(le_u16(b, 4)))
    } else if pulse_kind_for(b[6]) is None {
        Err(SchedulerWireError::UnsupportedKind(b[6]))
    } else {
        Ok(
            NormalizedSchedulerPulse {
                timestamp_ns: le_u64(b, 8),
                kind: pulse_kind_for(b[6]).unwrap(),
                lane_cpu: le_u32(b, 16),
                source_cpu: le_u32(b, 20),
                target_cpu: le_u32(b, 24),
                origin_pid: le_u32(b, 28),
                target_pid: le_u32(b, 32),
                event_count: le_u32(b, 36),
                magnitude_bits: le_u64(b, 40),
                kernel_ring_drops: le_u64(b, 48),
                collector_drops: le_u64(b, 56),
            },
        )
    }
}

/// Appends bytes to a record.
fn put_bytes(out: &mut Vec<u8>, bytes: Vec<u8>)
    ensures
        final(out)@ == old(out)@ + bytes@,
{
    let mut bytes = bytes;
    out.append(&mut bytes);
}

/// Does a record start with the given magic?
pub fn has_magic(bytes: &[u8], magic: [u8; 4]) -> (b: bool)
    requires
        bytes@.len() >= 4,
    ensures
        b == (bytes@.subrange(0, 4) == magic@),
{
    let r = bytes[0] == magic[0] && bytes[1] == magic[1] && bytes[2] == magic[2] && bytes[3]
        == magic[3];
    proof {
        if r {
            assert(bytes@.subrange(0, 4) =~= magic@);
        }
    }
    r
}

/// Every pulse survives encoding and decoding unchanged.
pub proof fn law_pulse_round_trip(p: NormalizedSchedulerPulse)
    ensures
        decoded_pulse(pulse_bytes(p)) == Ok::<NormalizedSchedulerPulse, SchedulerWireError>(p),
{
    vstd::bytes::lemma_auto_spec_u16_to_from_le_bytes();
    vstd::bytes::lemma_auto_spec_u32_to_from_le_bytes();
    vstd::bytes::lemma_auto_spec_u64_to_from_le_bytes();
    let b = pulse_bytes(p);
    assert(b.len() == 64);
    assert(b.subrange(0, 4) =~= wire_magic());
    assert(b.subrange(4, 6) =~= spec_u16_to_le_bytes(WIRE_VERSION));
    assert(b[6] == pulse_code(p.kind));
    assert(b.subrange(8, 16) =~= spec_u64_to_le_bytes(p.timestamp_ns));
    assert(b.subrange(16, 20) =~= spec_u32_to_le_bytes(p.lane_cpu));
    assert(b.subrange(20, 24) =~= spec_u32_to_le_bytes(p.source_cpu));
    assert(b.subrange(24, 28) =~= spec_u32_to_le_bytes(p.target_cpu));
    assert(b.subrange(28, 32) =~= spec_u32_to_le_bytes(p.origin_pid));
    assert(b.subrange(32, 36) =~= spec_u32_to_le_bytes(p.target_pid));
    assert(b.subrange(36, 40) =~= spec_u32_to_le_bytes(p.event_count));
    assert(b.subrange(40, 48) =~= spec_u64_to_le_bytes(p.magnitude_bits));
    assert(b.subrange(48, 56) =~= spec_u64_to_le_bytes(p.kernel_ring_drops));
    assert(b.subrange(56, 64) =~= spec_u64_to_le_bytes(p.collector_drops));
}

impl NormalizedSchedulerPulse {
    /// The 64 wire bytes of the pulse.
    pub fn encode(&self) -> (bytes: Vec<u8>)
        ensures
            bytes@ == pulse_bytes(*self),
            bytes@.len() == WIRE_BYTES,
    {
        proof {
            vstd::bytes::lemma_auto_spec_u16_to_from_le_bytes();
            vstd::bytes::lemma_auto_spec_u32_to_from_le_bytes();
            vstd::bytes::lemma_auto_spec_u64_to_from_le_bytes();
        }
        let mut out: Vec<u8> = Vec::new();
        out.push(0x53);
        out.push(0x59);
        out.push(0x4e);
        out.push(0x42);
        proof {
            assert(out@ =~= wire_magic());
        }
        put_bytes(&mut out, u16_to_le_bytes(WIRE_VERSION));
        out.push(self.kind.code());
        out.push(0);
        put_bytes(&mut out, u64_to_le_bytes(self.timestamp_ns));
        put_bytes(&mut out, u32_to_le_bytes(self.lane_cpu));
        put_bytes(&mut out, u32_to_le_bytes(self.source_cpu));
        put_bytes(&mut out, u32_to_le_bytes(self.target_cpu));
        put_bytes(&mut out, u32_to_le_bytes(self.origin_pid));
        put_bytes(&mut out, u32_to_le_bytes(self.target_pid));
        put_bytes(&mut out, u32_to_le_bytes(self.event_count));
        put_bytes(&mut out, u64_to_le_bytes(self.magnitude_bits));
        put_bytes(&mut out, u64_to_le_bytes(self.kernel_ring_drops));
        put_bytes(&mut out, u64_to_le_bytes(self.collector_drops));
        proof {
            assert(out@ =~= pulse_bytes(*self));
        }
        out
    }

    /// Decodes 64 wire bytes: the size, magic, version and kind must match.
    pub fn decode(bytes: &[u8]) -> (r: Result<NormalizedSchedulerPulse, SchedulerWireError>)
        ensures
            match decoded_pulse(bytes@) {
                Ok(p) => r matches Ok(q) && q == p,
                Err(SchedulerWireError::WrongSize(n)) => r matches Err(SchedulerWireError::WrongSize(m)) && m == n,
                Err(SchedulerWireError::BadMagic) => r matches Err(SchedulerWireError::BadMagic),
                Err(SchedulerWireError::UnsupportedVersion(v)) => r matches Err(SchedulerWireError::UnsupportedVersion(w)) && w == v,
                Err(SchedulerWireError::UnsupportedKind(k)) => r matches Err(SchedulerWireError::UnsupportedKind(c)) && c == k,
                Err(_) => false,
            },
    {
        if bytes.len() != WIRE_BYTES {
            return Err(SchedulerWireError::WrongSize(bytes.len()));
        }
        if !has_magic(bytes, WIRE_MAGIC) {
            proof {
                assert(WIRE_MAGIC@ =~= wire_magic());
            }
            return Err(SchedulerWireError::BadMagic);
        }
        proof {
            assert(WIRE_MAGIC@ =~= wire_magic());
        }
        let version = read_u16(bytes, 4);
        if version != WIRE_VERSION {
            return Err(SchedulerWireError::UnsupportedVersion(version));
        }
        let kind = match PulseKind::from_code(bytes[6]) {
            Ok(k) => k,
            Err(e) => return Err(e),
        };
        Ok(
            NormalizedSchedulerPulse {
                timestamp_ns: read_u64(bytes, 8),
                kind,
                lane_cpu: read_u32(bytes, 16),
                source_cpu: read_u32(bytes, 20),
                target_cpu: read_u32(bytes, 24),
                origin_pid: read_u32(bytes, 28),
                target_pid: read_u32(bytes, 32),
                event_count: read_u32(bytes, 36),
                magnitude_bits: read_u64(bytes, 40),
                kernel_ring_drops: read_u64(bytes, 48),
                collector_drops: read_u64(bytes, 56),
            },
        )
    }
}

/// The largest magnitude a bucket accumulates.
pub const MAX_BUCKET_MAGNITUDE: u32 = 1_000_000;

/// What a window has accumulated for one lane and kind.
#[derive(Clone, Copy, Debug, PartialEq, Eq, Structural)]
pub struct Bucket {
    pub count: u32,
    /// A whole number, at most [`MAX_BUCKET_MAGNITUDE`].
    pub magnitude: u32,
    pub source_cpu: u32,
    pub target_cpu: u32,
    pub origin_pid: u32,
    pub target_pid: u32,
}

/// An empty bucket.
pub open spec fn empty_bucket() -> Bucket {
    Bucket { count: 0, magnitude: 0, source_cpu: 0, target_cpu: 0, origin_pid: 0, target_pid: 0 }
}

/// Bucket keys, lane CPU then kind code, in ascending order.
pub open spec fn key_lt(a: (u32, u8), b: (u32, u8)) -> bool {
    a.0 < b.0 || (a.0 == b.0 && a.1 < b.1)
}

/// Keys strictly increase along the sequence.
pub open spec fn keys_increasing(bs: Seq<((u32, u8), Bucket)>) -> bool {
    forall|i: int, j: int| 0 <= i < j < bs.len() ==> key_lt(bs[i].0, bs[j].0)
}

/// The first index whose key is not below `key`.
pub open spec fn key_lower_bound(bs: Seq<((u32, u8), Bucket)>, key: (u32, u8)) -> int
    decreases bs.len(),
{
    if bs.len() == 0 {
        0
    } else if !key_lt(bs[0].0, key) {
        0
    } else {
        1 + key_lower_bound(bs.drop_first(), key)
    }
}

/// Where the bucket for `key` is, if there is one.
pub open spec fn key_position(bs: Seq<((u32, u8), Bucket)>, key: (u32, u8)) -> Option<int> {
    let i = key_lower_bound(bs, key);
    if 0 <= i < bs.len() && bs[i].0 == key {
        Some(i)
    } else {
        None
    }
}

/// `bs` with the bucket for `key` set to `b`, in key order.
pub open spec fn bucket_put(bs: Seq<((u32, u8), Bucket)>, key: (u32, u8), b: Bucket) -> Seq<((u32, u8), Bucket)> {
    match key_position(bs, key) {
        Some(i) => bs.update(i, (key, b)),
        None => bs.insert(key_lower_bound(bs, key), (key, b)),
    }
}

proof fn lemma_key_lower_bound_at(bs: Seq<((u32, u8), Bucket)>, key: (u32, u8), i: int)
    requires
        0 <= i <= bs.len(),
        forall|j: int| 0 <= j < i ==> key_lt(bs[j].0, key),
        i < bs.len() ==> !key_lt(bs[i].0, key),
    ensures
        key_lower_bound(bs, key) == i,
    decreases bs.len(),
{
    if i > 0 {
        assert forall|j: int| 0 <= j < i - 1 implies key_lt(bs.drop_first()[j].0, key) by {
            assert(bs.drop_first()[j] == bs[j + 1]);
        }
        lemma_key_lower_bound_at(bs.drop_first(), key, i - 1);
    }
}

proof fn lemma_key_lower_bound_split(bs: Seq<((u32, u8), Bucket)>, key: (u32, u8))
    requires
        keys_increasing(bs),
    ensures
        0 <= key_lower_bound(bs, key) <= bs.len(),
        forall|j: int| 0 <= j < key_lower_bound(bs, key) ==> key_lt(bs[j].0, key),
        forall|j: int| key_lower_bound(bs, key) <= j < bs.len() ==> !key_lt(bs[j].0, key),
    decreases bs.len(),
{
    if bs.len() > 0 && key_lt(bs[0].0, key) {
        lemma_key_lower_bound_split(bs.drop_first(), key);
        assert forall|j: int| 0 <= j < key_lower_bound(bs, key) implies key_lt(bs[j].0, key) by {
            if j > 0 {
                assert(bs[j] == bs.drop_first()[j - 1]);
            }
        }
        assert forall|j: int| key_lower_bound(bs, key) <= j < bs.len() implies !key_lt(bs[j].0, key) by {
            assert(bs[j] == bs.drop_first()[j - 1]);
        }
    } else if bs.len() > 0 {
        assert forall|j: int| key_lower_bound(bs, key) <= j < bs.len() implies !key_lt(bs[j].0, key) by {
            if j > 0 {
                assert(key_lt(bs[0].0, bs[j].0));
            }
        }
    }
}

proof fn lemma_bucket_put(bs: Seq<((u32, u8), Bucket)>, key: (u32, u8), b: Bucket)
    requires
        keys_increasing(bs),
    ensures
        keys_increasing(bucket_put(bs, key, b)),
        bucket_put(bs, key, b).len() == bs.len() + if key_position(bs, key) is Some { 0int } else { 1int },
        forall|j: int| 0 <= j < bucket_put(bs, key, b).len() ==> (#[trigger] bucket_put(bs, key, b)[j]).0 == key
            || exists|k: int| 0 <= k < bs.len() && bs[k].0 == bucket_put(bs, key, b)[j].0,
{
    lemma_key_lower_bound_split(bs, key);
    let i = key_lower_bound(bs, key);
    let r = bucket_put(bs, key, b);
    if key_position(bs, key) is None {
        assert forall|x: int, y: int| 0 <= x < y < r.len() implies key_lt(r[x].0, r[y].0) by {
            if y < i {
            } else if y == i {
            } else if x < i {
                assert(r[y] == bs[y - 1]);
            } else if x == i {
                assert(r[y] == bs[y - 1]);
                if y - 1 == i {
                    assert(bs[i].0 != key);
                }
            } else {
                assert(r[x] == bs[x - 1]);
                assert(r[y] == bs[y - 1]);
            }
        }
        assert forall|j: int| 0 <= j < r.len() implies (#[trigger] r[j]).0 == key
            || exists|k: int| 0 <= k < bs.len() && bs[k].0 == r[j].0 by {
            if j < i {
                assert(r[j] == bs[j]);
            } else if j > i {
                assert(r[j] == bs[j - 1]);
            }
        }
    } else {
        assert forall|j: int| 0 <= j < r.len() implies (#[trigger] r[j]).0 == key
            || exists|k: int| 0 <= k < bs.len() && bs[k].0 == r[j].0 by {
            if j != i {
                assert(r[j] == bs[j]);
            }
        }
    }
}

/// The aggregator's state: buckets in key order and the pulses dropped
/// because the window was full.
pub struct AggregatorView {
    pub buckets: Seq<((u32, u8), Bucket)>,
    pub collector_drops: u64,
}

/// Aggregates kernel scheduler records into at most one pulse per lane CPU
/// and kind per window.
#[derive(Clone, Debug)]
pub struct SchedulerAggregator {
    buckets: Vec<((u32, u8), Bucket)>,
    collector_drops: u64,
}

impl View for SchedulerAggregator {
    type V = AggregatorView;

    closed spec fn view(&self) -> AggregatorView {
        AggregatorView { buckets: self.buckets@, collector_drops: self.collector_drops }
    }
}

/// A well-formed aggregator: keys in order, each with a pulse kind that is
/// not the heartbeat, at most the window's bound of them, magnitudes
/// within their cap.
pub open spec fn aggregator_wf(v: AggregatorView) -> bool {
    &&& keys_increasing(v.buckets)
    &&& v.buckets.len() <= MAX_PULSES_PER_WINDOW
    &&& forall|j: int| 0 <= j < v.buckets.len() ==> 1 <= (#[trigger] v.buckets[j]).0.1 <= 4
        && v.buckets[j].1.magnitude <= MAX_BUCKET_MAGNITUDE
}

/// One more record for a lane and kind: counted, its weight added up to
/// the cap, its endpoints the latest; a new bucket beyond the bound is
/// dropped and counted.
pub open spec fn add_pulse(
    v: AggregatorView,
    lane_cpu: u32,
    kind: PulseKind,
    source_cpu: u32,
    target_cpu: u32,
    origin_pid: u32,
    target_pid: u32,
    weight: u32,
) -> AggregatorView {
    let key = (lane_cpu, pulse_code(kind));
    let position = key_position(v.buckets, key);
    if position is None && v.buckets.len() >= MAX_PULSES_PER_WINDOW {
        AggregatorView { buckets: v.buckets, collector_drops: sat_add(v.collector_drops, 1) }
    } else {
        let previous = match position {
            Some(i) => v.buckets[i].1,
            None => empty_bucket(),
        };
        let b = Bucket {
            count: if previous.count == u32::MAX { u32::MAX } else { (previous.count + 1) as u32 },
            magnitude: if previous.magnitude + weight > MAX_BUCKET_MAGNITUDE {
                MAX_BUCKET_MAGNITUDE
            } else {
                (previous.magnitude + weight) as u32
            },
            source_cpu,
            target_cpu,
            origin_pid,
            target_pid,
        };
        AggregatorView { buckets: bucket_put(v.buckets, key, b), collector_drops: v.collector_drops }
    }
}

/// `a + b`, saturating at the largest `u64`.
pub open spec fn sat_add(a: u64, b: u64) -> u64 {
    if a + b > u64::MAX {
        u64::MAX
    } else {
        (a + b) as u64
    }
}

/// The CPU a wakeup lands on: the target, or the reporting CPU when the
/// target is unknown.
pub open spec fn landing_cpu(e: KernelSchedulerEvent) -> u32 {
    if e.target_cpu == UNKNOWN_CPU {
        e.cpu
    } else {
        e.target_cpu
    }
}

/// A kernel record aggregated: a switch on its CPU (weight 64), a wakeup
/// on the CPU it lands on (192), a migration both departing its source
/// (2048) and arriving at its target (1536).
pub open spec fn aggregate(v: AggregatorView, e: KernelSchedulerEvent) -> AggregatorView {
    match e.kind {
        SchedulerEventKind::Switch => add_pulse(v, e.cpu, PulseKind::Switch, e.cpu, e.cpu, e.previous_pid, e.next_pid, 64),
        SchedulerEventKind::Wakeup | SchedulerEventKind::WakeupNew => add_pulse(
            v,
            landing_cpu(e),
            PulseKind::Wakeup,
            e.cpu,
            landing_cpu(e),
            e.previous_pid,
            e.pid,
            192,
        ),
        SchedulerEventKind::Migrate => add_pulse(
            add_pulse(v, e.source_cpu, PulseKind::MigrateDepart, e.source_cpu, e.target_cpu, e.pid, 0, 2048),
            e.target_cpu,
            PulseKind::MigrateArrive,
            e.source_cpu,
            e.target_cpu,
            0,
            e.pid,
            1536,
        ),
    }
}

/// The pulse of one bucket.
pub open spec fn bucket_pulse(entry: ((u32, u8), Bucket), timestamp_ns: u64, kernel_ring_drops: u64, collector_drops: u64) -> NormalizedSchedulerPulse {
    NormalizedSchedulerPulse {
        timestamp_ns,
        kind: pulse_kind_for(entry.0.1).unwrap(),
        lane_cpu: entry.0.0,
        source_cpu: entry.1.source_cpu,
        target_cpu: entry.1.target_cpu,
        origin_pid: entry.1.origin_pid,
        target_pid: entry.1.target_pid,
        event_count: entry.1.count,
        magnitude_bits: binary64_of(entry.1.magnitude as nat),
        kernel_ring_drops,
        collector_drops,
    }
}

/// The heartbeat of an empty window.
pub open spec fn heartbeat_pulse(timestamp_ns: u64, kernel_ring_drops: u64, collector_drops: u64) -> NormalizedSchedulerPulse {
    NormalizedSchedulerPulse {
        timestamp_ns,
        kind: PulseKind::Heartbeat,
        lane_cpu: 0,
        source_cpu: UNKNOWN_CPU,
        target_cpu: UNKNOWN_CPU,
        origin_pid: 0,
        target_pid: 0,
        event_count: 0,
        magnitude_bits: 0,
        kernel_ring_drops,
        collector_drops,
    }
}

/// The pulses a window flushes: one per bucket in key order, or a single
/// heartbeat when nothing was aggregated.
pub open spec fn flushed_pulses(v: AggregatorView, timestamp_ns: u64, kernel_ring_drops: u64) -> Seq<NormalizedSchedulerPulse> {
    if v.buckets.len() == 0 {
        seq![heartbeat_pulse(timestamp_ns, kernel_ring_drops, v.collector_drops)]
    } else {
        v.buckets.map_values(|e: ((u32, u8), Bucket)| bucket_pulse(e, timestamp_ns, kernel_ring_drops, v.collector_drops))
    }
}

impl SchedulerAggregator {
    /// An empty aggregator.
    pub fn new() -> (a: SchedulerAggregator)
        ensures
            aggregator_wf(a@),
            a@.buckets.len() == 0,
            a@.collector_drops == 0,
    {
        SchedulerAggregator { buckets: Vec::new(), collector_drops: 0 }
    }

    /// Adds one record's weight to the bucket of its lane and kind.
    fn add(
        &mut self,
        lane_cpu: u32,
        kind: PulseKind,
        source_cpu: u32,
        target_cpu: u32,
        origin_pid: u32,
        target_pid: u32,
        weight: u32,
    )
        requires
            aggregator_wf(old(self)@),
            kind != PulseKind::Heartbeat,
        ensures
            aggregator_wf(final(self)@),
            final(self)@ == add_pulse(old(self)@, lane_cpu, kind, source_cpu, target_cpu, origin_pid, target_pid, weight),
    {
        let key = (lane_cpu, kind.code());
        let mut i: usize = 0;
        while i < self.buckets.len() && key_lt_exec(self.buckets[i].0, key)
            invariant
                i <= self.buckets.len(),
                forall|j: int| 0 <= j < i ==> key_lt(self.buckets@[j].0, key),
            decreases self.buckets.len() - i,
        {
            i = i + 1;
        }
        proof {
            lemma_key_lower_bound_at(self.buckets@, key, i as int);
            lemma_key_lower_bound_split(self.buckets@, key);
        }
        let present = i < self.buckets.len() && self.buckets[i].0.0 == key.0 && self.buckets[i].0.1 == key.1;
        if !present && self.buckets.len() >= MAX_PULSES_PER_WINDOW {
            self.collector_drops = self.collector_drops.saturating_add(1);
            return;
        }
        let previous = if present {
            self.buckets[i].1
        } else {
            Bucket { count: 0, magnitude: 0, source_cpu: 0, target_cpu: 0, origin_pid: 0, target_pid: 0 }
        };
        let sum: u64 = previous.magnitude as u64 + weight as u64;
        let b = Bucket {
            count: previous.count.saturating_add(1),
            magnitude: if sum > MAX_BUCKET_MAGNITUDE as u64 { MAX_BUCKET_MAGNITUDE } else { sum as u32 },
            source_cpu,
            target_cpu,
            origin_pid,
            target_pid,
        };
        let ghost before = self.buckets@;
        if present {
            self.buckets.set(i, (key, b));
        } else {
            self.buckets.insert(i, (key, b));
        }
        proof {
            lemma_bucket_put(before, key, b);
            let r = self.buckets@;
            assert(r == bucket_put(before, key, b));
            assert forall|j: int| 0 <= j < r.len() implies 1 <= (#[trigger] r[j]).0.1 <= 4
                && r[j].1.magnitude <= MAX_BUCKET_MAGNITUDE by {
                if r[j].0 != key {
                    let k = choose|k: int| 0 <= k < before.len() && before[k].0 == r[j].0;
                    assert(before[k].0.1 >= 1);
                }
                if present {
                    if j != i {
                        assert(r[j] == before[j]);
                    }
                } else if j < i {
                    assert(r[j] == before[j]);
                } else if j > i {
                    assert(r[j] == before[j - 1]);
                }
            }
        }
    }

    /// Aggregates one kernel record.
    pub fn ingest(&mut self, event: KernelSchedulerEvent)
        requires
            aggregator_wf(old(self)@),
        ensures
            aggregator_wf(final(self)@),
            final(self)@ == aggregate(old(self)@, event),
    {
        match event.kind {
            SchedulerEventKind::Switch => self.add(
                event.cpu,
                PulseKind::Switch,
                event.cpu,
                event.cpu,
                event.previous_pid,
                event.next_pid,
                64,
            ),
            SchedulerEventKind::Wakeup | SchedulerEventKind::WakeupNew => {
                let target = if event.target_cpu == UNKNOWN_CPU { event.cpu } else { event.target_cpu };
                self.add(target, PulseKind::Wakeup, event.cpu, target, event.previous_pid, event.pid, 192);
            },
            SchedulerEventKind::Migrate => {
                self.add(
                    event.source_cpu,
                    PulseKind::MigrateDepart,
                    event.source_cpu,
                    event.target_cpu,
                    event.pid,
                    0,
                    2_048,
                );
                self.add(
                    event.target_cpu,
                    PulseKind::MigrateArrive,
                    event.source_cpu,
                    event.target_cpu,
                    0,
                    event.pid,
                    1_536,
                );
            },
        }
    }

    /// Ends the window: the pulses of its buckets in key order (or one
    /// heartbeat), after which the buckets are empty; dropped-pulse counts
    /// carry on.
    pub fn flush(&mut self, timestamp_ns: u64, kernel_ring_drops: u64) -> (pulses: Vec<NormalizedSchedulerPulse>)
        requires
            aggregator_wf(old(self)@),
        ensures
            aggregator_wf(final(self)@),
            pulses@ == flushed_pulses(old(self)@, timestamp_ns, kernel_ring_drops),
            final(self)@.buckets.len() == 0,
            final(self)@.collector_drops == old(self)@.collector_drops,
    {
        let mut pulses: Vec<NormalizedSchedulerPulse> = Vec::new();
        if self.buckets.len() == 0 {
            pulses.push(
                NormalizedSchedulerPulse {
                    timestamp_ns,
                    kind: PulseKind::Heartbeat,
                    lane_cpu: 0,
                    source_cpu: UNKNOWN_CPU,
                    target_cpu: UNKNOWN_CPU,
                    origin_pid: 0,
                    target_pid: 0,
                    event_count: 0,
                    magnitude_bits: 0,
                    kernel_ring_drops,
                    collector_drops: self.collector_drops,
                },
            );
            proof {
                assert(pulses@ =~= flushed_pulses(self@, timestamp_ns, kernel_ring_drops));
            }
            return pulses;
        }
        let ghost bs = self.buckets@;
        let drops = self.collector_drops;
        let mut i: usize = 0;
        while i < self.buckets.len()
            invariant
                i <= self.buckets.len(),
                bs == self.buckets@,
                drops == self.collector_drops,
                aggregator_wf(self@),
                pulses@ == bs.take(i as int).map_values(
                    |e: ((u32, u8), Bucket)| bucket_pulse(e, timestamp_ns, kernel_ring_drops, drops),
                ),
            decreases self.buckets.len() - i,
        {
            let (key, b) = self.buckets[i];
            let kind = match PulseKind::from_code(key.1) {
                Ok(k) => k,
                Err(_) => PulseKind::Heartbeat,
            };
            pulses.push(
                NormalizedSchedulerPulse {
                    timestamp_ns,
                    kind,
                    lane_cpu: key.0,
                    source_cpu: b.source_cpu,
                    target_cpu: b.target_cpu,
                    origin_pid: b.origin_pid,
                    target_pid: b.target_pid,
                    event_count: b.count,
                    magnitude_bits: double_bits_of(b.magnitude as u64),
                    kernel_ring_drops,
                    collector_drops: drops,
                },
            );
            proof {
                assert(bs.take(i + 1) =~= bs.take(i as int).push(bs[i as int]));
                assert(pulses@ =~= bs.take(i + 1).map_values(
                    |e: ((u32, u8), Bucket)| bucket_pulse(e, timestamp_ns, kernel_ring_drops, drops),
                ));
            }
            i = i + 1;
        }
        proof {
            assert(bs.take(bs.len() as int) =~= bs);
        }
        self.buckets = Vec::new();
        pulses
    }

    /// How many buckets the window holds.
    pub fn bucket_count(&self) -> (n: usize)
        ensures
            n == self@.buckets.len(),
    {
        self.buckets.len()
    }
}

impl Default for SchedulerAggregator {
    fn default() -> (a: Self)
        ensures
            aggregator_wf(a@),
            a@.buckets.len() == 0,
            a@.collector_drops == 0,
    {
        SchedulerAggregator::new()
    }
}

/// Is bucket key `a` below `b`?
fn key_lt_exec(a: (u32, u8), b: (u32, u8)) -> (r: bool)
    ensures
        r == key_lt(a, b),
{
    a.0 < b.0 || (a.0 == b.0 && a.1 < b.1)
}

/// The identity of a pulse endpoint: the task when its pid is known, else
/// the CPU when known, else none.
pub open spec fn pulse_identity(pid: u32, cpu: u32) -> Option<Seq<char>> {
    if pid != 0 {
        Some(task_name(pid as nat))
    } else if cpu != UNKNOWN_CPU {
        Some(cpu_name(cpu as nat))
    } else {
        None
    }
}

/// The category, direction and migration phase of a pulse kind.
pub open spec fn pulse_meaning(k: PulseKind) -> (Seq<char>, Direction, Option<Seq<char>>) {
    match k {
        PulseKind::Switch => ("sched.switch"@, Direction::Neutral, None),
        PulseKind::Wakeup => ("sched.wakeup"@, Direction::Inbound, None),
        PulseKind::MigrateDepart => ("sched.migrate"@, Direction::Outbound, Some("depart"@)),
        _ => ("sched.migrate"@, Direction::Inbound, Some("arrive"@)),
    }
}

/// The event a pulse materializes into: none for a heartbeat; otherwise
/// the lane's CPU, counts and endpoints as labels, an arrival counting no
/// events of its own.
pub open spec fn pulse_event(p: NormalizedSchedulerPulse) -> Option<EventView> {
    if p.kind == PulseKind::Heartbeat {
        None
    } else {
        let (category, direction, phase) = pulse_meaning(p.kind);
        let labels = Map::<Seq<char>, Seq<char>>::empty().insert("cpu"@, decimal(p.lane_cpu as nat)).insert(
            "synesthesia.lane"@,
            cpu_name(p.lane_cpu as nat),
        ).insert("event_count"@, decimal(p.event_count as nat)).insert(
            "source_cpu"@,
            decimal(p.source_cpu as nat),
        ).insert("target_cpu"@, decimal(p.target_cpu as nat)).insert("scheduler_kind"@, category).insert(
            "synesthesia.event_count"@,
            if p.kind == PulseKind::MigrateArrive { "0"@ } else { decimal(p.event_count as nat) },
        );
        Some(
            EventView {
                v: SCHEMA_VERSION,
                timestamp: Some(Quantity::Ratio { numerator: p.timestamp_ns, denominator: NANOS_PER_SECOND }),
                category,
                origin: pulse_identity(p.origin_pid, p.source_cpu),
                target: pulse_identity(p.target_pid, p.target_cpu),
                magnitude: Quantity::Double { bits: p.magnitude_bits },
                direction,
                labels: match phase {
                    Some(ph) => labels.insert("migration_phase"@, ph),
                    None => labels,
                },
            },
        )
    }
}

/// The identity of a pulse endpoint.
fn endpoint_identity(pid: u32, cpu: u32) -> (r: Option<String>)
    ensures
        match r {
            Some(s) => pulse_identity(pid, cpu) == Some(s@),
            None => pulse_identity(pid, cpu) is None,
        },
{
    if pid != 0 {
        Some(task_identity(pid))
    } else if cpu != UNKNOWN_CPU {
        Some(cpu_identity(cpu))
    } else {
        None
    }
}

/// The view of an optional event.
pub open spec fn opt_event_view(e: Option<NormalizedEvent>) -> Option<EventView> {
    match e {
        Some(x) => Some(x@),
        None => None,
    }
}

impl NormalizedSchedulerPulse {
    /// The normalized event of a pulse; heartbeats have none.
    pub fn into_normalized(self) -> (e: Option<NormalizedEvent>)
        ensures
            opt_event_view(e) == pulse_event(self),
    {
        if self.kind == PulseKind::Heartbeat {
            return None;
        }
        let (category, direction, phase): (&str, Direction, Option<&str>) = match self.kind {
            PulseKind::Switch => ("sched.switch", Direction::Neutral, None),
            PulseKind::Wakeup => ("sched.wakeup", Direction::Inbound, None),
            PulseKind::MigrateDepart => ("sched.migrate", Direction::Outbound, Some("depart")),
            _ => ("sched.migrate", Direction::Inbound, Some("arrive")),
        };
        let mut labels = Labels::new();
        labels.insert_str("cpu", u64_text(self.lane_cpu as u64));
        labels.insert_str("synesthesia.lane", cpu_identity(self.lane_cpu));
        labels.insert_str("event_count", u64_text(self.event_count as u64));
        labels.insert_str("source_cpu", u64_text(self.source_cpu as u64));
        labels.insert_str("target_cpu", u64_text(self.target_cpu as u64));
        labels.insert_str("scheduler_kind", String::from_str(category));
        labels.insert_str(
            "synesthesia.event_count",
            if self.kind == PulseKind::MigrateArrive {
                String::from_str("0")
            } else {
                u64_text(self.event_count as u64)
            },
        );
        match phase {
            Some(ph) => labels.insert_str("migration_phase", String::from_str(ph)),
            None => {},
        }
        let origin = endpoint_identity(self.origin_pid, self.source_cpu);
        let target = endpoint_identity(self.target_pid, self.target_cpu);
        let e = NormalizedEvent {
            v: SCHEMA_VERSION,
            timestamp: Some(Quantity::Ratio { numerator: self.timestamp_ns, denominator: NANOS_PER_SECOND }),
            category: String::from_str(category),
            origin,
            target,
            magnitude: Quantity::Double { bits: self.magnitude_bits },
            direction,
            labels,
        };
        proof {
            assert(opt_event_view(Some(e)) == pulse_event(self));
        }
        Some(e)
    }
}


/// Records counted by an aggregator: those in its buckets and those whose
/// pulses were dropped.
pub open spec fn records_counted(v: AggregatorView) -> nat {
    bucket_total(v.buckets) + v.collector_drops as nat
}

/// The records counted in a window's buckets.
pub open spec fn bucket_total(bs: Seq<((u32, u8), Bucket)>) -> nat
    decreases bs.len(),
{
    if bs.len() == 0 {
        0
    } else {
        bucket_total(bs.drop_last()) + bs.last().1.count as nat
    }
}

proof fn lemma_total_update(bs: Seq<((u32, u8), Bucket)>, i: int, x: ((u32, u8), Bucket))
    requires
        0 <= i < bs.len(),
    ensures
        bucket_total(bs.update(i, x)) + bs[i].1.count == bucket_total(bs) + x.1.count,
    decreases bs.len(),
{
    if i == bs.len() - 1 {
        assert(bs.update(i, x).drop_last() =~= bs.drop_last());
    } else {
        lemma_total_update(bs.drop_last(), i, x);
        assert(bs.update(i, x).drop_last() =~= bs.drop_last().update(i, x));
    }
}

proof fn lemma_total_insert(bs: Seq<((u32, u8), Bucket)>, i: int, x: ((u32, u8), Bucket))
    requires
        0 <= i <= bs.len(),
    ensures
        bucket_total(bs.insert(i, x)) == bucket_total(bs) + x.1.count,
    decreases bs.len(),
{
    if i == bs.len() {
        assert(bs.insert(i, x).drop_last() =~= bs);
    } else {
        lemma_total_insert(bs.drop_last(), i, x);
        assert(bs.insert(i, x).drop_last() =~= bs.drop_last().insert(i, x));
    }
}

/// Every bucket counts at most `bound` records.
pub open spec fn counts_within(bs: Seq<((u32, u8), Bucket)>, bound: nat) -> bool {
    forall|j: int| 0 <= j < bs.len() ==> (#[trigger] bs[j]).1.count <= bound
}

proof fn lemma_add_pulse_counts(
    v: AggregatorView,
    lane_cpu: u32,
    kind: PulseKind,
    source_cpu: u32,
    target_cpu: u32,
    origin_pid: u32,
    target_pid: u32,
    weight: u32,
    bound: nat,
)
    requires
        aggregator_wf(v),
        counts_within(v.buckets, bound),
        bound < u32::MAX,
        v.collector_drops < u64::MAX,
    ensures
        ({
            let w = add_pulse(v, lane_cpu, kind, source_cpu, target_cpu, origin_pid, target_pid, weight);
            &&& records_counted(w) == records_counted(v) + 1
            &&& counts_within(w.buckets, bound + 1)
        }),
{
    let key = (lane_cpu, pulse_code(kind));
    lemma_key_lower_bound_split(v.buckets, key);
    let w = add_pulse(v, lane_cpu, kind, source_cpu, target_cpu, origin_pid, target_pid, weight);
    let position = key_position(v.buckets, key);
    if position is None && v.buckets.len() >= MAX_PULSES_PER_WINDOW {
    } else {
        let previous = match position {
            Some(i) => v.buckets[i].1,
            None => empty_bucket(),
        };
        let b = w.buckets[key_lower_bound(v.buckets, key)];
        match position {
            Some(i) => {
                lemma_total_update(v.buckets, i, (key, b.1));
                assert(w.buckets == v.buckets.update(i, (key, b.1)));
                assert forall|j: int| 0 <= j < w.buckets.len() implies (#[trigger] w.buckets[j]).1.count <= bound + 1 by {
                    if j != i {
                        assert(w.buckets[j] == v.buckets[j]);
                    }
                }
            },
            None => {
                let at = key_lower_bound(v.buckets, key);
                lemma_total_insert(v.buckets, at, (key, b.1));
                assert(w.buckets == v.buckets.insert(at, (key, b.1)));
                assert forall|j: int| 0 <= j < w.buckets.len() implies (#[trigger] w.buckets[j]).1.count <= bound + 1 by {
                    if j < at {
                        assert(w.buckets[j] == v.buckets[j]);
                    } else if j > at {
                        assert(w.buckets[j] == v.buckets[j - 1]);
                    }
                }
            },
        }
    }
}

proof fn lemma_add_pulse_preserves_wf(
    v: AggregatorView,
    lane_cpu: u32,
    kind: PulseKind,
    source_cpu: u32,
    target_cpu: u32,
    origin_pid: u32,
    target_pid: u32,
    weight: u32,
)
    requires
        aggregator_wf(v),
        kind != PulseKind::Heartbeat,
    ensures
        aggregator_wf(add_pulse(v, lane_cpu, kind, source_cpu, target_cpu, origin_pid, target_pid, weight)),
{
    let key = (lane_cpu, pulse_code(kind));
    let position = key_position(v.buckets, key);
    if !(position is None && v.buckets.len() >= MAX_PULSES_PER_WINDOW) {
        let w = add_pulse(v, lane_cpu, kind, source_cpu, target_cpu, origin_pid, target_pid, weight);
        lemma_key_lower_bound_split(v.buckets, key);
        let i = key_lower_bound(v.buckets, key);
        let b = w.buckets[i].1;
        lemma_bucket_put(v.buckets, key, b);
        assert(w.buckets == bucket_put(v.buckets, key, b));
        let r = w.buckets;
        assert forall|j: int| 0 <= j < r.len() implies 1 <= (#[trigger] r[j]).0.1 <= 4 && r[j].1.magnitude
            <= MAX_BUCKET_MAGNITUDE by {
            if position is Some {
                if j != i {
                    assert(r[j] == v.buckets[j]);
                }
            } else if j < i {
                assert(r[j] == v.buckets[j]);
            } else if j > i {
                assert(r[j] == v.buckets[j - 1]);
            }
        }
    }
}

/// Law: no record is lost silently: each record the aggregator takes is
/// counted, once for a switch or a wakeup and twice for a migration (its
/// departure and its arrival), either in a bucket or as a dropped pulse.
/// Counters that are about to saturate are left out.
pub proof fn law_aggregation_counts_every_record(v: AggregatorView, e: KernelSchedulerEvent)
    requires
        aggregator_wf(v),
        counts_within(v.buckets, (u32::MAX - 2) as nat),
        v.collector_drops < u64::MAX - 1,
    ensures
        records_counted(aggregate(v, e)) == records_counted(v) + if e.kind is Migrate { 2nat } else { 1nat },
{
    let bound = (u32::MAX - 2) as nat;
    match e.kind {
        SchedulerEventKind::Switch => {
            lemma_add_pulse_counts(v, e.cpu, PulseKind::Switch, e.cpu, e.cpu, e.previous_pid, e.next_pid, 64, bound);
        },
        SchedulerEventKind::Wakeup | SchedulerEventKind::WakeupNew => {
            lemma_add_pulse_counts(
                v,
                landing_cpu(e),
                PulseKind::Wakeup,
                e.cpu,
                landing_cpu(e),
                e.previous_pid,
                e.pid,
                192,
                bound,
            );
        },
        SchedulerEventKind::Migrate => {
            let first = add_pulse(v, e.source_cpu, PulseKind::MigrateDepart, e.source_cpu, e.target_cpu, e.pid, 0, 2048);
            lemma_add_pulse_counts(
                v,
                e.source_cpu,
                PulseKind::MigrateDepart,
                e.source_cpu,
                e.target_cpu,
                e.pid,
                0,
                2048,
                bound,
            );
            lemma_add_pulse_preserves_wf(v, e.source_cpu, PulseKind::MigrateDepart, e.source_cpu, e.target_cpu, e.pid, 0, 2048);
            lemma_add_pulse_counts(
                first,
                e.target_cpu,
                PulseKind::MigrateArrive,
                e.source_cpu,
                e.target_cpu,
                0,
                e.pid,
                1536,
                bound + 1,
            );
        },
    }
}

/// The message of a refused pulse; for a failed read, its beginning (the
/// rest is the operating system's description).
pub open spec fn scheduler_wire_text(e: SchedulerWireError) -> Seq<char> {
    match e {
        SchedulerWireError::WrongSize(n) => "scheduler helper record has "@ + decimal(n as nat) + " bytes; expected 64"@,
        SchedulerWireError::BadMagic => "scheduler helper record has invalid magic"@,
        SchedulerWireError::UnsupportedVersion(v) => "unsupported scheduler helper protocol version "@ + decimal(v as nat),
        SchedulerWireError::UnsupportedKind(k) => "unsupported scheduler pulse kind "@ + decimal(k as nat),
        SchedulerWireError::Truncated(n) => "scheduler helper stream ended after "@ + decimal(n as nat) + " bytes of a record"@,
        SchedulerWireError::Io(_) => "scheduler helper I/O failed: "@,
    }
}

impl SchedulerWireError {
    /// The human-readable description of the error.
    pub fn message(&self) -> (s: String)
        ensures
            self is Io ==> starts_with(s@, scheduler_wire_text(*self)),
            !(self is Io) ==> s@ == scheduler_wire_text(*self),
    {
        match self {
            SchedulerWireError::WrongSize(n) => around_number("scheduler helper record has ", *n as u64, " bytes; expected 64"),
            SchedulerWireError::BadMagic => String::from_str("scheduler helper record has invalid magic"),
            SchedulerWireError::UnsupportedVersion(v) => with_number("unsupported scheduler helper protocol version ", *v as u64),
            SchedulerWireError::UnsupportedKind(k) => with_number("unsupported scheduler pulse kind ", *k as u64),
            SchedulerWireError::Truncated(n) => around_number("scheduler helper stream ended after ", *n as u64, " bytes of a record"),
            SchedulerWireError::Io(e) => {
                let detail = io_error_text(e);
                let s = concat2("scheduler helper I/O failed: ", detail.as_str());
                proof {
                    assert(s@.subrange(0, scheduler_wire_text(*self).len() as int) =~= scheduler_wire_text(*self));
                }
                s
            },
        }
    }
}

} // verus!
