//! The binary protocol between the TCP collector and the launcher: fixed
//! 96-byte pulses, and the aggregation of kernel records into one pulse
//! per flow and pathology per window.
use vstd::prelude::*;

use vstd::bytes::{
    spec_u16_to_le_bytes, spec_u32_to_le_bytes, spec_u64_to_le_bytes, u16_to_le_bytes,
    u32_to_le_bytes, u64_to_le_bytes,
};

use crate::event::{binary64_of, double_bits_of, Direction, NormalizedEvent, Quantity, SCHEMA_VERSION};
use crate::source::scheduler::NANOS_PER_SECOND;
use crate::source::scheduler_ipc::has_magic;
use crate::source::tcp::{
    family_for_number, family_label, flow_lane_text, pathology_category, read_address,
    KernelTcpEvent, TcpAddressFamily, TcpPathologyKind, AF_INET, AF_INET6,
};
use crate::source::{le_u16, le_u32, le_u64, read_u16, read_u32, read_u64};
use crate::text::{around_number, concat2, decimal, io_error_text, starts_with, u64_text, with_number};

verus! {

/// Size of one TCP pulse on the wire.
pub const TCP_WIRE_BYTES: usize = 96;

/// Protocol version of TCP pulses.
pub const TCP_WIRE_VERSION: u16 = 1;

/// Buckets kept per window; records for more flows are counted as dropped.
pub const MAX_TCP_BUCKETS_PER_WINDOW: usize = 1_024;

/// The record magic, `SYNT`.
pub const TCP_WIRE_MAGIC: [u8; 4] = [0x53, 0x59, 0x4e, 0x54];

/// The record magic as a sequence.
pub open spec fn tcp_wire_magic() -> Seq<u8> {
    seq![0x53u8, 0x59u8, 0x4eu8, 0x54u8]
}

/// Kinds of TCP pulses.
#[derive(Clone, Copy, Debug, PartialEq, Eq, Structural)]
pub enum TcpPulseKind {
    Heartbeat,
    Retransmit,
    ResetSent,
    ResetReceived,
}

/// The wire code of a TCP pulse kind.
pub open spec fn tcp_pulse_code(k: TcpPulseKind) -> u8 {
    match k {
        TcpPulseKind::Heartbeat => 0,
        TcpPulseKind::Retransmit => 1,
        TcpPulseKind::ResetSent => 2,
        TcpPulseKind::ResetReceived => 3,
    }
}

/// The TCP pulse kind of a wire code.
pub open spec fn tcp_pulse_kind_for(code: u8) -> Option<TcpPulseKind> {
    if code == 0 {
        Some(TcpPulseKind::Heartbeat)
    } else if code == 1 {
        Some(TcpPulseKind::Retransmit)
    } else if code == 2 {
        Some(TcpPulseKind::ResetSent)
    } else if code == 3 {
        Some(TcpPulseKind::ResetReceived)
    } else {
        None
    }
}

/// The pulse kind of a pathology.
pub open spec fn kind_of_pathology(p: TcpPathologyKind) -> TcpPulseKind {
    match p {
        TcpPathologyKind::Retransmit => TcpPulseKind::Retransmit,
        TcpPathologyKind::ResetSent => TcpPulseKind::ResetSent,
        TcpPathologyKind::ResetReceived => TcpPulseKind::ResetReceived,
    }
}

/// The pathology of a pulse kind; heartbeats have none.
pub open spec fn pathology_of_kind(k: TcpPulseKind) -> Option<TcpPathologyKind> {
    match k {
        TcpPulseKind::Heartbeat => None,
        TcpPulseKind::Retransmit => Some(TcpPathologyKind::Retransmit),
        TcpPulseKind::ResetSent => Some(TcpPathologyKind::ResetSent),
        TcpPulseKind::ResetReceived => Some(TcpPathologyKind::ResetReceived),
    }
}

/// Why a TCP pulse is refused.
#[derive(Debug)]
pub enum TcpWireError {
    WrongSize(usize),
    BadMagic,
    UnsupportedVersion(u16),
    UnsupportedKind(u8),
    UnsupportedFamily(u8),
    Truncated(usize),
    Io(std::io::Error),
}

impl TcpPulseKind {
    /// The kind for a wire code, or `UnsupportedKind`.
    pub fn from_code(value: u8) -> (r: Result<TcpPulseKind, TcpWireError>)
        ensures
            match tcp_pulse_kind_for(value) {
                Some(k) => r matches Ok(x) && x == k,
                None => r matches Err(TcpWireError::UnsupportedKind(v)) && v == value,
            },
    {
        match value {
            0 => Ok(TcpPulseKind::Heartbeat),
            1 => Ok(TcpPulseKind::Retransmit),
            2 => Ok(TcpPulseKind::ResetSent),
            3 => Ok(TcpPulseKind::ResetReceived),
            _ => Err(TcpWireError::UnsupportedKind(value)),
        }
    }

    /// The wire code of the kind.
    pub fn code(self) -> (c: u8)
        ensures
            c == tcp_pulse_code(self),
    {
        match self {
            TcpPulseKind::Heartbeat => 0,
            TcpPulseKind::Retransmit => 1,
            TcpPulseKind::ResetSent => 2,
            TcpPulseKind::ResetReceived => 3,
        }
    }

    /// The pulse kind of a pathology.
    pub fn from_pathology(value: TcpPathologyKind) -> (k: TcpPulseKind)
        ensures
            k == kind_of_pathology(value),
    {
        match value {
            TcpPathologyKind::Retransmit => TcpPulseKind::Retransmit,
            TcpPathologyKind::ResetSent => TcpPulseKind::ResetSent,
            TcpPathologyKind::ResetReceived => TcpPulseKind::ResetReceived,
        }
    }

    /// The pathology of the kind; heartbeats have none.
    pub fn pathology(self) -> (p: Option<TcpPathologyKind>)
        ensures
            p == pathology_of_kind(self),
    {
        match self {
            TcpPulseKind::Heartbeat => None,
            TcpPulseKind::Retransmit => Some(TcpPathologyKind::Retransmit),
            TcpPulseKind::ResetSent => Some(TcpPathologyKind::ResetSent),
            TcpPulseKind::ResetReceived => Some(TcpPathologyKind::ResetReceived),
        }
    }
}

/// The wire number of an address family.
pub open spec fn family_number_of(f: TcpAddressFamily) -> u8 {
    match f {
        TcpAddressFamily::Ipv4 => AF_INET,
        TcpAddressFamily::Ipv6 => AF_INET6,
    }
}

/// The wire number of an address family.
pub fn family_number(family: TcpAddressFamily) -> (n: u8)
    ensures
        n == family_number_of(family),
{
    match family {
        TcpAddressFamily::Ipv4 => AF_INET,
        TcpAddressFamily::Ipv6 => AF_INET6,
    }
}

/// The address family of a wire number, or `UnsupportedFamily`.
pub fn decode_family(value: u8) -> (r: Result<TcpAddressFamily, TcpWireError>)
    ensures
        match family_for_number(value) {
            Some(f) => r matches Ok(x) && x == f,
            None => r matches Err(TcpWireError::UnsupportedFamily(v)) && v == value,
        },
{
    if value == AF_INET {
        Ok(TcpAddressFamily::Ipv4)
    } else if value == AF_INET6 {
        Ok(TcpAddressFamily::Ipv6)
    } else {
        Err(TcpWireError::UnsupportedFamily(value))
    }
}

/// One aggregated TCP pulse. The magnitude is carried as the bit pattern
/// of a binary64 value, exactly as the wire holds it.
#[derive(Clone, Copy, Debug, PartialEq, Eq)]
pub struct NormalizedTcpPulse {
    pub timestamp_ns: u64,
    pub kind: TcpPulseKind,
    pub family: TcpAddressFamily,
    pub source_port: u16,
    pub destination_port: u16,
    pub event_count: u32,
    pub cpu: u32,
    pub socket_state: u32,
    pub source_address: [u8; 16],
    pub destination_address: [u8; 16],
    pub magnitude_bits: u64,
    pub kernel_ring_drops: u64,
    pub collector_drops: u64,
    pub ipc_drops: u64,
}

/// The wire bytes of a TCP pulse: magic, version, kind, family, then the
/// fields in order, numbers little-endian and addresses as they are.
pub open spec fn tcp_pulse_bytes(p: NormalizedTcpPulse) -> Seq<u8> {
    tcp_wire_magic() + spec_u16_to_le_bytes(TCP_WIRE_VERSION) + seq![
        tcp_pulse_code(p.kind),
        family_number_of(p.family),
    ] + spec_u64_to_le_bytes(p.timestamp_ns) + spec_u16_to_le_bytes(p.source_port)
        + spec_u16_to_le_bytes(p.destination_port) + spec_u32_to_le_bytes(p.event_count)
        + spec_u32_to_le_bytes(p.cpu) + spec_u32_to_le_bytes(p.socket_state) + p.source_address@
        + p.destination_address@ + spec_u64_to_le_bytes(p.magnitude_bits) + spec_u64_to_le_bytes(
        p.kernel_ring_drops,
    ) + spec_u64_to_le_bytes(p.collector_drops) + spec_u64_to_le_bytes(p.ipc_drops)
}

/// Bytes that decode: the right size, magic, version, kind and family.
pub open spec fn tcp_pulse_valid(b: Seq<u8>) -> bool {
    &&& b.len() == TCP_WIRE_BYTES
    &&& b.subrange(0, 4) == tcp_wire_magic()
    &&& le_u16(b, 4) == TCP_WIRE_VERSION
    &&& tcp_pulse_kind_for(b[6]) is Some
    &&& family_for_number(b[7]) is Some
}

/// The pulse decoded from valid bytes, field by field.
pub open spec fn tcp_pulse_decodes_to(q: NormalizedTcpPulse, b: Seq<u8>) -> bool {
    &&& q.timestamp_ns == le_u64(b, 8)
    &&& q.kind == tcp_pulse_kind_for(b[6]).unwrap()
    &&& q.family == family_for_number(b[7]).unwrap()
    &&& q.source_port == le_u16(b, 16)
    &&& q.destination_port == le_u16(b, 18)
    &&& q.event_count == le_u32(b, 20)
    &&& q.cpu == le_u32(b, 24)
    &&& q.socket_state == le_u32(b, 28)
    &&& q.source_address@ == b.subrange(32, 48)
    &&& q.destination_address@ == b.subrange(48, 64)
    &&& q.magnitude_bits == le_u64(b, 64)
    &&& q.kernel_ring_drops == le_u64(b, 72)
    &&& q.collector_drops == le_u64(b, 80)
    &&& q.ipc_drops == le_u64(b, 88)
}

/// Appends bytes to a record.
fn put_bytes(out: &mut Vec<u8>, bytes: Vec<u8>)
    ensures
        final(out)@ == old(out)@ + bytes@,
{
    let mut bytes = bytes;
    out.append(&mut bytes);
}

/// Appends an address to a record.
fn put_address(out: &mut Vec<u8>, a: [u8; 16])
    ensures
        final(out)@ == old(out)@ + a@,
{
    let ghost start = out@;
    let mut i: usize = 0;
    while i < 16
        invariant
            i <= 16,
            a@.len() == 16,
            out@ == start + a@.subrange(0, i as int),
        decreases 16 - i,
    {
        out.push(a[i]);
        proof {
            assert(a@.subrange(0, i + 1) =~= a@.subrange(0, i as int).push(a@[i as int]));
        }
        i = i + 1;
    }
    proof {
        assert(a@.subrange(0, 16) =~= a@);
    }
}

/// Every TCP pulse survives encoding and decoding: its bytes are valid and
/// decode to its own fields.
pub proof fn law_tcp_pulse_round_trip(p: NormalizedTcpPulse)
    ensures
        tcp_pulse_valid(tcp_pulse_bytes(p)),
        tcp_pulse_decodes_to(p, tcp_pulse_bytes(p)),
{
    vstd::bytes::lemma_auto_spec_u16_to_from_le_bytes();
    vstd::bytes::lemma_auto_spec_u32_to_from_le_bytes();
    vstd::bytes::lemma_auto_spec_u64_to_from_le_bytes();
    let b = tcp_pulse_bytes(p);
    assert(p.source_address@.len() == 16);
    assert(p.destination_address@.len() == 16);
    assert(b.len() == 96);
    assert(b.subrange(0, 4) =~= tcp_wire_magic());
    assert(b.subrange(4, 6) =~= spec_u16_to_le_bytes(TCP_WIRE_VERSION));
    assert(b[6] == tcp_pulse_code(p.kind));
    assert(b[7] == family_number_of(p.family));
    assert(b.subrange(8, 16) =~= spec_u64_to_le_bytes(p.timestamp_ns));
    assert(b.subrange(16, 18) =~= spec_u16_to_le_bytes(p.source_port));
    assert(b.subrange(18, 20) =~= spec_u16_to_le_bytes(p.destination_port));
    assert(b.subrange(20, 24) =~= spec_u32_to_le_bytes(p.event_count));
    assert(b.subrange(24, 28) =~= spec_u32_to_le_bytes(p.cpu));
    assert(b.subrange(28, 32) =~= spec_u32_to_le_bytes(p.socket_state));
    assert(b.subrange(32, 48) =~= p.source_address@);
    assert(b.subrange(48, 64) =~= p.destination_address@);
    assert(b.subrange(64, 72) =~= spec_u64_to_le_bytes(p.magnitude_bits));
    assert(b.subrange(72, 80) =~= spec_u64_to_le_bytes(p.kernel_ring_drops));
    assert(b.subrange(80, 88) =~= spec_u64_to_le_bytes(p.collector_drops));
    assert(b.subrange(88, 96) =~= spec_u64_to_le_bytes(p.ipc_drops));
}

impl NormalizedTcpPulse {
    /// The 96 wire bytes of the pulse.
    pub fn encode(&self) -> (bytes: Vec<u8>)
        ensures
            bytes@ == tcp_pulse_bytes(*self),
            bytes@.len() == TCP_WIRE_BYTES,
    {
        proof {
            vstd::bytes::lemma_auto_spec_u16_to_from_le_bytes();
            vstd::bytes::lemma_auto_spec_u32_to_from_le_bytes();
            vstd::bytes::lemma_auto_spec_u64_to_from_le_bytes();
        }
        let mut out: Vec<u8> = Vec::new();
        out.push(0x53);
        out.push(0x59);
        out.push(0x4e);
        out.push(0x54);
        proof {
            assert(out@ =~= tcp_wire_magic());
        }
        put_bytes(&mut out, u16_to_le_bytes(TCP_WIRE_VERSION));
        out.push(self.kind.code());
        out.push(family_number(self.family));
        put_bytes(&mut out, u64_to_le_bytes(self.timestamp_ns));
        put_bytes(&mut out, u16_to_le_bytes(self.source_port));
        put_bytes(&mut out, u16_to_le_bytes(self.destination_port));
        put_bytes(&mut out, u32_to_le_bytes(self.event_count));
        put_bytes(&mut out, u32_to_le_bytes(self.cpu));
        put_bytes(&mut out, u32_to_le_bytes(self.socket_state));
        put_address(&mut out, self.source_address);
        put_address(&mut out, self.destination_address);
        put_bytes(&mut out, u64_to_le_bytes(self.magnitude_bits));
        put_bytes(&mut out, u64_to_le_bytes(self.kernel_ring_drops));
        put_bytes(&mut out, u64_to_le_bytes(self.collector_drops));
        put_bytes(&mut out, u64_to_le_bytes(self.ipc_drops));
        proof {
            assert(out@ =~= tcp_pulse_bytes(*self));
        }
        out
    }

    /// Decodes 96 wire bytes: the size, magic, version, kind and family must
    /// match.
    pub fn decode(bytes: &[u8]) -> (r: Result<NormalizedTcpPulse, TcpWireError>)
        ensures
            tcp_pulse_valid(bytes@) ==> (r matches Ok(q) && tcp_pulse_decodes_to(q, bytes@)),
            bytes@.len() != TCP_WIRE_BYTES ==> (r matches Err(TcpWireError::WrongSize(n)) && n
                == bytes@.len()),
            (bytes@.len() == TCP_WIRE_BYTES && bytes@.subrange(0, 4) != tcp_wire_magic()) ==> (r matches Err(
                TcpWireError::BadMagic,
            )),
            (bytes@.len() == TCP_WIRE_BYTES && bytes@.subrange(0, 4) == tcp_wire_magic() && le_u16(bytes@, 4)
                != TCP_WIRE_VERSION) ==> (r matches Err(TcpWireError::UnsupportedVersion(v)) && v == le_u16(
                bytes@,
                4,
            )),
            (bytes@.len() == TCP_WIRE_BYTES && bytes@.subrange(0, 4) == tcp_wire_magic() && le_u16(bytes@, 4)
                == TCP_WIRE_VERSION && tcp_pulse_kind_for(bytes@[6]) is None) ==> (r matches Err(
                TcpWireError::UnsupportedKind(k),
            ) && k == bytes@[6]),
            (bytes@.len() == TCP_WIRE_BYTES && bytes@.subrange(0, 4) == tcp_wire_magic() && le_u16(bytes@, 4)
                == TCP_WIRE_VERSION && tcp_pulse_kind_for(bytes@[6]) is Some && family_for_number(bytes@[7])
                is None) ==> (r matches Err(TcpWireError::UnsupportedFamily(f)) && f == bytes@[7]),
    {
        if bytes.len() != TCP_WIRE_BYTES {
            return Err(TcpWireError::WrongSize(bytes.len()));
        }
        proof {
            assert(TCP_WIRE_MAGIC@ =~= tcp_wire_magic());
        }
        if !has_magic(bytes, TCP_WIRE_MAGIC) {
            return Err(TcpWireError::BadMagic);
        }
        let version = read_u16(bytes, 4);
        if version != TCP_WIRE_VERSION {
            return Err(TcpWireError::UnsupportedVersion(version));
        }
        let kind = match TcpPulseKind::from_code(bytes[6]) {
            Ok(k) => k,
            Err(e) => return Err(e),
        };
        let family = match decode_family(bytes[7]) {
            Ok(f) => f,
            Err(e) => return Err(e),
        };
        Ok(
            NormalizedTcpPulse {
                timestamp_ns: read_u64(bytes, 8),
                kind,
                family,
                source_port: read_u16(bytes, 16),
                destination_port: read_u16(bytes, 18),
                event_count: read_u32(bytes, 20),
                cpu: read_u32(bytes, 24),
                socket_state: read_u32(bytes, 28),
                source_address: read_address(bytes, 32),
                destination_address: read_address(bytes, 48),
                magnitude_bits: read_u64(bytes, 64),
                kernel_ring_drops: read_u64(bytes, 72),
                collector_drops: read_u64(bytes, 80),
                ipc_drops: read_u64(bytes, 88),
            },
        )
    }
}

/// A flow and pathology key: pathology code, family rank, ports, then both
/// addresses read as big-endian numbers (which orders them as their bytes
/// compare).
pub type TcpKey = (u8, u8, u16, u16, u128, u128);

/// The big-endian value of a byte sequence.
pub open spec fn be_value(s: Seq<u8>) -> nat
    decreases s.len(),
{
    if s.len() == 0 {
        0
    } else {
        be_value(s.drop_last()) * 256 + (s.last() as nat)
    }
}

/// `256` to the power `k`.
pub open spec fn pow256(k: nat) -> nat
    decreases k,
{
    if k == 0 {
        1
    } else {
        256 * pow256((k - 1) as nat)
    }
}

proof fn lemma_be_value_bound(s: Seq<u8>)
    ensures
        be_value(s) < pow256(s.len()),
    decreases s.len(),
{
    if s.len() > 0 {
        lemma_be_value_bound(s.drop_last());
        let v = be_value(s.drop_last());
        let p = pow256((s.len() - 1) as nat);
        assert(v * 256 + s.last() < p * 256) by (nonlinear_arith)
            requires
                v < p,
                s.last() < 256,
        ;
    }
}

proof fn lemma_pow256_16()
    ensures
        pow256(16) == 0x1_0000_0000_0000_0000_0000_0000_0000_0000int,
{
    reveal_with_fuel(pow256, 17);
}

/// The big-endian value of an address.
fn address_value(a: [u8; 16]) -> (v: u128)
    ensures
        v == be_value(a@),
{
    let mut v: u128 = 0;
    let mut i: usize = 0;
    proof {
        assert(a@.take(0) =~= Seq::<u8>::empty());
    }
    while i < 16
        invariant
            i <= 16,
            a@.len() == 16,
            v == be_value(a@.take(i as int)),
        decreases 16 - i,
    {
        proof {
            assert(a@.take(i + 1).drop_last() =~= a@.take(i as int));
            lemma_be_value_bound(a@.take(i + 1));
            lemma_pow256_16();
            lemma_pow256_monotone((i + 1) as nat, 16);
        }
        v = v * 256 + a[i] as u128;
        i = i + 1;
    }
    proof {
        assert(a@.take(16) =~= a@);
    }
    v
}

proof fn lemma_pow256_monotone(a: nat, b: nat)
    requires
        a <= b,
    ensures
        pow256(a) <= pow256(b),
    decreases b,
{
    if a < b {
        lemma_pow256_monotone(a, (b - 1) as nat);
    }
}

/// The rank of an address family in the key order.
pub open spec fn family_rank(f: TcpAddressFamily) -> u8 {
    match f {
        TcpAddressFamily::Ipv4 => 0,
        TcpAddressFamily::Ipv6 => 1,
    }
}

/// The key of a kernel record's flow and pathology.
pub open spec fn tcp_key(e: KernelTcpEvent) -> TcpKey {
    (
        tcp_pulse_code(kind_of_pathology(e.kind)),
        family_rank(e.family),
        e.source_port,
        e.destination_port,
        be_value(e.source_address@) as u128,
        be_value(e.destination_address@) as u128,
    )
}

/// Key order: lexicographic over the key's fields.
pub open spec fn tcp_key_lt(a: TcpKey, b: TcpKey) -> bool {
    a.0 < b.0 || (a.0 == b.0 && (a.1 < b.1 || (a.1 == b.1 && (a.2 < b.2 || (a.2 == b.2 && (a.3 < b.3
        || (a.3 == b.3 && (a.4 < b.4 || (a.4 == b.4 && a.5 < b.5)))))))))
}

/// Is key `a` below key `b`?
fn tcp_key_lt_exec(a: TcpKey, b: TcpKey) -> (r: bool)
    ensures
        r == tcp_key_lt(a, b),
{
    a.0 < b.0 || (a.0 == b.0 && (a.1 < b.1 || (a.1 == b.1 && (a.2 < b.2 || (a.2 == b.2 && (a.3 < b.3
        || (a.3 == b.3 && (a.4 < b.4 || (a.4 == b.4 && a.5 < b.5)))))))))
}

/// Are two keys equal?
fn tcp_key_eq(a: TcpKey, b: TcpKey) -> (r: bool)
    ensures
        r == (a == b),
{
    a.0 == b.0 && a.1 == b.1 && a.2 == b.2 && a.3 == b.3 && a.4 == b.4 && a.5 == b.5
}

/// What a window has accumulated for one flow and pathology.
#[derive(Clone, Copy, Debug)]
pub struct TcpBucket {
    pub count: u32,
    pub cpu: u32,
    pub socket_state: u32,
    pub kind: TcpPathologyKind,
    pub family: TcpAddressFamily,
    pub source_address: [u8; 16],
    pub destination_address: [u8; 16],
}

/// Keys strictly increase along the sequence.
pub open spec fn tcp_keys_increasing(bs: Seq<(TcpKey, TcpBucket)>) -> bool {
    forall|i: int, j: int| 0 <= i < j < bs.len() ==> tcp_key_lt(bs[i].0, bs[j].0)
}

/// The first index whose key is not below `key`.
pub open spec fn tcp_lower_bound(bs: Seq<(TcpKey, TcpBucket)>, key: TcpKey) -> int
    decreases bs.len(),
{
    if bs.len() == 0 {
        0
    } else if !tcp_key_lt(bs[0].0, key) {
        0
    } else {
        1 + tcp_lower_bound(bs.drop_first(), key)
    }
}

/// Where the bucket for `key` is, if there is one.
pub open spec fn tcp_position(bs: Seq<(TcpKey, TcpBucket)>, key: TcpKey) -> Option<int> {
    let i = tcp_lower_bound(bs, key);
    if 0 <= i < bs.len() && bs[i].0 == key {
        Some(i)
    } else {
        None
    }
}

/// `bs` with the bucket for `key` set to `b`, in key order.
pub open spec fn tcp_bucket_put(bs: Seq<(TcpKey, TcpBucket)>, key: TcpKey, b: TcpBucket) -> Seq<(TcpKey, TcpBucket)> {
    match tcp_position(bs, key) {
        Some(i) => bs.update(i, (key, b)),
        None => bs.insert(tcp_lower_bound(bs, key), (key, b)),
    }
}

proof fn lemma_tcp_lower_bound_at(bs: Seq<(TcpKey, TcpBucket)>, key: TcpKey, i: int)
    requires
        0 <= i <= bs.len(),
        forall|j: int| 0 <= j < i ==> tcp_key_lt(bs[j].0, key),
        i < bs.len() ==> !tcp_key_lt(bs[i].0, key),
    ensures
        tcp_lower_bound(bs, key) == i,
    decreases bs.len(),
{
    if i > 0 {
        assert forall|j: int| 0 <= j < i - 1 implies tcp_key_lt(bs.drop_first()[j].0, key) by {
            assert(bs.drop_first()[j] == bs[j + 1]);
        }
        lemma_tcp_lower_bound_at(bs.drop_first(), key, i - 1);
    }
}

proof fn lemma_tcp_lower_bound_split(bs: Seq<(TcpKey, TcpBucket)>, key: TcpKey)
    requires
        tcp_keys_increasing(bs),
    ensures
        0 <= tcp_lower_bound(bs, key) <= bs.len(),
        forall|j: int| 0 <= j < tcp_lower_bound(bs, key) ==> tcp_key_lt(bs[j].0, key),
        forall|j: int| tcp_lower_bound(bs, key) <= j < bs.len() ==> !tcp_key_lt(bs[j].0, key),
    decreases bs.len(),
{
    if bs.len() > 0 && tcp_key_lt(bs[0].0, key) {
        lemma_tcp_lower_bound_split(bs.drop_first(), key);
        assert forall|j: int| 0 <= j < tcp_lower_bound(bs, key) implies tcp_key_lt(bs[j].0, key) by {
            if j > 0 {
                assert(bs[j] == bs.drop_first()[j - 1]);
            }
        }
        assert forall|j: int| tcp_lower_bound(bs, key) <= j < bs.len() implies !tcp_key_lt(bs[j].0, key) by {
            assert(bs[j] == bs.drop_first()[j - 1]);
        }
    } else if bs.len() > 0 {
        assert forall|j: int| tcp_lower_bound(bs, key) <= j < bs.len() implies !tcp_key_lt(bs[j].0, key) by {
            if j > 0 {
                assert(tcp_key_lt(bs[0].0, bs[j].0));
            }
        }
    }
}

proof fn lemma_tcp_bucket_put(bs: Seq<(TcpKey, TcpBucket)>, key: TcpKey, b: TcpBucket)
    requires
        tcp_keys_increasing(bs),
    ensures
        tcp_keys_increasing(tcp_bucket_put(bs, key, b)),
        tcp_bucket_put(bs, key, b).len() == bs.len() + if tcp_position(bs, key) is Some { 0int } else { 1int },
{
    lemma_tcp_lower_bound_split(bs, key);
    let i = tcp_lower_bound(bs, key);
    let r = tcp_bucket_put(bs, key, b);
    if tcp_position(bs, key) is None {
        assert forall|x: int, y: int| 0 <= x < y < r.len() implies tcp_key_lt(r[x].0, r[y].0) by {
            if y < i {
            } else if y == i {
            } else if x < i {
                assert(r[y] == bs[y - 1]);
            } else if x == i {
                assert(r[y] == bs[y - 1]);
                if y - 1 == i {
                    assert(bs[i].0 != key);
                }
            } else {
                assert(r[x] == bs[x - 1]);
                assert(r[y] == bs[y - 1]);
            }
        }
    }
}

/// The TCP aggregator's state: buckets in key order and the records
/// dropped because the window was full.
pub struct TcpAggregatorView {
    pub buckets: Seq<(TcpKey, TcpBucket)>,
    pub collector_drops: u64,
}

/// Aggregates kernel TCP records into at most one pulse per flow and
/// pathology per window.
#[derive(Clone, Debug)]
pub struct TcpAggregator {
    buckets: Vec<(TcpKey, TcpBucket)>,
    collector_drops: u64,
}

impl View for TcpAggregator {
    type V = TcpAggregatorView;

    closed spec fn view(&self) -> TcpAggregatorView {
        TcpAggregatorView { buckets: self.buckets@, collector_drops: self.collector_drops }
    }
}

/// A well-formed TCP aggregator: keys in order, at most the window's bound.
pub open spec fn tcp_aggregator_wf(v: TcpAggregatorView) -> bool {
    &&& tcp_keys_increasing(v.buckets)
    &&& v.buckets.len() <= MAX_TCP_BUCKETS_PER_WINDOW
}

/// `a + 1`, saturating.
pub open spec fn count_up(a: u32) -> u32 {
    if a == u32::MAX {
        u32::MAX
    } else {
        (a + 1) as u32
    }
}

/// `a + b`, saturating at the largest `u64`.
pub open spec fn drops_up(a: u64) -> u64 {
    if a == u64::MAX {
        u64::MAX
    } else {
        (a + 1) as u64
    }
}

/// One more record for a flow and pathology: counted, with the latest CPU
/// and socket state; a new flow beyond the bound is dropped and counted.
pub open spec fn tcp_aggregate(v: TcpAggregatorView, e: KernelTcpEvent) -> TcpAggregatorView {
    let key = tcp_key(e);
    match tcp_position(v.buckets, key) {
        Some(i) => {
            let previous = v.buckets[i].1;
            let b = TcpBucket {
                count: count_up(previous.count),
                cpu: e.cpu,
                socket_state: e.socket_state,
                ..previous
            };
            TcpAggregatorView { buckets: v.buckets.update(i, (key, b)), collector_drops: v.collector_drops }
        },
        None => if v.buckets.len() >= MAX_TCP_BUCKETS_PER_WINDOW {
            TcpAggregatorView { buckets: v.buckets, collector_drops: drops_up(v.collector_drops) }
        } else {
            let b = TcpBucket {
                count: 1,
                cpu: e.cpu,
                socket_state: e.socket_state,
                kind: e.kind,
                family: e.family,
                source_address: e.source_address,
                destination_address: e.destination_address,
            };
            TcpAggregatorView { buckets: tcp_bucket_put(v.buckets, key, b), collector_drops: v.collector_drops }
        },
    }
}

/// The magnitude of a flow's pulse: a base for the pathology plus a step
/// per record, up to a ceiling.
pub open spec fn tcp_pulse_magnitude(kind: TcpPathologyKind, count: u32) -> nat {
    match kind {
        TcpPathologyKind::Retransmit => if 4_096 + count * 1_536 > 65_536 { 65_536 } else { (4_096 + count * 1_536) as nat },
        TcpPathologyKind::ResetSent => if 16_384 + count * 8_192 > 131_072 { 131_072 } else { (16_384 + count * 8_192) as nat },
        TcpPathologyKind::ResetReceived => if 20_480 + count * 8_192 > 131_072 { 131_072 } else { (20_480 + count * 8_192) as nat },
    }
}

/// The magnitude of a flow's pulse.
fn pulse_magnitude(kind: TcpPathologyKind, count: u32) -> (m: u64)
    ensures
        m == tcp_pulse_magnitude(kind, count),
{
    let c = count as u64;
    match kind {
        TcpPathologyKind::Retransmit => if 4_096 + c * 1_536 > 65_536 { 65_536 } else { 4_096 + c * 1_536 },
        TcpPathologyKind::ResetSent => if 16_384 + c * 8_192 > 131_072 { 131_072 } else { 16_384 + c * 8_192 },
        TcpPathologyKind::ResetReceived => if 20_480 + c * 8_192 > 131_072 { 131_072 } else { 20_480 + c * 8_192 },
    }
}

/// Two pulses are the same pulse when all their fields are.
pub open spec fn tcp_bucket_pulse_is(q: NormalizedTcpPulse, entry: (TcpKey, TcpBucket), timestamp_ns: u64, kernel_ring_drops: u64, collector_drops: u64) -> bool {
    let b = entry.1;
    &&& q.timestamp_ns == timestamp_ns
    &&& q.kind == kind_of_pathology(b.kind)
    &&& q.family == b.family
    &&& q.source_port == entry.0.2
    &&& q.destination_port == entry.0.3
    &&& q.event_count == b.count
    &&& q.cpu == b.cpu
    &&& q.socket_state == b.socket_state
    &&& q.source_address@ == b.source_address@
    &&& q.destination_address@ == b.destination_address@
    &&& q.magnitude_bits == binary64_of(tcp_pulse_magnitude(b.kind, b.count))
    &&& q.kernel_ring_drops == kernel_ring_drops
    &&& q.collector_drops == collector_drops
    &&& q.ipc_drops == 0
}

/// The heartbeat of an empty window.
pub open spec fn tcp_heartbeat_is(q: NormalizedTcpPulse, timestamp_ns: u64, kernel_ring_drops: u64, collector_drops: u64) -> bool {
    &&& q.timestamp_ns == timestamp_ns
    &&& q.kind == TcpPulseKind::Heartbeat
    &&& q.family == TcpAddressFamily::Ipv4
    &&& q.source_port == 0
    &&& q.destination_port == 0
    &&& q.event_count == 0
    &&& q.cpu == 0
    &&& q.socket_state == 0
    &&& q.source_address@ == Seq::new(16, |i: int| 0u8)
    &&& q.destination_address@ == Seq::new(16, |i: int| 0u8)
    &&& q.magnitude_bits == 0
    &&& q.kernel_ring_drops == kernel_ring_drops
    &&& q.collector_drops == collector_drops
    &&& q.ipc_drops == 0
}

/// The heartbeat pulse of an empty window.
pub fn heartbeat(timestamp_ns: u64, kernel_ring_drops: u64, collector_drops: u64) -> (q: NormalizedTcpPulse)
    ensures
        tcp_heartbeat_is(q, timestamp_ns, kernel_ring_drops, collector_drops),
{
    let q = NormalizedTcpPulse {
        timestamp_ns,
        kind: TcpPulseKind::Heartbeat,
        family: TcpAddressFamily::Ipv4,
        source_port: 0,
        destination_port: 0,
        event_count: 0,
        cpu: 0,
        socket_state: 0,
        source_address: [0u8; 16],
        destination_address: [0u8; 16],
        magnitude_bits: 0,
        kernel_ring_drops,
        collector_drops,
        ipc_drops: 0,
    };
    assert(q.source_address@ =~= Seq::new(16, |i: int| 0u8));
    assert(q.destination_address@ =~= Seq::new(16, |i: int| 0u8));
    q
}

impl TcpAggregator {
    /// An empty aggregator.
    pub fn new() -> (a: TcpAggregator)
        ensures
            tcp_aggregator_wf(a@),
            a@.buckets.len() == 0,
            a@.collector_drops == 0,
    {
        TcpAggregator { buckets: Vec::new(), collector_drops: 0 }
    }

    /// Aggregates one kernel record into its flow's bucket.
    pub fn ingest(&mut self, event: KernelTcpEvent)
        requires
            tcp_aggregator_wf(old(self)@),
        ensures
            tcp_aggregator_wf(final(self)@),
            final(self)@ == tcp_aggregate(old(self)@, event),
    {
        let key: TcpKey = (
            TcpPulseKind::from_pathology(event.kind).code(),
            match event.family {
                TcpAddressFamily::Ipv4 => 0u8,
                TcpAddressFamily::Ipv6 => 1u8,
            },
            event.source_port,
            event.destination_port,
            address_value(event.source_address),
            address_value(event.destination_address),
        );
        let mut i: usize = 0;
        while i < self.buckets.len() && tcp_key_lt_exec(self.buckets[i].0, key)
            invariant
                i <= self.buckets.len(),
                forall|j: int| 0 <= j < i ==> tcp_key_lt(self.buckets@[j].0, key),
            decreases self.buckets.len() - i,
        {
            i = i + 1;
        }
        proof {
            lemma_tcp_lower_bound_at(self.buckets@, key, i as int);
            lemma_tcp_lower_bound_split(self.buckets@, key);
        }
        let ghost before = self.buckets@;
        if i < self.buckets.len() && tcp_key_eq(self.buckets[i].0, key) {
            let previous = self.buckets[i].1;
            let b = TcpBucket {
                count: previous.count.saturating_add(1),
                cpu: event.cpu,
                socket_state: event.socket_state,
                kind: previous.kind,
                family: previous.family,
                source_address: previous.source_address,
                destination_address: previous.destination_address,
            };
            self.buckets.set(i, (key, b));
            proof {
                let t = self.buckets@;
                assert forall|x: int, y: int| 0 <= x < y < t.len() implies tcp_key_lt(t[x].0, t[y].0) by {
                    assert(t[x].0 == before[x].0);
                    assert(t[y].0 == before[y].0);
                }
            }
            return;
        }
        if self.buckets.len() >= MAX_TCP_BUCKETS_PER_WINDOW {
            self.collector_drops = self.collector_drops.saturating_add(1);
            return;
        }
        let b = TcpBucket {
            count: 1,
            cpu: event.cpu,
            socket_state: event.socket_state,
            kind: event.kind,
            family: event.family,
            source_address: event.source_address,
            destination_address: event.destination_address,
        };
        self.buckets.insert(i, (key, b));
        proof {
            lemma_tcp_bucket_put(before, key, b);
        }
    }

    /// Ends the window: the pulses of its buckets in key order (or one
    /// heartbeat), after which the buckets are empty; drop counts carry on.
    pub fn flush(&mut self, timestamp_ns: u64, kernel_ring_drops: u64) -> (pulses: Vec<NormalizedTcpPulse>)
        requires
            tcp_aggregator_wf(old(self)@),
        ensures
            tcp_aggregator_wf(final(self)@),
            final(self)@.buckets.len() == 0,
            final(self)@.collector_drops == old(self)@.collector_drops,
            old(self)@.buckets.len() == 0 ==> pulses@.len() == 1 && tcp_heartbeat_is(
                pulses@[0],
                timestamp_ns,
                kernel_ring_drops,
                old(self)@.collector_drops,
            ),
            old(self)@.buckets.len() > 0 ==> pulses@.len() == old(self)@.buckets.len() && forall|j: int|
                0 <= j < pulses@.len() ==> tcp_bucket_pulse_is(
                    #[trigger] pulses@[j],
                    old(self)@.buckets[j],
                    timestamp_ns,
                    kernel_ring_drops,
                    old(self)@.collector_drops,
                ),
    {
        let mut pulses: Vec<NormalizedTcpPulse> = Vec::new();
        if self.buckets.len() == 0 {
            pulses.push(heartbeat(timestamp_ns, kernel_ring_drops, self.collector_drops));
            return pulses;
        }
        let drops = self.collector_drops;
        let mut i: usize = 0;
        while i < self.buckets.len()
            invariant
                i <= self.buckets.len(),
                drops == self.collector_drops,
                tcp_aggregator_wf(self@),
                pulses@.len() == i,
                forall|j: int| 0 <= j < i ==> tcp_bucket_pulse_is(
                    #[trigger] pulses@[j],
                    self.buckets@[j],
                    timestamp_ns,
                    kernel_ring_drops,
                    drops,
                ),
            decreases self.buckets.len() - i,
        {
            let (key, b) = self.buckets[i];
            let magnitude = pulse_magnitude(b.kind, b.count);
            pulses.push(
                NormalizedTcpPulse {
                    timestamp_ns,
                    kind: TcpPulseKind::from_pathology(b.kind),
                    family: b.family,
                    source_port: key.2,
                    destination_port: key.3,
                    event_count: b.count,
                    cpu: b.cpu,
                    socket_state: b.socket_state,
                    source_address: b.source_address,
                    destination_address: b.destination_address,
                    magnitude_bits: double_bits_of(magnitude),
                    kernel_ring_drops,
                    collector_drops: drops,
                    ipc_drops: 0,
                },
            );
            i = i + 1;
        }
        self.buckets = Vec::new();
        pulses
    }

    /// How many buckets the window holds.
    pub fn bucket_count(&self) -> (n: usize)
        ensures
            n == self@.buckets.len(),
    {
        self.buckets.len()
    }
}

impl Default for TcpAggregator {
    fn default() -> (a: Self)
        ensures
            tcp_aggregator_wf(a@),
            a@.buckets.len() == 0,
            a@.collector_drops == 0,
    {
        TcpAggregator::new()
    }
}

/// The event a pulse materializes into, given the text of its local and
/// peer endpoints: the event of its record, with the pulse's magnitude and
/// its record count as labels.
pub open spec fn tcp_pulse_event(e: NormalizedEvent, p: NormalizedTcpPulse, local: Seq<char>, peer: Seq<char>) -> bool {
    let kind = pathology_of_kind(p.kind).unwrap();
    let received = kind == TcpPathologyKind::ResetReceived;
    &&& e.v == SCHEMA_VERSION
    &&& e.timestamp == Some(Quantity::Ratio { numerator: p.timestamp_ns, denominator: NANOS_PER_SECOND })
    &&& e.category@ == pathology_category(kind)
    &&& e.origin is Some && e.origin.unwrap()@ == (if received { peer } else { local })
    &&& e.target is Some && e.target.unwrap()@ == (if received { local } else { peer })
    &&& e.direction == (if received { Direction::Inbound } else { Direction::Outbound })
    &&& e.magnitude == Quantity::Double { bits: p.magnitude_bits }
    &&& e.labels@ == map![
        "address_family"@ => family_label(p.family),
        "cpu"@ => decimal(p.cpu as nat),
        "local_port"@ => decimal(p.source_port as nat),
        "peer_port"@ => decimal(p.destination_port as nat),
        "socket_state"@ => decimal(p.socket_state as nat),
        "synesthesia.lane"@ => flow_lane_text(local, peer),
        "tcp_pathology"@ => pathology_category(kind),
        "event_count"@ => decimal(p.event_count as nat),
        "synesthesia.event_count"@ => decimal(p.event_count as nat),
    ]
}

impl NormalizedTcpPulse {
    /// The normalized event of a pulse, given the text of its local
    /// (source) and peer (destination) endpoints; heartbeats have none.
    pub fn into_normalized_with_endpoints(self, local: String, peer: String) -> (r: Option<NormalizedEvent>)
        ensures
            r is None <==> self.kind == TcpPulseKind::Heartbeat,
            r matches Some(e) ==> tcp_pulse_event(e, self, local@, peer@),
    {
        let kind = match self.kind.pathology() {
            Some(k) => k,
            None => return None,
        };
        let record = KernelTcpEvent {
            timestamp_ns: self.timestamp_ns,
            kind,
            family: self.family,
            cpu: self.cpu,
            source_port: self.source_port,
            destination_port: self.destination_port,
            socket_state: self.socket_state,
            source_address: self.source_address,
            destination_address: self.destination_address,
        };
        let ghost local_text = local@;
        let ghost peer_text = peer@;
        let mut event = record.normalize_with_endpoints(local, peer);
        event.magnitude = Quantity::Double { bits: self.magnitude_bits };
        event.labels.insert_str("event_count", u64_text(self.event_count as u64));
        event.labels.insert_str("synesthesia.event_count", u64_text(self.event_count as u64));
        proof {
            assert(event.labels@ =~= map![
                "address_family"@ => family_label(self.family),
                "cpu"@ => decimal(self.cpu as nat),
                "local_port"@ => decimal(self.source_port as nat),
                "peer_port"@ => decimal(self.destination_port as nat),
                "socket_state"@ => decimal(self.socket_state as nat),
                "synesthesia.lane"@ => flow_lane_text(local_text, peer_text),
                "tcp_pathology"@ => pathology_category(kind),
                "event_count"@ => decimal(self.event_count as nat),
                "synesthesia.event_count"@ => decimal(self.event_count as nat),
            ]);
        }
        Some(event)
    }
}


/// The records counted in a window's TCP buckets.
pub open spec fn tcp_bucket_total(bs: Seq<(TcpKey, TcpBucket)>) -> nat
    decreases bs.len(),
{
    if bs.len() == 0 {
        0
    } else {
        tcp_bucket_total(bs.drop_last()) + bs.last().1.count as nat
    }
}

/// Records counted by a TCP aggregator: those in its buckets and those
/// refused because the window was full.
pub open spec fn tcp_records_counted(v: TcpAggregatorView) -> nat {
    tcp_bucket_total(v.buckets) + v.collector_drops as nat
}

proof fn lemma_tcp_total_update(bs: Seq<(TcpKey, TcpBucket)>, i: int, x: (TcpKey, TcpBucket))
    requires
        0 <= i < bs.len(),
    ensures
        tcp_bucket_total(bs.update(i, x)) + bs[i].1.count == tcp_bucket_total(bs) + x.1.count,
    decreases bs.len(),
{
    if i == bs.len() - 1 {
        assert(bs.update(i, x).drop_last() =~= bs.drop_last());
    } else {
        lemma_tcp_total_update(bs.drop_last(), i, x);
        assert(bs.update(i, x).drop_last() =~= bs.drop_last().update(i, x));
    }
}

proof fn lemma_tcp_total_insert(bs: Seq<(TcpKey, TcpBucket)>, i: int, x: (TcpKey, TcpBucket))
    requires
        0 <= i <= bs.len(),
    ensures
        tcp_bucket_total(bs.insert(i, x)) == tcp_bucket_total(bs) + x.1.count,
    decreases bs.len(),
{
    if i == bs.len() {
        assert(bs.insert(i, x).drop_last() =~= bs);
    } else {
        lemma_tcp_total_insert(bs.drop_last(), i, x);
        assert(bs.insert(i, x).drop_last() =~= bs.drop_last().insert(i, x));
    }
}

/// Law: no TCP record is lost silently: each record the aggregator takes is
/// counted once, in its flow's bucket or as a refused record. Counters that
/// are about to saturate are left out.
pub proof fn law_tcp_aggregation_counts_every_record(v: TcpAggregatorView, e: KernelTcpEvent)
    requires
        tcp_aggregator_wf(v),
        forall|j: int| 0 <= j < v.buckets.len() ==> (#[trigger] v.buckets[j]).1.count < u32::MAX,
        v.collector_drops < u64::MAX,
    ensures
        tcp_records_counted(tcp_aggregate(v, e)) == tcp_records_counted(v) + 1,
{
    let key = tcp_key(e);
    lemma_tcp_lower_bound_split(v.buckets, key);
    let w = tcp_aggregate(v, e);
    match tcp_position(v.buckets, key) {
        Some(i) => {
            lemma_tcp_total_update(v.buckets, i, w.buckets[i]);
            assert(w.buckets == v.buckets.update(i, w.buckets[i]));
        },
        None => {
            if v.buckets.len() < MAX_TCP_BUCKETS_PER_WINDOW {
                let at = tcp_lower_bound(v.buckets, key);
                lemma_tcp_total_insert(v.buckets, at, w.buckets[at]);
                assert(w.buckets == v.buckets.insert(at, w.buckets[at]));
            }
        },
    }
}

proof fn lemma_tcp_position_of_present(bs: Seq<(TcpKey, TcpBucket)>, key: TcpKey, i: int)
    requires
        tcp_keys_increasing(bs),
        0 <= i < bs.len(),
        bs[i].0 == key,
    ensures
        tcp_position(bs, key) == Some(i),
{
    lemma_tcp_lower_bound_split(bs, key);
    let lb = tcp_lower_bound(bs, key);
    if lb > i {
        assert(tcp_key_lt(bs[i].0, key));
    }
    if lb < i {
        assert(tcp_key_lt(bs[lb].0, bs[i].0));
    }
}

/// Law: a record is counted in the bucket of its own flow. Unless it is
/// refused because the window is full, after it is taken the aggregator
/// holds a bucket for it whose key carries the record's source and
/// destination ports, and that bucket holds the record's CPU and socket
/// state; the pulse that bucket flushes into carries the same ports. A
/// record that is refused leaves the buckets as they were and is counted
/// as dropped.
pub proof fn law_tcp_records_keep_their_flow(v: TcpAggregatorView, e: KernelTcpEvent)
    requires
        tcp_aggregator_wf(v),
    ensures
        ({
            let w = tcp_aggregate(v, e);
            let admitted = tcp_position(v.buckets, tcp_key(e)) is Some || v.buckets.len()
                < MAX_TCP_BUCKETS_PER_WINDOW;
            &&& admitted ==> (tcp_position(w.buckets, tcp_key(e)) matches Some(i) && {
                let entry = w.buckets[i];
                &&& entry.0.2 == e.source_port
                &&& entry.0.3 == e.destination_port
                &&& entry.1.cpu == e.cpu
                &&& entry.1.socket_state == e.socket_state
                &&& forall|q: NormalizedTcpPulse, t: u64, k: u64, c: u64|
                    #[trigger] tcp_bucket_pulse_is(q, entry, t, k, c) ==> q.source_port == e.source_port
                        && q.destination_port == e.destination_port
            })
            &&& !admitted ==> w.buckets == v.buckets && w.collector_drops == drops_up(v.collector_drops)
        }),
{
    let key = tcp_key(e);
    lemma_tcp_lower_bound_split(v.buckets, key);
    let w = tcp_aggregate(v, e);
    match tcp_position(v.buckets, key) {
        Some(i) => {
            assert forall|x: int, y: int| 0 <= x < y < w.buckets.len() implies tcp_key_lt(
                w.buckets[x].0,
                w.buckets[y].0,
            ) by {
                assert(w.buckets[x].0 == v.buckets[x].0);
                assert(w.buckets[y].0 == v.buckets[y].0);
            }
            lemma_tcp_position_of_present(w.buckets, key, i);
        },
        None => {
            if v.buckets.len() < MAX_TCP_BUCKETS_PER_WINDOW {
                let b = w.buckets[tcp_lower_bound(v.buckets, key)].1;
                lemma_tcp_bucket_put(v.buckets, key, b);
                lemma_tcp_position_of_present(w.buckets, key, tcp_lower_bound(v.buckets, key));
            }
        },
    }
}

/// Law: two records share a bucket only when they belong to the same flow
/// and pathology: records whose source ports, destination ports,
/// pathologies or address families differ have different keys.
pub proof fn law_tcp_distinct_flows_never_share_a_bucket(a: KernelTcpEvent, b: KernelTcpEvent)
    ensures
        tcp_key(a) == tcp_key(b) ==> {
            &&& a.source_port == b.source_port
            &&& a.destination_port == b.destination_port
            &&& a.kind == b.kind
            &&& a.family == b.family
        },
{
}

/// The message of a refused pulse; for a failed read, its beginning (the
/// rest is the operating system's description).
pub open spec fn tcp_wire_text(e: TcpWireError) -> Seq<char> {
    match e {
        TcpWireError::WrongSize(n) => "TCP helper record has "@ + decimal(n as nat) + " bytes; expected 96"@,
        TcpWireError::BadMagic => "TCP helper record has invalid magic"@,
        TcpWireError::UnsupportedVersion(v) => "unsupported TCP helper protocol version "@ + decimal(v as nat),
        TcpWireError::UnsupportedKind(k) => "unsupported TCP pulse kind "@ + decimal(k as nat),
        TcpWireError::UnsupportedFamily(f) => "unsupported TCP pulse address family "@ + decimal(f as nat),
        TcpWireError::Truncated(n) => "TCP helper stream ended after "@ + decimal(n as nat) + " bytes of a record"@,
        TcpWireError::Io(_) => "TCP helper I/O failed: "@,
    }
}

impl TcpWireError {
    /// The human-readable description of the error.
    pub fn message(&self) -> (s: String)
        ensures
            self is Io ==> starts_with(s@, tcp_wire_text(*self)),
            !(self is Io) ==> s@ == tcp_wire_text(*self),
    {
        match self {
            TcpWireError::WrongSize(n) => around_number("TCP helper record has ", *n as u64, " bytes; expected 96"),
            TcpWireError::BadMagic => String::from_str("TCP helper record has invalid magic"),
            TcpWireError::UnsupportedVersion(v) => with_number("unsupported TCP helper protocol version ", *v as u64),
            TcpWireError::UnsupportedKind(k) => with_number("unsupported TCP pulse kind ", *k as u64),
            TcpWireError::UnsupportedFamily(f) => with_number("unsupported TCP pulse address family ", *f as u64),
            TcpWireError::Truncated(n) => around_number("TCP helper stream ended after ", *n as u64, " bytes of a record"),
            TcpWireError::Io(e) => {
                let detail = io_error_text(e);
                let s = concat2("TCP helper I/O failed: ", detail.as_str());
                proof {
                    assert(s@.subrange(0, tcp_wire_text(*self).len() as int) =~= tcp_wire_text(*self));
                }
                s
            },
        }
    }
}

} // verus!
