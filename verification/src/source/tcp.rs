//! TCP pathology tracepoint events: the fixed kernel record, load-error
//! classification and normalization into flows.
use vstd::prelude::*;

use crate::event::{Direction, Labels, NormalizedEvent, Quantity, SCHEMA_VERSION};
use crate::source::scheduler::{
    classify_message, load_failure_class, privilege_advice, LoadFailureClass, NANOS_PER_SECOND,
};
use crate::source::{ne_u16, ne_u32, ne_u64, read_ne_u16, read_ne_u32, read_ne_u64};
use crate::text::{
    around_number, ascii_lower, chars_contain, concat2, concat3, contains_seq, decimal, to_ascii_lower,
    u64_text, with_number,
};

verus! {

/// The kernel record version this build understands.
pub const TCP_KERNEL_EVENT_VERSION: u16 = 1;

/// Size of one kernel TCP record.
pub const TCP_KERNEL_EVENT_BYTES: usize = 56;

/// Linux address family number of IPv4.
pub const AF_INET: u8 = 2;

/// Linux address family number of IPv6.
pub const AF_INET6: u8 = 10;

/// Kinds of TCP pathology.
#[derive(Clone, Copy, Debug, PartialEq, Eq, Structural)]
pub enum TcpPathologyKind {
    Retransmit,
    ResetSent,
    ResetReceived,
}

/// Address family of a TCP record.
#[derive(Clone, Copy, Debug, PartialEq, Eq, Structural)]
pub enum TcpAddressFamily {
    Ipv4,
    Ipv6,
}

/// Why a kernel TCP record is refused.
#[derive(Clone, Copy, Debug, PartialEq, Eq, Structural)]
pub enum TcpDecodeError {
    WrongSize { expected: usize, actual: usize },
    UnsupportedVersion(u16),
    UnsupportedKind(u8),
    UnsupportedFamily(u8),
}

/// The pathology for a wire code (1 to 3).
pub open spec fn pathology_for_code(code: u8) -> Option<TcpPathologyKind> {
    if code == 1 {
        Some(TcpPathologyKind::Retransmit)
    } else if code == 2 {
        Some(TcpPathologyKind::ResetSent)
    } else if code == 3 {
        Some(TcpPathologyKind::ResetReceived)
    } else {
        None
    }
}

/// The family for a Linux address family number.
pub open spec fn family_for_number(number: u8) -> Option<TcpAddressFamily> {
    if number == AF_INET {
        Some(TcpAddressFamily::Ipv4)
    } else if number == AF_INET6 {
        Some(TcpAddressFamily::Ipv6)
    } else {
        None
    }
}

impl TcpPathologyKind {
    /// The pathology for a wire code, or `UnsupportedKind`.
    pub fn from_code(value: u8) -> (r: Result<TcpPathologyKind, TcpDecodeError>)
        ensures
            match pathology_for_code(value) {
                Some(kind) => r == Ok::<TcpPathologyKind, TcpDecodeError>(kind),
                None => r == Err::<TcpPathologyKind, TcpDecodeError>(
                    TcpDecodeError::UnsupportedKind(value),
                ),
            },
    {
        match value {
            1 => Ok(TcpPathologyKind::Retransmit),
            2 => Ok(TcpPathologyKind::ResetSent),
            3 => Ok(TcpPathologyKind::ResetReceived),
            _ => Err(TcpDecodeError::UnsupportedKind(value)),
        }
    }

    /// The wire code of the pathology.
    pub fn code(self) -> (c: u8)
        ensures
            pathology_for_code(c) == Some(self),
    {
        match self {
            TcpPathologyKind::Retransmit => 1,
            TcpPathologyKind::ResetSent => 2,
            TcpPathologyKind::ResetReceived => 3,
        }
    }
}

/// `ipv4` or `ipv6`.
pub open spec fn family_label(family: TcpAddressFamily) -> Seq<char> {
    match family {
        TcpAddressFamily::Ipv4 => "ipv4"@,
        TcpAddressFamily::Ipv6 => "ipv6"@,
    }
}

impl TcpAddressFamily {
    /// The family for a Linux address family number, or `UnsupportedFamily`.
    pub fn decode(value: u8) -> (r: Result<TcpAddressFamily, TcpDecodeError>)
        ensures
            match family_for_number(value) {
                Some(family) => r == Ok::<TcpAddressFamily, TcpDecodeError>(family),
                None => r == Err::<TcpAddressFamily, TcpDecodeError>(
                    TcpDecodeError::UnsupportedFamily(value),
                ),
            },
    {
        if value == AF_INET {
            Ok(TcpAddressFamily::Ipv4)
        } else if value == AF_INET6 {
            Ok(TcpAddressFamily::Ipv6)
        } else {
            Err(TcpDecodeError::UnsupportedFamily(value))
        }
    }

    /// The Linux address family number.
    pub fn number(self) -> (n: u8)
        ensures
            family_for_number(n) == Some(self),
    {
        match self {
            TcpAddressFamily::Ipv4 => AF_INET,
            TcpAddressFamily::Ipv6 => AF_INET6,
        }
    }

    /// `ipv4` or `ipv6`.
    pub fn label(self) -> (s: &'static str)
        ensures
            s@ == family_label(self),
    {
        match self {
            TcpAddressFamily::Ipv4 => "ipv4",
            TcpAddressFamily::Ipv6 => "ipv6",
        }
    }
}

/// One TCP pathology record as the kernel program emits it.
#[derive(Clone, Copy, Debug, PartialEq, Eq)]
pub struct KernelTcpEvent {
    pub timestamp_ns: u64,
    pub kind: TcpPathologyKind,
    pub family: TcpAddressFamily,
    pub cpu: u32,
    pub source_port: u16,
    pub destination_port: u16,
    pub socket_state: u32,
    pub source_address: [u8; 16],
    pub destination_address: [u8; 16],
}

/// The outcome of decoding a kernel TCP record (x86_64 layout: timestamp at
/// 0, version at 8, kind and family bytes at 10 and 11, cpu at 12, ports at
/// 16 and 18 already in host order, socket state at 20, addresses at 24 and
/// 40, numbers in the machine's byte order, as the kernel wrote them).
pub open spec fn decode_tcp(bytes: Seq<u8>) -> Result<KernelTcpEvent, TcpDecodeError> {
    if bytes.len() != TCP_KERNEL_EVENT_BYTES {
        Err(TcpDecodeError::WrongSize { expected: TCP_KERNEL_EVENT_BYTES, actual: bytes.len() as usize })
    } else if ne_u16(bytes, 8) != TCP_KERNEL_EVENT_VERSION {
        Err(TcpDecodeError::UnsupportedVersion(ne_u16(bytes, 8)))
    } else if pathology_for_code(bytes[10]) is None {
        Err(TcpDecodeError::UnsupportedKind(bytes[10]))
    } else if family_for_number(bytes[11]) is None {
        Err(TcpDecodeError::UnsupportedFamily(bytes[11]))
    } else {
        Ok(KernelTcpEvent {
            timestamp_ns: ne_u64(bytes, 0),
            kind: pathology_for_code(bytes[10]).unwrap(),
            family: family_for_number(bytes[11]).unwrap(),
            cpu: ne_u32(bytes, 12),
            source_port: ne_u16(bytes, 16),
            destination_port: ne_u16(bytes, 18),
            socket_state: ne_u32(bytes, 20),
            source_address: arbitrary_address(bytes.subrange(24, 40)),
            destination_address: arbitrary_address(bytes.subrange(40, 56)),
        })
    }
}

/// The address array whose bytes are `s`.
pub open spec fn arbitrary_address(s: Seq<u8>) -> [u8; 16] {
    choose|a: [u8; 16]| a@ == s
}

/// Copies 16 bytes starting at `at` into an address array.
pub fn read_address(bytes: &[u8], at: usize) -> (a: [u8; 16])
    requires
        at + 16 <= bytes@.len(),
    ensures
        a@ == bytes@.subrange(at as int, at + 16),
{
    let len = bytes.len();
    let mut a = [0u8; 16];
    let mut i: usize = 0;
    while i < 16
        invariant
            i <= 16,
            at + 16 <= bytes@.len(),
            len == bytes@.len(),
            a@.len() == 16,
            forall|j: int| 0 <= j < i ==> a@[j] == bytes@[at + j],
        decreases 16 - i,
    {
        a[i] = bytes[at + i];
        i = i + 1;
    }
    assert(a@ =~= bytes@.subrange(at as int, at + 16));
    a
}

impl KernelTcpEvent {
    /// Decodes exactly one kernel record.
    pub fn decode(bytes: &[u8]) -> (r: Result<KernelTcpEvent, TcpDecodeError>)
        ensures
            match decode_tcp(bytes@) {
                Ok(e) => r matches Ok(d) && d.timestamp_ns == e.timestamp_ns && d.kind == e.kind
                    && d.family == e.family && d.cpu == e.cpu && d.source_port == e.source_port
                    && d.destination_port == e.destination_port && d.socket_state == e.socket_state
                    && d.source_address@ == bytes@.subrange(24, 40) && d.destination_address@
                    == bytes@.subrange(40, 56),
                Err(err) => r == Err::<KernelTcpEvent, TcpDecodeError>(err),
            },
    {
        if bytes.len() != TCP_KERNEL_EVENT_BYTES {
            return Err(TcpDecodeError::WrongSize {
                expected: TCP_KERNEL_EVENT_BYTES,
                actual: bytes.len(),
            });
        }
        let version = read_ne_u16(bytes, 8);
        if version != TCP_KERNEL_EVENT_VERSION {
            return Err(TcpDecodeError::UnsupportedVersion(version));
        }
        let source_address = read_address(bytes, 24);
        let destination_address = read_address(bytes, 40);
        let kind = match TcpPathologyKind::from_code(bytes[10]) {
            Ok(kind) => kind,
            Err(error) => return Err(error),
        };
        let family = match TcpAddressFamily::decode(bytes[11]) {
            Ok(family) => family,
            Err(error) => return Err(error),
        };
        Ok(KernelTcpEvent {
            timestamp_ns: read_ne_u64(bytes, 0),
            kind,
            family,
            cpu: read_ne_u32(bytes, 12),
            source_port: read_ne_u16(bytes, 16),
            destination_port: read_ne_u16(bytes, 18),
            socket_state: read_ne_u32(bytes, 20),
            source_address,
            destination_address,
        })
    }
}

/// `a.b.c.d:port` for the first four address bytes.
pub open spec fn ipv4_endpoint(address: Seq<u8>, port: u16) -> Seq<char> {
    decimal(address[0] as nat) + "."@ + decimal(address[1] as nat) + "."@ + decimal(
        address[2] as nat,
    ) + "."@ + decimal(address[3] as nat) + ":"@ + decimal(port as nat)
}

/// The endpoint text of an IPv4 address (its first four bytes) and port,
/// as `SocketAddr`'s `to_string` renders it.
pub fn ipv4_endpoint_text(address: [u8; 16], port: u16) -> (s: String)
    ensures
        s@ == ipv4_endpoint(address@, port),
{
    let mut s = u64_text(address[0] as u64);
    s.append(".");
    s.append(u64_text(address[1] as u64).as_str());
    s.append(".");
    s.append(u64_text(address[2] as u64).as_str());
    s.append(".");
    s.append(u64_text(address[3] as u64).as_str());
    s.append(":");
    s.append(u64_text(port as u64).as_str());
    s
}

/// `a` sorts before or equal to `b`, comparing characters by code point
/// (which is the byte order of their UTF-8 encodings).
pub open spec fn text_le(a: Seq<char>, b: Seq<char>) -> bool {
    exists|k: int|
        #![trigger a.subrange(0, k)]
        0 <= k <= a.len() && k <= b.len() && a.subrange(0, k) == b.subrange(0, k) && (k == a.len()
            || (k < b.len() && (a[k] as u32) < (b[k] as u32)))
}

/// Compares two strings as `<=` on `str` does.
pub fn str_le(a: &str, b: &str) -> (r: bool)
    ensures
        r == text_le(a@, b@),
{
    let x = crate::text::chars_of(a);
    let y = crate::text::chars_of(b);
    let mut k: usize = 0;
    while k < x.len() && k < y.len() && x[k] == y[k]
        invariant
            k <= x.len(),
            k <= y.len(),
            x@.subrange(0, k as int) == y@.subrange(0, k as int),
        decreases x.len() - k,
    {
        assert(x@.subrange(0, k + 1) =~= x@.subrange(0, k as int).push(x@[k as int]));
        assert(y@.subrange(0, k + 1) =~= y@.subrange(0, k as int).push(y@[k as int]));
        k = k + 1;
    }
    let r = k == x.len() || (k < y.len() && (x[k] as u32) < (y[k] as u32));
    proof {
        if r {
            assert(x@.subrange(0, k as int) == y@.subrange(0, k as int));
        } else {
            assert forall|j: int|
                #![trigger x@.subrange(0, j)]
                0 <= j <= x@.len() && j <= y@.len() && x@.subrange(0, j) == y@.subrange(0, j)
                    implies !(j == x@.len() || (j < y@.len() && (x@[j] as u32) < (y@[j] as u32))) by {
                if j > k {
                    assert(x@.subrange(0, j)[k as int] == y@.subrange(0, j)[k as int]);
                } else if j < k {
                    assert(x@.subrange(0, k as int)[j] == y@.subrange(0, k as int)[j]);
                }
            }
        }
    }
    r
}

/// `tcp:A<->B` with the two endpoints in sorted order.
pub open spec fn flow_lane_text(left: Seq<char>, right: Seq<char>) -> Seq<char> {
    if text_le(left, right) {
        "tcp:"@ + left + "<->"@ + right
    } else {
        "tcp:"@ + right + "<->"@ + left
    }
}

/// The lane of a TCP flow, the same for both directions.
pub fn stable_flow_lane(left: &str, right: &str) -> (s: String)
    ensures
        s@ == flow_lane_text(left@, right@),
{
    let mut s = String::from_str("tcp:");
    if str_le(left, right) {
        s.append(left);
        s.append("<->");
        s.append(right);
    } else {
        s.append(right);
        s.append("<->");
        s.append(left);
    }
    s
}

/// The normalized category of a pathology.
pub open spec fn pathology_category(kind: TcpPathologyKind) -> Seq<char> {
    match kind {
        TcpPathologyKind::Retransmit => "tcp.retransmit"@,
        TcpPathologyKind::ResetSent => "tcp.reset.send"@,
        TcpPathologyKind::ResetReceived => "tcp.reset.receive"@,
    }
}

/// The impact (magnitude) of a single pathology.
pub open spec fn pathology_impact(kind: TcpPathologyKind) -> u64 {
    match kind {
        TcpPathologyKind::Retransmit => 4_096,
        TcpPathologyKind::ResetSent => 12_288,
        TcpPathologyKind::ResetReceived => 14_336,
    }
}

/// The normalized event of a TCP record whose local and peer endpoints
/// read `local` and `peer`: resets received flow from the peer inward, the
/// others from the local endpoint outward.
pub open spec fn tcp_event(e: NormalizedEvent, k: KernelTcpEvent, local: Seq<char>, peer: Seq<char>) -> bool {
    let received = k.kind == TcpPathologyKind::ResetReceived;
    &&& e.v == SCHEMA_VERSION
    &&& e.timestamp == Some(Quantity::Ratio { numerator: k.timestamp_ns, denominator: NANOS_PER_SECOND })
    &&& e.category@ == pathology_category(k.kind)
    &&& e.origin is Some && e.origin.unwrap()@ == (if received { peer } else { local })
    &&& e.target is Some && e.target.unwrap()@ == (if received { local } else { peer })
    &&& e.direction == (if received { Direction::Inbound } else { Direction::Outbound })
    &&& e.magnitude == Quantity::Ratio { numerator: pathology_impact(k.kind), denominator: 1 }
    &&& e.labels@ == map![
        "address_family"@ => family_label(k.family),
        "cpu"@ => decimal(k.cpu as nat),
        "local_port"@ => decimal(k.source_port as nat),
        "peer_port"@ => decimal(k.destination_port as nat),
        "socket_state"@ => decimal(k.socket_state as nat),
        "synesthesia.lane"@ => flow_lane_text(local, peer),
        "tcp_pathology"@ => pathology_category(k.kind),
    ]
}

fn pathology_category_text(kind: TcpPathologyKind) -> (s: &'static str)
    ensures
        s@ == pathology_category(kind),
{
    match kind {
        TcpPathologyKind::Retransmit => "tcp.retransmit",
        TcpPathologyKind::ResetSent => "tcp.reset.send",
        TcpPathologyKind::ResetReceived => "tcp.reset.receive",
    }
}

impl KernelTcpEvent {
    /// The normalized event for this record, given the text of its local
    /// (source) and peer (destination) endpoints.
    pub fn normalize_with_endpoints(self, local: String, peer: String) -> (e: NormalizedEvent)
        ensures
            tcp_event(e, self, local@, peer@),
    {
        let lane = stable_flow_lane(local.as_str(), peer.as_str());
        let category = pathology_category_text(self.kind);
        let mut labels = Labels::new();
        labels.insert_str("address_family", String::from_str(self.family.label()));
        labels.insert_str("cpu", u64_text(self.cpu as u64));
        labels.insert_str("local_port", u64_text(self.source_port as u64));
        labels.insert_str("peer_port", u64_text(self.destination_port as u64));
        labels.insert_str("socket_state", u64_text(self.socket_state as u64));
        labels.insert_str("synesthesia.lane", lane);
        labels.insert_str("tcp_pathology", String::from_str(category));
        let ghost local_text = local@;
        let ghost peer_text = peer@;
        let (origin, target, direction, magnitude) = match self.kind {
            TcpPathologyKind::Retransmit => (local, peer, Direction::Outbound, 4_096u64),
            TcpPathologyKind::ResetSent => (local, peer, Direction::Outbound, 12_288u64),
            TcpPathologyKind::ResetReceived => (peer, local, Direction::Inbound, 14_336u64),
        };
        proof {
            let expected = map![
                "address_family"@ => family_label(self.family),
                "cpu"@ => decimal(self.cpu as nat),
                "local_port"@ => decimal(self.source_port as nat),
                "peer_port"@ => decimal(self.destination_port as nat),
                "socket_state"@ => decimal(self.socket_state as nat),
                "synesthesia.lane"@ => flow_lane_text(local_text, peer_text),
                "tcp_pathology"@ => pathology_category(self.kind),
            ];
            assert(labels@ =~= expected);
        }
        NormalizedEvent {
            v: SCHEMA_VERSION,
            timestamp: Some(Quantity::Ratio { numerator: self.timestamp_ns, denominator: NANOS_PER_SECOND }),
            category: String::from_str(category),
            origin: Some(origin),
            target: Some(target),
            magnitude: Quantity::Ratio { numerator: magnitude, denominator: 1 },
            direction,
            labels,
        }
    }
}

/// Why the live TCP source cannot run.
#[derive(Clone, Debug, PartialEq, Eq)]
pub enum TcpSourceError {
    UnsupportedOperatingSystem,
    FeatureDisabled,
    UnsupportedArchitecture(String),
    MissingBtf,
    TracepointUnavailable(String),
    InsufficientPermissions(String),
    VerifierRejected(String),
    RingBufferSetup(String),
    MissingDevelopmentDependency(String),
    Load(String),
}

/// `e` is the classification of the TCP loader message `message`; the
/// helper's own "insufficient eBPF permissions" report counts as a
/// permission failure too.
pub open spec fn classified_tcp_load_error(e: TcpSourceError, message: Seq<char>) -> bool {
    match load_failure_class(message, "insufficient ebpf permissions"@) {
        LoadFailureClass::Permission => (e matches TcpSourceError::InsufficientPermissions(advice)
            && advice@ == privilege_advice()),
        LoadFailureClass::Verifier => (e matches TcpSourceError::VerifierRejected(m) && m@ == message),
        LoadFailureClass::RingBuffer => (e matches TcpSourceError::RingBufferSetup(m) && m@
            == message),
        LoadFailureClass::Other => (e matches TcpSourceError::Load(m) && m@ == message),
    }
}

impl TcpSourceError {
    /// Classifies a loader message like the scheduler source does, also
    /// treating "insufficient eBPF permissions" as a permission failure.
    pub fn classify_load_message(message: &str) -> (e: TcpSourceError)
        ensures
            classified_tcp_load_error(e, message@),
    {
        match classify_message(message, "insufficient ebpf permissions") {
            LoadFailureClass::Permission => TcpSourceError::InsufficientPermissions(
                String::from_str("run the built binary explicitly with sufficient BPF privileges"),
            ),
            LoadFailureClass::Verifier => TcpSourceError::VerifierRejected(String::from_str(message)),
            LoadFailureClass::RingBuffer => TcpSourceError::RingBufferSetup(
                String::from_str(message),
            ),
            LoadFailureClass::Other => TcpSourceError::Load(String::from_str(message)),
        }
    }
}

/// The attach failure for one TCP tracepoint: a missing tracepoint is
/// `TracepointUnavailable`; anything else is classified as a load message.
pub fn classify_tcp_attach_error(tracepoint: &str, message: &str) -> (e: TcpSourceError)
    ensures
        (contains_seq(ascii_lower(message@), "no such file"@) || contains_seq(
            ascii_lower(message@),
            "not found"@,
        )) ==> (e matches TcpSourceError::TracepointUnavailable(t) && t@ == tracepoint@),
        !(contains_seq(ascii_lower(message@), "no such file"@) || contains_seq(
            ascii_lower(message@),
            "not found"@,
        )) ==> classified_tcp_load_error(e, message@),
{
    let lower = to_ascii_lower(message);
    if chars_contain(&lower, "no such file") || chars_contain(&lower, "not found") {
        TcpSourceError::TracepointUnavailable(String::from_str(tracepoint))
    } else {
        TcpSourceError::classify_load_message(message)
    }
}

/// The message of a refused kernel TCP record.
pub open spec fn tcp_decode_text(e: TcpDecodeError) -> Seq<char> {
    match e {
        TcpDecodeError::WrongSize { expected, actual } => "TCP pathology event has "@ + decimal(actual as nat)
            + " bytes; expected exactly "@ + decimal(expected as nat),
        TcpDecodeError::UnsupportedVersion(v) => "unsupported TCP pathology event version "@ + decimal(v as nat)
            + "; supported kernel event version is 1"@,
        TcpDecodeError::UnsupportedKind(k) => "unsupported TCP pathology event kind "@ + decimal(k as nat),
        TcpDecodeError::UnsupportedFamily(f) => "unsupported TCP address family "@ + decimal(f as nat),
    }
}

impl TcpDecodeError {
    /// The human-readable description of the error.
    pub fn message(&self) -> (s: String)
        ensures
            s@ == tcp_decode_text(*self),
    {
        match self {
            TcpDecodeError::WrongSize { expected, actual } => {
                let mut s = around_number("TCP pathology event has ", *actual as u64, " bytes; expected exactly ");
                let digits = u64_text(*expected as u64);
                s.append(digits.as_str());
                s
            },
            TcpDecodeError::UnsupportedVersion(v) => around_number(
                "unsupported TCP pathology event version ",
                *v as u64,
                "; supported kernel event version is 1",
            ),
            TcpDecodeError::UnsupportedKind(k) => with_number("unsupported TCP pathology event kind ", *k as u64),
            TcpDecodeError::UnsupportedFamily(f) => with_number("unsupported TCP address family ", *f as u64),
        }
    }
}

/// The message of a TCP source error.
pub open spec fn tcp_source_text(e: TcpSourceError) -> Seq<char> {
    match e {
        TcpSourceError::UnsupportedOperatingSystem => "the eBPF TCP pathology source is supported only on Linux"@,
        TcpSourceError::FeatureDisabled => "the eBPF TCP pathology source is not compiled in; rebuild with --features ebpf"@,
        TcpSourceError::UnsupportedArchitecture(a) => "unsupported architecture "@ + a@
            + "; this build currently supports x86_64"@,
        TcpSourceError::MissingBtf => "kernel BTF is unavailable at /sys/kernel/btf/vmlinux"@,
        TcpSourceError::TracepointUnavailable(n) => "required TCP tracepoint is unavailable: "@ + n@,
        TcpSourceError::InsufficientPermissions(m) => "insufficient eBPF permissions: "@ + m@,
        TcpSourceError::VerifierRejected(m) => "the kernel eBPF verifier rejected the TCP pathology program: "@ + m@,
        TcpSourceError::RingBufferSetup(m) => "could not create or read the TCP eBPF ring buffer: "@ + m@,
        TcpSourceError::MissingDevelopmentDependency(m) => "missing external eBPF build dependency: "@ + m@,
        TcpSourceError::Load(m) => "could not load the eBPF TCP pathology source: "@ + m@,
    }
}

impl TcpSourceError {
    /// The human-readable description of the error.
    pub fn message(&self) -> (s: String)
        ensures
            s@ == tcp_source_text(*self),
    {
        match self {
            TcpSourceError::UnsupportedOperatingSystem => String::from_str(
                "the eBPF TCP pathology source is supported only on Linux",
            ),
            TcpSourceError::FeatureDisabled => String::from_str(
                "the eBPF TCP pathology source is not compiled in; rebuild with --features ebpf",
            ),
            TcpSourceError::UnsupportedArchitecture(a) => concat3(
                "unsupported architecture ",
                a.as_str(),
                "; this build currently supports x86_64",
            ),
            TcpSourceError::MissingBtf => String::from_str("kernel BTF is unavailable at /sys/kernel/btf/vmlinux"),
            TcpSourceError::TracepointUnavailable(n) => concat2("required TCP tracepoint is unavailable: ", n.as_str()),
            TcpSourceError::InsufficientPermissions(m) => concat2("insufficient eBPF permissions: ", m.as_str()),
            TcpSourceError::VerifierRejected(m) => concat2(
                "the kernel eBPF verifier rejected the TCP pathology program: ",
                m.as_str(),
            ),
            TcpSourceError::RingBufferSetup(m) => concat2(
                "could not create or read the TCP eBPF ring buffer: ",
                m.as_str(),
            ),
            TcpSourceError::MissingDevelopmentDependency(m) => concat2(
                "missing external eBPF build dependency: ",
                m.as_str(),
            ),
            TcpSourceError::Load(m) => concat2("could not load the eBPF TCP pathology source: ", m.as_str()),
        }
    }
}

} // verus!
