//! Event sources: shared counters, the stable content hash and bounded
//! record framing, plus one module per source.
use vstd::prelude::*;
use vstd::string::StringSliceAdditionalSpecFns;

pub mod demo;
pub mod ebpf_prerequisites;
pub mod lines;
pub mod ndjson;
pub mod procfs;
pub mod scheduler;
pub mod scheduler_ipc;
pub mod tcp;
pub mod tcp_ipc;
pub mod tshark;

verus! {

/// Records accepted and refused by a source.
#[derive(Clone, Copy, Debug, PartialEq, Eq, Structural)]
pub struct SourceStats {
    pub accepted: u64,
    pub malformed: u64,
}

impl Default for SourceStats {
    fn default() -> (s: Self)
        ensures
            s.accepted == 0,
            s.malformed == 0,
    {
        SourceStats { accepted: 0, malformed: 0 }
    }
}

pub const FNV_OFFSET: u64 = 0xcbf2_9ce4_8422_2325;

pub const FNV_PRIME: u64 = 0x0000_0100_0000_01b3;

/// 64-bit FNV-1a over a byte sequence.
pub open spec fn fnv1a(bytes: Seq<u8>) -> u64
    decreases bytes.len(),
{
    if bytes.len() == 0 {
        FNV_OFFSET
    } else {
        vstd::wrapping::u64_specs::wrapping_mul(
            fnv1a(bytes.drop_last()) ^ (bytes.last() as u64),
            FNV_PRIME,
        )
    }
}

/// The stable 64-bit FNV-1a hash of `bytes`.
pub fn stable_hash(bytes: &[u8]) -> (h: u64)
    ensures
        h == fnv1a(bytes@),
{
    let mut hash = FNV_OFFSET;
    let mut i: usize = 0;
    while i < bytes.len()
        invariant
            i <= bytes.len(),
            hash == fnv1a(bytes@.subrange(0, i as int)),
        decreases bytes.len() - i,
    {
        proof {
            assert(bytes@.subrange(0, i + 1).drop_last() =~= bytes@.subrange(0, i as int));
        }
        hash = (hash ^ (bytes[i] as u64)).wrapping_mul(FNV_PRIME);
        i = i + 1;
    }
    assert(bytes@.subrange(0, bytes@.len() as int) =~= bytes@);
    hash
}

/// The UTF-8 encoding of a string made of ASCII characters.
pub open spec fn ascii_bytes(s: Seq<char>) -> Seq<u8> {
    Seq::new(s.len(), |i: int| s[i] as u8)
}

/// All characters are ASCII.
pub open spec fn all_ascii(s: Seq<char>) -> bool {
    forall|i: int| 0 <= i < s.len() ==> '\0' <= #[trigger] s[i] <= '\u{7f}'
}

/// The stable hash of the text of an ASCII string.
pub fn stable_hash_str(s: &str) -> (h: u64)
    requires
        all_ascii(s@),
    ensures
        h == fnv1a(ascii_bytes(s@)),
{
    proof {
        broadcast use vstd::string::is_ascii_spec_bytes;
        assert(vstd::utf8::is_ascii_chars(s@));
        assert(vstd::string::is_ascii(s));
        assert(s.spec_bytes() =~= ascii_bytes(s@));
    }
    stable_hash(s.as_bytes())
}

/// Little-endian `u16` at byte offset `at`.
pub open spec fn le_u16(bytes: Seq<u8>, at: int) -> u16 {
    vstd::bytes::spec_u16_from_le_bytes(bytes.subrange(at, at + 2))
}

/// Little-endian `u32` at byte offset `at`.
pub open spec fn le_u32(bytes: Seq<u8>, at: int) -> u32 {
    vstd::bytes::spec_u32_from_le_bytes(bytes.subrange(at, at + 4))
}

/// Little-endian `u64` at byte offset `at`.
pub open spec fn le_u64(bytes: Seq<u8>, at: int) -> u64 {
    vstd::bytes::spec_u64_from_le_bytes(bytes.subrange(at, at + 8))
}

/// Reads a little-endian `u16`.
pub fn read_u16(bytes: &[u8], at: usize) -> (x: u16)
    requires
        at + 2 <= bytes@.len(),
    ensures
        x == le_u16(bytes@, at as int),
{
    let _len = bytes.len();
    vstd::bytes::u16_from_le_bytes(vstd::slice::slice_subrange(bytes, at, at + 2))
}

/// Reads a little-endian `u32`.
pub fn read_u32(bytes: &[u8], at: usize) -> (x: u32)
    requires
        at + 4 <= bytes@.len(),
    ensures
        x == le_u32(bytes@, at as int),
{
    let _len = bytes.len();
    vstd::bytes::u32_from_le_bytes(vstd::slice::slice_subrange(bytes, at, at + 4))
}

/// Reads a little-endian `u64`.
pub fn read_u64(bytes: &[u8], at: usize) -> (x: u64)
    requires
        at + 8 <= bytes@.len(),
    ensures
        x == le_u64(bytes@, at as int),
{
    let _len = bytes.len();
    vstd::bytes::u64_from_le_bytes(vstd::slice::slice_subrange(bytes, at, at + 8))
}

/// The machine's byte order, as vstd abstracts it.
pub open spec fn little_endian_machine() -> bool {
    vstd::endian::endianness() is Little
}

/// `u16` at byte offset `at` in the machine's byte order.
pub open spec fn ne_u16(bytes: Seq<u8>, at: int) -> u16 {
    if little_endian_machine() {
        le_u16(bytes, at)
    } else {
        vstd::bytes::spec_u16_from_le_bytes(bytes.subrange(at, at + 2).reverse())
    }
}

/// `u32` at byte offset `at` in the machine's byte order.
pub open spec fn ne_u32(bytes: Seq<u8>, at: int) -> u32 {
    if little_endian_machine() {
        le_u32(bytes, at)
    } else {
        vstd::bytes::spec_u32_from_le_bytes(bytes.subrange(at, at + 4).reverse())
    }
}

/// `u64` at byte offset `at` in the machine's byte order.
pub open spec fn ne_u64(bytes: Seq<u8>, at: int) -> u64 {
    if little_endian_machine() {
        le_u64(bytes, at)
    } else {
        vstd::bytes::spec_u64_from_le_bytes(bytes.subrange(at, at + 8).reverse())
    }
}

/// `u16::from_ne_bytes` on `bytes[at..at + 2]`: the integer whose memory
/// representation, in the machine's byte order, is those bytes.
#[verifier::external_body]
pub(crate) fn read_ne_u16(bytes: &[u8], at: usize) -> (x: u16)
    requires
        at + 2 <= bytes@.len(),
    ensures
        x == ne_u16(bytes@, at as int),
{
    u16::from_ne_bytes([bytes[at], bytes[at + 1]])
}

/// `u32::from_ne_bytes` on `bytes[at..at + 4]`: the integer whose memory
/// representation, in the machine's byte order, is those bytes.
#[verifier::external_body]
pub(crate) fn read_ne_u32(bytes: &[u8], at: usize) -> (x: u32)
    requires
        at + 4 <= bytes@.len(),
    ensures
        x == ne_u32(bytes@, at as int),
{
    u32::from_ne_bytes([bytes[at], bytes[at + 1], bytes[at + 2], bytes[at + 3]])
}

/// `u64::from_ne_bytes` on `bytes[at..at + 8]`: the integer whose memory
/// representation, in the machine's byte order, is those bytes.
#[verifier::external_body]
pub(crate) fn read_ne_u64(bytes: &[u8], at: usize) -> (x: u64)
    requires
        at + 8 <= bytes@.len(),
    ensures
        x == ne_u64(bytes@, at as int),
{
    u64::from_ne_bytes([
        bytes[at],
        bytes[at + 1],
        bytes[at + 2],
        bytes[at + 3],
        bytes[at + 4],
        bytes[at + 5],
        bytes[at + 6],
        bytes[at + 7],
    ])
}

/// Bytes of a record that are kept; longer records are truncated.
pub const MAX_RECORD_BYTES: usize = 64 * 1024;

/// How one buffered chunk is taken into a bounded record: the bytes that
/// are consumed from the reader, and whether the record ended.
pub struct RecordStep {
    pub consumed: usize,
    pub complete: bool,
}

/// Takes one chunk of buffered input into `buffer`: everything up to and
/// including the first newline (or the whole chunk when there is none) is
/// consumed, but only as many bytes as keep `buffer` within
/// [`MAX_RECORD_BYTES`] are kept. `total` counts every consumed byte,
/// saturating.
pub fn absorb_chunk(buffer: &mut Vec<u8>, total: &mut usize, available: &[u8]) -> (step: RecordStep)
    ensures
        step.complete == exists|i: int| 0 <= i < available@.len() && available@[i] == 10u8,
        step.complete ==> 1 <= step.consumed && step.consumed < available@.len() + 1 && available@[step.consumed - 1]
            == 10u8 && forall|j: int| 0 <= j < step.consumed - 1 ==> available@[j] != 10u8,
        !step.complete ==> step.consumed == available@.len(),
        final(buffer)@ == old(buffer)@ + available@.subrange(
            0,
            if old(buffer)@.len() >= MAX_RECORD_BYTES {
                0
            } else if step.consumed <= MAX_RECORD_BYTES - old(buffer)@.len() {
                step.consumed as int
            } else {
                MAX_RECORD_BYTES - old(buffer)@.len()
            },
        ),
        *final(total) == if *old(total) + step.consumed > usize::MAX {
            usize::MAX
        } else {
            (*old(total) + step.consumed) as usize
        },
{
    let mut newline: usize = 0;
    while newline < available.len()
        invariant
            newline <= available.len(),
            forall|j: int| 0 <= j < newline ==> available@[j] != 10u8,
        ensures
            newline <= available.len(),
            forall|j: int| 0 <= j < newline ==> available@[j] != 10u8,
            newline < available.len() ==> available@[newline as int] == 10u8,
        decreases available.len() - newline,
    {
        if available[newline] == 10u8 {
            break;
        }
        newline = newline + 1;
    }
    let complete = newline < available.len();
    let consumed = if complete { newline + 1 } else { available.len() };
    let remaining = MAX_RECORD_BYTES.saturating_sub(buffer.len());
    let copied = if consumed < remaining { consumed } else { remaining };
    let ghost before = buffer@;
    let mut i: usize = 0;
    while i < copied
        invariant
            i <= copied <= available.len(),
            buffer@ == before + available@.subrange(0, i as int),
        decreases copied - i,
    {
        buffer.push(available[i]);
        i = i + 1;
        assert(buffer@ =~= before + available@.subrange(0, i as int));
    }
    *total = total.saturating_add(consumed);
    proof {
        if !complete {
            assert(forall|i: int| 0 <= i < available@.len() ==> available@[i] != 10u8);
        }
    }
    RecordStep { consumed, complete }
}

/// Was the record longer than [`MAX_RECORD_BYTES`]?
pub fn record_truncated(total: usize) -> (b: bool)
    ensures
        b == (total > MAX_RECORD_BYTES),
{
    total > MAX_RECORD_BYTES
}

} // verus!
