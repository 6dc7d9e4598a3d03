//! Plain text lines as events: each line is hashed, and the hash picks its
//! category, direction, lane and origin.
use vstd::prelude::*;

use crate::event::{Direction, EventView, Labels, NormalizedEvent, Quantity, SCHEMA_VERSION};
use crate::source::{fnv1a, stable_hash, SourceStats};
use crate::text::{bounded_text, bounded_text_exec, decimal, hex_fixed, hex_fixed_text, u64_text};

verus! {

/// The text `String::from_utf8_lossy` makes of `bytes`.
pub uninterp spec fn lossy_text(bytes: Seq<u8>) -> Seq<char>;

/// `String::from_utf8_lossy`: the bytes as text, each invalid sequence
/// replaced by U+FFFD.
#[verifier::external_body]
fn utf8_lossy(bytes: &[u8]) -> (s: String)
    ensures
        s@ == lossy_text(bytes@),
{
    String::from_utf8_lossy(bytes).into_owned()
}

/// A record without its trailing line feeds and carriage returns.
pub open spec fn trimmed_line(b: Seq<u8>) -> Seq<u8>
    decreases b.len(),
{
    if b.len() > 0 && (b.last() == 10u8 || b.last() == 13u8) {
        trimmed_line(b.drop_last())
    } else {
        b
    }
}

/// The category a line hash picks.
pub open spec fn line_category(h: u64) -> Seq<char> {
    let i = h % 4;
    if i == 0 {
        "whisper"@
    } else if i == 1 {
        "pulse"@
    } else if i == 2 {
        "spark"@
    } else {
        "drift"@
    }
}

/// The direction a line hash picks.
pub open spec fn line_direction(h: u64) -> Direction {
    let i = (h >> 8u64) % 4;
    if i == 0 {
        Direction::Inbound
    } else if i == 1 {
        Direction::Outbound
    } else if i == 2 {
        Direction::Neutral
    } else {
        Direction::Unknown
    }
}

/// The event of one read record (a line with its line end): category,
/// direction, lane and `line:` origin from the hash of the trimmed line,
/// the record's byte count as magnitude, and a preview of at most 48
/// printable characters.
pub open spec fn line_event(record: Seq<u8>, timestamp: Option<Quantity>) -> EventView {
    let line = trimmed_line(record);
    let h = fnv1a(line);
    EventView {
        v: SCHEMA_VERSION,
        timestamp,
        category: line_category(h),
        origin: Some("line:"@ + hex_fixed((h % 65536) as nat, 4)),
        target: None,
        magnitude: Quantity::Ratio { numerator: record.len() as u64, denominator: 1 },
        direction: line_direction(h),
        labels: Map::<Seq<char>, Seq<char>>::empty().insert("lane"@, decimal(((h >> 16u64) % 32) as nat)).insert(
            "preview"@,
            bounded_text(lossy_text(line), 48),
        ),
    }
}

/// Events from plain text lines; reading the lines is the caller's.
pub struct LineSource {
    stats: SourceStats,
}

fn category_name(h: u64) -> (s: &'static str)
    ensures
        s@ == line_category(h),
{
    let i = h % 4;
    if i == 0 {
        "whisper"
    } else if i == 1 {
        "pulse"
    } else if i == 2 {
        "spark"
    } else {
        "drift"
    }
}

fn trim_line_end(record: &[u8]) -> (n: usize)
    ensures
        n <= record@.len(),
        trimmed_line(record@) == record@.subrange(0, n as int),
{
    let mut n = record.len();
    assert(record@.subrange(0, n as int) =~= record@);
    while n > 0 && (record[n - 1] == 10u8 || record[n - 1] == 13u8)
        invariant
            n <= record@.len(),
            trimmed_line(record@) == trimmed_line(record@.subrange(0, n as int)),
        decreases n,
    {
        assert(record@.subrange(0, n as int).drop_last() =~= record@.subrange(0, n - 1));
        n = n - 1;
    }
    n
}

impl LineSource {
    /// A source that has accepted nothing yet.
    pub fn new() -> (s: LineSource)
        ensures
            s.stats() == (SourceStats { accepted: 0, malformed: 0 }),
    {
        LineSource { stats: SourceStats { accepted: 0, malformed: 0 } }
    }

    /// What the source has accepted and refused.
    pub closed spec fn spec_stats(&self) -> SourceStats {
        self.stats
    }

    /// What the source has accepted and refused.
    #[verifier::when_used_as_spec(spec_stats)]
    pub fn stats(&self) -> (s: SourceStats)
        ensures
            s == self.spec_stats(),
    {
        self.stats
    }

    /// The event of one record as read with its line end (empty at the end
    /// of input, which yields nothing), stamped with `timestamp`.
    pub fn next_event(&mut self, record: &[u8], timestamp: Option<Quantity>) -> (r: Option<NormalizedEvent>)
        requires
            record@.len() > 0 ==> old(self).stats().accepted < u64::MAX,
        ensures
            record@.len() == 0 ==> r is None && final(self).stats() == old(self).stats(),
            record@.len() > 0 ==> (r matches Some(e) && e@ == line_event(record@, timestamp)),
            record@.len() > 0 ==> final(self).stats() == (SourceStats {
                accepted: (old(self).stats().accepted + 1) as u64,
                ..old(self).stats()
            }),
    {
        if record.len() == 0 {
            return None;
        }
        let n = trim_line_end(record);
        let line = vstd::slice::slice_subrange(record, 0, n);
        let hash = stable_hash(line);
        let direction = match (hash >> 8) % 4 {
            0 => Direction::Inbound,
            1 => Direction::Outbound,
            2 => Direction::Neutral,
            _ => Direction::Unknown,
        };
        let mut labels = Labels::new();
        labels.insert_str("lane", u64_text((hash >> 16) % 32));
        let text = utf8_lossy(line);
        labels.insert_str("preview", bounded_text_exec(text.as_str(), 48));
        let mut origin = String::from_str("line:");
        let digits = hex_fixed_text(hash % 65536, 4);
        origin.append(digits.as_str());
        self.stats.accepted = self.stats.accepted + 1;
        Some(
            NormalizedEvent {
                v: SCHEMA_VERSION,
                timestamp,
                category: String::from_str(category_name(hash)),
                origin: Some(origin),
                target: None,
                magnitude: Quantity::whole(record.len() as u64),
                direction,
                labels,
            },
        )
    }
}

} // verus!
