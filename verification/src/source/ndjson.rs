//! Newline-delimited JSON events: blank records are skipped, decoded
//! records are validated, and both refusals are counted.
use vstd::prelude::*;

use crate::event::{validation_error, EventError, NormalizedEvent};
use crate::source::SourceStats;

verus! {

/// `u8::is_ascii_whitespace`: space, tab, line feed, form feed, carriage
/// return.
pub open spec fn ascii_whitespace(b: u8) -> bool {
    b == 32u8 || b == 9u8 || b == 10u8 || b == 12u8 || b == 13u8
}

/// A record that holds nothing but ASCII whitespace.
pub open spec fn blank_record(record: Seq<u8>) -> bool {
    forall|i: int| 0 <= i < record.len() ==> ascii_whitespace(#[trigger] record[i])
}

/// Events from NDJSON records; reading and decoding them is the caller's.
pub struct NdjsonSource {
    stats: SourceStats,
}

impl NdjsonSource {
    /// A source that has accepted nothing yet.
    pub fn new() -> (s: NdjsonSource)
        ensures
            s.stats() == (SourceStats { accepted: 0, malformed: 0 }),
    {
        NdjsonSource { stats: SourceStats { accepted: 0, malformed: 0 } }
    }

    /// What the source has accepted and refused.
    pub closed spec fn spec_stats(&self) -> SourceStats {
        self.stats
    }

    /// What the source has accepted and refused.
    #[verifier::when_used_as_spec(spec_stats)]
    pub fn stats(&self) -> (s: SourceStats)
        ensures
            s == self.spec_stats(),
    {
        self.stats
    }

    /// Is the record blank, to be skipped without counting?
    pub fn is_blank(record: &[u8]) -> (b: bool)
        ensures
            b == blank_record(record@),
    {
        let mut i: usize = 0;
        while i < record.len()
            invariant
                i <= record.len(),
                forall|j: int| 0 <= j < i ==> ascii_whitespace(#[trigger] record@[j]),
            decreases record.len() - i,
        {
            let b = record[i];
            if !(b == 32u8 || b == 9u8 || b == 10u8 || b == 12u8 || b == 13u8) {
                assert(!ascii_whitespace(record@[i as int]));
                return false;
            }
            i = i + 1;
        }
        true
    }

    /// Takes a decoded record: a valid event is accepted, an invalid one is
    /// counted as malformed and its error returned.
    pub fn accept(&mut self, decoded: NormalizedEvent) -> (r: Result<NormalizedEvent, EventError>)
        requires
            validation_error(decoded) is None ==> old(self).stats().accepted < u64::MAX,
            validation_error(decoded) is Some ==> old(self).stats().malformed < u64::MAX,
        ensures
            match validation_error(decoded) {
                None => r == Ok::<NormalizedEvent, EventError>(decoded) && final(self).stats() == (SourceStats {
                    accepted: (old(self).stats().accepted + 1) as u64,
                    ..old(self).stats()
                }),
                Some(e) => r == Err::<NormalizedEvent, EventError>(e) && final(self).stats() == (SourceStats {
                    malformed: (old(self).stats().malformed + 1) as u64,
                    ..old(self).stats()
                }),
            },
    {
        match decoded.validate() {
            Ok(event) => {
                self.stats.accepted = self.stats.accepted + 1;
                Ok(event)
            },
            Err(e) => {
                self.stats.malformed = self.stats.malformed + 1;
                Err(e)
            },
        }
    }

    /// Counts a record that could not be decoded as an event.
    pub fn undecodable(&mut self)
        requires
            old(self).stats().malformed < u64::MAX,
        ensures
            final(self).stats() == (SourceStats {
                malformed: (old(self).stats().malformed + 1) as u64,
                ..old(self).stats()
            }),
    {
        self.stats.malformed = self.stats.malformed + 1;
    }
}

} // verus!
