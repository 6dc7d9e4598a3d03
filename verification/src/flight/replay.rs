//! Replaying a recorded incident: metadata records announce the incident's
//! source, and trigger markers are labelled with it.
use vstd::prelude::*;

use crate::event::{EventView, NormalizedEvent};
use crate::flight::{
    metadata_verdict, parse_metadata_event, source_name, FlightError, FlightSource, MetadataVerdict,
    METADATA_CATEGORY, TRIGGER_CATEGORY,
};
use crate::text::str_eq;

verus! {

/// What a replay remembers between records: the source the last metadata
/// record announced.
#[derive(Clone, Copy, Debug, PartialEq, Eq, Structural)]
pub struct IncidentReplay {
    pub flight_source: Option<FlightSource>,
}

/// A replayed record: metadata records are shown at once, other records
/// after the time that separates them from the previous one.
#[derive(Debug)]
pub struct Replayed {
    pub metadata: bool,
    pub event: NormalizedEvent,
}

/// A trigger marker labelled with the incident's source, unless it already
/// names one.
pub open spec fn with_source(e: EventView, source: Option<FlightSource>) -> EventView {
    match source {
        Some(s) => if e.labels.contains_key("source"@) {
            e
        } else {
            EventView { labels: e.labels.insert("source"@, source_name(s)), ..e }
        },
        None => e,
    }
}

impl IncidentReplay {
    /// A replay that has seen no metadata yet.
    pub fn new() -> (r: IncidentReplay)
        ensures
            r.flight_source is None,
    {
        IncidentReplay { flight_source: None }
    }

    /// Takes the next recorded event: a metadata record sets the source it
    /// announces (none, for other metadata) or is refused when malformed;
    /// a trigger marker gains the source label.
    pub fn next(&mut self, event: NormalizedEvent) -> (r: Result<Replayed, FlightError>)
        ensures
            event@.category == METADATA_CATEGORY@ ==> match metadata_verdict(event@) {
                MetadataVerdict::Parsed { source, .. } => r matches Ok(x) && x.metadata && x.event@ == event@
                    && final(self).flight_source == Some(source),
                MetadataVerdict::NotMetadata => false,
                _ => r is Err && *final(self) == *old(self),
            },
            event@.category == TRIGGER_CATEGORY@ ==> (r matches Ok(x) && !x.metadata && x.event@ == with_source(
                event@,
                old(self).flight_source,
            ) && *final(self) == *old(self)),
            event@.category != METADATA_CATEGORY@ && event@.category != TRIGGER_CATEGORY@ ==> (r matches Ok(x)
                && !x.metadata && x.event@ == event@ && *final(self) == *old(self)),
    {
        proof {
            reveal_strlit("synesthesia.flight.metadata");
            reveal_strlit("synesthesia.flight.trigger");
            assert(METADATA_CATEGORY@.len() == 27);
            assert(TRIGGER_CATEGORY@.len() == 26);
        }
        if str_eq(event.category.as_str(), METADATA_CATEGORY) {
            let parsed = parse_metadata_event(&event);
            match parsed {
                Ok(Some(m)) => {
                    self.flight_source = Some(m.source);
                    return Ok(Replayed { metadata: true, event });
                },
                Ok(None) => {
                    return Ok(Replayed { metadata: true, event });
                },
                Err(e) => return Err(e),
            }
        }
        let mut event = event;
        if str_eq(event.category.as_str(), TRIGGER_CATEGORY) {
            match self.flight_source {
                Some(s) => {
                    if !event.labels.contains_key("source") {
                        event.labels.insert_str("source", String::from_str(s.as_str()));
                    }
                },
                None => {},
            }
        }
        Ok(Replayed { metadata: false, event })
    }
}

} // verus!
