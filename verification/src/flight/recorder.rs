//! The recorder's state machine. It decides what is held before a trigger,
//! what an incident file receives and when it is published; the writer that
//! creates, appends to, syncs and renames the file acts on those decisions
//! and reports back when it fails.
use std::collections::VecDeque;
use vstd::prelude::*;

use crate::event::{event_views, Direction, EventView, Labels, NormalizedEvent, Quantity, quantity_finite, SCHEMA_VERSION};
use crate::flight::{
    base_labels, base_metadata, config_problem, insert_losses, loss_labels, seconds, seconds_text, termination_name,
    metadata_verdict, source_name, FlightConfig, FlightError, FlightSource, FlightState, IncidentLosses, MetadataVerdict,
    Termination, FLIGHT_FORMAT_VERSION, METADATA_CATEGORY, PHASE_LABEL, TRIGGER_CATEGORY,
};
use crate::text::{decimal, u64_text};

verus! {

/// Length of a text in UTF-8 bytes.
pub open spec fn utf8_len(s: Seq<char>) -> nat {
    vstd::utf8::encode_utf8(s).len()
}

/// The UTF-8 length of a string.
fn byte_len(s: &String) -> (n: usize)
    ensures
        n == utf8_len(s@),
{
    s.as_str().as_bytes().len()
}

/// What caused a trigger: a kind, a reason and, for a rate rule, the
/// crossed threshold as the incident metadata writes it.
#[derive(Clone, Debug)]
pub struct TriggerInfo {
    pub kind: String,
    pub reason: String,
    pub threshold: Option<String>,
}

/// Why a trigger description is refused, if it is: its kind must take 1 to
/// 96 bytes and its reason 1 to 512.
pub open spec fn trigger_problem(t: TriggerInfo) -> Option<Seq<char>> {
    if utf8_len(t.kind@) == 0 || utf8_len(t.kind@) > 96 {
        Some("trigger kind must contain 1 to 96 bytes"@)
    } else if utf8_len(t.reason@) == 0 || utf8_len(t.reason@) > 512 {
        Some("trigger reason must contain 1 to 512 bytes"@)
    } else {
        None
    }
}

impl TriggerInfo {
    /// The trigger an operator requests by hand.
    pub fn manual() -> (t: TriggerInfo)
        ensures
            t.kind@ == "manual"@,
            t.reason@ == "manual trigger requested"@,
            t.threshold is None,
    {
        TriggerInfo {
            kind: String::from_str("manual"),
            reason: String::from_str("manual trigger requested"),
            threshold: None,
        }
    }

    /// Accepts the description, or says which bound it breaks.
    pub fn validate(&self) -> (r: Result<(), FlightError>)
        ensures
            match trigger_problem(*self) {
                None => r is Ok,
                Some(m) => r matches Err(FlightError::InvalidTrigger(s)) && s@ == m,
            },
    {
        let kind = byte_len(&self.kind);
        if kind == 0 || kind > 96 {
            return Err(FlightError::InvalidTrigger(String::from_str("trigger kind must contain 1 to 96 bytes")));
        }
        let reason = byte_len(&self.reason);
        if reason == 0 || reason > 512 {
            return Err(FlightError::InvalidTrigger(String::from_str("trigger reason must contain 1 to 512 bytes")));
        }
        Ok(())
    }
}

/// An event held before the trigger, with the time it was observed (in
/// nanoseconds) and the size of its encoded record.
#[derive(Clone, Debug)]
pub struct BufferedEvent {
    pub observed_at: u64,
    pub encoded_bytes: usize,
    pub event: NormalizedEvent,
}

/// What the recorder keeps once it has triggered.
#[derive(Clone, Debug)]
pub struct TriggeredState {
    pub trigger_at: u64,
    pub trigger_timestamp: Option<Quantity>,
    pub trigger: TriggerInfo,
    pub pre_events: u64,
    pub actual_pre_duration: u64,
    pub post_events: u64,
    pub last_event_timestamp: Option<Quantity>,
}

/// What the writer does after a step: create the partial incident, append
/// the records in order, then flush, sync and publish it.
#[derive(Debug)]
pub struct IncidentWrite {
    pub create: bool,
    pub records: Vec<NormalizedEvent>,
    pub publish: bool,
}

/// A step that leaves the incident file alone.
pub open spec fn writes_nothing(w: IncidentWrite) -> bool {
    !w.create && w.records.len() == 0 && !w.publish
}

fn no_write() -> (w: IncidentWrite)
    ensures
        writes_nothing(w),
{
    IncidentWrite { create: false, records: Vec::new(), publish: false }
}

/// A point-in-time summary of the recorder. Durations are in nanoseconds.
#[derive(Debug)]
pub struct FlightStatus {
    pub state: FlightState,
    pub retained_events: usize,
    pub retained_bytes: usize,
    pub retained_duration: u64,
    pub pre_trigger_evictions: u64,
    pub tail_elapsed: u64,
    pub tail_duration: u64,
    pub trigger_kind: Option<String>,
    pub output: std::path::PathBuf,
}

/// Files already present where an incident would be written.
#[derive(Debug)]
pub enum ExistingIncident {
    /// Neither the incident nor its partial file exists.
    Absent,
    /// The incident itself exists.
    Output,
    /// The partial file, at the given path, exists.
    Partial(std::path::PathBuf),
}

/// The bounded incident recorder.
pub struct FlightRecorder {
    config: FlightConfig,
    state: FlightState,
    armed_at: Option<u64>,
    history: VecDeque<BufferedEvent>,
    history_bytes: usize,
    pre_trigger_evictions: u64,
    triggered: Option<TriggeredState>,
}

/// The value of a recorder.
pub struct RecorderView {
    pub config: FlightConfig,
    pub state: FlightState,
    pub armed_at: Option<u64>,
    pub history: Seq<BufferedEvent>,
    pub history_bytes: nat,
    pub evictions: u64,
    pub triggered: Option<TriggeredState>,
}

impl View for FlightRecorder {
    type V = RecorderView;

    closed spec fn view(&self) -> RecorderView {
        RecorderView {
            config: self.config,
            state: self.state,
            armed_at: self.armed_at,
            history: self.history@,
            history_bytes: self.history_bytes as nat,
            evictions: self.pre_trigger_evictions,
            triggered: self.triggered,
        }
    }
}

/// Encoded bytes of the held events.
pub open spec fn held_bytes(h: Seq<BufferedEvent>) -> nat
    decreases h.len(),
{
    if h.len() == 0 {
        0
    } else {
        held_bytes(h.drop_last()) + h.last().encoded_bytes as nat
    }
}

proof fn lemma_held_bytes_first(h: Seq<BufferedEvent>)
    requires
        h.len() > 0,
    ensures
        held_bytes(h) == h[0].encoded_bytes + held_bytes(h.drop_first()),
    decreases h.len(),
{
    let t = h.drop_first();
    if h.len() > 1 {
        lemma_held_bytes_first(h.drop_last());
        assert(h.drop_last().drop_first() =~= t.drop_last());
        assert(t.last() == h.last());
        assert(held_bytes(t) == held_bytes(t.drop_last()) + t.last().encoded_bytes as nat);
    } else {
        assert(t.len() == 0);
        assert(h.drop_last().len() == 0);
        assert(held_bytes(h.drop_last()) == 0);
        assert(held_bytes(t) == 0);
        assert(h.last() == h[0]);
    }
}

/// The recorder's invariant: a valid configuration, a byte count that is
/// the held events' sum and within the bounds, history only while armed, a
/// trigger exactly while the tail is captured.
pub open spec fn recorder_wf(v: RecorderView) -> bool {
    &&& config_problem(v.config.pre_trigger, v.config.post_trigger, v.config.max_events, v.config.max_bytes) is None
    &&& v.history_bytes == held_bytes(v.history)
    &&& v.history.len() <= v.config.max_events
    &&& v.history_bytes <= v.config.max_bytes
    &&& (v.state == FlightState::Armed || v.history.len() == 0)
    &&& (v.state == FlightState::Armed ==> v.armed_at is Some)
    &&& (v.triggered is Some <==> v.state == FlightState::CapturingTail)
}

/// A fresh recorder for a configuration.
pub open spec fn initial(config: FlightConfig) -> RecorderView {
    RecorderView {
        config,
        state: FlightState::Disarmed,
        armed_at: None,
        history: Seq::empty(),
        history_bytes: 0,
        evictions: 0,
        triggered: None,
    }
}

/// Drops, oldest first, the events observed more than `window` before `now`.
pub open spec fn drop_stale(h: Seq<BufferedEvent>, now: u64, window: u64) -> Seq<BufferedEvent>
    decreases h.len(),
{
    if h.len() > 0 && h[0].observed_at + window < now {
        drop_stale(h.drop_first(), now, window)
    } else {
        h
    }
}

/// Drops, oldest first, events while there are more than `max_events` or
/// they take more than `max_bytes`.
pub open spec fn drop_excess(h: Seq<BufferedEvent>, max_events: nat, max_bytes: nat) -> Seq<BufferedEvent>
    decreases h.len(),
{
    if h.len() > 0 && (h.len() > max_events || held_bytes(h) > max_bytes) {
        drop_excess(h.drop_first(), max_events, max_bytes)
    } else {
        h
    }
}

/// A counter raised by `n`, stopping at the largest `u64`.
pub open spec fn raised(count: u64, n: nat) -> u64 {
    if count + n > u64::MAX {
        u64::MAX
    } else {
        (count + n) as u64
    }
}

/// The armed recorder after it holds one more event: the event joins the
/// history, events older than the pre-trigger window leave it, then the
/// oldest leave while a bound is exceeded; only the latter count as
/// evictions.
pub open spec fn retained(v: RecorderView, e: BufferedEvent) -> RecorderView {
    let fresh = drop_stale(v.history.push(e), e.observed_at, v.config.pre_trigger);
    let kept = drop_excess(fresh, v.config.max_events as nat, v.config.max_bytes as nat);
    RecorderView {
        history: kept,
        history_bytes: held_bytes(kept),
        evictions: raised(v.evictions, (fresh.len() - kept.len()) as nat),
        ..v
    }
}

/// How long before `now` the oldest held event was observed.
pub open spec fn held_span(h: Seq<BufferedEvent>, now: u64) -> u64 {
    if h.len() > 0 && now >= h[0].observed_at {
        (now - h[0].observed_at) as u64
    } else {
        0
    }
}

/// How much of the tail has passed at `now`, at most the configured tail.
pub open spec fn tail_span(trigger_at: u64, now: u64, post: u64) -> u64 {
    let elapsed = if now >= trigger_at { (now - trigger_at) as u64 } else { 0 };
    if elapsed > post { post } else { elapsed }
}

/// Has the tail run its course at `now`?
pub open spec fn tail_expired(v: RecorderView, now: u64) -> bool {
    v.triggered.unwrap().trigger_at + v.config.post_trigger <= now
}

/// An event with its phase label set.
pub open spec fn with_phase(e: EventView, phase: Seq<char>) -> EventView {
    EventView { labels: e.labels.insert(PHASE_LABEL@, phase), ..e }
}

/// The pre-trigger records of held events.
pub open spec fn pre_records(h: Seq<BufferedEvent>) -> Seq<EventView> {
    h.map_values(|b: BufferedEvent| with_phase(b.event@, "pre"@))
}

/// Labels with the trigger's threshold, when it has one.
pub open spec fn with_threshold(m: Map<Seq<char>, Seq<char>>, t: TriggerInfo) -> Map<Seq<char>, Seq<char>> {
    match t.threshold {
        Some(x) => m.insert("trigger_threshold"@, x@),
        None => m,
    }
}

/// A metadata record.
pub open spec fn metadata_record(timestamp: Option<Quantity>, labels: Map<Seq<char>, Seq<char>>) -> EventView {
    EventView {
        v: SCHEMA_VERSION,
        timestamp,
        category: METADATA_CATEGORY@,
        origin: None,
        target: None,
        magnitude: Quantity::Ratio { numerator: 0, denominator: 1 },
        direction: Direction::Neutral,
        labels,
    }
}

/// The labels of the record that opens an incident.
pub open spec fn start_labels(v: RecorderView, now: u64, t: TriggerInfo, losses: IncidentLosses) -> Map<Seq<char>, Seq<char>> {
    let m = base_labels(v.config, "start"@).insert("armed_at"@, seconds_text(v.armed_at.unwrap())).insert(
        "trigger_at"@,
        seconds_text(now),
    ).insert("trigger_kind"@, t.kind@).insert("trigger_reason"@, t.reason@).insert(
        "actual_pre_trigger_seconds"@,
        seconds_text(held_span(v.history, now)),
    ).insert("pre_event_count"@, decimal(v.history.len())).insert("pre_encoded_bytes"@, decimal(v.history_bytes)).insert(
        "pre_trigger_evictions"@,
        decimal(v.evictions as nat),
    );
    loss_labels(with_threshold(m, t), "trigger"@, losses)
}

/// The trigger marker's labels.
pub open spec fn marker_labels(t: TriggerInfo) -> Map<Seq<char>, Seq<char>> {
    with_threshold(
        Map::<Seq<char>, Seq<char>>::empty().insert(PHASE_LABEL@, "trigger"@).insert("trigger_kind"@, t.kind@).insert(
            "trigger_reason"@,
            t.reason@,
        ),
        t,
    )
}

/// The record that marks the trigger in an incident.
pub open spec fn marker_record(timestamp: Option<Quantity>, t: TriggerInfo) -> EventView {
    EventView {
        v: SCHEMA_VERSION,
        timestamp,
        category: TRIGGER_CATEGORY@,
        origin: None,
        target: None,
        magnitude: Quantity::Ratio { numerator: 1, denominator: 1 },
        direction: Direction::Neutral,
        labels: marker_labels(t),
    }
}

/// The labels of the record that closes an incident.
pub open spec fn end_labels(
    config: FlightConfig,
    tr: TriggeredState,
    now: u64,
    evictions: u64,
    losses: IncidentLosses,
    termination: Termination,
) -> Map<Seq<char>, Seq<char>> {
    let m = base_labels(config, "end"@).insert("trigger_kind"@, tr.trigger.kind@).insert(
        "trigger_reason"@,
        tr.trigger.reason@,
    ).insert("termination"@, termination_name(termination)).insert(
        "actual_pre_trigger_seconds"@,
        seconds_text(tr.actual_pre_duration),
    ).insert("actual_post_trigger_seconds"@, seconds_text(tail_span(tr.trigger_at, now, config.post_trigger))).insert(
        "pre_event_count"@,
        decimal(tr.pre_events as nat),
    ).insert("post_event_count"@, decimal(tr.post_events as nat)).insert(
        "pre_trigger_evictions"@,
        decimal(evictions as nat),
    );
    loss_labels(with_threshold(m, tr.trigger), "final"@, losses)
}

/// The record that closes the incident of a capturing recorder: stamped
/// with the last post-trigger event's timestamp, else the trigger's.
pub open spec fn end_record(v: RecorderView, now: u64, losses: IncidentLosses, termination: Termination) -> EventView {
    let tr = v.triggered.unwrap();
    let timestamp = match tr.last_event_timestamp {
        Some(t) => Some(t),
        None => tr.trigger_timestamp,
    };
    metadata_record(timestamp, end_labels(v.config, tr, now, v.evictions, losses, termination))
}

/// The recorder once its incident is complete.
pub open spec fn finished(v: RecorderView) -> RecorderView {
    RecorderView { state: FlightState::Complete, triggered: None, ..v }
}

/// The recorder once its armed history is discarded.
pub open spec fn cancelled(v: RecorderView) -> RecorderView {
    RecorderView { state: FlightState::Cancelled, history: Seq::empty(), history_bytes: 0, ..v }
}

/// What the recorder keeps of a trigger at `now`.
pub open spec fn trigger_record(v: RecorderView, now: u64, ts: Option<Quantity>, t: TriggerInfo) -> TriggeredState {
    TriggeredState {
        trigger_at: now,
        trigger_timestamp: ts,
        trigger: t,
        pre_events: v.history.len() as u64,
        actual_pre_duration: held_span(v.history, now),
        post_events: 0,
        last_event_timestamp: ts,
    }
}

/// The recorder capturing the tail of a trigger.
pub open spec fn capturing(v: RecorderView, now: u64, ts: Option<Quantity>, t: TriggerInfo) -> RecorderView {
    RecorderView {
        state: FlightState::CapturingTail,
        history: Seq::empty(),
        history_bytes: 0,
        triggered: Some(trigger_record(v, now, ts, t)),
        ..v
    }
}

/// The records a trigger writes: the opening metadata, the held history in
/// order marked `pre`, and the trigger marker.
pub open spec fn trigger_records(
    v: RecorderView,
    now: u64,
    ts: Option<Quantity>,
    t: TriggerInfo,
    losses: IncidentLosses,
) -> Seq<EventView> {
    seq![metadata_record(ts, start_labels(v, now, t, losses))] + pre_records(v.history) + seq![marker_record(ts, t)]
}

/// The capturing recorder after a post-trigger event.
pub open spec fn after_post(v: RecorderView, e: NormalizedEvent) -> RecorderView {
    let tr = v.triggered.unwrap();
    RecorderView {
        triggered: Some(
            TriggeredState { last_event_timestamp: e.timestamp, post_events: raised(tr.post_events, 1), ..tr },
        ),
        ..v
    }
}

/// The recorder after the writer failed on a step.
pub open spec fn failed(v: RecorderView) -> RecorderView {
    RecorderView { state: FlightState::Failed, history: Seq::empty(), history_bytes: 0, triggered: None, ..v }
}

/// The refusal of an operation in the wrong state.
pub open spec fn refused<T>(r: Result<T, FlightError>, state: FlightState, operation: Seq<char>) -> bool {
    r matches Err(FlightError::IllegalTransition { state: s, operation: o }) && s == state && o@ == operation
}

/// `PathBuf::clone`, which returns a copy of the path: the copy equals the
/// original.
pub assume_specification[ <std::path::PathBuf as Clone>::clone ](p: &std::path::PathBuf) -> (r: std::path::PathBuf)
    ensures
        r == *p,
;

/// What taking an event does: held while armed; written as a `post`
/// record while the tail is captured, or the close of the incident once
/// the tail is over; refused in any other state.
pub open spec fn observe_outcome(
    before: RecorderView,
    after: RecorderView,
    r: Result<IncidentWrite, FlightError>,
    event: NormalizedEvent,
    encoded_bytes: usize,
    now: u64,
    losses: IncidentLosses,
) -> bool {
    match before.state {
        FlightState::Armed => r matches Ok(w) && writes_nothing(w) && after == retained(
            before,
            BufferedEvent { observed_at: now, encoded_bytes, event },
        ),
        FlightState::CapturingTail => if tail_expired(before, now) {
            r matches Ok(w) && !w.create && w.publish && event_views(w.records@) == seq![
                end_record(before, now, losses, Termination::Normal),
            ] && after == finished(before)
        } else {
            r matches Ok(w) && !w.create && !w.publish && event_views(w.records@) == seq![
                with_phase(event@, "post"@),
            ] && after == after_post(before, event)
        },
        _ => refused(r, before.state, "observe"@) && after == before,
    }
}

/// What firing a trigger does: an armed recorder with a valid trigger
/// opens the incident with its history and starts the tail (or closes it
/// at once when there is no tail); anything else is refused unchanged.
pub open spec fn trigger_outcome(
    before: RecorderView,
    after: RecorderView,
    r: Result<IncidentWrite, FlightError>,
    now: u64,
    recorded_timestamp: Option<Quantity>,
    trigger: TriggerInfo,
    losses: IncidentLosses,
) -> bool {
    &&& before.state != FlightState::Armed ==> refused(r, before.state, "trigger"@) && after == before
    &&& before.state == FlightState::Armed ==> match trigger_problem(trigger) {
        Some(m) => r matches Err(FlightError::InvalidTrigger(s)) && s@ == m && after == before,
        None => if recorded_timestamp matches Some(t) && !quantity_finite(t) {
            r matches Err(FlightError::InvalidTrigger(s)) && s@ == "recorded trigger timestamp must be finite"@
                && after == before
        } else {
            let opened = trigger_records(before, now, recorded_timestamp, trigger, losses);
            let tail = capturing(before, now, recorded_timestamp, trigger);
            r matches Ok(w) && w.create && if before.config.post_trigger == 0 {
                w.publish && event_views(w.records@) == opened.push(
                    end_record(tail, now, losses, Termination::Normal),
                ) && after == finished(tail)
            } else {
                !w.publish && event_views(w.records@) == opened && after == tail
            }
        },
    }
}

/// What a clock tick does: closes a tail that has run its course, and
/// nothing else.
pub open spec fn tick_outcome(
    before: RecorderView,
    after: RecorderView,
    w: IncidentWrite,
    now: u64,
    losses: IncidentLosses,
) -> bool {
    if before.state == FlightState::CapturingTail && tail_expired(before, now) {
        !w.create && w.publish && event_views(w.records@) == seq![
            end_record(before, now, losses, Termination::Normal),
        ] && after == finished(before)
    } else {
        writes_nothing(w) && after == before
    }
}

fn metadata_event(timestamp: Option<Quantity>, labels: Labels) -> (e: NormalizedEvent)
    ensures
        e@ == metadata_record(timestamp, labels@),
{
    NormalizedEvent {
        v: SCHEMA_VERSION,
        timestamp,
        category: String::from_str(METADATA_CATEGORY),
        origin: None,
        target: None,
        magnitude: Quantity::whole(0),
        direction: Direction::Neutral,
        labels,
    }
}

fn insert_threshold(labels: &mut Labels, t: &TriggerInfo)
    ensures
        final(labels)@ == with_threshold(old(labels)@, *t),
{
    match &t.threshold {
        Some(x) => labels.insert_str("trigger_threshold", x.clone()),
        None => {},
    }
}

fn marker_event(timestamp: Option<Quantity>, t: &TriggerInfo) -> (e: NormalizedEvent)
    ensures
        e@ == marker_record(timestamp, *t),
{
    let mut labels = Labels::new();
    labels.insert_str(PHASE_LABEL, String::from_str("trigger"));
    labels.insert_str("trigger_kind", t.kind.clone());
    labels.insert_str("trigger_reason", t.reason.clone());
    insert_threshold(&mut labels, t);
    NormalizedEvent {
        v: SCHEMA_VERSION,
        timestamp,
        category: String::from_str(TRIGGER_CATEGORY),
        origin: None,
        target: None,
        magnitude: Quantity::whole(1),
        direction: Direction::Neutral,
        labels,
    }
}

fn phased(event: NormalizedEvent, phase: &str) -> (e: NormalizedEvent)
    ensures
        e@ == with_phase(event@, phase@),
{
    let mut e = event;
    e.labels.insert_str(PHASE_LABEL, String::from_str(phase));
    e
}

fn end_event(
    config: &FlightConfig,
    tr: &TriggeredState,
    now: u64,
    evictions: u64,
    losses: IncidentLosses,
    termination: Termination,
) -> (e: NormalizedEvent)
    ensures
        e@ == metadata_record(
            match tr.last_event_timestamp {
                Some(t) => Some(t),
                None => tr.trigger_timestamp,
            },
            end_labels(*config, *tr, now, evictions, losses, termination),
        ),
{
    let elapsed = now.saturating_sub(tr.trigger_at);
    let post = if elapsed > config.post_trigger { config.post_trigger } else { elapsed };
    let mut labels = base_metadata(config, "end");
    labels.insert_str("trigger_kind", tr.trigger.kind.clone());
    labels.insert_str("trigger_reason", tr.trigger.reason.clone());
    labels.insert_str("termination", String::from_str(termination.as_str()));
    labels.insert_str("actual_pre_trigger_seconds", seconds(tr.actual_pre_duration));
    labels.insert_str("actual_post_trigger_seconds", seconds(post));
    labels.insert_str("pre_event_count", u64_text(tr.pre_events));
    labels.insert_str("post_event_count", u64_text(tr.post_events));
    labels.insert_str("pre_trigger_evictions", u64_text(evictions));
    insert_threshold(&mut labels, &tr.trigger);
    insert_losses(&mut labels, "final", losses);
    let timestamp = match tr.last_event_timestamp {
        Some(t) => Some(t),
        None => tr.trigger_timestamp,
    };
    metadata_event(timestamp, labels)
}

/// Observation times that never decrease.
pub open spec fn observed_in_order(h: Seq<BufferedEvent>) -> bool {
    forall|i: int, j: int| 0 <= i <= j < h.len() ==> h[i].observed_at <= h[j].observed_at
}

proof fn lemma_drop_stale(h: Seq<BufferedEvent>, now: u64, window: u64) -> (k: int)
    ensures
        0 <= k <= h.len(),
        drop_stale(h, now, window) == h.subrange(k, h.len() as int),
        k < h.len() ==> h[k].observed_at + window >= now,
    decreases h.len(),
{
    if h.len() > 0 && h[0].observed_at + window < now {
        let k = lemma_drop_stale(h.drop_first(), now, window);
        assert(h.drop_first().subrange(k, h.len() - 1) =~= h.subrange(k + 1, h.len() as int));
        k + 1
    } else {
        assert(h.subrange(0, h.len() as int) =~= h);
        0
    }
}

proof fn lemma_drop_excess(h: Seq<BufferedEvent>, max_events: nat, max_bytes: nat) -> (k: int)
    ensures
        0 <= k <= h.len(),
        drop_excess(h, max_events, max_bytes) == h.subrange(k, h.len() as int),
        h.len() - k <= max_events,
        held_bytes(h.subrange(k, h.len() as int)) <= max_bytes,
    decreases h.len(),
{
    if h.len() > 0 && (h.len() > max_events || held_bytes(h) > max_bytes) {
        let k = lemma_drop_excess(h.drop_first(), max_events, max_bytes);
        assert(h.drop_first().subrange(k, h.len() - 1) =~= h.subrange(k + 1, h.len() as int));
        k + 1
    } else {
        assert(h.subrange(0, h.len() as int) =~= h);
        if h.len() == 0 {
            assert(held_bytes(h) == 0);
        }
        0
    }
}

/// Law: holding one more event keeps the history within the event and
/// byte bounds; evictions take the oldest events first, so what is held is
/// the newest part of what was observed, in order; and when time does not
/// run backwards the oldest held event lies within the pre-trigger window.
pub proof fn law_retention_is_bounded(v: RecorderView, e: BufferedEvent)
    requires
        recorder_wf(v),
        v.state == FlightState::Armed,
    ensures
        retained(v, e).history.len() <= v.config.max_events,
        retained(v, e).history_bytes <= v.config.max_bytes,
        exists|k: int|
            0 <= k <= v.history.len() + 1 && retained(v, e).history == #[trigger] v.history.push(e).subrange(
                k,
                v.history.len() + 1 as int,
            ),
        observed_in_order(v.history.push(e)) ==> held_span(retained(v, e).history, e.observed_at)
            <= v.config.pre_trigger,
{
    let p = v.history.push(e);
    let window = v.config.pre_trigger;
    let now = e.observed_at;
    let i = lemma_drop_stale(p, now, window);
    let fresh = drop_stale(p, now, window);
    let j = lemma_drop_excess(fresh, v.config.max_events as nat, v.config.max_bytes as nat);
    let kept = drop_excess(fresh, v.config.max_events as nat, v.config.max_bytes as nat);
    assert(kept =~= p.subrange(i + j, p.len() as int));
    assert(retained(v, e).history == p.subrange(i + j, p.len() as int));
    if observed_in_order(p) && kept.len() > 0 {
        assert(p[p.len() - 1] == e);
        assert(i < p.len()) by {
            if i == p.len() {
                assert(fresh.len() == 0);
            }
        }
        assert(kept[0] == p[i + j]);
        assert(p[i].observed_at <= p[i + j].observed_at);
        assert(p[i + j].observed_at <= p[p.len() - 1].observed_at);
    }
}

/// Law: a recorder fires at most once. Of the recorder's steps only arming
/// a disarmed recorder leads into the armed state, and every trigger starts
/// from there: triggering captures the tail, events in the tail keep it
/// capturing, and the incident then ends complete, cancelled or failed,
/// never armed again.
pub proof fn law_fires_at_most_once(
    v: RecorderView,
    e: BufferedEvent,
    post: NormalizedEvent,
    now: u64,
    ts: Option<Quantity>,
    t: TriggerInfo,
)
    ensures
        retained(v, e).state == v.state,
        capturing(v, now, ts, t).state == FlightState::CapturingTail,
        after_post(v, post).state == v.state,
        finished(v).state == FlightState::Complete,
        cancelled(v).state == FlightState::Cancelled,
        failed(v).state == FlightState::Failed,
{
}

/// The labels name a supported incident header: format version 1, the
/// given record kind and source.
pub open spec fn names_header(m: Map<Seq<char>, Seq<char>>, record: Seq<char>, source: FlightSource) -> bool {
    &&& m.contains_key("format_version"@) && m["format_version"@] == decimal(FLIGHT_FORMAT_VERSION as nat)
    &&& m.contains_key("record"@) && m["record"@] == record
    &&& m.contains_key("source"@) && m["source"@] == source_name(source)
}

proof fn lemma_header_kept(m: Map<Seq<char>, Seq<char>>, record: Seq<char>, source: FlightSource, k: Seq<char>, x: Seq<char>)
    requires
        names_header(m, record, source),
        (k.len() != 6 && k.len() != 14) || (k.len() >= 2 && k[1] != 'o' && k[1] != 'e'),
    ensures
        names_header(m.insert(k, x), record, source),
{
    reveal_strlit("format_version");
    reveal_strlit("record");
    reveal_strlit("source");
    assert(k != "format_version"@ && k != "record"@ && k != "source"@) by {
        if k.len() >= 2 && k[1] != 'o' && k[1] != 'e' {
            assert(k[1] != "format_version"@[1]);
            assert(k[1] != "record"@[1]);
            assert(k[1] != "source"@[1]);
        }
    }
}

proof fn lemma_losses_keep_header(
    m: Map<Seq<char>, Seq<char>>,
    record: Seq<char>,
    source: FlightSource,
    prefix: Seq<char>,
    losses: IncidentLosses,
)
    requires
        names_header(m, record, source),
        prefix.len() >= 2 && prefix[1] != 'o' && prefix[1] != 'e',
    ensures
        names_header(loss_labels(m, prefix, losses), record, source),
{
    assert((prefix + "_kernel_ring_loss"@)[1] == prefix[1]);
    assert((prefix + "_collector_loss"@)[1] == prefix[1]);
    assert((prefix + "_ipc_loss"@)[1] == prefix[1]);
    assert((prefix + "_renderer_channel_loss"@)[1] == prefix[1]);
    assert((prefix + "_malformed_count"@)[1] == prefix[1]);
    assert((prefix + "_writer_loss"@)[1] == prefix[1]);
    reveal_strlit("_kernel_ring_loss");
    reveal_strlit("_collector_loss");
    reveal_strlit("_ipc_loss");
    reveal_strlit("_renderer_channel_loss");
    reveal_strlit("_malformed_count");
    reveal_strlit("_writer_loss");
    let m1 = m.insert(prefix + "_kernel_ring_loss"@, decimal(losses.kernel_ring as nat));
    lemma_header_kept(m, record, source, prefix + "_kernel_ring_loss"@, decimal(losses.kernel_ring as nat));
    let m2 = m1.insert(prefix + "_collector_loss"@, decimal(losses.collector as nat));
    lemma_header_kept(m1, record, source, prefix + "_collector_loss"@, decimal(losses.collector as nat));
    let m3 = m2.insert(prefix + "_ipc_loss"@, decimal(losses.ipc as nat));
    lemma_header_kept(m2, record, source, prefix + "_ipc_loss"@, decimal(losses.ipc as nat));
    let m4 = m3.insert(prefix + "_renderer_channel_loss"@, decimal(losses.renderer_channel as nat));
    lemma_header_kept(m3, record, source, prefix + "_renderer_channel_loss"@, decimal(losses.renderer_channel as nat));
    let m5 = m4.insert(prefix + "_malformed_count"@, decimal(losses.malformed as nat));
    lemma_header_kept(m4, record, source, prefix + "_malformed_count"@, decimal(losses.malformed as nat));
    lemma_header_kept(m5, record, source, prefix + "_writer_loss"@, decimal(losses.writer as nat));
}

proof fn lemma_base_header(config: FlightConfig, record: Seq<char>)
    ensures
        names_header(base_labels(config, record), record, config.source),
{
    reveal_strlit("format_version");
    reveal_strlit("record");
    reveal_strlit("source");
    reveal_strlit("configured_pre_trigger_seconds");
    reveal_strlit("configured_post_trigger_seconds");
    reveal_strlit("timestamp_domain");
    reveal_strlit("kernel");
    reveal_strlit("architecture");
    assert("kernel"@[0] != "record"@[0]);
    assert("kernel"@[0] != "source"@[0]);
    assert("source"@[0] != "record"@[0]);
    let m3 = Map::<Seq<char>, Seq<char>>::empty().insert("format_version"@, decimal(FLIGHT_FORMAT_VERSION as nat)).insert(
        "record"@,
        record,
    ).insert("source"@, source_name(config.source));
    assert(names_header(m3, record, config.source));
    let m4 = m3.insert("configured_pre_trigger_seconds"@, seconds_text(config.pre_trigger));
    lemma_header_kept(m3, record, config.source, "configured_pre_trigger_seconds"@, seconds_text(config.pre_trigger));
    let m5 = m4.insert("configured_post_trigger_seconds"@, seconds_text(config.post_trigger));
    lemma_header_kept(m4, record, config.source, "configured_post_trigger_seconds"@, seconds_text(config.post_trigger));
    let m6 = m5.insert("timestamp_domain"@, "kernel-monotonic"@);
    lemma_header_kept(m5, record, config.source, "timestamp_domain"@, "kernel-monotonic"@);
    let m7 = m6.insert("kernel"@, config.host.kernel@);
    assert("kernel"@ != "record"@ && "kernel"@ != "source"@);
    assert(names_header(m7, record, config.source));
    lemma_header_kept(m7, record, config.source, "architecture"@, config.host.architecture@);
}

proof fn lemma_header_verdict(m: Map<Seq<char>, Seq<char>>, record: Seq<char>, source: FlightSource, ts: Option<Quantity>)
    requires
        names_header(m, record, source),
    ensures
        metadata_verdict(metadata_record(ts, m)) == (MetadataVerdict::Parsed {
            record,
            source,
            version: FLIGHT_FORMAT_VERSION,
        }),
{
    reveal_strlit("scheduler");
    reveal_strlit("tcp");
    let one = decimal(1);
    assert(one =~= seq!['1']);
    assert(one.drop_last() =~= Seq::<char>::empty());
    assert(crate::parse::digits_value(one.drop_last()) == 0);
    assert(one.last() == '1');
    assert(('1' as u32) == 49);
    assert(crate::parse::digits_value(one) == 1);
    assert(crate::parse::all_digits(one));
    assert(crate::parse::parse_unsigned(one, u16::MAX as nat) == Some(1nat));
    assert("tcp"@.len() == 3);
    assert("scheduler"@.len() == 9);
    assert("tcp"@ != "scheduler"@);
    assert(m["format_version"@] == one);
    let l = metadata_record(ts, m).labels;
    assert(l == m);
    assert(metadata_record(ts, m).category == METADATA_CATEGORY@);
    assert(l["source"@] == "scheduler"@ || l["source"@] == "tcp"@);
}

/// Law: the records that open and close an incident read back, through
/// `parse_metadata_event`, as a supported header of the incident's source,
/// marked `start` and `end`.
pub proof fn law_incident_metadata_reads_back(
    v: RecorderView,
    now: u64,
    t: TriggerInfo,
    losses: IncidentLosses,
    ts: Option<Quantity>,
    tr: TriggeredState,
    evictions: u64,
    termination: Termination,
)
    ensures
        metadata_verdict(metadata_record(ts, start_labels(v, now, t, losses))) == (MetadataVerdict::Parsed {
            record: "start"@,
            source: v.config.source,
            version: FLIGHT_FORMAT_VERSION,
        }),
        metadata_verdict(metadata_record(ts, end_labels(v.config, tr, now, evictions, losses, termination)))
            == (MetadataVerdict::Parsed { record: "end"@, source: v.config.source, version: FLIGHT_FORMAT_VERSION }),
{
    reveal_strlit("armed_at");
    reveal_strlit("trigger_at");
    reveal_strlit("trigger_kind");
    reveal_strlit("trigger_reason");
    reveal_strlit("actual_pre_trigger_seconds");
    reveal_strlit("actual_post_trigger_seconds");
    reveal_strlit("pre_event_count");
    reveal_strlit("post_event_count");
    reveal_strlit("pre_encoded_bytes");
    reveal_strlit("pre_trigger_evictions");
    reveal_strlit("trigger_threshold");
    reveal_strlit("termination");
    reveal_strlit("trigger");
    reveal_strlit("final");
    let src = v.config.source;
    let b = base_labels(v.config, "start"@);
    lemma_base_header(v.config, "start"@);
    let m1 = b.insert("armed_at"@, seconds_text(v.armed_at.unwrap()));
    lemma_header_kept(b, "start"@, src, "armed_at"@, seconds_text(v.armed_at.unwrap()));
    let m2 = m1.insert("trigger_at"@, seconds_text(now));
    lemma_header_kept(m1, "start"@, src, "trigger_at"@, seconds_text(now));
    let m3 = m2.insert("trigger_kind"@, t.kind@);
    lemma_header_kept(m2, "start"@, src, "trigger_kind"@, t.kind@);
    let m4 = m3.insert("trigger_reason"@, t.reason@);
    lemma_header_kept(m3, "start"@, src, "trigger_reason"@, t.reason@);
    let m5 = m4.insert("actual_pre_trigger_seconds"@, seconds_text(held_span(v.history, now)));
    lemma_header_kept(m4, "start"@, src, "actual_pre_trigger_seconds"@, seconds_text(held_span(v.history, now)));
    let m6 = m5.insert("pre_event_count"@, decimal(v.history.len()));
    lemma_header_kept(m5, "start"@, src, "pre_event_count"@, decimal(v.history.len()));
    let m7 = m6.insert("pre_encoded_bytes"@, decimal(v.history_bytes));
    lemma_header_kept(m6, "start"@, src, "pre_encoded_bytes"@, decimal(v.history_bytes));
    let m8 = m7.insert("pre_trigger_evictions"@, decimal(v.evictions as nat));
    lemma_header_kept(m7, "start"@, src, "pre_trigger_evictions"@, decimal(v.evictions as nat));
    if t.threshold is Some {
        lemma_header_kept(m8, "start"@, src, "trigger_threshold"@, t.threshold.unwrap()@);
    }
    lemma_losses_keep_header(with_threshold(m8, t), "start"@, src, "trigger"@, losses);
    lemma_header_verdict(start_labels(v, now, t, losses), "start"@, src, ts);

    let e = base_labels(v.config, "end"@);
    lemma_base_header(v.config, "end"@);
    let n1 = e.insert("trigger_kind"@, tr.trigger.kind@);
    lemma_header_kept(e, "end"@, src, "trigger_kind"@, tr.trigger.kind@);
    let n2 = n1.insert("trigger_reason"@, tr.trigger.reason@);
    lemma_header_kept(n1, "end"@, src, "trigger_reason"@, tr.trigger.reason@);
    let n3 = n2.insert("termination"@, termination_name(termination));
    lemma_header_kept(n2, "end"@, src, "termination"@, termination_name(termination));
    let n4 = n3.insert("actual_pre_trigger_seconds"@, seconds_text(tr.actual_pre_duration));
    lemma_header_kept(n3, "end"@, src, "actual_pre_trigger_seconds"@, seconds_text(tr.actual_pre_duration));
    let post = seconds_text(tail_span(tr.trigger_at, now, v.config.post_trigger));
    let n5 = n4.insert("actual_post_trigger_seconds"@, post);
    lemma_header_kept(n4, "end"@, src, "actual_post_trigger_seconds"@, post);
    let n6 = n5.insert("pre_event_count"@, decimal(tr.pre_events as nat));
    lemma_header_kept(n5, "end"@, src, "pre_event_count"@, decimal(tr.pre_events as nat));
    let n7 = n6.insert("post_event_count"@, decimal(tr.post_events as nat));
    lemma_header_kept(n6, "end"@, src, "post_event_count"@, decimal(tr.post_events as nat));
    let n8 = n7.insert("pre_trigger_evictions"@, decimal(evictions as nat));
    lemma_header_kept(n7, "end"@, src, "pre_trigger_evictions"@, decimal(evictions as nat));
    if tr.trigger.threshold is Some {
        lemma_header_kept(n8, "end"@, src, "trigger_threshold"@, tr.trigger.threshold.unwrap()@);
    }
    lemma_losses_keep_header(with_threshold(n8, tr.trigger), "end"@, src, "final"@, losses);
    lemma_header_verdict(end_labels(v.config, tr, now, evictions, losses, termination), "end"@, src, ts);
}

impl FlightRecorder {
    /// A disarmed recorder, if the configuration is valid.
    pub fn new(config: FlightConfig) -> (r: Result<FlightRecorder, FlightError>)
        ensures
            match config_problem(config.pre_trigger, config.post_trigger, config.max_events, config.max_bytes) {
                None => r matches Ok(rec) && rec@ == initial(config) && recorder_wf(rec@),
                Some(m) => r matches Err(FlightError::InvalidConfig(s)) && s@ == m,
            },
    {
        match config.validate() {
            Ok(()) => {},
            Err(e) => return Err(e),
        }
        let rec = FlightRecorder {
            config,
            state: FlightState::Disarmed,
            armed_at: None,
            history: VecDeque::new(),
            history_bytes: 0,
            pre_trigger_evictions: 0,
            triggered: None,
        };
        proof {
            assert(rec@.history =~= Seq::<BufferedEvent>::empty());
        }
        Ok(rec)
    }

    /// The current state.
    pub fn state(&self) -> (s: FlightState)
        ensures
            s == self@.state,
    {
        self.state
    }

    /// The source the recorder was configured for.
    pub fn source(&self) -> (s: FlightSource)
        ensures
            s == self@.config.source,
    {
        self.config.source
    }

    fn refuse(&self, operation: &'static str) -> (e: FlightError)
        ensures
            e matches FlightError::IllegalTransition { state, operation: o } && state == self@.state && o@ == operation@,
    {
        FlightError::IllegalTransition { state: self.state, operation }
    }

    /// Arms a disarmed recorder at `now`, unless an incident or its partial
    /// file already exists.
    pub fn arm(&mut self, now: u64, existing: ExistingIncident) -> (r: Result<(), FlightError>)
        requires
            recorder_wf(old(self)@),
        ensures
            recorder_wf(final(self)@),
            old(self)@.state != FlightState::Disarmed ==> refused(r, old(self)@.state, "arm"@) && final(self)@
                == old(self)@,
            old(self)@.state == FlightState::Disarmed ==> match existing {
                ExistingIncident::Output => r matches Err(FlightError::OutputExists(o)) && o == old(self)@.config.output
                    && final(self)@ == old(self)@,
                ExistingIncident::Partial(p) => r matches Err(FlightError::PartialExists(q)) && q == p && final(self)@
                    == old(self)@,
                ExistingIncident::Absent => r is Ok && final(self)@ == (RecorderView {
                    state: FlightState::Armed,
                    armed_at: Some(now),
                    ..old(self)@
                }),
            },
    {
        if self.state != FlightState::Disarmed {
            return Err(self.refuse("arm"));
        }
        match existing {
            ExistingIncident::Output => Err(FlightError::OutputExists(self.config.output.clone())),
            ExistingIncident::Partial(p) => Err(FlightError::PartialExists(p)),
            ExistingIncident::Absent => {
                self.armed_at = Some(now);
                self.state = FlightState::Armed;
                Ok(())
            },
        }
    }

    /// Holds one more event while armed.
    fn retain(&mut self, event: NormalizedEvent, encoded_bytes: usize, now: u64)
        requires
            recorder_wf(old(self)@),
            old(self)@.state == FlightState::Armed,
        ensures
            recorder_wf(final(self)@),
            final(self)@ == retained(old(self)@, BufferedEvent { observed_at: now, encoded_bytes, event }),
    {
        let ghost v0 = self@;
        let buffered = BufferedEvent { observed_at: now, encoded_bytes, event };
        let ghost b = buffered;
        self.history.push_back(buffered);
        let ghost pushed = self.history@;
        assert(pushed.drop_last() =~= v0.history);
        let mut total: u128 = self.history_bytes as u128 + encoded_bytes as u128;
        let window = self.config.pre_trigger;
        while self.history.len() > 0 && (self.history[0].observed_at as u128) + (window as u128) < (now as u128)
            invariant
                drop_stale(self.history@, now, window) == drop_stale(pushed, now, window),
                total == held_bytes(self.history@),
                self.config == v0.config,
                self.state == v0.state,
                self.armed_at == v0.armed_at,
                self.triggered == v0.triggered,
                self.pre_trigger_evictions == v0.evictions,
                window == v0.config.pre_trigger,
            decreases self.history@.len(),
        {
            let ghost h = self.history@;
            proof {
                lemma_held_bytes_first(h);
            }
            let oldest = self.history.pop_front().unwrap();
            assert(self.history@ =~= h.drop_first());
            total = total - oldest.encoded_bytes as u128;
        }
        let ghost fresh = self.history@;
        assert(fresh == drop_stale(pushed, now, window));
        let max_events = self.config.max_events;
        let max_bytes = self.config.max_bytes;
        while self.history.len() > max_events || total > max_bytes as u128
            invariant
                drop_excess(self.history@, max_events as nat, max_bytes as nat) == drop_excess(
                    fresh,
                    max_events as nat,
                    max_bytes as nat,
                ),
                total == held_bytes(self.history@),
                self.history@.len() <= fresh.len(),
                self.pre_trigger_evictions == raised(v0.evictions, (fresh.len() - self.history@.len()) as nat),
                self.config == v0.config,
                self.state == v0.state,
                self.armed_at == v0.armed_at,
                self.triggered == v0.triggered,
                max_events == v0.config.max_events,
                max_bytes == v0.config.max_bytes,
                max_bytes >= 1,
            decreases self.history@.len(),
        {
            let ghost h = self.history@;
            proof {
                if h.len() == 0 {
                    assert(held_bytes(h) == 0);
                }
                lemma_held_bytes_first(h);
            }
            let oldest = self.history.pop_front().unwrap();
            assert(self.history@ =~= h.drop_first());
            total = total - oldest.encoded_bytes as u128;
            self.pre_trigger_evictions = self.pre_trigger_evictions.saturating_add(1);
        }
        self.history_bytes = total as usize;
        proof {
            assert(self.history@ == drop_excess(fresh, max_events as nat, max_bytes as nat));
        }
    }

    /// Takes an event: held while armed, written as a `post` record while
    /// the tail is captured, or the close of the incident once the tail is
    /// over.
    pub fn observe(&mut self, event: NormalizedEvent, encoded_bytes: usize, now: u64, losses: IncidentLosses) -> (r:
        Result<IncidentWrite, FlightError>)
        requires
            recorder_wf(old(self)@),
        ensures
            recorder_wf(final(self)@),
            observe_outcome(old(self)@, final(self)@, r, event, encoded_bytes, now, losses),
    {
        if self.state == FlightState::Armed {
            self.retain(event, encoded_bytes, now);
            return Ok(no_write());
        }
        if self.state != FlightState::CapturingTail {
            return Err(self.refuse("observe"));
        }
        if self.tail_expired(now) {
            return Ok(self.finish(now, losses, Termination::Normal));
        }
        let ghost v0 = self@;
        let mut tr = self.triggered.take().unwrap();
        tr.last_event_timestamp = event.timestamp;
        tr.post_events = tr.post_events.saturating_add(1);
        self.triggered = Some(tr);
        let mut records = Vec::new();
        records.push(phased(event, "post"));
        proof {
            assert(event_views(records@) =~= seq![with_phase(event@, "post"@)]);
        }
        Ok(IncidentWrite { create: false, records, publish: false })
    }

    fn tail_expired(&self, now: u64) -> (b: bool)
        requires
            recorder_wf(self@),
            self@.state == FlightState::CapturingTail,
        ensures
            b == tail_expired(self@, now),
    {
        match &self.triggered {
            Some(tr) => (tr.trigger_at as u128) + (self.config.post_trigger as u128) <= now as u128,
            None => false,
        }
    }

    /// Closes the incident being captured.
    fn finish(&mut self, now: u64, losses: IncidentLosses, termination: Termination) -> (w: IncidentWrite)
        requires
            recorder_wf(old(self)@),
            old(self)@.state == FlightState::CapturingTail,
        ensures
            recorder_wf(final(self)@),
            final(self)@ == finished(old(self)@),
            !w.create && w.publish,
            w.records.len() == 1,
            event_views(w.records@) == seq![end_record(old(self)@, now, losses, termination)],
    {
        let tr = self.triggered.take().unwrap();
        let end = end_event(&self.config, &tr, now, self.pre_trigger_evictions, losses, termination);
        self.state = FlightState::Complete;
        let mut records = Vec::new();
        records.push(end);
        proof {
            assert(event_views(records@) =~= seq![end@]);
        }
        IncidentWrite { create: false, records, publish: true }
    }

    fn start_event(&self, now: u64, timestamp: Option<Quantity>, t: &TriggerInfo, losses: IncidentLosses) -> (e:
        NormalizedEvent)
        requires
            recorder_wf(self@),
            self@.state == FlightState::Armed,
        ensures
            e@ == metadata_record(timestamp, start_labels(self@, now, *t, losses)),
    {
        let span = if self.history.len() > 0 {
            now.saturating_sub(self.history[0].observed_at)
        } else {
            0
        };
        let armed = match self.armed_at {
            Some(a) => a,
            None => 0,
        };
        let mut labels = base_metadata(&self.config, "start");
        labels.insert_str("armed_at", seconds(armed));
        labels.insert_str("trigger_at", seconds(now));
        labels.insert_str("trigger_kind", t.kind.clone());
        labels.insert_str("trigger_reason", t.reason.clone());
        labels.insert_str("actual_pre_trigger_seconds", seconds(span));
        labels.insert_str("pre_event_count", u64_text(self.history.len() as u64));
        labels.insert_str("pre_encoded_bytes", u64_text(self.history_bytes as u64));
        labels.insert_str("pre_trigger_evictions", u64_text(self.pre_trigger_evictions));
        insert_threshold(&mut labels, t);
        insert_losses(&mut labels, "trigger", losses);
        metadata_event(timestamp, labels)
    }

    /// Moves the held history, oldest first and marked `pre`, to `records`.
    fn drain_history(&mut self, records: &mut Vec<NormalizedEvent>)
        ensures
            final(self)@ == (RecorderView { history: Seq::empty(), history_bytes: 0, ..old(self)@ }),
            event_views(final(records)@) == event_views(old(records)@) + pre_records(old(self)@.history),
    {
        let ghost held = self.history@;
        let ghost before = event_views(records@);
        while self.history.len() > 0
            invariant
                held.len() >= self.history@.len(),
                self.history@ == held.subrange(held.len() - self.history@.len(), held.len() as int),
                event_views(records@) == before + pre_records(held.subrange(0, held.len() - self.history@.len())),
                self.config == old(self).config,
                self.state == old(self).state,
                self.armed_at == old(self).armed_at,
                self.pre_trigger_evictions == old(self).pre_trigger_evictions,
                self.triggered == old(self).triggered,
            decreases self.history@.len(),
        {
            let ghost k = held.len() - self.history@.len();
            let ghost h = self.history@;
            let oldest = self.history.pop_front().unwrap();
            assert(oldest == held[k]);
            let ghost r0 = records@;
            records.push(phased(oldest.event, "pre"));
            proof {
                assert(held.subrange(0, k + 1) =~= held.subrange(0, k).push(held[k]));
                assert(pre_records(held.subrange(0, k + 1)) =~= pre_records(held.subrange(0, k)).push(
                    with_phase(held[k].event@, "pre"@),
                ));
                assert(event_views(records@) =~= event_views(r0).push(with_phase(held[k].event@, "pre"@)));
                assert(self.history@ =~= held.subrange(k + 1, held.len() as int));
            }
        }
        self.history_bytes = 0;
        proof {
            assert(held.subrange(0, held.len() as int) =~= held);
            assert(self.history@ =~= Seq::<BufferedEvent>::empty());
        }
    }

    /// Fires the trigger at `now`: the incident opens with its metadata,
    /// the held history and a trigger marker, and the tail starts; with no
    /// tail configured the incident closes at once.
    pub fn trigger(
        &mut self,
        now: u64,
        recorded_timestamp: Option<Quantity>,
        trigger: TriggerInfo,
        losses: IncidentLosses,
    ) -> (r: Result<IncidentWrite, FlightError>)
        requires
            recorder_wf(old(self)@),
        ensures
            recorder_wf(final(self)@),
            trigger_outcome(old(self)@, final(self)@, r, now, recorded_timestamp, trigger, losses),
    {
        if self.state != FlightState::Armed {
            return Err(self.refuse("trigger"));
        }
        match trigger.validate() {
            Ok(()) => {},
            Err(e) => return Err(e),
        }
        match recorded_timestamp {
            Some(t) => {
                if !t.is_finite() {
                    return Err(
                        FlightError::InvalidTrigger(String::from_str("recorded trigger timestamp must be finite")),
                    );
                }
            },
            None => {},
        }
        let ghost v0 = self@;
        let span = if self.history.len() > 0 {
            now.saturating_sub(self.history[0].observed_at)
        } else {
            0
        };
        let pre_events = self.history.len() as u64;
        let mut records = Vec::new();
        let start = self.start_event(now, recorded_timestamp, &trigger, losses);
        let ghost start_view = start@;
        records.push(start);
        assert(event_views(records@) =~= seq![start_view]);
        self.drain_history(&mut records);
        let ghost drained = event_views(records@);
        assert(drained == seq![start_view] + pre_records(v0.history));
        let marker = marker_event(recorded_timestamp, &trigger);
        let ghost marker_view = marker@;
        records.push(marker);
        proof {
            assert(event_views(records@) =~= drained.push(marker_view));
            assert(event_views(records@) =~= trigger_records(v0, now, recorded_timestamp, trigger, losses));
        }
        self.triggered = Some(
            TriggeredState {
                trigger_at: now,
                trigger_timestamp: recorded_timestamp,
                trigger,
                pre_events,
                actual_pre_duration: span,
                post_events: 0,
                last_event_timestamp: recorded_timestamp,
            },
        );
        self.state = FlightState::CapturingTail;
        proof {
            assert(self@ == capturing(v0, now, recorded_timestamp, trigger));
        }
        if self.config.post_trigger == 0 {
            let ghost opened = event_views(records@);
            let mut closing = self.finish(now, losses, Termination::Normal);
            assert(closing.records@[0]@ == event_views(closing.records@)[0]);
            let end = closing.records.pop().unwrap();
            records.push(end);
            proof {
                assert(event_views(records@) =~= opened.push(end@));
            }
            return Ok(IncidentWrite { create: true, records, publish: true });
        }
        Ok(IncidentWrite { create: true, records, publish: false })
    }

    /// Closes a tail that has run its course.
    pub fn tick(&mut self, now: u64, losses: IncidentLosses) -> (w: IncidentWrite)
        requires
            recorder_wf(old(self)@),
        ensures
            recorder_wf(final(self)@),
            tick_outcome(old(self)@, final(self)@, w, now, losses),
    {
        if self.state == FlightState::CapturingTail && self.tail_expired(now) {
            return self.finish(now, losses, Termination::Normal);
        }
        no_write()
    }

    /// Takes an event and fires the trigger it tripped, if any. An armed
    /// recorder holds the event first, so the incident opens with it in its
    /// history, stamped with the event's own timestamp. In any other state
    /// the event is taken as [`Self::observe`] takes it and no trigger fires.
    pub fn observe_then_trigger(
        &mut self,
        event: NormalizedEvent,
        encoded_bytes: usize,
        now: u64,
        losses: IncidentLosses,
        tripped: Option<TriggerInfo>,
    ) -> (r: Result<IncidentWrite, FlightError>)
        requires
            recorder_wf(old(self)@),
        ensures
            recorder_wf(final(self)@),
            old(self)@.state == FlightState::Armed && tripped is Some ==> trigger_outcome(
                retained(old(self)@, (BufferedEvent { observed_at: now, encoded_bytes, event })),
                final(self)@,
                r,
                now,
                event.timestamp,
                tripped.unwrap(),
                losses,
            ),
            !(old(self)@.state == FlightState::Armed && tripped is Some) ==> observe_outcome(
                old(self)@,
                final(self)@,
                r,
                event,
                encoded_bytes,
                now,
                losses,
            ),
    {
        let armed = self.state == FlightState::Armed;
        let timestamp = event.timestamp;
        let observed = self.observe(event, encoded_bytes, now, losses);
        if armed {
            match tripped {
                Some(t) => {
                    return self.trigger(now, timestamp, t, losses);
                },
                None => {},
            }
        }
        observed
    }

    /// A clock tick. An armed recorder fires the trigger the clock tripped,
    /// if any, and otherwise writes nothing; in any other state the
    /// recorder's own [`Self::tick`] runs.
    pub fn tick_or_trigger(
        &mut self,
        now: u64,
        recorded_timestamp: Option<Quantity>,
        tripped: Option<TriggerInfo>,
        losses: IncidentLosses,
    ) -> (r: Result<IncidentWrite, FlightError>)
        requires
            recorder_wf(old(self)@),
        ensures
            recorder_wf(final(self)@),
            old(self)@.state == FlightState::Armed ==> match tripped {
                Some(t) => trigger_outcome(old(self)@, final(self)@, r, now, recorded_timestamp, t, losses),
                None => r matches Ok(w) && writes_nothing(w) && final(self)@ == old(self)@,
            },
            old(self)@.state != FlightState::Armed ==> (r matches Ok(w) && tick_outcome(
                old(self)@,
                final(self)@,
                w,
                now,
                losses,
            )),
    {
        if self.state == FlightState::Armed {
            match tripped {
                Some(t) => self.trigger(now, recorded_timestamp, t, losses),
                None => Ok(no_write()),
            }
        } else {
            Ok(self.tick(now, losses))
        }
    }

    /// Discards the armed history without writing anything.
    pub fn cancel(&mut self) -> (r: Result<(), FlightError>)
        requires
            recorder_wf(old(self)@),
        ensures
            recorder_wf(final(self)@),
            old(self)@.state == FlightState::Armed ==> r is Ok && final(self)@ == cancelled(old(self)@),
            old(self)@.state != FlightState::Armed ==> refused(r, old(self)@.state, "cancel"@) && final(self)@
                == old(self)@,
    {
        if self.state != FlightState::Armed {
            return Err(self.refuse("cancel"));
        }
        self.history.clear();
        self.history_bytes = 0;
        self.state = FlightState::Cancelled;
        Ok(())
    }

    /// The operator's cancel: an armed recorder discards its history, a
    /// capturing one closes its incident as interrupted.
    pub fn cancel_or_interrupt(&mut self, now: u64, losses: IncidentLosses) -> (r: Result<IncidentWrite, FlightError>)
        requires
            recorder_wf(old(self)@),
        ensures
            recorder_wf(final(self)@),
            match old(self)@.state {
                FlightState::Armed => r matches Ok(w) && writes_nothing(w) && final(self)@ == cancelled(old(self)@),
                FlightState::CapturingTail => r matches Ok(w) && !w.create && w.publish && event_views(w.records@)
                    == seq![end_record(old(self)@, now, losses, Termination::Interrupted)] && final(self)@ == finished(
                    old(self)@,
                ),
                _ => refused(r, old(self)@.state, "cancel"@) && final(self)@ == old(self)@,
            },
    {
        if self.state == FlightState::Armed {
            let _ = self.cancel();
            return Ok(no_write());
        }
        if self.state == FlightState::CapturingTail {
            return Ok(self.finish(now, losses, Termination::Interrupted));
        }
        Err(self.refuse("cancel"))
    }

    /// Stops early: an armed recorder is cancelled, a capturing one closes
    /// its incident as interrupted.
    pub fn interrupt(&mut self, now: u64, losses: IncidentLosses) -> (r: Result<IncidentWrite, FlightError>)
        requires
            recorder_wf(old(self)@),
        ensures
            recorder_wf(final(self)@),
            match old(self)@.state {
                FlightState::Armed => r matches Ok(w) && writes_nothing(w) && final(self)@ == cancelled(old(self)@),
                FlightState::CapturingTail => r matches Ok(w) && !w.create && w.publish && event_views(w.records@)
                    == seq![end_record(old(self)@, now, losses, Termination::Interrupted)] && final(self)@ == finished(
                    old(self)@,
                ),
                _ => refused(r, old(self)@.state, "interrupt"@) && final(self)@ == old(self)@,
            },
    {
        if self.state == FlightState::Armed {
            let _ = self.cancel();
            return Ok(no_write());
        }
        if self.state == FlightState::CapturingTail {
            return Ok(self.finish(now, losses, Termination::Interrupted));
        }
        Err(self.refuse("interrupt"))
    }

    /// Stops because the collector or the renderer failed: an armed
    /// recorder is cancelled, a capturing one closes its incident with that
    /// termination.
    pub fn fail_after_trigger(&mut self, now: u64, losses: IncidentLosses, termination: Termination) -> (r: Result<
        IncidentWrite,
        FlightError,
    >)
        requires
            recorder_wf(old(self)@),
        ensures
            recorder_wf(final(self)@),
            !(termination is CollectorError || termination is RendererError) ==> (r matches Err(
                FlightError::InvalidConfig(s),
            ) && s@ == "failure completion requires an error termination"@ && final(self)@ == old(self)@),
            (termination is CollectorError || termination is RendererError) ==> match old(self)@.state {
                FlightState::Armed => r matches Ok(w) && writes_nothing(w) && final(self)@ == cancelled(old(self)@),
                FlightState::CapturingTail => r matches Ok(w) && !w.create && w.publish && event_views(w.records@)
                    == seq![end_record(old(self)@, now, losses, termination)] && final(self)@ == finished(old(self)@),
                _ => refused(r, old(self)@.state, "fail"@) && final(self)@ == old(self)@,
            },
    {
        match termination {
            Termination::CollectorError | Termination::RendererError => {},
            _ => {
                return Err(
                    FlightError::InvalidConfig(String::from_str("failure completion requires an error termination")),
                );
            },
        }
        if self.state == FlightState::Armed {
            let _ = self.cancel();
            return Ok(no_write());
        }
        if self.state == FlightState::CapturingTail {
            return Ok(self.finish(now, losses, termination));
        }
        Err(self.refuse("fail"))
    }

    /// The writer failed to carry out `write`: a failure to create or to
    /// publish an incident fails the recorder; a failed append of a
    /// post-trigger event leaves it as it is.
    pub fn writer_failed(&mut self, write: &IncidentWrite)
        requires
            recorder_wf(old(self)@),
        ensures
            recorder_wf(final(self)@),
            final(self)@ == if write.create || write.publish { failed(old(self)@) } else { old(self)@ },
    {
        if write.create || write.publish {
            self.history.clear();
            self.history_bytes = 0;
            self.triggered = None;
            self.state = FlightState::Failed;
        }
    }

    /// The recorder's summary at `now`.
    pub fn status(&self, now: u64) -> (s: FlightStatus)
        requires
            recorder_wf(self@),
        ensures
            s.state == self@.state,
            s.retained_events == self@.history.len(),
            s.retained_bytes == self@.history_bytes,
            s.retained_duration == held_span(self@.history, now),
            s.pre_trigger_evictions == self@.evictions,
            s.tail_elapsed == match self@.triggered {
                Some(tr) => if now >= tr.trigger_at { (now - tr.trigger_at) as u64 } else { 0 },
                None => 0,
            },
            s.tail_duration == self@.config.post_trigger,
            s.output == self@.config.output,
            s.trigger_kind matches Some(k) ==> self@.triggered matches Some(tr) && k@ == tr.trigger.kind@,
            s.trigger_kind is None ==> self@.triggered is None,
    {
        let retained_duration = if self.history.len() > 0 {
            now.saturating_sub(self.history[0].observed_at)
        } else {
            0
        };
        let (tail_elapsed, trigger_kind) = match &self.triggered {
            Some(tr) => (now.saturating_sub(tr.trigger_at), Some(tr.trigger.kind.clone())),
            None => (0, None),
        };
        FlightStatus {
            state: self.state,
            retained_events: self.history.len(),
            retained_bytes: self.history_bytes,
            retained_duration,
            pre_trigger_evictions: self.pre_trigger_evictions,
            tail_elapsed,
            tail_duration: self.config.post_trigger,
            trigger_kind,
            output: self.config.output.clone(),
        }
    }
}

} // verus!
