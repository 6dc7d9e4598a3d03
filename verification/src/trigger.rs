//! Flight-recorder trigger rules: how a rule's text reads, which sources a
//! rule applies to, and the errors a rule is refused with. Measuring rates
//! against thresholds is the caller's.
use vstd::prelude::*;

use crate::event::{quantity_finite, quantity_negative, Quantity, DOUBLE_SIGN_SPAN};
use crate::flight::recorder::TriggerInfo;
use crate::flight::FlightSource;
use crate::parse::strip_prefix_chars;
use crate::text::{chars_of, starts_with, str_eq, str_starts_with, string_from_chars};

verus! {

/// The kinds of trigger rule.
#[derive(Clone, Copy, Debug, PartialEq, Eq, Structural)]
pub enum TriggerKind {
    Manual,
    Auto,
    TcpRetransmitRate,
    TcpReset,
    SchedulerEventRate,
    SchedulerMigrationRate,
}

/// Why a trigger rule is refused.
#[derive(Clone, Debug)]
pub enum TriggerError {
    Invalid(String),
    WrongSource { source_kind: FlightSource, trigger: String },
}

/// The name `{:?}` gives a source.
pub open spec fn source_debug_name(s: FlightSource) -> Seq<char> {
    match s {
        FlightSource::Scheduler => "Scheduler"@,
        FlightSource::Tcp => "Tcp"@,
    }
}

impl TriggerError {
    /// The human-readable description of the error.
    pub fn message(&self) -> (s: String)
        ensures
            match *self {
                TriggerError::Invalid(m) => s@ == "invalid flight trigger: "@ + m@,
                TriggerError::WrongSource { source_kind, trigger } => s@ == "trigger "@ + trigger@
                    + " is incompatible with "@ + source_debug_name(source_kind) + " source"@,
            },
    {
        match self {
            TriggerError::Invalid(m) => {
                let mut s = String::from_str("invalid flight trigger: ");
                s.append(m.as_str());
                s
            },
            TriggerError::WrongSource { source_kind, trigger } => {
                let mut s = String::from_str("trigger ");
                s.append(trigger.as_str());
                s.append(" is incompatible with ");
                match source_kind {
                    FlightSource::Scheduler => s.append("Scheduler"),
                    FlightSource::Tcp => s.append("Tcp"),
                }
                s.append(" source");
                s
            },
        }
    }
}

/// Rules that apply to a source: manual and automatic ones to every source,
/// TCP rules to TCP, scheduler rules to the scheduler.
pub open spec fn fits_source(kind: TriggerKind, source: FlightSource) -> bool {
    match kind {
        TriggerKind::Manual | TriggerKind::Auto => true,
        TriggerKind::TcpRetransmitRate | TriggerKind::TcpReset => source == FlightSource::Tcp,
        TriggerKind::SchedulerEventRate | TriggerKind::SchedulerMigrationRate => source == FlightSource::Scheduler,
    }
}

/// Law: TCP rules apply to the TCP source alone, scheduler rules to the
/// scheduler source alone, and manual and automatic rules to every source;
/// so a rule is refused for a source exactly when it belongs to the other.
pub proof fn law_rules_fit_only_their_source(kind: TriggerKind, source: FlightSource)
    ensures
        kind == TriggerKind::TcpRetransmitRate || kind == TriggerKind::TcpReset ==> (fits_source(kind, source)
            <==> source == FlightSource::Tcp),
        kind == TriggerKind::SchedulerEventRate || kind == TriggerKind::SchedulerMigrationRate ==> (fits_source(
            kind,
            source,
        ) <==> source == FlightSource::Scheduler),
        kind == TriggerKind::Manual || kind == TriggerKind::Auto ==> fits_source(kind, source),
        !fits_source(kind, source) ==> kind != TriggerKind::Manual && kind != TriggerKind::Auto,
{
}

/// Does a rule of this kind apply to the source?
pub fn fits(kind: TriggerKind, source: FlightSource) -> (b: bool)
    ensures
        b == fits_source(kind, source),
{
    match kind {
        TriggerKind::Manual | TriggerKind::Auto => true,
        TriggerKind::TcpRetransmitRate | TriggerKind::TcpReset => source == FlightSource::Tcp,
        TriggerKind::SchedulerEventRate | TriggerKind::SchedulerMigrationRate => source == FlightSource::Scheduler,
    }
}

/// Accepts a rule for a source, or refuses it naming the rule as `text`.
pub fn validate_for(kind: TriggerKind, text: String, source: FlightSource) -> (r: Result<(), TriggerError>)
    ensures
        fits_source(kind, source) ==> r is Ok,
        !fits_source(kind, source) ==> (r matches Err(TriggerError::WrongSource { source_kind, trigger })
            && source_kind == source && trigger@ == text@),
{
    if fits(kind, source) {
        Ok(())
    } else {
        Err(TriggerError::WrongSource { source_kind: source, trigger: text })
    }
}

/// How the text of a rule reads.
#[derive(Clone, Debug)]
pub enum RuleText {
    /// A rule without a threshold.
    Plain(TriggerKind),
    /// A rate rule: its kind, its prefix and the text of its threshold.
    Rate(TriggerKind, &'static str, String),
}

/// The rate rules, by their prefix.
pub open spec fn rate_prefix(kind: TriggerKind) -> Seq<char> {
    match kind {
        TriggerKind::TcpRetransmitRate => "tcp-retransmit-rate="@,
        TriggerKind::SchedulerEventRate => "scheduler-event-rate="@,
        _ => "scheduler-migration-rate="@,
    }
}

/// How a rule's text reads: the words `manual`, `auto` and `tcp-reset`,
/// else the first rate prefix it starts with and what follows it.
pub open spec fn rule_reading(text: Seq<char>) -> Option<(TriggerKind, Seq<char>)> {
    if text == "manual"@ {
        Some((TriggerKind::Manual, Seq::empty()))
    } else if text == "auto"@ {
        Some((TriggerKind::Auto, Seq::empty()))
    } else if text == "tcp-reset"@ {
        Some((TriggerKind::TcpReset, Seq::empty()))
    } else if starts_with(text, "tcp-retransmit-rate="@) {
        Some((TriggerKind::TcpRetransmitRate, text.subrange(20, text.len() as int)))
    } else if starts_with(text, "scheduler-event-rate="@) {
        Some((TriggerKind::SchedulerEventRate, text.subrange(21, text.len() as int)))
    } else if starts_with(text, "scheduler-migration-rate="@) {
        Some((TriggerKind::SchedulerMigrationRate, text.subrange(25, text.len() as int)))
    } else {
        None
    }
}

/// Reads the text of a rule; an unknown rule is refused.
pub fn read_rule(text: &str) -> (r: Result<RuleText, TriggerError>)
    ensures
        match rule_reading(text@) {
            None => r matches Err(TriggerError::Invalid(m)) && m@ == "unknown trigger "@ + text@
                + "; expected manual, auto, tcp-reset, or a typed rate threshold"@,
            Some((kind, rest)) => match r {
                Ok(RuleText::Plain(k)) => k == kind && rest.len() == 0,
                Ok(RuleText::Rate(k, prefix, t)) => k == kind && prefix@ == rate_prefix(kind) && t@ == rest,
                Err(_) => false,
            },
        },
{
    proof {
        reveal_strlit("tcp-retransmit-rate=");
        reveal_strlit("scheduler-event-rate=");
        reveal_strlit("scheduler-migration-rate=");
    }
    if str_eq(text, "manual") {
        return Ok(RuleText::Plain(TriggerKind::Manual));
    }
    if str_eq(text, "auto") {
        return Ok(RuleText::Plain(TriggerKind::Auto));
    }
    if str_eq(text, "tcp-reset") {
        return Ok(RuleText::Plain(TriggerKind::TcpReset));
    }
    let chars = chars_of(text);
    match strip_prefix_chars(&chars, "tcp-retransmit-rate=") {
        Some(rest) => {
            return Ok(
                RuleText::Rate(TriggerKind::TcpRetransmitRate, "tcp-retransmit-rate=", string_from_chars(rest.as_slice())),
            );
        },
        None => {},
    }
    match strip_prefix_chars(&chars, "scheduler-event-rate=") {
        Some(rest) => {
            return Ok(
                RuleText::Rate(
                    TriggerKind::SchedulerEventRate,
                    "scheduler-event-rate=",
                    string_from_chars(rest.as_slice()),
                ),
            );
        },
        None => {},
    }
    match strip_prefix_chars(&chars, "scheduler-migration-rate=") {
        Some(rest) => {
            return Ok(
                RuleText::Rate(
                    TriggerKind::SchedulerMigrationRate,
                    "scheduler-migration-rate=",
                    string_from_chars(rest.as_slice()),
                ),
            );
        },
        None => {},
    }
    let mut m = String::from_str("unknown trigger ");
    m.append(text);
    m.append("; expected manual, auto, tcp-reset, or a typed rate threshold");
    Err(TriggerError::Invalid(m))
}

/// The refusal of a rate rule whose threshold is not a number.
pub fn threshold_not_a_number(prefix: &str) -> (e: TriggerError)
    ensures
        e matches TriggerError::Invalid(m) && m@ == prefix@ + " requires a number"@,
{
    let mut m = String::from_str(prefix);
    m.append(" requires a number");
    TriggerError::Invalid(m)
}

/// A finite quantity above zero.
pub open spec fn quantity_positive(q: Quantity) -> bool {
    &&& quantity_finite(q)
    &&& !quantity_negative(q)
    &&& match q {
        Quantity::Ratio { numerator, .. } => numerator > 0,
        Quantity::Double { bits } => bits % DOUBLE_SIGN_SPAN != 0,
    }
}

/// Accepts a parsed threshold that is finite and above zero.
pub fn check_threshold(threshold: Quantity) -> (r: Result<Quantity, TriggerError>)
    ensures
        quantity_positive(threshold) ==> r == Ok::<Quantity, TriggerError>(threshold),
        !quantity_positive(threshold) ==> (r matches Err(TriggerError::Invalid(m))
            && m@ == "trigger threshold must be finite and greater than zero"@),
{
    let positive = match threshold {
        Quantity::Ratio { numerator, .. } => numerator > 0,
        Quantity::Double { bits } => bits % DOUBLE_SIGN_SPAN != 0,
    };
    if threshold.is_finite() && !threshold.is_negative() && positive {
        Ok(threshold)
    } else {
        Err(TriggerError::Invalid(String::from_str("trigger threshold must be finite and greater than zero")))
    }
}

/// Completed windows a rate trigger weighs.
pub const DEBOUNCE_WINDOWS: usize = 3;

/// Windows among them that must meet the threshold.
pub const REQUIRED_EXCEEDED_WINDOWS: usize = 2;

/// How many windows of `h` met the threshold.
pub open spec fn exceeded_count(h: Seq<bool>) -> nat
    decreases h.len(),
{
    if h.len() == 0 {
        0
    } else {
        exceeded_count(h.drop_last()) + if h.last() { 1nat } else { 0nat }
    }
}

/// The most recent windows, at most [`DEBOUNCE_WINDOWS`] of them.
pub open spec fn recent_windows(h: Seq<bool>) -> Seq<bool> {
    if h.len() > DEBOUNCE_WINDOWS {
        h.subrange(h.len() - DEBOUNCE_WINDOWS, h.len() as int)
    } else {
        h
    }
}

/// The debounce is satisfied: all the weighed windows are complete and at
/// least [`REQUIRED_EXCEEDED_WINDOWS`] of them met the threshold.
pub open spec fn debounced(h: Seq<bool>) -> bool {
    h.len() == DEBOUNCE_WINDOWS && exceeded_count(h) >= REQUIRED_EXCEEDED_WINDOWS
}

/// Law: a trigger fires on two of the three most recent complete windows.
/// After a window closes, the history weighed is the last three windows
/// (fewer while there have been fewer), and the debounce is satisfied
/// exactly when there are three of them and at least two met the
/// threshold, whichever two.
pub proof fn law_debounce_fires_on_two_of_three(h: Seq<bool>, exceeded: bool)
    requires
        h.len() <= DEBOUNCE_WINDOWS,
    ensures
        ({
            let n = recent_windows(h.push(exceeded));
            &&& n.len() == if h.len() == DEBOUNCE_WINDOWS { 3 } else { h.len() + 1 }
            &&& n.last() == exceeded
            &&& forall|i: int| 0 <= i < n.len() - 1 ==> n[i] == h[h.len() + 1 - n.len() + i]
            &&& debounced(n) <==> (n.len() == 3 && ((n[0] && n[1]) || (n[0] && n[2]) || (n[1] && n[2])))
        }),
{
    let n = recent_windows(h.push(exceeded));
    if n.len() == 3 {
        let n2 = n.drop_last();
        let n1 = n2.drop_last();
        let n0 = n1.drop_last();
        assert(n0.len() == 0);
        assert(n1.last() == n[0]);
        assert(n2.last() == n[1]);
        assert(exceeded_count(n0) == 0);
        assert(exceeded_count(n1) == if n[0] { 1nat } else { 0nat });
        assert(exceeded_count(n2) == exceeded_count(n1) + if n[1] { 1nat } else { 0nat });
        assert(exceeded_count(n) == exceeded_count(n2) + if n[2] { 1nat } else { 0nat });
    }
}

/// Whether each of the most recently completed rate windows met its
/// threshold, oldest first.
pub struct Debounce {
    completed: Vec<bool>,
}

impl View for Debounce {
    type V = Seq<bool>;

    closed spec fn view(&self) -> Seq<bool> {
        self.completed@
    }
}

impl Debounce {
    /// At most [`DEBOUNCE_WINDOWS`] windows are remembered.
    #[verifier::type_invariant]
    closed spec fn within_bound(self) -> bool {
        self.completed.len() <= DEBOUNCE_WINDOWS
    }
}

impl Debounce {
    /// A debounce that has seen no complete window.
    pub fn new() -> (d: Debounce)
        ensures
            d@ == Seq::<bool>::empty(),
    {
        Debounce { completed: Vec::new() }
    }

    /// Records a completed window and says whether the trigger fires: when
    /// at least two of the three most recent windows met the threshold.
    pub fn close_window(&mut self, exceeded: bool) -> (fires: bool)
        ensures
            final(self)@ == recent_windows(old(self)@.push(exceeded)),
            final(self)@.len() <= DEBOUNCE_WINDOWS,
            fires == debounced(final(self)@),
    {
        proof {
            use_type_invariant(&*self);
        }
        let ghost before = self.completed@;
        let mut completed: Vec<bool> = Vec::new();
        std::mem::swap(&mut completed, &mut self.completed);
        if completed.len() == DEBOUNCE_WINDOWS {
            completed.remove(0);
            proof {
                assert(completed@ =~= before.subrange(1, before.len() as int));
            }
        }
        completed.push(exceeded);
        proof {
            assert(completed@ =~= recent_windows(before.push(exceeded)));
        }
        self.completed = completed;
        if self.completed.len() != DEBOUNCE_WINDOWS {
            return false;
        }
        let mut count: usize = 0;
        let mut i: usize = 0;
        while i < self.completed.len()
            invariant
                i <= self.completed.len(),
                count == exceeded_count(self.completed@.take(i as int)),
                count <= i,
            decreases self.completed.len() - i,
        {
            proof {
                assert(self.completed@.take(i + 1).drop_last() =~= self.completed@.take(i as int));
            }
            if self.completed[i] {
                count = count + 1;
            }
            i = i + 1;
        }
        proof {
            assert(self.completed@.take(self.completed@.len() as int) =~= self.completed@);
        }
        count >= REQUIRED_EXCEEDED_WINDOWS
    }
}

/// A session's trigger latch: the first trigger passes, and none after it.
pub struct FireOnce {
    fired: bool,
}

impl View for FireOnce {
    type V = bool;

    /// Whether a trigger has already passed.
    closed spec fn view(&self) -> bool {
        self.fired
    }
}

/// One candidate through the latch: the latch after it, and what fires.
pub open spec fn latch_step(fired: bool, candidate: Option<TriggerInfo>) -> (bool, Option<TriggerInfo>) {
    if fired {
        (true, None)
    } else {
        (candidate is Some, candidate)
    }
}

/// What fires for each of a sequence of candidates, from a latch state.
pub open spec fn latch_run(fired: bool, candidates: Seq<Option<TriggerInfo>>) -> Seq<Option<TriggerInfo>>
    decreases candidates.len(),
{
    if candidates.len() == 0 {
        Seq::empty()
    } else {
        let (next, out) = latch_step(fired, candidates[0]);
        seq![out] + latch_run(next, candidates.drop_first())
    }
}

impl FireOnce {
    /// A latch through which nothing has fired.
    pub fn new() -> (f: FireOnce)
        ensures
            !f@,
    {
        FireOnce { fired: false }
    }

    /// Whether a trigger has already fired.
    pub fn fired(&self) -> (b: bool)
        ensures
            b == self@,
    {
        self.fired
    }

    /// Passes a candidate trigger: it fires when nothing has fired yet, and
    /// then the latch stays closed.
    pub fn pass(&mut self, candidate: Option<TriggerInfo>) -> (r: Option<TriggerInfo>)
        ensures
            (final(self)@, r) == latch_step(old(self)@, candidate),
    {
        if self.fired {
            None
        } else {
            self.fired = candidate.is_some();
            candidate
        }
    }
}

/// Law: a session fires at most once. Whatever candidates a fresh latch is
/// given, at most one of them fires, and after the first that fires every
/// later one gives nothing.
pub proof fn law_trigger_fires_once_per_session(candidates: Seq<Option<TriggerInfo>>)
    ensures
        latch_run(false, candidates).len() == candidates.len(),
        forall|i: int, j: int|
            0 <= i < j < candidates.len() && (#[trigger] latch_run(false, candidates)[i]) is Some ==> (
            #[trigger] latch_run(false, candidates)[j]) is None,
{
    lemma_latch_run(false, candidates);
}

proof fn lemma_latch_run(fired: bool, candidates: Seq<Option<TriggerInfo>>)
    ensures
        latch_run(fired, candidates).len() == candidates.len(),
        fired ==> forall|j: int| 0 <= j < candidates.len() ==> (#[trigger] latch_run(fired, candidates)[j]) is None,
        forall|i: int, j: int|
            0 <= i < j < candidates.len() && (#[trigger] latch_run(fired, candidates)[i]) is Some ==> (
            #[trigger] latch_run(fired, candidates)[j]) is None,
    decreases candidates.len(),
{
    if candidates.len() > 0 {
        let (next, out) = latch_step(fired, candidates[0]);
        let rest = candidates.drop_first();
        lemma_latch_run(next, rest);
        let run = latch_run(fired, candidates);
        assert forall|j: int| 0 < j < candidates.len() implies run[j] == latch_run(next, rest)[j - 1] by {}
        assert forall|i: int, j: int| 0 <= i < j < candidates.len() && (#[trigger] run[i]) is Some implies (
        #[trigger] run[j]) is None by {
            if i == 0 {
                assert(next);
                assert(run[j] == latch_run(next, rest)[j - 1]);
            } else {
                assert(run[i] == latch_run(next, rest)[i - 1]);
                assert(run[j] == latch_run(next, rest)[j - 1]);
            }
        }
    }
}

/// The categories of a sent or a received TCP reset.
pub open spec fn reset_category(category: Seq<char>) -> bool {
    category == "tcp.reset.send"@ || category == "tcp.reset.receive"@
}

/// The trigger a `tcp-reset` rule fires on an event of `category`: on a
/// sent or received reset, naming it; on nothing else.
pub fn reset_trigger(category: &str) -> (t: Option<TriggerInfo>)
    ensures
        reset_category(category@) ==> (t matches Some(i) && i.kind@ == "tcp-reset"@ && i.reason@
            == "observed semantic "@ + category@ && i.threshold is None),
        !reset_category(category@) ==> t is None,
{
    if str_eq(category, "tcp.reset.send") || str_eq(category, "tcp.reset.receive") {
        let mut reason = String::from_str("observed semantic ");
        reason.append(category);
        Some(TriggerInfo { kind: String::from_str("tcp-reset"), reason, threshold: None })
    } else {
        None
    }
}

/// Events that count toward a rate rule: TCP retransmits, any scheduler
/// event, or scheduler migrations; nothing for the other rules.
pub open spec fn counts_toward_rate(kind: TriggerKind, category: Seq<char>) -> bool {
    match kind {
        TriggerKind::TcpRetransmitRate => category == "tcp.retransmit"@,
        TriggerKind::SchedulerEventRate => starts_with(category, "sched."@),
        TriggerKind::SchedulerMigrationRate => category == "sched.migrate"@,
        _ => false,
    }
}

/// Does an event of `category` count toward the rate of `kind`?
pub fn counts_toward(kind: TriggerKind, category: &str) -> (b: bool)
    ensures
        b == counts_toward_rate(kind, category@),
{
    match kind {
        TriggerKind::TcpRetransmitRate => str_eq(category, "tcp.retransmit"),
        TriggerKind::SchedulerEventRate => str_starts_with(category, "sched."),
        TriggerKind::SchedulerMigrationRate => str_eq(category, "sched.migrate"),
        _ => false,
    }
}

} // verus!
