//! The normalized event, version 1 of the wire schema.
//!
//! Magnitudes and timestamps are real numbers in the schema. The library
//! holds them exactly, as a [`Quantity`]: either a ratio of two unsigned
//! integers (what every source computes) or the IEEE-754 bit pattern of a
//! double that arrived from outside (parsed NDJSON or text input).
use vstd::prelude::*;

use crate::text::{decimal, str_eq, u64_text};
use vstd::arithmetic::power2::pow2;

verus! {

/// The only supported schema version.
pub const SCHEMA_VERSION: u8 = 1;

/// Flow direction of an event.
#[derive(Clone, Copy, Debug, PartialEq, Eq, Structural)]
pub enum Direction {
    Inbound,
    Outbound,
    Neutral,
    Unknown,
}

impl Default for Direction {
    fn default() -> (d: Self)
        ensures
            d == Direction::Unknown,
    {
        Direction::Unknown
    }
}

/// A non-negative real quantity held exactly.
#[derive(Clone, Copy, Debug, PartialEq, Eq, Structural)]
pub enum Quantity {
    /// `numerator / denominator`; a zero denominator stands for the
    /// non-finite result of dividing by zero.
    Ratio { numerator: u64, denominator: u64 },
    /// The bit pattern of an IEEE-754 binary64 value.
    Double { bits: u64 },
}

pub const DOUBLE_MANTISSA_SPAN: u64 = 4_503_599_627_370_496;

pub const DOUBLE_SIGN_SPAN: u64 = 9_223_372_036_854_775_808;

/// The biased exponent field of a binary64 bit pattern.
pub open spec fn double_exponent(bits: u64) -> int {
    (bits as int / DOUBLE_MANTISSA_SPAN as int) % 2048
}

/// Finite quantities: ratios with a non-zero denominator, doubles that are
/// neither infinite nor NaN.
pub open spec fn quantity_finite(q: Quantity) -> bool {
    match q {
        Quantity::Ratio { numerator, denominator } => denominator != 0,
        Quantity::Double { bits } => double_exponent(bits) != 2047,
    }
}

/// Quantities strictly below zero: only doubles with the sign bit set that
/// are not a signed zero (NaN is neither below nor above zero).
pub open spec fn quantity_negative(q: Quantity) -> bool {
    match q {
        Quantity::Ratio { .. } => false,
        Quantity::Double { bits } => bits >= DOUBLE_SIGN_SPAN && bits % DOUBLE_SIGN_SPAN != 0
            && !(double_exponent(bits) == 2047 && bits % DOUBLE_MANTISSA_SPAN != 0),
    }
}

impl Quantity {
    /// The whole number `n`.
    pub fn whole(n: u64) -> (q: Quantity)
        ensures
            q == (Quantity::Ratio { numerator: n, denominator: 1 }),
    {
        Quantity::Ratio { numerator: n, denominator: 1 }
    }

    /// Is the quantity finite?
    pub fn is_finite(&self) -> (b: bool)
        ensures
            b == quantity_finite(*self),
    {
        match self {
            Quantity::Ratio { numerator, denominator } => *denominator != 0,
            Quantity::Double { bits } => (*bits / DOUBLE_MANTISSA_SPAN) % 2048 != 2047,
        }
    }

    /// Is the quantity below zero?
    pub fn is_negative(&self) -> (b: bool)
        ensures
            b == quantity_negative(*self),
    {
        match self {
            Quantity::Ratio { .. } => false,
            Quantity::Double { bits } => {
                let exponent = (*bits / DOUBLE_MANTISSA_SPAN) % 2048;
                let nan = exponent == 2047 && *bits % DOUBLE_MANTISSA_SPAN != 0;
                *bits >= DOUBLE_SIGN_SPAN && *bits % DOUBLE_SIGN_SPAN != 0 && !nan
            },
        }
    }
}

/// The exponent of the highest power of two not above `n` (zero for zero).
pub open spec fn floor_log2(n: nat) -> nat
    decreases n,
{
    if n < 2 {
        0
    } else {
        1 + floor_log2(n / 2)
    }
}

/// The IEEE-754 binary64 bit pattern of a natural number below 2^53, which
/// that format holds exactly: zero is all zeros; otherwise the biased
/// exponent is `floor(log2 n) + 1023` and the fraction holds the bits of
/// `n` below its leading one.
pub open spec fn binary64_of(n: nat) -> u64 {
    if n == 0 {
        0
    } else {
        let k = floor_log2(n);
        ((k + 1023) * pow2(52) + (n - pow2(k)) * pow2((52 - k) as nat)) as u64
    }
}

proof fn lemma_floor_log2_bounds(n: nat)
    requires
        n >= 1,
    ensures
        pow2(floor_log2(n)) <= n < pow2(floor_log2(n) + 1),
    decreases n,
{
    vstd::arithmetic::power2::lemma_pow2_unfold(floor_log2(n) + 1);
    if n >= 2 {
        lemma_floor_log2_bounds(n / 2);
        vstd::arithmetic::power2::lemma_pow2_unfold(floor_log2(n));
    } else {
        vstd::arithmetic::power2::lemma2_to64();
    }
}

proof fn lemma_floor_log2_unique(n: nat, k: nat)
    requires
        pow2(k) <= n < pow2(k + 1),
    ensures
        floor_log2(n) == k,
    decreases n,
{
    vstd::arithmetic::power2::lemma_pow2_pos(k);
    vstd::arithmetic::power2::lemma_pow2_unfold(k + 1);
    if k == 0 {
        vstd::arithmetic::power2::lemma2_to64();
    } else {
        vstd::arithmetic::power2::lemma_pow2_unfold(k);
        lemma_floor_log2_unique(n / 2, (k - 1) as nat);
    }
}

/// The binary64 bit pattern of a whole number below 2^53.
pub fn double_bits_of(n: u64) -> (bits: u64)
    requires
        n < 0x20_0000_0000_0000,
    ensures
        bits == binary64_of(n as nat),
{
    if n == 0 {
        return 0;
    }
    let mut k: u64 = 0;
    let mut p: u64 = 1;
    proof {
        vstd::arithmetic::power2::lemma2_to64();
    }
    while p <= n / 2
        invariant
            1 <= p <= n,
            p == pow2(k as nat),
            k <= 52,
            n < 0x20_0000_0000_0000,
        decreases n - p,
    {
        proof {
            vstd::arithmetic::power2::lemma_pow2_unfold((k + 1) as nat);
            if k >= 52 {
                vstd::arithmetic::power2::lemma2_to64_rest();
                vstd::arithmetic::power2::lemma_pow2_strictly_increases(52, (k + 1) as nat);
            }
        }
        p = p * 2;
        k = k + 1;
        proof {
            if k > 52 {
                vstd::arithmetic::power2::lemma2_to64_rest();
                vstd::arithmetic::power2::lemma_pow2_strictly_increases(53, k as nat);
            }
        }
    }
    proof {
        vstd::arithmetic::power2::lemma_pow2_unfold((k + 1) as nat);
        lemma_floor_log2_unique(n as nat, k as nat);
        vstd::arithmetic::power2::lemma_pow2_adds(k as nat, (52 - k) as nat);
        vstd::arithmetic::power2::lemma2_to64_rest();
        vstd::arithmetic::power2::lemma_pow2_pos((52 - k) as nat);
    }
    let scale: u64 = 0x10_0000_0000_0000 / p;
    proof {
        assert(scale == pow2((52 - k) as nat)) by (nonlinear_arith)
            requires
                scale == 0x10_0000_0000_0000u64 / p,
                p * pow2((52 - k) as nat) == 0x10_0000_0000_0000int,
                p >= 1,
        ;
        assert((n - p) * scale < 0x10_0000_0000_0000int) by (nonlinear_arith)
            requires
                n - p < p,
                p * scale == 0x10_0000_0000_0000int,
                scale >= 1,
        ;
    }
    let fraction = (n - p) * scale;
    (k + 1023) * 0x10_0000_0000_0000 + fraction
}

/// The map that a sequence of key/value pairs denotes: later pairs override
/// earlier pairs with the same key.
pub open spec fn pairs_map(s: Seq<(Seq<char>, Seq<char>)>) -> Map<Seq<char>, Seq<char>>
    decreases s.len(),
{
    if s.len() == 0 {
        Map::empty()
    } else {
        pairs_map(s.drop_last()).insert(s.last().0, s.last().1)
    }
}

/// Index `i` holds the last pair of `s` whose key is `k`.
pub open spec fn last_with_key(s: Seq<(Seq<char>, Seq<char>)>, k: Seq<char>, i: int) -> bool {
    &&& 0 <= i < s.len()
    &&& s[i].0 == k
    &&& forall|j: int| i < j < s.len() ==> s[j].0 != k
}

proof fn lemma_pairs_map_absent(s: Seq<(Seq<char>, Seq<char>)>, k: Seq<char>)
    requires
        forall|j: int| 0 <= j < s.len() ==> s[j].0 != k,
    ensures
        !pairs_map(s).contains_key(k),
    decreases s.len(),
{
    if s.len() > 0 {
        lemma_pairs_map_absent(s.drop_last(), k);
    }
}

proof fn lemma_pairs_map_last(s: Seq<(Seq<char>, Seq<char>)>, k: Seq<char>, i: int)
    requires
        last_with_key(s, k, i),
    ensures
        pairs_map(s).contains_key(k),
        pairs_map(s)[k] == s[i].1,
    decreases s.len(),
{
    if i < s.len() - 1 {
        lemma_pairs_map_last(s.drop_last(), k, i);
    }
}

proof fn lemma_pairs_map_update(
    s: Seq<(Seq<char>, Seq<char>)>,
    k: Seq<char>,
    v: Seq<char>,
    i: int,
)
    requires
        last_with_key(s, k, i),
    ensures
        pairs_map(s.update(i, (k, v))) == pairs_map(s).insert(k, v),
    decreases s.len(),
{
    let t = s.update(i, (k, v));
    if i == s.len() - 1 {
        assert(t.drop_last() =~= s.drop_last());
        assert(pairs_map(t) =~= pairs_map(s).insert(k, v));
    } else {
        assert(t.drop_last() =~= s.drop_last().update(i, (k, v)));
        lemma_pairs_map_update(s.drop_last(), k, v, i);
        assert(pairs_map(t) =~= pairs_map(s).insert(k, v));
    }
}

/// String labels of an event, viewed as a map from key to value.
#[derive(Clone, Debug)]
pub struct Labels {
    pub entries: Vec<(String, String)>,
}

impl Labels {
    /// The entries as pairs of character sequences.
    pub open spec fn pairs(self) -> Seq<(Seq<char>, Seq<char>)> {
        self.entries@.map_values(|e: (String, String)| (e.0@, e.1@))
    }

    /// No key occurs in two entries, so each entry is one label of the
    /// view.
    pub open spec fn keys_unique(self) -> bool {
        forall|i: int, j: int| 0 <= i < j < self.pairs().len() ==> (#[trigger] self.pairs()[i]).0 != (
        #[trigger] self.pairs()[j]).0
    }
}

impl View for Labels {
    type V = Map<Seq<char>, Seq<char>>;

    open spec fn view(&self) -> Map<Seq<char>, Seq<char>> {
        pairs_map(self.pairs())
    }
}

impl Labels {
    /// No labels.
    pub fn new() -> (l: Labels)
        ensures
            l@ == Map::<Seq<char>, Seq<char>>::empty(),
            l.keys_unique(),
    {
        Labels { entries: Vec::new() }
    }

    /// The position of the last entry whose key is `key`.
    fn find(&self, key: &str) -> (r: Option<usize>)
        ensures
            match r {
                Some(i) => last_with_key(self.pairs(), key@, i as int),
                None => forall|j: int| 0 <= j < self.pairs().len() ==> self.pairs()[j].0 != key@,
            },
    {
        let mut i = self.entries.len();
        while i > 0
            invariant
                i <= self.entries.len(),
                forall|j: int| i <= j < self.pairs().len() ==> self.pairs()[j].0 != key@,
            decreases i,
        {
            i = i - 1;
            if str_eq(self.entries[i].0.as_str(), key) {
                return Some(i);
            }
        }
        None
    }

    /// Sets `key` to `value`, replacing any earlier value.
    pub fn insert(&mut self, key: String, value: String)
        ensures
            final(self)@ == old(self)@.insert(key@, value@),
            old(self).keys_unique() ==> final(self).keys_unique(),
    {
        let ghost old_pairs = self.pairs();
        match self.find(key.as_str()) {
            Some(i) => {
                let ghost kv = key@;
                let ghost vv = value@;
                self.entries.set(i, (key, value));
                proof {
                    assert(self.pairs() =~= old_pairs.update(i as int, (kv, vv)));
                    lemma_pairs_map_update(old_pairs, kv, vv, i as int);
                    assert forall|a: int, b: int| 0 <= a < b < self.pairs().len() && old(self).keys_unique()
                        implies (#[trigger] self.pairs()[a]).0 != (#[trigger] self.pairs()[b]).0 by {
                        assert(old_pairs[a].0 != old_pairs[b].0);
                    }
                }
            },
            None => {
                let ghost kv = key@;
                let ghost vv = value@;
                self.entries.push((key, value));
                proof {
                    assert(self.pairs().drop_last() =~= old_pairs);
                    assert forall|a: int, b: int| 0 <= a < b < self.pairs().len() && old(self).keys_unique()
                        implies (#[trigger] self.pairs()[a]).0 != (#[trigger] self.pairs()[b]).0 by {
                        if b < old_pairs.len() {
                            assert(old_pairs[a].0 != old_pairs[b].0);
                        } else {
                            assert(old_pairs[a].0 != kv);
                        }
                    }
                }
            },
        }
    }

    /// Sets the label `key` (a literal) to `value`.
    pub fn insert_str(&mut self, key: &str, value: String)
        ensures
            final(self)@ == old(self)@.insert(key@, value@),
            old(self).keys_unique() ==> final(self).keys_unique(),
    {
        self.insert(String::from_str(key), value);
    }

    /// The value of `key`, if present.
    pub fn get(&self, key: &str) -> (r: Option<&String>)
        ensures
            match r {
                Some(v) => self@.contains_key(key@) && self@[key@] == v@,
                None => !self@.contains_key(key@),
            },
    {
        match self.find(key) {
            Some(i) => {
                proof {
                    lemma_pairs_map_last(self.pairs(), key@, i as int);
                }
                Some(&self.entries[i].1)
            },
            None => {
                proof {
                    lemma_pairs_map_absent(self.pairs(), key@);
                }
                None
            },
        }
    }

    /// Is `key` present?
    pub fn contains_key(&self, key: &str) -> (b: bool)
        ensures
            b == self@.contains_key(key@),
    {
        self.get(key).is_some()
    }

    /// Are there no labels at all?
    pub fn is_empty(&self) -> (b: bool)
        ensures
            b == (self@ == Map::<Seq<char>, Seq<char>>::empty()),
    {
        if self.entries.len() == 0 {
            assert(self.pairs() =~= Seq::<(Seq<char>, Seq<char>)>::empty());
            true
        } else {
            let ghost p = self.pairs();
            assert(self@.contains_key(p.last().0));
            false
        }
    }
}

/// A normalized activity event.
#[derive(Clone, Debug)]
pub struct NormalizedEvent {
    pub v: u8,
    pub timestamp: Option<Quantity>,
    pub category: String,
    pub origin: Option<String>,
    pub target: Option<String>,
    pub magnitude: Quantity,
    pub direction: Direction,
    pub labels: Labels,
}

/// The value of a [`NormalizedEvent`]: its fields, texts as character
/// sequences and labels as a map.
pub struct EventView {
    pub v: u8,
    pub timestamp: Option<Quantity>,
    pub category: Seq<char>,
    pub origin: Option<Seq<char>>,
    pub target: Option<Seq<char>>,
    pub magnitude: Quantity,
    pub direction: Direction,
    pub labels: Map<Seq<char>, Seq<char>>,
}

/// The text of an optional string.
pub open spec fn opt_chars(s: Option<String>) -> Option<Seq<char>> {
    match s {
        Some(t) => Some(t@),
        None => None,
    }
}

impl View for NormalizedEvent {
    type V = EventView;

    open spec fn view(&self) -> EventView {
        EventView {
            v: self.v,
            timestamp: self.timestamp,
            category: self.category@,
            origin: opt_chars(self.origin),
            target: opt_chars(self.target),
            magnitude: self.magnitude,
            direction: self.direction,
            labels: self.labels@,
        }
    }
}

/// The values of a list of events.
pub open spec fn event_views(s: Seq<NormalizedEvent>) -> Seq<EventView> {
    s.map_values(|e: NormalizedEvent| e@)
}

/// The text of an optional string, empty when absent.
pub open spec fn text_or_empty(s: Option<String>) -> Seq<char> {
    match s {
        Some(t) => t@,
        None => Seq::empty(),
    }
}

/// The key by which two events belong to the same flow: origin, target and
/// category joined by the unit separator U+001F.
pub open spec fn flow_key_text(e: NormalizedEvent) -> Seq<char> {
    text_or_empty(e.origin) + seq!['\u{1f}'] + text_or_empty(e.target) + seq!['\u{1f}'] + e.category@
}

/// Why an event is refused.
#[derive(Clone, Copy, Debug, PartialEq, Eq, Structural)]
pub enum EventError {
    UnsupportedVersion(u8),
    InvalidMagnitude,
    InvalidTimestamp,
}

/// The outcome of validating an event.
pub open spec fn validation_error(e: NormalizedEvent) -> Option<EventError> {
    if e.v != SCHEMA_VERSION {
        Some(EventError::UnsupportedVersion(e.v))
    } else if !quantity_finite(e.magnitude) || quantity_negative(e.magnitude) {
        Some(EventError::InvalidMagnitude)
    } else if e.timestamp.is_some() && !quantity_finite(e.timestamp.unwrap()) {
        Some(EventError::InvalidTimestamp)
    } else {
        None
    }
}

/// Law: an accepted event has the supported version, a finite magnitude
/// that is not below zero, and a finite timestamp when it has one. An event
/// of the supported version whose magnitude is a finite negative number
/// (a double with the sign bit set that is neither `-0.0`, an infinity nor
/// NaN) is refused for its magnitude.
pub proof fn law_accepted_magnitudes_are_finite_and_not_negative(e: NormalizedEvent)
    ensures
        validation_error(e) is None ==> {
            &&& e.v == SCHEMA_VERSION
            &&& quantity_finite(e.magnitude)
            &&& !quantity_negative(e.magnitude)
            &&& (e.timestamp matches Some(t) ==> quantity_finite(t))
        },
        e.magnitude matches Quantity::Ratio { numerator, denominator } ==> (validation_error(e) is None
            ==> denominator != 0),
        e.magnitude matches Quantity::Double { bits } ==> (e.v == SCHEMA_VERSION && bits > DOUBLE_SIGN_SPAN
            && double_exponent(bits) != 2047 ==> validation_error(e) == Some(EventError::InvalidMagnitude)),
{
    match e.magnitude {
        Quantity::Double { bits } => {
            if bits > DOUBLE_SIGN_SPAN {
                assert(bits % DOUBLE_SIGN_SPAN != 0) by {
                    assert(bits < 2 * DOUBLE_SIGN_SPAN);
                }
            }
        },
        _ => {},
    }
}

impl NormalizedEvent {
    /// Accepts the event when it has the supported version, a finite
    /// non-negative magnitude and, if present, a finite timestamp.
    pub fn validate(self) -> (r: Result<NormalizedEvent, EventError>)
        ensures
            match validation_error(self) {
                Some(err) => r == Err::<NormalizedEvent, EventError>(err),
                None => r == Ok::<NormalizedEvent, EventError>(self),
            },
    {
        if self.v != SCHEMA_VERSION {
            return Err(EventError::UnsupportedVersion(self.v));
        }
        if !self.magnitude.is_finite() || self.magnitude.is_negative() {
            return Err(EventError::InvalidMagnitude);
        }
        match self.timestamp {
            Some(t) => {
                if !t.is_finite() {
                    return Err(EventError::InvalidTimestamp);
                }
            },
            None => {},
        }
        Ok(self)
    }

    /// The flow key: origin, target and category joined by U+001F.
    pub fn flow_key(&self) -> (s: String)
        ensures
            s@ == flow_key_text(*self),
    {
        let mut s = String::new();
        match &self.origin {
            Some(o) => s.append(o.as_str()),
            None => {},
        }
        s.append("\u{1f}");
        match &self.target {
            Some(t) => s.append(t.as_str()),
            None => {},
        }
        s.append("\u{1f}");
        s.append(self.category.as_str());
        proof {
            reveal_strlit("\u{1f}");
            assert(s@ =~= flow_key_text(*self));
        }
        s
    }
}

impl EventError {
    /// The human-readable description of the error.
    pub fn message(&self) -> (s: String)
        ensures
            s@ == match *self {
                EventError::UnsupportedVersion(v) => "unsupported schema version "@ + decimal(
                    v as nat,
                ) + "; supported version is 1"@,
                EventError::InvalidMagnitude => "magnitude must be finite and non-negative"@,
                EventError::InvalidTimestamp => "timestamp must be finite"@,
            },
    {
        match self {
            EventError::UnsupportedVersion(v) => {
                let mut s = String::from_str("unsupported schema version ");
                let n = u64_text(*v as u64);
                s.append(n.as_str());
                s.append("; supported version is 1");
                s
            },
            EventError::InvalidMagnitude => String::from_str(
                "magnitude must be finite and non-negative",
            ),
            EventError::InvalidTimestamp => String::from_str("timestamp must be finite"),
        }
    }
}

} // verus!
