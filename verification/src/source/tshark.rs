//! Packet rows exported by `tshark -T fields` as tab-separated values:
//! eleven columns become one event, with endpoints, protocol, frame length
//! and a direction inferred from whether each address is local.
use vstd::prelude::*;

use crate::event::{quantity_finite, quantity_negative, Direction, EventView, Labels, NormalizedEvent, Quantity, SCHEMA_VERSION};
use crate::source::SourceStats;
use crate::text::{ascii_lower, string_from_chars, to_ascii_lower};

verus! {

/// Columns of a row.
pub const COLUMN_COUNT: usize = 11;

/// `std::str::from_utf8`: the text of valid UTF-8, nothing otherwise.
#[verifier::external_body]
fn utf8_text(bytes: &[u8]) -> (r: Option<String>)
    ensures
        match r {
            Some(s) => vstd::utf8::valid_utf8(bytes@) && s@ == vstd::utf8::decode_utf8(bytes@),
            None => !vstd::utf8::valid_utf8(bytes@),
        },
{
    match std::str::from_utf8(bytes) {
        Ok(s) => Some(s.to_owned()),
        Err(_) => None,
    }
}

/// A text without its trailing carriage returns and line feeds.
pub open spec fn without_line_end(s: Seq<char>) -> Seq<char>
    decreases s.len(),
{
    if s.len() > 0 && (s.last() == '\r' || s.last() == '\n') {
        without_line_end(s.drop_last())
    } else {
        s
    }
}

/// `str::split` on one character: the pieces between separators, in order,
/// one more than there are separators.
pub open spec fn split_on(s: Seq<char>, sep: char) -> Seq<Seq<char>>
    decreases s.len(),
{
    if s.len() == 0 {
        seq![Seq::<char>::empty()]
    } else {
        let before = split_on(s.drop_last(), sep);
        if s.last() == sep {
            before.push(Seq::<char>::empty())
        } else {
            before.update(before.len() - 1, before.last().push(s.last()))
        }
    }
}

proof fn lemma_split_on_len(s: Seq<char>, sep: char)
    ensures
        split_on(s, sep).len() >= 1,
    decreases s.len(),
{
    if s.len() > 0 {
        lemma_split_on_len(s.drop_last(), sep);
    }
}

/// The texts of a list of strings.
pub open spec fn texts(v: Seq<String>) -> Seq<Seq<char>> {
    v.map_values(|s: String| s@)
}

/// The columns of a raw row, if it is UTF-8: its text without the line end,
/// split at tabs.
pub open spec fn row_columns(row: Seq<u8>) -> Option<Seq<Seq<char>>> {
    if vstd::utf8::valid_utf8(row) {
        Some(split_on(without_line_end(vstd::utf8::decode_utf8(row)), '\t'))
    } else {
        None
    }
}

/// An IP address as the capture names it.
#[derive(Clone, Copy, Debug, PartialEq, Eq, Structural)]
pub enum IpAddress {
    V4(u32),
    V6(u128),
}

/// Private, loopback, link-local or unspecified addresses, as `Ipv4Addr`
/// and `Ipv6Addr` classify them (`is_private`, `is_loopback`,
/// `is_link_local`, `is_unspecified`), with unique local (fc00::/7) and
/// link-local unicast (fe80::/10) IPv6 addresses.
pub open spec fn localish(a: IpAddress) -> bool {
    match a {
        IpAddress::V4(x) => {
            let first = x as nat / 0x100_0000;
            let second = (x as nat / 0x1_0000) % 0x100;
            ||| first == 10
            ||| (first == 172 && 16 <= second < 32)
            ||| (first == 192 && second == 168)
            ||| first == 127
            ||| (first == 169 && second == 254)
            ||| x == 0
        },
        IpAddress::V6(x) => {
            let first_octet = x as nat / 0x100_0000_0000_0000_0000_0000_0000_0000;
            let first_segment = x as nat / 0x1_0000_0000_0000_0000_0000_0000_0000;
            ||| x == 1
            ||| x == 0
            ||| first_octet == 0xfc
            ||| first_octet == 0xfd
            ||| (0xfe80 <= first_segment && first_segment <= 0xfebf)
        },
    }
}

/// The direction of a flow between two addresses: neutral between equal
/// addresses, outbound from a local to a remote one, inbound the other way,
/// unknown otherwise or when an address is missing.
pub open spec fn flow_direction(source: Option<IpAddress>, target: Option<IpAddress>) -> Direction {
    match (source, target) {
        (Some(s), Some(t)) => if s == t {
            Direction::Neutral
        } else if localish(s) && !localish(t) {
            Direction::Outbound
        } else if !localish(s) && localish(t) {
            Direction::Inbound
        } else {
            Direction::Unknown
        },
        _ => Direction::Unknown,
    }
}

/// A column's text when it is not empty.
pub open spec fn present(s: Seq<char>) -> Option<Seq<char>> {
    if s.len() > 0 {
        Some(s)
    } else {
        None
    }
}

/// The first of two columns that is not empty.
pub open spec fn first_present(a: Seq<char>, b: Seq<char>) -> Option<Seq<char>> {
    if a.len() > 0 {
        Some(a)
    } else {
        present(b)
    }
}

/// An endpoint: `address:port`, with IPv6 addresses in brackets, or only
/// one of the two, the port written `port:N`.
pub open spec fn endpoint_text(address: Option<Seq<char>>, port: Option<Seq<char>>) -> Option<Seq<char>> {
    match (address, port) {
        (Some(a), Some(p)) => if a.contains(':') {
            Some("["@ + a + "]:"@ + p)
        } else {
            Some(a + ":"@ + p)
        },
        (Some(a), None) => Some(a),
        (None, Some(p)) => Some("port:"@ + p),
        (None, None) => None,
    }
}

/// What the caller read from a row's columns with the platform's number
/// and address parsers: column 0 and column 6 as doubles (`None` when the
/// column does not parse), and the first present source and target address
/// columns as IP addresses (`None` when absent or not an address).
#[derive(Clone, Copy, Debug)]
pub struct RowReadings {
    pub timestamp: Option<Quantity>,
    pub frame_length: Option<Quantity>,
    pub source_address: Option<IpAddress>,
    pub target_address: Option<IpAddress>,
}

/// Why a split row is refused, if it is: a timestamp that is not a finite
/// number, or a frame length that is not a finite non-negative number.
pub open spec fn row_problem(c: Seq<Seq<char>>, r: RowReadings) -> Option<Seq<char>> {
    if c[0].len() > 0 && (r.timestamp is None || !quantity_finite(r.timestamp.unwrap())) {
        Some("invalid timestamp"@)
    } else if c[6].len() > 0 && (r.frame_length is None || !quantity_finite(r.frame_length.unwrap())
        || quantity_negative(r.frame_length.unwrap())) {
        Some("invalid frame length"@)
    } else {
        None
    }
}

/// The protocol column, `unknown` when empty.
pub open spec fn row_protocol(c: Seq<Seq<char>>) -> Seq<char> {
    if c[5].len() > 0 {
        c[5]
    } else {
        "unknown"@
    }
}

/// The event of an accepted row.
pub open spec fn row_event(c: Seq<Seq<char>>, r: RowReadings) -> EventView {
    let protocol = row_protocol(c);
    let labels = Map::<Seq<char>, Seq<char>>::empty().insert("protocol"@, protocol);
    EventView {
        v: SCHEMA_VERSION,
        timestamp: if c[0].len() > 0 { r.timestamp } else { None },
        category: ascii_lower(protocol),
        origin: endpoint_text(first_present(c[1], c[2]), first_present(c[7], c[8])),
        target: endpoint_text(first_present(c[3], c[4]), first_present(c[9], c[10])),
        magnitude: if c[6].len() > 0 { r.frame_length.unwrap() } else { Quantity::Ratio { numerator: 1, denominator: 1 } },
        direction: flow_direction(r.source_address, r.target_address),
        labels: match r.source_address {
            Some(IpAddress::V4(_)) => labels.insert("ip_version"@, "4"@),
            Some(IpAddress::V6(_)) => labels.insert("ip_version"@, "6"@),
            None => labels,
        },
    }
}

fn line_end_at(text: &Vec<char>) -> (n: usize)
    ensures
        n <= text@.len(),
        without_line_end(text@) == text@.subrange(0, n as int),
{
    let mut n = text.len();
    assert(text@.subrange(0, n as int) =~= text@);
    while n > 0 && (text[n - 1] == '\r' || text[n - 1] == '\n')
        invariant
            n <= text@.len(),
            without_line_end(text@) == without_line_end(text@.subrange(0, n as int)),
        decreases n,
    {
        assert(text@.subrange(0, n as int).drop_last() =~= text@.subrange(0, n - 1));
        n = n - 1;
    }
    n
}

fn split_tabs(text: &Vec<char>, end: usize) -> (out: Vec<String>)
    requires
        end <= text@.len(),
    ensures
        texts(out@) == split_on(text@.subrange(0, end as int), '\t'),
{
    let mut fields: Vec<String> = Vec::new();
    let mut current: Vec<char> = Vec::new();
    let mut i: usize = 0;
    assert(text@.subrange(0, 0) =~= Seq::<char>::empty());
    assert(texts(fields@).push(current@) =~= seq![Seq::<char>::empty()]);
    while i < end
        invariant
            i <= end <= text@.len(),
            split_on(text@.subrange(0, i as int), '\t') == texts(fields@).push(current@),
        decreases end - i,
    {
        let c = text[i];
        let ghost p = text@.subrange(0, i as int);
        let ghost before = texts(fields@).push(current@);
        assert(text@.subrange(0, i + 1).drop_last() =~= p);
        assert(text@.subrange(0, i + 1).last() == c);
        if c == '\t' {
            let s = string_from_chars(current.as_slice());
            fields.push(s);
            current = Vec::new();
            assert(texts(fields@).push(current@) =~= before.push(Seq::<char>::empty()));
        } else {
            let ghost old_fields = texts(fields@);
            current.push(c);
            assert(texts(fields@).push(current@) =~= before.update(before.len() - 1, before.last().push(c)));
        }
        i = i + 1;
    }
    let s = string_from_chars(current.as_slice());
    let ghost before = texts(fields@);
    fields.push(s);
    assert(texts(fields@) =~= before.push(current@));
    fields
}

fn contains_colon(s: &String) -> (b: bool)
    ensures
        b == s@.contains(':'),
{
    let chars = crate::text::chars_of(s.as_str());
    let mut i: usize = 0;
    while i < chars.len()
        invariant
            i <= chars.len(),
            chars@ == s@,
            forall|j: int| 0 <= j < i ==> chars@[j] != ':',
        decreases chars.len() - i,
    {
        if chars[i] == ':' {
            assert(s@[i as int] == ':');
            return true;
        }
        i = i + 1;
    }
    false
}

fn present_column(columns: &Vec<String>, first: usize, second: usize) -> (r: Option<&String>)
    requires
        first < columns.len(),
        second < columns.len(),
    ensures
        match first_present(columns@[first as int]@, columns@[second as int]@) {
            Some(t) => r matches Some(s) && s@ == t,
            None => r is None,
        },
{
    if !columns[first].as_str().is_empty() {
        Some(&columns[first])
    } else if !columns[second].as_str().is_empty() {
        Some(&columns[second])
    } else {
        None
    }
}

fn endpoint(address: Option<&String>, port: Option<&String>) -> (r: Option<String>)
    ensures
        r matches Some(s) ==> endpoint_text(
            match address { Some(a) => Some(a@), None => None },
            match port { Some(p) => Some(p@), None => None },
        ) == Some(s@),
        r is None ==> endpoint_text(
            match address { Some(a) => Some(a@), None => None },
            match port { Some(p) => Some(p@), None => None },
        ) is None,
{
    match (address, port) {
        (Some(a), Some(p)) => {
            if contains_colon(a) {
                let mut s = String::from_str("[");
                s.append(a.as_str());
                s.append("]:");
                s.append(p.as_str());
                Some(s)
            } else {
                let mut s = a.clone();
                s.append(":");
                s.append(p.as_str());
                Some(s)
            }
        },
        (Some(a), None) => Some(a.clone()),
        (None, Some(p)) => {
            let mut s = String::from_str("port:");
            s.append(p.as_str());
            Some(s)
        },
        (None, None) => None,
    }
}

fn is_localish(a: IpAddress) -> (b: bool)
    ensures
        b == localish(a),
{
    match a {
        IpAddress::V4(x) => {
            let first = x / 0x100_0000;
            let second = (x / 0x1_0000) % 0x100;
            first == 10 || (first == 172 && 16 <= second && second < 32) || (first == 192 && second == 168)
                || first == 127 || (first == 169 && second == 254) || x == 0
        },
        IpAddress::V6(x) => {
            let first_octet = x / 0x100_0000_0000_0000_0000_0000_0000_0000;
            let first_segment = x / 0x1_0000_0000_0000_0000_0000_0000_0000;
            x == 1 || x == 0 || first_octet == 0xfc || first_octet == 0xfd || (0xfe80 <= first_segment
                && first_segment <= 0xfebf)
        },
    }
}

fn infer_direction(source: Option<IpAddress>, target: Option<IpAddress>) -> (d: Direction)
    ensures
        d == flow_direction(source, target),
{
    match (source, target) {
        (Some(s), Some(t)) => {
            if s == t {
                Direction::Neutral
            } else {
                let local_source = is_localish(s);
                let local_target = is_localish(t);
                if local_source && !local_target {
                    Direction::Outbound
                } else if !local_source && local_target {
                    Direction::Inbound
                } else {
                    Direction::Unknown
                }
            }
        },
        _ => Direction::Unknown,
    }
}

/// Events from tshark rows; reading the rows, and parsing numbers and
/// addresses, is the caller's.
pub struct TsharkTsvSource {
    stats: SourceStats,
}

impl TsharkTsvSource {
    /// A source that has accepted nothing yet.
    pub fn new() -> (s: TsharkTsvSource)
        ensures
            s.stats() == (SourceStats { accepted: 0, malformed: 0 }),
    {
        TsharkTsvSource { stats: SourceStats { accepted: 0, malformed: 0 } }
    }

    /// What the source has accepted and refused.
    pub closed spec fn spec_stats(&self) -> SourceStats {
        self.stats
    }

    /// What the source has accepted and refused.
    #[verifier::when_used_as_spec(spec_stats)]
    pub fn stats(&self) -> (s: SourceStats)
        ensures
            s == self.spec_stats(),
    {
        self.stats
    }

    /// Splits a raw row into its eleven columns, refusing a row that is not
    /// UTF-8 or has another number of columns.
    pub fn split_row(row: &[u8]) -> (r: Result<Vec<String>, &'static str>)
        ensures
            match row_columns(row@) {
                None => r matches Err(m) && m@ == "row is not UTF-8"@,
                Some(c) => if c.len() == COLUMN_COUNT {
                    r matches Ok(v) && texts(v@) == c
                } else {
                    r matches Err(m) && m@ == "expected exactly 11 tab-separated fields"@
                },
            },
    {
        let text = match utf8_text(row) {
            Some(t) => t,
            None => return Err("row is not UTF-8"),
        };
        let chars = crate::text::chars_of(text.as_str());
        let end = line_end_at(&chars);
        let columns = split_tabs(&chars, end);
        if columns.len() != COLUMN_COUNT {
            return Err("expected exactly 11 tab-separated fields");
        }
        Ok(columns)
    }

    /// The event of a split row, given what the caller read from its
    /// columns; refused when the timestamp or the frame length is invalid.
    pub fn parse_row(columns: &Vec<String>, readings: &RowReadings) -> (r: Result<NormalizedEvent, &'static str>)
        requires
            columns.len() == COLUMN_COUNT,
        ensures
            match row_problem(texts(columns@), *readings) {
                Some(m) => r matches Err(e) && e@ == m,
                None => r matches Ok(e) && e@ == row_event(texts(columns@), *readings),
            },
    {
        let ghost c = texts(columns@);
        assert(c[0] == columns@[0]@ && c[5] == columns@[5]@ && c[6] == columns@[6]@);
        let timestamp = if !columns[0].as_str().is_empty() {
            match readings.timestamp {
                Some(t) => {
                    if !t.is_finite() {
                        return Err("invalid timestamp");
                    }
                    Some(t)
                },
                None => return Err("invalid timestamp"),
            }
        } else {
            None
        };
        let magnitude = if !columns[6].as_str().is_empty() {
            match readings.frame_length {
                Some(q) => {
                    if !q.is_finite() || q.is_negative() {
                        return Err("invalid frame length");
                    }
                    q
                },
                None => return Err("invalid frame length"),
            }
        } else {
            Quantity::whole(1)
        };
        let protocol = if !columns[5].as_str().is_empty() {
            columns[5].clone()
        } else {
            String::from_str("unknown")
        };
        let source_ip = present_column(columns, 1, 2);
        let target_ip = present_column(columns, 3, 4);
        let source_port = present_column(columns, 7, 8);
        let target_port = present_column(columns, 9, 10);
        let origin = endpoint(source_ip, source_port);
        let target = endpoint(target_ip, target_port);
        let category = string_from_chars(to_ascii_lower(protocol.as_str()).as_slice());
        let mut labels = Labels::new();
        labels.insert_str("protocol", protocol);
        match readings.source_address {
            Some(IpAddress::V4(_)) => labels.insert_str("ip_version", String::from_str("4")),
            Some(IpAddress::V6(_)) => labels.insert_str("ip_version", String::from_str("6")),
            None => {},
        }
        Ok(
            NormalizedEvent {
                v: SCHEMA_VERSION,
                timestamp,
                category,
                origin,
                target,
                magnitude,
                direction: infer_direction(readings.source_address, readings.target_address),
                labels,
            },
        )
    }

    /// Counts a parsed row: accepted when it yielded an event, malformed
    /// otherwise; the outcome is passed through.
    pub fn count(&mut self, outcome: Result<NormalizedEvent, &'static str>) -> (r: Result<NormalizedEvent, &'static str>)
        requires
            outcome is Ok ==> old(self).stats().accepted < u64::MAX,
            outcome is Err ==> old(self).stats().malformed < u64::MAX,
        ensures
            r == outcome,
            outcome is Ok ==> final(self).stats() == (SourceStats {
                accepted: (old(self).stats().accepted + 1) as u64,
                ..old(self).stats()
            }),
            outcome is Err ==> final(self).stats() == (SourceStats {
                malformed: (old(self).stats().malformed + 1) as u64,
                ..old(self).stats()
            }),
    {
        match outcome {
            Ok(e) => {
                self.stats.accepted = self.stats.accepted + 1;
                Ok(e)
            },
            Err(m) => {
                self.stats.malformed = self.stats.malformed + 1;
                Err(m)
            },
        }
    }
}

} // verus!
