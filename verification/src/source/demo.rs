//! A deterministic synthetic activity stream.
use vstd::prelude::*;

use crate::event::{Direction, Labels, NormalizedEvent, Quantity, SCHEMA_VERSION};
use crate::text::{decimal, u64_text, zero_padded, zero_padded_text};

verus! {

pub const SPLITMIX_GAMMA: u64 = 0x9e37_79b9_7f4a_7c15;

pub const SPLITMIX_MUL1: u64 = 0xbf58_476d_1ce4_e5b9;

pub const SPLITMIX_MUL2: u64 = 0x94d0_49bb_1331_11eb;

/// The SplitMix64 state after `steps` draws from `state`.
pub open spec fn splitmix_state(state: u64, steps: nat) -> u64
    decreases steps,
{
    if steps == 0 {
        state
    } else {
        vstd::wrapping::u64_specs::wrapping_add(splitmix_state(state, (steps - 1) as nat), SPLITMIX_GAMMA)
    }
}

/// The SplitMix64 output for an advanced state.
pub open spec fn splitmix_mix(z: u64) -> u64 {
    let a = vstd::wrapping::u64_specs::wrapping_mul(z ^ (z >> 30u64), SPLITMIX_MUL1);
    let b = vstd::wrapping::u64_specs::wrapping_mul(a ^ (a >> 27u64), SPLITMIX_MUL2);
    b ^ (b >> 31u64)
}

/// The `k`-th draw (counting from one) from state `state`.
pub open spec fn splitmix_draw(state: u64, k: nat) -> u64 {
    splitmix_mix(splitmix_state(state, k))
}

struct SplitMix64 {
    state: u64,
}

impl SplitMix64 {
    fn next(&mut self) -> (r: u64)
        ensures
            final(self).state == splitmix_state(old(self).state, 1),
            r == splitmix_mix(final(self).state),
    {
        proof {
            reveal_with_fuel(splitmix_state, 2);
        }
        self.state = self.state.wrapping_add(SPLITMIX_GAMMA);
        let mut value = self.state;
        value = (value ^ (value >> 30)).wrapping_mul(SPLITMIX_MUL1);
        value = (value ^ (value >> 27)).wrapping_mul(SPLITMIX_MUL2);
        value ^ (value >> 31)
    }
}

/// Deterministic generator of demo events for a seed.
pub struct DemoSource {
    rng: SplitMix64,
    index: u64,
    seed: u64,
}


/// The category name at a position of the demo category table.
pub open spec fn demo_category(i: int) -> Seq<char> {
    if i == 0 { "tcp"@ }
    else if i == 1 { "udp"@ }
    else if i == 2 { "dns"@ }
    else if i == 3 { "tls"@ }
    else if i == 4 { "pulse"@ }
    else { "ghost"@ }
}

/// The direction chosen for a lane selector.
pub open spec fn demo_direction(selector: int) -> Direction {
    if selector == 0 {
        Direction::Inbound
    } else if selector == 1 {
        Direction::Outbound
    } else if selector == 2 {
        Direction::Neutral
    } else {
        Direction::Unknown
    }
}

/// Phase of the demo cycle at an event index.
pub open spec fn demo_phase(index: int) -> int {
    (index / 48) % 5
}

/// The magnitude of the demo event at `index` for a noise draw.
pub open spec fn demo_magnitude(index: int, noise: int) -> int {
    let phase = demo_phase(index);
    let burst = (phase == 1 || phase == 4) && index % 48 < 18;
    let heavy = index % 137 == 89;
    if heavy {
        8_192 + noise
    } else if burst {
        600 + noise * 8
    } else {
        noise
    }
}

/// `node-NN`, the zero-padded node name.
pub open spec fn node_name(n: nat) -> Seq<char> {
    "node-"@ + zero_padded(n, 2)
}

/// The demo event at `index`, given the three draws made for it.
pub open spec fn demo_event_matches(
    e: NormalizedEvent,
    seed: u64,
    index: u64,
    d1: u64,
    d2: u64,
    d3: u64,
) -> bool {
    let phase = demo_phase(index as int);
    let category_index = ((d1 >> 17u64) as int + phase) % 6;
    let pair = (index as int / 13 + d2 as int % 3) % 11;
    let noise = 12 + d3 as int % 96;
    &&& e.v == SCHEMA_VERSION
    &&& e.timestamp == Some(Quantity::Ratio { numerator: (index * 45) as u64, denominator: 1000 })
    &&& e.category@ == demo_category(category_index)
    &&& e.origin.is_some() && e.origin.unwrap()@ == node_name(pair as nat)
    &&& e.target.is_some() && e.target.unwrap()@ == node_name(((pair * 7 + phase) % 13) as nat)
    &&& e.magnitude == Quantity::Ratio {
        numerator: demo_magnitude(index as int, noise) as u64,
        denominator: 1,
    }
    &&& e.direction == demo_direction((index as int / 9 + pair) % 4)
    &&& e.labels@ == map!["synthetic"@ => "true"@, "seed"@ => decimal(seed as nat)]
}

fn demo_category_name(i: u64) -> (s: &'static str)
    requires
        i < 6,
    ensures
        s@ == demo_category(i as int),
{
    if i == 0 { "tcp" }
    else if i == 1 { "udp" }
    else if i == 2 { "dns" }
    else if i == 3 { "tls" }
    else if i == 4 { "pulse" }
    else { "ghost" }
}

impl DemoSource {
    /// The generator state.
    pub closed spec fn rng_state(&self) -> u64 {
        self.rng.state
    }

    /// How many events were produced so far.
    pub closed spec fn produced(&self) -> u64 {
        self.index
    }

    /// The seed the source was created with.
    pub closed spec fn seed_value(&self) -> u64 {
        self.seed
    }

    /// A fresh source for `seed`.
    pub fn new(seed: u64) -> (s: DemoSource)
        ensures
            s.rng_state() == seed,
            s.produced() == 0,
            s.seed_value() == seed,
    {
        DemoSource { rng: SplitMix64 { state: seed }, index: 0, seed }
    }

    /// The next demo event; every call draws three values from the generator.
    pub fn next_event(&mut self) -> (e: NormalizedEvent)
        requires
            old(self).produced() < u64::MAX / 45,
        ensures
            final(self).produced() == old(self).produced() + 1,
            final(self).seed_value() == old(self).seed_value(),
            final(self).rng_state() == splitmix_state(old(self).rng_state(), 3),
            demo_event_matches(
                e,
                old(self).seed_value(),
                old(self).produced(),
                splitmix_draw(old(self).rng_state(), 1),
                splitmix_draw(old(self).rng_state(), 2),
                splitmix_draw(old(self).rng_state(), 3),
            ),
    {
        let ghost s0 = self.rng.state;
        let index = self.index;
        self.index = self.index + 1;
        let d1 = self.rng.next();
        let d2 = self.rng.next();
        let d3 = self.rng.next();
        proof {
            reveal_with_fuel(splitmix_state, 4);
        }
        demo_event(self.seed, index, d1, d2, d3)
    }
}

fn node_text(n: u64) -> (s: String)
    ensures
        s@ == node_name(n as nat),
{
    let mut s = String::from_str("node-");
    s.append(zero_padded_text(n, 2).as_str());
    s
}

/// The demo event at `index` for the three draws made for it.
fn demo_event(seed: u64, index: u64, d1: u64, d2: u64, d3: u64) -> (e: NormalizedEvent)
    requires
        index < u64::MAX / 45,
    ensures
        demo_event_matches(e, seed, index, d1, d2, d3),
{
    let phase = (index / 48) % 5;
    let burst = (phase == 1 || phase == 4) && index % 48 < 18;
    let heavy = index % 137 == 89;
    let high = d1 >> 17;
    assert(d1 >> 17u64 <= 0x7fff_ffff_ffff) by (bit_vector);
    let category_index = (high + phase) % 6;
    let pair = ((index / 13) + (d2 % 3)) % 11;
    let direction = match (index / 9 + pair) % 4 {
        0 => Direction::Inbound,
        1 => Direction::Outbound,
        2 => Direction::Neutral,
        _ => Direction::Unknown,
    };
    let noise = 12 + (d3 % 96);
    let magnitude = if heavy {
        8_192 + noise
    } else if burst {
        600 + noise * 8
    } else {
        noise
    };
    let mut labels = Labels::new();
    labels.insert_str("synthetic", String::from_str("true"));
    labels.insert_str("seed", u64_text(seed));
    proof {
        assert(labels@ =~= map!["synthetic"@ => "true"@, "seed"@ => decimal(seed as nat)]);
    }
    NormalizedEvent {
        v: SCHEMA_VERSION,
        timestamp: Some(Quantity::Ratio { numerator: index * 45, denominator: 1000 }),
        category: String::from_str(demo_category_name(category_index)),
        origin: Some(node_text(pair)),
        target: Some(node_text((pair * 7 + phase) % 13)),
        magnitude: Quantity::Ratio { numerator: magnitude, denominator: 1 },
        direction,
        labels,
    }
}

} // verus!
