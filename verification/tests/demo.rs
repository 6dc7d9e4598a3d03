use synesthesia::event::{NormalizedEvent, Quantity};
use synesthesia::source::demo::DemoSource;

fn value(q: Quantity) -> f64 {
    match q {
        Quantity::Ratio { numerator, denominator } => numerator as f64 / denominator as f64,
        Quantity::Double { bits } => f64::from_bits(bits),
    }
}

fn same(a: &NormalizedEvent, b: &NormalizedEvent) -> bool {
    a.v == b.v
        && a.timestamp == b.timestamp
        && a.category == b.category
        && a.origin == b.origin
        && a.target == b.target
        && a.magnitude == b.magnitude
        && a.direction == b.direction
        && a.labels.entries == b.labels.entries
}

fn take(seed: u64, count: usize) -> Vec<NormalizedEvent> {
    let mut source = DemoSource::new(seed);
    (0..count).map(|_| source.next_event()).collect()
}

#[test]
fn fixed_seed_is_deterministic_but_other_seeds_diverge() {
    let first = take(42, 80);
    let second = take(42, 80);
    let other = take(43, 80);
    assert!(first.iter().zip(second.iter()).all(|(a, b)| same(a, b)));
    assert!(!first.iter().zip(other.iter()).all(|(a, b)| same(a, b)));
    assert!(first.iter().any(|event| value(event.magnitude) > 1_000.0));
    assert!(first.windows(2).any(|pair| pair[0].direction != pair[1].direction));
}
