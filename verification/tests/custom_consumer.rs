use rgscan::scanner::consumer::{GridPoint, ScanConsumer};
use rgscan::scanner::multi_threaded_scanner::MultiThreadedScanner;
use rgscan::scanner::scanner::{Recorded, Scanner};
use rgscan::simulation::{IntegrationParameters, IntegrationResult};
use rgscan::util::scalar::Scalar;

/// Counts the samples it is handed, up to a limit.
#[derive(Clone)]
struct Tally {
    seen: u32,
    limit: u32,
}

impl ScanConsumer<1> for Tally {
    type State = u32;
    type Setup = u32;

    fn state(&self) -> u32 {
        self.seen
    }

    fn setup(&self) -> u32 {
        self.limit
    }

    fn accepts(setup: u32, state: u32, _point: GridPoint<1>, _result: IntegrationResult) -> bool {
        state < setup
    }

    fn consumed(_setup: u32, state: u32, _point: GridPoint<1>, _result: IntegrationResult) -> u32 {
        state + 1
    }

    fn takes(_a: u32, _b: u32) -> bool {
        true
    }

    fn combined(a: u32, b: u32) -> u32 {
        a + b
    }

    fn fresh() -> u32 {
        0
    }

    fn valid(_state: u32) -> bool {
        true
    }

    fn fresh_is_valid() {}

    fn validity_is_kept(_: u32, _: u32, _: u32, _: GridPoint<1>, _: IntegrationResult) {}

    fn merge_laws(_: u32, _: u32, _: u32) {}

    fn consume_commutes_with_merge(_: u32, _: u32, _: u32, _: GridPoint<1>, _: IntegrationResult) {}

    fn can_consume(&self, _point: GridPoint<1>, _result: IntegrationResult) -> bool {
        self.seen < self.limit
    }

    fn consume(&mut self, _point: GridPoint<1>, _result: IntegrationResult) {
        self.seen += 1;
    }

    fn can_merge(&self, other: &Self) -> bool {
        self.seen + other.seen <= self.limit
    }

    fn duplicate(&self) -> Self {
        self.clone()
    }

    fn merge(&mut self, other: Self) {
        self.seen += other.seen;
    }
}

fn zero() -> Scalar {
    Scalar::from_bits(0)
}

#[test]
fn scanner_asks_a_consumer_before_it_hands_over() {
    let params = IntegrationParameters { initial_scale: zero(), final_scale: zero(), num_steps: 1 };
    let mut scanner: Scanner<1> = Scanner::new([(zero(), zero())], params);
    let mut tally = Tally { seen: 0, limit: 2 };
    scanner.begin(5);
    let point = GridPoint { x: [0], y: [0] };
    assert_eq!(scanner.record(&mut tally, point, IntegrationResult::Unbroken), Recorded::Counted(None));
    assert_eq!(scanner.record(&mut tally, point, IntegrationResult::Unbroken), Recorded::Counted(None));
    assert_eq!(scanner.record(&mut tally, point, IntegrationResult::Unbroken), Recorded::Refused);
    assert_eq!(tally.seen, 2);
    assert_eq!(scanner.taken(), 2);
}

#[test]
fn reduction_asks_a_consumer_before_it_merges() {
    let params = IntegrationParameters { initial_scale: zero(), final_scale: zero(), num_steps: 1 };
    let mut reducer =
        MultiThreadedScanner::new([(zero(), zero())], params, Tally { seen: 1, limit: 10 });
    let part = |seen: u32| Tally { seen, limit: 10 };
    assert!(reducer.absorb(part(2)));
    assert!(reducer.absorb(part(3)));
    assert_eq!(reducer.consumer.seen, 6);
    assert!(!reducer.absorb(part(5)));
    assert_eq!(reducer.consumer.seen, 6);
    assert!(reducer.absorb(part(4)));
    assert_eq!(reducer.consumer.seen, 10);
}
