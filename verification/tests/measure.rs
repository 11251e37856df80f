use catalog_bench::measure::{largest, percentile, percentile_at, sorted, throughput, Rate};
use std::time::Duration;

fn nanos(samples: &[Duration]) -> Vec<u128> {
    samples.iter().map(|d| d.as_nanos()).collect()
}

fn millis(nanos: u128) -> f64 {
    nanos as f64 / 1e6
}

fn per_second(r: Rate) -> f64 {
    r.count as f64 / (r.nanos as f64 / 1e9)
}

#[test]
fn percentile_basic() {
    let s: Vec<Duration> = (1..=100).map(|n| Duration::from_millis(n)).collect();
    let s = nanos(&s);
    assert!((millis(percentile(&s, 50)) - 50.0).abs() < 1.5);
    assert!((millis(percentile(&s, 95)) - 95.0).abs() < 1.5);
    assert_eq!(millis(percentile(&[], 50)), 0.0);
}

#[test]
fn throughput_basic() {
    assert_eq!(per_second(throughput(100, Duration::from_secs(10).as_nanos())), 10.0);
    assert_eq!(per_second(throughput(5, Duration::ZERO.as_nanos())), 0.0);
}

#[test]
fn percentile_takes_the_nearest_rank() {
    let s: Vec<u128> = (1..=100).collect();
    assert_eq!(percentile(&s, 50), 50);
    assert_eq!(percentile(&s, 95), 95);
    assert_eq!(percentile(&s, 99), 99);
    assert_eq!(percentile(&s, 0), 1);
    assert_eq!(percentile(&s, 100), 100);
    assert_eq!(percentile(&s, 250), 100);
    assert_eq!(percentile(&[7], 95), 7);
    assert_eq!(percentile(&[1_000, 2_000], 50), 1_000);
    assert_eq!(percentile(&[7, 9], 51), 9);
    assert_eq!(percentile(&[7, 9], 0), 7);
    assert_eq!(percentile(&[7, 8, 9], 1), 7);
    assert_eq!(percentile(&[7, 8, 9], 34), 8);
}

#[test]
fn percentages_can_be_fractions() {
    let s: Vec<u128> = (1..=2000).collect();
    assert_eq!(percentile_at(&s, 999, 10), 1998);
    assert_eq!(percentile_at(&s, 1, 1000), 1);
    assert_eq!(percentile_at(&s, 0, 7), 1);
    assert_eq!(percentile_at(&s, u64::MAX, 1), 2000);
    assert_eq!(percentile_at(&s, 1, u64::MAX), 1);
    assert_eq!(percentile_at(&s, 95, 2), 950);
    assert_eq!(percentile_at(&[], 1, 2), 0);
    for p in 0..=101 {
        assert_eq!(percentile_at(&s, p, 1), percentile(&s, p));
    }
}

#[test]
fn the_nearest_rank_covers_the_percentage() {
    for n in 1u128..=300 {
        let s: Vec<u128> = (0..n).collect();
        for p in 1u64..=100 {
            let rank = percentile(&s, p);
            assert!(100 * (rank + 1) >= p as u128 * n, "n={} p={}", n, p);
            assert!(100 * rank < p as u128 * n, "n={} p={}", n, p);
        }
    }
}

#[test]
fn percentile_does_not_depend_on_the_order() {
    let a = [5u128, 1, 4, 1, 3];
    let b = [1u128, 1, 3, 4, 5];
    for p in 0..=100 {
        assert_eq!(percentile(&a, p), percentile(&b, p));
        assert!(a.contains(&percentile(&a, p)));
        assert!(percentile(&a, p) <= percentile(&a, p + 1));
    }
}

#[test]
fn sorting_keeps_every_sample() {
    let mut x: u128 = 12345;
    let mut s: Vec<u128> = Vec::new();
    for _ in 0..500 {
        x = (x * 6364136223846793005 + 1442695040888963407) % (1 << 40);
        s.push(x % 97);
    }
    let mut want = s.clone();
    want.sort();
    assert_eq!(sorted(&s), want);
    assert_eq!(sorted(&[]), Vec::<u128>::new());
}

#[test]
fn largest_of_samples() {
    assert_eq!(largest(&[3, 9, 4]), 9);
    assert_eq!(largest(&[]), 0);
    let s = [3u128, 9, 4];
    assert_eq!(largest(&s), percentile(&s, 100));
}

#[test]
fn throughput_keeps_count_and_time() {
    assert_eq!(throughput(7, 3), Rate { count: 7, nanos: 3 });
    assert_eq!(throughput(7, 0), Rate { count: 0, nanos: 1 });
}
