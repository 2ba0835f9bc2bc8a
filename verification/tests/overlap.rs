use aiconfigurator_core::base::{PerformanceResult, Source};
use aiconfigurator_core::overlap::{overlap_composition, OverlapComposition};

const SIGN_BIT: u64 = 1 << 63;

/// Ordering key of a latency in milliseconds, as `PerformanceResult` documents it.
fn key(latency_ms: f64) -> u64 {
    if latency_ms.is_nan() {
        return 0;
    }
    let bits = latency_ms.to_bits();
    if bits & SIGN_BIT == 0 {
        bits | SIGN_BIT
    } else {
        !bits
    }
}

/// The latency a key stands for.
fn value(key: u64) -> f64 {
    if key & SIGN_BIT != 0 {
        f64::from_bits(key & !SIGN_BIT)
    } else {
        f64::from_bits(!key)
    }
}

fn result(latency_ms: f64, source: Source) -> PerformanceResult {
    PerformanceResult { latency_key: key(latency_ms), source }
}

fn silicon(latency_ms: f64) -> PerformanceResult {
    result(latency_ms, Source::Silicon)
}

/// Total latency: the groups' latencies summed in group order.
fn total_ms(c: &OverlapComposition) -> f64 {
    let mut total = 0.0_f64;
    for g in &c.groups {
        total += value(g.latency_key);
    }
    total
}

#[test]
fn max_within_group_then_sum_across_groups() {
    let entries = vec![
        (silicon(10.0), 0),
        (silicon(8.0), 0), // grouped with above -> max = 10.0
        (silicon(5.0), 1), // own group
    ];
    let result = overlap_composition(&entries);
    assert_eq!(total_ms(&result), 15.0); // 10 + 5
    assert_eq!(result.source, Source::Silicon);
}

#[test]
fn mixed_sources_yield_mixed_tag() {
    let entries = vec![(silicon(5.0), 0), (result(3.0, Source::Empirical), 1)];
    let result = overlap_composition(&entries);
    assert_eq!(result.source, Source::Mixed);
}

#[test]
fn empty_list_is_zero() {
    let result = overlap_composition(&[]);
    assert_eq!(total_ms(&result), 0.0);
}

#[test]
fn empty_list_is_silicon_with_no_groups() {
    let result = overlap_composition(&[]);
    assert!(result.groups.is_empty());
    assert_eq!(result.source, Source::Silicon);
}

#[test]
fn groups_come_out_in_increasing_order_with_their_max() {
    let entries = vec![
        (silicon(2.0), 7),
        (silicon(4.0), 3),
        (silicon(9.0), 7),
        (silicon(1.0), 3),
        (silicon(6.0), 5),
    ];
    let result = overlap_composition(&entries);
    let ids: Vec<u32> = result.groups.iter().map(|g| g.group_id).collect();
    assert_eq!(ids, vec![3, 5, 7]);
    let lat: Vec<f64> = result.groups.iter().map(|g| value(g.latency_key)).collect();
    assert_eq!(lat, vec![4.0, 6.0, 9.0]);
    assert_eq!(total_ms(&result), 19.0);
}

#[test]
fn negative_latencies_keep_their_max() {
    let entries = vec![(silicon(-3.0), 0), (silicon(-5.0), 0)];
    let result = overlap_composition(&entries);
    assert_eq!(result.groups.len(), 1);
    assert_eq!(total_ms(&result), -3.0);
}

#[test]
fn keys_order_as_latencies_do() {
    let values = [f64::NEG_INFINITY, -7.5, -1.0, -0.0, 0.0, 1e-300, 2.0, 3.5, f64::INFINITY];
    for w in values.windows(2) {
        assert!(key(w[0]) < key(w[1]));
    }
    for v in values {
        assert_eq!(value(key(v)).to_bits(), v.to_bits());
    }
    assert!(key(f64::NAN) < key(f64::NEG_INFINITY));
}

#[test]
fn not_a_number_never_wins_a_group_and_alone_costs_zero() {
    let entries = vec![(silicon(f64::NAN), 4), (silicon(-2.0), 4), (silicon(f64::NAN), 6)];
    let result = overlap_composition(&entries);
    let lat: Vec<f64> = result.groups.iter().map(|g| value(g.latency_key)).collect();
    assert_eq!(lat[0], -2.0);
    assert_eq!(lat[1], 0.0);
    assert_eq!(total_ms(&result), -2.0);
}

#[test]
fn zero_latencies_sum_to_zero() {
    let entries = vec![(silicon(0.0), 2), (silicon(-0.0), 2), (silicon(0.0), 5)];
    let result = overlap_composition(&entries);
    assert_eq!(result.groups.len(), 2);
    assert_eq!(total_ms(&result), 0.0);
}

#[test]
fn reordering_and_repeating_entries_does_not_change_composition() {
    let a = vec![(silicon(3.0), 1), (result(7.0, Source::Sol), 0), (silicon(5.0), 1)];
    let b = vec![
        (silicon(5.0), 1),
        (silicon(3.0), 1),
        (result(7.0, Source::Sol), 0),
        (silicon(5.0), 1),
    ];
    let ra = overlap_composition(&a);
    let rb = overlap_composition(&b);
    assert_eq!(ra.groups, rb.groups);
    assert_eq!(ra.source, rb.source);
    assert_eq!(ra.source, Source::Mixed);
}

#[test]
fn agreeing_non_silicon_sources_keep_their_tag() {
    let entries = vec![(result(1.0, Source::Sol), 0), (result(2.0, Source::Sol), 1)];
    assert_eq!(overlap_composition(&entries).source, Source::Sol);
}

#[test]
fn combine_keeps_agreeing_tags_and_mixes_others() {
    assert_eq!(Source::Empirical.combine(Source::Empirical), Source::Empirical);
    assert_eq!(Source::Empirical.combine(Source::Silicon), Source::Mixed);
    assert_eq!(Source::Silicon.combine(Source::Empirical), Source::Empirical.combine(Source::Silicon));
    assert_eq!(Source::Mixed.combine(Source::Sol), Source::Mixed);
    assert_eq!(
        Source::Sol.combine(Source::Silicon).combine(Source::Silicon),
        Source::Sol.combine(Source::Silicon.combine(Source::Silicon))
    );
}

#[test]
fn raising_latencies_never_lowers_a_group() {
    let low = vec![(silicon(1.0), 0), (silicon(-4.0), 1), (silicon(2.0), 0)];
    let high = vec![(silicon(1.5), 0), (silicon(-1.0), 1), (silicon(2.0), 0)];
    let a = overlap_composition(&low);
    let b = overlap_composition(&high);
    assert_eq!(a.groups.len(), b.groups.len());
    for (x, y) in a.groups.iter().zip(b.groups.iter()) {
        assert_eq!(x.group_id, y.group_id);
        assert!(x.latency_key <= y.latency_key);
    }
    assert!(total_ms(&a) <= total_ms(&b));
}
