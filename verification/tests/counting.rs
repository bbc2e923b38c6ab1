use sampling_counter::Counter;

#[test]
fn new_counter_starts_empty() {
    let c = Counter::new("starts", 5);
    assert_eq!(c.name, "starts");
    assert_eq!(c.counts, 0);
    assert_eq!(c.times, 0);
    assert_eq!(c.lastlog, 0);
    assert_eq!(c.lograte, 5);
}

#[test]
fn five_twos_report_once_with_delta_ten() {
    let mut c = Counter::new("t", 5);
    for _ in 0..4 {
        assert!(c.inc(2, None).is_none());
    }
    let r = c.inc(2, None).expect("fifth call crosses the boundary");
    assert_eq!(r.name, "t");
    assert_eq!(r.counts, 10);
    assert_eq!(r.times, 5);
    assert_eq!(r.events, 2);
    assert_eq!(r.delta, 10);
    assert_eq!(c.lastlog, 10);
}

#[test]
fn unit_increments_report_at_rate_multiples() {
    let mut c = Counter::new("u", 3);
    let mut reported = Vec::new();
    for i in 1..=10usize {
        if let Some(r) = c.inc(1, None) {
            assert_eq!(r.times, i);
            assert_eq!(r.delta, 3);
            reported.push(i);
        }
    }
    assert_eq!(reported, vec![3, 6, 9]);
}

#[test]
fn totals_track_sum_and_call_count() {
    let mut c = Counter::new("sum", 1000);
    let mags = [1usize, 5, 0, 7, 2];
    for m in mags {
        c.inc(m, None);
    }
    assert_eq!(c.counts, 15);
    assert_eq!(c.times, 5);
}

#[test]
fn zero_magnitude_counts_the_call_only() {
    let mut c = Counter::new("z", 10);
    assert!(c.inc(0, None).is_none());
    assert_eq!(c.counts, 0);
    assert_eq!(c.times, 1);
}

#[test]
fn unresolved_rate_is_taken_from_environment_value() {
    let mut c = Counter::new("lazy", 0);
    assert!(c.inc(1, Some("2")).is_none());
    assert_eq!(c.lograte, 2);
    let r = c.inc(1, Some("2")).expect("second call crosses the boundary");
    assert_eq!(r.delta, 2);
}

#[test]
fn unresolved_rate_falls_back_to_default() {
    let mut c = Counter::new("fallback", 0);
    c.inc(1, None);
    assert_eq!(c.lograte, 100);
    let mut d = Counter::new("fallback_too", 0);
    d.inc(1, Some("junk"));
    assert_eq!(d.lograte, 100);
}

#[test]
fn resolution_happens_at_most_once() {
    let mut c = Counter::new("once", 0);
    c.inc(1, Some("3"));
    assert_eq!(c.lograte, 3);
    c.inc(1, Some("9"));
    assert_eq!(c.lograte, 3);
}

#[test]
fn interleaved_workers_report_once_near_hundred() {
    // Two workers of fifty unit increments each, taken in alternation.
    let mut c = Counter::new("pair", 100);
    let mut fired = 0usize;
    let mut delta_sum = 0usize;
    for _ in 0..50 {
        for _ in 0..2 {
            if let Some(r) = c.inc(1, None) {
                fired += 1;
                delta_sum += r.delta;
                assert_eq!(r.times, 100);
            }
        }
    }
    assert_eq!(fired, 1);
    assert_eq!(delta_sum, 100);
    assert_eq!(c.counts, 100);
    assert_eq!(c.lastlog, 100);
}
