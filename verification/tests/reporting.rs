use influx_db_client::Value;
use sampling_counter::digits::u64_to_string;
use sampling_counter::digits::usize_to_string;
use sampling_counter::report::counter_point;
use sampling_counter::Report;

#[test]
fn log_line_lays_out_all_fields() {
    let r = Report { name: "test", counts: 10, times: 5, events: 2, delta: 10 };
    let line = r.log_line(123);
    assert_eq!(
        line,
        "COUNTER:{\"name\": \"test\", \"counts\": 10, \"samples\": 5,  \"now\": 123, \"events\": 2}"
    );
}

#[test]
fn log_line_now_is_timestamped() {
    let r = Report { name: "n", counts: 1, times: 1, events: 1, delta: 1 };
    let line = r.log_line_now();
    assert!(line.starts_with("COUNTER:{\"name\": \"n\", \"counts\": 1, \"samples\": 1,  \"now\": "));
    assert!(line.ends_with(", \"events\": 1}"));
}

#[test]
fn metric_point_names_counter_and_carries_delta() {
    let r = Report { name: "t", counts: 10, times: 5, events: 2, delta: 10 };
    let p = r.metric_point();
    assert_eq!(p.measurement, "counter-t");
    assert_eq!(p.fields.get("count"), Some(&Value::Integer(10)));
    assert!(p.tags.is_empty());
}

#[test]
fn counter_point_converts_any_delta() {
    let p = counter_point("x", -3);
    assert_eq!(p.measurement, "counter-x");
    assert_eq!(p.fields.get("count"), Some(&Value::Integer(-3)));
}

#[test]
fn decimal_strings_match_display() {
    assert_eq!(usize_to_string(0), "0");
    assert_eq!(usize_to_string(105), "105");
    assert_eq!(usize_to_string(usize::MAX), format!("{}", usize::MAX));
    assert_eq!(u64_to_string(9), "9");
    assert_eq!(u64_to_string(18446744073709551615), "18446744073709551615");
}
