use vstd::prelude::*;
use vstd::string::StringExecFns;

use crate::counter::Report;
use crate::digits::dec_seq;
use crate::digits::u64_to_string;
use crate::digits::usize_to_string;

verus! {

/// The structured log line of a report: one JSON-like line holding the
/// counter's name, cumulative count, sample count, a timestamp, and the
/// magnitude of the triggering event.
pub open spec fn spec_log_line(
    name: Seq<char>,
    counts: nat,
    times: nat,
    now: nat,
    events: nat,
) -> Seq<char> {
    "COUNTER:{\"name\": \""@ + name + "\", \"counts\": "@ + dec_seq(counts) + ", \"samples\": "@
        + dec_seq(times) + ",  \"now\": "@ + dec_seq(now) + ", \"events\": "@ + dec_seq(events)
        + "}"@
}

/// Build the log line from its parts.
fn format_log_line(name: &str, counts: usize, times: usize, now: u64, events: usize) -> (s: String)
    ensures
        s@ == spec_log_line(name@, counts as nat, times as nat, now as nat, events as nat),
{
    let mut s = String::from_str("COUNTER:{\"name\": \"");
    s.append(name);
    s.append("\", \"counts\": ");
    s.append(usize_to_string(counts).as_str());
    s.append(", \"samples\": ");
    s.append(usize_to_string(times).as_str());
    s.append(",  \"now\": ");
    s.append(u64_to_string(now).as_str());
    s.append(", \"events\": ");
    s.append(usize_to_string(events).as_str());
    s.append("}");
    s
}

#[verifier::external_type_specification]
#[verifier::external_body]
pub struct ExPoint<'a>(influx_db_client::Point<'a>);

/// What an influx data point carries that this library puts there: its
/// measurement name.
pub uninterp spec fn point_measurement(p: influx_db_client::Point<'static>) -> Seq<char>;

/// What an influx data point carries that this library puts there: its
/// integer fields, by field name.
pub uninterp spec fn point_integer_fields(p: influx_db_client::Point<'static>) -> Map<
    Seq<char>,
    int,
>;

/// A point's field map with nothing in it.
pub open spec fn no_integer_fields() -> Map<Seq<char>, int> {
    Map::empty()
}

/// Relies on influx_db_client::Point::new: a point with the given
/// measurement name and no fields.
#[verifier::external_body]
fn point_new(measurement: &str) -> (p: influx_db_client::Point<'static>)
    ensures
        point_measurement(p) == measurement@,
        point_integer_fields(p) == no_integer_fields(),
{
    influx_db_client::Point::new(measurement)
}

/// Relies on influx_db_client::Point::add_field with Value::Integer: the
/// field is inserted under its name; the measurement is unchanged.
#[verifier::external_body]
fn point_add_integer_field(
    p: influx_db_client::Point<'static>,
    field: &str,
    value: i64,
) -> (q: influx_db_client::Point<'static>)
    ensures
        point_measurement(q) == point_measurement(p),
        point_integer_fields(q) == point_integer_fields(p).insert(field@, value as int),
{
    p.add_field(field, influx_db_client::Value::Integer(value))
}

/// Relies on std::time::SystemTime::now and SystemTime::duration_since:
/// the system clock as whole seconds since the Unix epoch and the
/// nanosecond remainder, which std documents to be under one billion. The
/// value depends on the moment of the call, so nothing relates one call to
/// the next; a clock before the epoch reads as zero of both.
#[verifier::external_body]
fn clock_since_epoch() -> (t: (u64, u32))
    ensures
        t.1 < 1_000_000_000,
{
    match std::time::SystemTime::now().duration_since(std::time::UNIX_EPOCH) {
        Ok(d) => (d.as_secs(), d.subsec_nanos()),
        Err(_) => (0, 0),
    }
}

/// The system clock as milliseconds since the Unix epoch: the timestamp a
/// report's log line carries. A clock before the epoch reads as zero, and
/// one beyond the representable range saturates; the call never fails.
fn now_millis() -> u64 {
    let (secs, nanos) = clock_since_epoch();
    match secs.checked_mul(1000) {
        Some(ms) => ms.saturating_add((nanos / 1_000_000) as u64),
        None => u64::MAX,
    }
}

/// The metric data point for a counter: measurement `counter-<name>` with
/// one integer field `count` holding the reported delta.
pub fn counter_point(name: &str, delta: i64) -> (p: influx_db_client::Point<'static>)
    ensures
        point_measurement(p) == "counter-"@ + name@,
        point_integer_fields(p) == no_integer_fields().insert("count"@, delta as int),
{
    let mut m = String::from_str("counter-");
    m.append(name);
    let p = point_new(m.as_str());
    point_add_integer_field(p, "count", delta)
}

impl Report {
    /// The structured log line for this report, timestamped `now`.
    pub fn log_line(&self, now: u64) -> (s: String)
        ensures
            s@ == spec_log_line(self@.name, self@.counts, self@.times, now as nat, self@.events),
    {
        format_log_line(self.name, self.counts, self.times, now, self.events)
    }

    /// The structured log line for this report, timestamped with the system
    /// clock at the moment of the call.
    pub fn log_line_now(&self) -> (s: String)
        ensures
            exists|now: u64|
                s@ == spec_log_line(
                    self@.name,
                    self@.counts,
                    self@.times,
                    now as nat,
                    self@.events,
                ),
    {
        let now = now_millis();
        self.log_line(now)
    }

    /// The metric data point for this report. The delta is handed to the
    /// sink as a signed 64-bit integer, so it must fit in one.
    pub fn metric_point(&self) -> (p: influx_db_client::Point<'static>)
        requires
            self.delta <= i64::MAX,
        ensures
            point_measurement(p) == "counter-"@ + self@.name,
            point_integer_fields(p) == no_integer_fields().insert(
                "count"@,
                self@.delta as int,
            ),
    {
        counter_point(self.name, self.delta as i64)
    }
}

} // verus!
