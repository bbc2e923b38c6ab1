use vstd::prelude::*;

use crate::config::default_log_rate;
use crate::config::env_view;
use crate::config::spec_resolve_rate;

verus! {

/// A sampling counter: a named accumulator of event magnitudes (`counts`),
/// the number of calls that delivered them (`times`), the cumulative count
/// as of the last report (`lastlog`), and the sampling rate (`lograte`,
/// where zero means "resolve from the environment on first use").
pub struct Counter {
    pub name: &'static str,
    pub counts: usize,
    pub times: usize,
    pub lastlog: usize,
    pub lograte: usize,
}

/// A report produced when an increment crosses a sampling boundary: the
/// counter's name, its cumulative count and sample count after the triggering
/// increment, the magnitude of that increment, and the count accrued since
/// the previously reported baseline.
pub struct Report {
    pub name: &'static str,
    pub counts: usize,
    pub times: usize,
    pub events: usize,
    pub delta: usize,
}

/// The mathematical state of a counter.
pub struct CState {
    pub name: Seq<char>,
    pub counts: nat,
    pub times: nat,
    pub lastlog: nat,
    pub lograte: nat,
}

/// The mathematical content of a report.
pub struct RState {
    pub name: Seq<char>,
    pub counts: nat,
    pub times: nat,
    pub events: nat,
    pub delta: nat,
}

impl CState {
    /// Reports only consume count that has already been added.
    pub open spec fn wf(self) -> bool {
        self.lastlog <= self.counts
    }
}

impl View for Counter {
    type V = CState;

    open spec fn view(&self) -> CState {
        CState {
            name: self.name@,
            counts: self.counts as nat,
            times: self.times as nat,
            lastlog: self.lastlog as nat,
            lograte: self.lograte as nat,
        }
    }
}

impl View for Report {
    type V = RState;

    open spec fn view(&self) -> RState {
        RState {
            name: self.name@,
            counts: self.counts as nat,
            times: self.times as nat,
            events: self.events as nat,
            delta: self.delta as nat,
        }
    }
}

/// The view of an optional report.
pub open spec fn report_opt_view(r: Option<Report>) -> Option<RState> {
    match r {
        Option::None => Option::None,
        Option::Some(rep) => Option::Some(rep@),
    }
}

/// The sampling rate in force during an increment: an already positive
/// `lograte` stands; zero is resolved from the environment.
pub open spec fn spec_rate_after(c: CState, env: Option<Seq<char>>) -> nat {
    if c.lograte == 0 {
        spec_resolve_rate(env)
    } else {
        c.lograte
    }
}

/// Whether an increment of a counter in state `c` is the reporter for its
/// sampling window: its post-increment sample count is a positive multiple
/// of the rate in force.
pub open spec fn spec_reports(c: CState, env: Option<Seq<char>>) -> bool {
    c.times + 1 > 0 && (c.times + 1) % spec_rate_after(c, env) == 0
}

/// One increment of magnitude `events` on a counter in state `c`: the state
/// afterwards, and the report it emits, if any.
pub open spec fn spec_inc(c: CState, events: nat, env: Option<Seq<char>>) -> (CState, Option<
    RState,
>) {
    let rate = spec_rate_after(c, env);
    let counts2 = c.counts + events;
    let samples = c.times + 1;
    if spec_reports(c, env) {
        (
            CState {
                name: c.name,
                counts: counts2,
                times: samples,
                lastlog: counts2,
                lograte: rate,
            },
            Option::Some(
                RState {
                    name: c.name,
                    counts: counts2,
                    times: samples,
                    events,
                    delta: (counts2 - c.lastlog) as nat,
                },
            ),
        )
    } else {
        (
            CState {
                name: c.name,
                counts: counts2,
                times: samples,
                lastlog: c.lastlog,
                lograte: rate,
            },
            Option::None,
        )
    }
}

impl Counter {
    /// A fresh counter: nothing counted, nothing reported, with the given
    /// name and initial sampling rate (zero defers to the environment).
    pub fn new(name: &'static str, lograte: usize) -> (c: Counter)
        ensures
            c@ == (CState {
                name: name@,
                counts: 0,
                times: 0,
                lastlog: 0,
                lograte: lograte as nat,
            }),
    {
        Counter { name, counts: 0, times: 0, lastlog: 0, lograte }
    }

    /// Record `events` events delivered by one call: add them to the
    /// cumulative count, count the call, resolve the sampling rate from
    /// `env_value` if it is still unresolved, and — exactly when the
    /// post-increment sample count is a positive multiple of the rate in
    /// force — produce the report for this sampling window and advance the
    /// reported baseline to the new cumulative count.
    pub fn inc(&mut self, events: usize, env_value: Option<&str>) -> (r: Option<Report>)
        requires
            old(self)@.wf(),
            old(self).counts + events <= usize::MAX,
            old(self).times + 1 <= usize::MAX,
        ensures
            final(self)@ == spec_inc(old(self)@, events as nat, env_view(env_value)).0,
            report_opt_view(r) == spec_inc(old(self)@, events as nat, env_view(env_value)).1,
            r.is_some() <==> spec_reports(old(self)@, env_view(env_value)),
            final(self)@.wf(),
    {
        let counts = self.counts;
        self.counts = counts + events;
        let times = self.times + 1;
        self.times = times;
        let mut lograte = self.lograte;
        if lograte == 0 {
            lograte = default_log_rate(env_value);
            self.lograte = lograte;
        }
        if times > 0 && times % lograte == 0 {
            let lastlog = self.lastlog;
            let current = self.counts;
            let delta = current - lastlog;
            self.lastlog = current;
            Some(Report { name: self.name, counts: current, times, events, delta })
        } else {
            None
        }
    }
}

} // verus!
