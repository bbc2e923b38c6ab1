use vstd::prelude::*;

use crate::digits::parse_usize;
use crate::digits::spec_parse_usize;

verus! {

/// Fallback sampling rate used when no valid override is configured.
pub const DEFAULT_METRICS_RATE: usize = 100;

/// The view of an optional environment value.
pub open spec fn env_view(e: Option<&str>) -> Option<Seq<char>> {
    match e {
        Option::None => Option::None,
        Option::Some(s) => Option::Some(s@),
    }
}

/// What an environment value resolves to: a parsed positive integer is taken
/// as it is; an absent, unparsable, or zero value falls back to the built-in
/// default. Always positive.
pub open spec fn spec_resolve_rate(env: Option<Seq<char>>) -> nat {
    match env {
        Option::None => DEFAULT_METRICS_RATE as nat,
        Option::Some(s) => match spec_parse_usize(s) {
            Option::None => DEFAULT_METRICS_RATE as nat,
            Option::Some(v) => if v == 0 {
                DEFAULT_METRICS_RATE as nat
            } else {
                v
            },
        },
    }
}

/// The sampling rate actually used once a configured value has been
/// inspected: zero falls back to the built-in default.
pub fn effective_rate(configured: usize) -> (r: usize)
    ensures
        r == (if configured == 0 {
            DEFAULT_METRICS_RATE as int
        } else {
            configured as int
        }),
        r > 0,
{
    if configured == 0 {
        DEFAULT_METRICS_RATE
    } else {
        configured
    }
}

/// Resolve the default sampling rate from the rate environment variable's
/// value (`None` when the variable is absent). A pure function of its
/// argument, so repeated resolution against the same environment always
/// yields the same, positive, rate.
pub fn default_log_rate(env_value: Option<&str>) -> (r: usize)
    ensures
        r as nat == spec_resolve_rate(env_view(env_value)),
        r > 0,
{
    match env_value {
        None => DEFAULT_METRICS_RATE,
        Some(s) => match parse_usize(s) {
            None => DEFAULT_METRICS_RATE,
            Some(v) => effective_rate(v),
        },
    }
}

} // verus!
