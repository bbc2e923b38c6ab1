use vstd::prelude::*;
use vstd::arithmetic::div_mod::lemma_fundamental_div_mod;
use vstd::arithmetic::div_mod::lemma_fundamental_div_mod_converse;
use vstd::arithmetic::div_mod::lemma_mod_division_less_than_divisor;

use crate::config::spec_resolve_rate;
use crate::counter::spec_inc;
use crate::counter::spec_reports;
use crate::counter::CState;

verus! {

/// A counter as it is created: nothing counted, nothing reported.
pub open spec fn fresh_counter(name: Seq<char>, lograte: nat) -> CState {
    CState { name, counts: 0, times: 0, lastlog: 0, lograte }
}

/// The state of a counter after a sequence of increments, the i-th of
/// magnitude `mags[i]`, all made against the same environment value.
pub open spec fn run(c: CState, mags: Seq<nat>, env: Option<Seq<char>>) -> CState
    decreases mags.len(),
{
    if mags.len() == 0 {
        c
    } else {
        run(spec_inc(c, mags[0], env).0, mags.drop_first(), env)
    }
}

/// The sum of a sequence of magnitudes.
pub open spec fn mag_sum(mags: Seq<nat>) -> nat
    decreases mags.len(),
{
    if mags.len() == 0 {
        0
    } else {
        mags[0] + mag_sum(mags.drop_first())
    }
}

/// The sum of the deltas of every report a run emits.
pub open spec fn run_delta_sum(c: CState, mags: Seq<nat>, env: Option<Seq<char>>) -> nat
    decreases mags.len(),
{
    if mags.len() == 0 {
        0
    } else {
        let stepped = spec_inc(c, mags[0], env);
        (match stepped.1 {
            Option::Some(r) => r.delta,
            Option::None => 0,
        }) + run_delta_sum(stepped.0, mags.drop_first(), env)
    }
}

/// A sequence of `k` single-unit magnitudes.
pub open spec fn unit_mags(k: nat) -> Seq<nat> {
    Seq::new(k, |i: int| 1)
}

/// However many increments a run makes and whatever their magnitudes, the
/// cumulative count grows by exactly their sum, and the sample count by
/// exactly their number; the counter's name never changes.
pub proof fn lemma_increment_totals(c: CState, mags: Seq<nat>, env: Option<Seq<char>>)
    ensures
        run(c, mags, env).counts == c.counts + mag_sum(mags),
        run(c, mags, env).times == c.times + mags.len(),
        run(c, mags, env).name == c.name,
    decreases mags.len(),
{
    if mags.len() > 0 {
        lemma_increment_totals(spec_inc(c, mags[0], env).0, mags.drop_first(), env);
    }
}

/// Rate resolution is a pure function of the environment value: resolving
/// against equal values yields the same rate, however often it is done.
pub proof fn lemma_rate_resolution_idempotent(e1: Option<Seq<char>>, e2: Option<Seq<char>>)
    requires
        e1 == e2,
    ensures
        spec_resolve_rate(e1) == spec_resolve_rate(e2),
{
}

/// The resolved rate is always positive: a configured zero, or an absent or
/// invalid override, falls back to the built-in default, never to zero.
pub proof fn lemma_resolved_rate_positive(env: Option<Seq<char>>)
    ensures
        spec_resolve_rate(env) > 0,
{
}

/// What a run adds to the cumulative count splits exactly into the deltas
/// of the reports it emitted and the growth of the still unreported
/// remainder; and a run never drives the baseline above the count.
pub proof fn lemma_delta_conservation(c: CState, mags: Seq<nat>, env: Option<Seq<char>>)
    requires
        c.wf(),
    ensures
        run(c, mags, env).wf(),
        run_delta_sum(c, mags, env) + (run(c, mags, env).counts - run(c, mags, env).lastlog) == (
        c.counts - c.lastlog) + mag_sum(mags),
    decreases mags.len(),
{
    if mags.len() > 0 {
        let stepped = spec_inc(c, mags[0], env);
        lemma_delta_conservation(stepped.0, mags.drop_first(), env);
    }
}

/// Taking one more step of anything leaves the remainder by the rate either
/// rolling over to zero or growing by one.
proof fn lemma_mod_step(t: nat, r: nat)
    requires
        r > 0,
    ensures
        t % r == r - 1 ==> (t + 1) % r == 0,
        t % r != r - 1 ==> (t + 1) % r == t % r + 1,
{
    lemma_mod_division_less_than_divisor(t as int, r as int);
    lemma_fundamental_div_mod(t as int, r as int);
    let q = t as int / r as int;
    if t % r == r - 1 {
        assert(t + 1 == (q + 1) * (r as int) + 0) by (nonlinear_arith)
            requires
                t as int == (r as int) * q + (r - 1),
        ;
        lemma_fundamental_div_mod_converse((t + 1) as int, r as int, q + 1, 0);
    } else {
        assert(t + 1 == q * (r as int) + (t % r + 1)) by (nonlinear_arith)
            requires
                t as int == (r as int) * q + (t % r),
        ;
        lemma_fundamental_div_mod_converse((t + 1) as int, r as int, q, (t % r + 1) as int);
    }
}

/// After `k` single-unit increments, a counter whose rate is resolved and
/// whose counts all came one at a time keeps that shape: counts and sample
/// count advance together, and the baseline sits at the last multiple of
/// the rate the sample count has passed.
proof fn lemma_unit_run_shape(c: CState, k: nat, env: Option<Seq<char>>)
    requires
        c.lograte > 0,
        c.counts == c.times,
        c.lastlog == c.times - (c.times % c.lograte),
    ensures
        ({
            let s = run(c, unit_mags(k), env);
            s.lograte == c.lograte && s.counts == s.times && s.times == c.times + k
                && s.lastlog == s.times - (s.times % c.lograte)
        }),
    decreases k,
{
    if k > 0 {
        let stepped = spec_inc(c, 1, env);
        lemma_mod_step(c.times, c.lograte);
        assert(unit_mags(k).drop_first() =~= unit_mags((k - 1) as nat));
        lemma_unit_run_shape(stepped.0, (k - 1) as nat, env);
    } else {
        assert(run(c, unit_mags(0), env) == c);
    }
}

/// With a resolved sampling rate and single-unit sequential increments from
/// a fresh counter, the k-th increment reports exactly when k is a multiple
/// of the rate, and every report carries a delta of exactly the rate.
pub proof fn lemma_unit_increment_reporting(
    name: Seq<char>,
    rate: nat,
    k: nat,
    env: Option<Seq<char>>,
)
    requires
        rate > 0,
        k > 0,
    ensures
        ({
            let before = run(fresh_counter(name, rate), unit_mags((k - 1) as nat), env);
            let stepped = spec_inc(before, 1, env);
            (stepped.1.is_some() <==> k % rate == 0) && (stepped.1 matches Some(r) ==> r.delta
                == rate && r.times == k && r.counts == k)
        }),
{
    let before = run(fresh_counter(name, rate), unit_mags((k - 1) as nat), env);
    lemma_unit_run_shape(fresh_counter(name, rate), (k - 1) as nat, env);
    lemma_mod_step(before.times, rate);
    lemma_mod_division_less_than_divisor(before.times as int, rate as int);
}

} // verus!
