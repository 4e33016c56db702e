//! Exponential backoff with a cap, as a small state machine: the caller runs
//! the operation and sleeps, the machine decides whether and how long.

use vstd::prelude::*;

verus! {

/// `b` to the power `e`.
pub open spec fn pow(b: nat, e: nat) -> nat
    decreases e,
{
    if e == 0 {
        1
    } else {
        b * pow(b, (e - 1) as nat)
    }
}

pub open spec fn min_nat(a: nat, b: nat) -> nat {
    if a <= b {
        a
    } else {
        b
    }
}

/// Backoff parameters: at most `attempts` tries; before try `n + 1` the
/// caller waits `min(base_delay_secs * multiplier^n, max_delay_secs)` seconds.
#[derive(Debug, Clone, Copy, PartialEq, Eq, Structural)]
pub struct RetryPolicy {
    pub attempts: usize,
    pub base_delay_secs: u64,
    pub multiplier: u64,
    pub max_delay_secs: u64,
}

/// The delay after failed attempt `n` (counted from 0).
pub open spec fn delay_spec(p: RetryPolicy, n: nat) -> nat {
    min_nat(p.base_delay_secs as nat * pow(p.multiplier as nat, n), p.max_delay_secs as nat)
}

/// The sum of the delays after failed attempts `0 .. k`.
pub open spec fn delays_sum(p: RetryPolicy, k: nat) -> nat
    decreases k,
{
    if k == 0 {
        0
    } else {
        delays_sum(p, (k - 1) as nat) + delay_spec(p, (k - 1) as nat)
    }
}

/// The most a whole run can sleep: one delay before each try but the first.
pub open spec fn total_delay_bound(p: RetryPolicy) -> nat {
    if p.attempts == 0 {
        0
    } else {
        delays_sum(p, (p.attempts - 1) as nat)
    }
}

proof fn lemma_delay_step(p: RetryPolicy, n: nat)
    ensures
        delay_spec(p, n + 1) == min_nat(delay_spec(p, n) * p.multiplier as nat, p.max_delay_secs as nat),
{
    let x = p.base_delay_secs as nat * pow(p.multiplier as nat, n);
    let m = p.multiplier as nat;
    let cap = p.max_delay_secs as nat;
    assert(pow(m, n + 1) == m * pow(m, n));
    assert(p.base_delay_secs as nat * pow(m, n + 1) == x * m) by (nonlinear_arith)
        requires pow(m, n + 1) == m * pow(m, n), x == p.base_delay_secs as nat * pow(m, n);
    if x >= cap && m >= 1 {
        assert(x * m >= cap) by (nonlinear_arith) requires x >= cap, m >= 1;
        assert(cap * m >= cap) by (nonlinear_arith) requires m >= 1;
    } else if m == 0 {
        assert(x * m == 0 && cap * m == 0) by (nonlinear_arith) requires m == 0;
    }
}

impl RetryPolicy {
    /// How long to wait after failed attempt `n` (counted from 0).
    pub fn delay_for_attempt(&self, n: usize) -> (r: u64)
        ensures
            r as nat == delay_spec(*self, n as nat),
    {
        let cap = self.max_delay_secs;
        let m = self.multiplier;
        let mut c: u64 = if self.base_delay_secs < cap { self.base_delay_secs } else { cap };
        let mut i: usize = 0;
        assert(pow(m as nat, 0) == 1);
        while i < n
            invariant
                i <= n,
                c as nat == delay_spec(*self, i as nat),
                c <= cap,
                cap == self.max_delay_secs,
                m == self.multiplier,
            decreases n - i,
        {
            proof { lemma_delay_step(*self, i as nat); }
            if m != 0 && c > cap / m {
                assert(c * m > cap) by (nonlinear_arith) requires m != 0, c > cap / m;
                c = cap;
            } else {
                assert(c * m <= cap) by (nonlinear_arith) requires m == 0 || c <= cap / m;
                c = c * m;
            }
            i = i + 1;
        }
        c
    }
}

/// What to do after a failed attempt.
#[derive(Debug, Clone, Copy, PartialEq, Eq, Structural)]
pub enum RetryDecision {
    /// Wait `delay_secs`, then make try `attempt + 1` of `attempts`.
    Retry { delay_secs: u64, attempt: usize, attempts: usize },
    /// No attempt is left: report the last error.
    GiveUp,
}

/// Progress through one retried operation.
pub struct Retrier {
    pub policy: RetryPolicy,
    /// Failed attempts so far.
    pub failures: usize,
    /// Seconds of waiting asked for so far.
    pub slept: Ghost<nat>,
}

impl Retrier {
    /// The run is consistent: the waits asked for are the policy's delays.
    pub open spec fn wf(&self) -> bool {
        &&& self.policy.attempts >= 1
        &&& self.failures <= self.policy.attempts
        &&& self.slept@ == delays_sum(self.policy, min_nat(self.failures as nat, (self.policy.attempts - 1) as nat))
    }

    /// Starts a run under `policy`.
    pub fn new(policy: RetryPolicy) -> (r: Retrier)
        requires
            policy.attempts >= 1,
        ensures
            r.wf(),
            r.policy == policy,
            r.failures == 0,
            r.slept@ == 0,
    {
        Retrier { policy, failures: 0, slept: Ghost(0) }
    }

    /// Records a failed attempt and decides: retry after the policy's delay
    /// while attempts remain, else give up.
    pub fn on_failure(&mut self) -> (r: RetryDecision)
        requires
            old(self).wf(),
            old(self).failures < old(self).policy.attempts,
        ensures
            final(self).wf(),
            final(self).policy == old(self).policy,
            final(self).failures == old(self).failures + 1,
            old(self).failures + 1 < old(self).policy.attempts ==> r == (RetryDecision::Retry {
                delay_secs: delay_spec(old(self).policy, old(self).failures as nat) as u64,
                attempt: (old(self).failures + 1) as usize,
                attempts: old(self).policy.attempts,
            }) && final(self).slept@ == old(self).slept@ + delay_spec(
                old(self).policy,
                old(self).failures as nat,
            ),
            old(self).failures + 1 >= old(self).policy.attempts ==> r == RetryDecision::GiveUp
                && final(self).slept@ == old(self).slept@,
    {
        let n = self.failures;
        self.failures = n + 1;
        if n + 1 < self.policy.attempts {
            let d = self.policy.delay_for_attempt(n);
            self.slept = Ghost(self.slept@ + d as nat);
            RetryDecision::Retry { delay_secs: d, attempt: n + 1, attempts: self.policy.attempts }
        } else {
            RetryDecision::GiveUp
        }
    }
}

proof fn lemma_delays_sum_monotone(p: RetryPolicy, a: nat, b: nat)
    requires
        a <= b,
    ensures
        delays_sum(p, a) <= delays_sum(p, b),
    decreases b - a,
{
    if a < b {
        lemma_delays_sum_monotone(p, a, (b - 1) as nat);
    }
}

/// Over a whole retried operation the total waiting asked for never exceeds
/// the sum of `min(base * multiplier^n, cap)` over the retries the policy allows.
pub proof fn lemma_total_sleep_bounded(r: &Retrier)
    requires
        r.wf(),
    ensures
        r.slept@ <= total_delay_bound(r.policy),
{
    lemma_delays_sum_monotone(
        r.policy,
        min_nat(r.failures as nat, (r.policy.attempts - 1) as nat),
        (r.policy.attempts - 1) as nat,
    );
}

} // verus!
