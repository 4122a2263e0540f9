use vstd::prelude::*;

verus! {

/// A countdown that can repeat, measured in milliseconds.
///
/// `tick` advances `elapsed` unless the timer is paused. When `elapsed`
/// reaches `duration` a repeating timer wraps around (keeping what was left
/// over), while a one-shot timer stops at `duration`. `just_finished` holds
/// only after the tick on which the threshold was crossed.
#[derive(Clone, Copy, Debug, PartialEq, Eq, Structural)]
pub struct Timer {
    pub duration: u64,
    pub elapsed: u64,
    pub repeating: bool,
    pub paused: bool,
    pub finished: bool,
    pub just_finished: bool,
}

impl Timer {
    /// The timer after one tick of `delta` milliseconds.
    pub open spec fn after_tick(self, delta: u64) -> Timer {
        if self.paused || (!self.repeating && self.finished) {
            Timer { just_finished: false, ..self }
        } else {
            let total = self.elapsed + delta;
            if total < self.duration {
                Timer { elapsed: total as u64, finished: false, just_finished: false, ..self }
            } else if self.repeating {
                let wrapped = if self.duration == 0 { 0 } else { total % (self.duration as int) };
                Timer { elapsed: wrapped as u64, finished: true, just_finished: true, ..self }
            } else {
                Timer { elapsed: self.duration, finished: true, just_finished: true, ..self }
            }
        }
    }

    /// The timer after `n` ticks of `delta` milliseconds each.
    pub open spec fn after_ticks(self, delta: u64, n: nat) -> Timer
        decreases n,
    {
        if n == 0 {
            self
        } else {
            self.after_ticks(delta, (n - 1) as nat).after_tick(delta)
        }
    }

    /// A running timer with nothing elapsed.
    pub open spec fn fresh(duration: u64, repeating: bool) -> Timer {
        Timer { duration, elapsed: 0, repeating, paused: false, finished: false, just_finished: false }
    }

    /// A fresh, running timer with nothing elapsed.
    pub fn new(duration: u64, repeating: bool) -> (r: Timer)
        ensures
            r == Timer::fresh(duration, repeating),
    {
        Timer { duration, elapsed: 0, repeating, paused: false, finished: false, just_finished: false }
    }

    /// Advances the timer by `delta` milliseconds.
    pub fn tick(&mut self, delta: u64)
        ensures
            *final(self) == old(self).after_tick(delta),
    {
        if self.paused || (!self.repeating && self.finished) {
            self.just_finished = false;
            return;
        }
        let total: u128 = self.elapsed as u128 + delta as u128;
        if total < self.duration as u128 {
            self.elapsed = total as u64;
            self.finished = false;
            self.just_finished = false;
        } else if self.repeating {
            if self.duration == 0 {
                self.elapsed = 0;
            } else {
                self.elapsed = (total % (self.duration as u128)) as u64;
            }
            self.finished = true;
            self.just_finished = true;
        } else {
            self.elapsed = self.duration;
            self.finished = true;
            self.just_finished = true;
        }
    }

    /// Whether the last tick crossed the threshold.
    pub fn just_finished(&self) -> (r: bool)
        ensures
            r == self.just_finished,
    {
        self.just_finished
    }

    /// Whether the timer has reached its duration.
    pub fn finished(&self) -> (r: bool)
        ensures
            r == self.finished,
    {
        self.finished
    }

    /// Zeroes the elapsed time; the pause state is kept.
    pub fn reset(&mut self)
        ensures
            *final(self) == (Timer { elapsed: 0, finished: false, just_finished: false, ..*old(self) }),
    {
        self.elapsed = 0;
        self.finished = false;
        self.just_finished = false;
    }

    /// Stops `tick` from having any effect on the elapsed time.
    pub fn pause(&mut self)
        ensures
            *final(self) == (Timer { paused: true, ..*old(self) }),
    {
        self.paused = true;
    }

    /// Lets `tick` advance the timer again.
    pub fn unpause(&mut self)
        ensures
            *final(self) == (Timer { paused: false, ..*old(self) }),
    {
        self.paused = false;
    }

    pub fn paused(&self) -> (r: bool)
        ensures
            r == self.paused,
    {
        self.paused
    }

    pub fn elapsed(&self) -> (r: u64)
        ensures
            r == self.elapsed,
    {
        self.elapsed
    }

    pub fn duration(&self) -> (r: u64)
        ensures
            r == self.duration,
    {
        self.duration
    }
}

/// A running repeating timer whose period is a whole number `k` of equal
/// ticks reports `just_finished` on every `k`-th tick and on no other.
pub proof fn lemma_repeating_timer_fires_once_per_period(t: Timer, delta: u64, n: nat)
    requires
        t.repeating,
        !t.paused,
        t.elapsed == 0,
        delta > 0,
        t.duration % delta == 0,
        t.duration > 0,
        n >= 1,
    ensures
        t.after_ticks(delta, n).just_finished <==> n % (t.duration / delta) as nat == 0,
{
    lemma_repeating_timer_phase(t, delta, n);
}

proof fn lemma_repeating_timer_phase(t: Timer, delta: u64, n: nat)
    requires
        t.repeating,
        !t.paused,
        t.elapsed == 0,
        delta > 0,
        t.duration % delta == 0,
        t.duration > 0,
    ensures
        ({
            let k = (t.duration / delta) as nat;
            let s = t.after_ticks(delta, n);
            &&& s.elapsed == (n % k) * delta
            &&& s.repeating && !s.paused && s.duration == t.duration
            &&& n >= 1 ==> (s.just_finished <==> n % k == 0)
        }),
    decreases n,
{
    let k = (t.duration / delta) as nat;
    let d = delta as int;
    let p = t.duration as int;
    assert(p == k * d) by {
        vstd::arithmetic::div_mod::lemma_fundamental_div_mod(p, d);
    }
    assert(k >= 1) by (nonlinear_arith)
        requires p == k * d, p > 0, d > 0, k >= 0;
    if n == 0 {
        assert(0nat % k == 0) by {
            vstd::arithmetic::div_mod::lemma_small_mod(0, k);
        }
    } else {
        let m = (n - 1) as nat;
        lemma_repeating_timer_phase(t, delta, m);
        let r = m % k;
        let q = m / k;
        assert(m == q * k + r && 0 <= r < k) by {
            vstd::arithmetic::div_mod::lemma_fundamental_div_mod(m as int, k as int);
        }
        assert((r + 1) * d <= p) by (nonlinear_arith)
            requires r + 1 <= k, p == k * d, d > 0;
        assert(r * d + d == (r + 1) * d) by (nonlinear_arith);
        let prev = t.after_ticks(delta, m);
        assert(prev.elapsed + delta == (r + 1) * d);
        if r + 1 == k {
            assert(n == (q + 1) * k + 0) by (nonlinear_arith)
                requires n == m + 1, m == q * k + r, r + 1 == k;
            vstd::arithmetic::div_mod::lemma_fundamental_div_mod_converse(n as int, k as int, (q + 1) as int, 0);
            assert((p as int) % p == 0) by {
                vstd::arithmetic::div_mod::lemma_mod_self_0(p);
            }
        } else {
            vstd::arithmetic::div_mod::lemma_fundamental_div_mod_converse(n as int, k as int, q as int, (r + 1) as int);
            assert((r + 1) * d < p) by (nonlinear_arith)
                requires r + 1 < k, p == k * d, d > 0;
        }
    }
}

} // verus!
