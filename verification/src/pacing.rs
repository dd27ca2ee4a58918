//! Pacing of the main loop: how many machine cycles, timer ticks and frames
//! are due at a given moment. Times are nanoseconds on a monotonic clock.

use vstd::prelude::*;

verus! {

/// The rates of the main loop, as periods in nanoseconds.
pub struct Pacing {
    /// Time between machine cycles.
    pub cpu_period: u64,
    /// Time between timer ticks.
    pub timer_period: u64,
    /// Time between frames.
    pub frame_period: u64,
    /// Most machine cycles run in one pass of the loop.
    pub max_cpu_ticks: u32,
}

/// When each kind of work was last due.
pub struct LoopClock {
    pub last_cpu: u64,
    pub last_timer: u64,
    pub last_frame: u64,
}

/// The work due in one pass of the loop.
pub struct Plan {
    /// Machine cycles to run.
    pub cpu_ticks: u32,
    /// Timer ticks to apply.
    pub timer_ticks: u64,
    /// Whether to draw a frame.
    pub draw: bool,
}

/// Time from `then` to `now`, or zero if `then` is later.
pub open spec fn elapsed(now: u64, then: u64) -> int {
    if now >= then {
        now - then
    } else {
        0
    }
}

/// Whether `count` whole periods fit in `span`, capped at `cap`: `count` is
/// the largest number not above `cap` whose periods fit.
pub open spec fn periods_due(count: int, span: int, period: int, cap: int) -> bool {
    &&& 0 <= count <= cap
    &&& count * period <= span
    &&& (count == cap || span < (count + 1) * period)
}

/// Time from `then` to `now`, or zero if `then` is later.
pub fn elapsed_since(now: u64, then: u64) -> (d: u64)
    ensures
        d == elapsed(now, then),
{
    if now >= then {
        now - then
    } else {
        0
    }
}

/// With a positive period, the count of periods due is the number of whole
/// periods in the span, capped: `min(cap, span / period)`.
pub proof fn lemma_periods_due_is_quotient(count: int, span: int, period: int, cap: int)
    requires
        period > 0,
        span >= 0,
        cap >= 0,
        periods_due(count, span, period, cap),
    ensures
        count == (if span / period < cap { span / period } else { cap }),
{
    let q = span / period;
    vstd::arithmetic::div_mod::lemma_fundamental_div_mod(span, period);
    assert(period * q <= span < period * (q + 1)) by (nonlinear_arith)
        requires
            period > 0,
            span == period * q + span % period,
            0 <= span % period < period;
    if count < q {
        assert(count + 1 <= q);
        assert((count + 1) * period <= q * period) by (nonlinear_arith)
            requires
                count + 1 <= q,
                period > 0;
    }
    if count > q {
        assert(q + 1 <= count);
        assert((q + 1) * period <= count * period) by (nonlinear_arith)
            requires
                q + 1 <= count,
                period > 0;
    }
}

proof fn lemma_step(count: int, period: int)
    ensures
        (count + 1) * period == count * period + period,
{
    assert((count + 1) * period == count * period + period) by (nonlinear_arith);
}

impl LoopClock {
    /// A clock for which all work was last due at `start`.
    pub fn new(start: u64) -> (c: Self)
        ensures
            c.last_cpu == start,
            c.last_timer == start,
            c.last_frame == start,
    {
        LoopClock { last_cpu: start, last_timer: start, last_frame: start }
    }

    /// The work due at `now`, moving each "last due" time forward by the
    /// periods it accounts for. Machine cycles are capped at
    /// `pacing.max_cpu_ticks`; timer ticks are not capped; at most one frame
    /// is due.
    pub fn plan(&mut self, now: u64, pacing: &Pacing) -> (p: Plan)
        requires
            pacing.timer_period > 0,
        ensures
            periods_due(p.cpu_ticks as int, elapsed(now, old(self).last_cpu), pacing.cpu_period as int, pacing.max_cpu_ticks as int),
            final(self).last_cpu == old(self).last_cpu + p.cpu_ticks * pacing.cpu_period,
            periods_due(p.timer_ticks as int, elapsed(now, old(self).last_timer), pacing.timer_period as int, u64::MAX as int),
            final(self).last_timer == old(self).last_timer + p.timer_ticks * pacing.timer_period,
            p.draw == (elapsed(now, old(self).last_frame) >= pacing.frame_period),
            final(self).last_frame == old(self).last_frame + (if p.draw { pacing.frame_period as int } else { 0 }),
    {
        let start_cpu = self.last_cpu;
        let mut cpu_ticks: u32 = 0;
        proof {
            lemma_step(0, pacing.cpu_period as int);
        }
        while elapsed_since(now, self.last_cpu) >= pacing.cpu_period
            && cpu_ticks < pacing.max_cpu_ticks
            invariant_except_break
                cpu_ticks <= pacing.max_cpu_ticks,
                (cpu_ticks + 1) * pacing.cpu_period == cpu_ticks * pacing.cpu_period + pacing.cpu_period,
                self.last_cpu == start_cpu + cpu_ticks * pacing.cpu_period,
                cpu_ticks * pacing.cpu_period <= elapsed(now, start_cpu),
                self.last_timer == old(self).last_timer,
                self.last_frame == old(self).last_frame,
                start_cpu == old(self).last_cpu,
            ensures
                periods_due(cpu_ticks as int, elapsed(now, start_cpu), pacing.cpu_period as int, pacing.max_cpu_ticks as int),
                self.last_cpu == start_cpu + cpu_ticks * pacing.cpu_period,
                self.last_timer == old(self).last_timer,
                self.last_frame == old(self).last_frame,
                start_cpu == old(self).last_cpu,
            decreases pacing.max_cpu_ticks - cpu_ticks,
        {
            proof {
                lemma_step(cpu_ticks as int, pacing.cpu_period as int);
            }
            self.last_cpu = self.last_cpu + pacing.cpu_period;
            cpu_ticks = cpu_ticks + 1;
            proof {
                lemma_step(cpu_ticks as int, pacing.cpu_period as int);
            }
        }
        let start_timer = self.last_timer;
        let mut timer_ticks: u64 = 0;
        while elapsed_since(now, self.last_timer) >= pacing.timer_period
            invariant
                pacing.timer_period > 0,
                self.last_timer == start_timer + timer_ticks * pacing.timer_period,
                timer_ticks * pacing.timer_period <= elapsed(now, start_timer),
                timer_ticks <= elapsed(now, start_timer),
                self.last_cpu == start_cpu + cpu_ticks * pacing.cpu_period,
                self.last_frame == old(self).last_frame,
                start_timer == old(self).last_timer,
                periods_due(cpu_ticks as int, elapsed(now, start_cpu), pacing.cpu_period as int, pacing.max_cpu_ticks as int),
                start_cpu == old(self).last_cpu,
            decreases elapsed(now, self.last_timer),
        {
            proof {
                lemma_step(timer_ticks as int, pacing.timer_period as int);
                assert(timer_ticks * pacing.timer_period >= timer_ticks) by (nonlinear_arith)
                    requires
                        pacing.timer_period > 0;
            }
            self.last_timer = self.last_timer + pacing.timer_period;
            timer_ticks = timer_ticks + 1;
        }
        proof {
            lemma_step(timer_ticks as int, pacing.timer_period as int);
        }
        let draw = elapsed_since(now, self.last_frame) >= pacing.frame_period;
        if draw {
            self.last_frame = self.last_frame + pacing.frame_period;
        }
        Plan { cpu_ticks, timer_ticks, draw }
    }
}

} // verus!
