use vstd::prelude::*;

verus! {

/// Stand-in period for a duty with no configured cadence: it never comes due
/// again once pushed this far out.
pub const NEVER_TICKS: u64 = 4294967295;

/// Saturating addition on ticks.
pub open spec fn sat_add(a: u64, b: u64) -> u64 {
    if a + b > u64::MAX {
        u64::MAX
    } else {
        (a + b) as u64
    }
}

/// The smaller of two tick counts.
pub open spec fn min64(a: u64, b: u64) -> u64 {
    if a <= b {
        a
    } else {
        b
    }
}

/// A duty's period, with the never-again stand-in for an unconfigured one.
pub open spec fn freq_or_never(f: Option<u64>) -> u64 {
    match f {
        Some(x) => x,
        None => NEVER_TICKS,
    }
}

/// The background loop's state: two independently configurable cadences —
/// discovery refresh and health check — with the next-due time of each.
/// One loop serves both duties and sleeps until the earlier one, so neither
/// cadence busy-polls or blocks the other.
#[derive(Clone, Copy, Debug, PartialEq, Eq, Structural)]
pub struct Scheduler {
    pub update_every: Option<u64>,
    pub health_every: Option<u64>,
    pub next_update: u64,
    pub next_health: u64,
}

/// What one pass of the loop decided: which duties to run now, whether the
/// loop is done for good, and when to wake again.
#[derive(Clone, Copy, Debug, PartialEq, Eq, Structural)]
pub struct TickOutcome {
    pub run_update: bool,
    pub run_health: bool,
    pub stop: bool,
    pub wake_at: u64,
}

/// Configured periods are positive: a zero period would busy-poll.
pub open spec fn scheduler_wf(s: Scheduler) -> bool {
    &&& (s.update_every matches Some(f) ==> f >= 1)
    &&& (s.health_every matches Some(f) ==> f >= 1)
}

/// The discovery refresh is due at `now`.
pub open spec fn due_update(s: Scheduler, now: u64) -> bool {
    s.next_update <= now
}

/// The health check is due at `now`.
pub open spec fn due_health(s: Scheduler, now: u64) -> bool {
    s.next_health <= now
}

/// The state after one pass at `now`: each duty that was due is pushed one
/// period out; the other is untouched.
pub open spec fn tick_next(s: Scheduler, now: u64) -> Scheduler {
    Scheduler {
        update_every: s.update_every,
        health_every: s.health_every,
        next_update: if due_update(s, now) {
            sat_add(now, freq_or_never(s.update_every))
        } else {
            s.next_update
        },
        next_health: if due_health(s, now) {
            sat_add(now, freq_or_never(s.health_every))
        } else {
            s.next_health
        },
    }
}

/// When the loop wakes next: the earlier of the two next-due times.
pub open spec fn tick_wake(s: Scheduler, now: u64) -> u64 {
    min64(tick_next(s, now).next_update, tick_next(s, now).next_health)
}

/// The loop stops for good only when neither duty has a cadence.
pub open spec fn tick_stop(s: Scheduler) -> bool {
    s.update_every is None && s.health_every is None
}

fn sat_add_exec(a: u64, b: u64) -> (r: u64)
    ensures
        r == sat_add(a, b),
{
    if a > u64::MAX - b {
        u64::MAX
    } else {
        a + b
    }
}

impl Scheduler {
    /// Starts the loop at `now` with both duties immediately due, so each
    /// runs once right away.
    pub fn new(now: u64, update_every: Option<u64>, health_every: Option<u64>) -> (s: Scheduler)
        requires
            update_every matches Some(f) ==> f >= 1,
            health_every matches Some(f) ==> f >= 1,
        ensures
            s.update_every == update_every,
            s.health_every == health_every,
            s.next_update == now,
            s.next_health == now,
            scheduler_wf(s),
    {
        Scheduler { update_every, health_every, next_update: now, next_health: now }
    }

    /// One pass of the loop at `now`: reports which duties are due, pushes
    /// each duty that runs one period out, and yields the next wake time —
    /// the minimum of the two next-due times.
    pub fn tick(&mut self, now: u64) -> (t: TickOutcome)
        ensures
            t.run_update == due_update(*old(self), now),
            t.run_health == due_health(*old(self), now),
            t.stop == tick_stop(*old(self)),
            t.wake_at == tick_wake(*old(self), now),
            *final(self) == tick_next(*old(self), now),
            scheduler_wf(*old(self)) ==> scheduler_wf(*final(self)),
    {
        let run_update = self.next_update <= now;
        let run_health = self.next_health <= now;
        if run_update {
            let f = match self.update_every {
                Some(f) => f,
                None => NEVER_TICKS,
            };
            self.next_update = sat_add_exec(now, f);
        }
        if run_health {
            let f = match self.health_every {
                Some(f) => f,
                None => NEVER_TICKS,
            };
            self.next_health = sat_add_exec(now, f);
        }
        let stop = self.update_every.is_none() && self.health_every.is_none();
        let wake_at = if self.next_update <= self.next_health {
            self.next_update
        } else {
            self.next_health
        };
        TickOutcome { run_update, run_health, stop, wake_at }
    }
}

/// The loop never busy-polls: after a pass at `now`, the next wake time lies
/// strictly in the future.
pub proof fn lemma_tick_progress(s: Scheduler, now: u64)
    requires
        scheduler_wf(s),
        now < u64::MAX,
    ensures
        tick_wake(s, now) > now,
{
}

/// Neither cadence blocks the other: a pass taken at or after the announced
/// wake time always finds at least one duty due.
pub proof fn lemma_tick_no_starvation(s: Scheduler, now: u64, t: u64)
    requires
        t >= tick_wake(s, now),
    ensures
        due_update(tick_next(s, now), t) || due_health(tick_next(s, now), t),
{
}

/// Running one duty never delays the other: a pass leaves the next-due time
/// of a duty that did not run untouched.
pub proof fn lemma_tick_independent(s: Scheduler, now: u64)
    ensures
        !due_update(s, now) ==> tick_next(s, now).next_update == s.next_update,
        !due_health(s, now) ==> tick_next(s, now).next_health == s.next_health,
{
}

} // verus!
