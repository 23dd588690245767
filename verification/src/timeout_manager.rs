use vstd::prelude::*;

verus! {

/// The deadlines (nanoseconds of the monotonic clock) for which the operators
/// want a tick. The caller owns the timer: it arms it while deadlines are
/// pending and asks `need_timeout` when it fires.
#[derive(Debug)]
pub struct TimeoutManager {
    pub delays: Vec<u64>,
}

/// `delay_ms` after `now` (at most the end of the clock).
pub open spec fn deadline_after(now: u64, delay_ms: u64) -> u64 {
    if now + delay_ms * 1_000_000 > u64::MAX {
        u64::MAX
    } else {
        (now + delay_ms * 1_000_000) as u64
    }
}

impl TimeoutManager {
    /// No deadline pending.
    pub fn new() -> (r: TimeoutManager)
        ensures
            r.delays@.len() == 0,
    {
        TimeoutManager { delays: Vec::new() }
    }

    /// Asks for a tick `delay_ms` after `now`.
    pub fn set_timeout(&mut self, now: u64, delay_ms: u64)
        ensures
            final(self).delays@ == old(self).delays@.push(deadline_after(now, delay_ms)),
    {
        let deadline: u64 = if (now as u128) + (delay_ms as u128) * 1_000_000 > 0xffff_ffff_ffff_ffff {
            0xffff_ffff_ffff_ffff
        } else {
            now + delay_ms * 1_000_000
        };
        self.delays.push(deadline);
    }

    /// Whether some deadline has come at `now`; the deadlines that came are
    /// dropped, the later ones kept in order.
    pub fn need_timeout(&mut self, now: u64) -> (r: bool)
        ensures
            r == exists|i: int| 0 <= i < old(self).delays@.len() && #[trigger] old(self).delays@[i] <= now,
            final(self).delays@ == old(self).delays@.filter(|d: u64| d > now),
    {
        let ghost old_delays = self.delays@;
        let mut kept: Vec<u64> = Vec::new();
        let mut due = false;
        let mut i: usize = 0;
        while i < self.delays.len()
            invariant
                i <= self.delays.len(),
                self.delays@ == old_delays,
                kept@ == old_delays.take(i as int).filter(|d: u64| d > now),
                due == exists|j: int| 0 <= j < i && #[trigger] old_delays[j] <= now,
            decreases self.delays.len() - i,
        {
            proof {
                reveal_with_fuel(Seq::<_>::filter, 1);
                assert(old_delays.take(i + 1).drop_last() =~= old_delays.take(i as int));
            }
            let d = self.delays[i];
            if d <= now {
                due = true;
            } else {
                kept.push(d);
            }
            i = i + 1;
        }
        proof {
            assert(old_delays.take(old_delays.len() as int) =~= old_delays);
        }
        self.delays = kept;
        due
    }
}

} // verus!
