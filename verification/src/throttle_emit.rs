use crate::clock::{elapsed_nanos, nanos_per_milli, now_nanos};
use crate::keys::{is_modifier, is_modifier_key, PRESS, RELEASE};
use std::collections::HashMap;
use vstd::prelude::*;

verus! {

/// Spaces out emitted key events so that slow applications register them.
///
/// A delay is needed (and how long is returned in nanoseconds) between:
///   - the press and the release of the same key, but not the other way around;
///   - the press of an ordinary key and the press or release of a modifier key;
///   - the press or release of a modifier key and the press of an ordinary key.
///
/// Timestamps are nanoseconds of the monotonic clock.
pub struct ThrottleEmit {
    pub delay_ms: u64,
    /// When a modifier was last either pressed or released.
    pub last_mod: u64,
    /// When any ordinary key was last pressed.
    pub last_key_press: u64,
    /// When each ordinary key was last pressed.
    pub last_specific_key_press: HashMap<u16, u64>,
}

/// How much of the delay is still to wait once `elapsed` nanoseconds passed.
pub open spec fn remaining_delay(delay_ms: u64, elapsed: int) -> int {
    if elapsed < delay_ms * nanos_per_milli() {
        delay_ms * nanos_per_milli() - elapsed
    } else {
        0
    }
}

/// When an event is emitted that arrives at `now` and waits `wait`
/// nanoseconds first (at most the end of the clock).
pub open spec fn emitted_at(now: u64, wait: int) -> u64 {
    if now + wait > u64::MAX {
        u64::MAX
    } else {
        (now + wait) as u64
    }
}

/// The throttle goes from `old` to `new` on the key event (`key`, `value`)
/// that arrives at `now`: `wait` nanoseconds have to pass before it is
/// emitted, and the throttle records when it is emitted.
pub open spec fn throttle_step(
    old: ThrottleEmit,
    key: u16,
    value: i32,
    now: u64,
    new: ThrottleEmit,
    wait: int,
) -> bool {
    &&& new.delay_ms == old.delay_ms
    &&& if is_modifier(key) {
        if value == PRESS || value == RELEASE {
            &&& wait == remaining_delay(old.delay_ms, elapsed_nanos(old.last_key_press, now))
            &&& new.last_mod == emitted_at(now, wait)
            &&& new.last_key_press == old.last_key_press
            &&& new.last_specific_key_press@ == old.last_specific_key_press@
        } else {
            &&& new.last_mod == old.last_mod
            &&& new.last_key_press == old.last_key_press
            &&& new.last_specific_key_press@ == old.last_specific_key_press@
            &&& wait == 0
        }
    } else if value == RELEASE {
        &&& new.last_mod == old.last_mod
        &&& new.last_key_press == old.last_key_press
        &&& new.last_specific_key_press@ == old.last_specific_key_press@
        &&& wait == if old.last_specific_key_press@.contains_key(key) {
            remaining_delay(old.delay_ms, elapsed_nanos(old.last_specific_key_press@[key], now))
        } else {
            0
        }
    } else if value == PRESS {
        &&& wait == remaining_delay(old.delay_ms, elapsed_nanos(old.last_mod, now))
        &&& new.last_mod == old.last_mod
        &&& new.last_key_press == emitted_at(now, wait)
        &&& new.last_specific_key_press@ == old.last_specific_key_press@.insert(key, emitted_at(now, wait))
    } else {
        &&& new.last_mod == old.last_mod
        &&& new.last_key_press == old.last_key_press
        &&& new.last_specific_key_press@ == old.last_specific_key_press@
        &&& wait == 0
    }
}

/// The delays between emitted key events (each measured from when the
/// earlier event was emitted):
///   - an ordinary key released after its press waits what is left of the
///     delay since that press;
///   - a release records nothing, so the key pressed again after it waits
///     only for the last modifier;
///   - a modifier pressed or released after an ordinary key's press waits
///     what is left of the delay since that press;
///   - an ordinary key pressed after a modifier's press or release waits what
///     is left of the delay since that modifier event;
///   - no wait is left once the delay has passed.
pub proof fn law_throttle_delays(
    s0: ThrottleEmit,
    s1: ThrottleEmit,
    s2: ThrottleEmit,
    key: u16,
    modifier: u16,
    value: i32,
    t0: u64,
    t1: u64,
    w1: int,
    w2: int,
)
    requires
        !is_modifier(key),
        is_modifier(modifier),
        value == PRESS || value == RELEASE,
    ensures
        throttle_step(s0, key, PRESS, t0, s1, w1) && throttle_step(s1, key, RELEASE, t1, s2, w2) ==> w2
            == remaining_delay(s0.delay_ms, elapsed_nanos(emitted_at(t0, w1), t1)),
        throttle_step(s0, key, RELEASE, t0, s1, w1) ==> w1 >= 0 && s1.last_mod == s0.last_mod && s1.last_key_press
            == s0.last_key_press && s1.last_specific_key_press@ == s0.last_specific_key_press@,
        throttle_step(s0, key, RELEASE, t0, s1, w1) && throttle_step(s1, key, PRESS, t1, s2, w2) ==> w2
            == remaining_delay(s0.delay_ms, elapsed_nanos(s0.last_mod, t1)),
        throttle_step(s0, key, PRESS, t0, s1, w1) && throttle_step(s1, modifier, value, t1, s2, w2) ==> w2
            == remaining_delay(s0.delay_ms, elapsed_nanos(emitted_at(t0, w1), t1)),
        throttle_step(s0, modifier, value, t0, s1, w1) && throttle_step(s1, key, PRESS, t1, s2, w2) ==> w2
            == remaining_delay(s0.delay_ms, elapsed_nanos(emitted_at(t0, w1), t1)),
        forall|e: int| e >= s0.delay_ms * nanos_per_milli() ==> remaining_delay(s0.delay_ms, e) == 0,
{
}

/// The nanoseconds still to wait of a delay of `delay_ms` once `elapsed` passed.
fn remaining(delay_ms: u64, elapsed: u64) -> (r: u128)
    ensures
        r == remaining_delay(delay_ms, elapsed as int),
{
    let delay: u128 = (delay_ms as u128) * 1_000_000;
    if (elapsed as u128) < delay {
        delay - (elapsed as u128)
    } else {
        0
    }
}

/// When an event that arrives at `now` and waits `wait` is emitted.
fn emitted(now: u64, wait: u128) -> (r: u64)
    ensures
        r == emitted_at(now, wait as int),
{
    if wait > 0xffff_ffff_ffff_ffff - (now as u128) {
        0xffff_ffff_ffff_ffff
    } else {
        (now as u128 + wait) as u64
    }
}

/// Nanoseconds from `start` to `now`, zero when `now` is not later.
fn elapsed(start: u64, now: u64) -> (r: u64)
    ensures
        r == elapsed_nanos(start, now),
{
    if now >= start {
        now - start
    } else {
        0
    }
}

impl ThrottleEmit {
    /// A throttle with the given delay whose last events all lie at `now`.
    pub fn new_at(delay_ms: u64, now: u64) -> (r: ThrottleEmit)
        ensures
            r.delay_ms == delay_ms,
            r.last_mod == now,
            r.last_key_press == now,
            r.last_specific_key_press@ == Map::<u16, u64>::empty(),
    {
        ThrottleEmit { delay_ms, last_mod: now, last_key_press: now, last_specific_key_press: HashMap::new() }
    }

    /// A throttle with the given delay, as if a modifier and a key had just
    /// been pressed.
    pub fn new(delay_ms: u64) -> (r: ThrottleEmit)
        ensures
            r.delay_ms == delay_ms,
            r.last_mod == r.last_key_press,
            r.last_specific_key_press@ == Map::<u16, u64>::empty(),
    {
        let now = now_nanos();
        ThrottleEmit::new_at(delay_ms, now)
    }

    /// The throttle that the configuration asks for: none when the delay is
    /// zero, else one with that delay.
    pub fn from_config(throttle_ms: u64) -> (r: Option<ThrottleEmit>)
        ensures
            r is None <==> throttle_ms == 0,
            r matches Some(t) ==> t.delay_ms == throttle_ms && t.last_mod == t.last_key_press
                && t.last_specific_key_press@ == Map::<u16, u64>::empty(),
    {
        if throttle_ms == 0 {
            None
        } else {
            Some(ThrottleEmit::new(throttle_ms))
        }
    }

    /// Records the key event (`key`, `value`) that arrives at `now` and
    /// returns how many nanoseconds to wait before emitting it.
    pub fn throttle_at(&mut self, key: u16, value: i32, now: u64) -> (r: u128)
        ensures
            throttle_step(*old(self), key, value, now, *final(self), r as int),
    {
        broadcast use vstd::std_specs::hash::group_hash_axioms;

        if is_modifier_key(key) {
            if value == PRESS || value == RELEASE {
                let wait = remaining(self.delay_ms, elapsed(self.last_key_press, now));
                self.last_mod = emitted(now, wait);
                wait
            } else {
                0
            }
        } else if value == RELEASE {
            match self.last_specific_key_press.get(&key) {
                Some(last_press) => remaining(self.delay_ms, elapsed(*last_press, now)),
                None => 0,
            }
        } else if value == PRESS {
            let wait = remaining(self.delay_ms, elapsed(self.last_mod, now));
            let at = emitted(now, wait);
            self.last_key_press = at;
            self.last_specific_key_press.insert(key, at);
            wait
        } else {
            0
        }
    }

    /// Records the key event (`key`, `value`) that is about to be emitted and
    /// returns how many nanoseconds to sleep first.
    pub fn sleep_if_needed(&mut self, key: u16, value: i32) -> (r: u128)
        ensures
            exists|now: u64| throttle_step(*old(self), key, value, now, *final(self), r as int),
    {
        let now = now_nanos();
        self.throttle_at(key, value, now)
    }
}

} // verus!
