use crate::keys::{is_modifier, is_modifier_key, KeyValue};
use std::cmp::Ordering;
use vstd::prelude::*;

verus! {

/// `keys` with the modifier keys moved to the front; each part keeps its order.
pub open spec fn modifiers_in_front(keys: Seq<u16>) -> Seq<u16> {
    keys.filter(|k: u16| is_modifier(k)) + keys.filter(|k: u16| !is_modifier(k))
}

/// `keys` with the modifier keys moved to the back; each part keeps its order.
pub open spec fn modifiers_at_back(keys: Seq<u16>) -> Seq<u16> {
    keys.filter(|k: u16| !is_modifier(k)) + keys.filter(|k: u16| is_modifier(k))
}

/// Each key paired with the key state `value`.
pub open spec fn with_value(keys: Seq<u16>, value: KeyValue) -> Seq<(u16, KeyValue)> {
    keys.map_values(|k: u16| (k, value))
}

/// Presses `keys` (modifiers first), then releases them (modifiers last).
pub open spec fn press_and_release_seq(keys: Seq<u16>) -> Seq<(u16, KeyValue)> {
    with_value(modifiers_in_front(keys), KeyValue::Press) + with_value(modifiers_at_back(keys), KeyValue::Release)
}

/// Splits `keys` into its modifier keys and its other keys, each in order.
fn split_modifiers(keys: &Vec<u16>) -> (r: (Vec<u16>, Vec<u16>))
    ensures
        r.0@ == keys@.filter(|k: u16| is_modifier(k)),
        r.1@ == keys@.filter(|k: u16| !is_modifier(k)),
{
    let ghost s = keys@;
    let mut mods: Vec<u16> = Vec::new();
    let mut others: Vec<u16> = Vec::new();
    let mut i: usize = 0;
    while i < keys.len()
        invariant
            i <= keys.len(),
            s == keys@,
            mods@ == s.take(i as int).filter(|k: u16| is_modifier(k)),
            others@ == s.take(i as int).filter(|k: u16| !is_modifier(k)),
        decreases keys.len() - i,
    {
        proof {
            reveal_with_fuel(Seq::<_>::filter, 1);
            assert(s.take(i + 1).drop_last() =~= s.take(i as int));
        }
        let k = keys[i];
        if is_modifier_key(k) {
            mods.push(k);
        } else {
            others.push(k);
        }
        i = i + 1;
    }
    proof {
        assert(s.take(s.len() as int) =~= s);
    }
    (mods, others)
}

/// `keys` with the modifier keys moved to the front, as a stable sort by
/// `modifiers_first` orders them.
pub fn put_modifiers_in_front(keys: &Vec<u16>) -> (r: Vec<u16>)
    ensures
        r@ == modifiers_in_front(keys@),
{
    let (mut mods, mut others) = split_modifiers(keys);
    mods.append(&mut others);
    mods
}

/// `keys` with the modifier keys moved to the back, as a stable sort by
/// `modifiers_last` orders them.
pub fn put_modifiers_at_back(keys: &Vec<u16>) -> (r: Vec<u16>)
    ensures
        r@ == modifiers_at_back(keys@),
{
    let (mut mods, mut others) = split_modifiers(keys);
    others.append(&mut mods);
    others
}

/// Pairs each key with `value`.
pub fn keys_with_value(keys: Vec<u16>, value: KeyValue) -> (r: Vec<(u16, KeyValue)>)
    ensures
        r@ == with_value(keys@, value),
{
    let mut out: Vec<(u16, KeyValue)> = Vec::new();
    let mut i: usize = 0;
    while i < keys.len()
        invariant
            i <= keys.len(),
            out@ == with_value(keys@.take(i as int), value),
        decreases keys.len() - i,
    {
        proof {
            assert(with_value(keys@.take(i + 1), value) =~= with_value(keys@.take(i as int), value).push(
                (keys@[i as int], value),
            ));
        }
        out.push((keys[i], value));
        i = i + 1;
    }
    proof {
        assert(keys@.take(keys@.len() as int) =~= keys@);
    }
    out
}

/// Presses `keys` with the modifiers first, then releases them with the
/// modifiers last.
fn press_and_release(keys: &Vec<u16>) -> (r: Vec<(u16, KeyValue)>)
    ensures
        r@ == press_and_release_seq(keys@),
{
    let mut events = keys_with_value(put_modifiers_in_front(keys), KeyValue::Press);
    let mut releases = keys_with_value(put_modifiers_at_back(keys), KeyValue::Release);
    events.append(&mut releases);
    events
}

/// A key that acts as `alone` when tapped and as `held` when held down.
///
/// `alone_timeout_at` is the time (nanoseconds of the monotonic clock) until
/// which a release counts as a tap; `None` once the key is taken as held, or
/// from the start when the key may be held for any time.
#[derive(Debug)]
pub struct MultiPurposeKeyState {
    pub held: Vec<u16>,
    pub alone: Vec<u16>,
    pub alone_timeout_at: Option<u64>,
    pub held_down: bool,
}

impl View for MultiPurposeKeyState {
    type V = (Seq<u16>, Seq<u16>, Option<u64>, bool);

    open spec fn view(&self) -> Self::V {
        (self.held@, self.alone@, self.alone_timeout_at, self.held_down)
    }
}

/// The key is still within its tap time at `now`.
pub open spec fn tap_pending(alone_timeout_at: Option<u64>, now: u64) -> bool {
    alone_timeout_at matches Some(at) && now < at
}

/// The state and the key events after the key repeats at `now` (see
/// `MultiPurposeKeyState::repeat`).
pub open spec fn spec_mp_repeat(v: (Seq<u16>, Seq<u16>, Option<u64>, bool), now: u64) -> (
    (Seq<u16>, Seq<u16>, Option<u64>, bool),
    Seq<(u16, KeyValue)>,
) {
    if tap_pending(v.2, now) {
        (v, Seq::empty())
    } else if v.2 is Some {
        ((v.0, v.1, None, true), with_value(modifiers_in_front(v.0), KeyValue::Press))
    } else {
        (v, with_value(modifiers_in_front(v.0), KeyValue::Repeat))
    }
}

/// The key events after the key is released at `now` (see
/// `MultiPurposeKeyState::release`).
pub open spec fn spec_mp_release(v: (Seq<u16>, Seq<u16>, Option<u64>, bool), now: u64) -> Seq<(u16, KeyValue)> {
    if tap_pending(v.2, now) {
        press_and_release_seq(v.1)
    } else if v.2 is Some {
        press_and_release_seq(v.0)
    } else if v.3 {
        with_value(modifiers_at_back(v.0), KeyValue::Release)
    } else {
        press_and_release_seq(v.1)
    }
}

/// The state and the key events after another key is pressed (see
/// `MultiPurposeKeyState::force_held`).
pub open spec fn spec_mp_force_held(v: (Seq<u16>, Seq<u16>, Option<u64>, bool)) -> (
    (Seq<u16>, Seq<u16>, Option<u64>, bool),
    Seq<(u16, KeyValue)>,
) {
    (
        (v.0, v.1, None, true),
        if v.2 is Some || !v.3 {
            with_value(modifiers_in_front(v.0), KeyValue::Press)
        } else {
            Seq::empty()
        },
    )
}

impl MultiPurposeKeyState {
    /// The key repeats at `now`: nothing while it may still be a tap; once
    /// the tap time ran out, the `held` keys are pressed and the key counts as
    /// held; afterwards the `held` keys repeat.
    pub fn repeat(&mut self, now: u64) -> (r: Vec<(u16, KeyValue)>)
        ensures
            final(self).held@ == old(self).held@,
            final(self).alone@ == old(self).alone@,
            tap_pending(old(self).alone_timeout_at, now) ==> r@.len() == 0 && final(self).alone_timeout_at
                == old(self).alone_timeout_at && final(self).held_down == old(self).held_down,
            old(self).alone_timeout_at is Some && !tap_pending(old(self).alone_timeout_at, now) ==> r@ == with_value(
                modifiers_in_front(old(self).held@),
                KeyValue::Press,
            ) && final(self).alone_timeout_at is None && final(self).held_down,
            old(self).alone_timeout_at is None ==> r@ == with_value(
                modifiers_in_front(old(self).held@),
                KeyValue::Repeat,
            ) && final(self).alone_timeout_at is None && final(self).held_down == old(self).held_down,
            (final(self)@, r@) == spec_mp_repeat(old(self)@, now),
    {
        match self.alone_timeout_at {
            Some(alone_timeout_at) => {
                if now < alone_timeout_at {
                    Vec::new()
                } else {
                    self.alone_timeout_at = None;
                    self.held_down = true;
                    keys_with_value(put_modifiers_in_front(&self.held), KeyValue::Press)
                }
            },
            None => keys_with_value(put_modifiers_in_front(&self.held), KeyValue::Repeat),
        }
    }

    /// The key is released at `now`: a tap presses and releases the `alone`
    /// keys; a key held past its tap time presses and releases the `held`
    /// keys; a key taken as held releases the `held` keys; a key that may be
    /// held for any time but was not taken as held counts as a tap.
    pub fn release(&self, now: u64) -> (r: Vec<(u16, KeyValue)>)
        ensures
            r@ == (if tap_pending(self.alone_timeout_at, now) {
                press_and_release_seq(self.alone@)
            } else if self.alone_timeout_at is Some {
                press_and_release_seq(self.held@)
            } else if self.held_down {
                with_value(modifiers_at_back(self.held@), KeyValue::Release)
            } else {
                press_and_release_seq(self.alone@)
            }),
            r@ == spec_mp_release(self@, now),
    {
        match self.alone_timeout_at {
            Some(alone_timeout_at) => {
                if now < alone_timeout_at {
                    press_and_release(&self.alone)
                } else {
                    press_and_release(&self.held)
                }
            },
            None => {
                if self.held_down {
                    keys_with_value(put_modifiers_at_back(&self.held), KeyValue::Release)
                } else {
                    press_and_release(&self.alone)
                }
            },
        }
    }

    /// Another key is pressed: the key is taken as held from now on, and the
    /// `held` keys are pressed unless that already happened.
    pub fn force_held(&mut self) -> (r: Vec<(u16, KeyValue)>)
        ensures
            final(self).held@ == old(self).held@,
            final(self).alone@ == old(self).alone@,
            final(self).alone_timeout_at is None,
            final(self).held_down,
            r@ == (if old(self).alone_timeout_at is Some || !old(self).held_down {
                with_value(modifiers_in_front(old(self).held@), KeyValue::Press)
            } else {
                Seq::empty()
            }),
            (final(self)@, r@) == spec_mp_force_held(old(self)@),
    {
        let press = match self.alone_timeout_at {
            Some(_) => {
                self.alone_timeout_at = None;
                self.held_down = true;
                true
            },
            None => {
                if !self.held_down {
                    self.held_down = true;
                    true
                } else {
                    false
                }
            },
        };
        if press {
            keys_with_value(put_modifiers_in_front(&self.held), KeyValue::Press)
        } else {
            Vec::new()
        }
    }
}

/// Moving the modifiers of `keys` to the front keeps every key (as many times
/// as before) and leaves no other key before a modifier; moving them to the
/// back does the opposite.
pub proof fn law_modifier_order(keys: Seq<u16>)
    ensures
        modifiers_in_front(keys).to_multiset() == keys.to_multiset(),
        modifiers_at_back(keys).to_multiset() == keys.to_multiset(),
        forall|i: int, j: int|
            0 <= i < j < modifiers_in_front(keys).len() && is_modifier(#[trigger] modifiers_in_front(keys)[j])
                ==> is_modifier(#[trigger] modifiers_in_front(keys)[i]),
        forall|i: int, j: int|
            0 <= i < j < modifiers_at_back(keys).len() && is_modifier(#[trigger] modifiers_at_back(keys)[i])
                ==> is_modifier(#[trigger] modifiers_at_back(keys)[j]),
    decreases keys.len(),
{
    broadcast use vstd::seq_lib::group_filter_ensures;
    broadcast use vstd::seq_lib::lemma_multiset_commutative;
    broadcast use vstd::seq_lib::to_multiset_build;
    broadcast use vstd::multiset::group_multiset_axioms;

    let mods = keys.filter(|k: u16| is_modifier(k));
    let others = keys.filter(|k: u16| !is_modifier(k));
    if keys.len() > 0 {
        law_modifier_order(keys.drop_last());
        reveal_with_fuel(Seq::<_>::filter, 1);
        assert(keys.drop_last().push(keys.last()) =~= keys);
        let m0 = keys.drop_last().filter(|k: u16| is_modifier(k));
        let o0 = keys.drop_last().filter(|k: u16| !is_modifier(k));
        assert((m0 + o0).to_multiset() == keys.drop_last().to_multiset());
        if is_modifier(keys.last()) {
            assert(mods == m0.push(keys.last()));
            assert(others == o0);
        } else {
            assert(mods == m0);
            assert(others == o0.push(keys.last()));
        }
        assert(mods.to_multiset().add(others.to_multiset()) =~= m0.to_multiset().add(o0.to_multiset()).insert(
            keys.last(),
        ));
        assert(keys.to_multiset() =~= keys.drop_last().to_multiset().insert(keys.last()));
    } else {
        assert(mods =~= Seq::<u16>::empty());
        assert(others =~= Seq::<u16>::empty());
        assert(modifiers_in_front(keys) =~= keys);
        assert(modifiers_at_back(keys) =~= keys);
    }
    assert(modifiers_in_front(keys).to_multiset() == mods.to_multiset().add(others.to_multiset()));
    assert(modifiers_at_back(keys).to_multiset() == others.to_multiset().add(mods.to_multiset()));
    assert forall|i: int, j: int|
        0 <= i < j < modifiers_in_front(keys).len() && is_modifier(#[trigger] modifiers_in_front(keys)[j]) implies is_modifier(
        #[trigger] modifiers_in_front(keys)[i],
    ) by {
        if i < mods.len() {
            assert(mods.contains(mods[i]));
        } else {
            assert(others.contains(others[j - mods.len()]));
        }
    }
    assert forall|i: int, j: int|
        0 <= i < j < modifiers_at_back(keys).len() && is_modifier(#[trigger] modifiers_at_back(keys)[i]) implies is_modifier(
        #[trigger] modifiers_at_back(keys)[j],
    ) by {
        if j >= others.len() {
            assert(mods.contains(mods[j - others.len()]));
        } else {
            assert(others.contains(others[i]));
        }
    }
}

/// A multi-purpose key that was just pressed (with a tap time ending at
/// `deadline`):
///   - released before the deadline, taps its `alone` keys;
///   - released at or after the deadline, taps its `held` keys;
///   - interrupted by another key, presses its `held` keys (modifiers first),
///     and when released afterwards releases them (modifiers last);
///   - repeated after the deadline, presses its `held` keys and counts as held.
pub proof fn law_tap_or_hold(held: Seq<u16>, alone: Seq<u16>, deadline: u64, now: u64)
    ensures
        ({
            let fresh = (held, alone, Some(deadline), false);
            &&& now < deadline ==> spec_mp_release(fresh, now) == press_and_release_seq(alone)
            &&& now >= deadline ==> spec_mp_release(fresh, now) == press_and_release_seq(held)
            &&& spec_mp_force_held(fresh).1 == with_value(modifiers_in_front(held), KeyValue::Press)
            &&& spec_mp_release(spec_mp_force_held(fresh).0, now) == with_value(
                modifiers_at_back(held),
                KeyValue::Release,
            )
            &&& now >= deadline ==> spec_mp_repeat(fresh, now) == ((held, alone, None::<u64>, true), with_value(
                modifiers_in_front(held),
                KeyValue::Press,
            ))
        }),
{
}

/// Orders modifier keys before other keys; keys of the same kind are equal.
pub fn modifiers_first(a: &u16, b: &u16) -> (r: Ordering)
    ensures
        r == (if is_modifier(*a) {
            if is_modifier(*b) {
                Ordering::Equal
            } else {
                Ordering::Less
            }
        } else if is_modifier(*b) {
            Ordering::Greater
        } else {
            Ordering::Equal
        }),
{
    if is_modifier_key(*a) {
        if is_modifier_key(*b) {
            Ordering::Equal
        } else {
            Ordering::Less
        }
    } else if is_modifier_key(*b) {
        Ordering::Greater
    } else {
        Ordering::Equal
    }
}

/// Orders modifier keys after other keys: the reverse of `modifiers_first`.
pub fn modifiers_last(a: &u16, b: &u16) -> (r: Ordering)
    ensures
        r == (if is_modifier(*a) {
            if is_modifier(*b) {
                Ordering::Equal
            } else {
                Ordering::Greater
            }
        } else if is_modifier(*b) {
            Ordering::Less
        } else {
            Ordering::Equal
        }),
{
    match modifiers_first(a, b) {
        Ordering::Less => Ordering::Greater,
        Ordering::Equal => Ordering::Equal,
        Ordering::Greater => Ordering::Less,
    }
}

} // verus!
