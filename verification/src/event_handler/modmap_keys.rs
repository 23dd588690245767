use super::dispatch::spec_dispatch_actions;
use super::{mp_keys, state_wf, tagged_view, EventHandler, HandlerState, TaggedAction};
use crate::action::{outs_view, Action, ActionOut};
use crate::keymap::{actions_view, duplicate_actions, ActionSpec, KeymapAction, ModmapAction};
use crate::keys::KeyValue;
use crate::multipurpose::{spec_mp_force_held, spec_mp_release, spec_mp_repeat, MultiPurposeKeyState};
use crate::util::no_dups;
use vstd::prelude::*;

verus! {

/// Where `key` is among the multi-purpose keys that are down.
pub open spec fn mp_index(s: Seq<(u16, (Seq<u16>, Seq<u16>, Option<u64>, bool))>, key: u16) -> Option<int> {
    if exists|i: int| 0 <= i < s.len() && (#[trigger] s[i]).0 == key {
        Some(choose|i: int| 0 <= i < s.len() && (#[trigger] s[i]).0 == key)
    } else {
        None
    }
}

/// The time until which a release counts as a tap: `timeout_ms` after `now`
/// (at most the end of the clock).
pub open spec fn tap_deadline(now: u64, timeout_ms: u64) -> u64 {
    if now + timeout_ms * 1_000_000 > u64::MAX {
        u64::MAX
    } else {
        (now + timeout_ms * 1_000_000) as u64
    }
}

/// The state, key events and actions after the modmap rule `action` of `key`
/// sees the key go to `value` at `now`:
///   - a plain rule gives the other key (or keys, in order);
///   - a multi-purpose key records itself on a press (giving nothing), and on
///     a repeat or release gives what its state says (or the key itself when
///     it was not down);
///   - a press-release key runs its keymap actions and gives the key itself
///     unless it skips it.
pub open spec fn spec_dispatch_keys(
    s: HandlerState,
    action: ModmapAction,
    key: u16,
    value: KeyValue,
    now: u64,
) -> (HandlerState, Seq<(u16, KeyValue)>, Seq<ActionOut>) {
    match action {
        ModmapAction::Key(k) => (s, seq![(k, value)], Seq::empty()),
        ModmapAction::Keys(keys) => (s, keys@.map_values(|k: u16| (k, value)), Seq::empty()),
        ModmapAction::MultiPurposeKey(m) => match value {
            KeyValue::Press => {
                let v = (
                    m.held@,
                    m.alone@,
                    if m.free_hold {
                        None
                    } else {
                        Some(tap_deadline(now, m.alone_timeout_ms))
                    },
                    false,
                );
                let mp = match mp_index(s.multi_purpose_keys, key) {
                    Some(i) => s.multi_purpose_keys.update(i, (key, v)),
                    None => s.multi_purpose_keys.push((key, v)),
                };
                (HandlerState { multi_purpose_keys: mp, ..s }, Seq::empty(), Seq::empty())
            },
            KeyValue::Repeat => match mp_index(s.multi_purpose_keys, key) {
                Some(i) => {
                    let (v, out) = spec_mp_repeat(s.multi_purpose_keys[i].1, now);
                    (
                        HandlerState { multi_purpose_keys: s.multi_purpose_keys.update(i, (key, v)), ..s },
                        out,
                        Seq::empty(),
                    )
                },
                None => (s, seq![(key, value)], Seq::empty()),
            },
            KeyValue::Release => match mp_index(s.multi_purpose_keys, key) {
                Some(i) => (
                    HandlerState { multi_purpose_keys: s.multi_purpose_keys.remove(i), ..s },
                    spec_mp_release(s.multi_purpose_keys[i].1, now),
                    Seq::empty(),
                ),
                None => (s, seq![(key, value)], Seq::empty()),
            },
        },
        ModmapAction::PressReleaseKey(p) => {
            let actions = match value {
                KeyValue::Press => p.press@,
                KeyValue::Release => p.release@,
                KeyValue::Repeat => p.repeat@,
            };
            let (s1, out) = spec_dispatch_actions(
                s,
                actions_view(actions).map_values(|a: ActionSpec| (a, false)),
                key,
            );
            (s1, if p.skip_key_event { Seq::empty() } else { seq![(key, value)] }, out)
        },
    }
}

/// Some key event of `kvs` is a press.
pub open spec fn any_press(kvs: Seq<(u16, KeyValue)>) -> bool {
    exists|i: int| 0 <= i < kvs.len() && (#[trigger] kvs[i]).1 is Press
}

/// Every multi-purpose key is taken as held: the new states and the key
/// events, key after key.
pub open spec fn force_all(mp: Seq<(u16, (Seq<u16>, Seq<u16>, Option<u64>, bool))>) -> (
    Seq<(u16, (Seq<u16>, Seq<u16>, Option<u64>, bool))>,
    Seq<(u16, KeyValue)>,
)
    decreases mp.len(),
{
    if mp.len() == 0 {
        (Seq::empty(), Seq::empty())
    } else {
        let (m1, o1) = force_all(mp.drop_last());
        let (v2, o2) = spec_mp_force_held(mp.last().1);
        (m1.push((mp.last().0, v2)), o1 + o2)
    }
}

/// The key events after a press interrupts the multi-purpose keys: they are
/// all taken as held and their held keys come first; a press among `kvs` of a
/// key that was just pressed that way is dropped.
pub open spec fn spec_flush(s: HandlerState, kvs: Seq<(u16, KeyValue)>) -> (HandlerState, Seq<(u16, KeyValue)>) {
    if any_press(kvs) {
        let (mp, flushed) = force_all(s.multi_purpose_keys);
        (
            HandlerState { multi_purpose_keys: mp, ..s },
            flushed + kvs.filter(|kv: (u16, KeyValue)| !(kv.1 is Press && flushed.contains((kv.0, KeyValue::Press)))),
        )
    } else {
        (s, kvs)
    }
}

/// The keys of the forced states are those of the states.
proof fn lemma_force_all_keys(mp: Seq<(u16, (Seq<u16>, Seq<u16>, Option<u64>, bool))>)
    ensures
        mp_keys(force_all(mp).0) == mp_keys(mp),
    decreases mp.len(),
{
    if mp.len() > 0 {
        lemma_force_all_keys(mp.drop_last());
        let m1 = force_all(mp.drop_last()).0;
        let x = (mp.last().0, spec_mp_force_held(mp.last().1).0);
        assert(force_all(mp).0 == m1.push(x));
        assert(mp_keys(m1.push(x)) =~= mp_keys(m1).push(x.0));
        assert(mp_keys(mp) =~= mp_keys(mp.drop_last()).push(mp.last().0));
    }
}

impl EventHandler {
    /// Where `key` is among the multi-purpose keys that are down.
    fn find_multi_purpose(&self, key: u16) -> (r: Option<usize>)
        requires
            state_wf(self@),
        ensures
            match r {
                Some(i) => mp_index(self@.multi_purpose_keys, key) == Some(i as int),
                None => mp_index(self@.multi_purpose_keys, key) is None,
            },
            r matches Some(i) ==> i < self.multi_purpose_keys@.len() && self.multi_purpose_keys@[i as int].0 == key,
    {
        let mut i: usize = 0;
        while i < self.multi_purpose_keys.len()
            invariant
                i <= self.multi_purpose_keys.len(),
                state_wf(self@),
                forall|j: int| 0 <= j < i ==> (#[trigger] self.multi_purpose_keys@[j]).0 != key,
            decreases self.multi_purpose_keys.len() - i,
        {
            if self.multi_purpose_keys[i].0 == key {
                proof {
                    let s = self@.multi_purpose_keys;
                    assert(s[i as int].0 == key);
                    let c = mp_index(s, key)->0;
                    assert(0 <= c < s.len() && s[c].0 == key);
                    assert(mp_keys(s)[c] == key && mp_keys(s)[i as int] == key);
                    if c < i as int {
                        assert(mp_keys(s)[c] != mp_keys(s)[i as int]);
                    } else if c > i as int {
                        assert(mp_keys(s)[i as int] != mp_keys(s)[c]);
                    }
                    assert(c == i as int);
                }
                return Some(i);
            }
            i = i + 1;
        }
        proof {
            let s = self@.multi_purpose_keys;
            if exists|j: int| 0 <= j < s.len() && (#[trigger] s[j]).0 == key {
                let c = choose|c: int| 0 <= c < s.len() && (#[trigger] s[c]).0 == key;
                assert(self.multi_purpose_keys@[c].0 == key);
            }
        }
        None
    }

    /// Applies the modmap rule `action` of `key` to the key going to `value`
    /// at `now` (see `spec_dispatch_keys`).
    pub fn dispatch_keys(&mut self, action: &ModmapAction, key: u16, value: KeyValue, now: u64) -> (r: (
        Vec<(u16, KeyValue)>,
        Vec<Action>,
    ))
        requires
            state_wf(old(self)@),
        ensures
            state_wf(final(self)@),
            (final(self)@, r.0@, outs_view(r.1@)) == spec_dispatch_keys(old(self)@, *action, key, value, now),
    {
        let ghost s0 = self@;
        let mut actions_out: Vec<Action> = Vec::new();
        proof {
            assert(outs_view(actions_out@) =~= Seq::<ActionOut>::empty());
        }
        match action {
            ModmapAction::Key(modmap_key) => {
                let mut keys: Vec<(u16, KeyValue)> = Vec::new();
                keys.push((*modmap_key, value));
                proof {
                    assert(keys@ =~= seq![(*modmap_key, value)]);
                }
                (keys, actions_out)
            },
            ModmapAction::Keys(modmap_keys) => {
                let mut keys: Vec<(u16, KeyValue)> = Vec::new();
                let mut i: usize = 0;
                while i < modmap_keys.len()
                    invariant
                        i <= modmap_keys.len(),
                        keys@ == modmap_keys@.take(i as int).map_values(|k: u16| (k, value)),
                    decreases modmap_keys.len() - i,
                {
                    proof {
                        assert(modmap_keys@.take(i + 1).map_values(|k: u16| (k, value)) =~= modmap_keys@.take(
                            i as int,
                        ).map_values(|k: u16| (k, value)).push((modmap_keys@[i as int], value)));
                    }
                    keys.push((modmap_keys[i], value));
                    i = i + 1;
                }
                proof {
                    assert(modmap_keys@.take(modmap_keys@.len() as int) =~= modmap_keys@);
                }
                (keys, actions_out)
            },
            ModmapAction::MultiPurposeKey(m) => {
                let found = self.find_multi_purpose(key);
                match value {
                    KeyValue::Press => {
                        let deadline: u64 = if (now as u128) + (m.alone_timeout_ms as u128) * 1_000_000
                            > 0xffff_ffff_ffff_ffff {
                            0xffff_ffff_ffff_ffff
                        } else {
                            now + m.alone_timeout_ms * 1_000_000
                        };
                        let state = MultiPurposeKeyState {
                            held: crate::util::clone_keys(&m.held),
                            alone: crate::util::clone_keys(&m.alone),
                            alone_timeout_at: if m.free_hold {
                                None
                            } else {
                                Some(deadline)
                            },
                            held_down: false,
                        };
                        let ghost v = state@;
                        assert(deadline == tap_deadline(now, m.alone_timeout_ms));
                        assert(v == (
                            m.held@,
                            m.alone@,
                            if m.free_hold {
                                None
                            } else {
                                Some(tap_deadline(now, m.alone_timeout_ms))
                            },
                            false,
                        ));
                        match found {
                            Some(i) => {
                                self.multi_purpose_keys.set(i, (key, state));
                                proof {
                                    assert(self@.multi_purpose_keys =~= s0.multi_purpose_keys.update(
                                        i as int,
                                        (key, v),
                                    ));
                                    assert(mp_keys(self@.multi_purpose_keys) =~= mp_keys(s0.multi_purpose_keys));
                                }
                            },
                            None => {
                                self.multi_purpose_keys.push((key, state));
                                proof {
                                    assert(self@.multi_purpose_keys =~= s0.multi_purpose_keys.push((key, v)));
                                    let ks = mp_keys(self@.multi_purpose_keys);
                                    assert(ks =~= mp_keys(s0.multi_purpose_keys).push(key));
                                    assert forall|a: int, b: int| 0 <= a < b < ks.len() implies ks[a] != ks[b] by {
                                        if b == ks.len() - 1 {
                                            assert(s0.multi_purpose_keys[a].0 == ks[a]);
                                        }
                                    }
                                }
                            },
                        }
                        let keys: Vec<(u16, KeyValue)> = Vec::new();
                        proof {
                            assert(keys@ =~= Seq::<(u16, KeyValue)>::empty());
                        }
                        (keys, actions_out)
                    },
                    KeyValue::Repeat => {
                        match found {
                            Some(i) => {
                                let (k, mut state) = self.multi_purpose_keys.remove(i);
                                proof {
                                    assert(s0.multi_purpose_keys[i as int] == (k, state@));
                                }
                                let out = state.repeat(now);
                                self.multi_purpose_keys.insert(i, (k, state));
                                proof {
                                    assert(self@.multi_purpose_keys =~= s0.multi_purpose_keys.update(
                                        i as int,
                                        (key, state@),
                                    ));
                                    assert(mp_keys(self@.multi_purpose_keys) =~= mp_keys(s0.multi_purpose_keys));
                                }
                                (out, actions_out)
                            },
                            None => {
                                let mut keys: Vec<(u16, KeyValue)> = Vec::new();
                                keys.push((key, value));
                                proof {
                                    assert(keys@ =~= seq![(key, value)]);
                                }
                                (keys, actions_out)
                            },
                        }
                    },
                    KeyValue::Release => {
                        match found {
                            Some(i) => {
                                let (k, state) = self.multi_purpose_keys.remove(i);
                                proof {
                                    assert(s0.multi_purpose_keys[i as int] == (k, state@));
                                    assert(self@.multi_purpose_keys =~= s0.multi_purpose_keys.remove(i as int));
                                    let ks = mp_keys(self@.multi_purpose_keys);
                                    let ks0 = mp_keys(s0.multi_purpose_keys);
                                    assert(ks =~= ks0.remove(i as int));
                                    assert forall|a: int, b: int| 0 <= a < b < ks.len() implies ks[a] != ks[b] by {
                                        let a0 = if a < i { a } else { a + 1 };
                                        let b0 = if b < i { b } else { b + 1 };
                                        assert(ks[a] == ks0[a0] && ks[b] == ks0[b0]);
                                    }
                                }
                                (state.release(now), actions_out)
                            },
                            None => {
                                let mut keys: Vec<(u16, KeyValue)> = Vec::new();
                                keys.push((key, value));
                                proof {
                                    assert(keys@ =~= seq![(key, value)]);
                                }
                                (keys, actions_out)
                            },
                        }
                    },
                }
            },
            ModmapAction::PressReleaseKey(p) => {
                let actions_to_dispatch = match value {
                    KeyValue::Press => &p.press,
                    KeyValue::Release => &p.release,
                    KeyValue::Repeat => &p.repeat,
                };
                let tagged = tag_actions(actions_to_dispatch);
                let dispatched = self.dispatch_actions(&tagged, key);
                let mut keys: Vec<(u16, KeyValue)> = Vec::new();
                if !p.skip_key_event {
                    keys.push((key, value));
                }
                proof {
                    if p.skip_key_event {
                        assert(keys@ =~= Seq::<(u16, KeyValue)>::empty());
                    } else {
                        assert(keys@ =~= seq![(key, value)]);
                    }
                }
                (keys, dispatched)
            },
        }
    }

    /// A press interrupts the multi-purpose keys (see `spec_flush`).
    pub fn flush_timeout_keys(&mut self, key_values: Vec<(u16, KeyValue)>) -> (r: Vec<(u16, KeyValue)>)
        requires
            state_wf(old(self)@),
        ensures
            state_wf(final(self)@),
            (final(self)@, r@) == spec_flush(old(self)@, key_values@),
    {
        let ghost s0 = self@;
        let mut flush = false;
        let mut i: usize = 0;
        while i < key_values.len()
            invariant
                i <= key_values.len(),
                flush ==> any_press(key_values@),
                !flush ==> forall|j: int| 0 <= j < i ==> !((#[trigger] key_values@[j]).1 is Press),
            decreases key_values.len() - i,
        {
            if key_values[i].1 == KeyValue::Press {
                assert(key_values@[i as int].1 is Press);
                flush = true;
            }
            i = i + 1;
        }
        if !flush {
            return key_values;
        }
        let mut flushed: Vec<(u16, KeyValue)> = Vec::new();
        let mut j: usize = 0;
        proof {
            assert(self@.multi_purpose_keys.take(0) =~= force_all(s0.multi_purpose_keys.take(0)).0);
            assert(flushed@ =~= force_all(s0.multi_purpose_keys.take(0)).1);
        }
        while j < self.multi_purpose_keys.len()
            invariant
                j <= self.multi_purpose_keys.len(),
                self.multi_purpose_keys@.len() == s0.multi_purpose_keys.len(),
                self@.multi_purpose_keys.take(j as int) == force_all(s0.multi_purpose_keys.take(j as int)).0,
                self@.multi_purpose_keys.skip(j as int) == s0.multi_purpose_keys.skip(j as int),
                flushed@ == force_all(s0.multi_purpose_keys.take(j as int)).1,
                self@ == (HandlerState { multi_purpose_keys: self@.multi_purpose_keys, ..s0 }),
            decreases self.multi_purpose_keys.len() - j,
        {
            let ghost before = self@.multi_purpose_keys;
            let (k, mut state) = self.multi_purpose_keys.remove(j);
            proof {
                assert(before[j as int] == s0.multi_purpose_keys[j as int]) by {
                    assert(before.skip(j as int)[0] == s0.multi_purpose_keys.skip(j as int)[0]);
                }
            }
            let mut out = state.force_held();
            self.multi_purpose_keys.insert(j, (k, state));
            flushed.append(&mut out);
            proof {
                let t = s0.multi_purpose_keys.take(j + 1);
                assert(t.drop_last() =~= s0.multi_purpose_keys.take(j as int));
                assert(t.last() == s0.multi_purpose_keys[j as int]);
                assert(self@.multi_purpose_keys =~= before.update(j as int, (k, state@)));
                assert(self@.multi_purpose_keys.take(j + 1) =~= force_all(t).0);
                assert forall|idx: int| 0 <= idx < self@.multi_purpose_keys.len() - (j + 1) implies #[trigger] self@.multi_purpose_keys.skip(
                    j + 1,
                )[idx] == s0.multi_purpose_keys.skip(j + 1)[idx] by {
                    assert(before.skip(j as int)[idx + 1] == s0.multi_purpose_keys.skip(j as int)[idx + 1]);
                }
                assert(self@.multi_purpose_keys.skip(j + 1) =~= s0.multi_purpose_keys.skip(j + 1));
            }
            j = j + 1;
        }
        proof {
            assert(s0.multi_purpose_keys.take(s0.multi_purpose_keys.len() as int) =~= s0.multi_purpose_keys);
            assert(self@.multi_purpose_keys =~= self@.multi_purpose_keys.take(j as int));
            lemma_force_all_keys(s0.multi_purpose_keys);
        }
        let ghost fl = flushed@;
        let mut result = flushed;
        let fl_len = result.len();
        let mut k: usize = 0;
        while k < key_values.len()
            invariant
                k <= key_values.len(),
                fl_len == fl.len(),
                result@ == fl + key_values@.take(k as int).filter(
                    |kv: (u16, KeyValue)| !(kv.1 is Press && fl.contains((kv.0, KeyValue::Press))),
                ),
            decreases key_values.len() - k,
        {
            proof {
                reveal_with_fuel(Seq::<_>::filter, 1);
                assert(key_values@.take(k + 1).drop_last() =~= key_values@.take(k as int));
            }
            let kv = key_values[k];
            proof {
                assert(result@.take(fl_len as int) =~= fl);
            }
            let dropped = kv.1 == KeyValue::Press && pair_listed(&result, fl_len, kv.0);
            if !dropped {
                result.push(kv);
            }
            proof {
                let f = |kv: (u16, KeyValue)| !(kv.1 is Press && fl.contains((kv.0, KeyValue::Press)));
                assert(result@ =~= fl + key_values@.take(k + 1).filter(f));
            }
            k = k + 1;
        }
        proof {
            assert(key_values@.take(key_values@.len() as int) =~= key_values@);
            assert(any_press(key_values@));
        }
        result
    }
}

/// Whether the first `n` key events of `kvs` hold a press of `key`.
fn pair_listed(kvs: &Vec<(u16, KeyValue)>, n: usize, key: u16) -> (r: bool)
    requires
        n <= kvs@.len(),
    ensures
        r == kvs@.take(n as int).contains((key, KeyValue::Press)),
{
    let mut i: usize = 0;
    while i < n
        invariant
            i <= n,
            n <= kvs@.len(),
            forall|j: int| 0 <= j < i ==> kvs@[j] != (key, KeyValue::Press),
        decreases n - i,
    {
        if kvs[i].0 == key && kvs[i].1 == KeyValue::Press {
            assert(kvs@.take(n as int)[i as int] == (key, KeyValue::Press));
            return true;
        }
        i = i + 1;
    }
    proof {
        if kvs@.take(n as int).contains((key, KeyValue::Press)) {
            let c = choose|c: int| 0 <= c < n && kvs@.take(n as int)[c] == (key, KeyValue::Press);
            assert(kvs@[c] == (key, KeyValue::Press));
        }
    }
    false
}

/// Tags keymap actions with no exact match.
fn tag_actions(actions: &Vec<KeymapAction>) -> (r: Vec<TaggedAction>)
    ensures
        tagged_view(r@) == actions_view(actions@).map_values(|a: ActionSpec| (a, false)),
{
    let copies = duplicate_actions(actions);
    let mut out: Vec<TaggedAction> = Vec::new();
    let mut i: usize = 0;
    while i < copies.len()
        invariant
            i <= copies.len(),
            actions_view(copies@) == actions_view(actions@),
            tagged_view(out@) == actions_view(copies@).take(i as int).map_values(|a: ActionSpec| (a, false)),
        decreases copies.len() - i,
    {
        let a = copies[i].duplicate();
        let ghost before = tagged_view(out@);
        out.push(TaggedAction { action: a, exact_match: false });
        proof {
            assert(actions_view(copies@)[i as int] == copies@[i as int]@);
            assert(tagged_view(out@) =~= before.push((a@, false)));
            assert(actions_view(copies@).take(i + 1).map_values(|a: ActionSpec| (a, false)) =~= actions_view(
                copies@,
            ).take(i as int).map_values(|a: ActionSpec| (a, false)).push((a@, false)));
        }
        i = i + 1;
    }
    proof {
        assert(actions_view(copies@).take(copies@.len() as int) =~= actions_view(actions@));
    }
    out
}

} // verus!

verus! {

/// A modmap rule turns its key into the target key (or keys, in order), in
/// the same key state, and changes nothing else; a press/release rule passes
/// the key itself on unless it skips it; a multi-purpose key emits nothing
/// when pressed.
pub proof fn law_modmap_targets(s: HandlerState, action: ModmapAction, key: u16, value: KeyValue, now: u64)
    ensures
        action matches ModmapAction::Key(k) ==> spec_dispatch_keys(s, action, key, value, now) == (
            s,
            seq![(k, value)],
            Seq::<ActionOut>::empty(),
        ),
        action matches ModmapAction::Keys(ks) ==> ({
            let r = spec_dispatch_keys(s, action, key, value, now);
            &&& r.0 == s
            &&& r.1.len() == ks@.len()
            &&& forall|i: int| 0 <= i < ks@.len() ==> #[trigger] r.1[i] == (ks@[i], value)
            &&& r.2.len() == 0
        }),
        action matches ModmapAction::PressReleaseKey(p) ==> spec_dispatch_keys(s, action, key, value, now).1 == if p.skip_key_event {
            Seq::<(u16, KeyValue)>::empty()
        } else {
            seq![(key, value)]
        },
        action is MultiPurposeKey && value is Press ==> spec_dispatch_keys(s, action, key, value, now).1.len() == 0,
{
}

} // verus!
