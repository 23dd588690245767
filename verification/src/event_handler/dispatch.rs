use super::matching::{contains_modifier, spec_contains_modifier, spec_extra_modifiers, spec_missing_modifiers};
use super::overrides::{build_override_table, spec_override_table};
use super::{state_wf, tagged_view, EventHandler, HandlerState, TaggedAction, TimerCommand};
use crate::action::{outs_view, Action, ActionOut};
use crate::event::KeyEvent;
use crate::keymap::{clone_modifiers, clone_strings, ActionSpec, KeyPress, KeymapAction, Modifier, Remap};
use crate::keys::{is_modifier, is_modifier_key, KeyValue, KEY_LEFTSHIFT, KEY_RIGHTSHIFT};
use crate::util::{clone_keys, insert_key, no_dups, set_insert, vec_contains};
use std::rc::Rc;
use vstd::prelude::*;

verus! {

/// The action that emits `key` in state `value`.
pub open spec fn key_action(key: u16, value: KeyValue) -> ActionOut {
    ActionOut::KeyEvent(KeyEvent { key, value })
}

/// The actions that emit each of `keys` in state `value`.
pub open spec fn keys_actions(keys: Seq<u16>, value: KeyValue) -> Seq<ActionOut> {
    keys.map_values(|k: u16| key_action(k, value))
}

/// The held modifiers to release around an emitted combination: held
/// modifier keys that it does not ask for and that are not already released
/// virtually.
pub open spec fn release_around(s: HandlerState, modifiers: Seq<Modifier>) -> Seq<u16> {
    spec_extra_modifiers(s.modifiers, modifiers).filter(|k: u16| is_modifier(k) && !s.extra_modifiers.contains(k))
}

/// The modifier keys to press around an emitted combination.
pub open spec fn press_around(s: HandlerState, modifiers: Seq<Modifier>) -> Seq<u16> {
    spec_missing_modifiers(s.modifiers, modifiers).filter(|k: u16| is_modifier(k))
}

/// Emitting the combination `kp`: press the missing modifiers, release the
/// extra ones, tap the key, pause, restore the extra modifiers, pause, and
/// release the missing ones.
pub open spec fn spec_press_and_release(s: HandlerState, kp: (u16, Seq<Modifier>)) -> Seq<ActionOut> {
    let extra = release_around(s, kp.1);
    let missing = press_around(s, kp.1);
    keys_actions(missing, KeyValue::Press) + keys_actions(extra, KeyValue::Release) + seq![
        key_action(kp.0, KeyValue::Press),
        key_action(kp.0, KeyValue::Release),
        ActionOut::Delay(s.keypress_delay_ms),
    ] + keys_actions(extra, KeyValue::Press) + seq![ActionOut::Delay(s.keypress_delay_ms)] + keys_actions(
        missing,
        KeyValue::Release,
    )
}

/// The combination `kp` with shift added when the mark is set and the
/// combination asks for no shift key.
pub open spec fn spec_with_mark(s: HandlerState, kp: (u16, Seq<Modifier>)) -> (u16, Seq<Modifier>) {
    if s.mark_set && !spec_contains_modifier(kp.1, KEY_LEFTSHIFT) && !spec_contains_modifier(kp.1, KEY_RIGHTSHIFT) {
        (kp.0, kp.1.push(Modifier::Shift))
    } else {
        kp
    }
}

/// The keys of `keys`, each once, in the order of first occurrence.
pub open spec fn dedup(keys: Seq<u16>) -> Seq<u16>
    decreases keys.len(),
{
    if keys.len() == 0 {
        Seq::empty()
    } else {
        set_insert(dedup(keys.drop_last()), keys.last())
    }
}

/// The state after a nested remap is entered by `key`: its table is added;
/// for the first one, the timer is armed when it has a timeout, and its
/// timeout keys (or else `key`) are kept.
pub open spec fn spec_push_remap(s: HandlerState, r: Remap, exact_match: bool, key: u16) -> HandlerState {
    let set_timeout = s.override_remaps.len() == 0;
    let s1 = HandlerState {
        override_remaps: s.override_remaps.push(spec_override_table(r.remap@, exact_match)),
        ..s
    };
    match r.timeout_ms {
        Some(t) => if set_timeout {
            HandlerState {
                timer: s1.timer.push(TimerCommand::Disarm).push(TimerCommand::Arm(t)),
                override_timeout_key: Some(
                    match r.timeout_key {
                        Some(k) => k@,
                        None => seq![key],
                    },
                ),
                ..s1
            }
        } else {
            s1
        },
        None => s1,
    }
}

/// The state and the actions after the tagged action `action` of `key`.
pub open spec fn spec_dispatch_action(s: HandlerState, action: (ActionSpec, bool), key: u16) -> (
    HandlerState,
    Seq<ActionOut>,
) {
    match action.0 {
        ActionSpec::KeyPressAndRelease(kp) => (s, spec_press_and_release(s, kp)),
        ActionSpec::KeyPress(k) => (s, seq![key_action(k, KeyValue::Press)]),
        ActionSpec::KeyRepeat(k) => (s, seq![key_action(k, KeyValue::Repeat)]),
        ActionSpec::KeyRelease(k) => (s, seq![key_action(k, KeyValue::Release)]),
        ActionSpec::Remap(r) => (spec_push_remap(s, *r, action.1, key), Seq::empty()),
        ActionSpec::Launch(c) => (s, seq![ActionOut::Command(c)]),
        ActionSpec::SetMode(m) => (HandlerState { mode: m, ..s }, Seq::empty()),
        ActionSpec::SetMark(b) => (HandlerState { mark_set: b, ..s }, Seq::empty()),
        ActionSpec::WithMark(kp) => (s, spec_press_and_release(s, spec_with_mark(s, kp))),
        ActionSpec::EscapeNextKey(b) => (HandlerState { escape_next_key: b, ..s }, Seq::empty()),
        ActionSpec::Sleep(ms) => (s, seq![ActionOut::Delay(ms)]),
        ActionSpec::SetExtraModifiers(keys) => (HandlerState { extra_modifiers: dedup(keys), ..s }, Seq::empty()),
    }
}

/// The state and the actions after the tagged actions of `key`, in order.
pub open spec fn spec_dispatch_actions(s: HandlerState, actions: Seq<(ActionSpec, bool)>, key: u16) -> (
    HandlerState,
    Seq<ActionOut>,
)
    decreases actions.len(),
{
    if actions.len() == 0 {
        (s, Seq::empty())
    } else {
        let (s1, out1) = spec_dispatch_actions(s, actions.drop_last(), key);
        let (s2, out2) = spec_dispatch_action(s1, actions.last(), key);
        (s2, out1 + out2)
    }
}

/// The actions that emit each of `keys` in state `value`.
pub fn send_keys(keys: &Vec<u16>, value: KeyValue) -> (r: Vec<Action>)
    ensures
        outs_view(r@) == keys_actions(keys@, value),
{
    let mut out: Vec<Action> = Vec::new();
    let mut i: usize = 0;
    while i < keys.len()
        invariant
            i <= keys.len(),
            outs_view(out@) == keys_actions(keys@.take(i as int), value),
        decreases keys.len() - i,
    {
        let ghost o = out@;
        out.push(send_key(keys[i], value));
        proof {
            assert(outs_view(out@) =~= outs_view(o).push(key_action(keys@[i as int], value)));
            assert(keys_actions(keys@.take(i + 1), value) =~= keys_actions(keys@.take(i as int), value).push(
                key_action(keys@[i as int], value),
            ));
        }
        i = i + 1;
    }
    proof {
        assert(keys@.take(keys@.len() as int) =~= keys@);
    }
    out
}

/// The action that emits `key` in state `value`.
pub fn send_key(key: u16, value: KeyValue) -> (r: Action)
    ensures
        r@ == key_action(key, value),
{
    Action::KeyEvent(KeyEvent::new(key, value))
}

/// The modifier keys of `keys` that are not in `exclude`.
fn modifier_keys_not_in(keys: &Vec<u16>, exclude: &Vec<u16>) -> (r: Vec<u16>)
    ensures
        r@ == keys@.filter(|k: u16| is_modifier(k) && !exclude@.contains(k)),
{
    let mut out: Vec<u16> = Vec::new();
    let mut i: usize = 0;
    while i < keys.len()
        invariant
            i <= keys.len(),
            out@ == keys@.take(i as int).filter(|k: u16| is_modifier(k) && !exclude@.contains(k)),
        decreases keys.len() - i,
    {
        proof {
            reveal_with_fuel(Seq::<_>::filter, 1);
            assert(keys@.take(i + 1).drop_last() =~= keys@.take(i as int));
        }
        let k = keys[i];
        if is_modifier_key(k) && !vec_contains(exclude, k) {
            out.push(k);
        }
        i = i + 1;
    }
    proof {
        assert(keys@.take(keys@.len() as int) =~= keys@);
    }
    out
}

/// Appends `more` to `out`.
fn extend(out: &mut Vec<Action>, more: Vec<Action>)
    ensures
        outs_view(final(out)@) == outs_view(old(out)@) + outs_view(more@),
{
    crate::action::append_actions(out, more);
}

impl EventHandler {
    /// Emits the combination `key_press`, with the modifiers set as it asks
    /// and restored afterwards.
    pub fn send_key_press_and_release(&self, key_press: &KeyPress) -> (r: Vec<Action>)
        ensures
            outs_view(r@) == spec_press_and_release(self@, key_press@),
    {
        let (extra_modifiers, missing_modifiers) = self.diff_modifiers(&key_press.modifiers);
        let empty: Vec<u16> = Vec::new();
        let extra = modifier_keys_not_in(&extra_modifiers, &self.extra_modifiers);
        let missing = modifier_keys_not_in(&missing_modifiers, &empty);
        proof {
            assert(missing@ =~= press_around(self@, key_press@.1)) by {
                assert(missing_modifiers@.filter(|k: u16| is_modifier(k) && !empty@.contains(k)) =~= missing_modifiers@.filter(
                    |k: u16| is_modifier(k),
                )) by {
                    assert forall|k: u16| (is_modifier(k) && !empty@.contains(k)) == is_modifier(k) by {}
                    assert((|k: u16| is_modifier(k) && !empty@.contains(k)) =~= (|k: u16| is_modifier(k)));
                }
            }
        }
        let mut out: Vec<Action> = Vec::new();
        extend(&mut out, send_keys(&missing, KeyValue::Press));
        extend(&mut out, send_keys(&extra, KeyValue::Release));
        let ghost o1 = out@;
        out.push(send_key(key_press.key, KeyValue::Press));
        out.push(send_key(key_press.key, KeyValue::Release));
        out.push(Action::Delay(self.keypress_delay_ms));
        proof {
            assert(outs_view(out@) =~= outs_view(o1) + seq![
                key_action(key_press.key, KeyValue::Press),
                key_action(key_press.key, KeyValue::Release),
                ActionOut::Delay(self.keypress_delay_ms),
            ]);
        }
        extend(&mut out, send_keys(&extra, KeyValue::Press));
        let ghost o2 = out@;
        out.push(Action::Delay(self.keypress_delay_ms));
        proof {
            assert(outs_view(out@) =~= outs_view(o2) + seq![ActionOut::Delay(self.keypress_delay_ms)]);
        }
        extend(&mut out, send_keys(&missing, KeyValue::Release));
        proof {
            let kp = key_press@;
            assert(outs_view(out@) =~= spec_press_and_release(self@, kp));
        }
        out
    }

    /// The combination `key_press`, with shift added when the mark is set and
    /// the combination asks for no shift key.
    pub fn with_mark(&self, key_press: &KeyPress) -> (r: KeyPress)
        ensures
            r@ == spec_with_mark(self@, key_press@),
    {
        if self.mark_set && !contains_modifier(&key_press.modifiers, KEY_LEFTSHIFT) && !contains_modifier(
            &key_press.modifiers,
            KEY_RIGHTSHIFT,
        ) {
            let mut modifiers = clone_modifiers(&key_press.modifiers);
            modifiers.push(Modifier::Shift);
            KeyPress { key: key_press.key, modifiers }
        } else {
            key_press.duplicate()
        }
    }

    /// Enters the nested remap `remap`, reached by `key`.
    fn push_remap(&mut self, remap: &Rc<Remap>, exact_match: bool, key: u16)
        requires
            state_wf(old(self)@),
        ensures
            state_wf(final(self)@),
            final(self)@ == spec_push_remap(old(self)@, **remap, exact_match, key),
    {
        let set_timeout = self.override_remaps.len() == 0;
        let ghost s0 = self@;
        let table = build_override_table(&remap.remap, exact_match);
        self.override_remaps.push(table);
        proof {
            assert(self@.override_remaps =~= s0.override_remaps.push(spec_override_table(remap.remap@, exact_match)));
        }
        if set_timeout {
            if let Some(timeout) = remap.timeout_ms {
                self.timer_commands.push(TimerCommand::Disarm);
                self.timer_commands.push(TimerCommand::Arm(timeout));
                self.override_timeout_key = match &remap.timeout_key {
                    Some(keys) => Some(clone_keys(keys)),
                    None => {
                        let mut keys: Vec<u16> = Vec::new();
                        keys.push(key);
                        Some(keys)
                    },
                };
                proof {
                    assert(self@.override_timeout_key == spec_push_remap(s0, **remap, exact_match, key).override_timeout_key);
                    assert(self@.timer =~= spec_push_remap(s0, **remap, exact_match, key).timer);
                }
            }
        }
    }

    /// Sets the virtually released modifiers to `keys` (each once).
    fn set_extra_modifiers(&mut self, keys: &Vec<u16>)
        requires
            state_wf(old(self)@),
        ensures
            state_wf(final(self)@),
            final(self)@ == (HandlerState { extra_modifiers: dedup(keys@), ..old(self)@ }),
    {
        self.extra_modifiers.clear();
        let mut i: usize = 0;
        proof {
            assert(self.extra_modifiers@ =~= dedup(keys@.take(0)));
        }
        while i < keys.len()
            invariant
                i <= keys.len(),
                self.extra_modifiers@ == dedup(keys@.take(i as int)),
                no_dups(self.extra_modifiers@),
                self@ == (HandlerState { extra_modifiers: self.extra_modifiers@, ..old(self)@ }),
                state_wf(HandlerState { extra_modifiers: Seq::empty(), ..old(self)@ }),
            decreases keys.len() - i,
        {
            proof {
                assert(keys@.take(i + 1).drop_last() =~= keys@.take(i as int));
            }
            insert_key(&mut self.extra_modifiers, keys[i]);
            i = i + 1;
        }
        proof {
            assert(keys@.take(keys@.len() as int) =~= keys@);
        }
    }

    /// Runs one tagged action of `key`.
    pub fn dispatch_action(&mut self, action: &TaggedAction, key: u16) -> (r: Vec<Action>)
        requires
            state_wf(old(self)@),
        ensures
            state_wf(final(self)@),
            (final(self)@, outs_view(r@)) == spec_dispatch_action(old(self)@, action@, key),
    {
        let mut out: Vec<Action> = Vec::new();
        match &action.action {
            KeymapAction::KeyPressAndRelease(key_press) => {
                out = self.send_key_press_and_release(key_press);
            },
            KeymapAction::KeyPress(k) => {
                out.push(send_key(*k, KeyValue::Press));
                proof {
                    assert(outs_view(out@) =~= seq![key_action(*k, KeyValue::Press)]);
                }
            },
            KeymapAction::KeyRepeat(k) => {
                out.push(send_key(*k, KeyValue::Repeat));
                proof {
                    assert(outs_view(out@) =~= seq![key_action(*k, KeyValue::Repeat)]);
                }
            },
            KeymapAction::KeyRelease(k) => {
                out.push(send_key(*k, KeyValue::Release));
                proof {
                    assert(outs_view(out@) =~= seq![key_action(*k, KeyValue::Release)]);
                }
            },
            KeymapAction::Remap(remap) => {
                self.push_remap(remap, action.exact_match, key);
                proof {
                    assert(outs_view(out@) =~= Seq::<ActionOut>::empty());
                }
            },
            KeymapAction::Launch(command) => {
                out.push(Action::Command(clone_strings(command)));
                proof {
                    assert(outs_view(out@) =~= seq![ActionOut::Command(crate::keymap::strings_view(command@))]);
                }
            },
            KeymapAction::SetMode(mode) => {
                self.mode = mode.clone();
                proof {
                    assert(outs_view(out@) =~= Seq::<ActionOut>::empty());
                }
            },
            KeymapAction::SetMark(set) => {
                self.mark_set = *set;
                proof {
                    assert(outs_view(out@) =~= Seq::<ActionOut>::empty());
                }
            },
            KeymapAction::WithMark(key_press) => {
                let marked = self.with_mark(key_press);
                out = self.send_key_press_and_release(&marked);
            },
            KeymapAction::EscapeNextKey(escape) => {
                self.escape_next_key = *escape;
                proof {
                    assert(outs_view(out@) =~= Seq::<ActionOut>::empty());
                }
            },
            KeymapAction::Sleep(millis) => {
                out.push(Action::Delay(*millis));
                proof {
                    assert(outs_view(out@) =~= seq![ActionOut::Delay(*millis)]);
                }
            },
            KeymapAction::SetExtraModifiers(keys) => {
                self.set_extra_modifiers(keys);
                proof {
                    assert(outs_view(out@) =~= Seq::<ActionOut>::empty());
                }
            },
        }
        out
    }

    /// Runs the tagged actions of `key` in order.
    pub fn dispatch_actions(&mut self, actions: &Vec<TaggedAction>, key: u16) -> (r: Vec<Action>)
        requires
            state_wf(old(self)@),
        ensures
            state_wf(final(self)@),
            (final(self)@, outs_view(r@)) == spec_dispatch_actions(old(self)@, tagged_view(actions@), key),
    {
        let ghost s0 = self@;
        let mut out: Vec<Action> = Vec::new();
        let mut i: usize = 0;
        proof {
            assert(tagged_view(actions@.take(0)) =~= Seq::<(ActionSpec, bool)>::empty());
        }
        while i < actions.len()
            invariant
                i <= actions.len(),
                state_wf(self@),
                (self@, outs_view(out@)) == spec_dispatch_actions(s0, tagged_view(actions@.take(i as int)), key),
            decreases actions.len() - i,
        {
            proof {
                assert(tagged_view(actions@.take(i + 1)).drop_last() =~= tagged_view(actions@.take(i as int)));
                assert(tagged_view(actions@.take(i + 1)).last() == actions@[i as int]@);
            }
            let more = self.dispatch_action(&actions[i], key);
            extend(&mut out, more);
            i = i + 1;
        }
        proof {
            assert(actions@.take(actions@.len() as int) =~= actions@);
        }
        out
    }
}

} // verus!

verus! {

/// Entering a nested remap with a timeout from a state without one arms the
/// timer; when the timer runs out, the remap is dropped, the timer disarmed,
/// and its timeout keys (or, without them, the key that entered it) are tapped.
pub proof fn law_nested_remap_lapses(s: HandlerState, r: Remap, exact_match: bool, key: u16, timeout_ms: u64)
    requires
        s.override_remaps.len() == 0,
        r.timeout_ms == Some(timeout_ms),
    ensures
        ({
            let s1 = spec_push_remap(s, r, exact_match, key);
            let (s2, out) = super::overrides::spec_timeout_override(s1);
            &&& s1.override_remaps.len() == 1
            &&& s1.timer == s.timer.push(TimerCommand::Disarm).push(TimerCommand::Arm(timeout_ms))
            &&& s2.override_remaps.len() == 0
            &&& s2.override_timeout_key is None
            &&& s2.timer.last() == TimerCommand::Disarm
            &&& out == super::overrides::tap_actions(
                match r.timeout_key {
                    Some(k) => k@,
                    None => seq![key],
                },
            )
        }),
{
}

} // verus!
