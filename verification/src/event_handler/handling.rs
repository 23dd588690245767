use super::dispatch::{key_action, spec_dispatch_actions};
use super::lookup::spec_find_keymap;
use super::matching::first_modmap;
use super::modmap_keys::{spec_dispatch_keys, spec_flush};
use super::overrides::spec_timeout_override;
use super::state::{spec_maintain_pressed, spec_update_modifier};
use super::{state_wf, EventHandler, HandlerState, KeyOutcome, RelativeHandling};
use crate::action::{outs_view, Action, ActionOut};
use crate::clock::now_nanos;
use crate::event::{spec_disguised_key, Event, InputDeviceInfo, KeyEvent, RelativeEvent};
use crate::keymap::Config;
use crate::keys::{is_modifier, is_modifier_key, KeyValue, DISGUISED_EVENT_OFFSETTER, KEY_MATCH_ANY, MAX_DISGUISABLE_CODE};
use crate::main_controller::WMClient;
use crate::util::vec_contains;
use std::rc::Rc;
use vstd::prelude::*;

verus! {

/// The last part of handling a key event: a key event that is the disguised
/// key of the relative event being handled is not emitted, and the original
/// relative event is sent instead; any other key event is emitted.
pub open spec fn emit_or_send(s: HandlerState, k: u16, v: KeyValue, event: KeyEvent, acc: Seq<ActionOut>) -> (
    HandlerState,
    Seq<ActionOut>,
    bool,
) {
    if k >= DISGUISED_EVENT_OFFSETTER && k == event.key && v == event.value {
        (s, acc, true)
    } else {
        (s, acc.push(key_action(k, v)), false)
    }
}

/// The handling of one key event (`k`, `v`) that the modmap gave for `event`:
///   - a virtual modifier only updates the held modifiers;
///   - a modifier updates them and is emitted;
///   - a pressed or repeated key is skipped by the keymap once after an
///     escape; else the keymap's actions for the key, or for any key, run in
///     its place; else it is emitted;
///   - anything else is emitted.
pub open spec fn spec_key_step(
    s: HandlerState,
    k: u16,
    v: KeyValue,
    event: KeyEvent,
    config: Config,
    device: InputDeviceInfo,
    wm: WMClient,
) -> (HandlerState, Seq<ActionOut>, bool) {
    if config.virtual_modifiers@.contains(k) {
        (HandlerState { modifiers: spec_update_modifier(s.modifiers, k, v), ..s }, Seq::empty(), false)
    } else if is_modifier(k) {
        emit_or_send(
            HandlerState { modifiers: spec_update_modifier(s.modifiers, k, v), ..s },
            k,
            v,
            event,
            Seq::empty(),
        )
    } else if v is Press || v is Repeat {
        if s.escape_next_key {
            emit_or_send(HandlerState { escape_next_key: false, ..s }, k, v, event, Seq::empty())
        } else {
            let (s1, a1, t1) = spec_find_keymap(s, config, k, device, wm);
            match t1 {
                Some(tagged) => {
                    let (s2, a2) = spec_dispatch_actions(s1, tagged, k);
                    (s2, a1 + a2, false)
                },
                None => {
                    let (s2, a2, t2) = spec_find_keymap(s1, config, KEY_MATCH_ANY, device, wm);
                    match t2 {
                        Some(tagged) => {
                            let (s3, a3) = spec_dispatch_actions(s2, tagged, KEY_MATCH_ANY);
                            (s3, a1 + a2 + a3, false)
                        },
                        None => emit_or_send(s2, k, v, event, a1 + a2),
                    }
                },
            }
        }
    } else {
        emit_or_send(s, k, v, event, Seq::empty())
    }
}

/// The handling of the key events `kvs` in order; whether any sent the
/// original relative event.
pub open spec fn spec_key_steps(
    s: HandlerState,
    kvs: Seq<(u16, KeyValue)>,
    event: KeyEvent,
    config: Config,
    device: InputDeviceInfo,
    wm: WMClient,
) -> (HandlerState, Seq<ActionOut>, bool)
    decreases kvs.len(),
{
    if kvs.len() == 0 {
        (s, Seq::empty(), false)
    } else {
        let (s1, a1, b1) = spec_key_steps(s, kvs.drop_last(), event, config, device, wm);
        let (s2, a2, b2) = spec_key_step(s1, kvs.last().0, kvs.last().1, event, config, device, wm);
        (s2, a1 + a2, b1 || b2)
    }
}

/// The handling of a key event at `now`: the modmap turns it into key events
/// (and actions), pressed keys are tracked, a press interrupts the
/// multi-purpose keys, and each resulting key event is handled.
pub open spec fn spec_on_key(
    s: HandlerState,
    config: Config,
    event: KeyEvent,
    device: InputDeviceInfo,
    wm: WMClient,
    now: u64,
) -> (HandlerState, Seq<ActionOut>, bool) {
    let (s1, kvs1, pre) = match first_modmap(config.modmap@, event.key, s, wm, device, 0) {
        Some((i, j)) => spec_dispatch_keys(s, config.modmap@[i].remap@[j].1, event.key, event.value, now),
        None => (s, seq![(event.key, event.value)], Seq::empty()),
    };
    let (pk, kvs2) = spec_maintain_pressed(s1.pressed_keys, event.key, event.value, kvs1);
    let s2 = HandlerState { pressed_keys: pk, ..s1 };
    let (s3, kvs3) = if s2.multi_purpose_keys.len() > 0 {
        spec_flush(s2, kvs2)
    } else {
        (s2, kvs2)
    };
    let (s4, out, send) = spec_key_steps(s3, kvs3, event, config, device, wm);
    (s4, pre + out, send)
}

/// The handling of a relative event: its disguised key is pressed and
/// released; when the press lets the original event through, a movement of
/// the first three axes joins the batch's mouse movements and any other is
/// sent right away.
pub open spec fn spec_on_relative(
    s: HandlerState,
    config: Config,
    ev: RelativeEvent,
    device: InputDeviceInfo,
    wm: WMClient,
    now: u64,
) -> (HandlerState, Seq<ActionOut>, Seq<RelativeEvent>) {
    let key = spec_disguised_key(ev.code, ev.value) as u16;
    let (s1, a1, send) = spec_on_key(s, config, KeyEvent { key, value: KeyValue::Press }, device, wm, now);
    let (a1b, mouse) = if send {
        if ev.code <= 2 {
            (a1, seq![ev])
        } else {
            (a1.push(ActionOut::RelativeEvent(ev)), Seq::empty())
        }
    } else {
        (a1, Seq::empty())
    };
    let (s2, a2, _) = spec_on_key(s1, config, KeyEvent { key, value: KeyValue::Release }, device, wm, now);
    (s2, a1b + a2, mouse)
}

/// The event inside any wrapping of events that bypassed the operators.
pub open spec fn plain_event(e: Event) -> Event
    decreases e,
{
    match e {
        Event::ByPassLocal(inner) => plain_event(*inner),
        _ => e,
    }
}

/// The handling of one event of a batch: the state, the actions, and the
/// mouse movements it adds to the batch's collection.
pub open spec fn spec_event_step(s: HandlerState, config: Config, e: Event, wm: WMClient, now: u64) -> (
    HandlerState,
    Seq<ActionOut>,
    Seq<RelativeEvent>,
) {
    match plain_event(e) {
        Event::KeyEvent(device, key_event) => {
            let (s1, a, _) = spec_on_key(s, config, key_event, *device, wm, now);
            (s1, a, Seq::empty())
        },
        Event::RelativeEvent(device, relative_event) => spec_on_relative(s, config, relative_event, *device, wm, now),
        Event::OtherEvents(input) => (s, seq![ActionOut::InputEvent(input)], Seq::empty()),
        Event::OverrideTimeout => {
            let (s1, a) = spec_timeout_override(s);
            (s1, a, Seq::empty())
        },
        _ => (s, Seq::empty(), Seq::empty()),
    }
}

/// The handling of the events of a batch in order.
pub open spec fn spec_event_steps(s: HandlerState, config: Config, events: Seq<Event>, wm: WMClient, now: u64) -> (
    HandlerState,
    Seq<ActionOut>,
    Seq<RelativeEvent>,
)
    decreases events.len(),
{
    if events.len() == 0 {
        (s, Seq::empty(), Seq::empty())
    } else {
        let (s1, a1, m1) = spec_event_steps(s, config, events.drop_last(), wm, now);
        let (s2, a2, m2) = spec_event_step(s1, config, events.last(), wm, now);
        (s2, a1 + a2, m1 + m2)
    }
}

/// The handling of a batch of events at `now`: the actions of each event in
/// order, then the batch's mouse movements together, if there are any.
pub open spec fn spec_on_events(s: HandlerState, config: Config, events: Seq<Event>, wm: WMClient, now: u64) -> (
    HandlerState,
    Seq<ActionOut>,
) {
    let (s1, a, mouse) = spec_event_steps(s, config, events, wm, now);
    (s1, if mouse.len() > 0 {
        a.push(ActionOut::MouseMovementEventCollection(mouse))
    } else {
        a
    })
}

/// Every relative event of the batch has an axis whose disguised keys exist.
pub open spec fn relative_codes_ok(events: Seq<Event>) -> bool {
    forall|i: int|
        0 <= i < events.len() ==> (plain_event(#[trigger] events[i]) matches Event::RelativeEvent(_, re)
            ==> re.code <= MAX_DISGUISABLE_CODE)
}

/// The configuration has no rules at all.
pub open spec fn config_is_empty(config: Config) -> bool {
    &&& config.modmap@.len() == 0
    &&& config.keymap_table@ == Map::<u16, Vec<crate::keymap::KeymapEntry>>::empty()
    &&& config.virtual_modifiers@.len() == 0
}

/// Without any rule, a key event comes out as it went in: the handler only
/// tracks the modifiers (and the keys it saw pressed, each as itself). This
/// holds from any state without multi-purpose keys, nested remaps or a
/// pending escape, and for every key that is not a disguised relative event.
pub proof fn law_no_rules_pass_keys_through(
    s: HandlerState,
    config: Config,
    event: KeyEvent,
    device: InputDeviceInfo,
    wm: WMClient,
    now: u64,
)
    requires
        config_is_empty(config),
        s.multi_purpose_keys.len() == 0,
        s.override_remaps.len() == 0,
        !s.escape_next_key,
        forall|k: u16| #[trigger] s.pressed_keys.contains_key(k) ==> s.pressed_keys[k] == k,
        event.key < DISGUISED_EVENT_OFFSETTER,
    ensures
        ({
            let (s1, out, sent) = spec_on_key(s, config, event, device, wm, now);
            &&& out == seq![key_action(event.key, event.value)]
            &&& !sent
            &&& s1.modifiers == if is_modifier(event.key) {
                spec_update_modifier(s.modifiers, event.key, event.value)
            } else {
                s.modifiers
            }
            &&& s1.multi_purpose_keys.len() == 0
            &&& s1.override_remaps.len() == 0
            &&& !s1.escape_next_key
            &&& forall|k: u16| #[trigger] s1.pressed_keys.contains_key(k) ==> s1.pressed_keys[k] == k
        }),
{
    let k = event.key;
    let v = event.value;
    assert(first_modmap(config.modmap@, k, s, wm, device, 0) is None);
    let (pk, kvs2) = spec_maintain_pressed(s.pressed_keys, k, v, seq![(k, v)]);
    assert(kvs2 == seq![(k, v)]);
    let s2 = HandlerState { pressed_keys: pk, ..s };
    assert forall|x: u16| #[trigger] pk.contains_key(x) implies pk[x] == x by {}
    assert(kvs2.drop_last() =~= Seq::<(u16, KeyValue)>::empty());
    let (f1, a1, t1) = spec_find_keymap(s2, config, k, device, wm);
    assert(f1 == s2 && a1 == Seq::<ActionOut>::empty() && t1 is None);
    let (f2, a2, t2) = spec_find_keymap(s2, config, KEY_MATCH_ANY, device, wm);
    assert(f2 == s2 && a2 == Seq::<ActionOut>::empty() && t2 is None);
    assert(Seq::<ActionOut>::empty() + Seq::<ActionOut>::empty() =~= Seq::<ActionOut>::empty());
    let (s4, out, send) = spec_key_steps(s2, kvs2, event, config, device, wm);
    let (sx, ax, bx) = spec_key_steps(s2, kvs2.drop_last(), event, config, device, wm);
    assert(sx == s2 && ax == Seq::<ActionOut>::empty() && !bx);
    assert(out =~= seq![key_action(k, v)]);
    assert(Seq::<ActionOut>::empty() + out =~= out);
}

/// The event inside any wrapping of events that bypassed the operators.
pub fn unwrap_event(e: &Event) -> (r: &Event)
    ensures
        *r == plain_event(*e),
    decreases e,
{
    match e {
        Event::ByPassLocal(inner) => unwrap_event(&**inner),
        _ => e,
    }
}

/// Appends `more` to `out`.
fn extend(out: &mut Vec<Action>, more: Vec<Action>)
    ensures
        outs_view(final(out)@) == outs_view(old(out)@) + outs_view(more@),
{
    crate::action::append_actions(out, more);
}

impl EventHandler {
    /// Handles one key event (`k`, `v`) that the modmap gave for `event` (see
    /// `spec_key_step`).
    fn key_step(
        &mut self,
        k: u16,
        v: KeyValue,
        event: &KeyEvent,
        config: &Config,
        device: &InputDeviceInfo,
        wm: &WMClient,
    ) -> (r: (Vec<Action>, bool))
        requires
            state_wf(old(self)@),
        ensures
            state_wf(final(self)@),
            (final(self)@, outs_view(r.0@), r.1) == spec_key_step(old(self)@, k, v, *event, *config, *device, *wm),
    {
        let mut actions: Vec<Action> = Vec::new();
        proof {
            assert(outs_view(actions@) =~= Seq::<ActionOut>::empty());
        }
        if vec_contains(&config.virtual_modifiers, k) {
            self.update_modifier(k, v);
            return (actions, false);
        } else if is_modifier_key(k) {
            self.update_modifier(k, v);
        } else if v.is_pressed() {
            if self.escape_next_key {
                self.escape_next_key = false;
            } else {
                let km1 = self.find_keymap(config, k, device, wm);
                extend(&mut actions, km1.actions);
                match km1.tagged {
                    Some(tagged) => {
                        let more = self.dispatch_actions(&tagged, k);
                        extend(&mut actions, more);
                        return (actions, false);
                    },
                    None => {},
                }
                let km_any = self.find_keymap(config, KEY_MATCH_ANY, device, wm);
                extend(&mut actions, km_any.actions);
                match km_any.tagged {
                    Some(tagged) => {
                        let more = self.dispatch_actions(&tagged, KEY_MATCH_ANY);
                        extend(&mut actions, more);
                        proof {
                            assert(outs_view(actions@) =~= outs_view(actions@));
                        }
                        return (actions, false);
                    },
                    None => {},
                }
            }
        }
        if k >= DISGUISED_EVENT_OFFSETTER && k == event.key && v == event.value {
            return (actions, true);
        }
        let ghost before = outs_view(actions@);
        actions.push(Action::KeyEvent(KeyEvent { key: k, value: v }));
        proof {
            assert(outs_view(actions@) =~= before.push(key_action(k, v)));
        }
        (actions, false)
    }

    /// Handles a key event at `now` (see `spec_on_key`).
    pub fn on_key(
        &mut self,
        event: &KeyEvent,
        config: &Config,
        device: &InputDeviceInfo,
        wm: &WMClient,
        now: u64,
    ) -> (r: KeyOutcome)
        requires
            state_wf(old(self)@),
        ensures
            state_wf(final(self)@),
            (final(self)@, outs_view(r.actions@), r.relative == RelativeHandling::SendOriginal) == spec_on_key(
                old(self)@,
                *config,
                *event,
                *device,
                *wm,
                now,
            ),
    {
        let key = event.key;
        let phase = event.value;
        let (mut key_values, pre_actions) = match self.find_modmap(config, key, device, wm) {
            Some(key_action) => self.dispatch_keys(key_action, key, phase, now),
            None => {
                let mut kvs: Vec<(u16, KeyValue)> = Vec::new();
                kvs.push((key, phase));
                let none: Vec<Action> = Vec::new();
                proof {
                    assert(kvs@ =~= seq![(key, phase)]);
                    assert(outs_view(none@) =~= Seq::<ActionOut>::empty());
                }
                (kvs, none)
            },
        };
        self.maintain_pressed_keys(key, phase, &mut key_values);
        if self.multi_purpose_keys.len() > 0 {
            key_values = self.flush_timeout_keys(key_values);
        }
        let ghost s3 = self@;
        let ghost kvs3 = key_values@;
        let ghost pre = outs_view(pre_actions@);
        let mut actions = pre_actions;
        let mut send = false;
        let mut i: usize = 0;
        proof {
            assert(kvs3.take(0) =~= Seq::<(u16, KeyValue)>::empty());
            assert(outs_view(actions@) =~= pre + Seq::<ActionOut>::empty());
        }
        while i < key_values.len()
            invariant
                i <= key_values.len(),
                kvs3 == key_values@,
                state_wf(self@),
                ({
                    let (sx, ax, bx) = spec_key_steps(s3, kvs3.take(i as int), *event, *config, *device, *wm);
                    self@ == sx && outs_view(actions@) == pre + ax && send == bx
                }),
            decreases key_values.len() - i,
        {
            let (k, v) = key_values[i];
            proof {
                assert(kvs3.take(i + 1).drop_last() =~= kvs3.take(i as int));
                assert(kvs3.take(i + 1).last() == (k, v));
            }
            let ghost before = outs_view(actions@);
            let (more, sent) = self.key_step(k, v, event, config, device, wm);
            extend(&mut actions, more);
            send = send || sent;
            proof {
                let (sx, ax, bx) = spec_key_steps(s3, kvs3.take(i as int), *event, *config, *device, *wm);
                let (sy, ay, by) = spec_key_step(sx, k, v, *event, *config, *device, *wm);
                assert(outs_view(actions@) =~= pre + (ax + ay));
            }
            i = i + 1;
        }
        proof {
            assert(kvs3.take(kvs3.len() as int) =~= kvs3);
        }
        KeyOutcome {
            actions,
            relative: if send {
                RelativeHandling::SendOriginal
            } else {
                RelativeHandling::SkipOriginal
            },
        }
    }

    /// Handles a relative event at `now` (see `spec_on_relative`); movements
    /// of the first three axes that go through are added to
    /// `mouse_movement_collection`.
    pub fn on_relative(
        &mut self,
        event: &RelativeEvent,
        mouse_movement_collection: &mut Vec<RelativeEvent>,
        config: &Config,
        device: &InputDeviceInfo,
        wm: &WMClient,
        now: u64,
    ) -> (r: Vec<Action>)
        requires
            state_wf(old(self)@),
            event.code <= MAX_DISGUISABLE_CODE,
        ensures
            state_wf(final(self)@),
            ({
                let (s1, a, mouse) = spec_on_relative(old(self)@, *config, *event, *device, *wm, now);
                final(self)@ == s1 && outs_view(r@) == a && final(mouse_movement_collection)@ == old(
                    mouse_movement_collection,
                )@ + mouse
            }),
    {
        let key = event.to_disguised_key();
        let mut actions: Vec<Action> = Vec::new();
        let press_outcome = self.on_key(&KeyEvent::new(key, KeyValue::Press), config, device, wm, now);
        extend(&mut actions, press_outcome.actions);
        let ghost m0 = mouse_movement_collection@;
        if press_outcome.relative == RelativeHandling::SendOriginal {
            let action = RelativeEvent::new_with(event.code, event.value);
            if event.code <= 2 {
                mouse_movement_collection.push(action);
            } else {
                let ghost before = outs_view(actions@);
                actions.push(Action::RelativeEvent(action));
                proof {
                    assert(outs_view(actions@) =~= before.push(ActionOut::RelativeEvent(*event)));
                }
            }
        }
        proof {
            let (s1, a1, send) = spec_on_key(
                old(self)@,
                *config,
                KeyEvent { key, value: KeyValue::Press },
                *device,
                *wm,
                now,
            );
            if send && event.code <= 2 {
                assert(mouse_movement_collection@ =~= m0 + seq![*event]);
            } else {
                assert(mouse_movement_collection@ =~= m0 + Seq::<RelativeEvent>::empty());
            }
        }
        let release_outcome = self.on_key(&KeyEvent::new(key, KeyValue::Release), config, device, wm, now);
        extend(&mut actions, release_outcome.actions);
        actions
    }

    /// Handles a batch of events at `now` (see `spec_on_events`).
    pub fn on_events_at(&mut self, events: &Vec<Event>, config: &Config, wm: &WMClient, now: u64) -> (r: Vec<Action>)
        requires
            state_wf(old(self)@),
            relative_codes_ok(events@),
        ensures
            state_wf(final(self)@),
            (final(self)@, outs_view(r@)) == spec_on_events(old(self)@, *config, events@, *wm, now),
    {
        let ghost s0 = self@;
        let mut out_actions: Vec<Action> = Vec::new();
        let mut mouse_movement_collection: Vec<RelativeEvent> = Vec::new();
        let mut i: usize = 0;
        proof {
            assert(outs_view(out_actions@) =~= Seq::<ActionOut>::empty());
            assert(mouse_movement_collection@ =~= Seq::<RelativeEvent>::empty());
        }
        while i < events.len()
            invariant
                i <= events.len(),
                state_wf(self@),
                relative_codes_ok(events@),
                ({
                    let (sx, ax, mx) = spec_event_steps(s0, *config, events@.take(i as int), *wm, now);
                    self@ == sx && outs_view(out_actions@) == ax && mouse_movement_collection@ == mx
                }),
            decreases events.len() - i,
        {
            proof {
                assert(events@.take(i + 1).drop_last() =~= events@.take(i as int));
                assert(events@.take(i + 1).last() == events@[i as int]);
            }
            let ghost m0 = mouse_movement_collection@;
            let event = unwrap_event(&events[i]);
            match event {
                Event::KeyEvent(device, key_event) => {
                    let outcome = self.on_key(key_event, config, &**device, wm, now);
                    extend(&mut out_actions, outcome.actions);
                    proof {
                        assert(mouse_movement_collection@ =~= m0 + Seq::<RelativeEvent>::empty());
                    }
                },
                Event::RelativeEvent(device, relative_event) => {
                    proof {
                        assert(plain_event(events@[i as int]) == *event);
                    }
                    let more = self.on_relative(
                        relative_event,
                        &mut mouse_movement_collection,
                        config,
                        &**device,
                        wm,
                        now,
                    );
                    extend(&mut out_actions, more);
                },
                Event::OtherEvents(input) => {
                    let ghost before = outs_view(out_actions@);
                    out_actions.push(Action::InputEvent(*input));
                    proof {
                        assert(outs_view(out_actions@) =~= before + seq![ActionOut::InputEvent(*input)]);
                        assert(mouse_movement_collection@ =~= m0 + Seq::<RelativeEvent>::empty());
                    }
                },
                Event::OverrideTimeout => {
                    let more = self.timeout_override();
                    extend(&mut out_actions, more);
                    proof {
                        assert(mouse_movement_collection@ =~= m0 + Seq::<RelativeEvent>::empty());
                    }
                },
                _ => {
                    proof {
                        assert(outs_view(out_actions@) =~= outs_view(out_actions@) + Seq::<ActionOut>::empty());
                        assert(mouse_movement_collection@ =~= m0 + Seq::<RelativeEvent>::empty());
                    }
                },
            }
            i = i + 1;
        }
        proof {
            assert(events@.take(events@.len() as int) =~= events@);
        }
        if mouse_movement_collection.len() > 0 {
            let ghost before = outs_view(out_actions@);
            let ghost m = mouse_movement_collection@;
            out_actions.push(Action::MouseMovementEventCollection(mouse_movement_collection));
            proof {
                assert(outs_view(out_actions@) =~= before.push(ActionOut::MouseMovementEventCollection(m)));
            }
        }
        out_actions
    }

    /// Handles a batch of events as they arrive now (see `spec_on_events`).
    pub fn on_events(&mut self, events: &Vec<Event>, config: &Config, wm: &WMClient) -> (r: Vec<Action>)
        requires
            state_wf(old(self)@),
            relative_codes_ok(events@),
        ensures
            state_wf(final(self)@),
            exists|now: u64| (final(self)@, outs_view(r@)) == spec_on_events(old(self)@, *config, events@, *wm, now),
    {
        let now = now_nanos();
        self.on_events_at(events, config, wm, now)
    }
}

} // verus!
