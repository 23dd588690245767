use super::{state_wf, EventHandler, HandlerState};
use crate::keys::KeyValue;
use crate::util::{insert_key, remove_key, set_insert, without};
use vstd::prelude::*;

verus! {

/// The held modifiers after `key` goes to state `value`: a press adds it, a
/// release removes it, a repeat changes nothing.
pub open spec fn spec_update_modifier(modifiers: Seq<u16>, key: u16, value: KeyValue) -> Seq<u16> {
    match value {
        KeyValue::Press => set_insert(modifiers, key),
        KeyValue::Release => without(modifiers, key),
        KeyValue::Repeat => modifiers,
    }
}

/// The pressed keys and the key events after the handler saw `key` go to
/// state `value` and the modmap turned it into `events`: only a plain
/// one-to-one mapping is tracked; a press records the key it became, a repeat
/// or release becomes that key again, and a release forgets it.
pub open spec fn spec_maintain_pressed(
    pressed: Map<u16, u16>,
    key: u16,
    value: KeyValue,
    events: Seq<(u16, KeyValue)>,
) -> (Map<u16, u16>, Seq<(u16, KeyValue)>) {
    if events.len() != 1 || value != events[0].1 {
        (pressed, events)
    } else if value is Press {
        (pressed.insert(key, events[0].0), events)
    } else {
        let ev = if pressed.contains_key(key) {
            events.update(0, (pressed[key], events[0].1))
        } else {
            events
        };
        let p = if value is Release {
            pressed.remove(key)
        } else {
            pressed
        };
        (p, ev)
    }
}

impl EventHandler {
    /// Records the state of the modifier `key`.
    pub fn update_modifier(&mut self, key: u16, value: KeyValue)
        requires
            state_wf(old(self)@),
        ensures
            state_wf(final(self)@),
            final(self)@ == (HandlerState {
                modifiers: spec_update_modifier(old(self)@.modifiers, key, value),
                ..old(self)@
            }),
    {
        match value {
            KeyValue::Press => insert_key(&mut self.modifiers, key),
            KeyValue::Release => remove_key(&mut self.modifiers, key),
            KeyValue::Repeat => {},
        }
    }

    /// Keeps track of which key each pressed key was turned into, so that
    /// its repeat and release become the same key.
    pub fn maintain_pressed_keys(&mut self, key: u16, value: KeyValue, events: &mut Vec<(u16, KeyValue)>)
        ensures
            (final(self)@.pressed_keys, final(events)@) == spec_maintain_pressed(
                old(self)@.pressed_keys,
                key,
                value,
                old(events)@,
            ),
            final(self)@ == (HandlerState { pressed_keys: final(self)@.pressed_keys, ..old(self)@ }),
    {
        broadcast use vstd::std_specs::hash::group_hash_axioms;

        if events.len() != 1 || value != events[0].1 {
            return;
        }
        let event = events[0];
        match value {
            KeyValue::Press => {
                self.pressed_keys.insert(key, event.0);
            },
            _ => {
                match self.pressed_keys.get(&key) {
                    Some(original_key) => {
                        let k = *original_key;
                        events.set(0, (k, event.1));
                    },
                    None => {},
                }
                if value == KeyValue::Release {
                    self.pressed_keys.remove(&key);
                }
            },
        }
    }
}

} // verus!

verus! {

/// A key keeps what it was turned into while it is down: when its press
/// became `pressed_as`, its repeat and its release become `pressed_as` too
/// (whatever the modmap gives for them), and the release forgets the key.
pub proof fn law_release_follows_press(
    pressed: Map<u16, u16>,
    key: u16,
    pressed_as: u16,
    repeated_as: u16,
    released_as: u16,
)
    ensures
        ({
            let (p1, e1) = spec_maintain_pressed(pressed, key, KeyValue::Press, seq![(pressed_as, KeyValue::Press)]);
            let (p2, e2) = spec_maintain_pressed(p1, key, KeyValue::Repeat, seq![(repeated_as, KeyValue::Repeat)]);
            let (p3, e3) = spec_maintain_pressed(p2, key, KeyValue::Release, seq![(released_as, KeyValue::Release)]);
            &&& e1 == seq![(pressed_as, KeyValue::Press)]
            &&& e2 == seq![(pressed_as, KeyValue::Repeat)]
            &&& e3 == seq![(pressed_as, KeyValue::Release)]
            &&& !p3.contains_key(key)
        }),
{
    let (p1, e1) = spec_maintain_pressed(pressed, key, KeyValue::Press, seq![(pressed_as, KeyValue::Press)]);
    assert(p1.contains_key(key) && p1[key] == pressed_as);
    let (p2, e2) = spec_maintain_pressed(p1, key, KeyValue::Repeat, seq![(repeated_as, KeyValue::Repeat)]);
    assert(e2 =~= seq![(pressed_as, KeyValue::Repeat)]);
    let (p3, e3) = spec_maintain_pressed(p2, key, KeyValue::Release, seq![(released_as, KeyValue::Release)]);
    assert(e3 =~= seq![(pressed_as, KeyValue::Release)]);
}

/// The held modifiers are a set: a press adds the key once (a second press
/// changes nothing), and a release removes it whatever happened before.
pub proof fn law_modifiers_are_a_set(modifiers: Seq<u16>, key: u16)
    requires
        crate::util::no_dups(modifiers),
    ensures
        spec_update_modifier(modifiers, key, KeyValue::Press).contains(key),
        spec_update_modifier(spec_update_modifier(modifiers, key, KeyValue::Press), key, KeyValue::Press)
            == spec_update_modifier(modifiers, key, KeyValue::Press),
        !spec_update_modifier(spec_update_modifier(modifiers, key, KeyValue::Press), key, KeyValue::Release).contains(key),
        crate::util::no_dups(spec_update_modifier(modifiers, key, KeyValue::Press)),
        crate::util::no_dups(spec_update_modifier(modifiers, key, KeyValue::Release)),
{
    let p = spec_update_modifier(modifiers, key, KeyValue::Press);
    if !modifiers.contains(key) {
        assert(p[modifiers.len() as int] == key);
        assert forall|i: int, j: int| 0 <= i < j < p.len() implies p[i] != p[j] by {
            if j == modifiers.len() {
                assert(modifiers.contains(p[i]) || p[i] != key);
            }
        }
    }
    crate::util::lemma_without(p, key);
    crate::util::lemma_filter_no_dups(modifiers, key);
}

} // verus!
