use crate::event::{share, Event, InputDeviceInfo, KeyEvent};
use crate::keys::{is_modifier, is_modifier_key, KeyValue};
use crate::util::{lemma_filter_no_dups, lemma_without, no_dups, remove_all, vec_contains, without};
use std::rc::Rc;
use vstd::prelude::*;

verus! {

/// What the operators hand to the next stage.
#[derive(Debug)]
pub enum Emit {
    Single(Event),
}

impl Clone for Emit {
    fn clone(&self) -> (r: Self)
        ensures
            r == *self,
    {
        match self {
            Emit::Single(event) => Emit::Single(event.clone()),
        }
    }
}

impl Emit {
    /// Emit a release of `code` on `device`.
    pub fn key_release(device: Rc<InputDeviceInfo>, code: u16) -> (r: Emit)
        ensures
            r == Emit::Single(Event::KeyEvent(device, KeyEvent { key: code, value: KeyValue::Release })),
    {
        Emit::Single(Event::KeyEvent(device, KeyEvent::new(code, KeyValue::Release)))
    }

    /// Emit a press of `code` on `device`.
    pub fn key_press(device: Rc<InputDeviceInfo>, code: u16) -> (r: Emit)
        ensures
            r == Emit::Single(Event::KeyEvent(device, KeyEvent { key: code, value: KeyValue::Press })),
    {
        Emit::Single(Event::KeyEvent(device, KeyEvent::new(code, KeyValue::Press)))
    }

    /// Emit a repeat of `code` on `device`.
    pub fn key_repeat(device: Rc<InputDeviceInfo>, code: u16) -> (r: Emit)
        ensures
            r == Emit::Single(Event::KeyEvent(device, KeyEvent { key: code, value: KeyValue::Repeat })),
    {
        Emit::Single(Event::KeyEvent(device, KeyEvent::new(code, KeyValue::Repeat)))
    }

    /// Emit `key_event` on `device`.
    pub fn key_event(device: Rc<InputDeviceInfo>, key_event: KeyEvent) -> (r: Emit)
        ensures
            r == Emit::Single(Event::KeyEvent(device, key_event)),
    {
        Emit::Single(Event::KeyEvent(device, key_event))
    }
}

/// The modifier keys held after `event`, given those held before: a press of
/// a modifier adds it (once), a release removes it, anything else changes
/// nothing.
pub open spec fn spec_update_modifiers(modifiers: Seq<u16>, event: Event) -> Seq<u16> {
    match event {
        Event::KeyEvent(_, key_event) => {
            if !is_modifier(key_event.key) {
                modifiers
            } else {
                match key_event.value {
                    KeyValue::Press => if modifiers.contains(key_event.key) {
                        modifiers
                    } else {
                        modifiers.push(key_event.key)
                    },
                    KeyValue::Release => if modifiers.contains(key_event.key) {
                        without(modifiers, key_event.key)
                    } else {
                        modifiers
                    },
                    KeyValue::Repeat => modifiers,
                }
            }
        },
        _ => modifiers,
    }
}

/// The modifiers held after a sequence of events.
pub open spec fn spec_fold_modifiers(modifiers: Seq<u16>, events: Seq<Event>) -> Seq<u16>
    decreases events.len(),
{
    if events.len() == 0 {
        modifiers
    } else {
        spec_update_modifiers(spec_fold_modifiers(modifiers, events.drop_last()), events.last())
    }
}

/// A set of held modifiers: modifier keys only, each at most once.
pub open spec fn modifiers_wf(modifiers: Seq<u16>) -> bool {
    &&& no_dups(modifiers)
    &&& forall|i: int| 0 <= i < modifiers.len() ==> is_modifier(#[trigger] modifiers[i])
}

/// Updating a set of held modifiers keeps it a set of held modifiers.
pub proof fn lemma_update_keeps_wf(modifiers: Seq<u16>, event: Event)
    requires
        modifiers_wf(modifiers),
    ensures
        modifiers_wf(spec_update_modifiers(modifiers, event)),
{
    broadcast use vstd::seq_lib::group_filter_ensures;
    if let Event::KeyEvent(_, key_event) = event {
        let k = key_event.key;
        if is_modifier(k) && key_event.value is Release && modifiers.contains(k) {
            let w = without(modifiers, k);
            lemma_without(modifiers, k);
            assert forall|i: int| 0 <= i < w.len() implies is_modifier(#[trigger] w[i]) by {
                assert(w.contains(w[i]));
                assert(modifiers.contains(w[i]));
            }
            lemma_filter_no_dups(modifiers, k);
        }
    }
}

/// The modifier keys pressed on the input side and on the output side.
pub struct EmitHandler {
    /// Physical modifiers that are down.
    pub physical_modifiers: Vec<u16>,
    /// Currently emitted modifier keys.
    pub emitted_modifiers: Vec<u16>,
}

/// The event that goes on after the operators: an event that bypassed the
/// operators is unwrapped once.
pub open spec fn spec_unwrap_bypass(event: Event) -> Event {
    match event {
        Event::ByPassLocal(inner) => *inner,
        _ => event,
    }
}

/// The events that `emits` hand on.
pub open spec fn spec_emitted_events(emits: Seq<Emit>) -> Seq<Event> {
    emits.map_values(|e: Emit| match e {
        Emit::Single(event) => spec_unwrap_bypass(event),
    })
}

impl EmitHandler {
    /// No modifier held on either side.
    pub fn new() -> (r: EmitHandler)
        ensures
            r.physical_modifiers@ == Seq::<u16>::empty(),
            r.emitted_modifiers@ == Seq::<u16>::empty(),
    {
        EmitHandler { physical_modifiers: Vec::new(), emitted_modifiers: Vec::new() }
    }

    /// Both sides are sets of held modifiers.
    pub open spec fn wf(&self) -> bool {
        modifiers_wf(self.physical_modifiers@) && modifiers_wf(self.emitted_modifiers@)
    }

    /// No modifier is held on either side.
    pub fn is_base_state(&self) -> (r: bool)
        ensures
            r == (self.physical_modifiers@.len() == 0 && self.emitted_modifiers@.len() == 0),
    {
        self.physical_modifiers.len() == 0 && self.emitted_modifiers.len() == 0
    }

    /// The physical modifiers are the emitted ones, in the same order.
    pub fn emitted_modifiers_are_synced(&self) -> (r: bool)
        ensures
            r == (self.physical_modifiers@ == self.emitted_modifiers@),
    {
        if self.physical_modifiers.len() != self.emitted_modifiers.len() {
            return false;
        }
        let mut i: usize = 0;
        while i < self.physical_modifiers.len()
            invariant
                i <= self.physical_modifiers.len(),
                self.physical_modifiers.len() == self.emitted_modifiers.len(),
                forall|j: int| 0 <= j < i ==> self.physical_modifiers@[j] == self.emitted_modifiers@[j],
            decreases self.physical_modifiers.len() - i,
        {
            if self.physical_modifiers[i] != self.emitted_modifiers[i] {
                return false;
            }
            i = i + 1;
        }
        assert(self.physical_modifiers@ =~= self.emitted_modifiers@);
        true
    }

    /// Hands on the events of `events` (unwrapping events that bypassed the
    /// operators) and tracks the modifiers they press and release.
    pub fn map_output(&mut self, events: Vec<Emit>) -> (r: Vec<Event>)
        requires
            old(self).wf(),
        ensures
            final(self).wf(),
            r@ == spec_emitted_events(events@),
            final(self).physical_modifiers@ == old(self).physical_modifiers@,
            final(self).emitted_modifiers@ == spec_fold_modifiers(old(self).emitted_modifiers@, r@),
    {
        let mut result: Vec<Event> = Vec::new();
        let mut i: usize = 0;
        let ghost start = self.emitted_modifiers@;
        while i < events.len()
            invariant
                i <= events.len(),
                self.wf(),
                result@ == spec_emitted_events(events@.take(i as int)),
                self.physical_modifiers@ == old(self).physical_modifiers@,
                self.emitted_modifiers@ == spec_fold_modifiers(start, result@),
                start == old(self).emitted_modifiers@,
            decreases events.len() - i,
        {
            let event = match &events[i] {
                Emit::Single(event) => match event {
                    Event::ByPassLocal(inner) => (**inner).clone(),
                    other => other.clone(),
                },
            };
            proof {
                lemma_update_keeps_wf(self.emitted_modifiers@, event);
            }
            update_modifier_state(&mut self.emitted_modifiers, &event);
            let ghost before = result@;
            result.push(event);
            proof {
                assert(result@.drop_last() == before);
                assert(events@.take(i + 1).drop_last() =~= events@.take(i as int));
                assert(spec_emitted_events(events@.take(i + 1)) =~= spec_emitted_events(events@.take(i as int)).push(event));
            }
            i = i + 1;
        }
        assert(events@.take(events.len() as int) =~= events@);
        result
    }

    /// Tracks the physical modifiers that `event` presses or releases.
    pub fn on_event(&mut self, event: &Event)
        requires
            old(self).wf(),
        ensures
            final(self).wf(),
            final(self).physical_modifiers@ == spec_update_modifiers(old(self).physical_modifiers@, *event),
            final(self).emitted_modifiers@ == old(self).emitted_modifiers@,
    {
        proof {
            lemma_update_keeps_wf(self.physical_modifiers@, *event);
        }
        update_modifier_state(&mut self.physical_modifiers, event)
    }
}

/// Updates the held modifiers with `event`. A press of a held modifier, or a
/// release or repeat of one not held, leaves them as they are.
pub fn update_modifier_state(modifiers: &mut Vec<u16>, event: &Event)
    ensures
        final(modifiers)@ == spec_update_modifiers(old(modifiers)@, *event),
{
    if let Event::KeyEvent(_, key_event) = event {
        let key = key_event.code();
        if !is_modifier_key(key) {
            return;
        }
        match key_event.value {
            KeyValue::Press => {
                if !vec_contains(modifiers, key) {
                    modifiers.push(key);
                }
            },
            KeyValue::Release => {
                if vec_contains(modifiers, key) {
                    remove_all(modifiers, key);
                }
            },
            KeyValue::Repeat => {},
        }
    }
}

} // verus!

verus! {

/// Tracking held modifiers: after a press of a modifier key it is held, after
/// its release it is not, other modifiers stay as they were, and events of
/// other keys change nothing.
pub proof fn law_modifier_tracking(modifiers: Seq<u16>, device: Rc<InputDeviceInfo>, key: u16, value: KeyValue, other: u16)
    ensures
        is_modifier(key) && value is Press ==> spec_update_modifiers(
            modifiers,
            Event::KeyEvent(device, KeyEvent { key, value }),
        ).contains(key),
        is_modifier(key) && value is Release ==> !spec_update_modifiers(
            modifiers,
            Event::KeyEvent(device, KeyEvent { key, value }),
        ).contains(key),
        other != key ==> (spec_update_modifiers(modifiers, Event::KeyEvent(device, KeyEvent { key, value })).contains(
            other,
        ) == modifiers.contains(other)),
        !is_modifier(key) ==> spec_update_modifiers(modifiers, Event::KeyEvent(device, KeyEvent { key, value }))
            == modifiers,
{
    broadcast use vstd::seq_lib::group_filter_ensures;
    let e = Event::KeyEvent(device, KeyEvent { key, value });
    lemma_without(modifiers, key);
    if is_modifier(key) && value is Press && !modifiers.contains(key) {
        assert(modifiers.push(key)[modifiers.len() as int] == key);
    }
    if other != key && is_modifier(key) {
        let r = spec_update_modifiers(modifiers, e);
        if modifiers.contains(other) {
            let i = choose|i: int| 0 <= i < modifiers.len() && modifiers[i] == other;
            if value is Press && !modifiers.contains(key) {
                assert(r[i] == other);
            }
        }
        if value is Press && !modifiers.contains(key) && r.contains(other) {
            let j = choose|j: int| 0 <= j < r.len() && r[j] == other;
            assert(j < modifiers.len());
            assert(modifiers[j] == other);
        }
    }
}

} // verus!
