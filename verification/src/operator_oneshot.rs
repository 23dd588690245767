use crate::emit_handler::Emit;
use crate::event::{share, Event, InputDeviceInfo, KeyEvent};
use crate::keys::KeyValue;
use crate::operators::{ActionView, OperatorAction};
use std::rc::Rc;
use vstd::prelude::*;

verus! {

/// A one-shot key: pressing and releasing `key` holds `action` down until the
/// next key press.
#[derive(Debug)]
pub struct OneshotOperator {
    pub key: u16,
    pub action: u16,
}

impl OneshotOperator {
    /// The one-shot operator of `key`, started by `key`.
    pub fn get_ops(key: u16, action: u16) -> (r: Vec<(u16, OneshotOperator)>)
        ensures
            r@.len() == 1,
            r@[0].0 == key,
            r@[0].1.key == key,
            r@[0].1.action == action,
    {
        let mut result: Vec<(u16, OneshotOperator)> = Vec::new();
        result.push((key, OneshotOperator { key, action }));
        result
    }

    /// A fresh active one-shot operator; it is to be given the press of its key.
    pub fn get_active_operator(&self) -> (r: ActiveOneshotOperator)
        ensures
            r.key == self.key,
            r.action == self.action,
            r.state == OneshotState::New,
    {
        ActiveOneshotOperator { key: self.key, action: self.action, state: OneshotState::New }
    }
}

/// Where a one-shot key is.
#[derive(Debug, PartialEq, Eq, Structural)]
pub enum OneshotState {
    New,
    Pressed,
    Oneshot,
    StandardMod,
    Cancel,
    Done,
}

/// A one-shot key that has been started.
#[derive(Debug)]
pub struct ActiveOneshotOperator {
    pub key: u16,
    pub action: u16,
    pub state: OneshotState,
}

/// The emit of `key` in state `value` on `device`.
pub open spec fn key_emit(device: Rc<InputDeviceInfo>, key: u16, value: KeyValue) -> Emit {
    Emit::Single(Event::KeyEvent(device, KeyEvent { key, value }))
}

/// The state and action after a step of a one-shot key.
pub type OneshotStep = (OneshotState, ActionView);

/// A press of `ke` on `device`.
pub open spec fn spec_oneshot_press(key: u16, action: u16, state: OneshotState, device: Rc<InputDeviceInfo>, ke: KeyEvent) -> OneshotStep {
    let same = ke.key == key;
    match state {
        OneshotState::New => (
            OneshotState::Pressed,
            ActionView::Partial(seq![key_emit(device, action, KeyValue::Press)], Seq::empty()),
        ),
        OneshotState::Pressed => if same {
            (state, ActionView::Partial(Seq::empty(), Seq::empty()))
        } else {
            (OneshotState::StandardMod, ActionView::Unhandled)
        },
        OneshotState::Oneshot => if same {
            // Canceled because it is pressed again.
            (
                OneshotState::Cancel,
                ActionView::Partial(
                    seq![key_emit(device, action, KeyValue::Release), Emit::Single(Event::KeyEvent(device, ke))],
                    Seq::empty(),
                ),
            )
        } else {
            (
                OneshotState::Done,
                ActionView::Done(
                    Seq::empty(),
                    seq![
                        Event::KeyEvent(device, ke),
                        Event::ByPassLocal(Box::new(Event::KeyEvent(device, KeyEvent { key: action, value: KeyValue::Release }))),
                    ],
                ),
            )
        },
        _ => if same {
            (state, ActionView::Partial(Seq::empty(), Seq::empty()))
        } else {
            (state, ActionView::Unhandled)
        },
    }
}

/// A release of `ke` on `device`.
pub open spec fn spec_oneshot_release(key: u16, action: u16, state: OneshotState, device: Rc<InputDeviceInfo>, ke: KeyEvent) -> OneshotStep {
    if ke.key != key {
        (state, ActionView::Unhandled)
    } else {
        match state {
            OneshotState::Pressed => (OneshotState::Oneshot, ActionView::Partial(Seq::empty(), Seq::empty())),
            OneshotState::StandardMod => (
                OneshotState::Done,
                ActionView::Done(seq![key_emit(device, action, KeyValue::Release)], Seq::empty()),
            ),
            OneshotState::Cancel => (
                OneshotState::Done,
                ActionView::Done(seq![key_emit(device, key, KeyValue::Release)], Seq::empty()),
            ),
            _ => (state, ActionView::Partial(Seq::empty(), Seq::empty())),
        }
    }
}

/// A repeat of `ke` on `device`.
pub open spec fn spec_oneshot_repeat(key: u16, action: u16, state: OneshotState, device: Rc<InputDeviceInfo>, ke: KeyEvent) -> OneshotStep {
    if ke.key != key {
        (state, ActionView::Unhandled)
    } else {
        match state {
            OneshotState::Pressed => (
                state,
                ActionView::Partial(seq![key_emit(device, action, KeyValue::Repeat)], Seq::empty()),
            ),
            OneshotState::Cancel => (
                state,
                ActionView::Partial(seq![key_emit(device, key, KeyValue::Repeat)], Seq::empty()),
            ),
            _ => (state, ActionView::Partial(Seq::empty(), Seq::empty())),
        }
    }
}

/// The step of a one-shot key on `event`; ticks and other events are not its.
pub open spec fn spec_oneshot_on_event(op: ActiveOneshotOperator, event: Event) -> OneshotStep {
    match event {
        Event::KeyEvent(device, ke) => match ke.value {
            KeyValue::Press => spec_oneshot_press(op.key, op.action, op.state, device, ke),
            KeyValue::Release => spec_oneshot_release(op.key, op.action, op.state, device, ke),
            KeyValue::Repeat => spec_oneshot_repeat(op.key, op.action, op.state, device, ke),
        },
        _ => (op.state, ActionView::Unhandled),
    }
}

impl ActiveOneshotOperator {
    /// The operator can take `event`: it is not done, and before its first
    /// press it takes only a press.
    pub open spec fn accepts(&self, event: Event) -> bool {
        &&& self.state != OneshotState::Done
        &&& self.state == OneshotState::New ==> (event matches Event::KeyEvent(_, ke) && ke.value is Press)
    }

    /// Takes `event`.
    pub fn on_event(&mut self, event: &Event) -> (r: OperatorAction)
        requires
            old(self).accepts(*event),
        ensures
            (final(self).state, r@) == spec_oneshot_on_event(*old(self), *event),
            final(self).key == old(self).key,
            final(self).action == old(self).action,
    {
        match event {
            Event::KeyEvent(device, ke) => match ke.value {
                KeyValue::Press => self.on_press(share(device), ke),
                KeyValue::Release => self.on_release(share(device), ke),
                KeyValue::Repeat => self.on_repeat(share(device), ke),
            },
            _ => OperatorAction::Unhandled,
        }
    }

    /// Takes the press `ke` on `device` (see `spec_oneshot_press`).
    pub fn on_press(&mut self, device: Rc<InputDeviceInfo>, ke: &KeyEvent) -> (r: OperatorAction)
        requires
            old(self).state != OneshotState::Done,
        ensures
            (final(self).state, r@) == spec_oneshot_press(old(self).key, old(self).action, old(self).state, device, *ke),
            final(self).key == old(self).key,
            final(self).action == old(self).action,
    {
        let same = ke.key == self.key;
        match self.state {
            OneshotState::New => {
                self.state = OneshotState::Pressed;
                let mut emits: Vec<Emit> = Vec::new();
                emits.push(Emit::key_press(device, self.action));
                assert(emits@ =~= seq![key_emit(device, self.action, KeyValue::Press)]);
                OperatorAction::Partial(emits, Vec::new())
            },
            OneshotState::Pressed => {
                if same {
                    OperatorAction::Partial(Vec::new(), Vec::new())
                } else {
                    self.state = OneshotState::StandardMod;
                    OperatorAction::Unhandled
                }
            },
            OneshotState::Oneshot => {
                if same {
                    // Canceled because it is pressed again.
                    self.state = OneshotState::Cancel;
                    let mut emits: Vec<Emit> = Vec::new();
                    emits.push(Emit::key_release(share(&device), self.action));
                    // Emitted as is, so it doesn't start the same operator again.
                    emits.push(Emit::key_event(device, *ke));
                    assert(emits@ =~= seq![
                        key_emit(device, self.action, KeyValue::Release),
                        Emit::Single(Event::KeyEvent(device, *ke)),
                    ]);
                    OperatorAction::Partial(emits, Vec::new())
                } else {
                    let mut unhandled: Vec<Event> = Vec::new();
                    unhandled.push(Event::KeyEvent(share(&device), *ke));
                    // The release comes after the interrupting key, so it goes
                    // with the unhandled events.
                    unhandled.push(Event::ByPassLocal(Box::new(Event::key_release(device, self.action))));
                    self.state = OneshotState::Done;
                    assert(unhandled@ =~= seq![
                        Event::KeyEvent(device, *ke),
                        Event::ByPassLocal(Box::new(Event::KeyEvent(device, KeyEvent { key: self.action, value: KeyValue::Release }))),
                    ]);
                    OperatorAction::Done(Vec::new(), unhandled)
                }
            },
            _ => {
                if same {
                    OperatorAction::Partial(Vec::new(), Vec::new())
                } else {
                    OperatorAction::Unhandled
                }
            },
        }
    }

    /// Takes the release `ke` on `device` (see `spec_oneshot_release`).
    pub fn on_release(&mut self, device: Rc<InputDeviceInfo>, ke: &KeyEvent) -> (r: OperatorAction)
        requires
            old(self).state != OneshotState::New,
            old(self).state != OneshotState::Done,
        ensures
            (final(self).state, r@) == spec_oneshot_release(old(self).key, old(self).action, old(self).state, device, *ke),
            final(self).key == old(self).key,
            final(self).action == old(self).action,
    {
        if ke.key != self.key {
            // A release of another key doesn't interrupt.
            return OperatorAction::Unhandled;
        }
        match self.state {
            OneshotState::Pressed => {
                // Delay the release of the action.
                self.state = OneshotState::Oneshot;
                OperatorAction::Partial(Vec::new(), Vec::new())
            },
            OneshotState::StandardMod => {
                self.state = OneshotState::Done;
                let mut emits: Vec<Emit> = Vec::new();
                emits.push(Emit::key_release(device, self.action));
                assert(emits@ =~= seq![key_emit(device, self.action, KeyValue::Release)]);
                OperatorAction::Done(emits, Vec::new())
            },
            OneshotState::Cancel => {
                self.state = OneshotState::Done;
                let mut emits: Vec<Emit> = Vec::new();
                emits.push(Emit::key_release(device, self.key));
                assert(emits@ =~= seq![key_emit(device, self.key, KeyValue::Release)]);
                OperatorAction::Done(emits, Vec::new())
            },
            // Spurious releases are suppressed.
            _ => OperatorAction::Partial(Vec::new(), Vec::new()),
        }
    }

    /// Takes the repeat `ke` on `device` (see `spec_oneshot_repeat`).
    pub fn on_repeat(&mut self, device: Rc<InputDeviceInfo>, ke: &KeyEvent) -> (r: OperatorAction)
        requires
            old(self).state != OneshotState::New,
            old(self).state != OneshotState::Done,
        ensures
            (final(self).state, r@) == spec_oneshot_repeat(old(self).key, old(self).action, old(self).state, device, *ke),
            final(self).key == old(self).key,
            final(self).action == old(self).action,
    {
        if ke.key != self.key {
            return OperatorAction::Unhandled;
        }
        match self.state {
            OneshotState::Pressed => {
                let mut emits: Vec<Emit> = Vec::new();
                emits.push(Emit::key_repeat(device, self.action));
                assert(emits@ =~= seq![key_emit(device, self.action, KeyValue::Repeat)]);
                OperatorAction::Partial(emits, Vec::new())
            },
            OneshotState::Cancel => {
                let mut emits: Vec<Emit> = Vec::new();
                emits.push(Emit::key_repeat(device, self.key));
                assert(emits@ =~= seq![key_emit(device, self.key, KeyValue::Repeat)]);
                OperatorAction::Partial(emits, Vec::new())
            },
            // Spurious repeats are suppressed.
            _ => OperatorAction::Partial(Vec::new(), Vec::new()),
        }
    }
}

} // verus!

verus! {

/// The one-shot key has emitted a press of its action and not yet its
/// release.
pub open spec fn action_held(state: OneshotState) -> bool {
    state == OneshotState::Pressed || state == OneshotState::Oneshot || state == OneshotState::StandardMod
}

/// What a step hands on, emitted and handed back, holds a release of `action`
/// on `device` (handed back around the operators or not).
pub open spec fn lets_go_of(a: ActionView, device: Rc<InputDeviceInfo>, action: u16) -> bool {
    let release = Event::KeyEvent(device, KeyEvent { key: action, value: KeyValue::Release });
    match a {
        ActionView::Partial(e, u) => e.contains(Emit::Single(release)) || u.contains(release) || u.contains(
            Event::ByPassLocal(Box::new(release)),
        ),
        ActionView::Done(e, u) => e.contains(Emit::Single(release)) || u.contains(release) || u.contains(
            Event::ByPassLocal(Box::new(release)),
        ),
        _ => false,
    }
}

/// A one-shot key lets go of its action whenever it stops holding it: each
/// step that leaves the states in which the action is held emits (or hands
/// on) a release of the action key on the device of the event. In particular,
/// after the key was used as a modifier, its own release emits exactly the
/// release of the action and ends the operator.
pub proof fn law_oneshot_releases_its_action(op: ActiveOneshotOperator, device: Rc<InputDeviceInfo>, ke: KeyEvent)
    requires
        op.accepts(Event::KeyEvent(device, ke)),
    ensures
        action_held(op.state) && !action_held(spec_oneshot_on_event(op, Event::KeyEvent(device, ke)).0) ==> lets_go_of(
            spec_oneshot_on_event(op, Event::KeyEvent(device, ke)).1,
            device,
            op.action,
        ),
        op.state == OneshotState::StandardMod && ke.key == op.key && ke.value is Release ==> spec_oneshot_on_event(
            op,
            Event::KeyEvent(device, ke),
        ) == (
            OneshotState::Done,
            ActionView::Done(
                seq![Emit::Single(Event::KeyEvent(device, KeyEvent { key: op.action, value: KeyValue::Release }))],
                Seq::empty(),
            ),
        ),
{
    let release = Event::KeyEvent(device, KeyEvent { key: op.action, value: KeyValue::Release });
    let step = spec_oneshot_on_event(op, Event::KeyEvent(device, ke));
    if action_held(op.state) && !action_held(step.0) {
        match step.1 {
            ActionView::Partial(e, u) => {
                assert(e[0] == Emit::Single(release));
            },
            ActionView::Done(e, u) => {
                if op.state == OneshotState::StandardMod {
                    assert(e[0] == Emit::Single(release));
                } else {
                    assert(u[1] == Event::ByPassLocal(Box::new(release)));
                }
            },
            _ => {},
        }
    }
}

/// A one-shot key presses its action on its first press, on the device of
/// that press.
pub proof fn law_oneshot_presses_its_action(op: ActiveOneshotOperator, device: Rc<InputDeviceInfo>, ke: KeyEvent)
    requires
        op.state == OneshotState::New,
        ke.value is Press,
    ensures
        spec_oneshot_on_event(op, Event::KeyEvent(device, ke)) == (
            OneshotState::Pressed,
            ActionView::Partial(
                seq![Emit::Single(Event::KeyEvent(device, KeyEvent { key: op.action, value: KeyValue::Press }))],
                Seq::empty(),
            ),
        ),
{
}

} // verus!

verus! {

/// The other paths of a one-shot key, on events of `device`:
///  - released while still pressed alone, it keeps the action held for the
///    next key;
///  - pressed with another key first, it lets that key through and stays a
///    modifier;
///  - pressed again while it waits, it releases the action and lets its own
///    press through, and its release then releases the key itself;
///  - another key pressed while it waits goes on, and the action is released
///    after it.
pub proof fn law_oneshot_paths(op: ActiveOneshotOperator, device: Rc<InputDeviceInfo>, ke: KeyEvent)
    ensures
        op.state == OneshotState::Pressed && ke.key == op.key && ke.value is Release ==> spec_oneshot_on_event(
            op,
            Event::KeyEvent(device, ke),
        ) == (OneshotState::Oneshot, ActionView::Partial(Seq::<Emit>::empty(), Seq::<Event>::empty())),
        op.state == OneshotState::Pressed && ke.key != op.key && ke.value is Press ==> spec_oneshot_on_event(
            op,
            Event::KeyEvent(device, ke),
        ) == (OneshotState::StandardMod, ActionView::Unhandled),
        op.state == OneshotState::Oneshot && ke.key == op.key && ke.value is Press ==> spec_oneshot_on_event(
            op,
            Event::KeyEvent(device, ke),
        ) == (
            OneshotState::Cancel,
            ActionView::Partial(
                seq![
                    Emit::Single(Event::KeyEvent(device, KeyEvent { key: op.action, value: KeyValue::Release })),
                    Emit::Single(Event::KeyEvent(device, ke)),
                ],
                Seq::<Event>::empty(),
            ),
        ),
        op.state == OneshotState::Cancel && ke.key == op.key && ke.value is Release ==> spec_oneshot_on_event(
            op,
            Event::KeyEvent(device, ke),
        ) == (
            OneshotState::Done,
            ActionView::Done(
                seq![Emit::Single(Event::KeyEvent(device, KeyEvent { key: op.key, value: KeyValue::Release }))],
                Seq::<Event>::empty(),
            ),
        ),
        op.state == OneshotState::Oneshot && ke.key != op.key && ke.value is Press ==> spec_oneshot_on_event(
            op,
            Event::KeyEvent(device, ke),
        ) == (
            OneshotState::Done,
            ActionView::Done(
                Seq::<Emit>::empty(),
                seq![
                    Event::KeyEvent(device, ke),
                    Event::ByPassLocal(Box::new(Event::KeyEvent(device, KeyEvent { key: op.action, value: KeyValue::Release }))),
                ],
            ),
        ),
        op.state != OneshotState::New && ke.key != op.key && !(ke.value is Press) ==> spec_oneshot_on_event(
            op,
            Event::KeyEvent(device, ke),
        ) == (op.state, ActionView::Unhandled),
{
}

} // verus!
