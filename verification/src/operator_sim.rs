use crate::clock::{is_within_timeout, within_timeout};
use crate::event::{share, Event, InputDeviceInfo, KeyEvent};
use crate::keys::KeyValue;
use crate::operators::{clone_actions, emits_each, map_actions, spec_map_actions, ActionView, ExpmapAction, OperatorAction};
use crate::util::{clone_keys, remove_all, vec_contains, without};
use std::rc::Rc;
use vstd::prelude::*;

verus! {

/// A chord: `actions` are emitted when all `keys` are pressed within
/// `timeout_ms` of the first one.
///
///  - The action is released when the first trigger key is released.
///  - The other trigger keys then stay out of sync between physical and
///    emitted state, so the operator stays active to filter their releases.
///  - The chord can only be emitted again after all trigger keys are released.
///  - The device of the last trigger key is used for all emitted actions, and
///    for the repeat and release that follow.
#[derive(Debug)]
pub struct SimOperator {
    pub keys: Vec<u16>,
    pub actions: Vec<ExpmapAction>,
    pub timeout_ms: u64,
}

impl View for SimOperator {
    type V = (Seq<u16>, Seq<ExpmapAction>, u64);

    open spec fn view(&self) -> Self::V {
        (self.keys@, self.actions@, self.timeout_ms)
    }
}

impl SimOperator {
    /// A copy of this chord.
    pub fn duplicate(&self) -> (r: SimOperator)
        ensures
            r@ == self@,
    {
        SimOperator { keys: clone_keys(&self.keys), actions: clone_actions(&self.actions), timeout_ms: self.timeout_ms }
    }

    /// The chord needs one definition for each of its keys, since each of them
    /// can start it.
    pub fn get_operators(&self) -> (r: Vec<(u16, SimOperator)>)
        requires
            self.keys@.len() >= 2,
        ensures
            r@.len() == self.keys@.len(),
            forall|i: int| 0 <= i < r@.len() ==> (#[trigger] r@[i]).0 == self.keys@[i] && r@[i].1@ == self@,
    {
        let mut result: Vec<(u16, SimOperator)> = Vec::new();
        let mut i: usize = 0;
        while i < self.keys.len()
            invariant
                i <= self.keys.len(),
                result@.len() == i,
                forall|j: int| 0 <= j < i ==> (#[trigger] result@[j]).0 == self.keys@[j] && result@[j].1@ == self@,
            decreases self.keys.len() - i,
        {
            result.push((self.keys[i], self.duplicate()));
            i = i + 1;
        }
        result
    }

    /// The operator that starts matching when `key_event` (a trigger key) is
    /// pressed at time `now`.
    pub fn get_active_operator(&self, key_event: &KeyEvent, now: u64) -> (r: ActiveSimOperator)
        ensures
            r.keys@ == self.keys@,
            r.actions@ == self.actions@,
            r.timeout_ms == self.timeout_ms,
            r.start_ns == now,
            r.buffered@ == Seq::<Event>::empty(),
            r.state@ == SimStateView::Pressed(without(self.keys@, key_event.key)),
    {
        let mut still_missing = clone_keys(&self.keys);
        remove_all(&mut still_missing, key_event.key);
        ActiveSimOperator {
            keys: clone_keys(&self.keys),
            actions: clone_actions(&self.actions),
            timeout_ms: self.timeout_ms,
            start_ns: now,
            buffered: Vec::new(),
            state: SimState::Pressed { still_missing },
        }
    }
}

/// Where a chord is.
#[derive(Debug)]
pub enum SimState {
    /// Some trigger keys have been pressed.
    Pressed { still_missing: Vec<u16> },
    /// The action has been pressed.
    Emitted { device: Rc<InputDeviceInfo> },
    /// The action has been released, and releases of triggers are squashed.
    Released { still_pressed: Vec<u16> },
    /// All trigger keys have been released again, or the chord was canceled.
    Done,
}

/// `SimState` with its vectors as sequences.
pub enum SimStateView {
    Pressed(Seq<u16>),
    Emitted(Rc<InputDeviceInfo>),
    Released(Seq<u16>),
    Done,
}

impl View for SimState {
    type V = SimStateView;

    open spec fn view(&self) -> SimStateView {
        match self {
            SimState::Pressed { still_missing } => SimStateView::Pressed(still_missing@),
            SimState::Emitted { device } => SimStateView::Emitted(*device),
            SimState::Released { still_pressed } => SimStateView::Released(still_pressed@),
            SimState::Done => SimStateView::Done,
        }
    }
}

/// A chord that has started matching.
#[derive(Debug)]
pub struct ActiveSimOperator {
    pub keys: Vec<u16>,
    pub actions: Vec<ExpmapAction>,
    pub timeout_ms: u64,
    /// Time of the first press.
    pub start_ns: u64,
    pub buffered: Vec<Event>,
    pub state: SimState,
}

/// The state, buffer and action after a step of a chord.
pub type SimStep = (SimStateView, Seq<Event>, ActionView);

/// A press of `key_event` on `device`.
pub open spec fn spec_sim_press(
    keys: Seq<u16>,
    actions: Seq<ExpmapAction>,
    state: SimStateView,
    buffered: Seq<Event>,
    device: Rc<InputDeviceInfo>,
    key_event: KeyEvent,
) -> SimStep {
    let key = key_event.key;
    match state {
        SimStateView::Pressed(missing) => if missing == seq![key] {
            (
                SimStateView::Emitted(device),
                Seq::empty(),
                ActionView::Partial(spec_map_actions(actions, device, KeyValue::Press), buffered),
            )
        } else if missing.contains(key) {
            (SimStateView::Pressed(without(missing, key)), buffered, ActionView::Undecided)
        } else {
            (state, buffered.push(Event::KeyEvent(device, key_event)), ActionView::Undecided)
        },
        _ => (state, buffered, ActionView::Unhandled),
    }
}

/// A release of `key_event` on `device`.
pub open spec fn spec_sim_release(
    keys: Seq<u16>,
    actions: Seq<ExpmapAction>,
    state: SimStateView,
    buffered: Seq<Event>,
    device: Rc<InputDeviceInfo>,
    key_event: KeyEvent,
) -> SimStep {
    let key = key_event.key;
    match state {
        SimStateView::Pressed(missing) => if keys.contains(key) && !missing.contains(key) {
            (SimStateView::Done, buffered, ActionView::Cancel)
        } else {
            (state, buffered.push(Event::KeyEvent(device, key_event)), ActionView::Undecided)
        },
        SimStateView::Emitted(emit_device) => if keys.contains(key) {
            (
                SimStateView::Released(without(keys, key)),
                buffered,
                ActionView::Partial(spec_map_actions(actions, emit_device, KeyValue::Release), Seq::empty()),
            )
        } else {
            (state, buffered, ActionView::Unhandled)
        },
        SimStateView::Released(still_pressed) => if still_pressed == seq![key] {
            (SimStateView::Done, buffered, ActionView::Done(Seq::empty(), Seq::empty()))
        } else if still_pressed.contains(key) {
            (SimStateView::Released(without(still_pressed, key)), buffered, ActionView::Partial(Seq::empty(), Seq::empty()))
        } else {
            (state, buffered, ActionView::Unhandled)
        },
        SimStateView::Done => (state, buffered, ActionView::Unhandled),
    }
}

/// A repeat of `key`.
pub open spec fn spec_sim_repeat(
    keys: Seq<u16>,
    actions: Seq<ExpmapAction>,
    state: SimStateView,
    buffered: Seq<Event>,
    key: u16,
) -> SimStep {
    match state {
        SimStateView::Pressed(_) => (state, buffered, ActionView::Undecided),
        SimStateView::Emitted(emit_device) => if keys[0] == key {
            (state, buffered, ActionView::Partial(spec_map_actions(actions, emit_device, KeyValue::Repeat), Seq::empty()))
        } else if keys.contains(key) {
            (state, buffered, ActionView::Partial(Seq::empty(), Seq::empty()))
        } else {
            (state, buffered, ActionView::Unhandled)
        },
        SimStateView::Released(still_pressed) => if still_pressed.contains(key) {
            (state, buffered, ActionView::Partial(Seq::empty(), Seq::empty()))
        } else {
            (state, buffered, ActionView::Unhandled)
        },
        SimStateView::Done => (state, buffered, ActionView::Unhandled),
    }
}

/// A tick at time `now`: a chord still matching is canceled once its timeout
/// has passed.
pub open spec fn spec_sim_tick(state: SimStateView, buffered: Seq<Event>, start: u64, now: u64, timeout_ms: u64) -> SimStep {
    match state {
        SimStateView::Pressed(_) => if within_timeout(start, now, timeout_ms) {
            (state, buffered, ActionView::Undecided)
        } else {
            (SimStateView::Done, buffered, ActionView::Cancel)
        },
        _ => (state, buffered, ActionView::Unhandled),
    }
}

/// Any other event: buffered while matching, let through afterwards.
pub open spec fn spec_sim_other(state: SimStateView, buffered: Seq<Event>, event: Event) -> SimStep {
    match state {
        SimStateView::Pressed(_) => (state, buffered.push(event), ActionView::Undecided),
        _ => (state, buffered, ActionView::Unhandled),
    }
}

/// `event` presses one of `keys`.
pub open spec fn is_trigger_press(keys: Seq<u16>, event: Event) -> bool {
    match event {
        Event::KeyEvent(_, ke) => ke.value is Press && keys.contains(ke.key),
        _ => false,
    }
}

/// An active chord as plain values.
pub struct SimOpView {
    pub keys: Seq<u16>,
    pub actions: Seq<ExpmapAction>,
    pub timeout_ms: u64,
    pub start_ns: u64,
    pub buffered: Seq<Event>,
    pub state: SimStateView,
}

impl View for ActiveSimOperator {
    type V = SimOpView;

    open spec fn view(&self) -> SimOpView {
        SimOpView {
            keys: self.keys@,
            actions: self.actions@,
            timeout_ms: self.timeout_ms,
            start_ns: self.start_ns,
            buffered: self.buffered@,
            state: self.state@,
        }
    }
}

/// The step of a chord on `event` at time `now`.
pub open spec fn spec_sim_on_event(op: SimOpView, event: Event, now: u64) -> SimStep {
    match event {
        Event::KeyEvent(device, key_event) => match key_event.value {
            KeyValue::Press => spec_sim_press(op.keys, op.actions, op.state, op.buffered, device, key_event),
            KeyValue::Release => spec_sim_release(op.keys, op.actions, op.state, op.buffered, device, key_event),
            KeyValue::Repeat => spec_sim_repeat(op.keys, op.actions, op.state, op.buffered, key_event.key),
        },
        Event::Tick => spec_sim_tick(op.state, op.buffered, op.start_ns, now, op.timeout_ms),
        _ => spec_sim_other(op.state, op.buffered, event),
    }
}

/// The chord after its step on `event` at time `now`.
pub open spec fn sim_after(op: SimOpView, event: Event, now: u64) -> SimOpView {
    let step = spec_sim_on_event(op, event, now);
    SimOpView { buffered: step.1, state: step.0, ..op }
}

/// The chord can take `event`: it is not done, and `event` is not a second
/// press of a trigger key while the chord is emitted (all of its keys are
/// down then).
pub open spec fn sim_accepts(op: SimOpView, event: Event) -> bool {
    &&& !(op.state is Done)
    &&& op.keys.len() >= 1
    &&& !(op.state is Emitted && is_trigger_press(op.keys, event))
}

impl SimState {
    /// A copy of this state.
    pub fn duplicate(&self) -> (r: SimState)
        ensures
            r@ == self@,
    {
        match self {
            SimState::Pressed { still_missing } => SimState::Pressed { still_missing: clone_keys(still_missing) },
            SimState::Emitted { device } => SimState::Emitted { device: share(device) },
            SimState::Released { still_pressed } => SimState::Released { still_pressed: clone_keys(still_pressed) },
            SimState::Done => SimState::Done,
        }
    }
}

impl ActiveSimOperator {
    /// A copy of this chord.
    pub fn duplicate(&self) -> (r: ActiveSimOperator)
        ensures
            r@ == self@,
    {
        ActiveSimOperator {
            keys: clone_keys(&self.keys),
            actions: clone_actions(&self.actions),
            timeout_ms: self.timeout_ms,
            start_ns: self.start_ns,
            buffered: crate::event::clone_events(&self.buffered),
            state: self.state.duplicate(),
        }
    }

    /// The chord can take `event` (see `sim_accepts`).
    pub open spec fn accepts(&self, event: Event) -> bool {
        sim_accepts(self@, event)
    }


    /// Whether the chord can take `event`.
    pub fn can_take(&self, event: &Event) -> (r: bool)
        ensures
            r == self.accepts(*event),
    {
        if self.keys.len() < 1 {
            return false;
        }
        match &self.state {
            SimState::Done => false,
            SimState::Emitted { .. } => match event {
                Event::KeyEvent(_, ke) => !(ke.value == KeyValue::Press && vec_contains(&self.keys, ke.key)),
                _ => true,
            },
            _ => true,
        }
    }

    /// Takes `event` at time `now`.
    pub fn on_event(&mut self, event: &Event, now: u64) -> (r: OperatorAction)
        requires
            old(self).accepts(*event),
        ensures
            (final(self).state@, final(self).buffered@, r@) == spec_sim_on_event(old(self)@, *event, now),
            final(self)@ == sim_after(old(self)@, *event, now),
            final(self).keys@ == old(self).keys@,
            final(self).actions@ == old(self).actions@,
            final(self).timeout_ms == old(self).timeout_ms,
            final(self).start_ns == old(self).start_ns,
    {
        match event {
            Event::KeyEvent(device, key_event) => match key_event.value {
                KeyValue::Press => self.on_press(share(device), key_event),
                KeyValue::Release => self.on_release(share(device), key_event),
                KeyValue::Repeat => self.on_repeat(key_event),
            },
            Event::Tick => self.on_tick(now),
            _ => self.on_other(event),
        }
    }

    fn on_press(&mut self, device: Rc<InputDeviceInfo>, key_event: &KeyEvent) -> (r: OperatorAction)
        requires
            !(old(self).state is Done),
            old(self).state is Emitted ==> !old(self).keys@.contains(key_event.key),
        ensures
            (final(self).state@, final(self).buffered@, r@) == spec_sim_press(
                old(self).keys@,
                old(self).actions@,
                old(self).state@,
                old(self).buffered@,
                device,
                *key_event,
            ),
            final(self).keys@ == old(self).keys@,
            final(self).actions@ == old(self).actions@,
            final(self).timeout_ms == old(self).timeout_ms,
            final(self).start_ns == old(self).start_ns,
    {
        let key = key_event.key;
        let next: Option<Vec<u16>> = match &self.state {
            SimState::Pressed { still_missing } => {
                if still_missing.len() == 1 && still_missing[0] == key {
                    assert(still_missing@ =~= seq![key]);
                    None
                } else if vec_contains(still_missing, key) {
                    let mut m = clone_keys(still_missing);
                    remove_all(&mut m, key);
                    Some(m)
                } else {
                    assert(still_missing@ != seq![key]) by {
                        if still_missing@ == seq![key] {
                            assert(still_missing@[0] == key);
                        }
                    }
                    self.buffered.push(Event::KeyEvent(share(&device), *key_event));
                    return OperatorAction::Undecided;
                }
            },
            _ => {
                return OperatorAction::Unhandled;
            },
        };
        match next {
            None => {
                // All keys pressed.
                let emit = map_actions(&self.actions, share(&device), KeyValue::Press);
                let mut buffered: Vec<Event> = Vec::new();
                std::mem::swap(&mut buffered, &mut self.buffered);
                self.state = SimState::Emitted { device };
                OperatorAction::Partial(emit, buffered)
            },
            Some(m) => {
                // One more trigger key pressed, but not all yet.
                proof {
                    let sm = old(self).state->Pressed_still_missing@;
                    assert(sm != seq![key]) by {
                        if sm == seq![key] {
                            assert(sm.len() == 1 && sm[0] == key);
                        }
                    }
                }
                self.state = SimState::Pressed { still_missing: m };
                OperatorAction::Undecided
            },
        }
    }

    fn on_release(&mut self, device: Rc<InputDeviceInfo>, key_event: &KeyEvent) -> (r: OperatorAction)
        requires
            !(old(self).state is Done),
        ensures
            (final(self).state@, final(self).buffered@, r@) == spec_sim_release(
                old(self).keys@,
                old(self).actions@,
                old(self).state@,
                old(self).buffered@,
                device,
                *key_event,
            ),
            final(self).keys@ == old(self).keys@,
            final(self).actions@ == old(self).actions@,
            final(self).timeout_ms == old(self).timeout_ms,
            final(self).start_ns == old(self).start_ns,
    {
        let key = key_event.key;
        let is_trigger = vec_contains(&self.keys, key);
        match &self.state {
            SimState::Pressed { still_missing } => {
                if is_trigger && !vec_contains(still_missing, key) {
                    // A trigger key has been pressed and now released: cancel.
                    self.state = SimState::Done;
                    OperatorAction::Cancel
                } else {
                    self.buffered.push(Event::KeyEvent(share(&device), *key_event));
                    OperatorAction::Undecided
                }
            },
            SimState::Emitted { device: emit_device } => {
                if is_trigger {
                    let emit = map_actions(&self.actions, share(emit_device), KeyValue::Release);
                    let mut still_pressed = clone_keys(&self.keys);
                    remove_all(&mut still_pressed, key);
                    self.state = SimState::Released { still_pressed };
                    OperatorAction::Partial(emit, Vec::new())
                } else {
                    OperatorAction::Unhandled
                }
            },
            SimState::Released { still_pressed } => {
                if still_pressed.len() == 1 && still_pressed[0] == key {
                    // All released.
                    assert(still_pressed@ =~= seq![key]);
                    self.state = SimState::Done;
                    OperatorAction::Done(Vec::new(), Vec::new())
                } else if vec_contains(still_pressed, key) {
                    // To squash.
                    proof {
                        assert(still_pressed@ != seq![key]) by {
                            if still_pressed@ == seq![key] {
                                assert(still_pressed@[0] == key);
                            }
                        }
                    }
                    let mut m = clone_keys(still_pressed);
                    remove_all(&mut m, key);
                    self.state = SimState::Released { still_pressed: m };
                    OperatorAction::Partial(Vec::new(), Vec::new())
                } else {
                    // Unrelated, or a trigger key released again.
                    assert(still_pressed@ != seq![key]) by {
                        if still_pressed@ == seq![key] {
                            assert(still_pressed@[0] == key);
                        }
                    }
                    OperatorAction::Unhandled
                }
            },
            SimState::Done => OperatorAction::Unhandled,
        }
    }

    fn on_repeat(&mut self, key_event: &KeyEvent) -> (r: OperatorAction)
        requires
            old(self).keys@.len() >= 1,
        ensures
            (final(self).state@, final(self).buffered@, r@) == spec_sim_repeat(
                old(self).keys@,
                old(self).actions@,
                old(self).state@,
                old(self).buffered@,
                key_event.key,
            ),
            final(self).keys@ == old(self).keys@,
            final(self).actions@ == old(self).actions@,
            final(self).timeout_ms == old(self).timeout_ms,
            final(self).start_ns == old(self).start_ns,
    {
        let key = key_event.key;
        match &self.state {
            // Suppress repeats while matching.
            SimState::Pressed { .. } => OperatorAction::Undecided,
            SimState::Emitted { device } => {
                if self.keys[0] == key {
                    // Only one trigger key repeats the action, so repeats are
                    // not multiplied.
                    OperatorAction::Partial(map_actions(&self.actions, share(device), KeyValue::Repeat), Vec::new())
                } else if vec_contains(&self.keys, key) {
                    OperatorAction::Partial(Vec::new(), Vec::new())
                } else {
                    OperatorAction::Unhandled
                }
            },
            SimState::Released { still_pressed } => {
                if vec_contains(still_pressed, key) {
                    // Still squashed, it hasn't been released yet.
                    OperatorAction::Partial(Vec::new(), Vec::new())
                } else {
                    OperatorAction::Unhandled
                }
            },
            SimState::Done => OperatorAction::Unhandled,
        }
    }

    fn on_tick(&mut self, now: u64) -> (r: OperatorAction)
        ensures
            (final(self).state@, final(self).buffered@, r@) == spec_sim_tick(
                old(self).state@,
                old(self).buffered@,
                old(self).start_ns,
                now,
                old(self).timeout_ms,
            ),
            final(self).keys@ == old(self).keys@,
            final(self).actions@ == old(self).actions@,
            final(self).timeout_ms == old(self).timeout_ms,
            final(self).start_ns == old(self).start_ns,
    {
        match &self.state {
            SimState::Pressed { .. } => {
                if is_within_timeout(self.start_ns, now, self.timeout_ms) {
                    OperatorAction::Undecided
                } else {
                    self.state = SimState::Done;
                    OperatorAction::Cancel
                }
            },
            _ => OperatorAction::Unhandled,
        }
    }

    fn on_other(&mut self, event: &Event) -> (r: OperatorAction)
        ensures
            (final(self).state@, final(self).buffered@, r@) == spec_sim_other(old(self).state@, old(self).buffered@, *event),
            final(self).keys@ == old(self).keys@,
            final(self).actions@ == old(self).actions@,
            final(self).timeout_ms == old(self).timeout_ms,
            final(self).start_ns == old(self).start_ns,
    {
        match &self.state {
            SimState::Pressed { .. } => {
                self.buffered.push(event.clone());
                OperatorAction::Undecided
            },
            _ => OperatorAction::Unhandled,
        }
    }
}

} // verus!

verus! {

/// `event` releases one of `keys`.
pub open spec fn releases_trigger(keys: Seq<u16>, event: Event) -> bool {
    event matches Event::KeyEvent(_, ke) && ke.value is Release && keys.contains(ke.key)
}

/// The step emits one key event of each action, in state `value` on `device`,
/// and hands nothing on.
pub open spec fn partial_of_each(a: ActionView, actions: Seq<ExpmapAction>, device: Rc<InputDeviceInfo>, value: KeyValue) -> bool {
    match a {
        ActionView::Partial(e, u) => emits_each(e, actions, device, value) && u.len() == 0,
        _ => false,
    }
}

/// A chord presses its actions, on the device of the key that completes it,
/// when its last missing key is pressed, and hands on what it held back;
/// once emitted, it leaves that state only on the release of one of its keys,
/// and then releases its actions on the same device; released before all its
/// keys are down, it cancels.
pub proof fn law_chord_presses_and_releases_actions(op: SimOpView, event: Event, now: u64)
    ensures
        op.state matches SimStateView::Pressed(missing) ==> (event matches Event::KeyEvent(device, ke) ==> (ke.value
            is Press && missing == seq![ke.key] ==> ({
            let step = spec_sim_on_event(op, event, now);
            &&& step.0 == SimStateView::Emitted(device)
            &&& step.2 matches ActionView::Partial(e, u) && emits_each(e, op.actions, device, KeyValue::Press) && u
                == op.buffered
        }))),
        op.state matches SimStateView::Pressed(missing) ==> (event matches Event::KeyEvent(_, ke) ==> (ke.value
            is Release && op.keys.contains(ke.key) && !missing.contains(ke.key) ==> spec_sim_on_event(op, event, now).2
            is Cancel)),
        op.state matches SimStateView::Emitted(d) ==> (spec_sim_on_event(op, event, now).0 != op.state ==> (
        releases_trigger(op.keys, event) && partial_of_each(
            spec_sim_on_event(op, event, now).2,
            op.actions,
            d,
            KeyValue::Release,
        ))),
{
    if let SimStateView::Pressed(missing) = op.state {
        if let Event::KeyEvent(device, ke) = event {
            if ke.value is Press && missing == seq![ke.key] {
                if let ActionView::Partial(e, u) = spec_sim_on_event(op, event, now).2 {
                    assert(e == spec_map_actions(op.actions, device, KeyValue::Press));
                }
            }
        }
    }
}

} // verus!
