use crate::clock::{is_within_timeout, within_timeout};
use crate::event::{share, Event, InputDeviceInfo, KeyEvent};
use crate::keys::KeyValue;
use crate::operators::{clone_actions, emits_each, map_actions, spec_map_actions, ActionView, ExpmapAction, OperatorAction};
use std::rc::Rc;
use vstd::prelude::*;

verus! {

/// A double tap of `key` within `timeout_ms` emits `actions`.
#[derive(Debug)]
pub struct DoubleTapOperator {
    pub key: u16,
    pub actions: Vec<ExpmapAction>,
    pub timeout_ms: u64,
}

impl View for DoubleTapOperator {
    type V = (u16, Seq<ExpmapAction>, u64);

    open spec fn view(&self) -> Self::V {
        (self.key, self.actions@, self.timeout_ms)
    }
}

impl DoubleTapOperator {
    /// A copy of this double tap.
    pub fn duplicate(&self) -> (r: DoubleTapOperator)
        ensures
            r@ == self@,
    {
        DoubleTapOperator { key: self.key, actions: clone_actions(&self.actions), timeout_ms: self.timeout_ms }
    }

    /// The double tap is started by its key.
    pub fn get_operators(&self) -> (r: Vec<(u16, DoubleTapOperator)>)
        ensures
            r@.len() == 1,
            r@[0].0 == self.key,
            r@[0].1@ == self@,
    {
        let mut result: Vec<(u16, DoubleTapOperator)> = Vec::new();
        result.push((self.key, self.duplicate()));
        result
    }

    /// The operator that starts matching when `key_event` is pressed on
    /// `device` at time `now`.
    pub fn get_active_operator(&self, device: Rc<InputDeviceInfo>, key_event: &KeyEvent, now: u64) -> (r:
        ActiveDoubleTapOperator)
        ensures
            r.key == key_event.key,
            r.actions@ == self.actions@,
            r.timeout_ms == self.timeout_ms,
            r.start_ns == now,
            r.buffered@ == Seq::<Event>::empty(),
            r.state@ == DoubleTapStateView::Pressed(device),
    {
        ActiveDoubleTapOperator {
            key: key_event.key,
            actions: clone_actions(&self.actions),
            timeout_ms: self.timeout_ms,
            start_ns: now,
            buffered: Vec::new(),
            state: DoubleTapState::Pressed { device },
        }
    }
}

/// Where a double tap is.
#[derive(Debug)]
pub enum DoubleTapState {
    Pressed { device: Rc<InputDeviceInfo> },
    Tapped { press_device: Rc<InputDeviceInfo>, release_device: Rc<InputDeviceInfo> },
    Emitted,
    Done,
}

/// `DoubleTapState` as a value.
pub enum DoubleTapStateView {
    Pressed(Rc<InputDeviceInfo>),
    Tapped(Rc<InputDeviceInfo>, Rc<InputDeviceInfo>),
    Emitted,
    Done,
}

impl View for DoubleTapState {
    type V = DoubleTapStateView;

    open spec fn view(&self) -> DoubleTapStateView {
        match self {
            DoubleTapState::Pressed { device } => DoubleTapStateView::Pressed(*device),
            DoubleTapState::Tapped { press_device, release_device } => DoubleTapStateView::Tapped(
                *press_device,
                *release_device,
            ),
            DoubleTapState::Emitted => DoubleTapStateView::Emitted,
            DoubleTapState::Done => DoubleTapStateView::Done,
        }
    }
}

/// A double tap that has started matching.
#[derive(Debug)]
pub struct ActiveDoubleTapOperator {
    pub key: u16,
    pub actions: Vec<ExpmapAction>,
    pub timeout_ms: u64,
    /// Time of the first press.
    pub start_ns: u64,
    pub buffered: Vec<Event>,
    pub state: DoubleTapState,
}

/// The state, buffer and action after a step of a double tap.
pub type DoubleTapStep = (DoubleTapStateView, Seq<Event>, ActionView);

/// The state is still matching: pressed once, or tapped once.
pub open spec fn dt_matching(state: DoubleTapStateView) -> bool {
    state is Pressed || state is Tapped
}

/// A press of `key_event` on `device`.
pub open spec fn spec_dt_press(
    key: u16,
    actions: Seq<ExpmapAction>,
    state: DoubleTapStateView,
    buffered: Seq<Event>,
    device: Rc<InputDeviceInfo>,
    key_event: KeyEvent,
) -> DoubleTapStep {
    if key_event.key == key && (state is Pressed || state is Emitted) {
        // Spurious press.
        (state, buffered, ActionView::Undecided)
    } else if key_event.key == key && state is Tapped {
        (
            DoubleTapStateView::Emitted,
            Seq::empty(),
            ActionView::Partial(spec_map_actions(actions, device, KeyValue::Press), buffered),
        )
    } else if dt_matching(state) {
        (state, buffered.push(Event::KeyEvent(device, key_event)), ActionView::Undecided)
    } else {
        (state, buffered, ActionView::Unhandled)
    }
}

/// A release of `key_event` on `device`.
pub open spec fn spec_dt_release(
    key: u16,
    actions: Seq<ExpmapAction>,
    state: DoubleTapStateView,
    buffered: Seq<Event>,
    device: Rc<InputDeviceInfo>,
    key_event: KeyEvent,
) -> DoubleTapStep {
    match state {
        DoubleTapStateView::Pressed(press_device) => if key_event.key == key {
            (DoubleTapStateView::Tapped(press_device, device), buffered, ActionView::Undecided)
        } else {
            (state, buffered.push(Event::KeyEvent(device, key_event)), ActionView::Undecided)
        },
        DoubleTapStateView::Tapped(_, _) => if key_event.key == key {
            (state, buffered, ActionView::Undecided)
        } else {
            (state, buffered.push(Event::KeyEvent(device, key_event)), ActionView::Undecided)
        },
        DoubleTapStateView::Emitted => if key_event.key == key {
            (
                DoubleTapStateView::Done,
                buffered,
                ActionView::Done(spec_map_actions(actions, device, KeyValue::Release), Seq::empty()),
            )
        } else {
            (state, buffered, ActionView::Unhandled)
        },
        DoubleTapStateView::Done => (state, buffered, ActionView::Unhandled),
    }
}

/// A repeat of `key_event` on `device`.
pub open spec fn spec_dt_repeat(
    key: u16,
    actions: Seq<ExpmapAction>,
    state: DoubleTapStateView,
    buffered: Seq<Event>,
    device: Rc<InputDeviceInfo>,
    key_event: KeyEvent,
) -> DoubleTapStep {
    if dt_matching(state) {
        (state, buffered, ActionView::Undecided)
    } else if state is Emitted && key_event.key == key {
        (state, buffered, ActionView::Partial(spec_map_actions(actions, device, KeyValue::Repeat), Seq::empty()))
    } else {
        (state, buffered, ActionView::Unhandled)
    }
}

/// A tick at time `now`: a double tap still matching is canceled once its
/// timeout has passed.
pub open spec fn spec_dt_tick(
    state: DoubleTapStateView,
    buffered: Seq<Event>,
    start: u64,
    now: u64,
    timeout_ms: u64,
) -> DoubleTapStep {
    if dt_matching(state) {
        if within_timeout(start, now, timeout_ms) {
            (state, buffered, ActionView::Undecided)
        } else {
            (DoubleTapStateView::Done, buffered, ActionView::Cancel)
        }
    } else {
        (state, buffered, ActionView::Unhandled)
    }
}

/// Any other event: buffered while matching, let through afterwards.
pub open spec fn spec_dt_other(state: DoubleTapStateView, buffered: Seq<Event>, event: Event) -> DoubleTapStep {
    if dt_matching(state) {
        (state, buffered.push(event), ActionView::Undecided)
    } else {
        (state, buffered, ActionView::Unhandled)
    }
}

/// An active double tap as plain values.
pub struct DtOpView {
    pub key: u16,
    pub actions: Seq<ExpmapAction>,
    pub timeout_ms: u64,
    pub start_ns: u64,
    pub buffered: Seq<Event>,
    pub state: DoubleTapStateView,
}

impl View for ActiveDoubleTapOperator {
    type V = DtOpView;

    open spec fn view(&self) -> DtOpView {
        DtOpView {
            key: self.key,
            actions: self.actions@,
            timeout_ms: self.timeout_ms,
            start_ns: self.start_ns,
            buffered: self.buffered@,
            state: self.state@,
        }
    }
}

/// The step of a double tap on `event` at time `now`.
pub open spec fn spec_dt_on_event(op: DtOpView, event: Event, now: u64) -> DoubleTapStep {
    match event {
        Event::KeyEvent(device, key_event) => match key_event.value {
            KeyValue::Press => spec_dt_press(op.key, op.actions, op.state, op.buffered, device, key_event),
            KeyValue::Release => spec_dt_release(op.key, op.actions, op.state, op.buffered, device, key_event),
            KeyValue::Repeat => spec_dt_repeat(op.key, op.actions, op.state, op.buffered, device, key_event),
        },
        Event::Tick => spec_dt_tick(op.state, op.buffered, op.start_ns, now, op.timeout_ms),
        _ => spec_dt_other(op.state, op.buffered, event),
    }
}

/// The double tap after its step on `event` at time `now`.
pub open spec fn dt_after(op: DtOpView, event: Event, now: u64) -> DtOpView {
    let step = spec_dt_on_event(op, event, now);
    DtOpView { buffered: step.1, state: step.0, ..op }
}

impl DoubleTapState {
    /// A copy of this state.
    pub fn duplicate(&self) -> (r: DoubleTapState)
        ensures
            r@ == self@,
    {
        match self {
            DoubleTapState::Pressed { device } => DoubleTapState::Pressed { device: share(device) },
            DoubleTapState::Tapped { press_device, release_device } => DoubleTapState::Tapped {
                press_device: share(press_device),
                release_device: share(release_device),
            },
            DoubleTapState::Emitted => DoubleTapState::Emitted,
            DoubleTapState::Done => DoubleTapState::Done,
        }
    }
}

impl ActiveDoubleTapOperator {
    /// A copy of this double tap.
    pub fn duplicate(&self) -> (r: ActiveDoubleTapOperator)
        ensures
            r@ == self@,
    {
        ActiveDoubleTapOperator {
            key: self.key,
            actions: clone_actions(&self.actions),
            timeout_ms: self.timeout_ms,
            start_ns: self.start_ns,
            buffered: crate::event::clone_events(&self.buffered),
            state: self.state.duplicate(),
        }
    }

    /// The double tap can take any event until it is done.
    pub open spec fn accepts(&self, event: Event) -> bool {
        !(self@.state is Done)
    }


    /// Whether the double tap can take `event`.
    pub fn can_take(&self, event: &Event) -> (r: bool)
        ensures
            r == self.accepts(*event),
    {
        match &self.state {
            DoubleTapState::Done => false,
            _ => true,
        }
    }

    /// Takes `event` at time `now`.
    pub fn on_event(&mut self, event: &Event, now: u64) -> (r: OperatorAction)
        requires
            old(self).accepts(*event),
        ensures
            (final(self).state@, final(self).buffered@, r@) == spec_dt_on_event(old(self)@, *event, now),
            final(self)@ == dt_after(old(self)@, *event, now),
            final(self).key == old(self).key,
            final(self).actions@ == old(self).actions@,
            final(self).timeout_ms == old(self).timeout_ms,
            final(self).start_ns == old(self).start_ns,
    {
        match event {
            Event::KeyEvent(device, key_event) => match key_event.value {
                KeyValue::Press => self.on_press(share(device), key_event),
                KeyValue::Release => self.on_release(share(device), key_event),
                KeyValue::Repeat => self.on_repeat(share(device), key_event),
            },
            Event::Tick => self.on_tick(now),
            _ => self.on_other(event),
        }
    }

    fn on_press(&mut self, device: Rc<InputDeviceInfo>, key_event: &KeyEvent) -> (r: OperatorAction)
        ensures
            (final(self).state@, final(self).buffered@, r@) == spec_dt_press(
                old(self).key,
                old(self).actions@,
                old(self).state@,
                old(self).buffered@,
                device,
                *key_event,
            ),
            final(self).key == old(self).key,
            final(self).actions@ == old(self).actions@,
            final(self).timeout_ms == old(self).timeout_ms,
            final(self).start_ns == old(self).start_ns,
    {
        let same = self.key == key_event.key;
        match &self.state {
            DoubleTapState::Pressed { .. } if same => {
                // Suppress spurious press.
                OperatorAction::Undecided
            },
            DoubleTapState::Emitted if same => {
                // Suppress spurious press.
                OperatorAction::Undecided
            },
            DoubleTapState::Tapped { .. } if same => {
                let emit = map_actions(&self.actions, device, KeyValue::Press);
                // Flush buffered events.
                let mut buffered: Vec<Event> = Vec::new();
                std::mem::swap(&mut buffered, &mut self.buffered);
                self.state = DoubleTapState::Emitted;
                OperatorAction::Partial(emit, buffered)
            },
            // Buffer events while matching.
            DoubleTapState::Pressed { .. } | DoubleTapState::Tapped { .. } => {
                self.buffered.push(Event::KeyEvent(device, *key_event));
                OperatorAction::Undecided
            },
            _ => OperatorAction::Unhandled,
        }
    }

    fn on_release(&mut self, device: Rc<InputDeviceInfo>, key_event: &KeyEvent) -> (r: OperatorAction)
        ensures
            (final(self).state@, final(self).buffered@, r@) == spec_dt_release(
                old(self).key,
                old(self).actions@,
                old(self).state@,
                old(self).buffered@,
                device,
                *key_event,
            ),
            final(self).key == old(self).key,
            final(self).actions@ == old(self).actions@,
            final(self).timeout_ms == old(self).timeout_ms,
            final(self).start_ns == old(self).start_ns,
    {
        let same = self.key == key_event.key;
        let pressed_on: Option<Rc<InputDeviceInfo>> = match &self.state {
            DoubleTapState::Pressed { device: press_device } => Some(share(press_device)),
            _ => None,
        };
        if same && pressed_on.is_some() {
            let press_device = match pressed_on {
                Some(d) => d,
                None => share(&device),
            };
            self.state = DoubleTapState::Tapped { press_device, release_device: device };
            OperatorAction::Undecided
        } else if same {
            match &self.state {
                DoubleTapState::Emitted => {
                    self.state = DoubleTapState::Done;
                    OperatorAction::Done(map_actions(&self.actions, device, KeyValue::Release), Vec::new())
                },
                // Suppress spurious release.
                DoubleTapState::Tapped { .. } => OperatorAction::Undecided,
                _ => OperatorAction::Unhandled,
            }
        } else {
            match &self.state {
                DoubleTapState::Pressed { .. } | DoubleTapState::Tapped { .. } => {
                    self.buffered.push(Event::KeyEvent(device, *key_event));
                    OperatorAction::Undecided
                },
                // Unrelated keys are not buffered after emit.
                _ => OperatorAction::Unhandled,
            }
        }
    }

    fn on_repeat(&mut self, device: Rc<InputDeviceInfo>, key_event: &KeyEvent) -> (r: OperatorAction)
        ensures
            (final(self).state@, final(self).buffered@, r@) == spec_dt_repeat(
                old(self).key,
                old(self).actions@,
                old(self).state@,
                old(self).buffered@,
                device,
                *key_event,
            ),
            final(self).key == old(self).key,
            final(self).actions@ == old(self).actions@,
            final(self).timeout_ms == old(self).timeout_ms,
            final(self).start_ns == old(self).start_ns,
    {
        match &self.state {
            // Suppress repeats while matching.
            DoubleTapState::Pressed { .. } | DoubleTapState::Tapped { .. } => OperatorAction::Undecided,
            // Repeat the emitted key.
            DoubleTapState::Emitted if self.key == key_event.key => {
                OperatorAction::Partial(map_actions(&self.actions, device, KeyValue::Repeat), Vec::new())
            },
            _ => OperatorAction::Unhandled,
        }
    }

    fn on_tick(&mut self, now: u64) -> (r: OperatorAction)
        ensures
            (final(self).state@, final(self).buffered@, r@) == spec_dt_tick(
                old(self).state@,
                old(self).buffered@,
                old(self).start_ns,
                now,
                old(self).timeout_ms,
            ),
            final(self).key == old(self).key,
            final(self).actions@ == old(self).actions@,
            final(self).timeout_ms == old(self).timeout_ms,
            final(self).start_ns == old(self).start_ns,
    {
        match &self.state {
            DoubleTapState::Pressed { .. } | DoubleTapState::Tapped { .. } => {
                if is_within_timeout(self.start_ns, now, self.timeout_ms) {
                    OperatorAction::Undecided
                } else {
                    self.state = DoubleTapState::Done;
                    OperatorAction::Cancel
                }
            },
            // After emit the timeout is not canceled, so ticks still come.
            _ => OperatorAction::Unhandled,
        }
    }

    fn on_other(&mut self, event: &Event) -> (r: OperatorAction)
        ensures
            (final(self).state@, final(self).buffered@, r@) == spec_dt_other(old(self).state@, old(self).buffered@, *event),
            final(self).key == old(self).key,
            final(self).actions@ == old(self).actions@,
            final(self).timeout_ms == old(self).timeout_ms,
            final(self).start_ns == old(self).start_ns,
    {
        match &self.state {
            DoubleTapState::Pressed { .. } | DoubleTapState::Tapped { .. } => {
                self.buffered.push(event.clone());
                OperatorAction::Undecided
            },
            _ => OperatorAction::Unhandled,
        }
    }
}

} // verus!

verus! {

/// A double tap presses its actions, on the device of the second press, when
/// its key is pressed again after a tap, and hands on what it held back; once
/// emitted, the release of its key releases the actions on the device of that
/// release and ends it, and a repeat of the key repeats them.
pub proof fn law_double_tap_presses_and_releases_actions(op: DtOpView, device: Rc<InputDeviceInfo>, ke: KeyEvent, now: u64)
    ensures
        op.state is Tapped && ke.key == op.key && ke.value is Press ==> ({
            let step = spec_dt_on_event(op, Event::KeyEvent(device, ke), now);
            &&& step.0 == DoubleTapStateView::Emitted
            &&& step.2 matches ActionView::Partial(e, u) && emits_each(e, op.actions, device, KeyValue::Press) && u
                == op.buffered
        }),
        op.state is Emitted && ke.key == op.key && ke.value is Release ==> ({
            let step = spec_dt_on_event(op, Event::KeyEvent(device, ke), now);
            &&& step.0 == DoubleTapStateView::Done
            &&& step.2 matches ActionView::Done(e, u) && emits_each(e, op.actions, device, KeyValue::Release) && u.len()
                == 0
        }),
        op.state is Emitted && ke.key == op.key && ke.value is Repeat ==> (spec_dt_on_event(
            op,
            Event::KeyEvent(device, ke),
            now,
        ).2 matches ActionView::Partial(e, u) && emits_each(e, op.actions, device, KeyValue::Repeat) && u.len() == 0),
{
}

} // verus!
