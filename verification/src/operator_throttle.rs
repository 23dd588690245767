use crate::clock::{is_within_timeout, within_timeout};
use crate::emit_handler::Emit;
use crate::event::{Event, InputDeviceInfo, KeyEvent};
use crate::keys::KeyValue;
use crate::operators::{ActionView, OperatorAction};
use std::rc::Rc;
use vstd::prelude::*;

verus! {

/// A throttled key: after a press and release of `key`, presses of it within
/// `timeout_ms` of the emitted press are squashed.
#[derive(Debug)]
pub struct ThrottleOperator {
    pub key: u16,
    pub timeout_ms: u64,
}

impl ThrottleOperator {
    /// The throttle of `key`, started by `key`.
    pub fn get_ops(key: u16, timeout_ms: u64) -> (r: Vec<(u16, ThrottleOperator)>)
        ensures
            r@.len() == 1,
            r@[0].0 == key,
            r@[0].1.key == key,
            r@[0].1.timeout_ms == timeout_ms,
    {
        let mut result: Vec<(u16, ThrottleOperator)> = Vec::new();
        result.push((key, ThrottleOperator { key, timeout_ms }));
        result
    }

    /// A fresh active throttle at time `now`; it is to be given the press of
    /// its key.
    pub fn get_active_operator(&self, now: u64) -> (r: ActiveThrottleOperator)
        ensures
            r.key == self.key,
            r.timeout_ms == self.timeout_ms,
            r.last_emit_ns == now,
            r.state == ThrottleState::New,
    {
        ActiveThrottleOperator { key: self.key, timeout_ms: self.timeout_ms, last_emit_ns: now, state: ThrottleState::New }
    }
}

/// Where a throttled key is.
#[derive(Debug, PartialEq, Eq, Structural)]
pub enum ThrottleState {
    New,
    /// The press is emitted; waiting for repeat or release.
    Active,
    /// The press is squashed; waiting for repeat or release.
    Squash,
    /// The key is up; waiting for the timeout.
    Inactive,
    Done,
}

/// A throttled key that has been started.
#[derive(Debug)]
pub struct ActiveThrottleOperator {
    pub key: u16,
    pub timeout_ms: u64,
    /// Set just before entering the active state with a press.
    pub last_emit_ns: u64,
    pub state: ThrottleState,
}

/// The state, time of the last emitted press, and action after a step.
pub type ThrottleStep = (ThrottleState, u64, ActionView);

/// A press of `ke` on `device` at time `now`.
pub open spec fn spec_throttle_press(
    key: u16,
    timeout_ms: u64,
    state: ThrottleState,
    last_emit: u64,
    device: Rc<InputDeviceInfo>,
    ke: KeyEvent,
    now: u64,
) -> ThrottleStep {
    let same = ke.key == key;
    let emit_press = (
        ThrottleState::Active,
        now,
        ActionView::Partial(seq![Emit::Single(Event::KeyEvent(device, ke))], Seq::empty()),
    );
    match state {
        ThrottleState::New => emit_press,
        ThrottleState::Inactive => if !within_timeout(last_emit, now, timeout_ms) {
            if same {
                // Pressed again after the timeout.
                emit_press
            } else {
                (ThrottleState::Done, last_emit, ActionView::Done(Seq::empty(), seq![Event::KeyEvent(device, ke)]))
            }
        } else if same {
            // Squash the press.
            (ThrottleState::Squash, last_emit, ActionView::Partial(Seq::empty(), Seq::empty()))
        } else {
            (state, last_emit, ActionView::Unhandled)
        },
        _ => if same {
            (state, last_emit, ActionView::Partial(Seq::empty(), Seq::empty()))
        } else {
            (state, last_emit, ActionView::Unhandled)
        },
    }
}

/// A release of `ke` on `device`.
pub open spec fn spec_throttle_release(
    key: u16,
    state: ThrottleState,
    last_emit: u64,
    device: Rc<InputDeviceInfo>,
    ke: KeyEvent,
) -> ThrottleStep {
    if ke.key != key {
        (state, last_emit, ActionView::Unhandled)
    } else {
        match state {
            ThrottleState::Active => (
                ThrottleState::Inactive,
                last_emit,
                ActionView::Partial(seq![Emit::Single(Event::KeyEvent(device, ke))], Seq::empty()),
            ),
            ThrottleState::Squash => (ThrottleState::Inactive, last_emit, ActionView::Partial(Seq::empty(), Seq::empty())),
            _ => (state, last_emit, ActionView::Partial(Seq::empty(), Seq::empty())),
        }
    }
}

/// A repeat of `ke` on `device`.
pub open spec fn spec_throttle_repeat(
    key: u16,
    state: ThrottleState,
    last_emit: u64,
    device: Rc<InputDeviceInfo>,
    ke: KeyEvent,
) -> ThrottleStep {
    if ke.key != key {
        (state, last_emit, ActionView::Unhandled)
    } else {
        match state {
            ThrottleState::Active => (
                state,
                last_emit,
                ActionView::Partial(seq![Emit::Single(Event::KeyEvent(device, ke))], Seq::empty()),
            ),
            _ => (state, last_emit, ActionView::Partial(Seq::empty(), Seq::empty())),
        }
    }
}

/// The step of a throttled key on `event` at time `now`; ticks and other
/// events are not its.
pub open spec fn spec_throttle_on_event(op: ActiveThrottleOperator, event: Event, now: u64) -> ThrottleStep {
    match event {
        Event::KeyEvent(device, ke) => match ke.value {
            KeyValue::Press => spec_throttle_press(op.key, op.timeout_ms, op.state, op.last_emit_ns, device, ke, now),
            KeyValue::Release => spec_throttle_release(op.key, op.state, op.last_emit_ns, device, ke),
            KeyValue::Repeat => spec_throttle_repeat(op.key, op.state, op.last_emit_ns, device, ke),
        },
        _ => (op.state, op.last_emit_ns, ActionView::Unhandled),
    }
}

impl ActiveThrottleOperator {
    /// The throttle can take `event`: it is not done, and before its first
    /// press it takes only a press.
    pub open spec fn accepts(&self, event: Event) -> bool {
        &&& self.state != ThrottleState::Done
        &&& self.state == ThrottleState::New ==> (event matches Event::KeyEvent(_, ke) && ke.value is Press)
    }

    /// Takes `event` at time `now`.
    pub fn on_event(&mut self, event: &Event, now: u64) -> (r: OperatorAction)
        requires
            old(self).accepts(*event),
        ensures
            (final(self).state, final(self).last_emit_ns, r@) == spec_throttle_on_event(*old(self), *event, now),
            final(self).key == old(self).key,
            final(self).timeout_ms == old(self).timeout_ms,
    {
        match event {
            Event::KeyEvent(device, ke) => match ke.value {
                KeyValue::Press => self.on_press(crate::event::share(device), ke, now),
                KeyValue::Release => self.on_release(crate::event::share(device), ke),
                KeyValue::Repeat => self.on_repeat(crate::event::share(device), ke),
            },
            _ => OperatorAction::Unhandled,
        }
    }

    fn emit_press(&mut self, device: Rc<InputDeviceInfo>, ke: &KeyEvent, now: u64) -> (r: OperatorAction)
        ensures
            final(self).state == ThrottleState::Active,
            final(self).last_emit_ns == now,
            r@ == ActionView::Partial(seq![Emit::Single(Event::KeyEvent(device, *ke))], Seq::empty()),
            final(self).key == old(self).key,
            final(self).timeout_ms == old(self).timeout_ms,
    {
        self.state = ThrottleState::Active;
        self.last_emit_ns = now;
        let mut emits: Vec<Emit> = Vec::new();
        emits.push(Emit::key_event(device, *ke));
        assert(emits@ =~= seq![Emit::Single(Event::KeyEvent(device, *ke))]);
        OperatorAction::Partial(emits, Vec::new())
    }

    /// Takes the press `ke` on `device` at `now` (see `spec_throttle_press`).
    pub fn on_press(&mut self, device: Rc<InputDeviceInfo>, ke: &KeyEvent, now: u64) -> (r: OperatorAction)
        requires
            old(self).state != ThrottleState::Done,
        ensures
            (final(self).state, final(self).last_emit_ns, r@) == spec_throttle_press(
                old(self).key,
                old(self).timeout_ms,
                old(self).state,
                old(self).last_emit_ns,
                device,
                *ke,
                now,
            ),
            final(self).key == old(self).key,
            final(self).timeout_ms == old(self).timeout_ms,
    {
        let same = ke.key == self.key;
        match self.state {
            ThrottleState::New => self.emit_press(device, ke, now),
            ThrottleState::Inactive => {
                if !is_within_timeout(self.last_emit_ns, now, self.timeout_ms) {
                    if same {
                        // Pressed again after the timeout.
                        self.emit_press(device, ke, now)
                    } else {
                        self.state = ThrottleState::Done;
                        let mut unhandled: Vec<Event> = Vec::new();
                        unhandled.push(Event::KeyEvent(device, *ke));
                        assert(unhandled@ =~= seq![Event::KeyEvent(device, *ke)]);
                        OperatorAction::Done(Vec::new(), unhandled)
                    }
                } else if same {
                    // Begin to squash.
                    self.state = ThrottleState::Squash;
                    OperatorAction::Partial(Vec::new(), Vec::new())
                } else {
                    OperatorAction::Unhandled
                }
            },
            _ => {
                if same {
                    // Spurious.
                    OperatorAction::Partial(Vec::new(), Vec::new())
                } else {
                    OperatorAction::Unhandled
                }
            },
        }
    }

    /// Takes the release `ke` on `device` (see `spec_throttle_release`).
    pub fn on_release(&mut self, device: Rc<InputDeviceInfo>, ke: &KeyEvent) -> (r: OperatorAction)
        requires
            old(self).state != ThrottleState::New,
            old(self).state != ThrottleState::Done,
        ensures
            (final(self).state, final(self).last_emit_ns, r@) == spec_throttle_release(
                old(self).key,
                old(self).state,
                old(self).last_emit_ns,
                device,
                *ke,
            ),
            final(self).key == old(self).key,
            final(self).timeout_ms == old(self).timeout_ms,
    {
        if ke.key != self.key {
            return OperatorAction::Unhandled;
        }
        match self.state {
            ThrottleState::Active => {
                self.state = ThrottleState::Inactive;
                let mut emits: Vec<Emit> = Vec::new();
                emits.push(Emit::key_event(device, *ke));
                assert(emits@ =~= seq![Emit::Single(Event::KeyEvent(device, *ke))]);
                OperatorAction::Partial(emits, Vec::new())
            },
            ThrottleState::Squash => {
                self.state = ThrottleState::Inactive;
                OperatorAction::Partial(Vec::new(), Vec::new())
            },
            // Spurious.
            _ => OperatorAction::Partial(Vec::new(), Vec::new()),
        }
    }

    /// Takes the repeat `ke` on `device` (see `spec_throttle_repeat`).
    pub fn on_repeat(&mut self, device: Rc<InputDeviceInfo>, ke: &KeyEvent) -> (r: OperatorAction)
        requires
            old(self).state != ThrottleState::New,
            old(self).state != ThrottleState::Done,
        ensures
            (final(self).state, final(self).last_emit_ns, r@) == spec_throttle_repeat(
                old(self).key,
                old(self).state,
                old(self).last_emit_ns,
                device,
                *ke,
            ),
            final(self).key == old(self).key,
            final(self).timeout_ms == old(self).timeout_ms,
    {
        if ke.key != self.key {
            return OperatorAction::Unhandled;
        }
        match self.state {
            ThrottleState::Active => {
                let mut emits: Vec<Emit> = Vec::new();
                emits.push(Emit::key_event(device, *ke));
                assert(emits@ =~= seq![Emit::Single(Event::KeyEvent(device, *ke))]);
                OperatorAction::Partial(emits, Vec::new())
            },
            _ => OperatorAction::Partial(Vec::new(), Vec::new()),
        }
    }
}

} // verus!

verus! {

/// A throttled key whose press was emitted emits the release of the key when
/// it leaves that state: on a release of the key it emits exactly that
/// release, on the device of the event, and waits for the timeout; no other
/// event makes it leave the state.
pub proof fn law_throttle_releases_emitted_press(op: ActiveThrottleOperator, event: Event, now: u64)
    requires
        op.state == ThrottleState::Active,
    ensures
        spec_throttle_on_event(op, event, now).0 != ThrottleState::Active ==> (event matches Event::KeyEvent(
            device,
            ke,
        ) && ke.key == op.key && ke.value is Release && spec_throttle_on_event(op, event, now).2
            == ActionView::Partial(
            seq![Emit::Single(Event::KeyEvent(device, KeyEvent { key: op.key, value: KeyValue::Release }))],
            Seq::<Event>::empty(),
        )),
        (event matches Event::KeyEvent(device, ke) && ke.key == op.key && ke.value is Release) ==> spec_throttle_on_event(
            op,
            event,
            now,
        ).0 == ThrottleState::Inactive,
{
}

/// A throttled key emits a press only as the press of its key that made it
/// active, on the device of that press.
pub proof fn law_throttle_emits_press_only_when_active(op: ActiveThrottleOperator, event: Event, now: u64)
    requires
        op.state != ThrottleState::Active,
        op.state != ThrottleState::Done,
    ensures
        spec_throttle_on_event(op, event, now).0 == ThrottleState::Active ==> (event matches Event::KeyEvent(
            device,
            ke,
        ) && ke.value is Press && spec_throttle_on_event(op, event, now).2 == ActionView::Partial(
            seq![Emit::Single(Event::KeyEvent(device, ke))],
            Seq::<Event>::empty(),
        ) && spec_throttle_on_event(op, event, now).1 == now),
{
}

} // verus!

verus! {

/// A throttled key that is up squashes a press of the key within the timeout
/// of the last emitted press, and emits one after it (as a new emitted
/// press); a squashed press's release is squashed too; a press of another
/// key after the timeout ends the throttle and goes on.
pub proof fn law_throttle_squashes_within_timeout(op: ActiveThrottleOperator, device: Rc<InputDeviceInfo>, ke: KeyEvent, now: u64)
    ensures
        op.state == ThrottleState::Inactive && ke.key == op.key && ke.value is Press && within_timeout(
            op.last_emit_ns,
            now,
            op.timeout_ms,
        ) ==> spec_throttle_on_event(op, Event::KeyEvent(device, ke), now) == (
            ThrottleState::Squash,
            op.last_emit_ns,
            ActionView::Partial(Seq::<Emit>::empty(), Seq::<Event>::empty()),
        ),
        op.state == ThrottleState::Inactive && ke.key == op.key && ke.value is Press && !within_timeout(
            op.last_emit_ns,
            now,
            op.timeout_ms,
        ) ==> spec_throttle_on_event(op, Event::KeyEvent(device, ke), now) == (
            ThrottleState::Active,
            now,
            ActionView::Partial(seq![Emit::Single(Event::KeyEvent(device, ke))], Seq::<Event>::empty()),
        ),
        op.state == ThrottleState::Squash && ke.key == op.key && ke.value is Release ==> spec_throttle_on_event(
            op,
            Event::KeyEvent(device, ke),
            now,
        ) == (ThrottleState::Inactive, op.last_emit_ns, ActionView::Partial(Seq::<Emit>::empty(), Seq::<Event>::empty())),
        op.state == ThrottleState::Inactive && ke.key != op.key && ke.value is Press && !within_timeout(
            op.last_emit_ns,
            now,
            op.timeout_ms,
        ) ==> spec_throttle_on_event(op, Event::KeyEvent(device, ke), now) == (
            ThrottleState::Done,
            op.last_emit_ns,
            ActionView::Done(Seq::<Emit>::empty(), seq![Event::KeyEvent(device, ke)]),
        ),
        op.state == ThrottleState::Active && ke.key == op.key && ke.value is Repeat ==> spec_throttle_on_event(
            op,
            Event::KeyEvent(device, ke),
            now,
        ).2 == ActionView::Partial(seq![Emit::Single(Event::KeyEvent(device, ke))], Seq::<Event>::empty()),
{
}

} // verus!
