use crate::keys::{key_value_code, KeyValue, DISGUISED_EVENT_OFFSETTER, MAX_DISGUISABLE_CODE, PRESS, RELEASE};
use std::rc::Rc;
use vstd::prelude::*;

verus! {

/// Calls `Rc::clone`, which makes another pointer to the same allocation; the
/// clone therefore has the same contents as the original (the documented
/// behaviour of `Rc`).
#[verifier::external_body]
pub fn share<T>(rc: &Rc<T>) -> (r: Rc<T>)
    ensures
        r == *rc,
{
    Rc::clone(rc)
}

/// What the remapper knows of the input device an event came from.
#[derive(Debug)]
pub struct InputDeviceInfo {
    pub name: String,
    pub path: String,
    pub vendor: u16,
    pub product: u16,
}

impl Clone for InputDeviceInfo {
    fn clone(&self) -> (r: Self)
        ensures
            r@ == self@,
    {
        InputDeviceInfo {
            name: self.name.clone(),
            path: self.path.clone(),
            vendor: self.vendor,
            product: self.product,
        }
    }
}

impl View for InputDeviceInfo {
    type V = (Seq<char>, Seq<char>, u16, u16);

    open spec fn view(&self) -> Self::V {
        (self.name@, self.path@, self.vendor, self.product)
    }
}

/// An input event as the kernel reports it: type, code and value.
#[derive(Debug)]
pub struct InputEvent {
    pub event_type: u16,
    pub code: u16,
    pub value: i32,
}

impl Clone for InputEvent {
    fn clone(&self) -> (r: Self)
        ensures
            r == *self,
    {
        InputEvent { event_type: self.event_type, code: self.code, value: self.value }
    }
}

impl Copy for InputEvent {}

/// `EV_KEY` and `EV_REL` of the Linux input event types.
pub const EV_KEY: u16 = 1;
pub const EV_REL: u16 = 2;

/// A key press, release or repeat.
#[derive(Debug)]
pub struct KeyEvent {
    pub key: u16,
    pub value: KeyValue,
}

impl Clone for KeyEvent {
    fn clone(&self) -> (r: Self)
        ensures
            r == *self,
    {
        KeyEvent { key: self.key, value: self.value }
    }
}

impl Copy for KeyEvent {}

/// A movement on a relative axis (mouse motion, wheel).
#[derive(Debug)]
pub struct RelativeEvent {
    pub code: u16,
    pub value: i32,
}

impl Clone for RelativeEvent {
    fn clone(&self) -> (r: Self)
        ensures
            r == *self,
    {
        RelativeEvent { code: self.code, value: self.value }
    }
}

impl Copy for RelativeEvent {}

/// Input of the event handler and of the operators.
#[derive(Debug)]
pub enum Event {
    /// A key event from a device.
    KeyEvent(Rc<InputDeviceInfo>, KeyEvent),
    /// A relative-axis event from a device.
    RelativeEvent(Rc<InputDeviceInfo>, RelativeEvent),
    /// Any other input event.
    OtherEvents(InputEvent),
    /// The timer of a nested remap ran out.
    OverrideTimeout,
    /// A tick for the operators that wait for a timeout.
    Tick,
    /// An event that the operators have let through; it skips the operators.
    ByPassLocal(Box<Event>),
}

impl Clone for Event {
    fn clone(&self) -> (r: Self)
        ensures
            r == *self,
        decreases self,
    {
        match self {
            Event::KeyEvent(device, key_event) => Event::KeyEvent(share(device), *key_event),
            Event::RelativeEvent(device, relative_event) => Event::RelativeEvent(share(device), *relative_event),
            Event::OtherEvents(event) => Event::OtherEvents(*event),
            Event::OverrideTimeout => Event::OverrideTimeout,
            Event::Tick => Event::Tick,
            Event::ByPassLocal(inner) => {
                let inner_clone: Event = Event::clone(&**inner);
                Event::ByPassLocal(Box::new(inner_clone))
            },
        }
    }
}

impl Event {
    /// The event of pressing `key` on `device`.
    pub fn key_press(device: Rc<InputDeviceInfo>, key: u16) -> (r: Event)
        ensures
            r == Event::KeyEvent(device, KeyEvent { key, value: KeyValue::Press }),
    {
        Event::KeyEvent(device, KeyEvent::new(key, KeyValue::Press))
    }

    /// The event of releasing `key` on `device`.
    pub fn key_release(device: Rc<InputDeviceInfo>, key: u16) -> (r: Event)
        ensures
            r == Event::KeyEvent(device, KeyEvent { key, value: KeyValue::Release }),
    {
        Event::KeyEvent(device, KeyEvent::new(key, KeyValue::Release))
    }

    /// The event of `key` repeating on `device`.
    pub fn key_repeat(device: Rc<InputDeviceInfo>, key: u16) -> (r: Event)
        ensures
            r == Event::KeyEvent(device, KeyEvent { key, value: KeyValue::Repeat }),
    {
        Event::KeyEvent(device, KeyEvent::new(key, KeyValue::Repeat))
    }

    /// A relative event of `device`.
    pub fn relative(device: Rc<InputDeviceInfo>, code: u16, value: i32) -> (r: Event)
        ensures
            r == Event::RelativeEvent(device, RelativeEvent { code, value }),
    {
        Event::RelativeEvent(device, RelativeEvent { code, value })
    }
}

/// The event that a raw input event of `device` becomes.
pub open spec fn spec_event_from_input(device: Rc<InputDeviceInfo>, event: InputEvent) -> Event {
    if event.event_type == EV_KEY {
        Event::KeyEvent(device, KeyEvent { key: event.code, value: spec_key_value_of(event.value) })
    } else if event.event_type == EV_REL {
        Event::RelativeEvent(device, RelativeEvent { code: event.code, value: event.value })
    } else {
        Event::OtherEvents(event)
    }
}

/// The key state that a raw value in 0..=2 stands for.
pub open spec fn spec_key_value_of(value: i32) -> KeyValue {
    if value == RELEASE {
        KeyValue::Release
    } else if value == PRESS {
        KeyValue::Press
    } else {
        KeyValue::Repeat
    }
}

/// The raw event is a key event whose value is no key state.
pub open spec fn is_invalid_key_input(event: InputEvent) -> bool {
    event.event_type == EV_KEY && !(0 <= event.value <= 2)
}

impl Event {
    /// Converts a raw input event into an event: key events (whose value must be
    /// a key state), relative events, and any other event as it is.
    pub fn new(device: Rc<InputDeviceInfo>, event: InputEvent) -> (r: Event)
        requires
            !is_invalid_key_input(event),
        ensures
            r == spec_event_from_input(device, event),
    {
        if event.event_type == EV_KEY {
            Event::KeyEvent(device, KeyEvent::new_with(event.code, event.value))
        } else if event.event_type == EV_REL {
            Event::RelativeEvent(device, RelativeEvent::new_with(event.code, event.value))
        } else {
            Event::OtherEvents(event)
        }
    }
}

impl KeyEvent {
    /// A key event of `key` in state `value`.
    pub fn new(key: u16, value: KeyValue) -> (r: KeyEvent)
        ensures
            r == (KeyEvent { key, value }),
    {
        KeyEvent { key, value }
    }

    /// A key event from a raw code and a raw value in 0..=2.
    pub fn new_with(code: u16, value: i32) -> (r: KeyEvent)
        requires
            0 <= value <= 2,
        ensures
            r == (KeyEvent { key: code, value: spec_key_value_of(value) }),
    {
        let v = match KeyValue::new(value) {
            Some(v) => v,
            None => KeyValue::Press,
        };
        KeyEvent { key: code, value: v }
    }

    /// The key code.
    pub fn code(&self) -> (r: u16)
        ensures
            r == self.key,
    {
        self.key
    }

    /// The raw value of the key state.
    pub fn value(&self) -> (r: i32)
        ensures
            r == key_value_code(self.value),
    {
        self.value.value()
    }

    /// The key state.
    pub fn phase(&self) -> (r: KeyValue)
        ensures
            r == self.value,
    {
        self.value
    }
}

/// The pseudo key code of a relative event: positive (and zero) values give an
/// even offset, negative values the odd code after it.
pub open spec fn spec_disguised_key(code: u16, value: i32) -> int {
    if value < 0 {
        code * 2 + 1 + DISGUISED_EVENT_OFFSETTER
    } else {
        code * 2 + DISGUISED_EVENT_OFFSETTER
    }
}

impl RelativeEvent {
    /// A relative event of axis `code` moved by `value`.
    pub fn new_with(code: u16, value: i32) -> (r: RelativeEvent)
        ensures
            r == (RelativeEvent { code, value }),
    {
        RelativeEvent { code, value }
    }

    /// The pseudo key code of this event. A value of zero is taken as positive.
    pub fn to_disguised_key(&self) -> (r: u16)
        requires
            self.code <= MAX_DISGUISABLE_CODE,
        ensures
            r == spec_disguised_key(self.code, self.value),
    {
        if self.value < 0 {
            (self.code * 2) + 1 + DISGUISED_EVENT_OFFSETTER
        } else {
            (self.code * 2) + DISGUISED_EVENT_OFFSETTER
        }
    }
}

/// A disguised key tells the sign of the relative value by its parity, is at
/// least the offset, and two events of different axes or signs get different
/// keys.
pub proof fn law_disguised_keys_are_distinct(c1: u16, v1: i32, c2: u16, v2: i32)
    ensures
        spec_disguised_key(c1, v1) >= DISGUISED_EVENT_OFFSETTER,
        (spec_disguised_key(c1, v1) - DISGUISED_EVENT_OFFSETTER) % 2 == (if v1 < 0 { 1int } else { 0int }),
        spec_disguised_key(c1, v1) == spec_disguised_key(c2, v2) ==> c1 == c2 && (v1 < 0 <==> v2 < 0),
{
}

} // verus!

verus! {

/// A copy of a list of events.
pub fn clone_events(v: &Vec<Event>) -> (r: Vec<Event>)
    ensures
        r@ == v@,
{
    let mut r: Vec<Event> = Vec::new();
    let mut i: usize = 0;
    while i < v.len()
        invariant
            i <= v.len(),
            r@ == v@.take(i as int),
        decreases v.len() - i,
    {
        r.push(v[i].clone());
        proof {
            assert(v@.take(i + 1) =~= v@.take(i as int).push(v@[i as int]));
        }
        i = i + 1;
    }
    assert(v@.take(v@.len() as int) =~= v@);
    r
}

} // verus!
