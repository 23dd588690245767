use vstd::prelude::*;

verus! {

/// Linux input event codes of the eight modifier keys.
pub const KEY_LEFTCTRL: u16 = 29;
pub const KEY_LEFTSHIFT: u16 = 42;
pub const KEY_RIGHTSHIFT: u16 = 54;
pub const KEY_LEFTALT: u16 = 56;
pub const KEY_RIGHTCTRL: u16 = 97;
pub const KEY_RIGHTALT: u16 = 100;
pub const KEY_LEFTMETA: u16 = 125;
pub const KEY_RIGHTMETA: u16 = 126;

/// Offset added to relative-axis codes so that they become pseudo key codes
/// that no real key uses.
pub const DISGUISED_EVENT_OFFSETTER: u16 = 59974;

/// Pseudo key code used by the configuration to match any key.
pub const KEY_MATCH_ANY: u16 = 60000;

/// Largest relative-axis code whose disguised key codes fit in a `u16`.
pub const MAX_DISGUISABLE_CODE: u16 = 2780;

/// `InputEvent#value` of a key event.
pub const RELEASE: i32 = 0;
pub const PRESS: i32 = 1;
pub const REPEAT: i32 = 2;

/// The modifier keys, in the order shift, control, alt, windows (left, right).
pub const MODIFIER_KEYS: [u16; 8] = [
    KEY_LEFTSHIFT,
    KEY_RIGHTSHIFT,
    KEY_LEFTCTRL,
    KEY_RIGHTCTRL,
    KEY_LEFTALT,
    KEY_RIGHTALT,
    KEY_LEFTMETA,
    KEY_RIGHTMETA,
];

/// The key is one of the eight modifier keys.
pub open spec fn is_modifier(key: u16) -> bool {
    ||| key == KEY_LEFTSHIFT
    ||| key == KEY_RIGHTSHIFT
    ||| key == KEY_LEFTCTRL
    ||| key == KEY_RIGHTCTRL
    ||| key == KEY_LEFTALT
    ||| key == KEY_RIGHTALT
    ||| key == KEY_LEFTMETA
    ||| key == KEY_RIGHTMETA
}

/// Whether `key` is one of `MODIFIER_KEYS`.
pub fn is_modifier_key(key: u16) -> (r: bool)
    ensures
        r == is_modifier(key),
{
    let mut i: usize = 0;
    while i < 8
        invariant
            i <= 8,
            forall|j: int| 0 <= j < i ==> MODIFIER_KEYS[j] != key,
        decreases 8 - i,
    {
        if MODIFIER_KEYS[i] == key {
            return true;
        }
        i = i + 1;
    }
    false
}

/// The state of a key in a key event.
#[derive(Debug)]
pub enum KeyValue {
    Press,
    Release,
    Repeat,
}

impl Clone for KeyValue {
    fn clone(&self) -> (r: Self)
        ensures
            r == *self,
    {
        match self {
            KeyValue::Press => KeyValue::Press,
            KeyValue::Release => KeyValue::Release,
            KeyValue::Repeat => KeyValue::Repeat,
        }
    }
}

impl Copy for KeyValue {}

impl PartialEq for KeyValue {
    fn eq(&self, other: &Self) -> (r: bool) {
        match (self, other) {
            (KeyValue::Press, KeyValue::Press) => true,
            (KeyValue::Release, KeyValue::Release) => true,
            (KeyValue::Repeat, KeyValue::Repeat) => true,
            _ => false,
        }
    }
}

impl vstd::std_specs::cmp::PartialEqSpecImpl for KeyValue {
    open spec fn obeys_eq_spec() -> bool {
        true
    }

    open spec fn eq_spec(&self, other: &Self) -> bool {
        *self == *other
    }
}

impl Eq for KeyValue {}

/// The raw `InputEvent#value` that denotes `v`.
pub open spec fn key_value_code(v: KeyValue) -> i32 {
    match v {
        KeyValue::Release => RELEASE,
        KeyValue::Press => PRESS,
        KeyValue::Repeat => REPEAT,
    }
}

impl KeyValue {
    /// Reads a raw `InputEvent#value`: 0 is a release, 1 a press, 2 a repeat,
    /// anything else is not a key state.
    pub fn new(value: i32) -> (r: Option<KeyValue>)
        ensures
            r matches Some(v) ==> key_value_code(v) == value,
            r is None <==> !(0 <= value <= 2),
    {
        if value == RELEASE {
            Some(KeyValue::Release)
        } else if value == PRESS {
            Some(KeyValue::Press)
        } else if value == REPEAT {
            Some(KeyValue::Repeat)
        } else {
            None
        }
    }

    /// The raw `InputEvent#value` of this key state.
    pub fn value(&self) -> (r: i32)
        ensures
            r == key_value_code(*self),
    {
        match self {
            KeyValue::Release => RELEASE,
            KeyValue::Press => PRESS,
            KeyValue::Repeat => REPEAT,
        }
    }

    /// A press or a repeat: the key is down.
    pub fn is_pressed(&self) -> (r: bool)
        ensures
            r == (*self is Press || *self is Repeat),
    {
        match self {
            KeyValue::Release => false,
            _ => true,
        }
    }
}

/// Reading back the raw value of a key state gives the state again, and a raw
/// value that denotes a key state is the value of the state it reads as.
pub proof fn law_key_value_round_trip(v: KeyValue, raw: i32)
    ensures
        (0 <= key_value_code(v) <= 2),
        (0 <= raw <= 2) ==> exists|w: KeyValue| key_value_code(w) == raw,
        key_value_code(v) == raw ==> (forall|w: KeyValue| key_value_code(w) == raw ==> w == v),
{
    if raw == 0 {
        assert(key_value_code(KeyValue::Release) == raw);
    } else if raw == 1 {
        assert(key_value_code(KeyValue::Press) == raw);
    } else if raw == 2 {
        assert(key_value_code(KeyValue::Repeat) == raw);
    }
}

/// A raw key value is pressed (press or repeat).
pub fn is_pressed(value: i32) -> (r: bool)
    ensures
        r == (value == PRESS || value == REPEAT),
{
    value == PRESS || value == REPEAT
}

} // verus!
