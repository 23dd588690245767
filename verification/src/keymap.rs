use crate::config::Expmap;
use std::collections::HashMap;
use std::rc::Rc;
use vstd::prelude::*;

verus! {

/// A modifier that a key combination asks for: one of the four kinds (either
/// side), or a particular key held as a modifier.
#[derive(Clone, Copy, Debug, PartialEq, Eq, Structural)]
pub enum Modifier {
    Shift,
    Control,
    Alt,
    Windows,
    Key(u16),
}

/// A key together with the modifiers that must be held with it.
#[derive(Debug)]
pub struct KeyPress {
    pub key: u16,
    pub modifiers: Vec<Modifier>,
}

impl View for KeyPress {
    type V = (u16, Seq<Modifier>);

    open spec fn view(&self) -> Self::V {
        (self.key, self.modifiers@)
    }
}

/// A copy of the modifiers.
pub fn clone_modifiers(modifiers: &Vec<Modifier>) -> (r: Vec<Modifier>)
    ensures
        r@ == modifiers@,
{
    let mut out: Vec<Modifier> = Vec::new();
    let mut i: usize = 0;
    while i < modifiers.len()
        invariant
            i <= modifiers.len(),
            out@ == modifiers@.take(i as int),
        decreases modifiers.len() - i,
    {
        proof {
            assert(modifiers@.take(i + 1) =~= modifiers@.take(i as int).push(modifiers@[i as int]));
        }
        out.push(modifiers[i]);
        i = i + 1;
    }
    proof {
        assert(modifiers@.take(modifiers@.len() as int) =~= modifiers@);
    }
    out
}

/// A copy of a list of strings.
pub fn clone_strings(strings: &Vec<String>) -> (r: Vec<String>)
    ensures
        strings_view(r@) == strings_view(strings@),
{
    let mut out: Vec<String> = Vec::new();
    let mut i: usize = 0;
    while i < strings.len()
        invariant
            i <= strings.len(),
            strings_view(out@) == strings_view(strings@.take(i as int)),
        decreases strings.len() - i,
    {
        proof {
            assert(strings_view(strings@.take(i + 1)) =~= strings_view(strings@.take(i as int)).push(
                strings@[i as int]@,
            ));
        }
        let s = strings[i].clone();
        proof {
            assert(strings_view(out@.push(s)) =~= strings_view(out@).push(s@));
        }
        out.push(s);
        i = i + 1;
    }
    proof {
        assert(strings@.take(strings@.len() as int) =~= strings@);
    }
    out
}

/// The text of each string.
pub open spec fn strings_view(strings: Seq<String>) -> Seq<Seq<char>> {
    strings.map_values(|s: String| s@)
}

impl KeyPress {
    /// A copy of the key press.
    pub fn duplicate(&self) -> (r: KeyPress)
        ensures
            r@ == self@,
    {
        KeyPress { key: self.key, modifiers: clone_modifiers(&self.modifiers) }
    }
}

/// A nested remap: the keymap that the next key goes through, the time after
/// which it lapses, and the keys sent when it lapses.
#[derive(Debug)]
pub struct Remap {
    pub remap: Vec<(KeyPress, Vec<KeymapAction>)>,
    pub timeout_ms: Option<u64>,
    pub timeout_key: Option<Vec<u16>>,
}

/// What a keymap entry does.
#[derive(Debug)]
pub enum KeymapAction {
    KeyPressAndRelease(KeyPress),
    KeyPress(u16),
    KeyRepeat(u16),
    KeyRelease(u16),
    Remap(Rc<Remap>),
    Launch(Vec<String>),
    SetMode(String),
    SetMark(bool),
    WithMark(KeyPress),
    EscapeNextKey(bool),
    Sleep(u64),
    SetExtraModifiers(Vec<u16>),
}

/// The contents of a keymap action.
pub enum ActionSpec {
    KeyPressAndRelease((u16, Seq<Modifier>)),
    KeyPress(u16),
    KeyRepeat(u16),
    KeyRelease(u16),
    Remap(Rc<Remap>),
    Launch(Seq<Seq<char>>),
    SetMode(Seq<char>),
    SetMark(bool),
    WithMark((u16, Seq<Modifier>)),
    EscapeNextKey(bool),
    Sleep(u64),
    SetExtraModifiers(Seq<u16>),
}

impl View for KeymapAction {
    type V = ActionSpec;

    open spec fn view(&self) -> ActionSpec {
        match self {
            KeymapAction::KeyPressAndRelease(kp) => ActionSpec::KeyPressAndRelease(kp@),
            KeymapAction::KeyPress(k) => ActionSpec::KeyPress(*k),
            KeymapAction::KeyRepeat(k) => ActionSpec::KeyRepeat(*k),
            KeymapAction::KeyRelease(k) => ActionSpec::KeyRelease(*k),
            KeymapAction::Remap(r) => ActionSpec::Remap(*r),
            KeymapAction::Launch(c) => ActionSpec::Launch(strings_view(c@)),
            KeymapAction::SetMode(m) => ActionSpec::SetMode(m@),
            KeymapAction::SetMark(b) => ActionSpec::SetMark(*b),
            KeymapAction::WithMark(kp) => ActionSpec::WithMark(kp@),
            KeymapAction::EscapeNextKey(b) => ActionSpec::EscapeNextKey(*b),
            KeymapAction::Sleep(ms) => ActionSpec::Sleep(*ms),
            KeymapAction::SetExtraModifiers(keys) => ActionSpec::SetExtraModifiers(keys@),
        }
    }
}

/// The contents of each action.
pub open spec fn actions_view(actions: Seq<KeymapAction>) -> Seq<ActionSpec> {
    actions.map_values(|a: KeymapAction| a@)
}

impl KeymapAction {
    /// A copy of the action (a nested remap is shared, not copied).
    pub fn duplicate(&self) -> (r: KeymapAction)
        ensures
            r@ == self@,
    {
        match self {
            KeymapAction::KeyPressAndRelease(kp) => KeymapAction::KeyPressAndRelease(kp.duplicate()),
            KeymapAction::KeyPress(k) => KeymapAction::KeyPress(*k),
            KeymapAction::KeyRepeat(k) => KeymapAction::KeyRepeat(*k),
            KeymapAction::KeyRelease(k) => KeymapAction::KeyRelease(*k),
            KeymapAction::Remap(r) => KeymapAction::Remap(crate::event::share(r)),
            KeymapAction::Launch(c) => KeymapAction::Launch(clone_strings(c)),
            KeymapAction::SetMode(m) => KeymapAction::SetMode(m.clone()),
            KeymapAction::SetMark(b) => KeymapAction::SetMark(*b),
            KeymapAction::WithMark(kp) => KeymapAction::WithMark(kp.duplicate()),
            KeymapAction::EscapeNextKey(b) => KeymapAction::EscapeNextKey(*b),
            KeymapAction::Sleep(ms) => KeymapAction::Sleep(*ms),
            KeymapAction::SetExtraModifiers(keys) => KeymapAction::SetExtraModifiers(crate::util::clone_keys(keys)),
        }
    }
}

/// A copy of each action.
pub fn duplicate_actions(actions: &Vec<KeymapAction>) -> (r: Vec<KeymapAction>)
    ensures
        actions_view(r@) == actions_view(actions@),
{
    let mut out: Vec<KeymapAction> = Vec::new();
    let mut i: usize = 0;
    while i < actions.len()
        invariant
            i <= actions.len(),
            actions_view(out@) == actions_view(actions@.take(i as int)),
        decreases actions.len() - i,
    {
        let a = actions[i].duplicate();
        proof {
            assert(actions_view(actions@.take(i + 1)) =~= actions_view(actions@.take(i as int)).push(
                actions@[i as int]@,
            ));
            assert(actions_view(out@.push(a)) =~= actions_view(out@).push(a@));
        }
        out.push(a);
        i = i + 1;
    }
    proof {
        assert(actions@.take(actions@.len() as int) =~= actions@);
    }
    out
}

/// Restricts an entry to some windows or applications: with `only`, to those
/// whose name is in the list; else with `not`, to those whose name is not.
#[derive(Debug)]
pub struct OnlyOrNot {
    pub only: Option<Vec<String>>,
    pub not: Option<Vec<String>>,
}

/// What a modmap entry turns a key into.
#[derive(Debug)]
pub enum ModmapAction {
    /// Another key.
    Key(u16),
    /// Several other keys, in order.
    Keys(Vec<u16>),
    /// `alone` when tapped, `held` when held down.
    MultiPurposeKey(MultiPurposeKey),
    /// Keymap actions on press, repeat and release.
    PressReleaseKey(PressReleaseKey),
}

/// A key that is `alone` when released within `alone_timeout_ms` and no other
/// key was pressed meanwhile, and `held` otherwise; with `free_hold` it may be
/// held for any time and still be a tap.
#[derive(Debug)]
pub struct MultiPurposeKey {
    pub held: Vec<u16>,
    pub alone: Vec<u16>,
    pub alone_timeout_ms: u64,
    pub free_hold: bool,
}

/// Keymap actions run when the key is pressed, repeats and is released; the
/// key event itself is dropped with `skip_key_event`.
#[derive(Debug)]
pub struct PressReleaseKey {
    pub skip_key_event: bool,
    pub press: Vec<KeymapAction>,
    pub repeat: Vec<KeymapAction>,
    pub release: Vec<KeymapAction>,
}

/// A block of the modmap: key-to-key rules, limited to some windows,
/// applications, devices and modes.
#[derive(Debug)]
pub struct Modmap {
    pub name: String,
    pub remap: Vec<(u16, ModmapAction)>,
    pub application: Option<OnlyOrNot>,
    pub window: Option<OnlyOrNot>,
    pub device: Option<OnlyOrNot>,
    pub mode: Option<Vec<String>>,
}

/// A block of the keymap: key-combination rules, limited to some windows,
/// applications, devices and modes.
#[derive(Debug)]
pub struct Keymap {
    pub name: String,
    pub remap: Vec<(KeyPress, Vec<KeymapAction>)>,
    pub application: Option<OnlyOrNot>,
    pub window: Option<OnlyOrNot>,
    pub device: Option<OnlyOrNot>,
    pub mode: Option<Vec<String>>,
    pub exact_match: bool,
}

/// One rule of the keymap, looked up by its key.
#[derive(Debug)]
pub struct KeymapEntry {
    pub actions: Vec<KeymapAction>,
    pub modifiers: Vec<Modifier>,
    pub application: Option<OnlyOrNot>,
    pub title: Option<OnlyOrNot>,
    pub device: Option<OnlyOrNot>,
    pub mode: Option<Vec<String>>,
    pub exact_match: bool,
}

/// One rule of a nested remap, looked up by its key.
#[derive(Debug)]
pub struct OverrideEntry {
    pub actions: Vec<KeymapAction>,
    pub modifiers: Vec<Modifier>,
    pub exact_match: bool,
}

/// The configuration that the event handler reads.
#[derive(Debug)]
pub struct Config {
    pub modmap: Vec<Modmap>,
    pub keymap: Vec<Keymap>,
    pub keymap_table: HashMap<u16, Vec<KeymapEntry>>,
    pub virtual_modifiers: Vec<u16>,
    pub default_mode: String,
    pub keypress_delay_ms: u64,
    pub experimental_map: Vec<Expmap>,
    pub throttle_ms: u64,
    pub notifications: bool,
    pub enable_wheel: bool,
}

} // verus!
