//! The event handler: modmap, keymap, multi-purpose keys and nested remaps.

pub mod dispatch;
pub mod handling;
pub mod lookup;
pub mod matching;
pub mod modmap_keys;
pub mod overrides;
pub mod state;

use crate::action::Action;
use crate::keymap::{actions_view, ActionSpec, KeymapAction, Modifier, OverrideEntry};
use crate::multipurpose::MultiPurposeKeyState;
use std::collections::HashMap;
use vstd::prelude::*;

verus! {

/// What the handler asks of the timer of nested remaps.
#[derive(Debug, Clone, Copy, PartialEq, Eq, Structural)]
pub enum TimerCommand {
    /// Disarm the timer.
    Disarm,
    /// Arm the timer to run out after this many milliseconds.
    Arm(u64),
}

/// The contents of an override entry: actions, modifiers, exact match.
pub open spec fn entry_view(e: OverrideEntry) -> (Seq<ActionSpec>, Seq<Modifier>, bool) {
    (actions_view(e.actions@), e.modifiers@, e.exact_match)
}

/// The contents of an override table.
pub open spec fn table_view(m: Map<u16, Vec<OverrideEntry>>) -> Map<u16, Seq<(Seq<ActionSpec>, Seq<Modifier>, bool)>> {
    m.map_values(|v: Vec<OverrideEntry>| v@.map_values(|e: OverrideEntry| entry_view(e)))
}

/// The state of the event handler.
pub struct HandlerState {
    pub modifiers: Seq<u16>,
    pub extra_modifiers: Seq<u16>,
    pub pressed_keys: Map<u16, u16>,
    pub multi_purpose_keys: Seq<(u16, (Seq<u16>, Seq<u16>, Option<u64>, bool))>,
    pub override_remaps: Seq<Map<u16, Seq<(Seq<ActionSpec>, Seq<Modifier>, bool)>>>,
    pub override_timeout_key: Option<Seq<u16>>,
    pub timer: Seq<TimerCommand>,
    pub mode: Seq<char>,
    pub mark_set: bool,
    pub escape_next_key: bool,
    pub keypress_delay_ms: u64,
}

/// Turns key events into actions: applies the modmap and the keymap, tracks
/// the held modifiers, the multi-purpose keys and the nested remaps.
///
/// Requests for the timer of nested remaps are queued in `timer_commands`
/// for the caller, who owns the timer.
pub struct EventHandler {
    /// Held modifiers (each once), in the order they were pressed.
    pub modifiers: Vec<u16>,
    /// Modifiers that the current action released virtually.
    pub extra_modifiers: Vec<u16>,
    /// For each pressed key, the key it was turned into by the modmap.
    pub pressed_keys: HashMap<u16, u16>,
    /// The multi-purpose keys that are down (each key once).
    pub multi_purpose_keys: Vec<(u16, MultiPurposeKeyState)>,
    /// The tables of the nested remaps that wait for the next key.
    pub override_remaps: Vec<HashMap<u16, Vec<OverrideEntry>>>,
    /// The keys sent when the nested remap lapses.
    pub override_timeout_key: Option<Vec<u16>>,
    /// Requests for the timer, oldest first.
    pub timer_commands: Vec<TimerCommand>,
    pub mode: String,
    pub mark_set: bool,
    pub escape_next_key: bool,
    /// Pause after an emitted key combination, in milliseconds.
    pub keypress_delay_ms: u64,
}

/// A keymap action together with whether its rule asked for an exact match.
#[derive(Debug)]
pub struct TaggedAction {
    pub action: KeymapAction,
    pub exact_match: bool,
}

impl View for TaggedAction {
    type V = (ActionSpec, bool);

    open spec fn view(&self) -> (ActionSpec, bool) {
        (self.action@, self.exact_match)
    }
}

/// The contents of each tagged action.
pub open spec fn tagged_view(actions: Seq<TaggedAction>) -> Seq<(ActionSpec, bool)> {
    actions.map_values(|t: TaggedAction| t@)
}

/// Whether the original relative event is to be sent after its disguised
/// key went through the handler.
#[derive(Debug, Clone, Copy, PartialEq, Eq, Structural)]
pub enum RelativeHandling {
    SendOriginal,
    SkipOriginal,
}

/// The actions a key event gave, and whether its relative event is sent.
#[derive(Debug)]
pub struct KeyOutcome {
    pub actions: Vec<Action>,
    pub relative: RelativeHandling,
}

/// The keys of the multi-purpose keys.
pub open spec fn mp_keys(s: Seq<(u16, (Seq<u16>, Seq<u16>, Option<u64>, bool))>) -> Seq<u16> {
    s.map_values(|p: (u16, (Seq<u16>, Seq<u16>, Option<u64>, bool))| p.0)
}

impl View for EventHandler {
    type V = HandlerState;

    open spec fn view(&self) -> HandlerState {
        HandlerState {
            modifiers: self.modifiers@,
            extra_modifiers: self.extra_modifiers@,
            pressed_keys: self.pressed_keys@,
            multi_purpose_keys: self.multi_purpose_keys@.map_values(
                |p: (u16, MultiPurposeKeyState)| (p.0, p.1@),
            ),
            override_remaps: self.override_remaps@.map_values(
                |m: HashMap<u16, Vec<OverrideEntry>>| table_view(m@),
            ),
            override_timeout_key: match self.override_timeout_key {
                Some(k) => Some(k@),
                None => None,
            },
            timer: self.timer_commands@,
            mode: self.mode@,
            mark_set: self.mark_set,
            escape_next_key: self.escape_next_key,
            keypress_delay_ms: self.keypress_delay_ms,
        }
    }
}

/// The handler state is consistent: held modifiers, virtually released
/// modifiers and multi-purpose keys are each listed once.
pub open spec fn state_wf(s: HandlerState) -> bool {
    &&& crate::util::no_dups(s.modifiers)
    &&& crate::util::no_dups(s.extra_modifiers)
    &&& crate::util::no_dups(mp_keys(s.multi_purpose_keys))
}

impl EventHandler {
    /// A handler in `mode` with nothing held.
    pub fn new(mode: &str, keypress_delay_ms: u64) -> (r: EventHandler)
        ensures
            r@.modifiers.len() == 0,
            r@.extra_modifiers.len() == 0,
            r@.pressed_keys == Map::<u16, u16>::empty(),
            r@.multi_purpose_keys.len() == 0,
            r@.override_remaps.len() == 0,
            r@.override_timeout_key is None,
            r@.timer.len() == 0,
            r@.mode == mode@,
            !r@.mark_set,
            !r@.escape_next_key,
            r@.keypress_delay_ms == keypress_delay_ms,
            state_wf(r@),
    {
        let r = EventHandler {
            modifiers: Vec::new(),
            extra_modifiers: Vec::new(),
            pressed_keys: HashMap::new(),
            multi_purpose_keys: Vec::new(),
            override_remaps: Vec::new(),
            override_timeout_key: None,
            timer_commands: Vec::new(),
            mode: mode.to_owned(),
            mark_set: false,
            escape_next_key: false,
            keypress_delay_ms,
        };
        proof {
            assert(mp_keys(r@.multi_purpose_keys) =~= Seq::<u16>::empty());
        }
        r
    }

    /// Hands over the timer requests made since the last call.
    pub fn take_timer_commands(&mut self) -> (r: Vec<TimerCommand>)
        ensures
            r@ == old(self)@.timer,
            final(self)@ == (HandlerState { timer: Seq::empty(), ..old(self)@ }),
    {
        let mut taken: Vec<TimerCommand> = Vec::new();
        std::mem::swap(&mut taken, &mut self.timer_commands);
        proof {
            assert(self@.timer =~= Seq::<TimerCommand>::empty());
        }
        taken
    }
}

} // verus!
