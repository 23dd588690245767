use super::{entry_view, state_wf, table_view, EventHandler, HandlerState, TimerCommand};
use crate::action::{outs_view, Action, ActionOut};
use crate::event::KeyEvent;
use crate::keymap::{actions_view, duplicate_actions, clone_modifiers, ActionSpec, KeyPress, KeymapAction, Modifier, OverrideEntry};
use crate::keys::KeyValue;
use std::collections::HashMap;
use vstd::prelude::*;

verus! {

/// The table of a nested remap: for each key, the rules for it in the order
/// of `remap`, each with its actions, its modifiers and `exact_match`.
pub open spec fn spec_override_table(
    remap: Seq<(KeyPress, Vec<KeymapAction>)>,
    exact_match: bool,
) -> Map<u16, Seq<(Seq<ActionSpec>, Seq<Modifier>, bool)>>
    decreases remap.len(),
{
    if remap.len() == 0 {
        Map::empty()
    } else {
        let m = spec_override_table(remap.drop_last(), exact_match);
        let kp = remap.last().0;
        let e = (actions_view(remap.last().1@), kp.modifiers@, exact_match);
        m.insert(kp.key, if m.contains_key(kp.key) { m[kp.key].push(e) } else { seq![e] })
    }
}

/// Adds `entry` at the end of the rules of `key`.
fn add_entry(table: &mut HashMap<u16, Vec<OverrideEntry>>, key: u16, entry: OverrideEntry)
    ensures
        table_view(final(table)@) == ({
            let m = table_view(old(table)@);
            m.insert(key, if m.contains_key(key) { m[key].push(entry_view(entry)) } else { seq![entry_view(entry)] })
        }),
{
    broadcast use vstd::std_specs::hash::group_hash_axioms;

    let ghost m0 = table@;
    let removed = table.remove(&key);
    let mut entries = match removed {
        Some(v) => v,
        None => Vec::new(),
    };
    let ghost e0 = entries@;
    let ghost ev = entry_view(entry);
    entries.push(entry);
    table.insert(key, entries);
    proof {
        let m = table_view(m0);
        let expected = m.insert(key, if m.contains_key(key) { m[key].push(ev) } else { seq![ev] });
        assert(entries@.map_values(|e: OverrideEntry| entry_view(e)) =~= (if m.contains_key(key) {
            m[key].push(ev)
        } else {
            seq![ev]
        }));
        assert(table_view(table@) =~= expected);
    }
}

/// Builds the table of a nested remap.
pub fn build_override_table(remap: &Vec<(KeyPress, Vec<KeymapAction>)>, exact_match: bool) -> (r: HashMap<
    u16,
    Vec<OverrideEntry>,
>)
    ensures
        table_view(r@) == spec_override_table(remap@, exact_match),
{
    let mut table: HashMap<u16, Vec<OverrideEntry>> = HashMap::new();
    proof {
        assert(table_view(table@) =~= spec_override_table(remap@.take(0), exact_match));
    }
    let mut i: usize = 0;
    while i < remap.len()
        invariant
            i <= remap.len(),
            table_view(table@) == spec_override_table(remap@.take(i as int), exact_match),
        decreases remap.len() - i,
    {
        let (key_press, actions) = &remap[i];
        let entry = OverrideEntry {
            actions: duplicate_actions(actions),
            modifiers: clone_modifiers(&key_press.modifiers),
            exact_match,
        };
        proof {
            assert(remap@.take(i + 1).drop_last() =~= remap@.take(i as int));
            assert(remap@.take(i + 1).last() == remap@[i as int]);
        }
        add_entry(&mut table, key_press.key, entry);
        i = i + 1;
    }
    proof {
        assert(remap@.take(remap@.len() as int) =~= remap@);
    }
    table
}

/// The actions that press and release each of `keys`, in order.
pub open spec fn tap_actions(keys: Seq<u16>) -> Seq<ActionOut>
    decreases keys.len(),
{
    if keys.len() == 0 {
        Seq::empty()
    } else {
        tap_actions(keys.drop_last()) + seq![
            ActionOut::KeyEvent(KeyEvent { key: keys.last(), value: KeyValue::Press }),
            ActionOut::KeyEvent(KeyEvent { key: keys.last(), value: KeyValue::Release }),
        ]
    }
}

/// The state with the nested remaps dropped and their timer disarmed.
pub open spec fn spec_remove_override(s: HandlerState) -> HandlerState {
    HandlerState {
        timer: s.timer.push(TimerCommand::Disarm),
        override_remaps: Seq::empty(),
        override_timeout_key: None,
        ..s
    }
}

/// The nested remap lapses: its timeout keys are tapped and it is dropped.
pub open spec fn spec_timeout_override(s: HandlerState) -> (HandlerState, Seq<ActionOut>) {
    (
        spec_remove_override(s),
        match s.override_timeout_key {
            Some(keys) => tap_actions(keys),
            None => Seq::empty(),
        },
    )
}

impl EventHandler {
    /// Drops the nested remaps and disarms their timer.
    pub fn remove_override(&mut self)
        requires
            state_wf(old(self)@),
        ensures
            state_wf(final(self)@),
            final(self)@ == spec_remove_override(old(self)@),
    {
        self.timer_commands.push(TimerCommand::Disarm);
        self.override_remaps.clear();
        self.override_timeout_key = None;
        proof {
            assert(self@.override_remaps =~= Seq::<Map<u16, Seq<(Seq<ActionSpec>, Seq<Modifier>, bool)>>>::empty());
            assert(self@ == spec_remove_override(old(self)@));
        }
    }

    /// The nested remap lapsed: taps its timeout keys and drops it.
    pub fn timeout_override(&mut self) -> (r: Vec<Action>)
        requires
            state_wf(old(self)@),
        ensures
            state_wf(final(self)@),
            (final(self)@, outs_view(r@)) == spec_timeout_override(old(self)@),
    {
        let mut out: Vec<Action> = Vec::new();
        let keys = self.override_timeout_key.take();
        match keys {
            Some(keys) => {
                let mut i: usize = 0;
                while i < keys.len()
                    invariant
                        i <= keys.len(),
                        outs_view(out@) == tap_actions(keys@.take(i as int)),
                    decreases keys.len() - i,
                {
                    let ghost o = out@;
                    out.push(Action::KeyEvent(KeyEvent { key: keys[i], value: KeyValue::Press }));
                    out.push(Action::KeyEvent(KeyEvent { key: keys[i], value: KeyValue::Release }));
                    proof {
                        assert(keys@.take(i + 1).drop_last() =~= keys@.take(i as int));
                        assert(outs_view(out@) =~= outs_view(o) + seq![
                            ActionOut::KeyEvent(KeyEvent { key: keys@[i as int], value: KeyValue::Press }),
                            ActionOut::KeyEvent(KeyEvent { key: keys@[i as int], value: KeyValue::Release }),
                        ]);
                    }
                    i = i + 1;
                }
                proof {
                    assert(keys@.take(keys@.len() as int) =~= keys@);
                }
            },
            None => {},
        }
        self.remove_override();
        out
    }
}

} // verus!
