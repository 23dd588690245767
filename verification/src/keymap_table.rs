use crate::keymap::{
    actions_view, clone_modifiers, clone_strings, duplicate_actions, strings_view, ActionSpec, Keymap, KeymapEntry,
    Modifier, OnlyOrNot,
};
use std::collections::HashMap;
use vstd::prelude::*;

verus! {

/// The names of a restriction: those of `only` and those of `not`.
pub open spec fn names_view(m: Option<OnlyOrNot>) -> Option<(Option<Seq<Seq<char>>>, Option<Seq<Seq<char>>>)> {
    match m {
        Some(m) => Some(
            (
                match m.only {
                    Some(v) => Some(strings_view(v@)),
                    None => None,
                },
                match m.not {
                    Some(v) => Some(strings_view(v@)),
                    None => None,
                },
            ),
        ),
        None => None,
    }
}

/// The names of an optional list of modes.
pub open spec fn modes_view(m: Option<Vec<String>>) -> Option<Seq<Seq<char>>> {
    match m {
        Some(v) => Some(strings_view(v@)),
        None => None,
    }
}

/// The contents of a keymap rule: actions, modifiers, application, window,
/// device and mode restrictions, exact match.
pub open spec fn keymap_entry_view(e: KeymapEntry) -> (
    Seq<ActionSpec>,
    Seq<Modifier>,
    Option<(Option<Seq<Seq<char>>>, Option<Seq<Seq<char>>>)>,
    Option<(Option<Seq<Seq<char>>>, Option<Seq<Seq<char>>>)>,
    Option<(Option<Seq<Seq<char>>>, Option<Seq<Seq<char>>>)>,
    Option<Seq<Seq<char>>>,
    bool,
) {
    (
        actions_view(e.actions@),
        e.modifiers@,
        names_view(e.application),
        names_view(e.title),
        names_view(e.device),
        modes_view(e.mode),
        e.exact_match,
    )
}

/// The rules of one keymap block, each with its key, in the block's order;
/// each takes the block's restrictions.
pub open spec fn block_rules(k: Keymap) -> Seq<
    (
        u16,
        (
            Seq<ActionSpec>,
            Seq<Modifier>,
            Option<(Option<Seq<Seq<char>>>, Option<Seq<Seq<char>>>)>,
            Option<(Option<Seq<Seq<char>>>, Option<Seq<Seq<char>>>)>,
            Option<(Option<Seq<Seq<char>>>, Option<Seq<Seq<char>>>)>,
            Option<Seq<Seq<char>>>,
            bool,
        ),
    ),
> {
    k.remap@.map_values(
        |r: (crate::keymap::KeyPress, Vec<crate::keymap::KeymapAction>)|
            (
                r.0.key,
                (
                    actions_view(r.1@),
                    r.0.modifiers@,
                    names_view(k.application),
                    names_view(k.window),
                    names_view(k.device),
                    modes_view(k.mode),
                    k.exact_match,
                ),
            ),
    )
}

/// The rules of all blocks, block after block.
pub open spec fn keymap_rules(keymaps: Seq<Keymap>) -> Seq<
    (
        u16,
        (
            Seq<ActionSpec>,
            Seq<Modifier>,
            Option<(Option<Seq<Seq<char>>>, Option<Seq<Seq<char>>>)>,
            Option<(Option<Seq<Seq<char>>>, Option<Seq<Seq<char>>>)>,
            Option<(Option<Seq<Seq<char>>>, Option<Seq<Seq<char>>>)>,
            Option<Seq<Seq<char>>>,
            bool,
        ),
    ),
>
    decreases keymaps.len(),
{
    if keymaps.len() == 0 {
        Seq::empty()
    } else {
        keymap_rules(keymaps.drop_last()) + block_rules(keymaps.last())
    }
}

/// Rules grouped by key, each key's rules in order.
pub open spec fn group_rules<E>(rules: Seq<(u16, E)>) -> Map<u16, Seq<E>>
    decreases rules.len(),
{
    if rules.len() == 0 {
        Map::empty()
    } else {
        let m = group_rules(rules.drop_last());
        let (k, e) = rules.last();
        m.insert(k, if m.contains_key(k) { m[k].push(e) } else { seq![e] })
    }
}

/// The contents of a keymap table.
pub open spec fn table_contents(m: Map<u16, Vec<KeymapEntry>>) -> Map<
    u16,
    Seq<
        (
            Seq<ActionSpec>,
            Seq<Modifier>,
            Option<(Option<Seq<Seq<char>>>, Option<Seq<Seq<char>>>)>,
            Option<(Option<Seq<Seq<char>>>, Option<Seq<Seq<char>>>)>,
            Option<(Option<Seq<Seq<char>>>, Option<Seq<Seq<char>>>)>,
            Option<Seq<Seq<char>>>,
            bool,
        ),
    >,
> {
    m.map_values(|v: Vec<KeymapEntry>| v@.map_values(|e: KeymapEntry| keymap_entry_view(e)))
}

/// A copy of a restriction.
pub fn clone_matcher(m: &Option<OnlyOrNot>) -> (r: Option<OnlyOrNot>)
    ensures
        names_view(r) == names_view(*m),
{
    match m {
        Some(m) => Some(
            OnlyOrNot {
                only: match &m.only {
                    Some(v) => Some(clone_strings(v)),
                    None => None,
                },
                not: match &m.not {
                    Some(v) => Some(clone_strings(v)),
                    None => None,
                },
            },
        ),
        None => None,
    }
}

/// A copy of an optional list of modes.
pub fn clone_modes(m: &Option<Vec<String>>) -> (r: Option<Vec<String>>)
    ensures
        modes_view(r) == modes_view(*m),
{
    match m {
        Some(v) => Some(clone_strings(v)),
        None => None,
    }
}

/// Adds `entry` at the end of the rules of `key`.
fn add_keymap_entry(table: &mut HashMap<u16, Vec<KeymapEntry>>, key: u16, entry: KeymapEntry)
    ensures
        table_contents(final(table)@) == ({
            let m = table_contents(old(table)@);
            let e = keymap_entry_view(entry);
            m.insert(key, if m.contains_key(key) { m[key].push(e) } else { seq![e] })
        }),
{
    broadcast use vstd::std_specs::hash::group_hash_axioms;

    let ghost m0 = table@;
    let removed = table.remove(&key);
    let mut entries = match removed {
        Some(v) => v,
        None => Vec::new(),
    };
    let ghost ev = keymap_entry_view(entry);
    entries.push(entry);
    table.insert(key, entries);
    proof {
        let m = table_contents(m0);
        assert(entries@.map_values(|e: KeymapEntry| keymap_entry_view(e)) =~= (if m.contains_key(key) {
            m[key].push(ev)
        } else {
            seq![ev]
        }));
        assert(table_contents(table@) =~= m.insert(key, if m.contains_key(key) { m[key].push(ev) } else { seq![ev] }));
    }
}

/// The keymap table: the rules of all blocks grouped by key, in the order
/// of the blocks and of the rules in them.
pub fn build_keymap_table(keymaps: &Vec<Keymap>) -> (r: HashMap<u16, Vec<KeymapEntry>>)
    ensures
        table_contents(r@) == group_rules(keymap_rules(keymaps@)),
{
    let mut table: HashMap<u16, Vec<KeymapEntry>> = HashMap::new();
    proof {
        assert(table_contents(table@) =~= group_rules(keymap_rules(keymaps@.take(0))));
    }
    let mut i: usize = 0;
    while i < keymaps.len()
        invariant
            i <= keymaps.len(),
            table_contents(table@) == group_rules(keymap_rules(keymaps@.take(i as int))),
        decreases keymaps.len() - i,
    {
        let keymap = &keymaps[i];
        let ghost base = keymap_rules(keymaps@.take(i as int));
        let ghost block = block_rules(*keymap);
        let mut j: usize = 0;
        proof {
            assert(base + block.take(0) =~= base);
        }
        while j < keymap.remap.len()
            invariant
                j <= keymap.remap.len(),
                block == block_rules(*keymap),
                table_contents(table@) == group_rules(base + block.take(j as int)),
            decreases keymap.remap.len() - j,
        {
            let (key_press, actions) = &keymap.remap[j];
            let entry = KeymapEntry {
                actions: duplicate_actions(actions),
                modifiers: clone_modifiers(&key_press.modifiers),
                application: clone_matcher(&keymap.application),
                title: clone_matcher(&keymap.window),
                device: clone_matcher(&keymap.device),
                mode: clone_modes(&keymap.mode),
                exact_match: keymap.exact_match,
            };
            proof {
                let rules = base + block.take(j + 1);
                assert(rules.drop_last() =~= base + block.take(j as int));
                assert(rules.last() == (key_press.key, keymap_entry_view(entry)));
            }
            add_keymap_entry(&mut table, key_press.key, entry);
            j = j + 1;
        }
        proof {
            assert(block.take(block.len() as int) =~= block);
            assert(keymaps@.take(i + 1).drop_last() =~= keymaps@.take(i as int));
        }
        i = i + 1;
    }
    proof {
        assert(keymaps@.take(keymaps@.len() as int) =~= keymaps@);
    }
    table
}

} // verus!
