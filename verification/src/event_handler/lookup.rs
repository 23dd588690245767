use super::matching::{spec_extra_modifiers, spec_missing_modifiers, spec_rule_applies};
use super::overrides::{spec_remove_override, spec_timeout_override};
use super::{entry_view, state_wf, tagged_view, EventHandler, HandlerState, TaggedAction};
use crate::action::{outs_view, Action, ActionOut};
use crate::event::InputDeviceInfo;
use crate::keymap::{actions_view, duplicate_actions, ActionSpec, Config, KeymapAction, KeymapEntry, Modifier, OverrideEntry};
use crate::main_controller::WMClient;
use vstd::prelude::*;

verus! {

/// The actions are all nested remaps (and there is at least one).
pub open spec fn spec_is_remap(actions: Seq<ActionSpec>) -> bool {
    actions.len() > 0 && forall|i: int| 0 <= i < actions.len() ==> #[trigger] actions[i] is Remap
}

/// The actions of a rule, tagged with its exact match; when modifiers are held
/// that the rule does not ask for, they are released virtually around the
/// actions.
pub open spec fn spec_with_extra_modifiers(actions: Seq<ActionSpec>, extra: Seq<u16>, exact_match: bool) -> Seq<
    (ActionSpec, bool),
> {
    let body = actions.map_values(|a: ActionSpec| (a, exact_match));
    if extra.len() > 0 {
        seq![(ActionSpec::SetExtraModifiers(extra), exact_match)] + body + seq![
            (ActionSpec::SetExtraModifiers(Seq::empty()), exact_match),
        ]
    } else {
        body
    }
}

/// A rule as the lookup sees it: actions, modifiers, exact match, and whether
/// its restrictions pass.
pub open spec fn rule_eligible(
    rule: (Seq<ActionSpec>, Seq<Modifier>, bool, bool),
    held: Seq<u16>,
    exact_pass: bool,
) -> bool {
    &&& !(rule.2 && !exact_pass)
    &&& !(exact_pass && spec_extra_modifiers(held, rule.1).len() > 0)
    &&& spec_missing_modifiers(held, rule.1).len() == 0
    &&& rule.3
}

/// One pass over the rules from `from` on, with the nested remaps found so
/// far in `remaps`: the first eligible rule that is no remap wins when no
/// remap came before it; eligible remaps are gathered; at the end the
/// gathered remaps, if any.
pub open spec fn scan_rules(
    rules: Seq<(Seq<ActionSpec>, Seq<Modifier>, bool, bool)>,
    held: Seq<u16>,
    exact_pass: bool,
    from: int,
    remaps: Seq<(ActionSpec, bool)>,
) -> Option<Seq<(ActionSpec, bool)>>
    decreases rules.len() - from,
{
    if from < 0 || from >= rules.len() {
        if remaps.len() > 0 {
            Some(remaps)
        } else {
            None
        }
    } else {
        let rule = rules[from];
        if !rule_eligible(rule, held, exact_pass) {
            scan_rules(rules, held, exact_pass, from + 1, remaps)
        } else {
            let actions = spec_with_extra_modifiers(rule.0, spec_extra_modifiers(held, rule.1), rule.2);
            if remaps.len() == 0 && !spec_is_remap(rule.0) {
                Some(actions)
            } else if spec_is_remap(rule.0) {
                scan_rules(rules, held, exact_pass, from + 1, remaps + actions)
            } else {
                scan_rules(rules, held, exact_pass, from + 1, remaps)
            }
        }
    }
}

/// The rules' pick: a pass with exact matches first, then one without.
pub open spec fn pick_rules(rules: Seq<(Seq<ActionSpec>, Seq<Modifier>, bool, bool)>, held: Seq<u16>) -> Option<
    Seq<(ActionSpec, bool)>,
> {
    match scan_rules(rules, held, true, 0, Seq::empty()) {
        Some(r) => Some(r),
        None => scan_rules(rules, held, false, 0, Seq::empty()),
    }
}

/// The rules of the nested remaps for `key`, table after table.
pub open spec fn override_rules(
    tables: Seq<Map<u16, Seq<(Seq<ActionSpec>, Seq<Modifier>, bool)>>>,
    key: u16,
) -> Seq<(Seq<ActionSpec>, Seq<Modifier>, bool)>
    decreases tables.len(),
{
    if tables.len() == 0 {
        Seq::empty()
    } else {
        override_rules(tables.drop_last(), key) + if tables.last().contains_key(key) {
            tables.last()[key]
        } else {
            Seq::empty()
        }
    }
}

/// Override rules as the lookup sees them: they always apply.
pub open spec fn override_rule_views(entries: Seq<(Seq<ActionSpec>, Seq<Modifier>, bool)>) -> Seq<
    (Seq<ActionSpec>, Seq<Modifier>, bool, bool),
> {
    entries.map_values(|e: (Seq<ActionSpec>, Seq<Modifier>, bool)| (e.0, e.1, e.2, true))
}

/// Keymap rules as the lookup sees them.
pub open spec fn keymap_rule_views(
    entries: Seq<KeymapEntry>,
    s: HandlerState,
    wm: WMClient,
    device: InputDeviceInfo,
) -> Seq<(Seq<ActionSpec>, Seq<Modifier>, bool, bool)> {
    entries.map_values(
        |e: KeymapEntry|
            (
                actions_view(e.actions@),
                e.modifiers@,
                e.exact_match,
                spec_rule_applies(e.title, e.application, e.device, e.mode, s, wm, device),
            ),
    )
}

/// The keymap lookup of `key`: the state after it, the actions it emits (a
/// lapsed nested remap taps its keys), and the tagged actions found.
///
/// When nested remaps wait: their rules for `key` are tried first, and they
/// are dropped once they have any; a pick ends the lookup. When they had no
/// rule for the key, the nested remap lapses; when they had rules but none
/// applies, it is dropped again with nothing to tap. Then the keymap's rules
/// for `key` are tried.
pub open spec fn spec_find_keymap(
    s: HandlerState,
    config: Config,
    key: u16,
    device: InputDeviceInfo,
    wm: WMClient,
) -> (HandlerState, Seq<ActionOut>, Option<Seq<(ActionSpec, bool)>>) {
    let entries = override_rules(s.override_remaps, key);
    let over: Option<Seq<(ActionSpec, bool)>> = if s.override_remaps.len() > 0 && entries.len() > 0 {
        pick_rules(override_rule_views(entries), s.modifiers)
    } else {
        None
    };
    let (s1, flushed) = if s.override_remaps.len() == 0 {
        (s, Seq::<ActionOut>::empty())
    } else if entries.len() > 0 {
        spec_timeout_override(spec_remove_override(s))
    } else {
        spec_timeout_override(s)
    };
    if over is Some {
        (spec_remove_override(s), Seq::empty(), over)
    } else {
        let found = if config.keymap_table@.contains_key(key) {
            pick_rules(keymap_rule_views(config.keymap_table@[key]@, s1, wm, device), s1.modifiers)
        } else {
            None
        };
        (s1, flushed, found)
    }
}

/// The contents of an optional list of tagged actions.
pub open spec fn opt_tagged_view(r: Option<Vec<TaggedAction>>) -> Option<Seq<(ActionSpec, bool)>> {
    match r {
        Some(v) => Some(tagged_view(v@)),
        None => None,
    }
}

/// Whether the actions are all nested remaps (and there is at least one).
pub fn is_remap(actions: &Vec<KeymapAction>) -> (r: bool)
    ensures
        r == spec_is_remap(actions_view(actions@)),
{
    if actions.len() == 0 {
        return false;
    }
    let mut i: usize = 0;
    while i < actions.len()
        invariant
            i <= actions.len(),
            forall|j: int| 0 <= j < i ==> #[trigger] actions_view(actions@)[j] is Remap,
        decreases actions.len() - i,
    {
        match &actions[i] {
            KeymapAction::Remap(_) => {},
            _ => {
                assert(!(actions_view(actions@)[i as int] is Remap));
                return false;
            },
        }
        i = i + 1;
    }
    true
}

/// Tags the actions of a rule, releasing `extra_modifiers` virtually around
/// them when there are any.
pub fn with_extra_modifiers(actions: &Vec<KeymapAction>, extra_modifiers: &Vec<u16>, exact_match: bool) -> (r: Vec<
    TaggedAction,
>)
    ensures
        tagged_view(r@) == spec_with_extra_modifiers(actions_view(actions@), extra_modifiers@, exact_match),
{
    let mut result: Vec<TaggedAction> = Vec::new();
    if extra_modifiers.len() > 0 {
        result.push(
            TaggedAction {
                action: KeymapAction::SetExtraModifiers(crate::util::clone_keys(extra_modifiers)),
                exact_match,
            },
        );
    }
    let ghost start = tagged_view(result@);
    let copies = duplicate_actions(actions);
    let mut i: usize = 0;
    while i < copies.len()
        invariant
            i <= copies.len(),
            actions_view(copies@) == actions_view(actions@),
            tagged_view(result@) == start + actions_view(copies@).take(i as int).map_values(
                |a: ActionSpec| (a, exact_match),
            ),
        decreases copies.len() - i,
    {
        let a = copies[i].duplicate();
        let ghost before = tagged_view(result@);
        result.push(TaggedAction { action: a, exact_match });
        proof {
            assert(actions_view(copies@)[i as int] == copies@[i as int]@);
            assert(tagged_view(result@) =~= before.push((a@, exact_match)));
            assert(actions_view(copies@).take(i + 1).map_values(|a: ActionSpec| (a, exact_match)) =~= actions_view(
                copies@,
            ).take(i as int).map_values(|a: ActionSpec| (a, exact_match)).push((a@, exact_match)));
        }
        i = i + 1;
    }
    proof {
        assert(actions_view(copies@).take(copies@.len() as int) =~= actions_view(actions@));
    }
    if extra_modifiers.len() > 0 {
        let ghost before = tagged_view(result@);
        result.push(TaggedAction { action: KeymapAction::SetExtraModifiers(Vec::new()), exact_match });
        proof {
            assert(tagged_view(result@) =~= before.push((ActionSpec::SetExtraModifiers(Seq::empty()), exact_match)));
        }
    }
    proof {
        let body = actions_view(actions@).map_values(|a: ActionSpec| (a, exact_match));
        if extra_modifiers@.len() > 0 {
            assert(tagged_view(result@) =~= seq![(ActionSpec::SetExtraModifiers(extra_modifiers@), exact_match)] + body
                + seq![(ActionSpec::SetExtraModifiers(Seq::empty()), exact_match)]);
        } else {
            assert(tagged_view(result@) =~= body);
        }
    }
    result
}

/// The result of a keymap lookup: actions emitted on the way, and the tagged
/// actions found.
pub struct KeymapLookup {
    pub actions: Vec<Action>,
    pub tagged: Option<Vec<TaggedAction>>,
}

/// Appends `more` to `out`.
fn extend_tagged(out: &mut Vec<TaggedAction>, more: Vec<TaggedAction>)
    ensures
        tagged_view(final(out)@) == tagged_view(old(out)@) + tagged_view(more@),
{
    let mut more = more;
    let ghost o = out@;
    let ghost m = more@;
    out.append(&mut more);
    proof {
        assert(tagged_view(o + m) =~= tagged_view(o) + tagged_view(m));
    }
}

impl EventHandler {
    /// One pass over the rules of the nested remaps.
    fn scan_override(&self, entries: &Vec<OverrideEntry>, exact_pass: bool) -> (r: Option<Vec<TaggedAction>>)
        ensures
            opt_tagged_view(r) == scan_rules(
                override_rule_views(entries@.map_values(|e: OverrideEntry| entry_view(e))),
                self@.modifiers,
                exact_pass,
                0,
                Seq::empty(),
            ),
    {
        let ghost rules = override_rule_views(entries@.map_values(|e: OverrideEntry| entry_view(e)));
        let ghost held = self@.modifiers;
        let mut remaps: Vec<TaggedAction> = Vec::new();
        proof {
            assert(tagged_view(remaps@) =~= Seq::<(ActionSpec, bool)>::empty());
        }
        let mut i: usize = 0;
        while i < entries.len()
            invariant
                i <= entries.len(),
                rules == override_rule_views(entries@.map_values(|e: OverrideEntry| entry_view(e))),
                held == self@.modifiers,
                scan_rules(rules, held, exact_pass, 0, Seq::empty()) == scan_rules(
                    rules,
                    held,
                    exact_pass,
                    i as int,
                    tagged_view(remaps@),
                ),
            decreases entries.len() - i,
        {
            let entry = &entries[i];
            proof {
                assert(rules[i as int] == (actions_view(entry.actions@), entry.modifiers@, entry.exact_match, true));
            }
            if entry.exact_match && !exact_pass {
                i = i + 1;
                continue;
            }
            let (extra_modifiers, missing_modifiers) = self.diff_modifiers(&entry.modifiers);
            if (exact_pass && extra_modifiers.len() > 0) || missing_modifiers.len() > 0 {
                i = i + 1;
                continue;
            }
            let actions = with_extra_modifiers(&entry.actions, &extra_modifiers, entry.exact_match);
            let remap = is_remap(&entry.actions);
            if remaps.len() == 0 && !remap {
                return Some(actions);
            } else if remap {
                extend_tagged(&mut remaps, actions);
            }
            i = i + 1;
        }
        if remaps.len() > 0 {
            Some(remaps)
        } else {
            None
        }
    }

    /// One pass over the keymap's rules for a key.
    fn scan_keymap(
        &self,
        entries: &Vec<KeymapEntry>,
        exact_pass: bool,
        wm: &WMClient,
        device: &InputDeviceInfo,
    ) -> (r: Option<Vec<TaggedAction>>)
        ensures
            opt_tagged_view(r) == scan_rules(
                keymap_rule_views(entries@, self@, *wm, *device),
                self@.modifiers,
                exact_pass,
                0,
                Seq::empty(),
            ),
    {
        let ghost rules = keymap_rule_views(entries@, self@, *wm, *device);
        let ghost held = self@.modifiers;
        let mut remaps: Vec<TaggedAction> = Vec::new();
        proof {
            assert(tagged_view(remaps@) =~= Seq::<(ActionSpec, bool)>::empty());
        }
        let mut i: usize = 0;
        while i < entries.len()
            invariant
                i <= entries.len(),
                rules == keymap_rule_views(entries@, self@, *wm, *device),
                held == self@.modifiers,
                scan_rules(rules, held, exact_pass, 0, Seq::empty()) == scan_rules(
                    rules,
                    held,
                    exact_pass,
                    i as int,
                    tagged_view(remaps@),
                ),
            decreases entries.len() - i,
        {
            let entry = &entries[i];
            if entry.exact_match && !exact_pass {
                i = i + 1;
                continue;
            }
            let (extra_modifiers, missing_modifiers) = self.diff_modifiers(&entry.modifiers);
            if (exact_pass && extra_modifiers.len() > 0) || missing_modifiers.len() > 0 {
                i = i + 1;
                continue;
            }
            if !self.rule_applies(&entry.title, &entry.application, &entry.device, &entry.mode, wm, device) {
                i = i + 1;
                continue;
            }
            let actions = with_extra_modifiers(&entry.actions, &extra_modifiers, entry.exact_match);
            let remap = is_remap(&entry.actions);
            if remaps.len() == 0 && !remap {
                return Some(actions);
            } else if remap {
                extend_tagged(&mut remaps, actions);
            }
            i = i + 1;
        }
        if remaps.len() > 0 {
            Some(remaps)
        } else {
            None
        }
    }

    /// The rules of the nested remaps for `key`, table after table.
    fn collect_override_entries(&self, key: u16) -> (r: Vec<OverrideEntry>)
        ensures
            r@.map_values(|e: OverrideEntry| entry_view(e)) == override_rules(self@.override_remaps, key),
    {
        broadcast use vstd::std_specs::hash::group_hash_axioms;

        let mut out: Vec<OverrideEntry> = Vec::new();
        let mut i: usize = 0;
        while i < self.override_remaps.len()
            invariant
                i <= self.override_remaps.len(),
                out@.map_values(|e: OverrideEntry| entry_view(e)) == override_rules(
                    self@.override_remaps.take(i as int),
                    key,
                ),
            decreases self.override_remaps.len() - i,
        {
            let ghost before = out@;
            proof {
                assert(self@.override_remaps.take(i + 1).drop_last() =~= self@.override_remaps.take(i as int));
                assert(self@.override_remaps.take(i + 1).last() == super::table_view(self.override_remaps@[i as int]@));
            }
            match self.override_remaps[i].get(&key) {
                Some(entries) => {
                    let mut j: usize = 0;
                    while j < entries.len()
                        invariant
                            j <= entries.len(),
                            out@.map_values(|e: OverrideEntry| entry_view(e)) == before.map_values(
                                |e: OverrideEntry| entry_view(e),
                            ) + entries@.take(j as int).map_values(|e: OverrideEntry| entry_view(e)),
                        decreases entries.len() - j,
                    {
                        let e = &entries[j];
                        let copy = OverrideEntry {
                            actions: duplicate_actions(&e.actions),
                            modifiers: crate::keymap::clone_modifiers(&e.modifiers),
                            exact_match: e.exact_match,
                        };
                        let ghost o = out@;
                        out.push(copy);
                        proof {
                            assert(entry_view(copy) == entry_view(*e));
                            assert(out@.map_values(|e: OverrideEntry| entry_view(e)) =~= o.map_values(
                                |e: OverrideEntry| entry_view(e),
                            ).push(entry_view(*e)));
                            assert(entries@.take(j + 1).map_values(|e: OverrideEntry| entry_view(e)) =~= entries@.take(
                                j as int,
                            ).map_values(|e: OverrideEntry| entry_view(e)).push(entry_view(*e)));
                        }
                        j = j + 1;
                    }
                    proof {
                        assert(entries@.take(entries@.len() as int) =~= entries@);
                    }
                },
                None => {
                    proof {
                        assert(out@.map_values(|e: OverrideEntry| entry_view(e)) =~= before.map_values(
                            |e: OverrideEntry| entry_view(e),
                        ) + Seq::empty());
                    }
                },
            }
            i = i + 1;
        }
        proof {
            assert(self@.override_remaps.take(self@.override_remaps.len() as int) =~= self@.override_remaps);
        }
        out
    }

    /// Looks `key` up in the nested remaps, then in the keymap (see
    /// `spec_find_keymap`).
    pub fn find_keymap(&mut self, config: &Config, key: u16, device: &InputDeviceInfo, wm: &WMClient) -> (r: KeymapLookup)
        requires
            state_wf(old(self)@),
        ensures
            state_wf(final(self)@),
            (final(self)@, outs_view(r.actions@), opt_tagged_view(r.tagged)) == spec_find_keymap(
                old(self)@,
                *config,
                key,
                *device,
                *wm,
            ),
    {
        broadcast use vstd::std_specs::hash::group_hash_axioms;

        let ghost s0 = self@;
        let mut actions: Vec<Action> = Vec::new();
        if self.override_remaps.len() > 0 {
            let entries = self.collect_override_entries(key);
            proof {
                assert(override_rule_views(entries@.map_values(|e: OverrideEntry| entry_view(e))) == override_rule_views(
                    override_rules(s0.override_remaps, key),
                ));
            }
            if entries.len() > 0 {
                let picked = match self.scan_override(&entries, true) {
                    Some(r) => Some(r),
                    None => self.scan_override(&entries, false),
                };
                self.remove_override();
                if picked.is_some() {
                    return KeymapLookup { actions, tagged: picked };
                }
            }
            actions = self.timeout_override();
        }
        proof {
            assert(self@.modifiers == s0.modifiers);
            assert(self@.mode == s0.mode);
        }
        let found = match config.keymap_table.get(&key) {
            Some(entries) => {
                match self.scan_keymap(entries, true, wm, device) {
                    Some(r) => Some(r),
                    None => self.scan_keymap(entries, false, wm, device),
                }
            },
            None => None,
        };
        KeymapLookup { actions, tagged: found }
    }
}

} // verus!

verus! {

/// A rule matches: every modifier it asks for is held, its restrictions pass,
/// and, when it asks for an exact match, no other modifier is held.
pub open spec fn rule_matches(rule: (Seq<ActionSpec>, Seq<Modifier>, bool, bool), held: Seq<u16>) -> bool {
    &&& spec_missing_modifiers(held, rule.1).len() == 0
    &&& rule.3
    &&& !rule.2 || spec_extra_modifiers(held, rule.1).len() == 0
}

proof fn lemma_scan_none(
    rules: Seq<(Seq<ActionSpec>, Seq<Modifier>, bool, bool)>,
    held: Seq<u16>,
    exact_pass: bool,
    from: int,
    remaps: Seq<(ActionSpec, bool)>,
)
    requires
        0 <= from <= rules.len(),
    ensures
        scan_rules(rules, held, exact_pass, from, remaps) is None <==> (remaps.len() == 0 && forall|i: int|
            from <= i < rules.len() ==> !rule_eligible(#[trigger] rules[i], held, exact_pass)),
    decreases rules.len() - from,
{
    if from < rules.len() {
        let rule = rules[from];
        let actions = spec_with_extra_modifiers(rule.0, spec_extra_modifiers(held, rule.1), rule.2);
        if rule_eligible(rule, held, exact_pass) && spec_is_remap(rule.0) {
            assert(actions.len() > 0) by {
                assert(rule.0.len() > 0);
                if spec_extra_modifiers(held, rule.1).len() == 0 {
                    assert(actions[0] == (rule.0[0], rule.2));
                }
            }
            lemma_scan_none(rules, held, exact_pass, from + 1, remaps + actions);
        } else {
            lemma_scan_none(rules, held, exact_pass, from + 1, remaps);
        }
    }
}

/// The lookup of a key finds nothing exactly when none of its rules matches.
pub proof fn law_pick_finds_nothing_iff_no_rule_matches(rules: Seq<(Seq<ActionSpec>, Seq<Modifier>, bool, bool)>, held: Seq<u16>)
    ensures
        pick_rules(rules, held) is None <==> forall|i: int| 0 <= i < rules.len() ==> !rule_matches(#[trigger] rules[i], held),
{
    lemma_scan_none(rules, held, true, 0, Seq::empty());
    lemma_scan_none(rules, held, false, 0, Seq::empty());
    assert forall|i: int| 0 <= i < rules.len() implies rule_matches(#[trigger] rules[i], held) == (rule_eligible(
        rules[i],
        held,
        true,
    ) || rule_eligible(rules[i], held, false)) by {}
}

/// Without a nested remap waiting, the keymap lookup of `key` finds nothing
/// exactly when no keymap rule for `key` matches the held modifiers.
pub proof fn law_find_keymap_nothing_iff_no_rule_matches(
    s: HandlerState,
    config: Config,
    key: u16,
    device: InputDeviceInfo,
    wm: WMClient,
)
    requires
        s.override_remaps.len() == 0,
    ensures
        spec_find_keymap(s, config, key, device, wm).2 is None <==> (!config.keymap_table@.contains_key(key) || forall|i: int|
            0 <= i < config.keymap_table@[key]@.len() ==> !rule_matches(
                #[trigger] keymap_rule_views(config.keymap_table@[key]@, s, wm, device)[i],
                s.modifiers,
            )),
{
    if config.keymap_table@.contains_key(key) {
        law_pick_finds_nothing_iff_no_rule_matches(keymap_rule_views(config.keymap_table@[key]@, s, wm, device), s.modifiers);
    }
}

} // verus!
