use super::{EventHandler, HandlerState};
use crate::event::InputDeviceInfo;
use crate::keymap::{strings_view, Config, Modifier, ModmapAction, Modmap, OnlyOrNot};
use crate::keys::{
    KEY_LEFTALT, KEY_LEFTCTRL, KEY_LEFTMETA, KEY_LEFTSHIFT, KEY_RIGHTALT, KEY_RIGHTCTRL, KEY_RIGHTMETA,
    KEY_RIGHTSHIFT,
};
use crate::main_controller::WMClient;
use crate::util::vec_contains;
use vstd::prelude::*;
use vstd::string::StrSliceExecFns;

verus! {

/// The modifier `m` is satisfied by holding `key`.
pub open spec fn modifier_covers(m: Modifier, key: u16) -> bool {
    match m {
        Modifier::Shift => key == KEY_LEFTSHIFT || key == KEY_RIGHTSHIFT,
        Modifier::Control => key == KEY_LEFTCTRL || key == KEY_RIGHTCTRL,
        Modifier::Alt => key == KEY_LEFTALT || key == KEY_RIGHTALT,
        Modifier::Windows => key == KEY_LEFTMETA || key == KEY_RIGHTMETA,
        Modifier::Key(k) => key == k,
    }
}

/// Some modifier of `modifiers` is satisfied by holding `key`.
pub open spec fn spec_contains_modifier(modifiers: Seq<Modifier>, key: u16) -> bool {
    exists|i: int| 0 <= i < modifiers.len() && modifier_covers(#[trigger] modifiers[i], key)
}

/// The modifier `m` is satisfied by the held keys.
pub open spec fn spec_match_modifier(held: Seq<u16>, m: Modifier) -> bool {
    match m {
        Modifier::Shift => held.contains(KEY_LEFTSHIFT) || held.contains(KEY_RIGHTSHIFT),
        Modifier::Control => held.contains(KEY_LEFTCTRL) || held.contains(KEY_RIGHTCTRL),
        Modifier::Alt => held.contains(KEY_LEFTALT) || held.contains(KEY_RIGHTALT),
        Modifier::Windows => held.contains(KEY_LEFTMETA) || held.contains(KEY_RIGHTMETA),
        Modifier::Key(k) => held.contains(k),
    }
}

/// The key pressed to satisfy `m`: the left one of a kind.
pub open spec fn canonical_key(m: Modifier) -> u16 {
    match m {
        Modifier::Shift => KEY_LEFTSHIFT,
        Modifier::Control => KEY_LEFTCTRL,
        Modifier::Alt => KEY_LEFTALT,
        Modifier::Windows => KEY_LEFTMETA,
        Modifier::Key(k) => k,
    }
}

/// The held keys that none of `modifiers` asks for, in the order held.
pub open spec fn spec_extra_modifiers(held: Seq<u16>, modifiers: Seq<Modifier>) -> Seq<u16> {
    held.filter(|k: u16| !spec_contains_modifier(modifiers, k))
}

/// The keys to press for the modifiers of `modifiers` that are not held.
pub open spec fn spec_missing_modifiers(held: Seq<u16>, modifiers: Seq<Modifier>) -> Seq<u16>
    decreases modifiers.len(),
{
    if modifiers.len() == 0 {
        Seq::empty()
    } else {
        spec_missing_modifiers(held, modifiers.drop_last()) + if spec_match_modifier(held, modifiers.last()) {
            Seq::<u16>::empty()
        } else {
            seq![canonical_key(modifiers.last())]
        }
    }
}

/// Whether some modifier of `modifiers` is satisfied by holding `key`.
pub fn contains_modifier(modifiers: &Vec<Modifier>, key: u16) -> (r: bool)
    ensures
        r == spec_contains_modifier(modifiers@, key),
{
    let mut i: usize = 0;
    while i < modifiers.len()
        invariant
            i <= modifiers.len(),
            forall|j: int| 0 <= j < i ==> !modifier_covers(#[trigger] modifiers@[j], key),
        decreases modifiers.len() - i,
    {
        let matches = match modifiers[i] {
            Modifier::Shift => key == KEY_LEFTSHIFT || key == KEY_RIGHTSHIFT,
            Modifier::Control => key == KEY_LEFTCTRL || key == KEY_RIGHTCTRL,
            Modifier::Alt => key == KEY_LEFTALT || key == KEY_RIGHTALT,
            Modifier::Windows => key == KEY_LEFTMETA || key == KEY_RIGHTMETA,
            Modifier::Key(modifier_key) => key == modifier_key,
        };
        if matches {
            assert(modifier_covers(modifiers@[i as int], key));
            return true;
        }
        i = i + 1;
    }
    false
}

impl EventHandler {
    /// Whether the held keys satisfy `modifier`.
    pub fn match_modifier(&self, modifier: &Modifier) -> (r: bool)
        ensures
            r == spec_match_modifier(self@.modifiers, *modifier),
    {
        match modifier {
            Modifier::Shift => vec_contains(&self.modifiers, KEY_LEFTSHIFT) || vec_contains(
                &self.modifiers,
                KEY_RIGHTSHIFT,
            ),
            Modifier::Control => vec_contains(&self.modifiers, KEY_LEFTCTRL) || vec_contains(
                &self.modifiers,
                KEY_RIGHTCTRL,
            ),
            Modifier::Alt => vec_contains(&self.modifiers, KEY_LEFTALT) || vec_contains(
                &self.modifiers,
                KEY_RIGHTALT,
            ),
            Modifier::Windows => vec_contains(&self.modifiers, KEY_LEFTMETA) || vec_contains(
                &self.modifiers,
                KEY_RIGHTMETA,
            ),
            Modifier::Key(key) => vec_contains(&self.modifiers, *key),
        }
    }

    /// The held keys that `modifiers` does not ask for (extra), and the keys
    /// to press for the modifiers that are not held (missing).
    pub fn diff_modifiers(&self, modifiers: &Vec<Modifier>) -> (r: (Vec<u16>, Vec<u16>))
        ensures
            r.0@ == spec_extra_modifiers(self@.modifiers, modifiers@),
            r.1@ == spec_missing_modifiers(self@.modifiers, modifiers@),
    {
        let ghost held = self.modifiers@;
        let mut extra: Vec<u16> = Vec::new();
        let mut i: usize = 0;
        while i < self.modifiers.len()
            invariant
                i <= self.modifiers.len(),
                held == self.modifiers@,
                extra@ == spec_extra_modifiers(held.take(i as int), modifiers@),
            decreases self.modifiers.len() - i,
        {
            proof {
                reveal_with_fuel(Seq::<_>::filter, 1);
                assert(held.take(i + 1).drop_last() =~= held.take(i as int));
            }
            let k = self.modifiers[i];
            if !contains_modifier(modifiers, k) {
                extra.push(k);
            }
            i = i + 1;
        }
        proof {
            assert(held.take(held.len() as int) =~= held);
        }
        let mut missing: Vec<u16> = Vec::new();
        let mut j: usize = 0;
        while j < modifiers.len()
            invariant
                j <= modifiers.len(),
                held == self.modifiers@,
                missing@ == spec_missing_modifiers(held, modifiers@.take(j as int)),
            decreases modifiers.len() - j,
        {
            proof {
                assert(modifiers@.take(j + 1).drop_last() =~= modifiers@.take(j as int));
            }
            let m = modifiers[j];
            if !self.match_modifier(&m) {
                let k = match m {
                    Modifier::Shift => KEY_LEFTSHIFT,
                    Modifier::Control => KEY_LEFTCTRL,
                    Modifier::Alt => KEY_LEFTALT,
                    Modifier::Windows => KEY_LEFTMETA,
                    Modifier::Key(key) => key,
                };
                missing.push(k);
                proof {
                    assert(missing@ =~= spec_missing_modifiers(held, modifiers@.take(j as int)) + seq![
                        canonical_key(m),
                    ]);
                }
            } else {
                proof {
                    assert(missing@ =~= spec_missing_modifiers(held, modifiers@.take(j as int)) + Seq::<
                        u16,
                    >::empty());
                }
            }
            j = j + 1;
        }
        proof {
            assert(modifiers@.take(modifiers@.len() as int) =~= modifiers@);
        }
        (extra, missing)
    }
}

/// `name` passes the restriction: with `only`, when it is listed; else with
/// `not`, when it is not listed; with neither, never.
pub open spec fn spec_match_names(matcher: OnlyOrNot, name: Seq<char>) -> bool {
    match matcher.only {
        Some(only) => strings_view(only@).contains(name),
        None => match matcher.not {
            Some(not) => !strings_view(not@).contains(name),
            None => false,
        },
    }
}

/// Whether `list` holds a string equal to `name`.
pub fn strings_contain(list: &Vec<String>, name: &String) -> (r: bool)
    ensures
        r == strings_view(list@).contains(name@),
{
    let mut i: usize = 0;
    while i < list.len()
        invariant
            i <= list.len(),
            forall|j: int| 0 <= j < i ==> list@[j]@ != name@,
        decreases list.len() - i,
    {
        if list[i] == *name {
            assert(strings_view(list@)[i as int] == name@);
            return true;
        }
        i = i + 1;
    }
    proof {
        if strings_view(list@).contains(name@) {
            let k = choose|k: int| 0 <= k < strings_view(list@).len() && strings_view(list@)[k] == name@;
            assert(list@[k]@ == name@);
        }
    }
    false
}

/// Whether `name` passes the restriction `matcher`.
pub fn match_names(matcher: &OnlyOrNot, name: &String) -> (r: bool)
    ensures
        r == spec_match_names(*matcher, name@),
{
    match &matcher.only {
        Some(only) => strings_contain(only, name),
        None => match &matcher.not {
            Some(not) => !strings_contain(not, name),
            None => false,
        },
    }
}

/// The title of the focused window, empty when unknown.
pub open spec fn window_title(wm: WMClient) -> Seq<char> {
    match wm.current_window {
        Some(t) => t@,
        None => Seq::empty(),
    }
}

/// The class of the focused application, empty when unknown.
pub open spec fn application_name(wm: WMClient) -> Seq<char> {
    match wm.current_application {
        Some(a) => a@,
        None => Seq::empty(),
    }
}

/// Whether the focused window passes `matcher`.
pub fn match_window(wm: &WMClient, matcher: &OnlyOrNot) -> (r: bool)
    ensures
        r == spec_match_names(*matcher, window_title(*wm)),
{
    match &wm.current_window {
        Some(title) => match_names(matcher, title),
        None => match_names(matcher, &String::new()),
    }
}

/// Whether the focused application passes `matcher`.
pub fn match_application(wm: &WMClient, matcher: &OnlyOrNot) -> (r: bool)
    ensures
        r == spec_match_names(*matcher, application_name(*wm)),
{
    match &wm.current_application {
        Some(application) => match_names(matcher, application),
        None => match_names(matcher, &String::new()),
    }
}

/// `s` begins with `prefix`.
pub open spec fn starts_with(s: Seq<char>, prefix: Seq<char>) -> bool {
    prefix.len() <= s.len() && s.take(prefix.len() as int) == prefix
}

/// `s` holds `part` as a contiguous piece.
pub open spec fn holds_piece(s: Seq<char>, part: Seq<char>) -> bool {
    exists|i: int| 0 <= i && i + part.len() <= s.len() && #[trigger] s.subrange(i, i + part.len()) == part
}

/// A device filter names the device: its path or name exactly, `eventN` for
/// the path `/dev/input/eventN`, or a piece of its name.
pub open spec fn spec_device_matches(name: Seq<char>, path: Seq<char>, filter: Seq<char>) -> bool {
    ||| path == filter
    ||| name == filter
    ||| (starts_with(filter, "event"@) && path == "/dev/input/"@ + filter)
    ||| holds_piece(name, filter)
}

/// The characters of `s`.
pub fn chars_of(s: &str) -> (r: Vec<char>)
    ensures
        r@ == s@,
{
    let n = s.unicode_len();
    let mut out: Vec<char> = Vec::new();
    let mut i: usize = 0;
    while i < n
        invariant
            i <= n,
            n == s@.len(),
            out@ == s@.take(i as int),
        decreases n - i,
    {
        proof {
            assert(s@.take(i + 1) =~= s@.take(i as int).push(s@[i as int]));
        }
        out.push(s.get_char(i));
        i = i + 1;
    }
    proof {
        assert(s@.take(n as int) =~= s@);
    }
    out
}

/// Whether `a` and `b` hold the same characters from `from` on, for `len` of them.
fn same_piece(a: &Vec<char>, from: usize, b: &Vec<char>, len: usize) -> (r: bool)
    requires
        from + len <= a@.len(),
        len <= b@.len(),
    ensures
        r == (a@.subrange(from as int, from + len) == b@.take(len as int)),
{
    let mut i: usize = 0;
    while i < len
        invariant
            i <= len,
            from + len <= a.len(),
            len <= b@.len(),
            forall|j: int| 0 <= j < i ==> a@[from + j] == b@[j],
        decreases len - i,
    {
        if a[from + i] != b[i] {
            assert(a@.subrange(from as int, from + len)[i as int] != b@.take(len as int)[i as int]);
            return false;
        }
        i = i + 1;
    }
    assert(a@.subrange(from as int, from + len) =~= b@.take(len as int));
    true
}

/// Whether `s` holds `part` as a contiguous piece.
fn chars_hold_piece(s: &Vec<char>, part: &Vec<char>) -> (r: bool)
    ensures
        r == holds_piece(s@, part@),
{
    if part.len() > s.len() {
        return false;
    }
    let last = s.len() - part.len();
    let mut i: usize = 0;
    loop
        invariant
            i <= last,
            last + part@.len() == s@.len(),
            forall|j: int| 0 <= j < i ==> #[trigger] s@.subrange(j, j + part@.len()) != part@,
        decreases last - i,
    {
        assert(part@.take(part@.len() as int) =~= part@);
        if same_piece(s, i, part, part.len()) {
            return true;
        }
        if i == last {
            proof {
                if holds_piece(s@, part@) {
                    let k = choose|k: int|
                        0 <= k && k + part@.len() <= s@.len() && #[trigger] s@.subrange(k, k + part@.len()) == part@;
                    assert(s@.subrange(k, k + part@.len()) != part@);
                }
            }
            return false;
        }
        i = i + 1;
    }
}

impl InputDeviceInfo {
    /// Whether the device filter `filter` names this device.
    pub fn matches(&self, filter: &String) -> (r: bool)
        ensures
            r == spec_device_matches(self.name@, self.path@, filter@),
    {
        if self.path == *filter || self.name == *filter {
            return true;
        }
        let f = chars_of(filter.as_str());
        let p = chars_of(self.path.as_str());
        let event = chars_of("event");
        let dir = chars_of("/dev/input/");
        proof {
            reveal_strlit("event");
            reveal_strlit("/dev/input/");
        }
        if f.len() >= 5 && same_piece(&f, 0, &event, 5) && p.len() >= 11 && p.len() - 11 == f.len() && same_piece(&p, 0, &dir, 11)
            && same_piece(&p, 11, &f, f.len()) {
            proof {
                assert(f@.take(5) =~= f@.subrange(0, 5));
                assert(event@.take(5) =~= "event"@);
                assert(dir@.take(11) =~= "/dev/input/"@);
                assert(f@.take(f@.len() as int) =~= f@);
                assert(p@ =~= p@.subrange(0, 11) + p@.subrange(11, p@.len() as int));
            }
            return true;
        }
        proof {
            if starts_with(filter@, "event"@) && self.path@ == "/dev/input/"@ + filter@ {
                assert(f@.subrange(0, 5) =~= f@.take(5));
                assert(event@.take(5) =~= event@);
                assert(p@.subrange(0, 11) =~= dir@.take(11));
                assert(p@.subrange(11, 11 + f@.len() as int) =~= f@.take(f@.len() as int));
            }
        }
        let n = chars_of(self.name.as_str());
        chars_hold_piece(&n, &f)
    }
}

/// The device passes the device restriction: with `only`, when a filter names
/// it; else with `not`, when no filter names it; with neither, never.
pub open spec fn spec_match_device(matcher: OnlyOrNot, device: InputDeviceInfo) -> bool {
    match matcher.only {
        Some(only) => exists|i: int|
            0 <= i < only@.len() && spec_device_matches(device.name@, device.path@, #[trigger] only@[i]@),
        None => match matcher.not {
            Some(not) => forall|i: int|
                0 <= i < not@.len() ==> !spec_device_matches(device.name@, device.path@, #[trigger] not@[i]@),
            None => false,
        },
    }
}

/// Whether some filter of `filters` names the device.
fn some_filter_names(filters: &Vec<String>, device: &InputDeviceInfo) -> (r: bool)
    ensures
        r == exists|i: int|
            0 <= i < filters@.len() && spec_device_matches(device.name@, device.path@, #[trigger] filters@[i]@),
{
    let mut i: usize = 0;
    while i < filters.len()
        invariant
            i <= filters.len(),
            forall|j: int| 0 <= j < i ==> !spec_device_matches(device.name@, device.path@, #[trigger] filters@[j]@),
        decreases filters.len() - i,
    {
        if device.matches(&filters[i]) {
            return true;
        }
        i = i + 1;
    }
    false
}

/// Whether the device passes `matcher`.
pub fn match_device(matcher: &OnlyOrNot, device: &InputDeviceInfo) -> (r: bool)
    ensures
        r == spec_match_device(*matcher, *device),
{
    match &matcher.only {
        Some(only) => some_filter_names(only, device),
        None => match &matcher.not {
            Some(not) => !some_filter_names(not, device),
            None => false,
        },
    }
}

/// The handler's mode is one of `modes`.
pub open spec fn spec_mode_allowed(modes: Option<Vec<String>>, mode: Seq<char>) -> bool {
    match modes {
        Some(m) => strings_view(m@).contains(mode),
        None => true,
    }
}

/// The restrictions of a rule all pass: window, application, device, mode.
pub open spec fn spec_rule_applies(
    window: Option<OnlyOrNot>,
    application: Option<OnlyOrNot>,
    device_matcher: Option<OnlyOrNot>,
    modes: Option<Vec<String>>,
    s: HandlerState,
    wm: WMClient,
    device: InputDeviceInfo,
) -> bool {
    &&& window matches Some(w) ==> spec_match_names(w, window_title(wm))
    &&& application matches Some(a) ==> spec_match_names(a, application_name(wm))
    &&& device_matcher matches Some(d) ==> spec_match_device(d, device)
    &&& spec_mode_allowed(modes, s.mode)
}

impl EventHandler {
    /// Whether a rule with these restrictions applies now.
    pub fn rule_applies(
        &self,
        window: &Option<OnlyOrNot>,
        application: &Option<OnlyOrNot>,
        device_matcher: &Option<OnlyOrNot>,
        modes: &Option<Vec<String>>,
        wm: &WMClient,
        device: &InputDeviceInfo,
    ) -> (r: bool)
        ensures
            r == spec_rule_applies(*window, *application, *device_matcher, *modes, self@, *wm, *device),
    {
        if let Some(window_matcher) = window {
            if !match_window(wm, window_matcher) {
                return false;
            }
        }
        if let Some(application_matcher) = application {
            if !match_application(wm, application_matcher) {
                return false;
            }
        }
        if let Some(d) = device_matcher {
            if !match_device(d, device) {
                return false;
            }
        }
        if let Some(m) = modes {
            if !strings_contain(m, &self.mode) {
                return false;
            }
        }
        true
    }
}

/// The index of the first rule of `remap` for `key`.
pub open spec fn modmap_lookup(remap: Seq<(u16, ModmapAction)>, key: u16) -> Option<int> {
    if exists|j: int| 0 <= j < remap.len() && (#[trigger] remap[j]).0 == key {
        Some(choose|j: int| 0 <= j < remap.len() && (#[trigger] remap[j]).0 == key && forall|l: int| 0 <= l < j ==> remap[l].0 != key)
    } else {
        None
    }
}

/// The first modmap block from `from` on that has a rule for `key` and
/// applies now, with the index of that rule.
pub open spec fn first_modmap(
    modmaps: Seq<Modmap>,
    key: u16,
    s: HandlerState,
    wm: WMClient,
    device: InputDeviceInfo,
    from: int,
) -> Option<(int, int)>
    decreases modmaps.len() - from,
{
    if from < 0 || from >= modmaps.len() {
        None
    } else {
        let m = modmaps[from];
        match modmap_lookup(m.remap@, key) {
            Some(j) => if spec_rule_applies(m.window, m.application, m.device, m.mode, s, wm, device) {
                Some((from, j))
            } else {
                first_modmap(modmaps, key, s, wm, device, from + 1)
            },
            None => first_modmap(modmaps, key, s, wm, device, from + 1),
        }
    }
}

/// The index of the first rule of `remap` for `key`.
fn find_in_modmap(remap: &Vec<(u16, ModmapAction)>, key: u16) -> (r: Option<usize>)
    ensures
        match modmap_lookup(remap@, key) {
            Some(j) => r == Some(j as usize),
            None => r is None,
        },
        r matches Some(j) ==> j < remap@.len() && remap@[j as int].0 == key && modmap_lookup(remap@, key) == Some(
            j as int,
        ),
{
    let mut i: usize = 0;
    while i < remap.len()
        invariant
            i <= remap.len(),
            forall|l: int| 0 <= l < i ==> (#[trigger] remap@[l]).0 != key,
        decreases remap.len() - i,
    {
        if remap[i].0 == key {
            proof {
                let j = i as int;
                assert(0 <= j < remap@.len() && remap@[j].0 == key);
                let c = choose|c: int| 0 <= c < remap@.len() && (#[trigger] remap@[c]).0 == key && forall|l: int|
                    0 <= l < c ==> remap@[l].0 != key;
                if c < j {
                } else if c > j {
                    assert(remap@[j].0 != key);
                }
                assert(c == j);
            }
            return Some(i);
        }
        i = i + 1;
    }
    None
}

impl EventHandler {
    /// The modmap rule for `key` that applies now: the first block that has
    /// a rule for the key and whose restrictions pass.
    pub fn find_modmap<'a>(
        &self,
        config: &'a Config,
        key: u16,
        device: &InputDeviceInfo,
        wm: &WMClient,
    ) -> (r: Option<&'a ModmapAction>)
        ensures
            match first_modmap(config.modmap@, key, self@, *wm, *device, 0) {
                Some((i, j)) => r matches Some(a) && *a == config.modmap@[i].remap@[j].1,
                None => r is None,
            },
    {
        let mut i: usize = 0;
        while i < config.modmap.len()
            invariant
                i <= config.modmap.len(),
                first_modmap(config.modmap@, key, self@, *wm, *device, 0) == first_modmap(
                    config.modmap@,
                    key,
                    self@,
                    *wm,
                    *device,
                    i as int,
                ),
            decreases config.modmap.len() - i,
        {
            let modmap = &config.modmap[i];
            let found = find_in_modmap(&modmap.remap, key);
            match found {
                Some(j) => {
                    if self.rule_applies(&modmap.window, &modmap.application, &modmap.device, &modmap.mode, wm, device) {
                        proof {
                            assert(first_modmap(config.modmap@, key, self@, *wm, *device, i as int) == Some(
                                (i as int, j as int),
                            ));
                        }
                        return Some(&modmap.remap[j].1);
                    }
                },
                None => {},
            }
            i = i + 1;
        }
        None
    }
}

} // verus!

verus! {

/// A name restriction: with an `only` list a name passes exactly when the
/// list holds it; with only a `not` list a name passes exactly when the list
/// does not hold it; with neither, no name passes.
pub proof fn law_name_restrictions(matcher: OnlyOrNot, name: Seq<char>)
    ensures
        matcher.only matches Some(only) ==> (spec_match_names(matcher, name) <==> exists|i: int|
            0 <= i < only@.len() && (#[trigger] only@[i])@ == name),
        matcher.only is None ==> (matcher.not matches Some(not) ==> (spec_match_names(matcher, name) <==> forall|i: int|
            0 <= i < not@.len() ==> (#[trigger] not@[i])@ != name)),
        matcher.only is None && matcher.not is None ==> !spec_match_names(matcher, name),
{
    match matcher.only {
        Some(only) => {
            if spec_match_names(matcher, name) {
                let k = choose|k: int| 0 <= k < strings_view(only@).len() && strings_view(only@)[k] == name;
                assert(only@[k]@ == name);
            }
            if exists|i: int| 0 <= i < only@.len() && (#[trigger] only@[i])@ == name {
                let k = choose|i: int| 0 <= i < only@.len() && (#[trigger] only@[i])@ == name;
                assert(strings_view(only@)[k] == name);
            }
        },
        None => match matcher.not {
            Some(not) => {
                if strings_view(not@).contains(name) {
                    let k = choose|k: int| 0 <= k < strings_view(not@).len() && strings_view(not@)[k] == name;
                    assert(not@[k]@ == name);
                }
                if exists|i: int| 0 <= i < not@.len() && (#[trigger] not@[i])@ == name {
                    let k = choose|i: int| 0 <= i < not@.len() && (#[trigger] not@[i])@ == name;
                    assert(strings_view(not@)[k] == name);
                }
            },
            None => {},
        },
    }
}

/// A rule applies only when each of its restrictions passes: its window
/// restriction the focused window's title, its application restriction the
/// focused application, its device restriction the device, and its modes the
/// handler's mode. Without restrictions a rule always applies.
pub proof fn law_rule_restrictions(
    window: Option<OnlyOrNot>,
    application: Option<OnlyOrNot>,
    device_matcher: Option<OnlyOrNot>,
    modes: Option<Vec<String>>,
    s: HandlerState,
    wm: WMClient,
    device: InputDeviceInfo,
)
    ensures
        window matches Some(w) && !spec_match_names(w, window_title(wm)) ==> !spec_rule_applies(
            window,
            application,
            device_matcher,
            modes,
            s,
            wm,
            device,
        ),
        application matches Some(a) && !spec_match_names(a, application_name(wm)) ==> !spec_rule_applies(
            window,
            application,
            device_matcher,
            modes,
            s,
            wm,
            device,
        ),
        device_matcher matches Some(d) && !spec_match_device(d, device) ==> !spec_rule_applies(
            window,
            application,
            device_matcher,
            modes,
            s,
            wm,
            device,
        ),
        modes matches Some(m) && (forall|i: int| 0 <= i < m@.len() ==> (#[trigger] m@[i])@ != s.mode) ==> !spec_rule_applies(
            window,
            application,
            device_matcher,
            modes,
            s,
            wm,
            device,
        ),
        window is None && application is None && device_matcher is None && modes is None ==> spec_rule_applies(
            window,
            application,
            device_matcher,
            modes,
            s,
            wm,
            device,
        ),
{
    if let Some(m) = modes {
        if strings_view(m@).contains(s.mode) {
            let k = choose|k: int| 0 <= k < strings_view(m@).len() && strings_view(m@)[k] == s.mode;
            assert(m@[k]@ == s.mode);
        }
    }
}

/// A rule restricted to the windows `titles` does not apply while the focused
/// window has another title; one that keeps out the applications `names`
/// applies in no application of `names`.
pub proof fn law_window_and_application_lists(
    titles: Vec<String>,
    names: Vec<String>,
    application: Option<OnlyOrNot>,
    device_matcher: Option<OnlyOrNot>,
    modes: Option<Vec<String>>,
    s: HandlerState,
    wm: WMClient,
    device: InputDeviceInfo,
)
    ensures
        (forall|i: int| 0 <= i < titles@.len() ==> (#[trigger] titles@[i])@ != window_title(wm)) ==> !spec_rule_applies(
            Some(OnlyOrNot { only: Some(titles), not: None }),
            application,
            device_matcher,
            modes,
            s,
            wm,
            device,
        ),
        (exists|i: int| 0 <= i < names@.len() && (#[trigger] names@[i])@ == application_name(wm)) ==> !spec_rule_applies(
            None,
            Some(OnlyOrNot { only: None, not: Some(names) }),
            device_matcher,
            modes,
            s,
            wm,
            device,
        ),
{
    law_name_restrictions(OnlyOrNot { only: Some(titles), not: None }, window_title(wm));
    law_name_restrictions(OnlyOrNot { only: None, not: Some(names) }, application_name(wm));
}

} // verus!

verus! {

/// A device filter names a device given by its exact path or exact name, by
/// a piece of its name, or as `eventN` for the path `/dev/input/eventN`; a
/// device restriction with an `only` list passes a device exactly when some
/// filter of the list names it, and one with only a `not` list exactly when
/// none does.
pub proof fn law_device_filters(matcher: OnlyOrNot, device: InputDeviceInfo, filter: Seq<char>)
    ensures
        filter == device.path@ ==> spec_device_matches(device.name@, device.path@, filter),
        filter == device.name@ ==> spec_device_matches(device.name@, device.path@, filter),
        (exists|i: int| 0 <= i && i + filter.len() <= device.name@.len() && #[trigger] device.name@.subrange(i, i + filter.len())
            == filter) ==> spec_device_matches(device.name@, device.path@, filter),
        device.path@ == "/dev/input/"@ + "event"@ + filter ==> spec_device_matches(
            device.name@,
            device.path@,
            "event"@ + filter,
        ),
        matcher.only matches Some(only) ==> (spec_match_device(matcher, device) <==> exists|i: int|
            0 <= i < only@.len() && spec_device_matches(device.name@, device.path@, (#[trigger] only@[i])@)),
        matcher.only is None ==> (matcher.not matches Some(not) ==> (spec_match_device(matcher, device) <==> forall|i: int|
            0 <= i < not@.len() ==> !spec_device_matches(device.name@, device.path@, (#[trigger] not@[i])@))),
        matcher.only is None && matcher.not is None ==> !spec_match_device(matcher, device),
{
    if exists|i: int| 0 <= i && i + filter.len() <= device.name@.len() && #[trigger] device.name@.subrange(i, i + filter.len()) == filter {
        let i = choose|i: int| 0 <= i && i + filter.len() <= device.name@.len() && #[trigger] device.name@.subrange(i, i + filter.len())
            == filter;
        assert(holds_piece(device.name@, filter));
    }
    let ev = "event"@ + filter;
    if device.path@ == "/dev/input/"@ + "event"@ + filter {
        assert(ev.take(("event"@).len() as int) =~= "event"@);
        assert("/dev/input/"@ + "event"@ + filter =~= "/dev/input/"@ + ev);
        assert(starts_with(ev, "event"@));
    }
}

} // verus!
