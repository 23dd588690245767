use crate::event::{share, Event, InputDeviceInfo, KeyEvent};
use crate::keys::KeyValue;
use std::rc::Rc;
use vstd::prelude::*;

verus! {

/// Customizes remapping: a plugin sees each key event before the remapper
/// does and answers it with the key events to use in its place.
pub trait Plugin: Sized {
    /// Whether the plugin is in use; when it is not, events skip it.
    const IMPLEMENTED: bool = true;

    /// Whether the plugin states its answers by `answer_of` and
    /// `after_key_event`; a plugin that does not is trusted for nothing.
    open spec fn obeys_answer_spec() -> bool {
        false
    }

    /// The key events that the plugin, as it is now, answers `key` in state
    /// `value` with.
    open spec fn answer_of(&self, key: u16, value: KeyValue) -> Seq<(u16, KeyValue)> {
        Seq::empty()
    }

    /// The plugin after it answered `key` in state `value`.
    open spec fn after_key_event(&self, key: u16, value: KeyValue) -> Self {
        *self
    }

    /// The key events that replace `key` in state `value`.
    fn on_key_event(&mut self, key: u16, value: KeyValue) -> (r: Vec<(u16, KeyValue)>)
        ensures
            Self::obeys_answer_spec() ==> r@ == old(self).answer_of(key, value),
            Self::obeys_answer_spec() ==> *final(self) == old(self).after_key_event(key, value),
    ;
}

/// The plugin that is not in use.
pub struct NoopPlugin {}

impl Plugin for NoopPlugin {
    const IMPLEMENTED: bool = false;

    /// The plugin states its answers.
    open spec fn obeys_answer_spec() -> bool {
        true
    }

    /// A key event is answered with itself.
    open spec fn answer_of(&self, key: u16, value: KeyValue) -> Seq<(u16, KeyValue)> {
        seq![(key, value)]
    }

    /// The plugin has no state.
    open spec fn after_key_event(&self, key: u16, value: KeyValue) -> Self {
        *self
    }

    /// Never asked, since the plugin is not in use; answers a key event with
    /// itself.
    fn on_key_event(&mut self, key: u16, value: KeyValue) -> (r: Vec<(u16, KeyValue)>)
        ensures
            r@ == seq![(key, value)],
    {
        let mut out: Vec<(u16, KeyValue)> = Vec::new();
        out.push((key, value));
        out
    }
}

/// The key events of `device` that a plugin's answer stands for.
pub open spec fn answer_events(device: Rc<InputDeviceInfo>, answer: Seq<(u16, KeyValue)>) -> Seq<Event> {
    answer.map_values(|kv: (u16, KeyValue)| Event::KeyEvent(device, KeyEvent { key: kv.0, value: kv.1 }))
}

/// How many key events `events` holds.
pub open spec fn key_event_count(events: Seq<Event>) -> nat
    decreases events.len(),
{
    if events.len() == 0 {
        0
    } else {
        key_event_count(events.drop_last()) + if events.last() is KeyEvent {
            1nat
        } else {
            0nat
        }
    }
}

/// `events` after the plugin: the `i`-th key event is replaced by the events
/// of `answers[i]`, every other event stays.
pub open spec fn spec_apply_plugin(events: Seq<Event>, answers: Seq<Seq<(u16, KeyValue)>>) -> Seq<Event>
    decreases events.len(),
{
    if events.len() == 0 {
        Seq::empty()
    } else {
        match events.last() {
            Event::KeyEvent(device, _) => spec_apply_plugin(events.drop_last(), answers.drop_last()) + answer_events(
                device,
                answers.last(),
            ),
            _ => spec_apply_plugin(events.drop_last(), answers).push(events.last()),
        }
    }
}

/// The answers that `plugin` gives to the key events of `events`, in order,
/// each by the plugin as the answers before it left it, and the plugin after
/// the last of them.
pub open spec fn plugin_run<P: Plugin>(plugin: P, events: Seq<Event>) -> (Seq<Seq<(u16, KeyValue)>>, P)
    decreases events.len(),
{
    if events.len() == 0 {
        (Seq::empty(), plugin)
    } else {
        let (answers, p) = plugin_run(plugin, events.drop_last());
        match events.last() {
            Event::KeyEvent(_, ke) => (answers.push(p.answer_of(ke.key, ke.value)), p.after_key_event(ke.key, ke.value)),
            _ => (answers, p),
        }
    }
}

/// A batch without key events passes the plugin unchanged, whatever the
/// plugin would answer.
pub proof fn law_plugin_passes_other_events(events: Seq<Event>, answers: Seq<Seq<(u16, KeyValue)>>)
    requires
        key_event_count(events) == 0,
    ensures
        spec_apply_plugin(events, answers) == events,
    decreases events.len(),
{
    if events.len() > 0 {
        assert(!(events.last() is KeyEvent));
        law_plugin_passes_other_events(events.drop_last(), answers);
        assert(events.drop_last().push(events.last()) =~= events);
    }
}

/// Turns a plugin's answer into key events of `device`.
pub fn answer_to_events(device: &Rc<InputDeviceInfo>, answer: Vec<(u16, KeyValue)>) -> (r: Vec<Event>)
    ensures
        r@ == answer_events(*device, answer@),
{
    let mut out: Vec<Event> = Vec::new();
    let mut i: usize = 0;
    while i < answer.len()
        invariant
            i <= answer.len(),
            out@ == answer_events(*device, answer@.take(i as int)),
        decreases answer.len() - i,
    {
        let (key, value) = answer[i];
        proof {
            assert(answer_events(*device, answer@.take(i + 1)) =~= answer_events(*device, answer@.take(i as int)).push(
                Event::KeyEvent(*device, KeyEvent { key, value }),
            ));
        }
        out.push(Event::KeyEvent(share(device), KeyEvent { key, value }));
        i = i + 1;
    }
    proof {
        assert(answer@.take(answer@.len() as int) =~= answer@);
    }
    out
}

/// Runs the key events through `plugin`: each key event is replaced by the
/// key events the plugin answers it with (on the same device), in order; any
/// other event passes unchanged. The plugin is asked once for each key event,
/// in order.
pub fn apply_plugin<P: Plugin>(plugin: &mut P, events: Vec<Event>) -> (r: Vec<Event>)
    ensures
        exists|answers: Seq<Seq<(u16, KeyValue)>>|
            answers.len() == key_event_count(events@) && r@ == spec_apply_plugin(events@, answers),
        P::obeys_answer_spec() ==> r@ == spec_apply_plugin(events@, plugin_run(*old(plugin), events@).0),
        P::obeys_answer_spec() ==> *final(plugin) == plugin_run(*old(plugin), events@).1,
{
    let mut out: Vec<Event> = Vec::new();
    let ghost p0 = *plugin;
    let ghost mut answers: Seq<Seq<(u16, KeyValue)>> = Seq::empty();
    let mut i: usize = 0;
    while i < events.len()
        invariant
            i <= events.len(),
            p0 == *old(plugin),
            answers.len() == key_event_count(events@.take(i as int)),
            out@ == spec_apply_plugin(events@.take(i as int), answers),
            P::obeys_answer_spec() ==> *plugin == plugin_run(p0, events@.take(i as int)).1,
            P::obeys_answer_spec() ==> answers == plugin_run(p0, events@.take(i as int)).0,
        decreases events.len() - i,
    {
        let ghost prefix = events@.take(i + 1);
        proof {
            assert(prefix.drop_last() =~= events@.take(i as int));
            assert(prefix.last() == events@[i as int]);
        }
        match &events[i] {
            Event::KeyEvent(device, key_event) => {
                let answer = plugin.on_key_event(key_event.key, key_event.value);
                let ghost a = answer@;
                let mut mapped = answer_to_events(device, answer);
                out.append(&mut mapped);
                proof {
                    assert((answers.push(a)).drop_last() =~= answers);
                    answers = answers.push(a);
                }
            },
            other => {
                out.push(other.clone());
            },
        }
        i = i + 1;
    }
    proof {
        assert(events@.take(events@.len() as int) =~= events@);
    }
    out
}

/// A plugin that answers each key event with itself leaves the events as
/// they are.
pub proof fn law_noop_plugin_keeps_events(plugin: NoopPlugin, events: Seq<Event>)
    ensures
        spec_apply_plugin(events, plugin_run(plugin, events).0) == events,
        plugin_run(plugin, events).0.len() == key_event_count(events),
    decreases events.len(),
{
    if events.len() > 0 {
        law_noop_plugin_keeps_events(plugin, events.drop_last());
        let (a, p) = plugin_run(plugin, events.drop_last());
        match events.last() {
            Event::KeyEvent(device, ke) => {
                let a2 = a.push(seq![(ke.key, ke.value)]);
                assert(a2.drop_last() =~= a);
                assert(answer_events(device, seq![(ke.key, ke.value)]) =~= seq![events.last()]);
            },
            _ => {},
        }
        assert(events.drop_last().push(events.last()) =~= events);
    }
}

} // verus!
