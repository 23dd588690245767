use crate::emit_handler::Emit;
use crate::event::{share, Event, InputDeviceInfo, KeyEvent};
use crate::keys::KeyValue;
use std::rc::Rc;
use vstd::prelude::*;

verus! {

/// An action of an experimental mapping: emit a key.
#[derive(Debug)]
pub enum ExpmapAction {
    Key(u16),
}

impl Clone for ExpmapAction {
    fn clone(&self) -> (r: Self)
        ensures
            r == *self,
    {
        match self {
            ExpmapAction::Key(k) => ExpmapAction::Key(*k),
        }
    }
}

impl Copy for ExpmapAction {}

/// What an operator makes of an event.
#[derive(Debug)]
pub enum OperatorAction {
    /// The operator is still buffering events, and may or may not match.
    Undecided,
    /// The operator does not match. Only emitted while undecided.
    Cancel,
    /// The event is not the operator's; it goes on to the next operators.
    Unhandled,
    /// The operator consumes the event and stays active: events to emit, and
    /// events for the next operators.
    Partial(Vec<Emit>, Vec<Event>),
    /// The operator is done: events to emit, and events for the next operators.
    Done(Vec<Emit>, Vec<Event>),
}

/// `OperatorAction` with its vectors as sequences.
pub enum ActionView {
    Undecided,
    Cancel,
    Unhandled,
    Partial(Seq<Emit>, Seq<Event>),
    Done(Seq<Emit>, Seq<Event>),
}

impl View for OperatorAction {
    type V = ActionView;

    open spec fn view(&self) -> ActionView {
        match self {
            OperatorAction::Undecided => ActionView::Undecided,
            OperatorAction::Cancel => ActionView::Cancel,
            OperatorAction::Unhandled => ActionView::Unhandled,
            OperatorAction::Partial(e, u) => ActionView::Partial(e@, u@),
            OperatorAction::Done(e, u) => ActionView::Done(e@, u@),
        }
    }
}

/// The emit of one action on `device` with key state `value`.
pub open spec fn spec_action_emit(action: ExpmapAction, device: Rc<InputDeviceInfo>, value: KeyValue) -> Emit {
    match action {
        ExpmapAction::Key(key) => Emit::Single(Event::KeyEvent(device, KeyEvent { key, value })),
    }
}

/// The emits of `actions` on `device` with key state `value`, in order.
pub open spec fn spec_map_actions(actions: Seq<ExpmapAction>, device: Rc<InputDeviceInfo>, value: KeyValue) -> Seq<Emit> {
    actions.map_values(|a: ExpmapAction| spec_action_emit(a, device, value))
}

/// Emits each action as a key event in state `value` on `device`.
pub fn map_actions(actions: &Vec<ExpmapAction>, device: Rc<InputDeviceInfo>, value: KeyValue) -> (r: Vec<Emit>)
    ensures
        r@ == spec_map_actions(actions@, device, value),
{
    let mut result: Vec<Emit> = Vec::new();
    let mut i: usize = 0;
    while i < actions.len()
        invariant
            i <= actions.len(),
            result@ =~= spec_map_actions(actions@.take(i as int), device, value),
        decreases actions.len() - i,
    {
        match actions[i] {
            ExpmapAction::Key(key) => {
                result.push(Emit::key_event(share(&device), KeyEvent::new(key, value)));
            },
        }
        proof {
            assert(actions@.take(i + 1).drop_last() =~= actions@.take(i as int));
        }
        i = i + 1;
    }
    assert(actions@.take(actions.len() as int) =~= actions@);
    result
}

} // verus!

verus! {

/// A copy of a list of actions.
pub fn clone_actions(v: &Vec<ExpmapAction>) -> (r: Vec<ExpmapAction>)
    ensures
        r@ == v@,
{
    let r = v.clone();
    assert(r@ =~= v@);
    r
}

} // verus!

verus! {

/// The key that an action emits.
pub open spec fn action_key(a: ExpmapAction) -> u16 {
    match a {
        ExpmapAction::Key(k) => k,
    }
}

/// `emits` is one key event of each action's key, in order, all in state
/// `value` on `device`.
pub open spec fn emits_each(emits: Seq<Emit>, actions: Seq<ExpmapAction>, device: Rc<InputDeviceInfo>, value: KeyValue) -> bool {
    &&& emits.len() == actions.len()
    &&& forall|i: int|
        0 <= i < actions.len() ==> #[trigger] emits[i] == Emit::Single(
            Event::KeyEvent(device, KeyEvent { key: action_key(actions[i]), value }),
        )
}

} // verus!
