use crate::event::{InputEvent, KeyEvent, RelativeEvent};
use crate::keymap::strings_view;
use vstd::prelude::*;

verus! {

/// What the event handler asks the output side to do.
#[derive(Debug)]
pub enum Action {
    /// Emit a key event.
    KeyEvent(KeyEvent),
    /// Emit a relative-axis event.
    RelativeEvent(RelativeEvent),
    /// Emit the mouse movements of one batch together.
    MouseMovementEventCollection(Vec<RelativeEvent>),
    /// Emit an input event as it came.
    InputEvent(InputEvent),
    /// Run a command.
    Command(Vec<String>),
    /// Wait this many milliseconds.
    Delay(u64),
}

/// The contents of an action.
pub enum ActionOut {
    KeyEvent(KeyEvent),
    RelativeEvent(RelativeEvent),
    MouseMovementEventCollection(Seq<RelativeEvent>),
    InputEvent(InputEvent),
    Command(Seq<Seq<char>>),
    Delay(u64),
}

impl View for Action {
    type V = ActionOut;

    open spec fn view(&self) -> ActionOut {
        match self {
            Action::KeyEvent(e) => ActionOut::KeyEvent(*e),
            Action::RelativeEvent(e) => ActionOut::RelativeEvent(*e),
            Action::MouseMovementEventCollection(v) => ActionOut::MouseMovementEventCollection(v@),
            Action::InputEvent(e) => ActionOut::InputEvent(*e),
            Action::Command(c) => ActionOut::Command(strings_view(c@)),
            Action::Delay(ms) => ActionOut::Delay(*ms),
        }
    }
}

/// The contents of each action.
pub open spec fn outs_view(actions: Seq<Action>) -> Seq<ActionOut> {
    actions.map_values(|a: Action| a@)
}

/// Appends `more` to `out`.
pub fn append_actions(out: &mut Vec<Action>, more: Vec<Action>)
    ensures
        outs_view(final(out)@) == outs_view(old(out)@) + outs_view(more@),
{
    let mut more = more;
    let ghost o = out@;
    let ghost m = more@;
    out.append(&mut more);
    proof {
        assert(outs_view(o + m) =~= outs_view(o) + outs_view(m));
    }
}

} // verus!
