use crate::clock::{now_nanos, within_timeout};
use crate::config::{expmaps_wf, ExpmapOperator, Expmap, Simkey};
use crate::emit_handler::{spec_emitted_events, spec_fold_modifiers, spec_update_modifiers, Emit, EmitHandler};
use crate::event::{share, Event, InputDeviceInfo, KeyEvent};
use crate::keys::KeyValue;
use crate::operator_double_tap::{dt_after, spec_dt_on_event, ActiveDoubleTapOperator, DoubleTapOperator, DoubleTapStateView, DtOpView};
use crate::operator_sim::{sim_accepts, sim_after, spec_sim_on_event, ActiveSimOperator, SimOpView, SimOperator, SimStateView};
use crate::operators::{spec_map_actions, ActionView, ExpmapAction, OperatorAction};
use std::collections::HashMap;
use std::rc::Rc;
use vstd::prelude::*;

verus! {

/// No emit is a tick.
pub open spec fn no_tick_emits(emits: Seq<Emit>) -> bool {
    forall|i: int| 0 <= i < emits.len() ==> emits[i] != Emit::Single(Event::Tick)
}

/// Key actions never emit a tick.
pub proof fn lemma_actions_emit_no_tick(actions: Seq<ExpmapAction>, device: Rc<InputDeviceInfo>, value: KeyValue)
    ensures
        no_tick_emits(spec_map_actions(actions, device, value)),
{
    assert forall|i: int| 0 <= i < spec_map_actions(actions, device, value).len() implies spec_map_actions(
        actions,
        device,
        value,
    )[i] != Emit::Single(Event::Tick) by {
        match actions[i] {
            ExpmapAction::Key(_) => {},
        }
    }
}

/// An operator that is looked up by the key that starts it.
#[derive(Debug)]
pub enum StaticOperator {
    Sim(SimOperator),
    DoubleTap(DoubleTapOperator),
}

/// An operator that has started matching.
#[derive(Debug)]
pub enum ActiveOperator {
    Sim(ActiveSimOperator),
    DoubleTap(ActiveDoubleTapOperator),
}

impl StaticOperator {
    /// A chord has at least two keys.
    pub open spec fn wf(&self) -> bool {
        match self {
            StaticOperator::Sim(op) => op.keys@.len() >= 2,
            StaticOperator::DoubleTap(_) => true,
        }
    }

    /// How long the operator waits for its match.
    pub fn timeout_ms(&self) -> (r: u64)
        ensures
            r == static_timeout(*self),
    {
        match self {
            StaticOperator::Sim(op) => op.timeout_ms,
            StaticOperator::DoubleTap(op) => op.timeout_ms,
        }
    }

    /// The operator that starts matching when `key_event` is pressed on
    /// `device` at time `now`.
    pub fn get_active_operator(&self, device: Rc<InputDeviceInfo>, key_event: &KeyEvent, now: u64) -> (r: ActiveOperator)
        requires
            self.wf(),
        ensures
            r.wf(),
            !r.is_done(),
            r.pending() == 0,
            started_by(*self, r, device, *key_event, now),
            r@ == start_view(self@, device, *key_event, now),
    {
        match self {
            StaticOperator::Sim(op) => ActiveOperator::Sim(op.get_active_operator(key_event, now)),
            StaticOperator::DoubleTap(op) => ActiveOperator::DoubleTap(op.get_active_operator(device, key_event, now)),
        }
    }
}

/// An active operator as plain values.
pub enum OpView {
    Sim(SimOpView),
    DoubleTap(DtOpView),
}

impl View for ActiveOperator {
    type V = OpView;

    open spec fn view(&self) -> OpView {
        match self {
            ActiveOperator::Sim(op) => OpView::Sim(op@),
            ActiveOperator::DoubleTap(op) => OpView::DoubleTap(op@),
        }
    }
}

/// A chord has a first key (the one whose repeat repeats the action).
pub open spec fn op_wf(op: OpView) -> bool {
    match op {
        OpView::Sim(o) => o.keys.len() >= 1,
        OpView::DoubleTap(_) => true,
    }
}

/// The operator has finished.
pub open spec fn op_is_done(op: OpView) -> bool {
    match op {
        OpView::Sim(o) => o.state is Done,
        OpView::DoubleTap(o) => o.state is Done,
    }
}

/// The operator has matched and emitted its action.
pub open spec fn op_committed(op: OpView) -> bool {
    match op {
        OpView::Sim(o) => o.state is Emitted || o.state is Released,
        OpView::DoubleTap(o) => o.state is Emitted,
    }
}

/// How many events the operator holds back.
pub open spec fn op_pending(op: OpView) -> nat {
    match op {
        OpView::Sim(o) => o.buffered.len(),
        OpView::DoubleTap(o) => o.buffered.len(),
    }
}

/// The operator can take `event`.
pub open spec fn op_accepts(op: OpView, event: Event) -> bool {
    match op {
        OpView::Sim(o) => sim_accepts(o, event),
        OpView::DoubleTap(o) => !(o.state is Done),
    }
}

/// The operator after its step on `event` at time `now`, and what it makes of
/// the event.
pub open spec fn op_step(op: OpView, event: Event, now: u64) -> (OpView, ActionView) {
    match op {
        OpView::Sim(o) => (OpView::Sim(sim_after(o, event, now)), spec_sim_on_event(o, event, now).2),
        OpView::DoubleTap(o) => (OpView::DoubleTap(dt_after(o, event, now)), spec_dt_on_event(o, event, now).2),
    }
}

/// The operator that the static operator `s` starts when `ke` is pressed on
/// `device` at `now`: nothing buffered yet; a chord waits for its other keys,
/// a double tap for the release.
pub open spec fn start_view(s: StaticView, device: Rc<InputDeviceInfo>, ke: KeyEvent, now: u64) -> OpView {
    match s {
        StaticView::Sim(keys, actions, timeout_ms) => OpView::Sim(
            SimOpView {
                keys,
                actions,
                timeout_ms,
                start_ns: now,
                buffered: Seq::empty(),
                state: SimStateView::Pressed(crate::util::without(keys, ke.key)),
            },
        ),
        StaticView::DoubleTap(_, actions, timeout_ms) => OpView::DoubleTap(
            DtOpView {
                key: ke.key,
                actions,
                timeout_ms,
                start_ns: now,
                buffered: Seq::empty(),
                state: DoubleTapStateView::Pressed(device),
            },
        ),
    }
}

impl ActiveOperator {
    /// See `op_wf`.
    pub open spec fn wf(&self) -> bool {
        op_wf(self@)
    }

    /// See `op_is_done`.
    pub open spec fn is_done(&self) -> bool {
        op_is_done(self@)
    }

    /// See `op_committed`.
    pub open spec fn committed(&self) -> bool {
        op_committed(self@)
    }

    /// See `op_pending`.
    pub open spec fn pending(&self) -> nat {
        op_pending(self@)
    }

    /// See `op_accepts`.
    pub open spec fn accepts(&self, event: Event) -> bool {
        op_accepts(self@, event)
    }


    /// What the operator makes of `event` at time `now`.
    pub open spec fn step(&self, event: Event, now: u64) -> ActionView {
        op_step(self@, event, now).1
    }

    /// Whether the operator can take `event`.
    pub fn can_take(&self, event: &Event) -> (r: bool)
        ensures
            r == self.accepts(*event),
    {
        match self {
            ActiveOperator::Sim(op) => op.can_take(event),
            ActiveOperator::DoubleTap(op) => op.can_take(event),
        }
    }

    /// A copy of this operator.
    pub fn duplicate(&self) -> (r: ActiveOperator)
        ensures
            r@ == self@,
    {
        match self {
            ActiveOperator::Sim(op) => ActiveOperator::Sim(op.duplicate()),
            ActiveOperator::DoubleTap(op) => ActiveOperator::DoubleTap(op.duplicate()),
        }
    }

    /// What the operator would make of `event` at time `now`, without
    /// changing it.
    pub fn answer_to(&self, event: &Event, now: u64) -> (r: OperatorAction)
        requires
            self.accepts(*event),
            self.wf(),
        ensures
            r@ == self.step(*event, now),
    {
        let mut copy = self.duplicate();
        copy.on_event(event, now)
    }

    /// Takes `event` at time `now`. An operator that cancels or finishes is
    /// done; one that lets an event through or consumes one has matched; an
    /// operator that has matched never cancels; the events it hands back were
    /// held back before.
    pub fn on_event(&mut self, event: &Event, now: u64) -> (r: OperatorAction)
        requires
            old(self).accepts(*event),
            old(self).wf(),
        ensures
            r@ == old(self).step(*event, now),
            final(self)@ == op_step(old(self)@, *event, now).0,
            final(self).wf(),
            (r@ is Cancel || r@ is Done) <==> final(self).is_done(),
            (r@ is Unhandled || r@ is Partial) ==> final(self).committed(),
            old(self).committed() ==> !(r@ is Cancel),
            old(self).committed() && !(r@ is Done) ==> final(self).committed(),
            r@ is Undecided ==> final(self).pending() <= old(self).pending() + 1,
            r@ is Unhandled ==> final(self).pending() == old(self).pending(),
            r@ matches ActionView::Partial(e, u) ==> u.len() + final(self).pending() <= old(self).pending()
                && no_tick_emits(e),
            r@ matches ActionView::Done(e, u) ==> u.len() <= old(self).pending() && no_tick_emits(e),
    {
        match self {
            ActiveOperator::Sim(op) => {
                let r = op.on_event(event, now);
                proof {
                    if let Event::KeyEvent(device, _) = event {
                        lemma_actions_emit_no_tick(op.actions@, *device, KeyValue::Press);
                    }
                    if let SimStateView::Emitted(d) = old(self)->Sim_0.state@ {
                        lemma_actions_emit_no_tick(op.actions@, d, KeyValue::Release);
                        lemma_actions_emit_no_tick(op.actions@, d, KeyValue::Repeat);
                    }
                }
                r
            },
            ActiveOperator::DoubleTap(op) => {
                let r = op.on_event(event, now);
                proof {
                    if let Event::KeyEvent(device, _) = event {
                        lemma_actions_emit_no_tick(op.actions@, *device, KeyValue::Press);
                        lemma_actions_emit_no_tick(op.actions@, *device, KeyValue::Release);
                        lemma_actions_emit_no_tick(op.actions@, *device, KeyValue::Repeat);
                    }
                }
                r
            },
        }
    }
}

} // verus!

verus! {

/// A situation in which the operator pipeline has no defined way to go on.
/// The functions that run events through the pipeline require that their
/// events cannot lead to one.
#[derive(Debug, PartialEq, Eq, Structural)]
pub enum OperatorError {
    /// A trigger key of a chord that is held down was pressed again.
    TriggerPressedWhileHeld,
    /// A finished candidate would be chosen by an event other than a tick.
    FinishedCandidateChosenByEvent,
}

/// How far a candidate has come.
#[derive(Debug, PartialEq, Eq, Structural)]
pub enum CandidateState {
    Canceled,
    Done,
    Matching,
}

/// An operator that may become active, with what it has produced so far.
#[derive(Debug)]
pub struct Candidate {
    pub operator: ActiveOperator,
    pub state: CandidateState,
    pub emitted: Vec<Emit>,
    pub unhandled: Vec<Event>,
}

/// The operators started by one key press, competing for the events after it.
#[derive(Debug)]
pub struct Candidates {
    /// The press that started them, kept in case all of them cancel.
    pub start_event: Event,
    /// The events given to the candidates, kept in case all of them cancel.
    pub events: Vec<Event>,
    pub operators: Vec<Candidate>,
}

/// A candidate as plain values.
pub struct CandView {
    pub op: OpView,
    pub state: CandidateState,
    pub emitted: Seq<Emit>,
    pub unhandled: Seq<Event>,
}

impl View for Candidate {
    type V = CandView;

    open spec fn view(&self) -> CandView {
        CandView { op: self.operator@, state: self.state, emitted: self.emitted@, unhandled: self.unhandled@ }
    }
}

/// The candidates as plain values.
pub struct CandsView {
    pub start_event: Event,
    pub events: Seq<Event>,
    pub ops: Seq<CandView>,
}

/// The candidates of a sequence as plain values.
pub open spec fn cand_views(s: Seq<Candidate>) -> Seq<CandView> {
    s.map_values(|c: Candidate| c@)
}

impl View for Candidates {
    type V = CandsView;

    open spec fn view(&self) -> CandsView {
        CandsView { start_event: self.start_event, events: self.events@, ops: cand_views(self.operators@) }
    }
}

/// What a candidate holds: the events it hands back when chosen.
pub open spec fn candidate_load(c: Candidate) -> nat {
    c.unhandled@.len() + (if c.state == CandidateState::Matching {
        c.operator.pending()
    } else {
        0
    })
}

/// A candidate is consistent with the `events_len` events given to the
/// candidates.
pub open spec fn candidate_wf(c: Candidate, events_len: nat) -> bool {
    &&& no_tick_emits(c.emitted@)
    &&& c.state == CandidateState::Matching ==> !c.operator.is_done() && c.operator.wf()
    &&& c.state != CandidateState::Canceled ==> candidate_load(c) <= events_len
}

/// The candidates are consistent.
pub open spec fn candidates_wf(c: Candidates) -> bool {
    &&& c.start_event is KeyEvent
    &&& forall|i: int| 0 <= i < c.operators@.len() ==> candidate_wf(#[trigger] c.operators@[i], c.events@.len())
}

/// The outcome of one candidate's step.
pub enum CandidateStep {
    /// The candidate was canceled before, or cancels now.
    Skip,
    /// The candidate is still undecided.
    Undecided,
    /// The candidate has decided: it is chosen when no candidate before it is
    /// undecided.
    Respond,
}

/// A candidate's step on `event` at time `now`: a canceled candidate skips;
/// a finished one keeps the event to hand back; a matching one passes the
/// event to its operator (which must be able to take it) and records what the
/// operator makes of it.
pub open spec fn cand_step(c: CandView, event: Event, now: u64) -> Result<(CandView, CandidateStep), OperatorError> {
    match c.state {
        CandidateState::Canceled => Ok((c, CandidateStep::Skip)),
        CandidateState::Done => Ok((CandView { unhandled: c.unhandled.push(event), ..c }, CandidateStep::Respond)),
        CandidateState::Matching => if !op_accepts(c.op, event) {
            Err(OperatorError::TriggerPressedWhileHeld)
        } else {
            let (op, action) = op_step(c.op, event, now);
            match action {
                ActionView::Undecided => Ok((CandView { op, ..c }, CandidateStep::Undecided)),
                ActionView::Cancel => Ok((CandView { op, state: CandidateState::Canceled, ..c }, CandidateStep::Skip)),
                ActionView::Unhandled => Ok(
                    (CandView { op, unhandled: c.unhandled.push(event), ..c }, CandidateStep::Respond),
                ),
                ActionView::Partial(e, u) => Ok(
                    (CandView { op, emitted: c.emitted + e, unhandled: c.unhandled + u, ..c }, CandidateStep::Respond),
                ),
                ActionView::Done(e, u) => Ok(
                    (
                        CandView {
                            op,
                            state: CandidateState::Done,
                            emitted: c.emitted + e,
                            unhandled: c.unhandled + u,
                        },
                        CandidateStep::Respond,
                    ),
                ),
            }
        },
    }
}

/// Gives `event` to a candidate.
fn step_candidate(c: &mut Candidate, event: &Event, now: u64, Ghost(events_len): Ghost<nat>) -> (r: CandidateStep)
    requires
        events_len >= 1,
        candidate_wf(*old(c), (events_len - 1) as nat),
        cand_step(old(c)@, *event, now) is Ok,
    ensures
        candidate_wf(*final(c), events_len),
        r is Respond ==> final(c).state != CandidateState::Canceled && (final(c).state == CandidateState::Matching
            ==> final(c).operator.committed()),
        cand_step(old(c)@, *event, now) == Ok::<(CandView, CandidateStep), OperatorError>((final(c)@, r)),
{
    match c.state {
        CandidateState::Canceled => CandidateStep::Skip,
        CandidateState::Done => {
            c.unhandled.push(event.clone());
            CandidateStep::Respond
        },
        CandidateState::Matching => {
            if !c.operator.can_take(event) {
                // A trigger of a held chord pressed again.
                return vstd::pervasive::unreached();
            }
            let action = c.operator.on_event(event, now);
            match action {
                OperatorAction::Undecided => CandidateStep::Undecided,
                OperatorAction::Cancel => {
                    c.state = CandidateState::Canceled;
                    CandidateStep::Skip
                },
                OperatorAction::Unhandled => {
                    c.unhandled.push(event.clone());
                    CandidateStep::Respond
                },
                OperatorAction::Partial(mut new_emit, mut unhandled) => {
                    c.emitted.append(&mut new_emit);
                    c.unhandled.append(&mut unhandled);
                    CandidateStep::Respond
                },
                OperatorAction::Done(mut new_emit, mut unhandled) => {
                    c.emitted.append(&mut new_emit);
                    c.unhandled.append(&mut unhandled);
                    c.state = CandidateState::Done;
                    CandidateStep::Respond
                },
            }
        },
    }
}

/// What became of the candidates after an event.
pub enum TryOutcome {
    /// No candidate has been chosen yet.
    Pending,
    /// The candidate at this index has been chosen.
    Chosen(usize),
    /// All candidates have canceled.
    Canceled,
}

/// Gives `event` to the candidates from index `i` on, where `first` says
/// that all candidates before `i` have canceled. A candidate that decides
/// while all before it have canceled is chosen (a finished one only by a
/// tick); when all have canceled, the outcome is `Canceled`.
pub open spec fn cands_try(ops: Seq<CandView>, i: int, first: bool, event: Event, now: u64) -> Result<
    (Seq<CandView>, TryOutcome),
    OperatorError,
>
    decreases ops.len() - i,
{
    if i < 0 || i >= ops.len() {
        Ok((
            ops,
            if first {
                TryOutcome::Canceled
            } else {
                TryOutcome::Pending
            },
        ))
    } else if first && ops[i].state == CandidateState::Done && !(event is Tick) {
        Err(OperatorError::FinishedCandidateChosenByEvent)
    } else {
        match cand_step(ops[i], event, now) {
            Err(e) => Err(e),
            Ok((c, k)) => {
                let ops2 = ops.update(i, c);
                match k {
                    CandidateStep::Skip => cands_try(ops2, i + 1, first, event, now),
                    CandidateStep::Undecided => cands_try(ops2, i + 1, false, event, now),
                    CandidateStep::Respond => if first {
                        Ok((ops2, TryOutcome::Chosen(i as usize)))
                    } else {
                        cands_try(ops2, i + 1, first, event, now)
                    },
                }
            },
        }
    }
}

/// Gives `event` to the candidates: it is recorded, then offered to each of
/// them in order (see `cands_try`).
pub open spec fn cands_step(cs: CandsView, event: Event, now: u64) -> Result<(CandsView, TryOutcome), OperatorError> {
    match cands_try(cs.ops, 0, true, event, now) {
        Err(e) => Err(e),
        Ok((ops, o)) => Ok((CandsView { start_event: cs.start_event, events: cs.events.push(event), ops }, o)),
    }
}

/// Gives `event` to the candidates in order. The first candidate that decides
/// while all before it have canceled is chosen; when all have canceled, the
/// candidates are canceled.
fn try_candidates(event: Event, candidates: &mut Candidates, now: u64) -> (r: TryOutcome)
    requires
        candidates_wf(*old(candidates)),
        cands_step(old(candidates)@, event, now) is Ok,
    ensures
        candidates_wf(*final(candidates)),
        final(candidates).events@ == old(candidates).events@.push(event),
        final(candidates).start_event == old(candidates).start_event,
        final(candidates).operators@.len() == old(candidates).operators@.len(),
        cands_step(old(candidates)@, event, now) == Ok::<(CandsView, TryOutcome), OperatorError>(
            (final(candidates)@, r),
        ),
        r matches TryOutcome::Chosen(i) ==> {
            &&& i < final(candidates).operators@.len()
            &&& final(candidates).operators@[i as int].state != CandidateState::Canceled
            &&& final(candidates).operators@[i as int].state == CandidateState::Matching
                ==> final(candidates).operators@[i as int].operator.committed()
        },
{
    let ghost ops0 = cand_views(candidates.operators@);
    candidates.events.push(event.clone());
    let ghost events_len = candidates.events@.len();
    let mut first = true;
    let n = candidates.operators.len();
    let mut i: usize = 0;
    while i < n
        invariant
            0 <= i <= n,
            n == candidates.operators@.len(),
            n == old(candidates).operators@.len(),
            events_len == candidates.events@.len(),
            events_len >= 1,
            candidates.events@ == old(candidates).events@.push(event),
            candidates.start_event == old(candidates).start_event,
            candidates.start_event is KeyEvent,
            forall|j: int| 0 <= j < i ==> candidate_wf(#[trigger] candidates.operators@[j], events_len),
            forall|j: int| i <= j < n ==> candidate_wf(#[trigger] candidates.operators@[j], (events_len - 1) as nat),
            ops0 == cand_views(old(candidates).operators@),
            cands_try(ops0, 0, true, event, now) is Ok,
            cands_try(ops0, 0, true, event, now) == cands_try(cand_views(candidates.operators@), i as int, first, event, now),
        decreases n - i,
    {
        let ghost opsv = cand_views(candidates.operators@);
        assert(opsv[i as int] == candidates.operators@[i as int]@);
        if first && candidates.operators[i].state == CandidateState::Done {
            if !matches!(event, Event::Tick) {
                // A finished candidate would be chosen by an event other than a tick.
                return vstd::pervasive::unreached();
            }
        }
        let step = step_candidate(&mut candidates.operators[i], &event, now, Ghost(events_len));
        proof {
            assert(cand_views(candidates.operators@) =~= opsv.update(i as int, candidates.operators@[i as int]@));
        }
        match step {
            CandidateStep::Skip => {},
            CandidateStep::Undecided => {
                first = false;
            },
            CandidateStep::Respond => {
                if first {
                    proof {
                        assert forall|j: int| i < j < n implies candidate_wf(
                            #[trigger] candidates.operators@[j],
                            events_len,
                        ) by {
                            let c = candidates.operators@[j];
                            assert(candidate_wf(c, (events_len - 1) as nat));
                        }
                    }
                    return TryOutcome::Chosen(i);
                }
            },
        }
        i = i + 1;
    }
    if first {
        TryOutcome::Canceled
    } else {
        TryOutcome::Pending
    }
}

/// Whether giving `event` to the candidates from index `i` on (where `first`
/// says that all before `i` have canceled) comes to a situation with no
/// defined way to go on, and which one.
pub open spec fn cands_fail(ops: Seq<CandView>, i: int, first: bool, event: Event, now: u64) -> Option<OperatorError>
    decreases ops.len() - i,
{
    if i < 0 || i >= ops.len() {
        None
    } else if first && ops[i].state == CandidateState::Done && !(event is Tick) {
        Some(OperatorError::FinishedCandidateChosenByEvent)
    } else {
        match cand_step(ops[i], event, now) {
            Err(e) => Some(e),
            Ok((_, k)) => match k {
                CandidateStep::Skip => cands_fail(ops, i + 1, first, event, now),
                CandidateStep::Undecided => cands_fail(ops, i + 1, false, event, now),
                CandidateStep::Respond => if first {
                    None
                } else {
                    cands_fail(ops, i + 1, first, event, now)
                },
            },
        }
    }
}

proof fn lemma_cands_fail_suffix(ops: Seq<CandView>, ops2: Seq<CandView>, i: int, first: bool, event: Event, now: u64)
    requires
        0 <= i,
        ops.len() == ops2.len(),
        forall|j: int| i <= j < ops.len() ==> ops[j] == ops2[j],
    ensures
        cands_fail(ops, i, first, event, now) == cands_fail(ops2, i, first, event, now),
    decreases ops.len() - i,
{
    if i < ops.len() {
        lemma_cands_fail_suffix(ops, ops2, i + 1, true, event, now);
        lemma_cands_fail_suffix(ops, ops2, i + 1, false, event, now);
    }
}

proof fn lemma_cands_try_fail(ops: Seq<CandView>, i: int, first: bool, event: Event, now: u64)
    requires
        0 <= i,
    ensures
        cands_fail(ops, i, first, event, now) == match cands_try(ops, i, first, event, now) {
            Err(e) => Some(e),
            Ok(_) => None::<OperatorError>,
        },
    decreases ops.len() - i,
{
    if i < ops.len() {
        if !(first && ops[i].state == CandidateState::Done && !(event is Tick)) {
            if let Ok((c, k)) = cand_step(ops[i], event, now) {
                let ops2 = ops.update(i, c);
                lemma_cands_try_fail(ops2, i + 1, true, event, now);
                lemma_cands_try_fail(ops2, i + 1, false, event, now);
                lemma_cands_fail_suffix(ops, ops2, i + 1, true, event, now);
                lemma_cands_fail_suffix(ops, ops2, i + 1, false, event, now);
            }
        }
    }
}

/// Whether giving `event` at time `now` to the candidates comes to a
/// situation with no defined way to go on, and which one; the candidates are
/// left as they are.
fn candidates_failure(cs: &Candidates, event: &Event, now: u64) -> (r: Option<OperatorError>)
    requires
        candidates_wf(*cs),
    ensures
        r == match cands_step(cs@, *event, now) {
            Err(e) => Some(e),
            Ok(_) => None::<OperatorError>,
        },
{
    let ghost ops = cand_views(cs.operators@);
    proof {
        lemma_cands_try_fail(ops, 0, true, *event, now);
    }
    let n = cs.operators.len();
    let mut first = true;
    let mut i: usize = 0;
    while i < n
        invariant
            i <= n,
            n == cs.operators@.len(),
            ops == cand_views(cs.operators@),
            candidates_wf(*cs),
            cands_fail(ops, 0, true, *event, now) == cands_fail(ops, i as int, first, *event, now),
            cands_fail(ops, 0, true, *event, now) == match cands_step(cs@, *event, now) {
                Err(e) => Some(e),
                Ok(_) => None::<OperatorError>,
            },
        decreases n - i,
    {
        let c = &cs.operators[i];
        assert(ops[i as int] == c@);
        assert(candidate_wf(*c, cs.events@.len()));
        match c.state {
            CandidateState::Canceled => {},
            CandidateState::Done => {
                if first {
                    if !matches!(event, Event::Tick) {
                        return Some(OperatorError::FinishedCandidateChosenByEvent);
                    }
                    return None;
                }
            },
            CandidateState::Matching => {
                if !c.operator.can_take(event) {
                    return Some(OperatorError::TriggerPressedWhileHeld);
                }
                match c.operator.answer_to(event, now) {
                    OperatorAction::Undecided => {
                        first = false;
                    },
                    OperatorAction::Cancel => {},
                    _ => {
                        if first {
                            return None;
                        }
                    },
                }
            },
        }
        i = i + 1;
    }
    None
}

} // verus!

verus! {

/// What is still to go through the operators: an event, or an operator that
/// an event has passed and that goes back to the right.
pub enum Node {
    Event(Event),
    Operator(ActiveOperator),
}

/// A node as plain values.
pub enum NodeView {
    Event(Event),
    Operator(OpView),
}

impl View for Node {
    type V = NodeView;

    open spec fn view(&self) -> NodeView {
        match self {
            Node::Event(e) => NodeView::Event(*e),
            Node::Operator(op) => NodeView::Operator(op@),
        }
    }
}

/// The nodes as plain values.
pub open spec fn node_views(s: Seq<Node>) -> Seq<NodeView> {
    s.map_values(|n: Node| n@)
}

/// The operators as plain values.
pub open spec fn op_views(s: Seq<ActiveOperator>) -> Seq<OpView> {
    s.map_values(|o: ActiveOperator| o@)
}

/// Puts `events` on the stack `left` so that the first of them is on top.
pub open spec fn push_back(left: Seq<NodeView>, events: Seq<Event>) -> Seq<NodeView>
    decreases events.len(),
{
    if events.len() == 0 {
        left
    } else {
        push_back(left.push(NodeView::Event(events.last())), events.drop_last())
    }
}

/// Events a node holds.
pub open spec fn node_load(n: Node) -> nat {
    match n {
        Node::Event(_) => 1,
        Node::Operator(op) => op.pending(),
    }
}

/// Events the nodes hold.
pub open spec fn left_load(s: Seq<Node>) -> nat
    decreases s.len(),
{
    if s.len() == 0 {
        0
    } else {
        left_load(s.drop_last()) + node_load(s.last())
    }
}

/// Events the operators hold.
pub open spec fn right_load(s: Seq<ActiveOperator>) -> nat
    decreases s.len(),
{
    if s.len() == 0 {
        0
    } else {
        right_load(s.drop_last()) + s.last().pending()
    }
}

/// Events the candidates hold: those given to them and their start event.
pub open spec fn cands_load(c: Option<Candidates>) -> nat {
    match c {
        Some(c) => c.events@.len() + 1,
        None => 0,
    }
}

/// For each event node, the number of operators it has still to pass:
/// `c` operators to the right of the nodes, plus the operator nodes above it.
pub open spec fn pass_cost(s: Seq<Node>, c: nat) -> nat
    decreases s.len(),
{
    if s.len() == 0 {
        0
    } else {
        match s.last() {
            Node::Event(_) => c + pass_cost(s.drop_last(), c),
            Node::Operator(_) => pass_cost(s.drop_last(), c + 1),
        }
    }
}

/// Nodes counted with events twice.
pub open spec fn node_weight(s: Seq<Node>) -> nat
    decreases s.len(),
{
    if s.len() == 0 {
        0
    } else {
        node_weight(s.drop_last()) + match s.last() {
            Node::Event(_) => 2nat,
            Node::Operator(_) => 1nat,
        }
    }
}

/// The nodes that are operators have matched and are well formed.
pub open spec fn left_wf(s: Seq<Node>) -> bool {
    forall|i: int| 0 <= i < s.len() ==> (#[trigger] s[i] matches Node::Operator(op) ==> op.wf() && op.committed())
}

/// The active operators have matched and are well formed.
pub open spec fn right_wf(s: Seq<ActiveOperator>) -> bool {
    forall|i: int| 0 <= i < s.len() ==> (#[trigger] s[i]).wf() && s[i].committed()
}

/// The operators in the lookup map are well formed.
pub open spec fn lookup_wf(m: Map<u16, Vec<StaticOperator>>) -> bool {
    forall|k: u16, i: int| m.contains_key(k) && 0 <= i < m[k]@.len() ==> (#[trigger] m[k]@[i]).wf()
}

/// Puts `events` on the stack so that the first of them is processed first.
fn unhandled_back_to_stack(events: Vec<Event>, nodes: &mut Vec<Node>)
    requires
        left_wf(old(nodes)@),
    ensures
        left_wf(final(nodes)@),
        left_load(final(nodes)@) == left_load(old(nodes)@) + events@.len(),
        node_views(final(nodes)@) == push_back(node_views(old(nodes)@), events@),
{
    let mut events = events;
    let ghost n0 = events@.len();
    let ghost ev0 = events@;
    while events.len() > 0
        invariant
            left_wf(nodes@),
            left_load(nodes@) + events@.len() == left_load(old(nodes)@) + n0,
            push_back(node_views(nodes@), events@) == push_back(node_views(old(nodes)@), ev0),
        decreases events@.len(),
    {
        let ghost before = nodes@;
        let ghost evs = events@;
        match events.pop() {
            Some(e) => {
                nodes.push(Node::Event(e));
                assert(nodes@.drop_last() == before);
                assert(node_views(nodes@) =~= node_views(before).push(NodeView::Event(e)));
                assert(evs.last() == e && evs.drop_last() =~= events@);
            },
            None => {},
        }
    }
}

/// What an event becomes when no operator takes it and it starts none: a tick
/// is dropped, anything else is emitted as it is.
pub open spec fn passthrough_emits(event: Event) -> Seq<Emit> {
    if event is Tick {
        Seq::empty()
    } else {
        seq![Emit::Single(event)]
    }
}

/// The event is a key press that starts operators.
pub open spec fn starts_operators(event: Event, lookup: Map<u16, Vec<StaticOperator>>) -> bool {
    event matches Event::KeyEvent(_, ke) && ke.value is Press && lookup.contains_key(ke.key)
}

/// `a` is the operator that `s` starts when `ke` is pressed on `device` at
/// `now`.
pub open spec fn started_by(s: StaticOperator, a: ActiveOperator, device: Rc<InputDeviceInfo>, ke: KeyEvent, now: u64) -> bool {
    match (s, a) {
        (StaticOperator::Sim(s), ActiveOperator::Sim(a)) => a.keys@ == s.keys@ && a.actions@ == s.actions@ && a.timeout_ms
            == s.timeout_ms && a.start_ns == now && a.state@ == SimStateView::Pressed(crate::util::without(s.keys@, ke.key)),
        (StaticOperator::DoubleTap(s), ActiveOperator::DoubleTap(a)) => a.key == ke.key && a.actions@ == s.actions@
            && a.timeout_ms == s.timeout_ms && a.start_ns == now && a.state@ == DoubleTapStateView::Pressed(device),
        _ => false,
    }
}

/// How long a static operator waits for its match.
pub open spec fn static_timeout(s: StaticOperator) -> u64 {
    match s {
        StaticOperator::Sim(op) => op.timeout_ms,
        StaticOperator::DoubleTap(op) => op.timeout_ms,
    }
}

/// The candidates that the key press `event` starts: one for each operator
/// of its key, in order, each matching and with nothing produced yet.
pub open spec fn fresh_candidates(
    c: Candidates,
    event: Event,
    lookup: Map<u16, Vec<StaticOperator>>,
    now: u64,
) -> bool {
    match event {
        Event::KeyEvent(device, ke) => {
            let ops = lookup[ke.key]@;
            &&& c.start_event == event
            &&& c.events@.len() == 0
            &&& c.operators@.len() == ops.len()
            &&& forall|i: int|
                0 <= i < ops.len() ==> {
                    let cand = #[trigger] c.operators@[i];
                    &&& cand.state == CandidateState::Matching
                    &&& cand.emitted@.len() == 0
                    &&& cand.unhandled@.len() == 0
                    &&& started_by(ops[i], cand.operator, device, ke, now)
                }
        },
        _ => false,
    }
}

/// The timeouts that the key press `event` asks for: one for each operator of
/// its key, in order.
pub open spec fn start_timeouts(event: Event, lookup: Map<u16, Vec<StaticOperator>>) -> Seq<u64> {
    match event {
        Event::KeyEvent(_, ke) => lookup[ke.key]@.map_values(|s: StaticOperator| static_timeout(s)),
        _ => Seq::empty(),
    }
}

/// How long a static operator waits for its match.
pub open spec fn static_view_timeout(s: StaticView) -> u64 {
    match s {
        StaticView::Sim(_, _, t) => t,
        StaticView::DoubleTap(_, _, t) => t,
    }
}

/// The candidate that the static operator `s` starts when `ke` is pressed on
/// `device` at `now`.
pub open spec fn fresh_cand(s: StaticView, device: Rc<InputDeviceInfo>, ke: KeyEvent, now: u64) -> CandView {
    CandView {
        op: start_view(s, device, ke, now),
        state: CandidateState::Matching,
        emitted: Seq::empty(),
        unhandled: Seq::empty(),
    }
}

/// The candidates, if any, as plain values.
pub open spec fn opt_cands_view(c: Option<Candidates>) -> Option<CandsView> {
    match c {
        Some(c) => Some(c@),
        None => None,
    }
}

/// What the static lookup makes of an event that no operator took: the
/// candidates it starts, the events it emits and the timeouts it asks for.
/// A key press whose key has operators starts one candidate for each of
/// them, in order, and asks for each one's timeout; a tick is dropped;
/// anything else is emitted.
pub open spec fn static_step(event: Event, lookup: Map<u16, Seq<StaticView>>, now: u64) -> (
    Option<CandsView>,
    Seq<Emit>,
    Seq<u64>,
) {
    match event {
        Event::KeyEvent(device, ke) => if ke.value is Press && lookup.contains_key(ke.key) {
            (
                Some(
                    CandsView {
                        start_event: event,
                        events: Seq::empty(),
                        ops: lookup[ke.key].map_values(|s: StaticView| fresh_cand(s, device, ke, now)),
                    },
                ),
                Seq::empty(),
                lookup[ke.key].map_values(|s: StaticView| static_view_timeout(s)),
            )
        } else {
            (None, seq![Emit::Single(event)], Seq::empty())
        },
        Event::Tick => (None, Seq::empty(), Seq::empty()),
        _ => (None, seq![Emit::Single(event)], Seq::empty()),
    }
}

/// Static lookup: what happens to an event that no operator took.
/// A key press that starts operators starts them as candidates; ticks are
/// dropped; anything else is emitted.
fn static_lookup(
    event: Event,
    candidates: &mut Option<Candidates>,
    lookup_map: &HashMap<u16, Vec<StaticOperator>>,
    emit: &mut Vec<Emit>,
    now: u64,
    timeouts: &mut Vec<u64>,
)
    requires
        *old(candidates) is None,
        lookup_wf(lookup_map@),
        no_tick_emits(old(emit)@),
    ensures
        no_tick_emits(final(emit)@),
        *final(candidates) matches Some(c) ==> candidates_wf(c) && c.events@.len() == 0,
        starts_operators(event, lookup_map@) ==> (*final(candidates) matches Some(c) && fresh_candidates(
            c,
            event,
            lookup_map@,
            now,
        )) && final(emit)@ == old(emit)@ && final(timeouts)@ == old(timeouts)@ + start_timeouts(event, lookup_map@),
        !starts_operators(event, lookup_map@) ==> *final(candidates) is None && final(emit)@ == old(emit)@
            + passthrough_emits(event) && final(timeouts)@ == old(timeouts)@,
        opt_cands_view(*final(candidates)) == static_step(event, lookup_view(lookup_map@), now).0,
        final(emit)@ == old(emit)@ + static_step(event, lookup_view(lookup_map@), now).1,
        final(timeouts)@ == old(timeouts)@ + static_step(event, lookup_view(lookup_map@), now).2,
{
    broadcast use vstd::std_specs::hash::group_hash_axioms;

    match &event {
        Event::KeyEvent(device, key_event) => {
            if key_event.value != KeyValue::Press {
                emit.push(Emit::key_event(share(device), *key_event));
                return;
            }
            match lookup_map.get(&key_event.key) {
                Some(operators) => {
                    let mut new_candidates: Vec<Candidate> = Vec::new();
                    let ghost t0 = timeouts@;
                    let mut i: usize = 0;
                    while i < operators.len()
                        invariant
                            i <= operators.len(),
                            *operators == lookup_map@[key_event.key],
                            forall|j: int| 0 <= j < operators@.len() ==> (#[trigger] operators@[j]).wf(),
                            new_candidates@.len() == i,
                            forall|j: int| 0 <= j < new_candidates@.len() ==> candidate_wf(
                                #[trigger] new_candidates@[j],
                                0,
                            ),
                            forall|j: int|
                                0 <= j < i ==> {
                                    let cand = #[trigger] new_candidates@[j];
                                    &&& cand.state == CandidateState::Matching
                                    &&& cand.emitted@.len() == 0
                                    &&& cand.unhandled@.len() == 0
                                    &&& started_by(operators@[j], cand.operator, *device, *key_event, now)
                                },
                            timeouts@ == t0 + operators@.take(i as int).map_values(|s: StaticOperator| static_timeout(s)),
                            cand_views(new_candidates@) == operators@.take(i as int).map_values(
                                |s: StaticOperator| fresh_cand(s@, *device, *key_event, now),
                            ),
                        decreases operators.len() - i,
                    {
                        let operator = operators[i].get_active_operator(share(device), key_event, now);
                        proof {
                            assert(operators@.take(i + 1).map_values(|s: StaticOperator| static_timeout(s)) =~= operators@.take(
                                i as int,
                            ).map_values(|s: StaticOperator| static_timeout(s)).push(static_timeout(operators@[i as int])));
                        }
                        timeouts.push(operators[i].timeout_ms());
                        let c = Candidate {
                            operator,
                            state: CandidateState::Matching,
                            emitted: Vec::new(),
                            unhandled: Vec::new(),
                        };
                        assert(candidate_wf(c, 0));
                        let ghost nc0 = new_candidates@;
                        new_candidates.push(c);
                        proof {
                            assert(cand_views(new_candidates@) =~= cand_views(nc0).push(c@));
                            assert(operators@.take(i + 1).map_values(|s: StaticOperator| fresh_cand(s@, *device, *key_event, now))
                                =~= operators@.take(i as int).map_values(
                                |s: StaticOperator| fresh_cand(s@, *device, *key_event, now),
                            ).push(fresh_cand(operators@[i as int]@, *device, *key_event, now)));
                        }
                        i = i + 1;
                    }
                    proof {
                        assert(operators@.take(operators@.len() as int) =~= operators@);
                        let lv = lookup_view(lookup_map@);
                        assert(lv.contains_key(key_event.key));
                        assert(lv[key_event.key] == operators@.map_values(|op: StaticOperator| op@));
                        assert(lv[key_event.key].map_values(|s: StaticView| fresh_cand(s, *device, *key_event, now)) =~= operators@.map_values(
                            |s: StaticOperator| fresh_cand(s@, *device, *key_event, now),
                        ));
                        assert(lv[key_event.key].map_values(|s: StaticView| static_view_timeout(s)) =~= operators@.map_values(
                            |s: StaticOperator| static_timeout(s),
                        ));
                    }
                    *candidates = Some(Candidates { start_event: event, events: Vec::new(), operators: new_candidates });
                },
                None => {
                    emit.push(Emit::key_event(share(device), *key_event));
                },
            }
        },
        Event::Tick => {
            // Static operators are not started by a timeout.
        },
        _ => {
            emit.push(Emit::Single(event));
        },
    }
}

} // verus!

verus! {

proof fn lemma_left_push(s: Seq<Node>, x: Node, c: nat)
    ensures
        left_load(s.push(x)) == left_load(s) + node_load(x),
        pass_cost(s.push(x), c) == match x {
            Node::Event(_) => c + pass_cost(s, c),
            Node::Operator(_) => pass_cost(s, c + 1),
        },
        node_weight(s.push(x)) == node_weight(s) + match x {
            Node::Event(_) => 2nat,
            Node::Operator(_) => 1nat,
        },
{
    assert(s.push(x).drop_last() =~= s);
}

proof fn lemma_right_push(s: Seq<ActiveOperator>, x: ActiveOperator)
    ensures
        right_load(s.push(x)) == right_load(s) + x.pending(),
{
    assert(s.push(x).drop_last() =~= s);
}

/// The state of the pipeline while it runs an event: the stack of what is
/// still to go through (its top is last), the active operators (the
/// rightmost is last), the candidates, and what has been emitted and the
/// timeouts asked for so far.
pub struct PipeState {
    pub left: Seq<NodeView>,
    pub right: Seq<OpView>,
    pub cands: Option<CandsView>,
    pub emit: Seq<Emit>,
    pub timeouts: Seq<u64>,
}

/// One step of the pipeline. The top of the stack is taken:
///  - an operator goes back to the right;
///  - an event goes to the rightmost active operator, which must be able to
///    take it; the operator stays where it is while undecided; an event it
///    leaves alone goes on to the left of it, and the operator moves to the
///    left with it; what it consumes is emitted and the events it hands back
///    go on the stack (a finished operator is dropped; an active operator has
///    matched and never cancels, and one that did would be dropped too);
///  - with no active operator left, the event goes to the candidates, if any:
///    a chosen candidate emits what it produced, becomes active unless it is
///    finished, and hands its events back; when all cancel, the key press
///    that started them is emitted and the events given to them are run
///    again;
///  - otherwise the static lookup takes it.
pub open spec fn pipeline_step(s: PipeState, lookup: Map<u16, Seq<StaticView>>, now: u64) -> Result<
    PipeState,
    OperatorError,
> {
    if s.left.len() == 0 {
        Ok(s)
    } else {
        let left = s.left.drop_last();
        match s.left.last() {
            NodeView::Operator(op) => Ok(PipeState { left, right: s.right.push(op), ..s }),
            NodeView::Event(event) => if s.right.len() > 0 {
                let op = s.right.last();
                let right = s.right.drop_last();
                if !op_accepts(op, event) {
                    Err(OperatorError::TriggerPressedWhileHeld)
                } else {
                    let (op2, action) = op_step(op, event, now);
                    match action {
                        ActionView::Undecided => Ok(PipeState { left, right: right.push(op2), ..s }),
                        ActionView::Cancel => Ok(PipeState { left, right, ..s }),
                        ActionView::Unhandled => Ok(
                            PipeState {
                                left: left.push(NodeView::Operator(op2)).push(NodeView::Event(event)),
                                right,
                                ..s
                            },
                        ),
                        ActionView::Partial(e, u) => Ok(
                            PipeState { left: push_back(left, u), right: right.push(op2), emit: s.emit + e, ..s },
                        ),
                        ActionView::Done(e, u) => Ok(
                            PipeState { left: push_back(left, u), right, emit: s.emit + e, ..s },
                        ),
                    }
                }
            } else {
                match s.cands {
                    Some(cs) => match cands_step(cs, event, now) {
                        Err(e) => Err(e),
                        Ok((cs2, outcome)) => match outcome {
                            TryOutcome::Pending => Ok(PipeState { left, cands: Some(cs2), ..s }),
                            TryOutcome::Chosen(i) => {
                                let c = cs2.ops[i as int];
                                Ok(
                                    PipeState {
                                        left: push_back(left, c.unhandled),
                                        right: if c.state != CandidateState::Done {
                                            s.right.push(c.op)
                                        } else {
                                            s.right
                                        },
                                        cands: None,
                                        emit: s.emit + c.emitted,
                                        timeouts: s.timeouts,
                                    },
                                )
                            },
                            TryOutcome::Canceled => Ok(
                                PipeState {
                                    left: push_back(left, cs2.events),
                                    cands: None,
                                    emit: s.emit.push(Emit::Single(cs2.start_event)),
                                    ..s
                                },
                            ),
                        },
                    },
                    None => {
                        let (cands, e, t) = static_step(event, lookup, now);
                        Ok(PipeState { left, right: s.right, cands, emit: s.emit + e, timeouts: s.timeouts + t })
                    },
                }
            },
        }
    }
}

/// The pipeline after at most `n` steps; it stops when the stack is empty.
pub open spec fn pipeline_run(s: PipeState, lookup: Map<u16, Seq<StaticView>>, now: u64, n: nat) -> Result<
    PipeState,
    OperatorError,
>
    decreases n,
{
    if n == 0 || s.left.len() == 0 {
        Ok(s)
    } else {
        match pipeline_step(s, lookup, now) {
            Err(e) => Err(e),
            Ok(t) => pipeline_run(t, lookup, now, (n - 1) as nat),
        }
    }
}

/// The state of the pipeline's vectors as plain values.
pub open spec fn pipe_of(
    left: Seq<Node>,
    right: Seq<ActiveOperator>,
    cands: Option<Candidates>,
    emit: Seq<Emit>,
    timeouts: Seq<u64>,
) -> PipeState {
    PipeState { left: node_views(left), right: op_views(right), cands: opt_cands_view(cands), emit, timeouts }
}

/// Some run of the pipeline from `s` comes to an error: a situation in which
/// there is no defined way to go on.
pub open spec fn pipeline_fails(s: PipeState, lookup: Map<u16, Seq<StaticView>>, now: u64) -> bool {
    exists|n: nat| (#[trigger] pipeline_run(s, lookup, now, n)) is Err
}

/// The pipeline state before `event` is run.
pub open spec fn pipe_start(
    event: Event,
    right: Seq<OpView>,
    cands: Option<CandsView>,
    timeouts: Seq<u64>,
) -> PipeState {
    PipeState { left: seq![NodeView::Event(event)], right, cands, emit: Seq::empty(), timeouts }
}

/// The pipeline, started in `s`, comes to `out`: an error, or a state with an
/// empty stack.
pub open spec fn pipeline_ends(s: PipeState, lookup: Map<u16, Seq<StaticView>>, now: u64, out: Result<PipeState, OperatorError>) -> bool {
    &&& out matches Ok(t) ==> t.left.len() == 0
    &&& exists|n: nat| pipeline_run(s, lookup, now, n) == out
}

proof fn lemma_run_extend(s: PipeState, lookup: Map<u16, Seq<StaticView>>, now: u64, n: nat, t: PipeState)
    requires
        pipeline_run(s, lookup, now, n) == Ok::<PipeState, OperatorError>(t),
        t.left.len() > 0,
    ensures
        pipeline_run(s, lookup, now, n + 1) == pipeline_step(t, lookup, now),
    decreases n,
{
    if n > 0 {
        match pipeline_step(s, lookup, now) {
            Err(e) => {},
            Ok(s1) => {
                lemma_run_extend(s1, lookup, now, (n - 1) as nat, t);
                assert(pipeline_run(s1, lookup, now, n) == pipeline_step(t, lookup, now));
            },
        }
    } else {
        match pipeline_step(s, lookup, now) {
            Err(e) => {},
            Ok(s1) => {
                assert(pipeline_run(s1, lookup, now, 0) == Ok::<PipeState, OperatorError>(s1));
            },
        }
    }
}

/// The run has stopped: on an error, or with an empty stack.
pub open spec fn run_stopped(out: Result<PipeState, OperatorError>) -> bool {
    match out {
        Ok(t) => t.left.len() == 0,
        Err(_) => true,
    }
}

proof fn lemma_run_stays(s: PipeState, lookup: Map<u16, Seq<StaticView>>, now: u64, n: nat, m: nat)
    requires
        n <= m,
        run_stopped(pipeline_run(s, lookup, now, n)),
    ensures
        pipeline_run(s, lookup, now, m) == pipeline_run(s, lookup, now, n),
    decreases n,
{
    if n > 0 && s.left.len() > 0 {
        match pipeline_step(s, lookup, now) {
            Err(e) => {},
            Ok(s1) => {
                lemma_run_stays(s1, lookup, now, (n - 1) as nat, (m - 1) as nat);
            },
        }
    }
}

/// A run of the pipeline comes to at most one end: the outcome of an event is
/// determined by the state it meets.
pub proof fn law_pipeline_deterministic(
    s: PipeState,
    lookup: Map<u16, Seq<StaticView>>,
    now: u64,
    a: Result<PipeState, OperatorError>,
    b: Result<PipeState, OperatorError>,
)
    requires
        pipeline_ends(s, lookup, now, a),
        pipeline_ends(s, lookup, now, b),
    ensures
        a == b,
{
    let na = choose|n: nat| pipeline_run(s, lookup, now, n) == a;
    let nb = choose|n: nat| pipeline_run(s, lookup, now, n) == b;
    if na <= nb {
        lemma_run_stays(s, lookup, now, na, nb);
    } else {
        lemma_run_stays(s, lookup, now, nb, na);
    }
}

/// Where the pipeline, started in `s`, ends (see `pipeline_ends`).
pub open spec fn pipeline_result(s: PipeState, lookup: Map<u16, Seq<StaticView>>, now: u64) -> Result<PipeState, OperatorError> {
    let n = choose|n: nat| run_stopped(#[trigger] pipeline_run(s, lookup, now, n));
    pipeline_run(s, lookup, now, n)
}

proof fn lemma_pipeline_result(s: PipeState, lookup: Map<u16, Seq<StaticView>>, now: u64, out: Result<PipeState, OperatorError>)
    requires
        pipeline_ends(s, lookup, now, out),
    ensures
        pipeline_result(s, lookup, now) == out,
{
    let n0 = choose|n: nat| pipeline_run(s, lookup, now, n) == out;
    assert(run_stopped(pipeline_run(s, lookup, now, n0)));
    let n = choose|n: nat| run_stopped(#[trigger] pipeline_run(s, lookup, now, n));
    assert(run_stopped(pipeline_run(s, lookup, now, n)));
    if n <= n0 {
        lemma_run_stays(s, lookup, now, n, n0);
    } else {
        lemma_run_stays(s, lookup, now, n0, n);
    }
}

/// What an event does to a pipeline without active operators or candidates:
/// a key press that starts operators starts them as candidates (with their
/// timeouts asked for) and emits nothing; any other event passes through (a
/// tick is dropped).
pub open spec fn idle_outcome(
    event: Event,
    lookup: Map<u16, Vec<StaticOperator>>,
    now: u64,
    cands: Option<Candidates>,
    emits: Seq<Emit>,
    old_timeouts: Seq<u64>,
    timeouts: Seq<u64>,
) -> bool {
    if starts_operators(event, lookup) {
        &&& emits.len() == 0
        &&& cands matches Some(c) && fresh_candidates(c, event, lookup, now)
        &&& timeouts == old_timeouts + start_timeouts(event, lookup)
    } else {
        &&& emits == passthrough_emits(event)
        &&& cands is None
        &&& timeouts == old_timeouts
    }
}

/// Runs one event through the pipeline: the active operators from the right
/// to the left, then the candidates, then the static lookup. The events that
/// an operator hands back are run again from where that operator stands, the
/// first of them first. Returns the emitted events; none of them is a tick.
/// The loop ends because each step either takes one event out of the pipeline
/// or moves an event past an operator or off the stack.
fn process_event(
    event: Event,
    right: &mut Vec<ActiveOperator>,
    candidates: &mut Option<Candidates>,
    lookup_map: &HashMap<u16, Vec<StaticOperator>>,
    now: u64,
    timeouts: &mut Vec<u64>,
) -> (r: Result<Vec<Emit>, OperatorError>)
    requires
        right_wf(old(right)@),
        *old(candidates) matches Some(c) ==> candidates_wf(c),
        lookup_wf(lookup_map@),
    ensures
        r is Ok ==> right_wf(final(right)@),
        r is Ok ==> (*final(candidates) matches Some(c) ==> candidates_wf(c)),
        r matches Ok(emits) ==> no_tick_emits(emits@),
        old(right)@.len() == 0 && *old(candidates) is None ==> (r matches Ok(emits) && final(right)@.len() == 0
            && idle_outcome(event, lookup_map@, now, *final(candidates), emits@, old(timeouts)@, final(timeouts)@)),
        match r {
            Ok(emits) => pipeline_ends(
                pipe_start(event, op_views(old(right)@), opt_cands_view(*old(candidates)), old(timeouts)@),
                lookup_view(lookup_map@),
                now,
                Ok::<PipeState, OperatorError>(
                    PipeState {
                        left: Seq::empty(),
                        right: op_views(final(right)@),
                        cands: opt_cands_view(*final(candidates)),
                        emit: emits@,
                        timeouts: final(timeouts)@,
                    },
                ),
            ),
            Err(e) => pipeline_ends(
                pipe_start(event, op_views(old(right)@), opt_cands_view(*old(candidates)), old(timeouts)@),
                lookup_view(lookup_map@),
                now,
                Err::<PipeState, OperatorError>(e),
            ),
        },
{
    let ghost pm = old(right)@.len() == 0 && *old(candidates) is None;
    let ghost event0 = event;
    assert(event0 == event);
    let ghost lk = lookup_view(lookup_map@);
    let ghost init = pipe_start(event, op_views(right@), opt_cands_view(*candidates), timeouts@);
    let ghost mut count: nat = 0;
    let mut emit: Vec<Emit> = Vec::new();
    let mut left: Vec<Node> = Vec::new();
    left.push(Node::Event(event));
    proof {
        assert(node_views(left@) =~= seq![NodeView::Event(event0)]);
        assert(pipe_of(left@, right@, *candidates, emit@, timeouts@) == init);
    }
    loop
        invariant
            right_wf(right@),
            left_wf(left@),
            *candidates matches Some(c) ==> candidates_wf(c),
            lookup_wf(lookup_map@),
            no_tick_emits(emit@),
            pm == (old(right)@.len() == 0 && *old(candidates) is None),
            event0 == event,
            pm ==> right@.len() == 0 && ((left@ == seq![Node::Event(event0)] && emit@.len() == 0 && *candidates is None
                && timeouts@ == old(timeouts)@) || (left@.len() == 0 && idle_outcome(
                event0,
                lookup_map@,
                now,
                *candidates,
                emit@,
                old(timeouts)@,
                timeouts@,
            ))),
            lk == lookup_view(lookup_map@),
            init == pipe_start(event0, op_views(old(right)@), opt_cands_view(*old(candidates)), old(timeouts)@),
            pipeline_run(init, lk, now, count) == Ok::<PipeState, OperatorError>(
                pipe_of(left@, right@, *candidates, emit@, timeouts@),
            ),
        decreases
            left_load(left@) + right_load(right@) + cands_load(*candidates),
            pass_cost(left@, right@.len()),
            node_weight(left@),
    {
        let ghost left0 = left@;
        let ghost right0 = right@;
        let ghost cur0 = pipe_of(left@, right@, *candidates, emit@, timeouts@);
        match left.pop() {
            None => {
                proof {
                    assert(left0.len() == 0);
                    assert(node_views(left@) =~= Seq::<NodeView>::empty());
                }
                return Ok(emit);
            },
            Some(Node::Operator(op)) => {
                proof {
                    lemma_left_push(left@, Node::Operator(op), right0.len());
                    assert(left0 == left@.push(Node::Operator(op)));
                    assert(left0[left0.len() - 1] matches Node::Operator(o) ==> o.wf() && o.committed());
                    lemma_right_push(right0, op);
                }
                right.push(op);
                proof {
                    assert forall|i: int| 0 <= i < left@.len() implies (#[trigger] left@[i] matches Node::Operator(o)
                        ==> o.wf() && o.committed()) by {
                        assert(left@[i] == left0[i]);
                    }
                    assert(node_views(left@) =~= node_views(left0).drop_last());
                    assert(node_views(left0).last() == NodeView::Operator(op@));
                    assert(op_views(right@) =~= op_views(right0).push(op@));
                    assert(pipeline_step(cur0, lk, now) == Ok::<PipeState, OperatorError>(
                        pipe_of(left@, right@, *candidates, emit@, timeouts@),
                    ));
                }
            },
            Some(Node::Event(event)) => {
                proof {
                    lemma_left_push(left@, Node::Event(event), right0.len());
                    assert(left0 == left@.push(Node::Event(event)));
                    assert forall|i: int| 0 <= i < left@.len() implies (#[trigger] left@[i] matches Node::Operator(o)
                        ==> o.wf() && o.committed()) by {
                        assert(left@[i] == left0[i]);
                    }
                }
                let ghost left1 = left@;
                proof {
                    assert(node_views(left1) =~= node_views(left0).drop_last());
                    assert(node_views(left0).last() == NodeView::Event(event));
                }
                match right.pop() {
                    Some(mut operator) => {
                        proof {
                            assert(right0 == right@.push(operator));
                            lemma_right_push(right@, operator);
                            assert(right0[right0.len() - 1] == operator);
                            assert(op_views(right@) =~= op_views(right0).drop_last());
                            assert(op_views(right0).last() == operator@);
                        }
                        let ghost right1 = right@;
                        if !operator.can_take(&event) {
                            // A trigger of a held chord pressed again.
                            proof {
                                assert(pipeline_step(cur0, lk, now) == Err::<PipeState, OperatorError>(
                                    OperatorError::TriggerPressedWhileHeld,
                                ));
                                lemma_run_extend(init, lk, now, count, cur0);
                                assert(pipeline_run(init, lk, now, count + 1) == Err::<PipeState, OperatorError>(
                                    OperatorError::TriggerPressedWhileHeld,
                                ));
                            }
                            return Err(OperatorError::TriggerPressedWhileHeld);
                        }
                        let ghost op0 = operator;
                        match operator.on_event(&event, now) {
                            OperatorAction::Undecided => {
                                proof {
                                    lemma_right_push(right1, operator);
                                }
                                right.push(operator);
                                proof {
                                    assert forall|i: int| 0 <= i < right@.len() implies (#[trigger] right@[i]).wf()
                                        && right@[i].committed() by {
                                        if i < right1.len() {
                                            assert(right@[i] == right0[i]);
                                        }
                                    }
                                    assert(op_views(right@) =~= op_views(right1).push(operator@));
                                    assert(pipeline_step(cur0, lk, now) == Ok::<PipeState, OperatorError>(
                                        pipe_of(left@, right@, *candidates, emit@, timeouts@),
                                    ));
                                }
                            },
                            OperatorAction::Cancel => {
                                return vstd::pervasive::unreached();
                            },
                            OperatorAction::Unhandled => {
                                // Move the operator one to the left.
                                proof {
                                    lemma_left_push(left1, Node::Operator(operator), right1.len());
                                    lemma_left_push(left1.push(Node::Operator(operator)), Node::Event(event), right1.len());
                                }
                                left.push(Node::Operator(operator));
                                left.push(Node::Event(event));
                                proof {
                                    assert forall|i: int| 0 <= i < left@.len() implies (#[trigger] left@[i] matches Node::Operator(o)
                                        ==> o.wf() && o.committed()) by {
                                        if i < left1.len() {
                                            assert(left@[i] == left1[i]);
                                        }
                                    }
                                    assert forall|i: int| 0 <= i < right@.len() implies (#[trigger] right@[i]).wf()
                                        && right@[i].committed() by {
                                        assert(right@[i] == right0[i]);
                                    }
                                    assert(node_views(left@) =~= node_views(left1).push(NodeView::Operator(operator@)).push(
                                        NodeView::Event(event),
                                    ));
                                    assert(pipeline_step(cur0, lk, now) == Ok::<PipeState, OperatorError>(
                                        pipe_of(left@, right@, *candidates, emit@, timeouts@),
                                    ));
                                }
                            },
                            OperatorAction::Partial(mut emitted, unhandled) => {
                                let ghost u = unhandled@;
                                proof {
                                    lemma_right_push(right1, operator);
                                }
                                right.push(operator);
                                let ghost e0 = emit@;
                                let ghost em = emitted@;
                                emit.append(&mut emitted);
                                proof {
                                    assert forall|i: int| 0 <= i < emit@.len() implies emit@[i] != Emit::Single(Event::Tick) by {
                                        if i >= e0.len() {
                                            assert(emit@[i] == em[i - e0.len()]) by {
                                                assert(emit@ =~= e0 + em);
                                            }
                                        }
                                    }
                                    assert forall|i: int| 0 <= i < right@.len() implies (#[trigger] right@[i]).wf()
                                        && right@[i].committed() by {
                                        if i < right1.len() {
                                            assert(right@[i] == right0[i]);
                                        }
                                    }
                                    assert(op_views(right@) =~= op_views(right1).push(operator@));
                                    assert(emit@ =~= e0 + em);
                                }
                                unhandled_back_to_stack(unhandled, &mut left);
                                proof {
                                    assert(pipeline_step(cur0, lk, now) == Ok::<PipeState, OperatorError>(
                                        pipe_of(left@, right@, *candidates, emit@, timeouts@),
                                    ));
                                }
                            },
                            OperatorAction::Done(mut emitted, unhandled) => {
                                let ghost u = unhandled@;
                                // The operator is dropped.
                                let ghost e0 = emit@;
                                let ghost em = emitted@;
                                emit.append(&mut emitted);
                                proof {
                                    assert forall|i: int| 0 <= i < emit@.len() implies emit@[i] != Emit::Single(Event::Tick) by {
                                        if i >= e0.len() {
                                            assert(emit@[i] == em[i - e0.len()]) by {
                                                assert(emit@ =~= e0 + em);
                                            }
                                        }
                                    }
                                    assert forall|i: int| 0 <= i < right@.len() implies (#[trigger] right@[i]).wf()
                                        && right@[i].committed() by {
                                        assert(right@[i] == right0[i]);
                                    }
                                    assert(emit@ =~= e0 + em);
                                }
                                unhandled_back_to_stack(unhandled, &mut left);
                                proof {
                                    assert(pipeline_step(cur0, lk, now) == Ok::<PipeState, OperatorError>(
                                        pipe_of(left@, right@, *candidates, emit@, timeouts@),
                                    ));
                                }
                            },
                        }
                    },
                    None => {
                        // No more operators.
                        if candidates.is_some() {
                            let failure = match candidates {
                                Some(c) => candidates_failure(c, &event, now),
                                None => None,
                            };
                            if let Some(e) = failure {
                                proof {
                                    assert(pipeline_step(cur0, lk, now) == Err::<PipeState, OperatorError>(e));
                                    lemma_run_extend(init, lk, now, count, cur0);
                                    assert(pipeline_run(init, lk, now, count + 1) == Err::<PipeState, OperatorError>(e));
                                }
                                return Err(e);
                            }
                            let outcome = match candidates {
                                Some(c) => try_candidates(event, c, now),
                                None => vstd::pervasive::unreached(),
                            };
                            match outcome {
                                TryOutcome::Pending => {
                                    proof {
                                        assert(op_views(right@) =~= op_views(right0));
                                        assert(pipeline_step(cur0, lk, now) == Ok::<PipeState, OperatorError>(
                                        pipe_of(left@, right@, *candidates, emit@, timeouts@),
                                    ));
                                    }
                                },
                                TryOutcome::Chosen(chosen) => {
                                    let taken = candidates.take();
                                    match taken {
                                        Some(c) => {
                                            let ghost cs2 = c@;
                                            let Candidates { start_event: _, events: _, operators: mut operators } = c;
                                            let ghost ops0 = operators@;
                                            let candidate = operators.remove(chosen);
                                            proof {
                                                assert(candidate == ops0[chosen as int]);
                                                assert(candidate_wf(candidate, c.events@.len()));
                                                assert(cs2.ops[chosen as int] == candidate@);
                                            }
                                            let Candidate { operator, state, emitted: mut emitted, unhandled } = candidate;
                                            let ghost e0 = emit@;
                                            emit.append(&mut emitted);
                                            proof {
                                                assert forall|i: int| 0 <= i < emit@.len() implies emit@[i] != Emit::Single(Event::Tick) by {
                                                    if i >= e0.len() {
                                                        assert(emit@[i] == candidate.emitted@[i - e0.len()]) by {
                                                            assert(emit@ =~= e0 + candidate.emitted@);
                                                        }
                                                    }
                                                }
                                                assert(emit@ =~= e0 + candidate.emitted@);
                                            }
                                            if state != CandidateState::Done {
                                                proof {
                                                    lemma_right_push(right@, operator);
                                                }
                                                right.push(operator);
                                                proof {
                                                    assert forall|i: int| 0 <= i < right@.len() implies (#[trigger] right@[i]).wf()
                                                        && right@[i].committed() by {
                                                        if i < right0.len() {
                                                            assert(right@[i] == right0[i]);
                                                        }
                                                    }
                                                    assert(op_views(right@) =~= op_views(right0).push(operator@));
                                                }
                                            } else {
                                                assert(op_views(right@) =~= op_views(right0));
                                            }
                                            unhandled_back_to_stack(unhandled, &mut left);
                                            proof {
                                                assert(pipeline_step(cur0, lk, now) == Ok::<PipeState, OperatorError>(
                                        pipe_of(left@, right@, *candidates, emit@, timeouts@),
                                    ));
                                            }
                                        },
                                        None => {},
                                    }
                                },
                                TryOutcome::Canceled => {
                                    let taken = candidates.take();
                                    match taken {
                                        Some(c) => {
                                            let Candidates { start_event, events, operators: _ } = c;
                                            // The start key didn't match anything, so emit it.
                                            let ghost e0 = emit@;
                                            emit.push(Emit::Single(start_event));
                                            proof {
                                                assert forall|i: int| 0 <= i < emit@.len() implies emit@[i] != Emit::Single(Event::Tick) by {
                                                    if i < e0.len() {
                                                        assert(emit@[i] == e0[i]);
                                                    }
                                                }
                                            }
                                            // Start over with the next event.
                                            unhandled_back_to_stack(events, &mut left);
                                            proof {
                                                assert(op_views(right@) =~= op_views(right0));
                                                assert(pipeline_step(cur0, lk, now) == Ok::<PipeState, OperatorError>(
                                        pipe_of(left@, right@, *candidates, emit@, timeouts@),
                                    ));
                                            }
                                        },
                                        None => {},
                                    }
                                },
                            }
                        } else {
                            static_lookup(event, candidates, lookup_map, &mut emit, now, timeouts);
                            proof {
                                assert(op_views(right@) =~= op_views(right0));
                                assert(pipeline_step(cur0, lk, now) == Ok::<PipeState, OperatorError>(
                                        pipe_of(left@, right@, *candidates, emit@, timeouts@),
                                    ));
                            }
                        }
                    },
                }
            },
        }
        proof {
            lemma_run_extend(init, lk, now, count, cur0);
            count = count + 1;
        }
    }
}

} // verus!

verus! {

/// A static operator as plain values.
pub enum StaticView {
    Sim(Seq<u16>, Seq<ExpmapAction>, u64),
    DoubleTap(u16, Seq<ExpmapAction>, u64),
}

impl View for StaticOperator {
    type V = StaticView;

    open spec fn view(&self) -> StaticView {
        match self {
            StaticOperator::Sim(op) => StaticView::Sim(op.keys@, op.actions@, op.timeout_ms),
            StaticOperator::DoubleTap(op) => StaticView::DoubleTap(op.key, op.actions@, op.timeout_ms),
        }
    }
}

/// The lookup entries of a chord: one for each of its keys.
pub open spec fn chord_entries(c: Simkey) -> Seq<(u16, StaticView)> {
    c.keys@.map_values(|k: u16| (k, StaticView::Sim(c.keys@, c.actions@, c.timeout_ms)))
}

/// The lookup entries of chords, in order.
pub open spec fn chords_entries(cs: Seq<Simkey>) -> Seq<(u16, StaticView)>
    decreases cs.len(),
{
    if cs.len() == 0 {
        Seq::empty()
    } else {
        chords_entries(cs.drop_last()) + chord_entries(cs.last())
    }
}

/// The lookup entry of a keyed operator.
pub open spec fn remap_entry(r: (u16, ExpmapOperator)) -> (u16, StaticView) {
    match r.1 {
        ExpmapOperator::DoubleTap(dt) => (r.0, StaticView::DoubleTap(r.0, dt.actions@, dt.timeout_ms)),
    }
}

/// The lookup entries of a block: its chords, then its keyed operators.
pub open spec fn expmap_entries(e: Expmap) -> Seq<(u16, StaticView)> {
    chords_entries(e.chords@) + e.remap@.map_values(|r: (u16, ExpmapOperator)| remap_entry(r))
}

/// The lookup entries of the experimental map, block by block.
pub open spec fn config_entries(cfg: Seq<Expmap>) -> Seq<(u16, StaticView)>
    decreases cfg.len(),
{
    if cfg.len() == 0 {
        Seq::empty()
    } else {
        config_entries(cfg.drop_last()) + expmap_entries(cfg.last())
    }
}

/// The lookup map of a list of entries: for each key, the operators of its
/// entries in order.
pub open spec fn build_lookup(entries: Seq<(u16, StaticView)>) -> Map<u16, Seq<StaticView>>
    decreases entries.len(),
{
    if entries.len() == 0 {
        Map::empty()
    } else {
        let m = build_lookup(entries.drop_last());
        let k = entries.last().0;
        let v = entries.last().1;
        m.insert(k, if m.contains_key(k) { m[k].push(v) } else { seq![v] })
    }
}

/// A lookup map as plain values.
pub open spec fn lookup_view(m: Map<u16, Vec<StaticOperator>>) -> Map<u16, Seq<StaticView>> {
    Map::new(|k: u16| m.contains_key(k), |k: u16| m[k]@.map_values(|op: StaticOperator| op@))
}

proof fn lemma_build_push(s: Seq<(u16, StaticView)>, x: (u16, StaticView))
    ensures
        build_lookup(s.push(x)) == ({
            let m = build_lookup(s);
            m.insert(x.0, if m.contains_key(x.0) { m[x.0].push(x.1) } else { seq![x.1] })
        }),
{
    assert(s.push(x).drop_last() =~= s);
}

/// Appends `op` to the operators started by `key`.
fn add_operator(map: &mut HashMap<u16, Vec<StaticOperator>>, key: u16, op: StaticOperator)
    requires
        lookup_wf(old(map)@),
        op.wf(),
    ensures
        lookup_wf(final(map)@),
        lookup_view(final(map)@) == ({
            let m = lookup_view(old(map)@);
            m.insert(key, if m.contains_key(key) { m[key].push(op@) } else { seq![op@] })
        }),
{
    broadcast use vstd::std_specs::hash::group_hash_axioms;

    let ghost m0 = map@;
    let removed = map.remove(&key);
    proof {
        assert(map@ == m0.remove(key));
        if removed is Some {
            assert(m0.contains_key(key) && removed->0 == m0[key]);
        } else {
            assert(!m0.contains_key(key));
        }
    }
    let mut ops = match removed {
        Some(v) => v,
        None => Vec::new(),
    };
    let ghost ops0 = ops@;
    ops.push(op);
    map.insert(key, ops);
    proof {
        let expected = {
            let m = lookup_view(m0);
            m.insert(key, if m.contains_key(key) { m[key].push(op@) } else { seq![op@] })
        };
        assert(ops@.map_values(|o: StaticOperator| o@) =~= ops0.map_values(|o: StaticOperator| o@).push(op@));
        assert(map@ == m0.remove(key).insert(key, ops));
        assert forall|k: u16| #[trigger] lookup_view(map@).contains_key(k) == expected.contains_key(k) by {}
        assert forall|k: u16| lookup_view(map@).contains_key(k) implies #[trigger] lookup_view(map@)[k] == expected[k] by {
            if k != key {
                assert(map@[k] == m0[k]);
            } else {
                if m0.contains_key(key) {
                    assert(ops0 == m0[key]@);
                } else {
                    assert(ops0 == Seq::<StaticOperator>::empty());
                    assert(ops@.map_values(|o: StaticOperator| o@) =~= seq![op@]);
                }
            }
        }
        assert(lookup_view(map@) =~= expected);
        assert forall|k: u16, i: int| map@.contains_key(k) && 0 <= i < map@[k]@.len() implies (#[trigger] map@[k]@[i]).wf() by {
            if k != key {
                assert(map@[k] == m0[k]);
            } else if i < ops0.len() {
                assert(map@[k]@[i] == m0[k]@[i]);
            }
        }
    }
}

/// The operator stages between the input devices and the event handler.
///
/// Operators start matching when their start key is pressed. They stay
/// candidates until one of them decides, and that operator then becomes
/// active, as the right-most operator. Events go through the active operators
/// from the right first; each can take them or let them through to the next
/// one. The order is:
///   1. the active operators, from the last activated;
///   2. the candidates (there are no active operators after them);
///   3. the operators that the key press starts;
///   4. the next stage.
///
/// Candidates are needed for two operators like chords (A,B) and (A,C): when A
/// is pressed it is not known which one will match, so events are buffered
/// until that is known. Active operators are needed for chords that overlap.
pub struct OperatorHandler {
    pub active: Vec<ActiveOperator>,
    pub candidates: Option<Candidates>,
    pub lookup_map: HashMap<u16, Vec<StaticOperator>>,
    pub emit_handler: EmitHandler,
    /// Timeouts (in milliseconds) that the started operators ask for; the
    /// caller arms a timer for each and sends a tick when it runs out.
    pub timeout_requests: Vec<u64>,
}

impl OperatorHandler {
    /// The handler is consistent.
    pub open spec fn wf(&self) -> bool {
        &&& right_wf(self.active@)
        &&& self.candidates matches Some(c) ==> candidates_wf(c)
        &&& lookup_wf(self.lookup_map@)
        &&& self.emit_handler.wf()
    }

    /// A handler with the operators of the experimental map. Each chord is
    /// looked up by each of its keys, each double tap by its key; the
    /// operators of one key are in the order of the map.
    pub fn new(experimental_map: &Vec<Expmap>) -> (r: OperatorHandler)
        requires
            expmaps_wf(experimental_map@),
        ensures
            r.wf(),
            r.active@.len() == 0,
            r.candidates is None,
            r.emit_handler.physical_modifiers@.len() == 0,
            r.emit_handler.emitted_modifiers@.len() == 0,
            r.timeout_requests@.len() == 0,
            lookup_view(r.lookup_map@) == build_lookup(config_entries(experimental_map@)),
    {
        broadcast use vstd::std_specs::hash::group_hash_axioms;

        let mut lookup_map: HashMap<u16, Vec<StaticOperator>> = HashMap::new();
        let ghost cfg = experimental_map@;
        proof {
            assert(lookup_view(lookup_map@) =~= build_lookup(config_entries(cfg.take(0))));
        }
        let mut i: usize = 0;
        while i < experimental_map.len()
            invariant
                i <= experimental_map.len(),
                cfg == experimental_map@,
                expmaps_wf(cfg),
                lookup_wf(lookup_map@),
                lookup_view(lookup_map@) == build_lookup(config_entries(cfg.take(i as int))),
            decreases experimental_map.len() - i,
        {
            let expmap = &experimental_map[i];
            let ghost base = config_entries(cfg.take(i as int));
            let mut j: usize = 0;
            proof {
                assert(base + chords_entries(expmap.chords@.take(0)) =~= base);
            }
            while j < expmap.chords.len()
                invariant
                    i < experimental_map.len(),
                    cfg == experimental_map@,
                    *expmap == cfg[i as int],
                    j <= expmap.chords.len(),
                    expmaps_wf(cfg),
                    lookup_wf(lookup_map@),
                    lookup_view(lookup_map@) == build_lookup(base + chords_entries(expmap.chords@.take(j as int))),
                decreases expmap.chords.len() - j,
            {
                let chord = &expmap.chords[j];
                assert(cfg[i as int].chords@[j as int].keys@.len() >= 2);
                let operator = SimOperator {
                    keys: crate::util::clone_keys(&chord.keys),
                    actions: crate::operators::clone_actions(&chord.actions),
                    timeout_ms: chord.timeout_ms,
                };
                let ops = operator.get_operators();
                let ghost pre = base + chords_entries(expmap.chords@.take(j as int));
                let mut l: usize = 0;
                proof {
                    assert(pre + chord_entries(*chord).take(0) =~= pre);
                }
                while l < ops.len()
                    invariant
                        l <= ops.len(),
                        ops@.len() == chord.keys@.len(),
                        forall|q: int| 0 <= q < ops@.len() ==> (#[trigger] ops@[q]).0 == chord.keys@[q] && ops@[q].1@ == (
                            chord.keys@,
                            chord.actions@,
                            chord.timeout_ms,
                        ),
                        chord.keys@.len() >= 2,
                        lookup_wf(lookup_map@),
                        lookup_view(lookup_map@) == build_lookup(pre + chord_entries(*chord).take(l as int)),
                    decreases ops.len() - l,
                {
                    let op = StaticOperator::Sim(ops[l].1.duplicate());
                    let ghost entry = (ops@[l as int].0, op@);
                    proof {
                        assert(chord_entries(*chord)[l as int] == entry);
                        assert(pre + chord_entries(*chord).take(l + 1) =~= (pre + chord_entries(*chord).take(l as int)).push(
                            entry,
                        ));
                        lemma_build_push(pre + chord_entries(*chord).take(l as int), entry);
                    }
                    add_operator(&mut lookup_map, ops[l].0, op);
                    l = l + 1;
                }
                proof {
                    assert(chord_entries(*chord).take(ops@.len() as int) =~= chord_entries(*chord));
                    assert(expmap.chords@.take(j + 1).drop_last() =~= expmap.chords@.take(j as int));
                    assert(base + chords_entries(expmap.chords@.take(j + 1)) =~= pre + chord_entries(*chord));
                }
                j = j + 1;
            }
            proof {
                assert(expmap.chords@.take(expmap.chords@.len() as int) =~= expmap.chords@);
            }
            let ghost pre2 = base + chords_entries(expmap.chords@);
            let ghost rem = expmap.remap@.map_values(|r: (u16, ExpmapOperator)| remap_entry(r));
            let mut j: usize = 0;
            proof {
                assert(pre2 + rem.take(0) =~= pre2);
            }
            while j < expmap.remap.len()
                invariant
                    i < experimental_map.len(),
                    cfg == experimental_map@,
                    *expmap == cfg[i as int],
                    j <= expmap.remap.len(),
                    rem == expmap.remap@.map_values(|r: (u16, ExpmapOperator)| remap_entry(r)),
                    lookup_wf(lookup_map@),
                    lookup_view(lookup_map@) == build_lookup(pre2 + rem.take(j as int)),
                decreases expmap.remap.len() - j,
            {
                let key = expmap.remap[j].0;
                let operator = match &expmap.remap[j].1 {
                    ExpmapOperator::DoubleTap(dbltap) => DoubleTapOperator {
                        key,
                        actions: crate::operators::clone_actions(&dbltap.actions),
                        timeout_ms: dbltap.timeout_ms,
                    },
                };
                let ops = operator.get_operators();
                let op = StaticOperator::DoubleTap(ops[0].1.duplicate());
                proof {
                    let entry = (ops@[0].0, op@);
                    assert(rem[j as int] == entry);
                    assert(pre2 + rem.take(j + 1) =~= (pre2 + rem.take(j as int)).push(entry));
                    lemma_build_push(pre2 + rem.take(j as int), entry);
                }
                add_operator(&mut lookup_map, ops[0].0, op);
                j = j + 1;
            }
            proof {
                assert(rem.take(rem.len() as int) =~= rem);
                assert(cfg.take(i + 1).drop_last() =~= cfg.take(i as int));
                assert(config_entries(cfg.take(i + 1)) =~= pre2 + rem);
            }
            i = i + 1;
        }
        proof {
            assert(cfg.take(cfg.len() as int) =~= cfg);
        }
        OperatorHandler {
            active: Vec::new(),
            candidates: None,
            lookup_map,
            emit_handler: EmitHandler::new(),
            timeout_requests: Vec::new(),
        }
    }
}

} // verus!

verus! {

/// The events that come out of a handler without operators: ticks are
/// dropped, events that bypassed the operators are unwrapped, and everything
/// else comes out as it went in.
pub open spec fn spec_passthrough(events: Seq<Event>) -> Seq<Event>
    decreases events.len(),
{
    if events.len() == 0 {
        Seq::empty()
    } else {
        spec_passthrough(events.drop_last()) + spec_emitted_events(passthrough_emits(events.last()))
    }
}

/// The handler as plain values.
pub struct HandlerView {
    pub right: Seq<OpView>,
    pub cands: Option<CandsView>,
    pub lookup: Map<u16, Seq<StaticView>>,
    pub physical: Seq<u16>,
    pub emitted: Seq<u16>,
    pub timeouts: Seq<u64>,
}

impl View for OperatorHandler {
    type V = HandlerView;

    open spec fn view(&self) -> HandlerView {
        HandlerView {
            right: op_views(self.active@),
            cands: opt_cands_view(self.candidates),
            lookup: lookup_view(self.lookup_map@),
            physical: self.emit_handler.physical_modifiers@,
            emitted: self.emit_handler.emitted_modifiers@,
            timeouts: self.timeout_requests@,
        }
    }
}

/// Running `event` at time `now` through the handler's pipeline comes to an
/// error: a situation in which there is no defined way to go on.
pub open spec fn handler_fails(h: HandlerView, event: Event, now: u64) -> bool {
    pipeline_fails(pipe_start(event, h.right, h.cands, h.timeouts), h.lookup, now)
}

/// What the handler makes of `event` at time `now` when the pipeline does
/// not fail: the event is tracked as a physical modifier change and runs
/// through the pipeline; what the pipeline emits comes out (events that
/// bypassed the operators unwrapped) and is tracked as emitted modifier
/// changes.
pub open spec fn handler_step(h: HandlerView, event: Event, now: u64) -> (Seq<Event>, HandlerView) {
    match pipeline_result(pipe_start(event, h.right, h.cands, h.timeouts), h.lookup, now) {
        Ok(t) => {
            let out = spec_emitted_events(t.emit);
            (
                out,
                HandlerView {
                    right: t.right,
                    cands: t.cands,
                    lookup: h.lookup,
                    physical: spec_update_modifiers(h.physical, event),
                    emitted: spec_fold_modifiers(h.emitted, out),
                    timeouts: t.timeouts,
                },
            )
        },
        Err(_) => (Seq::empty(), h),
    }
}

/// What the handler makes of `events`, the `i`-th at time `nows[i]`: the
/// outputs one after the other, and the handler after the last of them.
pub open spec fn handler_steps(h: HandlerView, events: Seq<Event>, nows: Seq<u64>) -> (Seq<Event>, HandlerView)
    decreases events.len(),
{
    if events.len() == 0 {
        (Seq::empty(), h)
    } else {
        let (out, h1) = handler_steps(h, events.drop_last(), nows.drop_last());
        let (out2, h2) = handler_step(h1, events.last(), nows.last());
        (out + out2, h2)
    }
}

/// Some event of `events`, the `i`-th at time `nows[i]`, makes the handler's
/// pipeline fail.
pub open spec fn handler_steps_fail(h: HandlerView, events: Seq<Event>, nows: Seq<u64>) -> bool
    decreases events.len(),
{
    if events.len() == 0 {
        false
    } else {
        handler_steps_fail(h, events.drop_last(), nows.drop_last()) || handler_fails(
            handler_steps(h, events.drop_last(), nows.drop_last()).1,
            events.last(),
            nows.last(),
        )
    }
}

/// The events can fail the handler at some times of arrival.
pub open spec fn may_fail(h: HandlerView, events: Seq<Event>) -> bool {
    exists|nows: Seq<u64>| nows.len() == events.len() && #[trigger] handler_steps_fail(h, events, nows)
}

proof fn lemma_steps_fail_prefix(h: HandlerView, events: Seq<Event>, nows: Seq<u64>, k: nat)
    requires
        k <= events.len(),
        events.len() == nows.len(),
        !handler_steps_fail(h, events, nows),
    ensures
        !handler_steps_fail(h, events.take(k as int), nows.take(k as int)),
    decreases events.len(),
{
    if k == events.len() {
        assert(events.take(k as int) =~= events);
        assert(nows.take(k as int) =~= nows);
    } else {
        assert(events.drop_last().take(k as int) =~= events.take(k as int));
        assert(nows.drop_last().take(k as int) =~= nows.take(k as int));
        lemma_steps_fail_prefix(h, events.drop_last(), nows.drop_last(), k);
    }
}

proof fn lemma_steps_fail_extend(h: HandlerView, events: Seq<Event>, nows: Seq<u64>, k: nat)
    requires
        k <= events.len(),
        events.len() == nows.len(),
        handler_steps_fail(h, events.take(k as int), nows.take(k as int)),
    ensures
        handler_steps_fail(h, events, nows),
    decreases events.len(),
{
    if k == events.len() {
        assert(events.take(k as int) =~= events);
        assert(nows.take(k as int) =~= nows);
    } else {
        assert(events.drop_last().take(k as int) =~= events.take(k as int));
        assert(nows.drop_last().take(k as int) =~= nows.take(k as int));
        lemma_steps_fail_extend(h, events.drop_last(), nows.drop_last(), k);
    }
}

impl OperatorHandler {
    /// Runs `event` through the operators at time `now` (see `handler_step`).
    pub fn map_event_at(&mut self, event: Event, now: u64) -> (r: Vec<Event>)
        requires
            old(self).wf(),
            !handler_fails(old(self)@, event, now),
        ensures
            final(self).wf(),
            final(self).lookup_map@ == old(self).lookup_map@,
            handler_step(old(self)@, event, now) == (r@, final(self)@),
            old(self).active@.len() == 0 && old(self).candidates is None && !starts_operators(event, old(self).lookup_map@)
                ==> (r@ == spec_emitted_events(passthrough_emits(event)) && final(self).active@.len() == 0
                && final(self).candidates is None && final(self).timeout_requests@ == old(self).timeout_requests@),
    {
        match self.try_map_event_at(event, now) {
            Ok(out) => out,
            Err(_) => vstd::pervasive::unreached(),
        }
    }

    /// Runs `event` through the operators at time `now` (see `handler_step`),
    /// or tells the situation with no defined way to go on that it comes to;
    /// the handler is then left in no stated state.
    pub fn try_map_event_at(&mut self, event: Event, now: u64) -> (r: Result<Vec<Event>, OperatorError>)
        requires
            old(self).wf(),
        ensures
            final(self).lookup_map@ == old(self).lookup_map@,
            r is Ok <==> !handler_fails(old(self)@, event, now),
            r matches Ok(out) ==> final(self).wf() && handler_step(old(self)@, event, now) == (out@, final(self)@),
            r matches Err(e) ==> pipeline_ends(
                pipe_start(event, old(self)@.right, old(self)@.cands, old(self)@.timeouts),
                old(self)@.lookup,
                now,
                Err::<PipeState, OperatorError>(e),
            ),
            old(self).active@.len() == 0 && old(self).candidates is None && !starts_operators(event, old(self).lookup_map@)
                ==> (r matches Ok(out) && out@ == spec_emitted_events(passthrough_emits(event))
                && final(self).active@.len() == 0 && final(self).candidates is None && final(self).timeout_requests@
                == old(self).timeout_requests@),
    {
        let ghost h0 = self@;
        let ghost start = pipe_start(event, h0.right, h0.cands, h0.timeouts);
        self.emit_handler.on_event(&event);
        let processed = process_event(
            event,
            &mut self.active,
            &mut self.candidates,
            &self.lookup_map,
            now,
            &mut self.timeout_requests,
        );
        match processed {
            Err(e) => {
                proof {
                    let n = choose|n: nat| pipeline_run(start, h0.lookup, now, n) == Err::<PipeState, OperatorError>(e);
                    assert(pipeline_run(start, h0.lookup, now, n) is Err);
                }
                Err(e)
            },
            Ok(emits) => {
                let ghost em = emits@;
                let out = self.emit_handler.map_output(emits);
                let ghost t = PipeState {
                    left: Seq::empty(),
                    right: op_views(self.active@),
                    cands: opt_cands_view(self.candidates),
                    emit: em,
                    timeouts: self.timeout_requests@,
                };
                proof {
                    lemma_pipeline_result(start, h0.lookup, now, Ok::<PipeState, OperatorError>(t));
                    if pipeline_fails(start, h0.lookup, now) {
                        let n = choose|n: nat| (#[trigger] pipeline_run(start, h0.lookup, now, n)) is Err;
                        let bad = pipeline_run(start, h0.lookup, now, n);
                        assert(pipeline_ends(start, h0.lookup, now, bad));
                        law_pipeline_deterministic(start, h0.lookup, now, bad, Ok::<PipeState, OperatorError>(t));
                    }
                }
                Ok(out)
            },
        }
    }

    /// No operator is active and no candidate is waiting.
    pub fn is_base_state(&self) -> (r: bool)
        ensures
            r == (self.active@.len() == 0 && self.candidates is None),
    {
        self.active.len() == 0 && self.candidates.is_none()
    }

    /// The modifiers pressed on the input side are those pressed on the output.
    pub fn emitted_modifiers_are_synced(&self) -> (r: bool)
        ensures
            r == (self.emit_handler.physical_modifiers@ == self.emit_handler.emitted_modifiers@),
    {
        self.emit_handler.emitted_modifiers_are_synced()
    }

    /// Hands over the timeouts that the operators asked for since the last call.
    pub fn take_timeout_requests(&mut self) -> (r: Vec<u64>)
        ensures
            r@ == old(self).timeout_requests@,
            final(self).timeout_requests@.len() == 0,
            final(self).active == old(self).active,
            final(self).candidates == old(self).candidates,
            final(self).lookup_map == old(self).lookup_map,
            final(self).emit_handler == old(self).emit_handler,
    {
        let mut taken: Vec<u64> = Vec::new();
        std::mem::swap(&mut taken, &mut self.timeout_requests);
        taken
    }

    /// Runs `events` through the operators, each at the time it is taken (see
    /// `handler_step`). The events must not be able to fail the pipeline,
    /// whenever they arrive.
    pub fn map_events(&mut self, events: Vec<Event>) -> (r: Vec<Event>)
        requires
            old(self).wf(),
            !may_fail(old(self)@, events@),
        ensures
            final(self).wf(),
            final(self).lookup_map@ == old(self).lookup_map@,
            exists|nows: Seq<u64>|
                nows.len() == events@.len() && #[trigger] handler_steps(old(self)@, events@, nows) == (
                    r@,
                    final(self)@,
                ),
            old(self).active@.len() == 0 && old(self).candidates is None && (forall|i: int|
                0 <= i < events@.len() ==> !starts_operators(#[trigger] events@[i], old(self).lookup_map@)) ==> (r@
                == spec_passthrough(events@) && final(self).active@.len() == 0 && final(self).candidates is None
                && final(self).timeout_requests@ == old(self).timeout_requests@),
    {
        let ghost pm = self.active@.len() == 0 && self.candidates is None && (forall|i: int|
            0 <= i < events@.len() ==> !starts_operators(#[trigger] events@[i], self.lookup_map@));
        let ghost h0 = self@;
        let ghost mut nows: Seq<u64> = Seq::empty();
        let mut result: Vec<Event> = Vec::new();
        let mut i: usize = 0;
        while i < events.len()
            invariant
                i <= events.len(),
                self.wf(),
                self.lookup_map@ == old(self).lookup_map@,
                h0 == old(self)@,
                !may_fail(h0, events@),
                nows.len() == i,
                !handler_steps_fail(h0, events@.take(i as int), nows),
                handler_steps(h0, events@.take(i as int), nows) == (result@, self@),
                pm == (old(self).active@.len() == 0 && old(self).candidates is None && (forall|j: int|
                    0 <= j < events@.len() ==> !starts_operators(#[trigger] events@[j], old(self).lookup_map@))),
                pm ==> self.active@.len() == 0 && self.candidates is None && result@ == spec_passthrough(
                    events@.take(i as int),
                ) && self.timeout_requests@ == old(self).timeout_requests@,
            decreases events.len() - i,
        {
            let event = events[i].clone();
            let now = now_nanos();
            let ghost r0 = result@;
            let ghost nows0 = nows;
            proof {
                nows = nows.push(now);
                assert(events@.take(i + 1).drop_last() =~= events@.take(i as int));
                assert(events@.take(i + 1).last() == events@[i as int]);
                assert(nows.drop_last() =~= nows0);
                let full = nows + Seq::new((events@.len() - (i + 1)) as nat, |j: int| 0u64);
                assert(!handler_steps_fail(h0, events@, full));
                assert(full.take(i + 1) =~= nows);
                lemma_steps_fail_prefix(h0, events@, full, (i + 1) as nat);
                assert(!handler_fails(self@, event, now));
            }
            let mut out = self.map_event_at(event, now);
            let ghost o = out@;
            result.append(&mut out);
            proof {
                assert(result@ =~= r0 + o);
                if pm {
                    assert(!starts_operators(events@[i as int], self.lookup_map@));
                }
            }
            i = i + 1;
        }
        proof {
            assert(events@.take(events@.len() as int) =~= events@);
            assert(handler_steps(old(self)@, events@, nows) == (result@, self@));
        }
        result
    }

    /// Runs `events` through the operators, each at the time it is taken (see
    /// `handler_step`), or tells the situation with no defined way to go on
    /// that one of them comes to; the handler is then left in no stated
    /// state.
    pub fn try_map_events(&mut self, events: Vec<Event>) -> (r: Result<Vec<Event>, OperatorError>)
        requires
            old(self).wf(),
        ensures
            r is Ok ==> final(self).wf(),
            final(self).lookup_map@ == old(self).lookup_map@,
            exists|nows: Seq<u64>|
                #![trigger handler_steps_fail(old(self)@, events@, nows)]
                nows.len() == events@.len() && match r {
                    Ok(out) => !handler_steps_fail(old(self)@, events@, nows) && handler_steps(old(self)@, events@, nows)
                        == (out@, final(self)@),
                    Err(_) => handler_steps_fail(old(self)@, events@, nows),
                },
    {
        let ghost h0 = self@;
        let ghost mut nows: Seq<u64> = Seq::empty();
        let mut result: Vec<Event> = Vec::new();
        let mut i: usize = 0;
        while i < events.len()
            invariant
                i <= events.len(),
                self.wf(),
                self.lookup_map@ == old(self).lookup_map@,
                h0 == old(self)@,
                nows.len() == i,
                !handler_steps_fail(h0, events@.take(i as int), nows),
                handler_steps(h0, events@.take(i as int), nows) == (result@, self@),
            decreases events.len() - i,
        {
            let event = events[i].clone();
            let now = now_nanos();
            let ghost r0 = result@;
            let ghost nows0 = nows;
            let ghost h1 = self@;
            proof {
                nows = nows.push(now);
                assert(events@.take(i + 1).drop_last() =~= events@.take(i as int));
                assert(events@.take(i + 1).last() == events@[i as int]);
                assert(nows.drop_last() =~= nows0);
            }
            match self.try_map_event_at(event, now) {
                Err(e) => {
                    proof {
                        assert(handler_steps_fail(h0, events@.take(i + 1), nows));
                        let full = nows + Seq::new((events@.len() - (i + 1)) as nat, |j: int| 0u64);
                        assert(full.take(i + 1) =~= nows);
                        lemma_steps_fail_extend(h0, events@, full, (i + 1) as nat);
                        assert(handler_steps_fail(h0, events@, full));
                    }
                    return Err(e);
                },
                Ok(mut out) => {
                    let ghost o = out@;
                    result.append(&mut out);
                    proof {
                        assert(result@ =~= r0 + o);
                    }
                },
            }
            i = i + 1;
        }
        proof {
            assert(events@.take(events@.len() as int) =~= events@);
            assert(handler_steps_fail(old(self)@, events@, nows) == false);
        }
        Ok(result)
    }

    /// Runs `events` through the operators (see `map_events`).
    pub fn map_evs(&mut self, events: Vec<Event>) -> (r: Vec<Event>)
        requires
            old(self).wf(),
            !may_fail(old(self)@, events@),
        ensures
            final(self).wf(),
            final(self).lookup_map@ == old(self).lookup_map@,
            exists|nows: Seq<u64>|
                nows.len() == events@.len() && #[trigger] handler_steps(old(self)@, events@, nows) == (
                    r@,
                    final(self)@,
                ),
    {
        self.map_events(events)
    }
}

/// A handler without operators lets events through unchanged (ticks are
/// dropped and events that bypassed the operators are unwrapped), and stays
/// without active operators or candidates.
pub proof fn law_no_operators_pass_through(events: Seq<Event>)
    ensures
        spec_passthrough(events).len() <= events.len(),
        forall|i: int| 0 <= i < spec_passthrough(events).len() ==> spec_passthrough(events)[i] != Event::Tick
            || exists|j: int| 0 <= j < events.len() && events[j] == Event::ByPassLocal(Box::new(Event::Tick)),
    decreases events.len(),
{
    if events.len() > 0 {
        law_no_operators_pass_through(events.drop_last());
        let p = spec_passthrough(events.drop_last());
        let last = events.last();
        assert forall|i: int| 0 <= i < spec_passthrough(events).len() implies spec_passthrough(events)[i] != Event::Tick
            || exists|j: int| 0 <= j < events.len() && events[j] == Event::ByPassLocal(Box::new(Event::Tick)) by {
            if i < p.len() {
                assert(spec_passthrough(events)[i] == p[i]);
                if p[i] == Event::Tick {
                    let j = choose|j: int| 0 <= j < events.drop_last().len() && events.drop_last()[j] == Event::ByPassLocal(
                        Box::new(Event::Tick),
                    );
                    assert(events[j] == events.drop_last()[j]);
                }
            } else {
                if spec_passthrough(events)[i] == Event::Tick {
                    assert(events[events.len() - 1] == Event::ByPassLocal(Box::new(Event::Tick)));
                }
            }
        }
    }
}

} // verus!

verus! {

/// Events put back on the stack, as nodes, with the first of them on top.
pub open spec fn events_on_top(events: Seq<Event>) -> Seq<NodeView> {
    Seq::new(events.len(), |i: int| NodeView::Event(events[events.len() - 1 - i]))
}

/// Events handed back go on the stack so that the first of them is taken
/// first, then the others in their order, before anything that was on the
/// stack already.
pub proof fn law_handed_back_events_keep_order(left: Seq<NodeView>, events: Seq<Event>)
    ensures
        push_back(left, events) == left + events_on_top(events),
    decreases events.len(),
{
    if events.len() > 0 {
        law_handed_back_events_keep_order(left.push(NodeView::Event(events.last())), events.drop_last());
        assert(left.push(NodeView::Event(events.last())) + events_on_top(events.drop_last()) =~= left + events_on_top(
            events,
        ));
    }
}

/// When all candidates cancel on an event, the key press that started them is
/// emitted, and the events given to them (the last one included) are run
/// again from the start, in their order, without candidates.
pub proof fn law_all_candidates_cancel(s: PipeState, lookup: Map<u16, Seq<StaticView>>, now: u64, cs2: CandsView)
    requires
        s.left.len() > 0,
        s.right.len() == 0,
        s.left.last() matches NodeView::Event(e) && s.cands matches Some(cs) && cands_step(cs, e, now) == Ok::<
            (CandsView, TryOutcome),
            OperatorError,
        >((cs2, TryOutcome::Canceled)),
    ensures
        s.left.last() matches NodeView::Event(e) && s.cands matches Some(cs) && cs2.start_event == cs.start_event
            && cs2.events == cs.events.push(e),
        pipeline_step(s, lookup, now) == Ok::<PipeState, OperatorError>(
            PipeState {
                left: s.left.drop_last() + events_on_top(cs2.events),
                cands: None,
                emit: s.emit.push(Emit::Single(cs2.start_event)),
                ..s
            },
        ),
{
    law_handed_back_events_keep_order(s.left.drop_last(), cs2.events);
}

/// When an active operator consumes an event, what it emits comes out before
/// anything that the events it hands back lead to; those events are then run
/// first to last, starting again at the same operator when it stays active
/// (after a partial match), or at the one to its left when it is done.
pub proof fn law_handed_back_events_run_next(s: PipeState, lookup: Map<u16, Seq<StaticView>>, now: u64)
    requires
        s.left.len() > 0,
        s.right.len() > 0,
        s.left.last() matches NodeView::Event(e) && op_accepts(s.right.last(), e),
    ensures
        s.left.last() matches NodeView::Event(e) && {
            let (op2, action) = op_step(s.right.last(), e, now);
            &&& action matches ActionView::Partial(m, u) ==> pipeline_step(s, lookup, now) == Ok::<
                PipeState,
                OperatorError,
            >(
                PipeState {
                    left: s.left.drop_last() + events_on_top(u),
                    right: s.right.drop_last().push(op2),
                    emit: s.emit + m,
                    ..s
                },
            )
            &&& action matches ActionView::Done(m, u) ==> pipeline_step(s, lookup, now) == Ok::<
                PipeState,
                OperatorError,
            >(PipeState { left: s.left.drop_last() + events_on_top(u), right: s.right.drop_last(), emit: s.emit + m, ..s })
        },
{
    if let NodeView::Event(e) = s.left.last() {
        let (op2, action) = op_step(s.right.last(), e, now);
        match action {
            ActionView::Partial(m, u) => {
                law_handed_back_events_keep_order(s.left.drop_last(), u);
            },
            ActionView::Done(m, u) => {
                law_handed_back_events_keep_order(s.left.drop_last(), u);
            },
            _ => {},
        }
    }
}

/// With no operator active and no candidate waiting, an event that starts no
/// operator passes the static lookup as it is (a tick is dropped), and a key
/// press whose key has operators starts one fresh candidate for each of them,
/// in order, and emits nothing.
pub proof fn law_static_lookup(event: Event, lookup: Map<u16, Seq<StaticView>>, now: u64)
    ensures
        !(event matches Event::KeyEvent(_, ke) && ke.value is Press && lookup.contains_key(ke.key)) ==> static_step(
            event,
            lookup,
            now,
        ) == (None::<CandsView>, passthrough_emits(event), Seq::<u64>::empty()),
        match event {
            Event::KeyEvent(device, ke) => ke.value is Press && lookup.contains_key(ke.key) ==> {
                let ops = static_step(event, lookup, now).0->Some_0.ops;
                &&& static_step(event, lookup, now).1.len() == 0
                &&& static_step(event, lookup, now).0 is Some
                &&& static_step(event, lookup, now).0->Some_0.start_event == event
                &&& static_step(event, lookup, now).0->Some_0.events.len() == 0
                &&& ops.len() == lookup[ke.key].len()
                &&& forall|i: int|
                    0 <= i < ops.len() ==> (#[trigger] ops[i]) == fresh_cand(lookup[ke.key][i], device, ke, now)
                &&& static_step(event, lookup, now).2 == lookup[ke.key].map_values(|s: StaticView| static_view_timeout(s))
            },
            _ => true,
        },
{
}

/// A double tap that is still matching stays undecided on a tick within its
/// timeout and cancels on a later one; once it has emitted its action, ticks
/// are not its own, so the action stays pressed until the key is released.
pub proof fn law_double_tap_tick(op: DtOpView, now: u64)
    ensures
        (op.state is Pressed || op.state is Tapped) ==> spec_dt_on_event(op, Event::Tick, now).2 == if within_timeout(
            op.start_ns,
            now,
            op.timeout_ms,
        ) {
            ActionView::Undecided
        } else {
            ActionView::Cancel
        },
        op.state is Emitted ==> spec_dt_on_event(op, Event::Tick, now).2 == ActionView::Unhandled,
{
}

} // verus!

verus! {

/// The operator after taking `events`, the `i`-th at time `nows[i]`, and its
/// answers to them.
pub open spec fn op_answers(op: OpView, events: Seq<Event>, nows: Seq<u64>) -> (OpView, Seq<ActionView>)
    decreases events.len(),
{
    if events.len() == 0 {
        (op, Seq::empty())
    } else {
        let (o, a) = op_answers(op, events.drop_last(), nows.drop_last());
        let (o2, x) = op_step(o, events.last(), nows.last());
        (o2, a.push(x))
    }
}

/// The operator can take each of `events` when it comes.
pub open spec fn op_accepts_all(op: OpView, events: Seq<Event>, nows: Seq<u64>) -> bool
    decreases events.len(),
{
    if events.len() == 0 {
        true
    } else {
        op_accepts_all(op, events.drop_last(), nows.drop_last()) && op_accepts(
            op_answers(op, events.drop_last(), nows.drop_last()).0,
            events.last(),
        )
    }
}

proof fn lemma_op_step(op: OpView, event: Event, now: u64)
    requires
        op_wf(op),
        op_accepts(op, event),
    ensures
        op_wf(op_step(op, event, now).0),
        (op_step(op, event, now).1 is Cancel || op_step(op, event, now).1 is Done) ==> op_is_done(
            op_step(op, event, now).0,
        ),
        (op_step(op, event, now).1 is Unhandled || op_step(op, event, now).1 is Partial) ==> op_committed(
            op_step(op, event, now).0,
        ),
        op_committed(op) ==> !(op_step(op, event, now).1 is Cancel),
        op_committed(op) && !(op_step(op, event, now).1 is Done) ==> op_committed(op_step(op, event, now).0),
{
}

/// An operator cancels only while all its answers before were undecided:
/// once it has answered anything else, it never cancels.
pub proof fn law_cancel_only_while_undecided(op: OpView, events: Seq<Event>, nows: Seq<u64>)
    requires
        op_wf(op),
        nows.len() == events.len(),
        op_accepts_all(op, events, nows),
    ensures
        op_answers(op, events, nows).1.len() == events.len(),
        forall|i: int, j: int|
            #![trigger op_answers(op, events, nows).1[i], op_answers(op, events, nows).1[j]]
            0 <= i < j < events.len() && !(op_answers(op, events, nows).1[i] is Undecided) ==> !(op_answers(
                op,
                events,
                nows,
            ).1[j] is Cancel),
    decreases events.len(),
{
    lemma_answers_settle(op, events, nows);
}

proof fn lemma_answers_settle(op: OpView, events: Seq<Event>, nows: Seq<u64>)
    requires
        op_wf(op),
        nows.len() == events.len(),
        op_accepts_all(op, events, nows),
    ensures
        op_wf(op_answers(op, events, nows).0),
        op_answers(op, events, nows).1.len() == events.len(),
        (exists|i: int| 0 <= i < events.len() && !(op_answers(op, events, nows).1[i] is Undecided)) ==> (op_committed(
            op_answers(op, events, nows).0,
        ) || op_is_done(op_answers(op, events, nows).0)),
        forall|i: int, j: int|
            #![trigger op_answers(op, events, nows).1[i], op_answers(op, events, nows).1[j]]
            0 <= i < j < events.len() && !(op_answers(op, events, nows).1[i] is Undecided) ==> !(op_answers(
                op,
                events,
                nows,
            ).1[j] is Cancel),
    decreases events.len(),
{
    if events.len() > 0 {
        let ev = events.drop_last();
        let nw = nows.drop_last();
        lemma_answers_settle(op, ev, nw);
        let (o, a) = op_answers(op, ev, nw);
        let e = events.last();
        let now = nows.last();
        lemma_op_step(o, e, now);
        let (o2, x) = op_step(o, e, now);
        let a2 = a.push(x);
        assert(op_answers(op, events, nows) == (o2, a2));
        assert(!op_is_done(o) || !op_accepts(o, e));
        if exists|i: int| 0 <= i < events.len() && !(a2[i] is Undecided) {
            let i = choose|i: int| 0 <= i < events.len() && !(a2[i] is Undecided);
            if i < ev.len() {
                assert(a[i] == a2[i]);
            }
        }
        assert forall|i: int, j: int|
            #![trigger a2[i], a2[j]]
            0 <= i < j < events.len() && !(a2[i] is Undecided) implies !(a2[j] is Cancel) by {
            if j < ev.len() {
                assert(a2[i] == a[i] && a2[j] == a[j]);
            } else {
                assert(a2[i] == a[i]);
                assert(op_committed(o) || op_is_done(o));
            }
        }
    }
}

} // verus!

verus! {

proof fn lemma_ends_ok_not_fails(s: PipeState, lookup: Map<u16, Seq<StaticView>>, now: u64, t: PipeState)
    requires
        pipeline_ends(s, lookup, now, Ok::<PipeState, OperatorError>(t)),
    ensures
        !pipeline_fails(s, lookup, now),
        pipeline_result(s, lookup, now) == Ok::<PipeState, OperatorError>(t),
{
    lemma_pipeline_result(s, lookup, now, Ok::<PipeState, OperatorError>(t));
    if pipeline_fails(s, lookup, now) {
        let n = choose|n: nat| (#[trigger] pipeline_run(s, lookup, now, n)) is Err;
        let bad = pipeline_run(s, lookup, now, n);
        law_pipeline_deterministic(s, lookup, now, bad, Ok::<PipeState, OperatorError>(t));
    }
}

/// The handler is in its base state: no operator is active, no candidate is
/// waiting, and the modifiers it has emitted are those physically held.
pub open spec fn handler_at_rest(h: HandlerView) -> bool {
    &&& h.right.len() == 0
    &&& h.cands is None
    &&& h.physical == h.emitted
}

/// The event leaves the operators alone: it starts none of them, and it did
/// not bypass them.
pub open spec fn leaves_operators_alone(event: Event, lookup: Map<u16, Seq<StaticView>>) -> bool {
    &&& !(event matches Event::KeyEvent(_, ke) && ke.value is Press && lookup.contains_key(ke.key))
    &&& !(event is ByPassLocal)
}

/// A handler at rest stays at rest on an event that leaves the operators
/// alone: the event comes out as it went in (a tick is dropped), nothing
/// fails, no timeout is asked for, and the emitted modifiers follow the held
/// ones.
pub proof fn law_rest_is_kept(h: HandlerView, event: Event, now: u64)
    requires
        handler_at_rest(h),
        leaves_operators_alone(event, h.lookup),
    ensures
        !handler_fails(h, event, now),
        handler_at_rest(handler_step(h, event, now).1),
        handler_step(h, event, now).1.lookup == h.lookup,
        handler_step(h, event, now).1.timeouts == h.timeouts,
        handler_step(h, event, now).0 == spec_emitted_events(passthrough_emits(event)),
{
    let s = pipe_start(event, h.right, h.cands, h.timeouts);
    law_static_lookup(event, h.lookup, now);
    let t = PipeState {
        left: Seq::empty(),
        right: h.right,
        cands: None,
        emit: passthrough_emits(event),
        timeouts: h.timeouts,
    };
    assert(s.left.drop_last() =~= Seq::<NodeView>::empty());
    assert(s.emit + passthrough_emits(event) =~= passthrough_emits(event));
    assert(h.timeouts + Seq::<u64>::empty() =~= h.timeouts);
    assert(pipeline_step(s, h.lookup, now) == Ok::<PipeState, OperatorError>(t));
    assert(pipeline_run(t, h.lookup, now, 0) == Ok::<PipeState, OperatorError>(t));
    assert(pipeline_run(s, h.lookup, now, 1) == Ok::<PipeState, OperatorError>(t));
    lemma_ends_ok_not_fails(s, h.lookup, now, t);
    let out = spec_emitted_events(t.emit);
    if event is Tick {
        assert(out =~= Seq::<Event>::empty());
    } else {
        assert(out =~= seq![event]);
        assert(out.drop_last() =~= Seq::<Event>::empty());
        assert(spec_fold_modifiers(h.emitted, out.drop_last()) == h.emitted);
        assert(spec_fold_modifiers(h.emitted, out) == spec_update_modifiers(h.emitted, event));
    }
}

/// A handler at rest stays at rest through events that leave the operators
/// alone, whenever they come: they come out as they went in (ticks dropped),
/// nothing fails, and the emitted modifiers follow the held ones.
pub proof fn law_rest_is_kept_through(h: HandlerView, events: Seq<Event>, nows: Seq<u64>)
    requires
        handler_at_rest(h),
        nows.len() == events.len(),
        forall|i: int| 0 <= i < events.len() ==> leaves_operators_alone(#[trigger] events[i], h.lookup),
    ensures
        !handler_steps_fail(h, events, nows),
        handler_at_rest(handler_steps(h, events, nows).1),
        handler_steps(h, events, nows).1.lookup == h.lookup,
        handler_steps(h, events, nows).1.timeouts == h.timeouts,
    decreases events.len(),
{
    if events.len() > 0 {
        let ev = events.drop_last();
        assert forall|i: int| 0 <= i < ev.len() implies leaves_operators_alone(#[trigger] ev[i], h.lookup) by {
            assert(ev[i] == events[i]);
        }
        law_rest_is_kept_through(h, ev, nows.drop_last());
        let h1 = handler_steps(h, ev, nows.drop_last()).1;
        assert(leaves_operators_alone(events[events.len() - 1], h.lookup));
        law_rest_is_kept(h1, events.last(), nows.last());
    }
}

} // verus!

verus! {

/// The operator still waits for its match and its timeout has run out at
/// `now`.
pub open spec fn op_timed_out(op: OpView, now: u64) -> bool {
    op_wf(op) && match op {
        OpView::Sim(o) => o.state is Pressed && !within_timeout(o.start_ns, now, o.timeout_ms),
        OpView::DoubleTap(o) => (o.state is Pressed || o.state is Tapped) && !within_timeout(
            o.start_ns,
            now,
            o.timeout_ms,
        ),
    }
}

/// The candidate has canceled, or it waits for a match whose timeout has run
/// out at `now`.
pub open spec fn cand_timed_out(c: CandView, now: u64) -> bool {
    c.state == CandidateState::Canceled || (c.state == CandidateState::Matching && op_timed_out(c.op, now))
}

/// What events that start no operator come out as, first to last.
pub open spec fn passthrough_all(events: Seq<Event>) -> Seq<Emit>
    decreases events.len(),
{
    if events.len() == 0 {
        Seq::empty()
    } else {
        passthrough_emits(events[0]) + passthrough_all(events.skip(1))
    }
}

proof fn lemma_passthrough_push(events: Seq<Event>, x: Event)
    ensures
        passthrough_all(events.push(x)) == passthrough_all(events) + passthrough_emits(x),
    decreases events.len(),
{
    if events.len() == 0 {
        assert(events.push(x).skip(1) =~= Seq::<Event>::empty());
        assert(passthrough_all(events.push(x).skip(1)) == Seq::<Emit>::empty());
        assert(passthrough_emits(x) + Seq::<Emit>::empty() =~= passthrough_emits(x));
        assert(Seq::<Emit>::empty() + passthrough_emits(x) =~= passthrough_emits(x));
    } else {
        assert(events.push(x).skip(1) =~= events.skip(1).push(x));
        lemma_passthrough_push(events.skip(1), x);
        assert(events.push(x)[0] == events[0]);
        assert(passthrough_emits(events[0]) + (passthrough_all(events.skip(1)) + passthrough_emits(x)) =~= (
        passthrough_emits(events[0]) + passthrough_all(events.skip(1))) + passthrough_emits(x));
    }
}

proof fn lemma_cands_time_out(ops: Seq<CandView>, i: int, now: u64)
    requires
        0 <= i <= ops.len(),
        forall|j: int| i <= j < ops.len() ==> cand_timed_out(#[trigger] ops[j], now),
    ensures
        cands_try(ops, i, true, Event::Tick, now) matches Ok((_, TryOutcome::Canceled)),
    decreases ops.len() - i,
{
    if i < ops.len() {
        let c = ops[i];
        assert(cand_timed_out(c, now));
        match cand_step(c, Event::Tick, now) {
            Ok((c2, k)) => {
                let ops2 = ops.update(i, c2);
                assert forall|j: int| i + 1 <= j < ops2.len() implies cand_timed_out(#[trigger] ops2[j], now) by {
                    assert(ops2[j] == ops[j]);
                }
                lemma_cands_time_out(ops2, i + 1, now);
            },
            Err(_) => {},
        }
    }
}

proof fn lemma_run_static(s: PipeState, lookup: Map<u16, Seq<StaticView>>, now: u64, events: Seq<Event>)
    requires
        s.left == events_on_top(events),
        s.right.len() == 0,
        s.cands is None,
        forall|i: int| 0 <= i < events.len() ==> !starts_in(#[trigger] events[i], lookup),
    ensures
        pipeline_run(s, lookup, now, events.len()) == Ok::<PipeState, OperatorError>(
            PipeState { left: Seq::empty(), emit: s.emit + passthrough_all(events), ..s },
        ),
    decreases events.len(),
{
    if events.len() == 0 {
        assert(s.left =~= Seq::<NodeView>::empty());
        assert(s.emit + passthrough_all(events) =~= s.emit);
    } else {
        let e = events[0];
        let rest = events.skip(1);
        assert(s.left.last() == NodeView::Event(e));
        assert(s.left.drop_last() =~= events_on_top(rest));
        law_static_lookup(e, lookup, now);
        assert(!starts_in(events[0], lookup));
        let s1 = PipeState { left: events_on_top(rest), emit: s.emit + passthrough_emits(e), ..s };
        assert(s.timeouts + Seq::<u64>::empty() =~= s.timeouts);
        assert(pipeline_step(s, lookup, now) == Ok::<PipeState, OperatorError>(s1));
        assert forall|i: int| 0 <= i < rest.len() implies !starts_in(#[trigger] rest[i], lookup) by {
            assert(rest[i] == events[i + 1]);
        }
        lemma_run_static(s1, lookup, now, rest);
        assert(s.emit + passthrough_emits(e) + passthrough_all(rest) =~= s.emit + passthrough_all(events));
    }
}

/// The event is a key press whose key starts operators.
pub open spec fn starts_in(event: Event, lookup: Map<u16, Seq<StaticView>>) -> bool {
    event matches Event::KeyEvent(_, ke) && ke.value is Press && lookup.contains_key(ke.key)
}

/// With no operator active, a tick that comes after the timeout of every
/// candidate still waiting cancels them all: nothing fails, no candidate is
/// left, and the key press that started them comes out, followed by the
/// events they held back, in order, when none of those starts an operator.
pub proof fn law_late_tick_cancels_waiting_candidates(h: HandlerView, now: u64)
    requires
        h.right.len() == 0,
        h.cands matches Some(cs) && (forall|i: int| 0 <= i < cs.ops.len() ==> cand_timed_out(#[trigger] cs.ops[i], now))
            && (forall|i: int| 0 <= i < cs.events.len() ==> !starts_in(#[trigger] cs.events[i], h.lookup)),
    ensures
        !handler_fails(h, Event::Tick, now),
        handler_step(h, Event::Tick, now).1.right.len() == 0,
        handler_step(h, Event::Tick, now).1.cands is None,
        handler_step(h, Event::Tick, now).1.timeouts == h.timeouts,
        h.cands matches Some(cs) && handler_step(h, Event::Tick, now).0 == spec_emitted_events(
            seq![Emit::Single(cs.start_event)] + passthrough_all(cs.events),
        ),
{
    let cs = h.cands->Some_0;
    let s = pipe_start(Event::Tick, h.right, h.cands, h.timeouts);
    lemma_cands_time_out(cs.ops, 0, now);
    let cs2 = CandsView { start_event: cs.start_event, events: cs.events.push(Event::Tick), ops: cands_try(cs.ops, 0, true, Event::Tick, now)->Ok_0.0 };
    assert(cands_step(cs, Event::Tick, now) == Ok::<(CandsView, TryOutcome), OperatorError>((cs2, TryOutcome::Canceled)));
    law_all_candidates_cancel(s, h.lookup, now, cs2);
    let s1 = PipeState {
        left: s.left.drop_last() + events_on_top(cs2.events),
        cands: None,
        emit: s.emit.push(Emit::Single(cs2.start_event)),
        ..s
    };
    assert(s.left.drop_last() + events_on_top(cs2.events) =~= events_on_top(cs2.events));
    assert forall|i: int| 0 <= i < cs2.events.len() implies !starts_in(#[trigger] cs2.events[i], h.lookup) by {
        if i < cs.events.len() {
            assert(cs2.events[i] == cs.events[i]);
        }
    }
    lemma_run_static(s1, h.lookup, now, cs2.events);
    let t = PipeState { left: Seq::empty(), emit: s1.emit + passthrough_all(cs2.events), ..s1 };
    assert(pipeline_run(s, h.lookup, now, cs2.events.len() + 1) == Ok::<PipeState, OperatorError>(t));
    lemma_ends_ok_not_fails(s, h.lookup, now, t);
    lemma_passthrough_push(cs.events, Event::Tick);
    assert(passthrough_emits(Event::Tick) =~= Seq::<Emit>::empty());
    assert(s.emit.push(Emit::Single(cs.start_event)) =~= seq![Emit::Single(cs.start_event)]);
    assert(t.emit =~= seq![Emit::Single(cs.start_event)] + passthrough_all(cs.events));
}

} // verus!
