//! The trial of credentials against one device: one candidate at a time, in
//! order, until one gives the device's streams or none is left.

use crate::directory::SessionError;
use crate::media::{StreamError, StreamResult, StreamResultView, TransportError};
use vstd::prelude::*;

verus! {

/// Where the trial of one device's candidates stands.
#[derive(Clone, Copy, Debug, PartialEq, Eq, Structural)]
pub enum TrialState {
    /// No candidate has been tried yet.
    Pending,
    /// The candidate at this place of the list is being tried.
    Trying(usize),
    /// A candidate gave the device's streams.
    Succeeded,
    /// Every candidate failed.
    Exhausted,
}

/// What can happen to a trial.
#[derive(Debug, PartialEq, Eq)]
pub enum TrialEvent {
    /// The trial is set going.
    Start,
    /// The attempt with the candidate that is being tried failed.
    Failed,
    /// The attempt with the candidate that is being tried gave these
    /// streams.
    Succeeded(Vec<StreamResult>),
}

/// Why an attempt with one candidate failed.
#[derive(Debug, PartialEq, Eq)]
pub enum AttemptError {
    /// No session could be bound.
    Session(SessionError),
    /// An exchange with the management or the media service failed before
    /// the streams were asked for.
    Transport(TransportError),
    /// The session's streams could not be listed.
    Streams(StreamError),
}

/// What the outcome of an attempt means to the trial: the streams that it
/// gave, or, for whatever reason it failed, only that it did. Nothing of a
/// failed attempt is kept.
pub fn event_of(outcome: Result<Vec<StreamResult>, AttemptError>) -> (r: TrialEvent)
    ensures
        match outcome {
            Ok(results) => r == TrialEvent::Succeeded(results),
            Err(_) => r == TrialEvent::Failed,
        },
{
    match outcome {
        Ok(results) => TrialEvent::Succeeded(results),
        Err(_) => TrialEvent::Failed,
    }
}

/// An event without what it carries.
#[derive(Clone, Copy, Debug, PartialEq, Eq, Structural)]
pub enum EventKind {
    Start,
    Failed,
    Succeeded,
}

impl TrialEvent {
    /// This event without what it carries.
    pub open spec fn kind(&self) -> EventKind {
        match self {
            TrialEvent::Start => EventKind::Start,
            TrialEvent::Failed => EventKind::Failed,
            TrialEvent::Succeeded(_) => EventKind::Succeeded,
        }
    }
}

/// What is to be done after an event.
#[derive(Debug, PartialEq, Eq)]
pub enum TrialAction {
    /// Try the candidate at this place of the list, and no other.
    Attempt(usize),
    /// Give out these streams; no further candidate is tried.
    Emit(Vec<StreamResult>),
    /// Report that every candidate failed.
    ReportExhausted,
    /// Nothing: the event has no meaning where the trial stands.
    Ignore,
}

/// What a `TrialAction` holds, as text.
pub enum TrialActionView {
    Attempt(usize),
    Emit(Seq<StreamResultView>),
    ReportExhausted,
    Ignore,
}

impl View for TrialAction {
    type V = TrialActionView;

    open spec fn view(&self) -> TrialActionView {
        match self {
            TrialAction::Attempt(place) => TrialActionView::Attempt(*place),
            TrialAction::Emit(results) => TrialActionView::Emit(results.deep_view()),
            TrialAction::ReportExhausted => TrialActionView::ReportExhausted,
            TrialAction::Ignore => TrialActionView::Ignore,
        }
    }
}

/// Whether an event of `kind` has a meaning where the trial stands: a
/// start before anything was tried, an outcome while a candidate is being
/// tried.
pub open spec fn applies(state: TrialState, kind: EventKind) -> bool {
    match (state, kind) {
        (TrialState::Pending, EventKind::Start) => true,
        (TrialState::Trying(_), EventKind::Failed) => true,
        (TrialState::Trying(_), EventKind::Succeeded) => true,
        _ => false,
    }
}

/// Where a trial of `count` candidates stands after an event of `kind`. A
/// start leads to the first candidate, a failure to the next one, and where
/// there is none, to exhaustion. A success ends the trial. An event without
/// meaning changes nothing.
pub open spec fn transition(state: TrialState, count: usize, kind: EventKind) -> TrialState {
    match (state, kind) {
        (TrialState::Pending, EventKind::Start) => if count > 0 {
            TrialState::Trying(0)
        } else {
            TrialState::Exhausted
        },
        (TrialState::Trying(place), EventKind::Failed) => if place + 1 < count {
            TrialState::Trying((place + 1) as usize)
        } else {
            TrialState::Exhausted
        },
        (TrialState::Trying(_), EventKind::Succeeded) => TrialState::Succeeded,
        _ => state,
    }
}

/// What is to be done when `event` has led to the state `next`.
pub open spec fn action_for(state: TrialState, event: TrialEvent, next: TrialState) -> TrialActionView {
    if !applies(state, event.kind()) {
        TrialActionView::Ignore
    } else {
        match next {
            TrialState::Trying(place) => TrialActionView::Attempt(place),
            TrialState::Succeeded => TrialActionView::Emit(event->Succeeded_0.deep_view()),
            TrialState::Exhausted => TrialActionView::ReportExhausted,
            TrialState::Pending => TrialActionView::Ignore,
        }
    }
}

/// Takes the trial of `count` candidates from `state` through `event`:
/// where it stands then, and what is to be done.
pub fn step(state: TrialState, count: usize, event: TrialEvent) -> (r: (TrialState, TrialAction))
    ensures
        r.0 == transition(state, count, event.kind()),
        r.1@ == action_for(state, event, r.0),
{
    match (state, event) {
        (TrialState::Pending, TrialEvent::Start) => {
            if count > 0 {
                (TrialState::Trying(0), TrialAction::Attempt(0))
            } else {
                (TrialState::Exhausted, TrialAction::ReportExhausted)
            }
        },
        (TrialState::Trying(place), TrialEvent::Failed) => {
            if count > 0 && place < count - 1 {
                (TrialState::Trying(place + 1), TrialAction::Attempt(place + 1))
            } else {
                (TrialState::Exhausted, TrialAction::ReportExhausted)
            }
        },
        (TrialState::Trying(_), TrialEvent::Succeeded(results)) => (
            TrialState::Succeeded,
            TrialAction::Emit(results),
        ),
        (state, _) => (state, TrialAction::Ignore),
    }
}

/// The states that a trial goes through from `state` on, `state` first,
/// when it is driven against candidates of which `valid` says, place by
/// place, whether an attempt with them succeeds.
pub open spec fn course(state: TrialState, valid: Seq<bool>) -> Seq<TrialState>
    decreases steps_left(state, valid.len()),
{
    match state {
        TrialState::Pending => if valid.len() <= usize::MAX {
            seq![state] + course(
                transition(state, valid.len() as usize, EventKind::Start),
                valid,
            )
        } else {
            seq![state]
        },
        TrialState::Trying(place) => if place < valid.len() <= usize::MAX {
            seq![state] + course(
                transition(
                    state,
                    valid.len() as usize,
                    if valid[place as int] {
                        EventKind::Succeeded
                    } else {
                        EventKind::Failed
                    },
                ),
                valid,
            )
        } else {
            seq![state]
        },
        _ => seq![state],
    }
}

/// A bound on the events that a trial of `count` candidates can still
/// take.
pub open spec fn steps_left(state: TrialState, count: nat) -> nat {
    match state {
        TrialState::Pending => count + 2,
        TrialState::Trying(place) => if place < count {
            (count - place + 1) as nat
        } else {
            1
        },
        _ => 0,
    }
}

/// The states in which the candidates at the places from `from` up to, but
/// not with, `to` are tried one after the other.
pub open spec fn trying(from: int, to: int) -> Seq<TrialState> {
    Seq::new(
        if from <= to {
            (to - from) as nat
        } else {
            0
        },
        |i: int| TrialState::Trying((from + i) as usize),
    )
}

/// While the candidate at `place` is tried, with none from there up to
/// `first` valid and the one at `first` valid, the trial tries each of
/// these once, in order, and then has succeeded.
proof fn lemma_course_to_success(valid: Seq<bool>, place: int, first: int)
    requires
        valid.len() <= usize::MAX,
        0 <= place <= first < valid.len(),
        valid[first],
        forall|j: int| place <= j < first ==> !valid[j],
    ensures
        course(TrialState::Trying(place as usize), valid) == trying(place, first + 1).push(
            TrialState::Succeeded,
        ),
    decreases first - place,
{
    if place < first {
        lemma_course_to_success(valid, place + 1, first);
    } else {
        assert(course(TrialState::Succeeded, valid) =~= seq![TrialState::Succeeded]);
    }
}

/// While the candidate at `place` is tried, with none from there on valid,
/// the trial tries each of the rest once, in order, and then is exhausted.
proof fn lemma_course_to_exhaustion(valid: Seq<bool>, place: int)
    requires
        valid.len() <= usize::MAX,
        0 <= place < valid.len(),
        forall|j: int| place <= j < valid.len() ==> !valid[j],
    ensures
        course(TrialState::Trying(place as usize), valid) == trying(place, valid.len() as int).push(
            TrialState::Exhausted,
        ),
    decreases valid.len() - place,
{
    if place + 1 < valid.len() {
        lemma_course_to_exhaustion(valid, place + 1);
    } else {
        assert(course(TrialState::Exhausted, valid) =~= seq![TrialState::Exhausted]);
    }
}

/// Against candidates of which the one at `first` is the first valid one,
/// a trial tries the candidates up to that one, each once and in order,
/// succeeds there, and tries none behind it. This holds in particular
/// where that candidate is the only valid one.
pub proof fn lemma_stops_at_first_valid(valid: Seq<bool>, first: int)
    requires
        valid.len() <= usize::MAX,
        0 <= first < valid.len(),
        valid[first],
        forall|j: int| 0 <= j < first ==> !valid[j],
    ensures
        course(TrialState::Pending, valid) == seq![TrialState::Pending] + trying(
            0,
            first + 1,
        ).push(TrialState::Succeeded),
{
    lemma_course_to_success(valid, 0, first);
}

/// Against candidates of which none is valid, a trial tries every
/// candidate, each once and in order, and ends exhausted: a state like any
/// other, not a failure of the trial itself.
pub proof fn lemma_tries_all_when_none_valid(valid: Seq<bool>)
    requires
        valid.len() <= usize::MAX,
        forall|j: int| 0 <= j < valid.len() ==> !valid[j],
    ensures
        course(TrialState::Pending, valid) == seq![TrialState::Pending] + trying(
            0,
            valid.len() as int,
        ).push(TrialState::Exhausted),
{
    if valid.len() > 0 {
        lemma_course_to_exhaustion(valid, 0);
    } else {
        assert(course(TrialState::Exhausted, valid) =~= seq![TrialState::Exhausted]);
    }
}

} // verus!
