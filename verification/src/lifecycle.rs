//! The relay as a whole: it starts, it runs its three loops beside an
//! interrupt listener, and whichever of the four ends first ends the relay.

use vstd::prelude::*;
use crate::failure::Fatal;

verus! {

/// How the relay ended.
#[derive(Clone, Copy, Debug, PartialEq, Eq, Structural)]
pub enum Outcome {
    /// The interrupt arrived: a clean end.
    Clean,
    /// A fatal condition ended it.
    Failed(Fatal),
}

/// Where the relay is in its life.
#[derive(Clone, Copy, Debug, PartialEq, Eq, Structural)]
pub enum Phase {
    /// The socket is not bound yet.
    Starting,
    /// The loops and the interrupt listener are running.
    Running,
    /// One of them has ended, and with it the relay.
    Terminating(Outcome),
}

/// What the relay is told of.
#[derive(Clone, Copy, Debug, PartialEq, Eq, Structural)]
pub enum LifecycleEvent {
    /// The socket is bound.
    Bound,
    /// The socket could not be bound.
    BindFailed,
    /// The interrupt listener ended: the interrupt arrived.
    Interrupted,
    /// The interrupt listener ended: it could not be set up.
    SignalFailed,
    /// One of the three loops ended on this condition.
    LoopEnded(Fatal),
}

impl Phase {
    /// The phase after `event`. Binding moves a starting relay on; the end of
    /// any of its four tasks ends a running relay; a relay that is
    /// terminating stays as it is.
    pub open spec fn after(self, event: LifecycleEvent) -> Phase {
        match self {
            Phase::Starting => match event {
                LifecycleEvent::Bound => Phase::Running,
                LifecycleEvent::BindFailed => Phase::Terminating(
                    Outcome::Failed(Fatal::BindFailed),
                ),
                _ => Phase::Starting,
            },
            Phase::Running => match event {
                LifecycleEvent::Interrupted => Phase::Terminating(Outcome::Clean),
                LifecycleEvent::SignalFailed => Phase::Terminating(
                    Outcome::Failed(Fatal::SignalFailed),
                ),
                LifecycleEvent::LoopEnded(fatal) => Phase::Terminating(Outcome::Failed(fatal)),
                _ => Phase::Running,
            },
            Phase::Terminating(outcome) => Phase::Terminating(outcome),
        }
    }

    /// The phase after each of `events` in turn.
    pub open spec fn after_all(self, events: Seq<LifecycleEvent>) -> Phase
        decreases events.len(),
    {
        if events.len() == 0 {
            self
        } else {
            self.after(events[0]).after_all(events.drop_first())
        }
    }

    /// Moves the relay on by one event.
    pub fn advance(self, event: LifecycleEvent) -> (next: Phase)
        ensures
            next == self.after(event),
    {
        match self {
            Phase::Starting => match event {
                LifecycleEvent::Bound => Phase::Running,
                LifecycleEvent::BindFailed => Phase::Terminating(
                    Outcome::Failed(Fatal::BindFailed),
                ),
                _ => Phase::Starting,
            },
            Phase::Running => match event {
                LifecycleEvent::Interrupted => Phase::Terminating(Outcome::Clean),
                LifecycleEvent::SignalFailed => Phase::Terminating(
                    Outcome::Failed(Fatal::SignalFailed),
                ),
                LifecycleEvent::LoopEnded(fatal) => Phase::Terminating(Outcome::Failed(fatal)),
                _ => Phase::Running,
            },
            Phase::Terminating(outcome) => Phase::Terminating(outcome),
        }
    }

    /// How the relay ended, once it has.
    pub fn outcome(self) -> (outcome: Option<Outcome>)
        ensures
            outcome == match self {
                Phase::Terminating(o) => Some(o),
                _ => None::<Outcome>,
            },
    {
        match self {
            Phase::Terminating(o) => Some(o),
            _ => None,
        }
    }
}

/// Whether `event` is the end of one of the relay's four tasks.
pub open spec fn is_completion(event: LifecycleEvent) -> bool {
    event is Interrupted || event is SignalFailed || event is LoopEnded
}

/// A relay that is terminating is not moved by anything that follows.
pub proof fn lemma_terminating_is_final(outcome: Outcome, events: Seq<LifecycleEvent>)
    ensures
        Phase::Terminating(outcome).after_all(events) == Phase::Terminating(outcome),
    decreases events.len(),
{
    if events.len() > 0 {
        lemma_terminating_is_final(outcome, events.drop_first());
    }
}

/// The first of the four tasks to end decides how a running relay ends:
/// whatever ends after it changes nothing.
pub proof fn lemma_first_completion_decides(events: Seq<LifecycleEvent>)
    requires
        events.len() > 0,
        is_completion(events[0]),
    ensures
        Phase::Running.after_all(events) == Phase::Running.after(events[0]),
        Phase::Running.after_all(events) is Terminating,
        Phase::Running.after_all(events) == Phase::Terminating(Outcome::Clean)
            <==> events[0] is Interrupted,
{
    let first = Phase::Running.after(events[0]);
    assert(first is Terminating);
    lemma_terminating_is_final(first->Terminating_0, events.drop_first());
}

} // verus!
