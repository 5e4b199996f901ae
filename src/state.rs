use vstd::prelude::*;

verus! {

/// The global recording phase shared by every actor of the pipeline.
#[derive(Clone, Copy, Debug, PartialEq, Eq, Structural)]
pub enum RecordingState {
    Initializing,
    Recording,
    RecordingPaused,
    RecordingFinished,
    Stopping,
    Draining,
}

/// Position of a state in the monotone order of phases: `Recording` and
/// `RecordingPaused` share a phase, every legal transition keeps or raises it.
pub open spec fn phase(s: RecordingState) -> nat {
    match s {
        RecordingState::Initializing => 0,
        RecordingState::Recording => 1,
        RecordingState::RecordingPaused => 1,
        RecordingState::RecordingFinished => 2,
        RecordingState::Stopping => 3,
        RecordingState::Draining => 4,
    }
}

/// The legal-transition graph between two distinct states.
pub open spec fn is_transition(from: RecordingState, to: RecordingState) -> bool {
    match (from, to) {
        (RecordingState::Initializing, RecordingState::Recording) => true,
        (RecordingState::Recording, RecordingState::RecordingPaused) => true,
        (RecordingState::RecordingPaused, RecordingState::Recording) => true,
        (RecordingState::Recording, RecordingState::RecordingFinished) => true,
        (RecordingState::RecordingPaused, RecordingState::RecordingFinished) => true,
        (RecordingState::Stopping, RecordingState::Draining) => true,
        (RecordingState::Draining, _) => false,
        (RecordingState::Stopping, RecordingState::Stopping) => false,
        (_, RecordingState::Stopping) => true,
        _ => false,
    }
}

/// A sequence of published states in which each state follows the previous
/// one by a legal transition.
pub open spec fn is_walk(states: Seq<RecordingState>) -> bool {
    forall|i: int| 0 < i < states.len() ==> is_transition(#[trigger] states[i - 1], states[i])
}

impl RecordingState {
    /// Whether `next` may follow `self` on the state bus.
    pub fn can_transition_to(&self, next: RecordingState) -> (r: bool)
        ensures
            r == is_transition(*self, next),
    {
        match (*self, next) {
            (RecordingState::Initializing, RecordingState::Recording) => true,
            (RecordingState::Recording, RecordingState::RecordingPaused) => true,
            (RecordingState::RecordingPaused, RecordingState::Recording) => true,
            (RecordingState::Recording, RecordingState::RecordingFinished) => true,
            (RecordingState::RecordingPaused, RecordingState::RecordingFinished) => true,
            (RecordingState::Stopping, RecordingState::Draining) => true,
            (RecordingState::Draining, _) => false,
            (RecordingState::Stopping, RecordingState::Stopping) => false,
            (_, RecordingState::Stopping) => true,
            _ => false,
        }
    }

    /// True until the first recorder has started.
    pub fn is_initializing(&self) -> (r: bool)
        ensures
            r == (*self == RecordingState::Initializing),
    {
        matches!(*self, RecordingState::Initializing)
    }
}

/// Every legal transition keeps or raises the phase.
pub proof fn lemma_transition_raises_phase(from: RecordingState, to: RecordingState)
    requires
        is_transition(from, to),
    ensures
        phase(from) <= phase(to),
        to != RecordingState::Initializing,
{
}

/// Along a walk of legal transitions the phase never decreases: a reader
/// that samples the bus at any two moments sees the later state at the same
/// phase or a later one, and never sees `Initializing` again once it has
/// been left.
pub proof fn lemma_walk_is_monotone(states: Seq<RecordingState>, i: int, j: int)
    requires
        is_walk(states),
        0 <= i <= j < states.len(),
    ensures
        phase(states[i]) <= phase(states[j]),
        states[i] != RecordingState::Initializing ==> states[j] != RecordingState::Initializing,
    decreases j - i,
{
    if i < j {
        lemma_walk_is_monotone(states, i, j - 1);
        assert(is_transition(states[j - 1], states[j]));
        lemma_transition_raises_phase(states[j - 1], states[j]);
    }
}


/// The value carried by the state bus: the state most recently published,
/// with the ghost record of every state it has held.
pub struct StateBus {
    current: RecordingState,
    history: Ghost<Seq<RecordingState>>,
}

impl StateBus {
    /// The record of every state the bus has held, oldest first.
    pub closed spec fn history(&self) -> Seq<RecordingState> {
        self.history@
    }

    pub closed spec fn state(&self) -> RecordingState {
        self.current
    }

    /// The bus starts in `Initializing`, its record is a walk of legal
    /// transitions and its last entry is the current state.
    pub closed spec fn wf(&self) -> bool {
        &&& self.history@.len() > 0
        &&& self.history@[0] == RecordingState::Initializing
        &&& self.history@.last() == self.current
        &&& is_walk(self.history@)
    }

    pub fn new() -> (r: StateBus)
        ensures
            r.wf(),
            r.state() == RecordingState::Initializing,
            r.history() == seq![RecordingState::Initializing],
    {
        let ghost h = seq![RecordingState::Initializing];
        StateBus { current: RecordingState::Initializing, history: Ghost(h) }
    }

    /// What a reader of the bus sees: the last state of the record.
    pub fn current(&self) -> (r: RecordingState)
        ensures
            r == self.state(),
            self.wf() ==> r == self.history().last(),
    {
        self.current
    }

    /// Publishes `next`. Publishing the current state again changes nothing
    /// and is accepted; a legal transition is taken and recorded; anything
    /// else (a regression) is refused and leaves the bus as it was.
    pub fn publish(&mut self, next: RecordingState) -> (accepted: bool)
        requires
            old(self).wf(),
        ensures
            final(self).wf(),
            accepted == (next == old(self).state() || is_transition(old(self).state(), next)),
            final(self).state() == (if accepted { next } else { old(self).state() }),
            final(self).history() == (if accepted && next != old(self).state() {
                old(self).history().push(next)
            } else {
                old(self).history()
            }),
    {
        if next == self.current {
            true
        } else if self.current.can_transition_to(next) {
            let ghost h = self.history@;
            self.history = Ghost(h.push(next));
            self.current = next;
            assert forall|i: int| 0 < i < self.history@.len() implies is_transition(
                #[trigger] self.history@[i - 1],
                self.history@[i],
            ) by {
                if i < h.len() {
                    assert(self.history@[i - 1] == h[i - 1]);
                    assert(self.history@[i] == h[i]);
                }
            }
            true
        } else {
            false
        }
    }
}

/// On a well-formed bus the current state is the last entry of a non-empty
/// record that starts at `Initializing`.
pub proof fn lemma_bus_state_is_last(bus: &StateBus)
    requires
        bus.wf(),
    ensures
        bus.history().len() > 0,
        bus.history()[0] == RecordingState::Initializing,
        bus.state() == bus.history().last(),
        is_walk(bus.history()),
{
}

/// Whatever two moments a reader samples the bus at, the later state is at
/// the same phase as the earlier one or at a later phase; `Initializing` is
/// never seen again once it has been left.
pub proof fn lemma_bus_observations_monotone(bus: &StateBus, i: int, j: int)
    requires
        bus.wf(),
        0 <= i <= j < bus.history().len(),
    ensures
        phase(bus.history()[i]) <= phase(bus.history()[j]),
        bus.history()[i] != RecordingState::Initializing ==> bus.history()[j]
            != RecordingState::Initializing,
{
    lemma_walk_is_monotone(bus.history(), i, j);
}

} // verus!
