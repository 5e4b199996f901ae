use vstd::prelude::*;
use vstd::string::*;
use crate::state::{lemma_bus_observations_monotone, phase, RecordingState, StateBus};
use crate::text::{trim_end, trim_end_str};

verus! {

/// What the speech worker does next.
#[derive(Clone, Copy, Debug, PartialEq, Eq, Structural)]
pub enum WorkerAction {
    /// Take the next chunk from the ingress channel.
    Receive,
    /// Stop accepting chunks and exit.
    Exit,
}

/// The worker keeps receiving through `RecordingFinished`, so that chunks
/// already in flight are transcribed, and exits once `Stopping` (or
/// anything after it) is seen.
pub fn worker_action(state: RecordingState) -> (r: WorkerAction)
    ensures
        r == (if phase(state) >= 3 {
            WorkerAction::Exit
        } else {
            WorkerAction::Receive
        }),
{
    match state {
        RecordingState::Stopping | RecordingState::Draining => WorkerAction::Exit,
        _ => WorkerAction::Receive,
    }
}

/// What a recorder does next.
#[derive(Clone, Copy, Debug, PartialEq, Eq, Structural)]
pub enum RecorderAction {
    /// Take the next captured chunk and forward it to the worker.
    Forward,
    /// Leave captured chunks where they are until the state changes.
    Hold,
    /// Stop capturing and exit.
    Exit,
}

/// A recorder forwards chunks while `Recording`, holds them while
/// `RecordingPaused`, and exits in any other state.
pub fn recorder_action(state: RecordingState) -> (r: RecorderAction)
    ensures
        state == RecordingState::Recording ==> r == RecorderAction::Forward,
        state == RecordingState::RecordingPaused ==> r == RecorderAction::Hold,
        state != RecordingState::Recording && state != RecordingState::RecordingPaused ==> r
            == RecorderAction::Exit,
{
    match state {
        RecordingState::Recording => RecorderAction::Forward,
        RecordingState::RecordingPaused => RecorderAction::Hold,
        _ => RecorderAction::Exit,
    }
}

/// The keys the keyboard controller reacts to.
#[derive(Clone, Copy, Debug, PartialEq, Eq, Structural)]
pub enum Key {
    Enter,
    Space,
    Other(u32),
}

/// What one newly pressed key asks for.
#[derive(Clone, Copy, Debug, PartialEq, Eq, Structural)]
pub enum KeyAction {
    /// Publish this state and keep listening.
    Publish(RecordingState),
    /// Publish `RecordingFinished` and stop listening.
    Finish,
    Ignore,
}

/// Enter finishes the recording; Space toggles between `Recording` and
/// `RecordingPaused` and does nothing in other states.
pub fn key_action(key: Key, state: RecordingState) -> (r: KeyAction)
    ensures
        key == Key::Enter ==> r == KeyAction::Finish,
        key == Key::Space && state == RecordingState::Recording ==> r == KeyAction::Publish(
            RecordingState::RecordingPaused,
        ),
        key == Key::Space && state == RecordingState::RecordingPaused ==> r == KeyAction::Publish(
            RecordingState::Recording,
        ),
        key == Key::Space && state != RecordingState::Recording && state
            != RecordingState::RecordingPaused ==> r == KeyAction::Ignore,
        key is Other ==> r == KeyAction::Ignore,
{
    match key {
        Key::Enter => KeyAction::Finish,
        Key::Space => match state {
            RecordingState::Recording => KeyAction::Publish(RecordingState::RecordingPaused),
            RecordingState::RecordingPaused => KeyAction::Publish(RecordingState::Recording),
            _ => KeyAction::Ignore,
        },
        Key::Other(_) => KeyAction::Ignore,
    }
}

fn holds_key(keys: &Vec<Key>, key: Key) -> (r: bool)
    ensures
        r == keys@.contains(key),
{
    let mut i: usize = 0;
    while i < keys.len()
        invariant
            i <= keys@.len(),
            forall|j: int| 0 <= j < i ==> keys@[j] != key,
        decreases keys@.len() - i,
    {
        if keys[i] == key {
            return true;
        }
        i = i + 1;
    }
    false
}

/// The keys of `now` that were not down at the previous poll, in order.
pub fn newly_pressed(now: &Vec<Key>, before: &Vec<Key>) -> (r: Vec<Key>)
    ensures
        r@ == now@.filter(|k: Key| !before@.contains(k)),
{
    let mut r: Vec<Key> = Vec::new();
    let mut i: usize = 0;
    while i < now.len()
        invariant
            i <= now@.len(),
            r@ == now@.subrange(0, i as int).filter(|k: Key| !before@.contains(k)),
        decreases now@.len() - i,
    {
        let k = now[i];
        assert(now@.subrange(0, i + 1) =~= now@.subrange(0, i as int).push(k));
        proof {
            now@.subrange(0, i as int).lemma_filter_push(k, |k: Key| !before@.contains(k));
        }
        if !holds_key(before, k) {
            r.push(k);
        }
        i = i + 1;
    }
    assert(now@.subrange(0, now@.len() as int) =~= now@);
    r
}

/// `text` added to the transcript `buffer`: a space separates it from what
/// is already there.
pub open spec fn appended(buffer: Seq<char>, text: Seq<char>) -> Seq<char> {
    if buffer.len() == 0 {
        text
    } else {
        buffer + seq![' '] + text
    }
}

/// The text of a result's transcription, if it has one.
pub open spec fn transcription_view(t: Option<String>) -> Option<Seq<char>> {
    match t {
        Some(s) => Some(s@),
        None => None,
    }
}

/// What the transcription loop does after an event.
#[derive(Clone, Copy, Debug, PartialEq, Eq, Structural)]
pub enum LoopControl {
    Continue,
    Finish,
}

/// Consecutive empty polls after which the transcription loop gives up.
pub const MAX_IDLE_POLLS: u32 = 3;

/// The supervisor's transcription loop: collects the texts of the results
/// as they arrive and decides when the loop ends.
pub struct TranscriptCollector {
    buffer: String,
    idle_polls: u32,
    received: Ghost<Seq<Option<Seq<char>>>>,
}

impl TranscriptCollector {
    pub closed spec fn text(&self) -> Seq<char> {
        self.buffer@
    }

    pub closed spec fn idle(&self) -> nat {
        self.idle_polls as nat
    }

    /// The transcriptions of the results received so far, in order.
    pub closed spec fn received(&self) -> Seq<Option<Seq<char>>> {
        self.received@
    }

    /// The transcript is what the received transcriptions collect to.
    pub closed spec fn wf(&self) -> bool {
        &&& self.idle_polls <= MAX_IDLE_POLLS
        &&& self.buffer@ == collected(self.received@)
    }

    pub fn new() -> (r: TranscriptCollector)
        ensures
            r.wf(),
            r.text() == Seq::<char>::empty(),
            r.received() == Seq::<Option<Seq<char>>>::empty(),
            r.idle() == 0,
    {
        let ghost none = Seq::<Option<Seq<char>>>::empty();
        TranscriptCollector { buffer: String::new(), idle_polls: 0, received: Ghost(none) }
    }

    /// A result arrived. Its text, if any, is added to the transcript. The
    /// loop ends on a result that arrives once the recording is finished.
    pub fn on_result(&mut self, transcription: Option<String>, state: RecordingState) -> (r:
        LoopControl)
        requires
            old(self).wf(),
        ensures
            final(self).wf(),
            final(self).idle() == 0,
            final(self).received() == old(self).received().push(transcription_view(transcription)),
            final(self).text() == collected(final(self).received()),
            final(self).text() == (match transcription {
                Some(t) => appended(old(self).text(), t@),
                None => old(self).text(),
            }),
            r == (if state == RecordingState::RecordingFinished {
                LoopControl::Finish
            } else {
                LoopControl::Continue
            }),
    {
        self.idle_polls = 0;
        let ghost entry = transcription_view(transcription);
        let ghost before = self.received@;
        self.received = Ghost(before.push(entry));
        assert(self.received@.drop_last() =~= before);
        match transcription {
            Some(t) => {
                if self.buffer.unicode_len() > 0 {
                    proof {
                        reveal_strlit(" ");
                    }
                    self.buffer.append(" ");
                }
                self.buffer.append(t.as_str());
                assert(self.buffer@ =~= appended(old(self).text(), t@));
            },
            None => {},
        }
        match state {
            RecordingState::RecordingFinished => LoopControl::Finish,
            _ => LoopControl::Continue,
        }
    }

    /// The state bus changed: the loop ends on `Stopping`.
    pub fn on_state(&self, state: RecordingState) -> (r: LoopControl)
        ensures
            r == (if state == RecordingState::Stopping {
                LoopControl::Finish
            } else {
                LoopControl::Continue
            }),
    {
        match state {
            RecordingState::Stopping => LoopControl::Finish,
            _ => LoopControl::Continue,
        }
    }

    /// A poll found neither a result nor a state change; the loop ends at
    /// the third such poll in a row.
    pub fn on_idle(&mut self) -> (r: LoopControl)
        requires
            old(self).wf(),
        ensures
            final(self).wf(),
            final(self).text() == old(self).text(),
            final(self).received() == old(self).received(),
            r == (if old(self).idle() + 1 >= MAX_IDLE_POLLS {
                LoopControl::Finish
            } else {
                LoopControl::Continue
            }),
            r == LoopControl::Continue ==> final(self).idle() == old(self).idle() + 1,
    {
        if self.idle_polls + 1 >= MAX_IDLE_POLLS {
            self.idle_polls = MAX_IDLE_POLLS;
            LoopControl::Finish
        } else {
            self.idle_polls = self.idle_polls + 1;
            LoopControl::Continue
        }
    }

    /// The collected transcript without trailing blanks.
    pub fn transcript(&self) -> (r: String)
        ensures
            r@ == trim_end(self.text()),
    {
        trim_end_str(self.buffer.as_str())
    }
}

pub open spec fn payload_open() -> Seq<char> {
    seq!['<', '|', 't', 'r', 'a', 'n', 's', 'c', 'r', 'i', 'p', 't', 'i', 'o', 'n', '|', '>']
}

pub open spec fn payload_close() -> Seq<char> {
    seq!['<', '/', '|', 't', 'r', 'a', 'n', 's', 'c', 'r', 'i', 'p', 't', 'i', 'o', 'n', '|', '>']
}

/// The program's output line: the transcript between
/// `<|transcription|>` and `</|transcription|>`.
pub fn transcription_payload(text: &str) -> (r: String)
    ensures
        r@ == payload_open() + text@ + payload_close(),
{
    proof {
        reveal_strlit("<|transcription|>");
        reveal_strlit("</|transcription|>");
    }
    let r = String::from_str("<|transcription|>").concat(text).concat("</|transcription|>");
    assert(r@ =~= payload_open() + text@ + payload_close());
    r
}

/// The hard bound, in milliseconds, on draining results after `Stopping`.
pub const DRAIN_LIMIT_MS: u64 = 10000;

/// How long the drain may still wait after `elapsed_ms` milliseconds:
/// nothing once the bound is reached.
pub fn drain_budget_ms(elapsed_ms: u64) -> (r: u64)
    ensures
        elapsed_ms >= DRAIN_LIMIT_MS ==> r == 0,
        elapsed_ms < DRAIN_LIMIT_MS ==> r == DRAIN_LIMIT_MS - elapsed_ms,
{
    if elapsed_ms >= DRAIN_LIMIT_MS {
        0
    } else {
        DRAIN_LIMIT_MS - elapsed_ms
    }
}

/// The drain goes on only while the bound is not reached.
pub fn drain_continues(elapsed_ms: u64) -> (r: bool)
    ensures
        r == (elapsed_ms < DRAIN_LIMIT_MS),
{
    elapsed_ms < DRAIN_LIMIT_MS
}


/// Once `Stopping` has been published, every later state of the bus is one
/// on which `worker_action` answers `Exit`: the worker takes no new chunk.
pub proof fn lemma_worker_stops_after_stopping(bus: &StateBus, i: int, j: int)
    requires
        bus.wf(),
        0 <= i <= j < bus.history().len(),
        bus.history()[i] == RecordingState::Stopping,
    ensures
        phase(bus.history()[j]) >= 3,
{
    lemma_bus_observations_monotone(bus, i, j);
}


/// The Whisper channel's shutdown flag is raised once the recording is
/// finished or stopping.
pub fn signals_shutdown(state: RecordingState) -> (r: bool)
    ensures
        r == (state == RecordingState::RecordingFinished || state == RecordingState::Stopping),
{
    matches!(state, RecordingState::RecordingFinished | RecordingState::Stopping)
}


/// The transcript that `on_result` builds from the transcriptions of the
/// results in arrival order, starting from an empty buffer.
pub open spec fn collected(texts: Seq<Option<Seq<char>>>) -> Seq<char>
    decreases texts.len(),
{
    if texts.len() == 0 {
        Seq::empty()
    } else {
        match texts.last() {
            Some(t) => appended(collected(texts.drop_last()), t),
            None => collected(texts.drop_last()),
        }
    }
}

/// A collector whose received results carry exactly one transcription `t`
/// holds `t` as its transcript.
pub proof fn lemma_collector_single_transcription(c: &TranscriptCollector, k: int, t: Seq<char>)
    requires
        c.wf(),
        0 <= k < c.received().len(),
        c.received()[k] == Some(t),
        forall|i: int|
            0 <= i < c.received().len() && i != k ==> #[trigger] c.received()[i] is None,
    ensures
        c.text() == t,
{
    lemma_single_transcription_collected(c.received(), k, t);
}

/// When exactly one result carries a transcription `t` and the others carry
/// none, the collected transcript is `t` itself.
pub proof fn lemma_single_transcription_collected(
    texts: Seq<Option<Seq<char>>>,
    k: int,
    t: Seq<char>,
)
    requires
        0 <= k < texts.len(),
        texts[k] == Some(t),
        forall|i: int| 0 <= i < texts.len() && i != k ==> #[trigger] texts[i] is None,
    ensures
        collected(texts) == t,
    decreases texts.len(),
{
    if texts.len() - 1 == k {
        lemma_no_transcription_collected(texts.drop_last());
    } else {
        let rest = texts.drop_last();
        assert(rest[k] == texts[k]);
        assert forall|i: int| 0 <= i < rest.len() && i != k implies #[trigger] rest[i] is None by {
            assert(rest[i] == texts[i]);
        }
        lemma_single_transcription_collected(rest, k, t);
    }
}

/// Results without transcriptions leave the transcript empty.
pub proof fn lemma_no_transcription_collected(texts: Seq<Option<Seq<char>>>)
    requires
        forall|i: int| 0 <= i < texts.len() ==> #[trigger] texts[i] is None,
    ensures
        collected(texts) == Seq::<char>::empty(),
    decreases texts.len(),
{
    if texts.len() > 0 {
        let rest = texts.drop_last();
        assert forall|i: int| 0 <= i < rest.len() implies #[trigger] rest[i] is None by {
            assert(rest[i] == texts[i]);
        }
        lemma_no_transcription_collected(rest);
    }
}

} // verus!
