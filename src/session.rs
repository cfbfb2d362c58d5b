//! The connection loop: one session with one peer.
//!
//! Each round the loop reads from the socket with a timeout, prints what
//! arrived, polls the local-input channel once without blocking, and sends the
//! chunk it found. `ConnectionLoop::handle` takes the outcome of the work it
//! asked for last and says what to print and what to do next; the caller does
//! the work. Once finished, a loop stays finished.
use vstd::prelude::*;

use crate::unicode::{decode_lossy, lossy_text_of};

verus! {

/// How long one socket read waits for data, in milliseconds.
pub const READ_TIMEOUT_MS: u64 = 1000;

/// The size of the buffer that one socket read fills.
pub const READ_BUFFER_SIZE: usize = 1500;

/// What the loop prints when local input has gone away.
pub open spec fn disconnect_notice_spec() -> Seq<char> {
    "mpsc channel disconnected"@
}

/// The notice printed when local input has gone away.
pub fn disconnect_notice() -> (r: String)
    ensures
        r@ == disconnect_notice_spec(),
{
    String::from_str("mpsc channel disconnected")
}

/// Where a session stands: which outcome it waits for, or that it is over.
#[derive(Clone, Copy, Debug, PartialEq, Eq, Structural)]
pub enum Phase {
    Reading,
    Polling,
    Writing,
    Finished,
}

/// The outcome of the work that a session asked for.
#[derive(Debug)]
pub enum Event {
    /// A socket read returned these bytes; none means the peer closed.
    Received(Vec<u8>),
    /// A socket read found no data within the timeout.
    ReadTimedOut,
    /// A socket read failed otherwise.
    ReadFailed,
    /// The local-input channel held this chunk.
    Chunk(Vec<u8>),
    /// The local-input channel was empty.
    InputEmpty,
    /// The local-input channel is disconnected: its producer has ended.
    InputClosed,
    /// A chunk was written to the socket in full.
    Written,
    /// Writing a chunk to the socket failed.
    WriteFailed,
}

/// The work a session asks for next.
#[derive(Debug)]
pub enum Request {
    ReadSocket,
    PollInput,
    Send(Vec<u8>),
    Stop,
}

/// What to print, if anything, and what to do next.
#[derive(Debug)]
pub struct Step {
    pub output: Option<String>,
    pub request: Request,
}

/// An outcome as values.
pub enum EventModel {
    Received(Seq<u8>),
    ReadTimedOut,
    ReadFailed,
    Chunk(Seq<u8>),
    InputEmpty,
    InputClosed,
    Written,
    WriteFailed,
}

/// A request as values.
pub enum RequestModel {
    ReadSocket,
    PollInput,
    Send(Seq<u8>),
    Stop,
}

/// A step as values.
pub struct StepModel {
    pub output: Option<Seq<char>>,
    pub request: RequestModel,
}

impl View for Event {
    type V = EventModel;

    open spec fn view(&self) -> EventModel {
        match self {
            Event::Received(b) => EventModel::Received(b@),
            Event::ReadTimedOut => EventModel::ReadTimedOut,
            Event::ReadFailed => EventModel::ReadFailed,
            Event::Chunk(c) => EventModel::Chunk(c@),
            Event::InputEmpty => EventModel::InputEmpty,
            Event::InputClosed => EventModel::InputClosed,
            Event::Written => EventModel::Written,
            Event::WriteFailed => EventModel::WriteFailed,
        }
    }
}

impl View for Request {
    type V = RequestModel;

    open spec fn view(&self) -> RequestModel {
        match self {
            Request::ReadSocket => RequestModel::ReadSocket,
            Request::PollInput => RequestModel::PollInput,
            Request::Send(c) => RequestModel::Send(c@),
            Request::Stop => RequestModel::Stop,
        }
    }
}

impl View for Step {
    type V = StepModel;

    open spec fn view(&self) -> StepModel {
        StepModel {
            output: match self.output {
                Some(t) => Some(t@),
                None => None,
            },
            request: self.request@,
        }
    }
}

/// A step that prints nothing.
pub open spec fn quiet(request: RequestModel) -> StepModel {
    StepModel { output: None, request }
}

/// One move of a session: from a phase and the outcome it waited for, to the
/// next phase, what to print and what to do. An outcome that answers no
/// pending request ends the session, as does every fatal one.
pub open spec fn next(phase: Phase, e: EventModel) -> (Phase, StepModel) {
    match (phase, e) {
        (Phase::Reading, EventModel::Received(b)) => if b.len() == 0 {
            (Phase::Finished, quiet(RequestModel::Stop))
        } else {
            (
                Phase::Polling,
                StepModel { output: Some(lossy_text_of(b)), request: RequestModel::PollInput },
            )
        },
        (Phase::Reading, EventModel::ReadTimedOut) => (Phase::Polling, quiet(RequestModel::PollInput)),
        (Phase::Polling, EventModel::Chunk(c)) => (Phase::Writing, quiet(RequestModel::Send(c))),
        (Phase::Polling, EventModel::InputEmpty) => (Phase::Reading, quiet(RequestModel::ReadSocket)),
        (Phase::Polling, EventModel::InputClosed) => (
            Phase::Finished,
            StepModel { output: Some(disconnect_notice_spec()), request: RequestModel::Stop },
        ),
        (Phase::Writing, EventModel::Written) => (Phase::Reading, quiet(RequestModel::ReadSocket)),
        _ => (Phase::Finished, quiet(RequestModel::Stop)),
    }
}

/// The phase after a sequence of outcomes, and the steps taken on the way.
pub open spec fn run(phase: Phase, events: Seq<EventModel>) -> (Phase, Seq<StepModel>)
    decreases events.len(),
{
    if events.len() == 0 {
        (phase, Seq::empty())
    } else {
        let (p, s) = next(phase, events[0]);
        let (q, rest) = run(p, events.drop_first());
        (q, seq![s] + rest)
    }
}

/// One session's state.
pub struct ConnectionLoop {
    pub phase: Phase,
}

impl ConnectionLoop {
    /// A new session; its first work is a socket read.
    pub fn new() -> (r: ConnectionLoop)
        ensures
            r.phase == Phase::Reading,
    {
        ConnectionLoop { phase: Phase::Reading }
    }

    /// The work a new session asks for first.
    pub fn first_request() -> (r: Request)
        ensures
            r@ == RequestModel::ReadSocket,
    {
        Request::ReadSocket
    }

    pub fn is_finished(&self) -> (r: bool)
        ensures
            r == (self.phase == Phase::Finished),
    {
        self.phase == Phase::Finished
    }

    /// Takes the outcome of the last request and makes one move.
    pub fn handle(&mut self, event: Event) -> (step: Step)
        ensures
            (final(self).phase, step@) == next(old(self).phase, event@),
    {
        let phase = self.phase;
        let (p, step) = match (phase, event) {
            (Phase::Reading, Event::Received(b)) => {
                if b.len() == 0 {
                    (Phase::Finished, Step { output: None, request: Request::Stop })
                } else {
                    let text = decode_lossy(b.as_slice());
                    (Phase::Polling, Step { output: Some(text), request: Request::PollInput })
                }
            },
            (Phase::Reading, Event::ReadTimedOut) => (
                Phase::Polling,
                Step { output: None, request: Request::PollInput },
            ),
            (Phase::Polling, Event::Chunk(c)) => (
                Phase::Writing,
                Step { output: None, request: Request::Send(c) },
            ),
            (Phase::Polling, Event::InputEmpty) => (
                Phase::Reading,
                Step { output: None, request: Request::ReadSocket },
            ),
            (Phase::Polling, Event::InputClosed) => (
                Phase::Finished,
                Step { output: Some(disconnect_notice()), request: Request::Stop },
            ),
            (Phase::Writing, Event::Written) => (
                Phase::Reading,
                Step { output: None, request: Request::ReadSocket },
            ),
            _ => (Phase::Finished, Step { output: None, request: Request::Stop }),
        };
        self.phase = p;
        step
    }
}

/// A finished session stays finished: whatever comes after, it prints nothing
/// and asks for nothing but to stop.
pub proof fn lemma_finished_is_final(events: Seq<EventModel>)
    ensures
        run(Phase::Finished, events).0 == Phase::Finished,
        run(Phase::Finished, events).1.len() == events.len(),
        forall|i: int|
            0 <= i < events.len() ==> #[trigger] run(Phase::Finished, events).1[i] == quiet(
                RequestModel::Stop,
            ),
    decreases events.len(),
{
    if events.len() > 0 {
        lemma_finished_is_final(events.drop_first());
        let rest = run(Phase::Finished, events.drop_first()).1;
        assert forall|i: int| 0 <= i < events.len() implies #[trigger] run(
            Phase::Finished,
            events,
        ).1[i] == quiet(RequestModel::Stop) by {
            if i > 0 {
                assert(run(Phase::Finished, events).1[i] == rest[i - 1]);
            }
        }
    }
}

/// When the peer closes (a read returns no bytes), the session ends there:
/// nothing is printed or sent afterwards, whatever else comes.
pub proof fn lemma_peer_close_ends_session(events: Seq<EventModel>)
    ensures
        ({
            let r = run(Phase::Reading, seq![EventModel::Received(Seq::empty())] + events);
            &&& r.0 == Phase::Finished
            &&& r.1.len() == events.len() + 1
            &&& forall|i: int| 0 <= i < r.1.len() ==> #[trigger] r.1[i] == quiet(RequestModel::Stop)
        }),
{
    let all = seq![EventModel::Received(Seq::empty())] + events;
    assert(all.drop_first() =~= events);
    lemma_finished_is_final(events);
    let r = run(Phase::Reading, all);
    assert forall|i: int| 0 <= i < r.1.len() implies #[trigger] r.1[i] == quiet(RequestModel::Stop) by {
        if i > 0 {
            assert(r.1[i] == run(Phase::Finished, events).1[i - 1]);
        }
    }
}

/// When local input goes away (its channel disconnects), the session prints
/// the notice and ends: no chunk is sent afterwards, whatever else comes.
pub proof fn lemma_input_closed_ends_session(events: Seq<EventModel>)
    ensures
        ({
            let r = run(Phase::Polling, seq![EventModel::InputClosed] + events);
            &&& r.0 == Phase::Finished
            &&& r.1.len() == events.len() + 1
            &&& r.1[0] == StepModel {
                output: Some(disconnect_notice_spec()),
                request: RequestModel::Stop,
            }
            &&& forall|i: int| 1 <= i < r.1.len() ==> #[trigger] r.1[i] == quiet(RequestModel::Stop)
        }),
{
    let all = seq![EventModel::InputClosed] + events;
    assert(all.drop_first() =~= events);
    lemma_finished_is_final(events);
    let r = run(Phase::Polling, all);
    assert forall|i: int| 1 <= i < r.1.len() implies #[trigger] r.1[i] == quiet(RequestModel::Stop) by {
        assert(r.1[i] == run(Phase::Finished, events).1[i - 1]);
    }
}

/// A read that neither failed nor saw the peer close.
pub open spec fn keeps_reading(e: EventModel) -> bool {
    ||| e is ReadTimedOut
    ||| (e matches EventModel::Received(b) && b.len() > 0)
}

/// Input is not starved: after any socket read that does not end the session,
/// data or none, the next work is a poll of local input, and a chunk found
/// there is sent as it is.
pub proof fn lemma_input_follows_every_read(e: EventModel, chunk: Seq<u8>)
    requires
        keeps_reading(e),
    ensures
        ({
            let r = run(Phase::Reading, seq![e, EventModel::Chunk(chunk)]);
            &&& r.1[0].request == RequestModel::PollInput
            &&& r.1[1] == quiet(RequestModel::Send(chunk))
            &&& r.0 == Phase::Writing
        }),
{
    let evs = seq![e, EventModel::Chunk(chunk)];
    assert(evs.drop_first() =~= seq![EventModel::Chunk(chunk)]);
    assert(evs.drop_first().drop_first() =~= Seq::<EventModel>::empty());
    let tail = run(Phase::Polling, evs.drop_first());
    assert(run(Phase::Writing, Seq::<EventModel>::empty()).1 =~= Seq::<StepModel>::empty());
    assert(tail.1 =~= seq![quiet(RequestModel::Send(chunk))]);
    assert(tail.0 == Phase::Writing);
}

/// Bytes from the peer, before it closes, are printed as their lossy UTF-8
/// text, and the session goes on to poll local input.
pub proof fn lemma_received_bytes_are_printed(b: Seq<u8>)
    requires
        b.len() > 0,
    ensures
        next(Phase::Reading, EventModel::Received(b)) == (
            Phase::Polling,
            StepModel { output: Some(lossy_text_of(b)), request: RequestModel::PollInput },
        ),
{
}

} // verus!
