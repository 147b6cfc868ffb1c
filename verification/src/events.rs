//! The reader engine's decisions. One reader per session repeatedly asks
//! the PTY for bytes; this module fixes, for every possible outcome of one
//! read attempt, which event is emitted and whether the reader keeps going.
//! The loop itself runs outside the library (the read blocks); it feeds
//! every outcome through `reader_step` and obeys the returned control.

use vstd::prelude::*;
use vstd::string::StrSliceExecFns;

verus! {

/// Terminal events for communication, tagged by session id so one shared
/// channel can multiplex all sessions.
pub enum TerminalEvent {
    Output { terminal_id: String, data: Vec<u8> },
    Exit { terminal_id: String, exit_code: Option<i32> },
    Error { terminal_id: String, message: String },
}

/// What one read attempt against the PTY produced, as the reader observes
/// it: a shutdown signal checked between reads, end of file, a chunk of
/// bytes, a transient would-block condition, or an unrecoverable error.
pub enum ReadOutcome {
    Shutdown,
    Eof,
    Data(Vec<u8>),
    WouldBlock,
    Failed(String),
}

/// What the reader engine does next: read again, sleep briefly and read
/// again, or stop.
#[derive(Debug, Clone, Copy, PartialEq, Eq, Structural)]
pub enum ReaderControl {
    Continue,
    Backoff,
    Stop,
}

/// The mathematical form of a terminal event.
pub ghost enum EventModel {
    Output { id: Seq<char>, data: Seq<u8> },
    Exit { id: Seq<char>, exit_code: Option<i32> },
    Error { id: Seq<char>, message: Seq<char> },
}

/// The mathematical form of a read outcome.
pub ghost enum OutcomeModel {
    Shutdown,
    Eof,
    Data { data: Seq<u8> },
    WouldBlock,
    Failed { message: Seq<char> },
}

impl View for TerminalEvent {
    type V = EventModel;

    open spec fn view(&self) -> EventModel {
        match self {
            TerminalEvent::Output { terminal_id, data } => EventModel::Output {
                id: terminal_id@,
                data: data@,
            },
            TerminalEvent::Exit { terminal_id, exit_code } => EventModel::Exit {
                id: terminal_id@,
                exit_code: *exit_code,
            },
            TerminalEvent::Error { terminal_id, message } => EventModel::Error {
                id: terminal_id@,
                message: message@,
            },
        }
    }
}

impl View for ReadOutcome {
    type V = OutcomeModel;

    open spec fn view(&self) -> OutcomeModel {
        match self {
            ReadOutcome::Shutdown => OutcomeModel::Shutdown,
            ReadOutcome::Eof => OutcomeModel::Eof,
            ReadOutcome::Data(data) => OutcomeModel::Data { data: data@ },
            ReadOutcome::WouldBlock => OutcomeModel::WouldBlock,
            ReadOutcome::Failed(message) => OutcomeModel::Failed { message: message@ },
        }
    }
}

/// The event one outcome gives rise to: bytes become an Output event with
/// exactly those bytes, end of file becomes an Exit event with no known
/// exit status, an unrecoverable error becomes an Error event carrying its
/// message, and a shutdown signal or a would-block condition emits nothing.
pub open spec fn step_event(id: Seq<char>, o: OutcomeModel) -> Option<EventModel> {
    match o {
        OutcomeModel::Shutdown => None,
        OutcomeModel::Eof => Some(EventModel::Exit { id, exit_code: None }),
        OutcomeModel::Data { data } => Some(EventModel::Output { id, data }),
        OutcomeModel::WouldBlock => None,
        OutcomeModel::Failed { message } => Some(EventModel::Error { id, message }),
    }
}

/// Whether the reader keeps going after one outcome: it stops on shutdown,
/// end of file and unrecoverable errors, backs off briefly on would-block,
/// and otherwise continues.
pub open spec fn step_control(o: OutcomeModel) -> ReaderControl {
    match o {
        OutcomeModel::Shutdown => ReaderControl::Stop,
        OutcomeModel::Eof => ReaderControl::Stop,
        OutcomeModel::Data { .. } => ReaderControl::Continue,
        OutcomeModel::WouldBlock => ReaderControl::Backoff,
        OutcomeModel::Failed { .. } => ReaderControl::Stop,
    }
}

/// Turns one read outcome into the event to emit (if any) and the control
/// decision for the reader loop.
pub fn reader_step(terminal_id: &str, outcome: ReadOutcome) -> (r: (
    Option<TerminalEvent>,
    ReaderControl,
))
    ensures
        r.1 == step_control(outcome@),
        (r.0 is Some) == (step_event(terminal_id@, outcome@) is Some),
        r.0 matches Some(e) ==> Some(e@) == step_event(terminal_id@, outcome@),
{
    match outcome {
        ReadOutcome::Shutdown => (None, ReaderControl::Stop),
        ReadOutcome::Eof => (
            Some(
                TerminalEvent::Exit { terminal_id: terminal_id.to_owned(), exit_code: None },
            ),
            ReaderControl::Stop,
        ),
        ReadOutcome::Data(data) => (
            Some(TerminalEvent::Output { terminal_id: terminal_id.to_owned(), data }),
            ReaderControl::Continue,
        ),
        ReadOutcome::WouldBlock => (None, ReaderControl::Backoff),
        ReadOutcome::Failed(message) => (
            Some(TerminalEvent::Error { terminal_id: terminal_id.to_owned(), message }),
            ReaderControl::Stop,
        ),
    }
}

/// The events a whole run of the reader emits, given the sequence of
/// outcomes its read attempts produce: each outcome's event in order, cut
/// off at the first outcome that stops the reader.
pub open spec fn events_of_trace(id: Seq<char>, trace: Seq<OutcomeModel>) -> Seq<EventModel>
    decreases trace.len(),
{
    if trace.len() == 0 {
        Seq::empty()
    } else {
        let head = match step_event(id, trace[0]) {
            Some(e) => seq![e],
            None => Seq::<EventModel>::empty(),
        };
        if step_control(trace[0]) is Stop {
            head
        } else {
            head + events_of_trace(id, trace.drop_first())
        }
    }
}

/// The byte chunks a run of the reader actually consumed: the payload of
/// every Data outcome before the reader stops.
pub open spec fn chunks_read(trace: Seq<OutcomeModel>) -> Seq<Seq<u8>>
    decreases trace.len(),
{
    if trace.len() == 0 {
        Seq::empty()
    } else {
        let head = match trace[0] {
            OutcomeModel::Data { data } => seq![data],
            _ => Seq::<Seq<u8>>::empty(),
        };
        if step_control(trace[0]) is Stop {
            head
        } else {
            head + chunks_read(trace.drop_first())
        }
    }
}

/// The payloads of the Output events among `events`, in order.
pub open spec fn output_payloads(events: Seq<EventModel>) -> Seq<Seq<u8>>
    decreases events.len(),
{
    if events.len() == 0 {
        Seq::empty()
    } else {
        let head = match events[0] {
            EventModel::Output { data, .. } => seq![data],
            _ => Seq::<Seq<u8>>::empty(),
        };
        head + output_payloads(events.drop_first())
    }
}

/// Exit and Error are the terminal events of a session's lifetime.
pub open spec fn is_terminal_event(e: EventModel) -> bool {
    e is Exit || e is Error
}

/// The reader runs to a natural end: the first outcome that stops it is
/// end of file or an unrecoverable error, not a shutdown signal.
pub open spec fn ends_naturally(trace: Seq<OutcomeModel>) -> bool
    decreases trace.len(),
{
    if trace.len() == 0 {
        false
    } else if step_control(trace[0]) is Stop {
        trace[0] is Eof || trace[0] is Failed
    } else {
        ends_naturally(trace.drop_first())
    }
}

/// The reader is stopped by the shutdown signal of an explicit close
/// before it ever sees end of file or a read error.
pub open spec fn halted_by_shutdown(trace: Seq<OutcomeModel>) -> bool
    decreases trace.len(),
{
    if trace.len() == 0 {
        false
    } else if step_control(trace[0]) is Stop {
        trace[0] is Shutdown
    } else {
        halted_by_shutdown(trace.drop_first())
    }
}

/// Byte transport is faithful: the Output events of a run carry exactly
/// the chunks the reads produced — same chunks, same order, each chunk
/// contiguous in its own event, nothing lost, duplicated or reordered.
pub proof fn lemma_output_events_match_chunks(id: Seq<char>, trace: Seq<OutcomeModel>)
    ensures
        output_payloads(events_of_trace(id, trace)) == chunks_read(trace),
    decreases trace.len(),
{
    if trace.len() == 0 {
        assert(output_payloads(events_of_trace(id, trace)) =~= chunks_read(trace));
    } else {
        let rest = trace.drop_first();
        lemma_output_events_match_chunks(id, rest);
        match trace[0] {
            OutcomeModel::Shutdown => {
                assert(events_of_trace(id, trace) =~= Seq::<EventModel>::empty());
                assert(output_payloads(events_of_trace(id, trace)) =~= chunks_read(trace));
            },
            OutcomeModel::Eof => {
                let e = EventModel::Exit { id, exit_code: None };
                assert(events_of_trace(id, trace) =~= seq![e]);
                assert(seq![e].drop_first() =~= Seq::<EventModel>::empty());
                assert(output_payloads(Seq::<EventModel>::empty()) =~= Seq::<Seq<u8>>::empty());
                assert(output_payloads(seq![e]) =~= Seq::<Seq<u8>>::empty());
                assert(output_payloads(events_of_trace(id, trace)) =~= chunks_read(trace));
            },
            OutcomeModel::Failed { message } => {
                let e = EventModel::Error { id, message };
                assert(events_of_trace(id, trace) =~= seq![e]);
                assert(seq![e].drop_first() =~= Seq::<EventModel>::empty());
                assert(output_payloads(Seq::<EventModel>::empty()) =~= Seq::<Seq<u8>>::empty());
                assert(output_payloads(seq![e]) =~= Seq::<Seq<u8>>::empty());
                assert(output_payloads(events_of_trace(id, trace)) =~= chunks_read(trace));
            },
            OutcomeModel::WouldBlock => {
                assert(events_of_trace(id, trace) =~= events_of_trace(id, rest));
                assert(chunks_read(trace) =~= chunks_read(rest));
            },
            OutcomeModel::Data { data } => {
                let e = EventModel::Output { id, data };
                let tail_events = events_of_trace(id, rest);
                assert(events_of_trace(id, trace) =~= seq![e] + tail_events);
                assert((seq![e] + tail_events).drop_first() =~= tail_events);
                assert(output_payloads(seq![e] + tail_events) =~= seq![data] + output_payloads(
                    tail_events,
                ));
                assert(chunks_read(trace) =~= seq![data] + chunks_read(rest));
            },
        }
    }
}

/// The same at the byte level: concatenating the payloads of a run's
/// Output events yields exactly the bytes its reads produced — nothing
/// lost, nothing duplicated, nothing reordered.
pub proof fn lemma_bytes_transported_in_order(id: Seq<char>, trace: Seq<OutcomeModel>)
    ensures
        output_payloads(events_of_trace(id, trace)).flatten() == chunks_read(trace).flatten(),
{
    lemma_output_events_match_chunks(id, trace);
}

/// On the natural termination path, exactly one terminal event is emitted
/// per session lifetime, and it is the last event of the run.
pub proof fn lemma_one_terminal_event_when_natural(id: Seq<char>, trace: Seq<OutcomeModel>)
    requires
        ends_naturally(trace),
    ensures
        events_of_trace(id, trace).len() > 0,
        is_terminal_event(events_of_trace(id, trace).last()),
        forall|i: int|
            0 <= i < events_of_trace(id, trace).len() - 1 ==> !is_terminal_event(
                #[trigger] events_of_trace(id, trace)[i],
            ),
    decreases trace.len(),
{
    let events = events_of_trace(id, trace);
    let rest = trace.drop_first();
    if step_control(trace[0]) is Stop {
        assert(events.len() == 1);
    } else {
        lemma_one_terminal_event_when_natural(id, rest);
        let tail_events = events_of_trace(id, rest);
        match trace[0] {
            OutcomeModel::Data { data } => {
                let e = EventModel::Output { id, data };
                assert(events =~= seq![e] + tail_events);
                assert(events.last() == tail_events.last());
                assert forall|i: int|
                    0 <= i < events.len() - 1 implies !is_terminal_event(#[trigger] events[i]) by {
                    if i > 0 {
                        assert(events[i] == tail_events[i - 1]);
                    }
                }
            },
            OutcomeModel::WouldBlock => {
                assert(events =~= tail_events);
            },
            _ => {
                assert(false);
            },
        }
    }
}

/// On the explicit-close path — the reader stopped by the shutdown signal —
/// no terminal event is emitted at all.
pub proof fn lemma_no_terminal_event_on_shutdown(id: Seq<char>, trace: Seq<OutcomeModel>)
    requires
        halted_by_shutdown(trace),
    ensures
        forall|i: int|
            0 <= i < events_of_trace(id, trace).len() ==> !is_terminal_event(
                #[trigger] events_of_trace(id, trace)[i],
            ),
    decreases trace.len(),
{
    let events = events_of_trace(id, trace);
    let rest = trace.drop_first();
    if step_control(trace[0]) is Stop {
        assert(events =~= Seq::<EventModel>::empty());
    } else {
        lemma_no_terminal_event_on_shutdown(id, rest);
        let tail_events = events_of_trace(id, rest);
        match trace[0] {
            OutcomeModel::Data { data } => {
                let e = EventModel::Output { id, data };
                assert(events =~= seq![e] + tail_events);
                assert forall|i: int| 0 <= i < events.len() implies !is_terminal_event(
                    #[trigger] events[i],
                ) by {
                    if i > 0 {
                        assert(events[i] == tail_events[i - 1]);
                    }
                }
            },
            OutcomeModel::WouldBlock => {
                assert(events =~= tail_events);
            },
            _ => {
                assert(false);
            },
        }
    }
}

/// The wire form of an Output payload: each byte widened to a non-negative
/// number, in order, for a consumer that cannot take raw bytes.
pub fn bytes_as_numbers(data: &[u8]) -> (r: Vec<i32>)
    ensures
        r@.len() == data@.len(),
        forall|i: int| 0 <= i < data@.len() ==> r@[i] == data@[i] as i32,
{
    let n = data.len();
    let mut r: Vec<i32> = Vec::new();
    let mut i: usize = 0;
    while i < n
        invariant
            n == data@.len(),
            i <= n,
            r@.len() == i,
            forall|j: int| 0 <= j < i ==> r@[j] == data@[j] as i32,
        decreases n - i,
    {
        r.push(data[i] as i32);
        i += 1;
    }
    r
}

} // verus!
