//! The server's side of one connection: send a snapshot, wait for the
//! client's pacing byte, and again, until the stream fails.
//!
//! A session decides; it does no input or output. Whoever owns the stream
//! performs each action and reports how it went.

use vstd::prelude::*;
use crate::codec::{encode, encoded};
use crate::json::without_nul;
use crate::packet::ServerInfo;

verus! {

/// The port that a server listens on.
pub const SERVER_PORT: u16 = 8111;

/// How many bytes the liveness probe reads at most.
pub const PROBE_BYTES: usize = 128;

/// The bound, in seconds, on every connect, read and write, on which server
/// and client agree.
pub const TIMEOUT_SECONDS: u64 = 5;

/// The bound, in seconds, on the liveness probe: longer than the slowest
/// client lets go by between two reads, so that a client is not taken for
/// gone while it waits for its next read to be due.
pub const PROBE_WAIT_SECONDS: u64 = 30;

/// Where a session stands.
#[derive(Clone, Copy, Debug, PartialEq, Eq, Structural)]
pub enum SessionState {
    /// The connection was accepted; nothing was sent yet.
    Accepted,
    /// Snapshots are being sent.
    Serving,
    /// The stream failed and was closed. Nothing follows.
    Closed,
}

/// What happened to a session.
#[derive(Clone, Copy, Debug, PartialEq, Eq, Structural)]
pub enum SessionEvent {
    /// The session is let run.
    Start,
    /// One exchange was made: the document was written and the stream
    /// flushed, each with or without success, and the liveness probe read
    /// `answer` bytes, or failed and read none.
    Exchanged { wrote: bool, flushed: bool, answer: Option<usize> },
}

/// What the owner of the stream is to do next.
#[derive(Clone, Copy, Debug, PartialEq, Eq, Structural)]
pub enum SessionAction {
    /// Take a fresh snapshot, write its document, flush, read the probe, and
    /// report with `Exchanged`.
    Exchange,
    /// Shut the stream down, in both directions, and end.
    Close,
    /// Nothing.
    Nothing,
}

/// Whether an exchange went through: the document was written and flushed,
/// and the client answered the probe with at least one byte. A probe that
/// failed, ran out of time or met the end of the stream is no answer.
pub open spec fn exchange_succeeded(wrote: bool, flushed: bool, answer: Option<usize>) -> bool {
    wrote && flushed && answer is Some && answer->0 >= 1
}

/// The state after an event, and the action it calls for.
///
/// A session that is let run starts to serve. A serving session goes on
/// after an exchange that went through, and closes after one that did not.
/// A closed session stays closed and asks for nothing more, so the stream is
/// closed once.
pub open spec fn session_step(state: SessionState, event: SessionEvent) -> (SessionState, SessionAction) {
    match (state, event) {
        (SessionState::Accepted, SessionEvent::Start) => {
            (SessionState::Serving, SessionAction::Exchange)
        },
        (SessionState::Serving, SessionEvent::Exchanged { wrote, flushed, answer }) => {
            if exchange_succeeded(wrote, flushed, answer) {
                (SessionState::Serving, SessionAction::Exchange)
            } else {
                (SessionState::Closed, SessionAction::Close)
            }
        },
        _ => (state, SessionAction::Nothing),
    }
}

/// The state after a run of events.
pub open spec fn session_run(state: SessionState, events: Seq<SessionEvent>) -> SessionState
    decreases events.len(),
{
    if events.len() == 0 {
        state
    } else {
        session_step(session_run(state, events.drop_last()), events.last()).0
    }
}

/// How many events of a run called for closing the stream.
pub open spec fn closes_in_run(state: SessionState, events: Seq<SessionEvent>) -> nat
    decreases events.len(),
{
    if events.len() == 0 {
        0
    } else {
        let before = session_run(state, events.drop_last());
        let here: nat = if session_step(before, events.last()).1 == SessionAction::Close {
            1
        } else {
            0
        };
        closes_in_run(state, events.drop_last()) + here
    }
}

/// The server's side of one connection.
#[derive(Debug)]
pub struct Session {
    state: SessionState,
}

impl Session {
    /// Where the session stands.
    pub closed spec fn view(&self) -> SessionState {
        self.state
    }

    /// The session of a connection that was just accepted.
    pub fn new() -> (r: Session)
        ensures
            r@ == SessionState::Accepted,
    {
        Session { state: SessionState::Accepted }
    }

    /// Where the session stands.
    pub fn state(&self) -> (r: SessionState)
        ensures
            r == self@,
    {
        self.state
    }

    /// Whether the session has ended.
    pub fn is_closed(&self) -> (r: bool)
        ensures
            r == (self@ == SessionState::Closed),
    {
        self.state == SessionState::Closed
    }

    /// Takes an event: moves to the next state and says what to do.
    pub fn step(&mut self, event: SessionEvent) -> (action: SessionAction)
        ensures
            (final(self)@, action) == session_step(old(self)@, event),
    {
        match (self.state, event) {
            (SessionState::Accepted, SessionEvent::Start) => {
                self.state = SessionState::Serving;
                SessionAction::Exchange
            },
            (SessionState::Serving, SessionEvent::Exchanged { wrote, flushed, answer }) => {
                let answered = match answer {
                    Some(bytes) => bytes >= 1,
                    None => false,
                };
                if wrote && flushed && answered {
                    SessionAction::Exchange
                } else {
                    self.state = SessionState::Closed;
                    SessionAction::Close
                }
            },
            _ => SessionAction::Nothing,
        }
    }

    /// The bytes to write for a snapshot: its document, which holds no NUL,
    /// while the session serves, and nothing otherwise.
    pub fn outgoing(&self, info: &ServerInfo) -> (r: Option<Vec<u8>>)
        ensures
            match r {
                Some(bytes) => self@ == SessionState::Serving && bytes@ == encoded(info@)
                    && without_nul(bytes@),
                None => self@ != SessionState::Serving,
            },
    {
        if self.state == SessionState::Serving {
            Some(encode(info))
        } else {
            None
        }
    }
}

/// A session asks for an exchange only when it is let run, and after an
/// exchange that went through: the next snapshot is not taken before the
/// last was written and the client has answered.
pub proof fn lemma_exchange_follows_answer(state: SessionState, event: SessionEvent)
    requires
        session_step(state, event).1 == SessionAction::Exchange,
    ensures
        ({
            ||| state == SessionState::Accepted && event == SessionEvent::Start
            ||| state == SessionState::Serving && event is Exchanged
                && exchange_succeeded(event->wrote, event->flushed, event->answer)
        }),
{
}

/// Once closed, a session stays closed whatever happens.
pub proof fn lemma_closed_is_final(events: Seq<SessionEvent>)
    ensures
        session_run(SessionState::Closed, events) == SessionState::Closed,
        closes_in_run(SessionState::Closed, events) == 0,
    decreases events.len(),
{
    if events.len() > 0 {
        lemma_closed_is_final(events.drop_last());
    }
}

/// Whatever happens to a session, its stream is closed at most once, and it
/// is closed exactly once if the session ends closed.
pub proof fn lemma_stream_closed_once(events: Seq<SessionEvent>)
    ensures
        session_run(SessionState::Accepted, events) == SessionState::Closed
            ==> closes_in_run(SessionState::Accepted, events) == 1,
        session_run(SessionState::Accepted, events) != SessionState::Closed
            ==> closes_in_run(SessionState::Accepted, events) == 0,
    decreases events.len(),
{
    if events.len() > 0 {
        lemma_stream_closed_once(events.drop_last());
    }
}

} // verus!
