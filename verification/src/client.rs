//! The client's side of a connection: connect, read what the server sends
//! piece by piece until a whole snapshot has come, answer with the pacing
//! byte, and keep the last good snapshot through every failure.
//!
//! A connection decides; it does no input or output. Whoever owns the stream
//! performs each action and reports what came of it as the next event.

use vstd::prelude::*;
use crate::cadence::{
    lemma_cycles_bounded, next_cycles, poll_due, Cycles, PollRate, DEFAULT_RATE_MILLI, MAX_CYCLES,
    MAX_RATE_MILLI, MIN_RATE_MILLI,
};
use crate::codec::{decode, decoded, DecodeError};
use crate::json::without_nul;
use crate::last_session::{LastSession, LastSessionView};
use crate::packet::{blank_snapshot, ServerInfo, ServerInfoView};

verus! {

/// How many bytes one read asks for at most.
pub const READ_CHUNK_BYTES: usize = 4096;

/// The byte that a client answers a snapshot with.
pub const PACING_BYTE: u8 = 0;

/// Where a connection stands.
#[derive(Clone, Copy, Debug, PartialEq, Eq, Structural)]
pub enum LinkState {
    /// No stream is open.
    Disconnected,
    /// A stream to the address is being opened.
    Connecting,
    /// A stream is open and the next read is not due yet.
    Idle,
    /// A stream is open and a read was asked for.
    Reading,
}

/// What a client tells its operator.
#[derive(Clone, Copy, Debug, PartialEq, Eq, Structural)]
pub enum Notice {
    /// The address could not be reached.
    ConnectError,
    /// The bytes received are no snapshot and were dropped.
    Malformed,
    /// The last session could not be kept. The connection goes on.
    PersistenceError,
    /// There is no connection to end.
    NotConnected,
}

/// What happened to a connection.
#[derive(Debug)]
pub enum ClientEvent {
    /// The operator asks for a connection to the address.
    Connect(String),
    /// The stream was opened.
    Opened,
    /// The stream could not be opened.
    Refused,
    /// The last session could not be kept.
    PersistFailed,
    /// The interface went through one refresh cycle.
    Tick,
    /// The read gave these bytes. A read that gives none has met the end
    /// of the stream: the peer closed it.
    Data(Vec<u8>),
    /// The read gave nothing within its bound.
    Quiet,
    /// The read failed for good: the peer closed or reset the stream.
    Lost,
    /// The pacing byte could not be written.
    PacingFailed,
    /// The operator asks to end the connection.
    Disconnect,
}

/// What the owner of the stream is to do next.
#[derive(Clone, Copy, Debug, PartialEq, Eq, Structural)]
pub enum ClientAction {
    /// Nothing.
    Nothing,
    /// Open a stream to the address, with bounded waits, and report with
    /// `Opened` or `Refused`.
    Open,
    /// Close the stream that is open, then do as for `Open`.
    Reopen,
    /// Keep the last session, the address and the size of the window, and
    /// report with `PersistFailed` if that fails.
    Persist,
    /// Read what is there, at most `READ_CHUNK_BYTES`, and report with
    /// `Data`, `Quiet` or `Lost`.
    Read,
    /// Write the pacing byte, and report with `PacingFailed` if that fails.
    Pace,
    /// Close the stream: the transport failed, and the connection is over.
    Drop,
    /// Shut the stream down in both directions.
    Shutdown,
    /// Tell the operator.
    Report(Notice),
}

/// What a connection holds.
pub struct ClientView {
    pub state: LinkState,
    pub address: Seq<char>,
    pub buffer: Seq<u8>,
    pub snapshot: ServerInfoView,
    pub cycles: int,
    pub rate: int,
    pub receiving: bool,
}

impl ClientView {
    /// What holds of every connection: without a stream nothing is
    /// buffered, the buffer holds no padding, and the count of cycles and
    /// the rate are within their bounds.
    pub open spec fn well_formed(self) -> bool {
        &&& has_stream(self.state) || self.buffer.len() == 0
        &&& forall|i: int| 0 <= i < self.buffer.len() ==> self.buffer[i] != 0
        &&& 0 <= self.cycles <= MAX_CYCLES
        &&& MIN_RATE_MILLI <= self.rate <= MAX_RATE_MILLI
    }
}

/// The bytes without the padding: every byte but NUL, in order.
pub open spec fn strip_nul(bytes: Seq<u8>) -> Seq<u8> {
    bytes.filter(|b: u8| b != 0)
}

/// Whether a stream is open in this state.
pub open spec fn has_stream(state: LinkState) -> bool {
    state == LinkState::Idle || state == LinkState::Reading
}

/// The connection of a client that has just started.
pub open spec fn fresh_client() -> ClientView {
    ClientView {
        state: LinkState::Disconnected,
        address: "localhost:8111"@,
        buffer: Seq::empty(),
        snapshot: blank_snapshot(),
        cycles: 0,
        rate: DEFAULT_RATE_MILLI as int,
        receiving: false,
    }
}

/// The connection without a stream: what was read of an unfinished document
/// is dropped, the snapshot stays.
pub open spec fn cut(c: ClientView) -> ClientView {
    ClientView { state: LinkState::Disconnected, buffer: Seq::empty(), receiving: false, ..c }
}

/// A reading connection after the read gave the bytes of `chunk`, at least
/// one.
///
/// The bytes but the padding join what was read before. If that is now a
/// whole snapshot, it takes the place of the last one, the buffer is emptied
/// and the pacing byte is due. If it stops too early, it is kept for the next
/// read. If it is no snapshot, it is dropped. The last snapshot stays in
/// both cases.
pub open spec fn after_data(c: ClientView, chunk: Seq<u8>) -> (ClientView, ClientAction) {
    let buffer = c.buffer + strip_nul(chunk);
    let receiving = true;
    match decoded(buffer) {
        Ok(snapshot) => (
            ClientView { state: LinkState::Idle, buffer: Seq::empty(), snapshot, receiving, ..c },
            ClientAction::Pace,
        ),
        Err(DecodeError::Incomplete) => (
            ClientView { state: LinkState::Idle, buffer, receiving, ..c },
            ClientAction::Nothing,
        ),
        Err(DecodeError::Malformed) => (
            ClientView { state: LinkState::Idle, buffer: Seq::empty(), receiving, ..c },
            ClientAction::Report(Notice::Malformed),
        ),
    }
}

/// A connection after one refresh cycle: a read is asked for where one is
/// due and the connection is idle.
pub open spec fn after_tick(c: ClientView) -> (ClientView, ClientAction) {
    let counted = ClientView { cycles: next_cycles(c.cycles, c.rate), ..c };
    if c.state == LinkState::Idle && poll_due(c.cycles, c.rate) {
        (ClientView { state: LinkState::Reading, ..counted }, ClientAction::Read)
    } else {
        (counted, ClientAction::Nothing)
    }
}

/// The connection after an event, and the action it calls for.
///
/// An event that does not fit the state changes nothing and calls for
/// nothing; only `Disconnect` without a stream is answered, with a notice.
/// A last session that could not be kept is told and changes nothing.
pub open spec fn client_step(c: ClientView, event: ClientEvent) -> (ClientView, ClientAction) {
    match event {
        ClientEvent::Connect(address) => (
            ClientView { state: LinkState::Connecting, address: address@, ..cut(c) },
            if has_stream(c.state) {
                ClientAction::Reopen
            } else {
                ClientAction::Open
            },
        ),
        ClientEvent::Opened => if c.state == LinkState::Connecting {
            (ClientView { state: LinkState::Idle, ..c }, ClientAction::Persist)
        } else {
            (c, ClientAction::Nothing)
        },
        ClientEvent::Refused => if c.state == LinkState::Connecting {
            (cut(c), ClientAction::Report(Notice::ConnectError))
        } else {
            (c, ClientAction::Nothing)
        },
        ClientEvent::PersistFailed => (c, ClientAction::Report(Notice::PersistenceError)),
        ClientEvent::Tick => after_tick(c),
        ClientEvent::Data(chunk) => if c.state != LinkState::Reading {
            (c, ClientAction::Nothing)
        } else if chunk@.len() == 0 {
            (cut(c), ClientAction::Drop)
        } else {
            after_data(c, chunk@)
        },
        ClientEvent::Quiet => if c.state == LinkState::Reading {
            (ClientView { state: LinkState::Idle, receiving: false, ..c }, ClientAction::Nothing)
        } else {
            (c, ClientAction::Nothing)
        },
        ClientEvent::Lost => if c.state == LinkState::Reading {
            (cut(c), ClientAction::Drop)
        } else {
            (c, ClientAction::Nothing)
        },
        ClientEvent::PacingFailed => if has_stream(c.state) {
            (cut(c), ClientAction::Drop)
        } else {
            (c, ClientAction::Nothing)
        },
        ClientEvent::Disconnect => if has_stream(c.state) {
            (cut(c), ClientAction::Shutdown)
        } else {
            (c, ClientAction::Report(Notice::NotConnected))
        },
    }
}

/// Whether an event gives a connection a new snapshot: a read of a reading
/// connection whose bytes complete one.
pub open spec fn brings_snapshot(c: ClientView, event: ClientEvent) -> bool {
    event matches ClientEvent::Data(chunk) && c.state == LinkState::Reading && chunk@.len() > 0
        && decoded(c.buffer + strip_nul(chunk@)) is Ok
}

/// The client's side of a connection.
#[derive(Debug)]
pub struct ClientConnection {
    state: LinkState,
    address: String,
    buffer: Vec<u8>,
    snapshot: ServerInfo,
    cycles: Cycles,
    rate: PollRate,
    receiving: bool,
}

impl ClientConnection {
    /// What the connection holds.
    pub closed spec fn view(&self) -> ClientView {
        ClientView {
            state: self.state,
            address: self.address@,
            buffer: self.buffer@,
            snapshot: self.snapshot@,
            cycles: self.cycles@,
            rate: self.rate@,
            receiving: self.receiving,
        }
    }

    /// The connection of a client that has just started: no stream, the
    /// local endpoint as address, nothing received.
    pub fn new() -> (r: ClientConnection)
        ensures
            r@ == fresh_client(),
            r@.well_formed(),
    {
        ClientConnection::with_address("localhost:8111".to_owned())
    }

    /// The connection of a client that has just started and was last
    /// connected to `address`.
    pub fn with_address(address: String) -> (r: ClientConnection)
        ensures
            r@ == (ClientView { address: address@, ..fresh_client() }),
            r@.well_formed(),
    {
        let rate = PollRate::default();
        let snapshot = ServerInfo::default();
        ClientConnection {
            state: LinkState::Disconnected,
            address,
            buffer: Vec::new(),
            snapshot,
            cycles: Cycles::new(),
            rate,
            receiving: false,
        }
    }

    /// Where the connection stands.
    pub fn state(&self) -> (r: LinkState)
        ensures
            r == self@.state,
    {
        self.state
    }

    /// Whether a stream is open.
    pub fn is_connected(&self) -> (r: bool)
        ensures
            r == has_stream(self@.state),
    {
        self.state == LinkState::Idle || self.state == LinkState::Reading
    }

    /// Whether the last read gave any bytes.
    pub fn is_receiving(&self) -> (r: bool)
        ensures
            r == self@.receiving,
    {
        self.receiving
    }

    /// The address of the last connection asked for.
    pub fn address(&self) -> (r: &String)
        ensures
            r@ == self@.address,
    {
        &self.address
    }

    /// The last snapshot that was received whole; the blank one before the
    /// first.
    pub fn snapshot(&self) -> (r: &ServerInfo)
        ensures
            r@ == self@.snapshot,
    {
        &self.snapshot
    }

    /// What was read of a document that is not whole yet.
    pub fn buffer(&self) -> (r: &Vec<u8>)
        ensures
            r@ == self@.buffer,
    {
        &self.buffer
    }

    /// The rate at which the connection reads.
    pub fn rate(&self) -> (r: PollRate)
        ensures
            r@ == self@.rate,
    {
        self.rate
    }

    /// Sets the rate at which the connection reads. Nothing else changes.
    pub fn set_rate(&mut self, rate: PollRate)
        ensures
            final(self)@ == (ClientView { rate: rate@, ..old(self)@ }),
            old(self)@.well_formed() ==> final(self)@.well_formed(),
    {
        // Asking the rate for its value tells the proof that it is within
        // its bounds.
        let _ = rate.milli();
        self.rate = rate;
    }

    /// The last session to keep for this connection: its address, and the
    /// size of the window as given.
    pub fn last_session(&self, width: String, height: String) -> (r: LastSession)
        ensures
            r@ == (LastSessionView { address: self@.address, width: width@, height: height@ }),
    {
        LastSession { address: self.address.clone(), screen_dimension: (width, height) }
    }

    fn drop_stream(&mut self)
        ensures
            final(self)@ == cut(old(self)@),
    {
        self.state = LinkState::Disconnected;
        self.buffer.clear();
        self.receiving = false;
    }

    fn take_data(&mut self, chunk: &Vec<u8>) -> (action: ClientAction)
        requires
            old(self)@.state == LinkState::Reading,
            chunk.len() > 0,
        ensures
            (final(self)@, action) == after_data(old(self)@, chunk@),
    {
        let ghost held = self.buffer@;
        let mut k: usize = 0;
        while k < chunk.len()
            invariant
                k <= chunk.len(),
                self.buffer@ == held + strip_nul(chunk@.take(k as int)),
                self.state == old(self).state,
                self.address == old(self).address,
                self.snapshot == old(self).snapshot,
                self.cycles == old(self).cycles,
                self.rate == old(self).rate,
            decreases chunk.len() - k,
        {
            let b = chunk[k];
            proof {
                let seen = chunk@.take(k as int);
                assert(chunk@.take(k + 1) =~= seen.push(b));
                seen.lemma_filter_push(b, |b: u8| b != 0);
            }
            if b != 0 {
                self.buffer.push(b);
            }
            k += 1;
        }
        assert(chunk@.take(chunk.len() as int) =~= chunk@);
        self.receiving = true;
        self.state = LinkState::Idle;
        match decode(self.buffer.as_slice()) {
            Ok(snapshot) => {
                self.snapshot = snapshot;
                self.buffer.clear();
                ClientAction::Pace
            },
            Err(DecodeError::Incomplete) => ClientAction::Nothing,
            Err(DecodeError::Malformed) => {
                self.buffer.clear();
                ClientAction::Report(Notice::Malformed)
            },
        }
    }

    /// Takes an event: moves to the next state and says what to do.
    pub fn handle(&mut self, event: ClientEvent) -> (action: ClientAction)
        ensures
            (final(self)@, action) == client_step(old(self)@, event),
            old(self)@.well_formed() ==> final(self)@.well_formed(),
    {
        proof {
            if self@.well_formed() {
                lemma_step_keeps_well_formed(self@, event);
            }
        }
        let streaming = self.is_connected();
        match event {
            ClientEvent::Connect(address) => {
                self.drop_stream();
                self.state = LinkState::Connecting;
                self.address = address;
                if streaming {
                    ClientAction::Reopen
                } else {
                    ClientAction::Open
                }
            },
            ClientEvent::Opened => {
                if self.state == LinkState::Connecting {
                    self.state = LinkState::Idle;
                    ClientAction::Persist
                } else {
                    ClientAction::Nothing
                }
            },
            ClientEvent::Refused => {
                if self.state == LinkState::Connecting {
                    self.drop_stream();
                    ClientAction::Report(Notice::ConnectError)
                } else {
                    ClientAction::Nothing
                }
            },
            ClientEvent::PersistFailed => ClientAction::Report(Notice::PersistenceError),
            ClientEvent::Tick => {
                let due = self.cycles.advance(self.rate);
                if self.state == LinkState::Idle && due {
                    self.state = LinkState::Reading;
                    ClientAction::Read
                } else {
                    ClientAction::Nothing
                }
            },
            ClientEvent::Data(chunk) => {
                if self.state != LinkState::Reading {
                    ClientAction::Nothing
                } else if chunk.len() == 0 {
                    self.drop_stream();
                    ClientAction::Drop
                } else {
                    self.take_data(&chunk)
                }
            },
            ClientEvent::Quiet => {
                if self.state == LinkState::Reading {
                    self.state = LinkState::Idle;
                    self.receiving = false;
                    ClientAction::Nothing
                } else {
                    ClientAction::Nothing
                }
            },
            ClientEvent::Lost => {
                if self.state == LinkState::Reading {
                    self.drop_stream();
                    ClientAction::Drop
                } else {
                    ClientAction::Nothing
                }
            },
            ClientEvent::PacingFailed => {
                if streaming {
                    self.drop_stream();
                    ClientAction::Drop
                } else {
                    ClientAction::Nothing
                }
            },
            ClientEvent::Disconnect => {
                if streaming {
                    self.drop_stream();
                    ClientAction::Shutdown
                } else {
                    ClientAction::Report(Notice::NotConnected)
                }
            },
        }
    }
}

/// Every event leaves a connection well formed.
pub proof fn lemma_step_keeps_well_formed(c: ClientView, event: ClientEvent)
    requires
        c.well_formed(),
    ensures
        client_step(c, event).0.well_formed(),
{
    match event {
        ClientEvent::Tick => {
            lemma_cycles_bounded(c.cycles, c.rate);
        },
        ClientEvent::Data(chunk) => {
            let kept = strip_nul(chunk@);
            let buffer = c.buffer + kept;
            assert forall|i: int| 0 <= i < buffer.len() implies buffer[i] != 0 by {
                if i >= c.buffer.len() {
                    chunk@.lemma_filter_pred(|b: u8| b != 0, i - c.buffer.len());
                }
            }
        },
        _ => {},
    }
}

/// The connection after a run of events.
pub open spec fn client_run(c: ClientView, events: Seq<ClientEvent>) -> ClientView
    decreases events.len(),
{
    if events.len() == 0 {
        c
    } else {
        client_step(client_run(c, events.drop_last()), events.last()).0
    }
}

/// Whether some event of a run gives the connection a new snapshot.
pub open spec fn run_brings_snapshot(c: ClientView, events: Seq<ClientEvent>) -> bool {
    exists|i: int|
        0 <= i < events.len() && brings_snapshot(client_run(c, events.take(i)), #[trigger] events[i])
}

/// Bytes that hold no padding are left as they are when padding is left
/// out.
pub proof fn lemma_strip_nul_keeps(bytes: Seq<u8>)
    requires
        without_nul(bytes),
    ensures
        strip_nul(bytes) == bytes,
    decreases bytes.len(),
{
    reveal(Seq::filter);
    if bytes.len() > 0 {
        lemma_strip_nul_keeps(bytes.drop_last());
        assert(bytes.drop_last().push(bytes.last()) =~= bytes);
    }
}

/// A reading connection with nothing buffered that reads a whole document,
/// as a server writes it, holds the snapshot of that document afterwards,
/// has nothing buffered, and is to answer with the pacing byte.
pub proof fn lemma_whole_document_is_taken(c: ClientView, document: Seq<u8>, s: ServerInfoView)
    requires
        c.buffer.len() == 0,
        without_nul(document),
        decoded(document) == Ok::<ServerInfoView, DecodeError>(s),
    ensures
        after_data(c, document).0.snapshot == s,
        after_data(c, document).0.buffer.len() == 0,
        after_data(c, document).1 == ClientAction::Pace,
{
    lemma_strip_nul_keeps(document);
    assert(c.buffer + document =~= document);
}

/// A document that comes in two reads gives what it gives in one.
///
/// Where the first read leaves an unfinished document, a second read of the
/// rest ends with the snapshot, buffer and state that one read of both
/// pieces ends with, and calls for the same action.
pub proof fn lemma_split_read(c: ClientView, first: Seq<u8>, second: Seq<u8>)
    requires
        c.state == LinkState::Reading,
        decoded(c.buffer + strip_nul(first)) == Err::<ServerInfoView, DecodeError>(
            DecodeError::Incomplete,
        ),
    ensures
        ({
            let half = after_data(c, first).0;
            let two = after_data(ClientView { state: LinkState::Reading, ..half }, second);
            let one = after_data(c, first + second);
            &&& half.snapshot == c.snapshot
            &&& two.0.snapshot == one.0.snapshot
            &&& two.0.buffer == one.0.buffer
            &&& two.0.state == one.0.state
            &&& two.1 == one.1
        }),
{
    Seq::filter_distributes_over_add(first, second, |b: u8| b != 0);
    assert((c.buffer + strip_nul(first)) + strip_nul(second) =~= c.buffer + strip_nul(first + second));
}

/// Only a read that completes a snapshot changes the snapshot held, and it
/// puts the snapshot read in its place. A failed connect, a lost stream, a
/// failed write, an unfinished or a malformed document all leave it as it
/// was.
pub proof fn lemma_snapshot_kept(c: ClientView, event: ClientEvent)
    ensures
        !brings_snapshot(c, event) ==> client_step(c, event).0.snapshot == c.snapshot,
        brings_snapshot(c, event) ==> decoded(c.buffer + strip_nul(event->Data_0@)) == Ok::<
            ServerInfoView,
            DecodeError,
        >(client_step(c, event).0.snapshot),
{
}

/// After the transport fails the connection has no stream, and holds the
/// snapshot it held.
pub proof fn lemma_transport_failure_keeps_snapshot(c: ClientView, event: ClientEvent)
    requires
        client_step(c, event).1 == ClientAction::Drop,
    ensures
        client_step(c, event).0.state == LinkState::Disconnected,
        client_step(c, event).0.snapshot == c.snapshot,
{
}

/// Through a run of events none of which completes a snapshot, the snapshot
/// held stays as it was.
pub proof fn lemma_snapshot_kept_through_run(c: ClientView, events: Seq<ClientEvent>)
    requires
        !run_brings_snapshot(c, events),
    ensures
        client_run(c, events).snapshot == c.snapshot,
    decreases events.len(),
{
    if events.len() > 0 {
        let before = events.drop_last();
        let last = events.len() - 1;
        assert forall|i: int| 0 <= i < before.len() implies !brings_snapshot(
            client_run(c, before.take(i)),
            #[trigger] before[i],
        ) by {
            assert(before.take(i) =~= events.take(i));
            assert(before[i] == events[i]);
        }
        lemma_snapshot_kept_through_run(c, before);
        assert(events.take(last) =~= before);
        assert(!brings_snapshot(client_run(c, events.take(last)), events[last]));
        lemma_snapshot_kept(client_run(c, before), events.last());
    }
}

} // verus!
