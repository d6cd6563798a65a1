//! One connection: what is read, what is answered, and when it ends.
//!
//! [`ConnectionHandler`] decides; its driver does the I/O. The driver hands in an event, performs
//! the action that comes back, and hands in what came of it as the next event, until the action
//! is to close.

use vstd::prelude::*;

use crate::error::{ConnectionError, ConnectionHandlerError, IoError, IoErrorKind};
use crate::frame::{FrameOutcome, FrameProgress, FrameReader, FrameStage};
use crate::message::{
    ClientMessage, ClientToServerMessage, FatalIoError, ServerMessage, ServerToClientMessage,
    StatusConnectionData, StatusConnectionOpen,
};

verus! {

/// How long a connection may be quiet before its status is reported, in nanoseconds.
pub const STATUS_INTERVAL: u64 = 5_000_000_000;

/// Where a connection stands.
#[derive(Clone, Copy, Debug, PartialEq, Eq, Structural)]
pub enum Phase {
    /// Nothing has happened yet.
    New,
    /// The first status message is being sent.
    Greeting,
    /// The writer is being started.
    StartingWriter,
    /// Bytes are being read.
    Reading,
    /// A payload is being decoded.
    Decoding,
    /// A message is being handed to a task of its own.
    Dispatching,
    /// A status message is being sent.
    Reporting,
    /// It is being checked whether the server shuts down.
    CheckingShutdown,
    /// The client is being told that its message makes no sense.
    Rejecting,
    /// The last message is being sent.
    Ending,
    /// The connection has ended.
    Closed,
}

/// What happened on a connection.
#[derive(Debug)]
pub enum ConnectionEvent {
    /// The connection was accepted.
    Opened,
    /// A message was handed to the writer, or could not be.
    Sent(Result<(), ConnectionHandlerError>),
    /// The writer runs.
    WriterStarted,
    /// The bytes asked for were read, or could not be.
    Read(Result<Vec<u8>, ConnectionHandlerError>),
    /// The deadline passed before the first byte of a message came. `now` is the time, and
    /// `load` how many transcriptions are waiting.
    TimedOut { now: u64, load: usize },
    /// A payload was decoded, or could not be.
    Decoded(Result<ClientToServerMessage, ConnectionHandlerError>),
    /// A message was handed to a task of its own.
    Dispatched,
    /// A message that was handed on has been answered, as far as it is answered at all. `close`
    /// says whether that ends the connection. Comes about while bytes are being read.
    Answered { close: bool },
    /// Whether the server shuts down.
    ShutdownChecked(bool),
}

/// What to do next on a connection.
#[derive(Debug)]
pub enum ConnectionAction {
    /// Hand a message to the writer.
    Send(ServerToClientMessage),
    /// Start the writer.
    StartWriter,
    /// Read exactly so many bytes, until the deadline if there is one. What has come of them
    /// already counts.
    Read { len: u64, deadline: Option<u64> },
    /// Decode a payload.
    Decode(Vec<u8>),
    /// Hand a message to a task of its own.
    Dispatch(ClientToServerMessage),
    /// Check whether the server shuts down.
    CheckShutdown,
    /// End the connection.
    Close,
}

/// The mathematical content of a [`ConnectionEvent`].
#[verifier::ext_equal]
pub enum Event {
    Opened,
    Sent { failure: Option<ConnectionError> },
    WriterStarted,
    Read { bytes: Seq<u8> },
    ReadFailed { error: ConnectionError },
    TimedOut { now: u64, load: usize },
    Decoded { message: ClientMessage },
    DecodeFailed { error: ConnectionError },
    Dispatched,
    Answered { close: bool },
    ShutdownChecked { shutdown: bool },
}

impl View for ConnectionEvent {
    type V = Event;

    open spec fn view(&self) -> Event {
        match self {
            ConnectionEvent::Opened => Event::Opened,
            ConnectionEvent::Sent(Ok(_)) => Event::Sent { failure: None },
            ConnectionEvent::Sent(Err(e)) => Event::Sent { failure: Some(e@) },
            ConnectionEvent::WriterStarted => Event::WriterStarted,
            ConnectionEvent::Read(Ok(bytes)) => Event::Read { bytes: bytes@ },
            ConnectionEvent::Read(Err(e)) => Event::ReadFailed { error: e@ },
            ConnectionEvent::TimedOut { now, load } => Event::TimedOut { now: *now, load: *load },
            ConnectionEvent::Decoded(Ok(message)) => Event::Decoded { message: message@ },
            ConnectionEvent::Decoded(Err(e)) => Event::DecodeFailed { error: e@ },
            ConnectionEvent::Dispatched => Event::Dispatched,
            ConnectionEvent::Answered { close } => Event::Answered { close: *close },
            ConnectionEvent::ShutdownChecked(shutdown) => Event::ShutdownChecked {
                shutdown: *shutdown,
            },
        }
    }
}

/// The mathematical content of a [`ConnectionAction`].
#[verifier::ext_equal]
pub enum Action {
    Send { message: ServerMessage },
    StartWriter,
    Read { len: nat, deadline: Option<int> },
    Decode { payload: Seq<u8> },
    Dispatch { request: ClientMessage },
    CheckShutdown,
    Close,
}

impl View for ConnectionAction {
    type V = Action;

    open spec fn view(&self) -> Action {
        match self {
            ConnectionAction::Send(message) => Action::Send { message: message@ },
            ConnectionAction::StartWriter => Action::StartWriter,
            ConnectionAction::Read { len, deadline } => Action::Read {
                len: *len as nat,
                deadline: match deadline {
                    Some(at) => Some(*at as int),
                    None => None,
                },
            },
            ConnectionAction::Decode(payload) => Action::Decode { payload: payload@ },
            ConnectionAction::Dispatch(message) => Action::Dispatch { request: message@ },
            ConnectionAction::CheckShutdown => Action::CheckShutdown,
            ConnectionAction::Close => Action::Close,
        }
    }
}

/// The mathematical content of a [`ConnectionHandler`].
#[verifier::ext_equal]
pub struct Connection {
    pub phase: Phase,
    /// How much of the next frame has been read.
    pub stage: FrameStage,
    pub magic: Seq<u8>,
    /// When the connection was accepted, or its last status report fell due.
    pub last_timeout: u64,
    pub max_utilization_bits: u64,
    pub can_overload: bool,
}

impl Connection {
    /// What holds of every connection: a frame is only ever partly read while reading, and the
    /// next deadline can be told.
    pub open spec fn valid(self) -> bool {
        &&& self.magic.len() == 4
        &&& self.phase != Phase::Reading ==> self.stage == FrameStage::Start
        &&& self.last_timeout + STATUS_INTERVAL <= u64::MAX
    }

    /// The events that can come about in a phase. Bytes come in the number that was asked for,
    /// except that the first byte of a message may be missing; a time past which no deadline
    /// can be told does not come about.
    pub open spec fn awaits(self, event: Event) -> bool {
        match event {
            Event::Opened => self.phase == Phase::New,
            Event::Sent { failure } => self.phase == Phase::Greeting || self.phase
                == Phase::Reporting || self.phase == Phase::Rejecting || self.phase
                == Phase::Ending,
            Event::WriterStarted => self.phase == Phase::StartingWriter,
            Event::Read { bytes } => self.phase == Phase::Reading && (self.stage
                == FrameStage::Start || bytes.len() == crate::frame::bytes_wanted(self.stage)),
            Event::ReadFailed { error } => self.phase == Phase::Reading,
            Event::TimedOut { now, load } => self.phase == Phase::Reading && self.stage
                == FrameStage::Start && now + STATUS_INTERVAL <= u64::MAX,
            Event::Decoded { message } => self.phase == Phase::Decoding,
            Event::DecodeFailed { error } => self.phase == Phase::Decoding,
            Event::Dispatched => self.phase == Phase::Dispatching,
            Event::Answered { close } => self.phase == Phase::Reading,
            Event::ShutdownChecked { shutdown } => self.phase == Phase::CheckingShutdown,
        }
    }

    /// The connection in another phase, between two messages.
    pub open spec fn enter(self, phase: Phase) -> Connection {
        Connection { phase, stage: FrameStage::Start, ..self }
    }

    /// The connection while it reads, with so much of a frame read.
    pub open spec fn reading(self, stage: FrameStage) -> Connection {
        Connection { phase: Phase::Reading, stage, ..self }
    }

    /// What to read at a stage: the bytes wanted there. Only the first byte of a message is read
    /// against a deadline.
    pub open spec fn read_at(self, stage: FrameStage) -> Action {
        Action::Read {
            len: crate::frame::bytes_wanted(stage),
            deadline: if stage == FrameStage::Start {
                Some(self.last_timeout + STATUS_INTERVAL)
            } else {
                None
            },
        }
    }

    /// Going on with the next message.
    pub open spec fn go_on(self) -> (Connection, Action) {
        (self.reading(FrameStage::Start), self.read_at(FrameStage::Start))
    }

    /// Ending.
    pub open spec fn end(self) -> (Connection, Action) {
        (self.enter(Phase::Closed), Action::Close)
    }

    /// Ending with a last message.
    pub open spec fn end_with(self, message: ServerMessage) -> (Connection, Action) {
        (self.enter(Phase::Ending), Action::Send { message })
    }

    /// What an error while a message is read leads to. The client is told of it: of a failed
    /// read, or that it sent something that makes no sense. Then the connection ends, unless it
    /// was a whole frame that made no sense.
    pub open spec fn fail(self, error: ConnectionError) -> (Connection, Action) {
        match error {
            ConnectionError::Io { kind, message } => self.end_with(
                ServerMessage::FatalIoError { error: error.text() },
            ),
            ConnectionError::InvalidMagicBytes { bytes } => self.end_with(
                ServerMessage::FatalUserError,
            ),
            ConnectionError::MsgPackDecode { message } => (
                self.enter(Phase::Rejecting),
                Action::Send { message: ServerMessage::FatalUserError },
            ),
            ConnectionError::MsgPackEncode { message } => self.go_on(),
        }
    }

    /// Where an event leads and what to do then.
    pub open spec fn step(self, event: Event) -> (Connection, Action) {
        match event {
            Event::Opened => (
                self.enter(Phase::Greeting),
                Action::Send {
                    message: ServerMessage::StatusConnectionOpen {
                        max_utilization_bits: self.max_utilization_bits,
                        can_overload: self.can_overload,
                    },
                },
            ),
            Event::Sent { failure } => if self.phase == Phase::Greeting {
                match failure {
                    None => (self.enter(Phase::StartingWriter), Action::StartWriter),
                    Some(e) => self.end_with(ServerMessage::FatalIoError { error: e.text() }),
                }
            } else if self.phase == Phase::Ending || (failure matches Some(e)
                && !e.recoverable()) {
                self.end()
            } else if self.phase == Phase::Reporting {
                (self.enter(Phase::CheckingShutdown), Action::CheckShutdown)
            } else {
                self.go_on()
            },
            Event::WriterStarted => self.go_on(),
            Event::Read { bytes } => if self.stage == FrameStage::Start && bytes.len() != 1 {
                self.fail(first_byte_missing())
            } else {
                let (stage, outcome) = crate::frame::frame_step(self.magic, self.stage, bytes);
                match outcome {
                    FrameOutcome::More => (self.reading(stage), self.read_at(stage)),
                    FrameOutcome::InvalidMagic(found) => self.fail(
                        ConnectionError::InvalidMagicBytes { bytes: found },
                    ),
                    FrameOutcome::Frame(payload) => (
                        self.enter(Phase::Decoding),
                        Action::Decode { payload },
                    ),
                }
            },
            Event::ReadFailed { error } => self.fail(error),
            Event::TimedOut { now, load } => (
                Connection { last_timeout: now, ..self.enter(Phase::Reporting) },
                Action::Send { message: ServerMessage::StatusConnectionData { utilization: load } },
            ),
            Event::Decoded { message } => if message is CloseConnection {
                self.end()
            } else {
                (self.enter(Phase::Dispatching), Action::Dispatch { request: message })
            },
            Event::DecodeFailed { error } => self.fail(error),
            Event::Dispatched => self.go_on(),
            Event::Answered { close } => if close {
                self.end()
            } else {
                (self, self.read_at(self.stage))
            },
            Event::ShutdownChecked { shutdown } => if shutdown {
                self.end_with(ServerMessage::ShuttingDown)
            } else {
                self.go_on()
            },
        }
    }
}

/// The error of a message whose first byte did not come although the read went through.
pub open spec fn first_byte_missing() -> ConnectionError {
    ConnectionError::Io {
        kind: IoErrorKind::UnexpectedEof,
        message: "failed to read magic bytes"@,
    }
}

/// The state of one connection.
#[derive(Debug)]
pub struct ConnectionHandler {
    phase: Phase,
    reader: FrameReader,
    last_timeout: u64,
    open: StatusConnectionOpen,
}

impl View for ConnectionHandler {
    type V = Connection;

    closed spec fn view(&self) -> Connection {
        Connection {
            phase: self.phase,
            stage: self.reader.stage,
            magic: self.reader.magic@,
            last_timeout: self.last_timeout,
            max_utilization_bits: self.open.max_utilization_bits,
            can_overload: self.open.can_overload,
        }
    }
}

impl ConnectionHandler {
    /// A connection that was accepted at `now`. `magic` starts every message on it, and `open` is
    /// what its client is told first.
    pub fn new(magic: [u8; 4], now: u64, open: StatusConnectionOpen) -> (handler: ConnectionHandler)
        requires
            now + STATUS_INTERVAL <= u64::MAX,
        ensures
            handler@ == (Connection {
                phase: Phase::New,
                stage: FrameStage::Start,
                magic: magic@,
                last_timeout: now,
                max_utilization_bits: open.max_utilization_bits,
                can_overload: open.can_overload,
            }),
            handler@.valid(),
    {
        ConnectionHandler {
            phase: Phase::New,
            reader: FrameReader::new(magic),
            last_timeout: now,
            open,
        }
    }

    /// Takes an event and says what to do next.
    pub fn handle(&mut self, event: ConnectionEvent) -> (action: ConnectionAction)
        requires
            old(self)@.valid(),
            old(self)@.awaits(event@),
        ensures
            final(self)@.valid(),
            (final(self)@, action@) == old(self)@.step(event@),
    {
        match event {
            ConnectionEvent::Opened => {
                self.phase = Phase::Greeting;
                ConnectionAction::Send(
                    ServerToClientMessage::StatusConnectionOpen(
                        StatusConnectionOpen {
                            max_utilization_bits: self.open.max_utilization_bits,
                            can_overload: self.open.can_overload,
                        },
                    ),
                )
            },
            ConnectionEvent::Sent(result) => self.after_send(result),
            ConnectionEvent::WriterStarted => self.go_on(),
            ConnectionEvent::Read(Ok(bytes)) => self.after_read(bytes),
            ConnectionEvent::Read(Err(e)) => self.fail(e),
            ConnectionEvent::TimedOut { now, load } => {
                self.last_timeout = now;
                self.phase = Phase::Reporting;
                ConnectionAction::Send(
                    ServerToClientMessage::StatusConnectionData(
                        StatusConnectionData { utilization: load },
                    ),
                )
            },
            ConnectionEvent::Decoded(Ok(message)) => match message {
                ClientToServerMessage::CloseConnection => self.end(),
                message => {
                    self.phase = Phase::Dispatching;
                    ConnectionAction::Dispatch(message)
                },
            },
            ConnectionEvent::Decoded(Err(e)) => self.fail(e),
            ConnectionEvent::Dispatched => self.go_on(),
            ConnectionEvent::Answered { close } => if close {
                self.end()
            } else {
                self.read_on()
            },
            ConnectionEvent::ShutdownChecked(shutdown) => if shutdown {
                self.end_with(ServerToClientMessage::ShuttingDown)
            } else {
                self.go_on()
            },
        }
    }

    /// What follows a message that was handed to the writer, or could not be.
    fn after_send(&mut self, result: Result<(), ConnectionHandlerError>) -> (action:
        ConnectionAction)
        requires
            old(self)@.valid(),
            old(self)@.awaits(ConnectionEvent::Sent(result)@),
        ensures
            final(self)@.valid(),
            (final(self)@, action@) == old(self)@.step(ConnectionEvent::Sent(result)@),
    {
        match self.phase {
            Phase::Greeting => match result {
                Ok(_) => {
                    self.phase = Phase::StartingWriter;
                    ConnectionAction::StartWriter
                },
                Err(e) => self.end_with(
                    ServerToClientMessage::FatalIoError(FatalIoError { error: e.text() }),
                ),
            },
            Phase::Ending => self.end(),
            phase => {
                let lost: bool = match result {
                    Ok(_) => false,
                    Err(e) => !e.is_recoverable(),
                };
                if lost {
                    self.end()
                } else if phase == Phase::Reporting {
                    self.phase = Phase::CheckingShutdown;
                    ConnectionAction::CheckShutdown
                } else {
                    self.go_on()
                }
            },
        }
    }

    /// What follows bytes that were read.
    fn after_read(&mut self, bytes: Vec<u8>) -> (action: ConnectionAction)
        requires
            old(self)@.valid(),
            old(self)@.awaits(Event::Read { bytes: bytes@ }),
        ensures
            final(self)@.valid(),
            (final(self)@, action@) == old(self)@.step(Event::Read { bytes: bytes@ }),
    {
        let at_start: bool = match self.reader.stage {
            FrameStage::Start => true,
            _ => false,
        };
        if at_start && bytes.len() != 1 {
            return self.fail(
                ConnectionHandlerError::Io(
                    IoError {
                        kind: IoErrorKind::UnexpectedEof,
                        message: "failed to read magic bytes".to_owned(),
                    },
                ),
            );
        }
        match self.reader.accept(bytes) {
            FrameProgress::More => self.read_on(),
            FrameProgress::InvalidMagic(found) => self.fail(
                ConnectionHandlerError::InvalidMagicBytes(found),
            ),
            FrameProgress::Frame(payload) => {
                self.phase = Phase::Decoding;
                ConnectionAction::Decode(payload)
            },
        }
    }

    /// Reads what the stage wants.
    fn read_on(&mut self) -> (action: ConnectionAction)
        requires
            old(self)@.magic.len() == 4,
            old(self)@.last_timeout + STATUS_INTERVAL <= u64::MAX,
        ensures
            final(self)@ == old(self)@.reading(old(self)@.stage),
            action@ == old(self)@.read_at(old(self)@.stage),
    {
        self.phase = Phase::Reading;
        let deadline: Option<u64> = match self.reader.stage {
            FrameStage::Start => Some(self.last_timeout + STATUS_INTERVAL),
            _ => None,
        };
        ConnectionAction::Read { len: self.reader.wanted(), deadline }
    }

    /// Goes on with the next message.
    fn go_on(&mut self) -> (action: ConnectionAction)
        requires
            old(self)@.magic.len() == 4,
            old(self)@.last_timeout + STATUS_INTERVAL <= u64::MAX,
        ensures
            (final(self)@, action@) == old(self)@.go_on(),
    {
        self.reader.stage = FrameStage::Start;
        self.read_on()
    }

    /// Ends the connection.
    fn end(&mut self) -> (action: ConnectionAction)
        ensures
            (final(self)@, action@) == old(self)@.end(),
    {
        self.reader.stage = FrameStage::Start;
        self.phase = Phase::Closed;
        ConnectionAction::Close
    }

    /// Ends the connection with a last message.
    fn end_with(&mut self, message: ServerToClientMessage) -> (action: ConnectionAction)
        ensures
            (final(self)@, action@) == old(self)@.end_with(message@),
    {
        self.reader.stage = FrameStage::Start;
        self.phase = Phase::Ending;
        ConnectionAction::Send(message)
    }

    /// Tells the client of an error while a message was read.
    fn fail(&mut self, e: ConnectionHandlerError) -> (action: ConnectionAction)
        requires
            old(self)@.magic.len() == 4,
            old(self)@.last_timeout + STATUS_INTERVAL <= u64::MAX,
        ensures
            (final(self)@, action@) == old(self)@.fail(e@),
    {
        match e {
            ConnectionHandlerError::Io(_) => self.end_with(
                ServerToClientMessage::FatalIoError(FatalIoError { error: e.text() }),
            ),
            ConnectionHandlerError::InvalidMagicBytes(_) => self.end_with(
                ServerToClientMessage::FatalUserError,
            ),
            ConnectionHandlerError::MsgPackDecode(_) => {
                self.reader.stage = FrameStage::Start;
                self.phase = Phase::Rejecting;
                ConnectionAction::Send(ServerToClientMessage::FatalUserError)
            },
            ConnectionHandlerError::MsgPackEncode(_) => self.go_on(),
        }
    }
}

/// The first thing on a connection is the message that says what the server offers.
pub proof fn law_client_is_greeted_first(c: Connection, event: Event)
    requires
        c.valid(),
        c.phase == Phase::New,
        c.awaits(event),
    ensures
        c.step(event) == (
            c.enter(Phase::Greeting),
            Action::Send {
                message: ServerMessage::StatusConnectionOpen {
                    max_utilization_bits: c.max_utilization_bits,
                    can_overload: c.can_overload,
                },
            },
        ),
{
}

/// A connection on which the first message cannot be sent reports the error once, and ends
/// whether or not the report could be sent.
pub proof fn law_failed_greeting_ends_the_connection(
    c: Connection,
    error: ConnectionError,
    report_failure: Option<ConnectionError>,
)
    requires
        c.valid(),
        c.phase == Phase::Greeting,
    ensures
        ({
            let (reporting, report) = c.step(Event::Sent { failure: Some(error) });
            &&& report == Action::Send {
                message: ServerMessage::FatalIoError { error: error.text() },
            }
            &&& reporting.awaits(Event::Sent { failure: report_failure })
            &&& reporting.step(Event::Sent { failure: report_failure }) == reporting.end()
        }),
{
}

impl Connection {
    /// Whether the connection has ended, or does so once its last message is sent.
    pub open spec fn ending(self) -> bool {
        self.phase == Phase::Ending || self.phase == Phase::Closed
    }
}

/// Once its first message is sent, a connection ends exactly on these: an error that it cannot
/// recover from, a request to close, an answer that ends it, and a server that shuts down.
pub proof fn law_what_ends_a_connection(c: Connection, event: Event)
    requires
        c.valid(),
        c.awaits(event),
        c.phase != Phase::New,
        c.phase != Phase::Greeting,
    ensures
        c.step(event).0.ending() <==> match event {
            Event::Sent { failure } => c.phase == Phase::Ending || (failure matches Some(e)
                && !e.recoverable()),
            Event::Read { bytes } => match c.stage {
                FrameStage::Start => bytes.len() != 1,
                FrameStage::Magic { first } => seq![first] + bytes != c.magic,
                _ => false,
            },
            Event::ReadFailed { error } => !error.recoverable(),
            Event::DecodeFailed { error } => !error.recoverable(),
            Event::Decoded { message } => message is CloseConnection,
            Event::Answered { close } => close,
            Event::ShutdownChecked { shutdown } => shutdown,
            _ => false,
        },
{
}

/// After its last message a connection closes at once, whether or not the message could be sent:
/// it awaits nothing else, and reads nothing more.
pub proof fn law_nothing_follows_the_last_message(c: Connection, event: Event)
    requires
        c.valid(),
        c.phase == Phase::Ending,
        c.awaits(event),
    ensures
        event is Sent,
        c.step(event) == c.end(),
{
}

/// A failed read is reported to the client by its text, and ends the connection.
pub proof fn law_failed_read_is_reported(
    c: Connection,
    kind: IoErrorKind,
    message: Seq<char>,
    sent: Option<ConnectionError>,
)
    requires
        c.valid(),
        c.phase == Phase::Reading,
    ensures
        ({
            let error = ConnectionError::Io { kind, message };
            let (ending, report) = c.step(Event::ReadFailed { error });
            &&& report == Action::Send {
                message: ServerMessage::FatalIoError { error: error.text() },
            }
            &&& ending.awaits(Event::Sent { failure: sent })
            &&& ending.step(Event::Sent { failure: sent }) == c.end()
        }),
{
}

/// A client that sends anything but the magic bytes is told so, and the connection ends.
pub proof fn law_foreign_bytes_are_reported(
    c: Connection,
    bytes: Seq<u8>,
    sent: Option<ConnectionError>,
)
    requires
        c.valid(),
        c.awaits(Event::Read { bytes }),
        c.stage matches FrameStage::Magic { first } && seq![first] + bytes != c.magic,
    ensures
        ({
            let (ending, report) = c.step(Event::Read { bytes });
            &&& report == Action::Send { message: ServerMessage::FatalUserError }
            &&& ending.awaits(Event::Sent { failure: sent })
            &&& ending.step(Event::Sent { failure: sent }) == c.end()
        }),
{
}

/// A server that shuts down says so on every quiet connection, and closes it.
pub proof fn law_shutdown_is_announced(c: Connection, sent: Option<ConnectionError>)
    requires
        c.valid(),
        c.phase == Phase::CheckingShutdown,
    ensures
        ({
            let (ending, report) = c.step(Event::ShutdownChecked { shutdown: true });
            &&& report == Action::Send { message: ServerMessage::ShuttingDown }
            &&& ending.awaits(Event::Sent { failure: sent })
            &&& ending.step(Event::Sent { failure: sent }) == c.end()
        }),
{
}

/// An answer that ends the connection does so at once, and any other leaves the connection
/// reading what it read.
pub proof fn law_answer_decides_whether_reading_goes_on(c: Connection, close: bool)
    requires
        c.valid(),
        c.phase == Phase::Reading,
    ensures
        c.awaits(Event::Answered { close }),
        c.step(Event::Answered { close }) == if close {
            c.end()
        } else {
            (c, c.read_at(c.stage))
        },
{
}

/// The end is final: a connection is closed exactly when it was told to close, and then awaits
/// nothing.
pub proof fn law_the_end_is_final(c: Connection, event: Event, later: Event)
    requires
        c.valid(),
        c.awaits(event),
    ensures
        c.step(event).1 is Close <==> c.step(event).0.phase == Phase::Closed,
        c.step(event).1 is Close ==> !c.step(event).0.awaits(later),
{
}

/// A request to close ends the connection at once.
pub proof fn law_close_request_is_obeyed(c: Connection)
    requires
        c.valid(),
        c.phase == Phase::Decoding,
    ensures
        c.step(Event::Decoded { message: ClientMessage::CloseConnection }) == c.end(),
{
}

/// A client whose message cannot be decoded is told so, and the message is passed over: the
/// connection goes on with the next one.
pub proof fn law_undecodable_message_is_passed_over(c: Connection, text: Seq<char>)
    requires
        c.valid(),
        c.phase == Phase::Decoding,
    ensures
        ({
            let (rejecting, report) = c.step(
                Event::DecodeFailed { error: ConnectionError::MsgPackDecode { message: text } },
            );
            &&& report == Action::Send { message: ServerMessage::FatalUserError }
            &&& rejecting.awaits(Event::Sent { failure: None })
            &&& rejecting.step(Event::Sent { failure: None }) == c.go_on()
        }),
{
}

/// Every other message that is decoded is handed on as it is, and the next one is read.
pub proof fn law_decoded_message_is_dispatched(c: Connection, message: ClientMessage)
    requires
        c.valid(),
        c.phase == Phase::Decoding,
        !(message is CloseConnection),
    ensures
        ({
            let (dispatching, action) = c.step(Event::Decoded { message });
            &&& action == Action::Dispatch { request: message }
            &&& dispatching.awaits(Event::Dispatched)
            &&& dispatching.step(Event::Dispatched) == c.go_on()
        }),
{
}

/// A connection that stays quiet reports the load when the deadline passes, then checks for a
/// shutdown, and unless there is one waits for the next message until one whole interval after
/// the report fell due.
pub proof fn law_quiet_connection_reports_its_load(c: Connection, now: u64, load: usize)
    requires
        c.valid(),
        c.awaits(Event::TimedOut { now, load }),
    ensures
        ({
            let (reporting, report) = c.step(Event::TimedOut { now, load });
            let (checking, check) = reporting.step(Event::Sent { failure: None });
            let (waiting, wait) = checking.step(Event::ShutdownChecked { shutdown: false });
            &&& report == Action::Send {
                message: ServerMessage::StatusConnectionData { utilization: load },
            }
            &&& reporting.awaits(Event::Sent { failure: None })
            &&& check == Action::CheckShutdown
            &&& checking.awaits(Event::ShutdownChecked { shutdown: false })
            &&& wait == Action::Read { len: 1, deadline: Some(now + STATUS_INTERVAL) }
            &&& waiting == (Connection { last_timeout: now, ..c })
        }),
{
}

/// Nothing but a passed deadline moves the deadline.
pub proof fn law_only_a_timeout_moves_the_deadline(c: Connection, event: Event)
    requires
        c.valid(),
        c.awaits(event),
        !(event is TimedOut),
    ensures
        c.step(event).0.last_timeout == c.last_timeout,
{
}

/// A connection that is sent the bytes of a frame, in the pieces that it asks for, asks for its
/// payload to be decoded, and meanwhile for nothing but the frame's own bytes.
pub proof fn law_sent_frame_is_decoded(c: Connection, payload: Seq<u8>)
    requires
        c.valid(),
        c.phase == Phase::Reading,
        c.stage == FrameStage::Start,
        payload.len() <= u64::MAX,
    ensures
        ({
            let sent = crate::frame::frame(c.magic, payload);
            let (c1, a1) = c.step(Event::Read { bytes: sent.subrange(0, 1) });
            let (c2, a2) = c1.step(Event::Read { bytes: sent.subrange(1, 4) });
            let (c3, a3) = c2.step(Event::Read { bytes: sent.subrange(4, 12) });
            let (c4, a4) = c3.step(Event::Read { bytes: sent.skip(12) });
            &&& a1 == Action::Read { len: 3, deadline: None }
            &&& a2 == Action::Read { len: 8, deadline: None }
            &&& a3 == Action::Read { len: payload.len(), deadline: None }
            &&& a4 == Action::Decode { payload }
            &&& c4 == c.enter(Phase::Decoding)
        }),
{
    let sent = crate::frame::frame(c.magic, payload);
    let length = crate::frame::be_bytes(payload.len(), 8);
    crate::frame::lemma_eight_bytes();
    crate::frame::law_be_value_of_be_bytes(payload.len(), 8);
    assert(seq![sent.subrange(0, 1)[0]] + sent.subrange(1, 4) =~= c.magic);
    assert(sent.subrange(4, 12) =~= length);
    assert(sent.skip(12) =~= payload);
}

/// Every event that a connection awaits leaves it valid.
pub proof fn law_steps_keep_a_connection_valid(c: Connection, event: Event)
    requires
        c.valid(),
        c.awaits(event),
    ensures
        c.step(event).0.valid(),
{
}

impl Connection {
    /// The connection after several events.
    pub open spec fn after(self, events: Seq<Event>) -> Connection
        decreases events.len(),
    {
        if events.len() == 0 {
            self
        } else {
            self.after(events.drop_last()).step(events.last()).0
        }
    }

    /// Whether no deadline passes before its time: each comes at least one interval after the
    /// one before, or after the connection was accepted.
    pub open spec fn timely(self, events: Seq<Event>) -> bool {
        forall|i: int|
            0 <= i < events.len() ==> (#[trigger] events[i] matches Event::TimedOut { now, load }
                ==> now >= self.after(events.take(i)).last_timeout + STATUS_INTERVAL)
    }

    /// The messages that are handed on in the course of several events.
    pub open spec fn dispatched(self, events: Seq<Event>) -> Seq<ClientMessage>
        decreases events.len(),
    {
        if events.len() == 0 {
            Seq::empty()
        } else {
            let before = self.dispatched(events.drop_last());
            match self.after(events.drop_last()).step(events.last()).1 {
                Action::Dispatch { request } => before.push(request),
                _ => before,
            }
        }
    }
}

/// The messages that are decoded in the course of several events, without requests to close.
pub open spec fn decoded(events: Seq<Event>) -> Seq<ClientMessage>
    decreases events.len(),
{
    if events.len() == 0 {
        Seq::empty()
    } else {
        let before = decoded(events.drop_last());
        match events.last() {
            Event::Decoded { message } => if message is CloseConnection {
                before
            } else {
                before.push(message)
            },
            _ => before,
        }
    }
}

/// Every message that is decoded is handed on, once and in order, and nothing else is.
pub proof fn law_messages_are_dispatched_in_order(c: Connection, events: Seq<Event>)
    ensures
        c.dispatched(events) == decoded(events),
    decreases events.len(),
{
    if events.len() > 0 {
        law_messages_are_dispatched_in_order(c, events.drop_last());
    }
}

/// The time of the last deadline after an event: the event's own if a deadline passed, else the
/// same as before.
proof fn lemma_last_timeout_after_step(c: Connection, event: Event)
    ensures
        c.step(event).0.last_timeout == match event {
            Event::TimedOut { now, load } => now,
            _ => c.last_timeout,
        },
{
    match event {
        Event::Read { bytes } => {
            let (stage, outcome) = crate::frame::frame_step(c.magic, c.stage, bytes);
            match outcome {
                FrameOutcome::More => {},
                FrameOutcome::InvalidMagic(found) => {},
                FrameOutcome::Frame(payload) => {},
            }
        },
        _ => {},
    }
}

/// While deadlines pass in time, the time of the last one never goes back.
#[verifier::spinoff_prover]
proof fn lemma_last_timeout_grows(c: Connection, events: Seq<Event>, i: int, j: int)
    requires
        0 <= i <= j <= events.len(),
        c.timely(events),
    ensures
        c.after(events.take(i)).last_timeout <= c.after(events.take(j)).last_timeout,
    decreases j - i,
{
    if i < j {
        lemma_last_timeout_grows(c, events, i, j - 1);
        let before = c.after(events.take(j - 1));
        let event = events[j - 1];
        assert(events.take(j).drop_last() =~= events.take(j - 1));
        assert(events.take(j).last() == event);
        assert(c.after(events.take(j)) == before.step(event).0);
        lemma_last_timeout_after_step(before, event);
        if let Event::TimedOut { now, load } = event {
            assert(now >= before.last_timeout + STATUS_INTERVAL);
        }
    }
}

/// Status reports are at least one whole interval apart, whatever else happens between them.
pub proof fn law_reports_are_an_interval_apart(
    c: Connection,
    events: Seq<Event>,
    i: int,
    j: int,
)
    requires
        c.timely(events),
        0 <= i < j < events.len(),
        events[i] is TimedOut,
        events[j] is TimedOut,
    ensures
        events[j]->now >= events[i]->now + STATUS_INTERVAL,
{
    lemma_last_timeout_grows(c, events, i + 1, j);
    let before = c.after(events.take(i));
    assert(events.take(i + 1).drop_last() =~= events.take(i));
    assert(events.take(i + 1).last() == events[i]);
    assert(c.after(events.take(i + 1)) == before.step(events[i]).0);
    lemma_last_timeout_after_step(before, events[i]);
}

/// Once the first message is sent, the writer is started, whatever the server offers; and once the
/// writer runs, the first byte of a message is awaited until five seconds after the connection was
/// accepted.
pub proof fn law_greeted_connection_starts_its_writer(c: Connection)
    requires
        c.phase == Phase::Greeting,
    ensures
        ({
            let (starting, start) = c.step(Event::Sent { failure: None });
            let (reading, read) = starting.step(Event::WriterStarted);
            &&& c.awaits(Event::Sent { failure: None })
            &&& start is StartWriter
            &&& starting == (Connection {
                phase: Phase::StartingWriter,
                stage: FrameStage::Start,
                ..c
            })
            &&& starting.awaits(Event::WriterStarted)
            &&& read == (Action::Read { len: 1, deadline: Some(c.last_timeout + 5_000_000_000) })
            &&& reading == (Connection { phase: Phase::Reading, stage: FrameStage::Start, ..c })
        }),
{
}

/// The first message is the one that says what the server offers, as it is set; if it cannot be
/// sent, the last message is the text of that failure.
pub proof fn law_what_the_greeting_says(c: Connection, event: Event, e: ConnectionError)
    ensures
        c.phase == Phase::New && c.awaits(event) ==> c.step(event) == (
            Connection { phase: Phase::Greeting, stage: FrameStage::Start, ..c },
            Action::Send {
                message: ServerMessage::StatusConnectionOpen {
                    max_utilization_bits: c.max_utilization_bits,
                    can_overload: c.can_overload,
                },
            },
        ),
        c.phase == Phase::Greeting ==> c.step(Event::Sent { failure: Some(e) }) == (
            Connection { phase: Phase::Ending, stage: FrameStage::Start, ..c },
            Action::Send { message: ServerMessage::FatalIoError { error: e.text() } },
        ),
{
}

/// What follows a message in the midst of a connection. The last message is followed by the end.
/// Any other whose sending finds the connection broken ends it as well; else the check for a
/// shutdown follows a status report, and the next message one that the client was told about.
pub proof fn law_what_follows_a_sent_message(c: Connection, failure: Option<ConnectionError>)
    requires
        c.phase == Phase::Reporting || c.phase == Phase::Rejecting || c.phase == Phase::Ending,
    ensures
        c.step(Event::Sent { failure }) == if c.phase == Phase::Ending || (failure matches Some(e)
            && (e is Io || e is InvalidMagicBytes)) {
            (
                Connection { phase: Phase::Closed, stage: FrameStage::Start, ..c },
                Action::Close,
            )
        } else if c.phase == Phase::Reporting {
            (
                Connection { phase: Phase::CheckingShutdown, stage: FrameStage::Start, ..c },
                Action::CheckShutdown,
            )
        } else {
            (
                Connection { phase: Phase::Reading, stage: FrameStage::Start, ..c },
                Action::Read { len: 1, deadline: Some(c.last_timeout + 5_000_000_000) },
            )
        },
{
}

/// What the bytes of a message lead to, piece by piece: the first byte to the other three magic
/// bytes, those to the length if they are right, the length to a payload of that many bytes, and
/// the payload to its decoding. Only the first byte has a deadline. A first byte that is missing
/// and magic bytes that are wrong are told to the client, and end the connection.
pub proof fn law_what_the_bytes_of_a_message_lead_to(c: Connection, bytes: Seq<u8>)
    requires
        c.phase == Phase::Reading,
    ensures
        c.stage is Start && bytes.len() == 1 ==> c.step(Event::Read { bytes }) == (
            Connection {
                phase: Phase::Reading,
                stage: FrameStage::Magic { first: bytes[0] },
                ..c
            },
            Action::Read { len: 3, deadline: None },
        ),
        c.stage is Start && bytes.len() != 1 ==> c.step(Event::Read { bytes }) == (
            Connection { phase: Phase::Ending, stage: FrameStage::Start, ..c },
            Action::Send {
                message: ServerMessage::FatalIoError {
                    error: "IO error: "@ + "failed to read magic bytes"@,
                },
            },
        ),
        c.stage matches FrameStage::Magic { first } ==> c.step(Event::Read { bytes })
            == if seq![first] + bytes == c.magic {
            (
                Connection { phase: Phase::Reading, stage: FrameStage::Length, ..c },
                Action::Read { len: 8, deadline: None },
            )
        } else {
            (
                Connection { phase: Phase::Ending, stage: FrameStage::Start, ..c },
                Action::Send { message: ServerMessage::FatalUserError },
            )
        },
        c.stage is Length && bytes.len() == 8 ==> {
            let len = crate::frame::be_value(bytes);
            &&& len <= u64::MAX
            &&& c.step(Event::Read { bytes }) == (
                Connection {
                    phase: Phase::Reading,
                    stage: FrameStage::Payload { len: len as u64 },
                    ..c
                },
                Action::Read { len, deadline: None },
            )
        },
        c.stage is Payload ==> c.step(Event::Read { bytes }) == (
            Connection { phase: Phase::Decoding, stage: FrameStage::Start, ..c },
            Action::Decode { payload: bytes },
        ),
{
    if bytes.len() == 8 {
        crate::frame::lemma_eight_bytes();
        crate::frame::law_be_bytes_of_be_value(bytes);
    }
}

/// What an error leads to while a message is read or decoded: a failed read is told by its text
/// and ends the connection, foreign bytes are told and end it, and a message that makes no sense
/// is told and nothing more. A message that could not be encoded is no matter of reading.
pub proof fn law_what_an_error_leads_to(
    c: Connection,
    kind: IoErrorKind,
    message: Seq<char>,
    bytes: Seq<u8>,
)
    ensures
        ({
            let io = ConnectionError::Io { kind, message };
            let foreign = ConnectionError::InvalidMagicBytes { bytes };
            let senseless = ConnectionError::MsgPackDecode { message };
            let ending = Connection { phase: Phase::Ending, stage: FrameStage::Start, ..c };
            let rejecting = Connection { phase: Phase::Rejecting, stage: FrameStage::Start, ..c };
            let reported = Action::Send {
                message: ServerMessage::FatalIoError { error: "IO error: "@ + message },
            };
            let rejected = Action::Send { message: ServerMessage::FatalUserError };
            &&& c.step(Event::ReadFailed { error: io }) == (ending, reported)
            &&& c.step(Event::DecodeFailed { error: io }) == (ending, reported)
            &&& c.step(Event::ReadFailed { error: foreign }) == (ending, rejected)
            &&& c.step(Event::DecodeFailed { error: foreign }) == (ending, rejected)
            &&& c.step(Event::ReadFailed { error: senseless }) == (rejecting, rejected)
            &&& c.step(Event::DecodeFailed { error: senseless }) == (rejecting, rejected)
            &&& c.step(
                Event::ReadFailed { error: ConnectionError::MsgPackEncode { message } },
            ) == (
                Connection { phase: Phase::Reading, stage: FrameStage::Start, ..c },
                Action::Read { len: 1, deadline: Some(c.last_timeout + 5_000_000_000) },
            )
        }),
{
}

/// What the other events lead to: a passed deadline to a status report with the very load that
/// was found, and to a deadline five seconds later; a decoded message to its dispatch as it is,
/// unless it asks to close; an answer that closes to the end, and any other to the read that was
/// under way; a shutdown to its announcement, and none to the next message.
pub proof fn law_what_the_other_events_lead_to(
    c: Connection,
    now: u64,
    load: usize,
    message: ClientMessage,
)
    ensures
        ({
            let closed = (
                Connection { phase: Phase::Closed, stage: FrameStage::Start, ..c },
                Action::Close,
            );
            let next = (
                Connection { phase: Phase::Reading, stage: FrameStage::Start, ..c },
                Action::Read { len: 1, deadline: Some(c.last_timeout + 5_000_000_000) },
            );
            &&& c.step(Event::TimedOut { now, load }) == (
                Connection {
                    phase: Phase::Reporting,
                    stage: FrameStage::Start,
                    last_timeout: now,
                    ..c
                },
                Action::Send {
                    message: ServerMessage::StatusConnectionData { utilization: load },
                },
            )
            &&& c.step(Event::Decoded { message }) == if message is CloseConnection {
                closed
            } else {
                (
                    Connection { phase: Phase::Dispatching, stage: FrameStage::Start, ..c },
                    Action::Dispatch { request: message },
                )
            }
            &&& c.step(Event::WriterStarted) == next
            &&& c.step(Event::Dispatched) == next
            &&& c.step(Event::Answered { close: true }) == closed
            &&& c.step(Event::Answered { close: false }) == (
                c,
                Action::Read {
                    len: match c.stage {
                        FrameStage::Start => 1,
                        FrameStage::Magic { first } => 3,
                        FrameStage::Length => 8,
                        FrameStage::Payload { len } => len as nat,
                    },
                    deadline: if c.stage is Start {
                        Some(c.last_timeout + 5_000_000_000)
                    } else {
                        None
                    },
                },
            )
            &&& c.step(Event::ShutdownChecked { shutdown: true }) == (
                Connection { phase: Phase::Ending, stage: FrameStage::Start, ..c },
                Action::Send { message: ServerMessage::ShuttingDown },
            )
            &&& c.step(Event::ShutdownChecked { shutdown: false }) == next
        }),
{
}

/// Which events can come about: those that answer what the connection is doing, whatever the
/// server offers and whatever they carry. Only clocks at the end of their range are left out.
pub proof fn law_every_outcome_is_awaited(c: Connection, event: Event)
    ensures
        c.awaits(event) <==> match event {
            Event::Opened => c.phase is New,
            Event::Sent { failure } => c.phase is Greeting || c.phase is Reporting
                || c.phase is Rejecting || c.phase is Ending,
            Event::WriterStarted => c.phase is StartingWriter,
            Event::Read { bytes } => c.phase is Reading && match c.stage {
                FrameStage::Start => true,
                FrameStage::Magic { first } => bytes.len() == 3,
                FrameStage::Length => bytes.len() == 8,
                FrameStage::Payload { len } => bytes.len() == len,
            },
            Event::ReadFailed { error } => c.phase is Reading,
            Event::TimedOut { now, load } => c.phase is Reading && c.stage is Start && now
                <= u64::MAX - 5_000_000_000,
            Event::Decoded { message } => c.phase is Decoding,
            Event::DecodeFailed { error } => c.phase is Decoding,
            Event::Dispatched => c.phase is Dispatching,
            Event::Answered { close } => c.phase is Reading,
            Event::ShutdownChecked { shutdown } => c.phase is CheckingShutdown,
        },
{
}

/// The mathematical content of an event is all that it carries.
pub proof fn law_nothing_of_an_event_is_lost(event: ConnectionEvent)
    ensures
        match event {
            ConnectionEvent::Opened => event@ is Opened,
            ConnectionEvent::Sent(Ok(_)) => event@ == (Event::Sent { failure: None }),
            ConnectionEvent::Sent(Err(e)) => event@ == (Event::Sent { failure: Some(e@) }),
            ConnectionEvent::WriterStarted => event@ is WriterStarted,
            ConnectionEvent::Read(Ok(bytes)) => event@ == (Event::Read { bytes: bytes@ }),
            ConnectionEvent::Read(Err(e)) => event@ == (Event::ReadFailed { error: e@ }),
            ConnectionEvent::TimedOut { now, load } => event@ == (Event::TimedOut { now, load }),
            ConnectionEvent::Decoded(Ok(message)) => event@ == (Event::Decoded {
                message: message@,
            }),
            ConnectionEvent::Decoded(Err(e)) => event@ == (Event::DecodeFailed { error: e@ }),
            ConnectionEvent::Dispatched => event@ is Dispatched,
            ConnectionEvent::Answered { close } => event@ == (Event::Answered { close }),
            ConnectionEvent::ShutdownChecked(shutdown) => event@ == (Event::ShutdownChecked {
                shutdown,
            }),
        },
{
}

/// The mathematical content of an action is all that it carries.
pub proof fn law_nothing_of_an_action_is_lost(action: ConnectionAction)
    ensures
        match action {
            ConnectionAction::Send(message) => action@ == (Action::Send { message: message@ }),
            ConnectionAction::StartWriter => action@ is StartWriter,
            ConnectionAction::Read { len, deadline: Some(at) } => action@ == (Action::Read {
                len: len as nat,
                deadline: Some(at as int),
            }),
            ConnectionAction::Read { len, deadline: None } => action@ == (Action::Read {
                len: len as nat,
                deadline: None,
            }),
            ConnectionAction::Decode(payload) => action@ == (Action::Decode {
                payload: payload@,
            }),
            ConnectionAction::Dispatch(message) => action@ == (Action::Dispatch {
                request: message@,
            }),
            ConnectionAction::CheckShutdown => action@ is CheckShutdown,
            ConnectionAction::Close => action@ is Close,
        },
{
}

impl Connection {
    /// Whether several events can come about, one after the other.
    pub open spec fn allows(self, events: Seq<Event>) -> bool
        decreases events.len(),
    {
        events.len() > 0 ==> {
            &&& self.allows(events.drop_last())
            &&& self.after(events.drop_last()).awaits(events.last())
        }
    }

    /// What is done about several events, one action for each.
    pub open spec fn actions(self, events: Seq<Event>) -> Seq<Action>
        decreases events.len(),
    {
        if events.len() == 0 {
            Seq::empty()
        } else {
            self.actions(events.drop_last()).push(
                self.after(events.drop_last()).step(events.last()).1,
            )
        }
    }
}

/// How often the writer is started by several actions.
pub open spec fn writer_starts(actions: Seq<Action>) -> nat
    decreases actions.len(),
{
    if actions.len() == 0 {
        0
    } else if actions.last() is StartWriter {
        writer_starts(actions.drop_last()) + 1
    } else {
        writer_starts(actions.drop_last())
    }
}

/// How the writer and the phase of a connection go together.
proof fn lemma_writer_runs_by_phase(c: Connection, events: Seq<Event>)
    requires
        c.phase == Phase::New,
        c.allows(events),
    ensures
        c.actions(events).len() == events.len(),
        ({
            let phase = c.after(events).phase;
            let starts = writer_starts(c.actions(events));
            &&& starts <= 1
            &&& phase is New || phase is Greeting ==> starts == 0
            &&& !(phase is New || phase is Greeting || phase is Ending || phase is Closed)
                ==> starts == 1
            &&& starts == 0 ==> forall|i: int|
                0 <= i < events.len() ==> !((#[trigger] c.actions(events)[i]) is Read)
        }),
    decreases events.len(),
{
    if events.len() > 0 {
        let before = events.drop_last();
        lemma_writer_runs_by_phase(c, before);
        let reached = c.after(before);
        let event = events.last();
        assert(c.actions(events).drop_last() =~= c.actions(before));
        law_every_outcome_is_awaited(reached, event);
        if writer_starts(c.actions(events)) == 0 {
            assert(writer_starts(c.actions(before)) == 0);
            assert(!(reached.step(event).1 is Read));
            assert forall|i: int| 0 <= i < events.len() implies !((
            #[trigger] c.actions(events)[i]) is Read) by {
                if i < before.len() {
                    assert(c.actions(events)[i] == c.actions(before)[i]);
                }
            }
        }
    }
}

/// A connection starts its writer before it reads anything, and starts it once: in every course of
/// events the writer is started at most once, and by the time of a read it has been started.
pub proof fn law_writer_is_started_once_and_before_reading(
    c: Connection,
    events: Seq<Event>,
    i: int,
)
    requires
        c.phase == Phase::New,
        c.allows(events),
        0 <= i < events.len(),
    ensures
        writer_starts(c.actions(events)) <= 1,
        c.actions(events)[i] is Read ==> writer_starts(c.actions(events)) == 1
            && writer_starts(c.actions(events).take(i)) == 1,
    decreases events.len(),
{
    lemma_writer_runs_by_phase(c, events);
    let before = events.drop_last();
    let all = c.actions(events);
    assert(all.drop_last() =~= c.actions(before));
    lemma_writer_runs_by_phase(c, before);
    if i < before.len() {
        law_writer_is_started_once_and_before_reading(c, before, i);
        assert(all.take(i) =~= c.actions(before).take(i));
        assert(all[i] == c.actions(before)[i]);
    } else {
        assert(all.take(i) =~= c.actions(before));
    }
}

} // verus!
