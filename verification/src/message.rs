//! The messages of the protocol.
//!
//! Streams are named by 128-bit identifiers. Each message has a mathematical counterpart, which
//! the contracts of the other modules speak of.

use vstd::prelude::*;

verus! {

/// Asks the server to set up a stream.
#[derive(Debug, PartialEq, Eq)]
pub struct InitializeStreaming {
    pub id: u128,
}

/// Adds mono 16 kHz samples to a stream.
#[derive(Debug, PartialEq, Eq)]
pub struct AudioData {
    pub data: Vec<i16>,
    pub id: u128,
}

/// Ends a stream and asks for its transcription.
#[derive(Debug, PartialEq, Eq)]
pub struct FinalizeStreaming {
    pub verbose: bool,
    pub language: String,
    pub translate: bool,
    pub id: u128,
}

/// What a client sends.
#[derive(Debug, PartialEq, Eq)]
pub enum ClientToServerMessage {
    InitializeStreaming(InitializeStreaming),
    AudioData(AudioData),
    FinalizeStreaming(FinalizeStreaming),
    CloseConnection,
}

/// Says that a stream is set up.
#[derive(Debug, PartialEq, Eq)]
pub struct InitializationComplete {
    pub id: u128,
}

/// Carries the transcription of a stream.
#[derive(Debug, PartialEq, Eq)]
pub struct SttSuccess {
    pub id: u128,
    pub result: String,
}

/// Says why a stream has no transcription.
#[derive(Debug, PartialEq, Eq)]
pub struct SttError {
    pub id: u128,
    pub error: String,
}

/// The first message on a connection. The utilization is a 64-bit floating-point number, held
/// here by its bits: it is passed on and never computed with.
#[derive(Debug, PartialEq, Eq)]
pub struct StatusConnectionOpen {
    pub max_utilization_bits: u64,
    pub can_overload: bool,
}

/// Reports how many transcriptions the server has waiting.
#[derive(Debug, PartialEq, Eq)]
pub struct StatusConnectionData {
    pub utilization: usize,
}

/// Reports that the connection failed.
#[derive(Debug, PartialEq, Eq)]
pub struct FatalIoError {
    pub error: String,
}

/// What the server sends.
#[derive(Debug, PartialEq, Eq)]
pub enum ServerToClientMessage {
    InitializationComplete(InitializationComplete),
    SttResult(SttSuccess),
    SttError(SttError),
    StatusConnectionOpen(StatusConnectionOpen),
    StatusConnectionData(StatusConnectionData),
    /// The server shuts down, and closes the connection.
    ShuttingDown,
    FatalIoError(FatalIoError),
    /// What the client sent makes no sense.
    FatalUserError,
}

/// The mathematical content of a [`ClientToServerMessage`].
#[verifier::ext_equal]
pub enum ClientMessage {
    InitializeStreaming { id: u128 },
    AudioData { id: u128, data: Seq<i16> },
    FinalizeStreaming { id: u128, language: Seq<char>, verbose: bool, translate: bool },
    CloseConnection,
}

impl View for ClientToServerMessage {
    type V = ClientMessage;

    open spec fn view(&self) -> ClientMessage {
        match self {
            ClientToServerMessage::InitializeStreaming(m) => ClientMessage::InitializeStreaming {
                id: m.id,
            },
            ClientToServerMessage::AudioData(m) => ClientMessage::AudioData {
                id: m.id,
                data: m.data@,
            },
            ClientToServerMessage::FinalizeStreaming(m) => ClientMessage::FinalizeStreaming {
                id: m.id,
                language: m.language@,
                verbose: m.verbose,
                translate: m.translate,
            },
            ClientToServerMessage::CloseConnection => ClientMessage::CloseConnection,
        }
    }
}

impl ClientMessage {
    /// The stream that a message is about.
    pub open spec fn stream(self) -> Option<u128> {
        match self {
            ClientMessage::InitializeStreaming { id } => Some(id),
            ClientMessage::AudioData { id, data } => Some(id),
            ClientMessage::FinalizeStreaming { id, language, verbose, translate } => Some(id),
            ClientMessage::CloseConnection => None,
        }
    }
}

/// The mathematical content of a [`ServerToClientMessage`].
#[verifier::ext_equal]
pub enum ServerMessage {
    InitializationComplete { id: u128 },
    SttResult { id: u128, result: Seq<char> },
    SttError { id: u128, error: Seq<char> },
    StatusConnectionOpen { max_utilization_bits: u64, can_overload: bool },
    StatusConnectionData { utilization: usize },
    ShuttingDown,
    FatalIoError { error: Seq<char> },
    FatalUserError,
}

impl View for ServerToClientMessage {
    type V = ServerMessage;

    open spec fn view(&self) -> ServerMessage {
        match self {
            ServerToClientMessage::InitializationComplete(m) =>
                ServerMessage::InitializationComplete { id: m.id },
            ServerToClientMessage::SttResult(m) => ServerMessage::SttResult {
                id: m.id,
                result: m.result@,
            },
            ServerToClientMessage::SttError(m) => ServerMessage::SttError {
                id: m.id,
                error: m.error@,
            },
            ServerToClientMessage::StatusConnectionOpen(m) => ServerMessage::StatusConnectionOpen {
                max_utilization_bits: m.max_utilization_bits,
                can_overload: m.can_overload,
            },
            ServerToClientMessage::StatusConnectionData(m) => ServerMessage::StatusConnectionData {
                utilization: m.utilization,
            },
            ServerToClientMessage::ShuttingDown => ServerMessage::ShuttingDown,
            ServerToClientMessage::FatalIoError(m) => ServerMessage::FatalIoError {
                error: m.error@,
            },
            ServerToClientMessage::FatalUserError => ServerMessage::FatalUserError,
        }
    }
}

/// The mathematical content of a client's message is the message, with every field as it is.
pub proof fn law_nothing_of_a_client_message_is_lost(m: ClientToServerMessage)
    ensures
        match m {
            ClientToServerMessage::InitializeStreaming(i) => m@ == (
            ClientMessage::InitializeStreaming { id: i.id }),
            ClientToServerMessage::AudioData(a) => m@ == (ClientMessage::AudioData {
                id: a.id,
                data: a.data@,
            }),
            ClientToServerMessage::FinalizeStreaming(f) => m@ == (
            ClientMessage::FinalizeStreaming {
                id: f.id,
                language: f.language@,
                verbose: f.verbose,
                translate: f.translate,
            }),
            ClientToServerMessage::CloseConnection => m@ == ClientMessage::CloseConnection,
        },
{
}

/// The mathematical content of a server's message is the message, with every field as it is.
pub proof fn law_nothing_of_a_server_message_is_lost(m: ServerToClientMessage)
    ensures
        match m {
            ServerToClientMessage::InitializationComplete(i) => m@ == (
            ServerMessage::InitializationComplete { id: i.id }),
            ServerToClientMessage::SttResult(r) => m@ == (ServerMessage::SttResult {
                id: r.id,
                result: r.result@,
            }),
            ServerToClientMessage::SttError(e) => m@ == (ServerMessage::SttError {
                id: e.id,
                error: e.error@,
            }),
            ServerToClientMessage::StatusConnectionOpen(o) => m@ == (
            ServerMessage::StatusConnectionOpen {
                max_utilization_bits: o.max_utilization_bits,
                can_overload: o.can_overload,
            }),
            ServerToClientMessage::StatusConnectionData(d) => m@ == (
            ServerMessage::StatusConnectionData { utilization: d.utilization }),
            ServerToClientMessage::ShuttingDown => m@ == ServerMessage::ShuttingDown,
            ServerToClientMessage::FatalIoError(e) => m@ == (ServerMessage::FatalIoError {
                error: e.error@,
            }),
            ServerToClientMessage::FatalUserError => m@ == ServerMessage::FatalUserError,
        },
{
}

/// A message is about the stream that it names, and a request to close about none.
pub proof fn law_messages_are_about_the_stream_they_name(
    id: u128,
    data: Seq<i16>,
    language: Seq<char>,
    verbose: bool,
    translate: bool,
)
    ensures
        (ClientMessage::InitializeStreaming { id }).stream() == Some(id),
        (ClientMessage::AudioData { id, data }).stream() == Some(id),
        (ClientMessage::FinalizeStreaming { id, language, verbose, translate }).stream() == Some(
            id,
        ),
        ClientMessage::CloseConnection.stream() is None,
{
}

} // verus!
