//! What a message does to the streams, and how it is answered.

use vstd::prelude::*;

use crate::connection::{Connection, ConnectionHandler, Event, Phase};
use crate::error::{ConnectionError, ConnectionHandlerError, IoError, IoErrorKind};
use crate::message::{
    AudioData, ClientMessage, ClientToServerMessage, FinalizeStreaming, InitializationComplete,
    InitializeStreaming, ServerMessage, ServerToClientMessage, SttError, SttSuccess,
};
use crate::stream::{SttStream, SttStreamingState, SttStreams, Transcription, TranscriptionJob};

verus! {

/// What to do about a message once the streams have taken it in.
#[derive(Debug)]
pub enum MessageAction {
    /// Send an answer.
    Send(ServerToClientMessage),
    /// Run the model, and send what [`ConnectionHandler::transcription_reply`] makes of its
    /// result.
    Transcribe { id: u128, job: TranscriptionJob },
    /// Nothing is left to do. Says whether the connection is to be closed.
    Done { close: bool },
}

/// The mathematical content of a [`MessageAction`].
#[verifier::ext_equal]
pub enum Answer {
    Send { message: ServerMessage },
    Transcribe { id: u128, job: Transcription },
    Done { close: bool },
}

impl View for MessageAction {
    type V = Answer;

    open spec fn view(&self) -> Answer {
        match self {
            MessageAction::Send(message) => Answer::Send { message: message@ },
            MessageAction::Transcribe { id, job } => Answer::Transcribe { id: *id, job: job@ },
            MessageAction::Done { close } => Answer::Done { close: *close },
        }
    }
}

/// The streams after a message.
pub open spec fn streams_after(streams: Map<u128, SttStream>, message: ClientMessage) -> Map<
    u128,
    SttStream,
> {
    match message {
        ClientMessage::InitializeStreaming { id } => streams.insert(
            id,
            crate::stream::new_stream(),
        ),
        ClientMessage::AudioData { id, data } => if streams.dom().contains(id) {
            streams.insert(id, crate::stream::fed(streams[id], data))
        } else {
            streams
        },
        ClientMessage::FinalizeStreaming { id, language, verbose, translate } => streams.remove(id),
        ClientMessage::CloseConnection => streams,
    }
}

/// What to do about a message that finds these streams.
pub open spec fn answer(streams: Map<u128, SttStream>, message: ClientMessage) -> Answer {
    match message {
        ClientMessage::InitializeStreaming { id } => Answer::Send {
            message: ServerMessage::InitializationComplete { id },
        },
        ClientMessage::AudioData { id, data } => Answer::Done { close: false },
        ClientMessage::FinalizeStreaming { id, language, verbose, translate } => if streams.dom().contains(
            id,
        ) {
            Answer::Transcribe {
                id,
                job: Transcription {
                    audio: streams[id].samples,
                    params: crate::stream::params_for(language, translate),
                    verbose,
                },
            }
        } else {
            Answer::Send {
                message: ServerMessage::SttError { id, error: "no model loaded for this id"@ },
            }
        },
        ClientMessage::CloseConnection => Answer::Done { close: true },
    }
}

/// Whether an answer ends the connection: a transcription does once it is sent, and so does any
/// answer that finds the writer gone.
pub open spec fn closes(reply: ServerMessage, failure: Option<ConnectionError>) -> bool {
    match failure {
        None => reply is SttResult,
        Some(e) => !e.recoverable(),
    }
}

impl ConnectionHandler {
    /// Takes a message into the streams and says what to do about it.
    pub fn handle_message(message: ClientToServerMessage, streams: &mut SttStreams) -> (action:
        MessageAction)
        ensures
            final(streams)@ == streams_after(old(streams)@, message@),
            action@ == answer(old(streams)@, message@),
    {
        match message {
            ClientToServerMessage::InitializeStreaming(InitializeStreaming { id }) => {
                streams.insert(id, SttStreamingState::new(String::new()));
                MessageAction::Send(
                    ServerToClientMessage::InitializationComplete(InitializationComplete { id }),
                )
            },
            ClientToServerMessage::AudioData(AudioData { data, id }) => {
                streams.feed_audio(id, data);
                MessageAction::Done { close: false }
            },
            ClientToServerMessage::FinalizeStreaming(
                FinalizeStreaming { verbose, language, translate, id },
            ) => match streams.remove(id) {
                Some(stream) => MessageAction::Transcribe {
                    id,
                    job: stream.finish_stream_in(language, verbose, translate),
                },
                None => {
                    assert(old(streams)@.remove(id) =~= old(streams)@);
                    MessageAction::Send(
                        ServerToClientMessage::SttError(
                            SttError { id, error: "no model loaded for this id".to_owned() },
                        ),
                    )
                },
            },
            ClientToServerMessage::CloseConnection => MessageAction::Done { close: true },
        }
    }

    /// The answer to a stream whose model has run: its transcription, or the text of the error.
    pub fn transcription_reply(id: u128, result: Result<String, String>) -> (message:
        ServerToClientMessage)
        ensures
            message@ == match result {
                Ok(text) => ServerMessage::SttResult { id, result: text@ },
                Err(text) => ServerMessage::SttError { id, error: text@ },
            },
    {
        match result {
            Ok(result) => ServerToClientMessage::SttResult(SttSuccess { id, result }),
            Err(error) => ServerToClientMessage::SttError(SttError { id, error }),
        }
    }

    /// Whether the connection is to be closed after an answer was handed to the writer, or could
    /// not be.
    pub fn close_after_reply(
        reply: &ServerToClientMessage,
        sent: Result<(), ConnectionHandlerError>,
    ) -> (close: bool)
        ensures
            close == closes(
                reply@,
                match sent {
                    Ok(_) => None,
                    Err(e) => Some(e@),
                },
            ),
    {
        match sent {
            Ok(_) => match reply {
                ServerToClientMessage::SttResult(_) => true,
                _ => false,
            },
            Err(e) => !e.is_recoverable(),
        }
    }

    /// What became of a message that was put into the channel to the writer. `Err` holds the
    /// channel's own text; it means that the writer is gone.
    pub fn send_message(sent: Result<(), String>) -> (result: Result<(), ConnectionHandlerError>)
        ensures
            result is Ok <==> sent is Ok,
            result matches Err(e) ==> e@ == (ConnectionError::Io {
                kind: IoErrorKind::BrokenPipe,
                message: sent->Err_0@,
            }),
    {
        match sent {
            Ok(_) => Ok(()),
            Err(message) => Err(
                ConnectionHandlerError::Io(IoError { kind: IoErrorKind::BrokenPipe, message }),
            ),
        }
    }

    /// The bytes that go out for a message once it is encoded. `Err` holds the encoder's own
    /// text.
    pub fn send_message_internal(magic: &[u8; 4], encoded: Result<Vec<u8>, String>) -> (result:
        Result<Vec<u8>, ConnectionHandlerError>)
        ensures
            result is Ok <==> encoded is Ok,
            result matches Ok(bytes) ==> bytes@ == crate::frame::frame(magic@, encoded->Ok_0@),
            result matches Err(e) ==> e@ == (ConnectionError::MsgPackEncode {
                message: encoded->Err_0@,
            }),
    {
        match encoded {
            Ok(payload) => Ok(crate::frame::encode_frame(magic, payload.as_slice())),
            Err(message) => Err(ConnectionHandlerError::MsgPackEncode(message)),
        }
    }

    /// What the writer does next. It writes message after message, and shuts the connection down
    /// when there are no more to come or one could not be written.
    pub fn send_message_loop(event: WriterEvent) -> (action: WriterAction)
        ensures
            action@ == writer_step(event@),
    {
        match event {
            WriterEvent::Received(Some(message)) => WriterAction::Write(message),
            WriterEvent::Received(None) => WriterAction::Shutdown,
            WriterEvent::Written(Ok(_)) => WriterAction::Receive,
            WriterEvent::Written(Err(_)) => WriterAction::Shutdown,
        }
    }
}

/// What happened to the writer of a connection.
#[derive(Debug)]
pub enum WriterEvent {
    /// The next message, or none if there are no more to come.
    Received(Option<ServerToClientMessage>),
    /// A message was written, or could not be.
    Written(Result<(), ConnectionHandlerError>),
}

/// What the writer of a connection does next.
#[derive(Debug)]
pub enum WriterAction {
    /// Wait for the next message.
    Receive,
    /// Write a message.
    Write(ServerToClientMessage),
    /// Shut the connection down.
    Shutdown,
}

/// The mathematical content of a [`WriterEvent`].
#[verifier::ext_equal]
pub enum WriterNews {
    Received { message: Option<ServerMessage> },
    Written { failure: Option<ConnectionError> },
}

impl View for WriterEvent {
    type V = WriterNews;

    open spec fn view(&self) -> WriterNews {
        match self {
            WriterEvent::Received(Some(message)) => WriterNews::Received {
                message: Some(message@),
            },
            WriterEvent::Received(None) => WriterNews::Received { message: None },
            WriterEvent::Written(Ok(_)) => WriterNews::Written { failure: None },
            WriterEvent::Written(Err(e)) => WriterNews::Written { failure: Some(e@) },
        }
    }
}

/// The mathematical content of a [`WriterAction`].
#[verifier::ext_equal]
pub enum WriterStep {
    Receive,
    Write { message: ServerMessage },
    Shutdown,
}

impl View for WriterAction {
    type V = WriterStep;

    open spec fn view(&self) -> WriterStep {
        match self {
            WriterAction::Receive => WriterStep::Receive,
            WriterAction::Write(message) => WriterStep::Write { message: message@ },
            WriterAction::Shutdown => WriterStep::Shutdown,
        }
    }
}

/// What the writer does next.
pub open spec fn writer_step(news: WriterNews) -> WriterStep {
    match news {
        WriterNews::Received { message: Some(message) } => WriterStep::Write { message },
        WriterNews::Received { message: None } => WriterStep::Shutdown,
        WriterNews::Written { failure: None } => WriterStep::Receive,
        WriterNews::Written { failure: Some(e) } => WriterStep::Shutdown,
    }
}

/// All that a writer does from some step on, when `messages` are what it is still to receive, and
/// `failures` what comes of writing each of them.
pub open spec fn writer_run(
    step: WriterStep,
    messages: Seq<ServerMessage>,
    failures: Seq<Option<ConnectionError>>,
) -> Seq<WriterStep>
    decreases
            messages.len(),
            match step {
                WriterStep::Receive => 2nat,
                WriterStep::Write { message } => 1,
                WriterStep::Shutdown => 0,
            },
{
    match step {
        WriterStep::Receive => {
            let message = if messages.len() > 0 {
                Some(messages.first())
            } else {
                None
            };
            seq![step] + writer_run(
                writer_step(WriterNews::Received { message }),
                messages,
                failures,
            )
        },
        WriterStep::Write { message } => if messages.len() > 0 {
            seq![step] + writer_run(
                writer_step(WriterNews::Written { failure: failures.first() }),
                messages.drop_first(),
                failures.drop_first(),
            )
        } else {
            seq![step]
        },
        WriterStep::Shutdown => seq![step],
    }
}

/// The messages that are written in a course of steps, in order.
pub open spec fn written(steps: Seq<WriterStep>) -> Seq<ServerMessage>
    decreases steps.len(),
{
    if steps.len() == 0 {
        Seq::empty()
    } else {
        let later = written(steps.drop_first());
        match steps.first() {
            WriterStep::Write { message } => seq![message] + later,
            _ => later,
        }
    }
}

/// How often the connection is shut down in a course of steps.
pub open spec fn shutdowns(steps: Seq<WriterStep>) -> nat
    decreases steps.len(),
{
    if steps.len() == 0 {
        0
    } else {
        let later = shutdowns(steps.drop_first());
        if steps.first() is Shutdown {
            later + 1
        } else {
            later
        }
    }
}

/// How many messages are tried: all up to and with the first that fails.
pub open spec fn tried(failures: Seq<Option<ConnectionError>>) -> nat
    decreases failures.len(),
{
    if failures.len() == 0 {
        0
    } else if failures.first() is Some {
        1
    } else {
        tried(failures.drop_first()) + 1
    }
}

/// The writer writes its messages in order, each once, up to the first that cannot be written,
/// and none behind that one. Then, and only then, it shuts the connection down, once.
pub proof fn law_messages_are_written_up_to_the_first_failure(
    messages: Seq<ServerMessage>,
    failures: Seq<Option<ConnectionError>>,
)
    requires
        messages.len() == failures.len(),
    ensures
        ({
            let run = writer_run(WriterStep::Receive, messages, failures);
            &&& tried(failures) <= messages.len()
            &&& written(run) == messages.take(tried(failures) as int)
            &&& shutdowns(run) == 1
            &&& run.last() is Shutdown
        }),
        (forall|i: int| 0 <= i < failures.len() ==> (#[trigger] failures[i]) is None)
            ==> tried(failures) == messages.len(),
    decreases messages.len(),
{
    reveal_with_fuel(writer_run, 3);
    reveal_with_fuel(written, 4);
    reveal_with_fuel(shutdowns, 4);
    let run = writer_run(WriterStep::Receive, messages, failures);
    if messages.len() == 0 {
        assert(run =~= seq![WriterStep::Receive, WriterStep::Shutdown]);
        assert(run.drop_first() =~= seq![WriterStep::Shutdown]);
        assert(run.drop_first().drop_first() =~= Seq::empty());
        assert(messages.take(0) =~= Seq::empty());
    } else {
        let write = WriterStep::Write { message: messages.first() };
        let rest = writer_run(
            writer_step(WriterNews::Written { failure: failures.first() }),
            messages.drop_first(),
            failures.drop_first(),
        );
        assert(run =~= seq![WriterStep::Receive, write] + rest);
        assert(run.drop_first() =~= seq![write] + rest);
        assert(run.drop_first().drop_first() =~= rest);
        if failures.first() is Some {
            assert(rest =~= seq![WriterStep::Shutdown]);
            assert(rest.drop_first() =~= Seq::empty());
            assert(messages.take(1) =~= seq![messages.first()]);
        } else {
            law_messages_are_written_up_to_the_first_failure(
                messages.drop_first(),
                failures.drop_first(),
            );
            assert(rest.len() > 0);
            assert(run.last() == rest.last());
            let n = tried(failures.drop_first()) as int;
            assert(seq![messages.first()] + messages.drop_first().take(n) =~= messages.take(n + 1));
            if forall|i: int| 0 <= i < failures.len() ==> (#[trigger] failures[i]) is None {
                assert forall|i: int| 0 <= i < failures.drop_first().len() implies (
                #[trigger] failures.drop_first()[i]) is None by {
                    assert(failures[i + 1] is None);
                }
            }
        }
    }
}

/// The streams after several messages, taken in one after the other.
pub open spec fn streams_after_all(
    streams: Map<u128, SttStream>,
    messages: Seq<ClientMessage>,
) -> Map<u128, SttStream>
    decreases messages.len(),
{
    if messages.len() == 0 {
        streams
    } else {
        streams_after(streams_after_all(streams, messages.drop_last()), messages.last())
    }
}

/// The samples that several messages add to a stream, in the order of the messages.
pub open spec fn audio_sent(id: u128, messages: Seq<ClientMessage>) -> Seq<i16>
    decreases messages.len(),
{
    if messages.len() == 0 {
        Seq::empty()
    } else {
        let before = audio_sent(id, messages.drop_last());
        match messages.last() {
            ClientMessage::AudioData { id: to, data } => if to == id {
                before + data
            } else {
                before
            },
            _ => before,
        }
    }
}

/// Whether several messages leave the stream of `id` open: none of them sets it up anew or ends
/// it.
pub open spec fn keep_open(id: u128, messages: Seq<ClientMessage>) -> bool {
    forall|i: int|
        0 <= i < messages.len() ==> match #[trigger] messages[i] {
            ClientMessage::InitializeStreaming { id: other } => other != id,
            ClientMessage::FinalizeStreaming { id: other, language, verbose, translate } => other
                != id,
            _ => true,
        }
}

/// Messages about other streams, and requests to close, leave a stream as it is.
pub proof fn law_streams_are_independent(
    streams: Map<u128, SttStream>,
    messages: Seq<ClientMessage>,
    id: u128,
)
    requires
        forall|i: int|
            0 <= i < messages.len() ==> (#[trigger] messages[i]).stream() != Some(id),
    ensures
        streams_after_all(streams, messages).dom().contains(id) <==> streams.dom().contains(id),
        streams.dom().contains(id) ==> streams_after_all(streams, messages)[id] == streams[id],
    decreases messages.len(),
{
    if messages.len() > 0 {
        let last = messages.last();
        assert(messages[messages.len() - 1].stream() != Some(id));
        assert forall|i: int| 0 <= i < messages.drop_last().len() implies (
        #[trigger] messages.drop_last()[i]).stream() != Some(id) by {
            assert(messages[i].stream() != Some(id));
        }
        law_streams_are_independent(streams, messages.drop_last(), id);
    }
}

/// An open stream collects all samples sent to it, in order, whatever is sent to other streams
/// in between.
pub proof fn law_open_stream_collects_its_audio(
    streams: Map<u128, SttStream>,
    messages: Seq<ClientMessage>,
    id: u128,
)
    requires
        streams.dom().contains(id),
        keep_open(id, messages),
    ensures
        streams_after_all(streams, messages).dom().contains(id),
        streams_after_all(streams, messages)[id] == crate::stream::fed(
            streams[id],
            audio_sent(id, messages),
        ),
    decreases messages.len(),
{
    if messages.len() == 0 {
        assert(streams[id].samples + audio_sent(id, messages) =~= streams[id].samples);
    } else {
        let before = messages.drop_last();
        let last = messages[messages.len() - 1];
        assert forall|i: int| 0 <= i < before.len() implies match #[trigger] before[i] {
            ClientMessage::InitializeStreaming { id: other } => other != id,
            ClientMessage::FinalizeStreaming { id: other, language, verbose, translate } => other
                != id,
            _ => true,
        } by {
            assert(before[i] == messages[i]);
        }
        law_open_stream_collects_its_audio(streams, before, id);
        if let ClientMessage::AudioData { id: to, data } = last {
            assert(streams[id].samples + audio_sent(id, before) + data =~= streams[id].samples + (
            audio_sent(id, before) + data));
        }
    }
}

/// What is transcribed is what was streamed: after a stream is set up, ending it has exactly the
/// samples sent to it since then transcribed, in order and with the parameters asked for.
/// Nothing sent before it was set up counts, and neither does what other streams are sent.
pub proof fn law_streamed_audio_is_transcribed(
    streams: Map<u128, SttStream>,
    messages: Seq<ClientMessage>,
    id: u128,
    language: Seq<char>,
    verbose: bool,
    translate: bool,
)
    requires
        keep_open(id, messages),
    ensures
        answer(
            streams_after_all(
                streams_after(streams, ClientMessage::InitializeStreaming { id }),
                messages,
            ),
            ClientMessage::FinalizeStreaming { id, language, verbose, translate },
        ) == (Answer::Transcribe {
            id,
            job: Transcription {
                audio: audio_sent(id, messages),
                params: crate::stream::params_for(language, translate),
                verbose,
            },
        }),
{
    let initialized = streams_after(streams, ClientMessage::InitializeStreaming { id });
    law_open_stream_collects_its_audio(initialized, messages, id);
    assert(Seq::<i16>::empty() + audio_sent(id, messages) =~= audio_sent(id, messages));
}

/// Audio for a stream that is not there is ignored: it changes nothing, and nothing is answered.
pub proof fn law_audio_without_a_stream_is_ignored(
    streams: Map<u128, SttStream>,
    id: u128,
    data: Seq<i16>,
)
    requires
        !streams.dom().contains(id),
    ensures
        streams_after(streams, ClientMessage::AudioData { id, data }) == streams,
        answer(streams, ClientMessage::AudioData { id, data }) == (Answer::Done { close: false }),
{
}

/// Once a transcription is sent, the connection that asked for it is closed; no other answer that
/// is sent closes it.
pub proof fn law_transcription_ends_the_connection(c: Connection, reply: ServerMessage)
    requires
        c.valid(),
        c.phase == Phase::Reading,
    ensures
        ({
            let answered = Event::Answered { close: closes(reply, None) };
            &&& c.awaits(answered)
            &&& reply is SttResult ==> c.step(answered) == c.end()
            &&& !(reply is SttResult) ==> c.step(answered).0 == c
        }),
{
}

/// A stream can be ended once: asked again, the server answers that there is none.
pub proof fn law_stream_ends_once(
    streams: Map<u128, SttStream>,
    messages: Seq<ClientMessage>,
    id: u128,
    first: ClientMessage,
    second: ClientMessage,
)
    requires
        first is FinalizeStreaming,
        first.stream() == Some(id),
        second is FinalizeStreaming,
        second.stream() == Some(id),
        forall|i: int|
            0 <= i < messages.len() ==> (#[trigger] messages[i]).stream() != Some(id),
    ensures
        answer(streams_after_all(streams_after(streams, first), messages), second) == (
        Answer::Send {
            message: ServerMessage::SttError { id, error: "no model loaded for this id"@ },
        }),
{
    law_streams_are_independent(streams_after(streams, first), messages, id);
}

/// A request to end a stream that is not there changes nothing.
pub proof fn law_refused_request_changes_nothing(
    streams: Map<u128, SttStream>,
    message: ClientMessage,
)
    requires
        message is FinalizeStreaming,
        message.stream() matches Some(id) && !streams.dom().contains(id),
    ensures
        streams_after(streams, message) == streams,
{
    assert(streams_after(streams, message) =~= streams);
}

/// An answer depends on no stream but the one that the message is about.
pub proof fn law_answers_do_not_depend_on_other_streams(
    streams: Map<u128, SttStream>,
    others: Map<u128, SttStream>,
    message: ClientMessage,
)
    requires
        message is FinalizeStreaming ==> (message.stream() matches Some(id) && (
        streams.dom().contains(id) <==> others.dom().contains(id)) && (streams.dom().contains(id)
            ==> streams[id] == others[id])),
    ensures
        answer(streams, message) == answer(others, message),
{
}

/// A request to set up a stream is confirmed with the very identifier that it came with, and
/// leaves an empty stream under that identifier and every other stream as it was.
pub proof fn law_set_up_is_confirmed_by_its_own_id(
    streams: Map<u128, SttStream>,
    id: u128,
    other: u128,
)
    ensures
        ({
            let request = ClientMessage::InitializeStreaming { id };
            let after = streams_after(streams, request);
            &&& answer(streams, request) matches Answer::Send { message: confirmation }
            &&& confirmation matches ServerMessage::InitializationComplete { id: confirmed }
            &&& confirmed == id
            &&& after.dom().contains(id)
            &&& after[id].samples.len() == 0
            &&& after[id].language.len() == 0
            &&& other != id ==> (after.dom().contains(other) <==> streams.dom().contains(other))
            &&& other != id && streams.dom().contains(other) ==> after[other] == streams[other]
        }),
{
}

/// Whatever is answered to a message about a stream carries that stream's identifier: a
/// confirmation, an error and a transcription alike.
pub proof fn law_answers_carry_the_id_of_the_request(
    streams: Map<u128, SttStream>,
    message: ClientMessage,
    id: u128,
)
    requires
        match message {
            ClientMessage::InitializeStreaming { id: named } => named == id,
            ClientMessage::AudioData { id: named, data } => named == id,
            ClientMessage::FinalizeStreaming { id: named, language, verbose, translate } => named
                == id,
            ClientMessage::CloseConnection => false,
        },
    ensures
        match answer(streams, message) {
            Answer::Send { message: ServerMessage::InitializationComplete { id: found } } => found
                == id,
            Answer::Send { message: ServerMessage::SttError { id: found, error } } => found == id,
            Answer::Send { message } => false,
            Answer::Transcribe { id: found, job } => found == id,
            Answer::Done { close } => !close,
        },
{
}

/// Ending a stream that is there has all its samples transcribed, in the language and with the
/// translation and the times that were asked for, and with the fixed parameters; it takes the
/// stream out and leaves the others.
pub proof fn law_stream_is_ended_as_asked(
    streams: Map<u128, SttStream>,
    id: u128,
    language: Seq<char>,
    verbose: bool,
    translate: bool,
    other: u128,
)
    requires
        streams.dom().contains(id),
    ensures
        ({
            let request = ClientMessage::FinalizeStreaming { id, language, verbose, translate };
            let after = streams_after(streams, request);
            &&& answer(streams, request) matches Answer::Transcribe { id: found, job }
            &&& found == id
            &&& job.audio == streams[id].samples
            &&& job.verbose == verbose
            &&& job.params.language == language
            &&& job.params.translate == translate
            &&& job.params.best_of == 1
            &&& job.params.n_threads == 1
            &&& !job.params.print_progress
            &&& !job.params.print_realtime
            &&& !job.params.print_timestamps
            &&& job.params.no_context
            &&& job.params.suppress_non_speech_tokens
            &&& !after.dom().contains(id)
            &&& other != id ==> (after.dom().contains(other) <==> streams.dom().contains(other))
            &&& other != id && streams.dom().contains(other) ==> after[other] == streams[other]
        }),
{
}

/// Ending a stream that is not there is answered with an error that names it.
pub proof fn law_unknown_stream_is_answered_with_an_error(
    streams: Map<u128, SttStream>,
    id: u128,
    language: Seq<char>,
    verbose: bool,
    translate: bool,
)
    requires
        !streams.dom().contains(id),
    ensures
        answer(
            streams,
            ClientMessage::FinalizeStreaming { id, language, verbose, translate },
        ) == (Answer::Send {
            message: ServerMessage::SttError { id, error: "no model loaded for this id"@ },
        }),
{
}

/// Audio for a stream goes behind the samples that the stream has, and nowhere else; nothing is
/// answered.
pub proof fn law_audio_goes_to_the_end_of_its_stream(
    streams: Map<u128, SttStream>,
    id: u128,
    data: Seq<i16>,
    other: u128,
)
    requires
        streams.dom().contains(id),
    ensures
        ({
            let message = ClientMessage::AudioData { id, data };
            let after = streams_after(streams, message);
            &&& answer(streams, message) == (Answer::Done { close: false })
            &&& after.dom().contains(id)
            &&& after[id].samples == streams[id].samples + data
            &&& after[id].language == streams[id].language
            &&& other != id ==> (after.dom().contains(other) <==> streams.dom().contains(other))
            &&& other != id && streams.dom().contains(other) ==> after[other] == streams[other]
        }),
{
}

/// A request to close leaves all streams as they are, and closes.
pub proof fn law_close_request_leaves_the_streams(streams: Map<u128, SttStream>)
    ensures
        streams_after(streams, ClientMessage::CloseConnection) == streams,
        answer(streams, ClientMessage::CloseConnection) == (Answer::Done { close: true }),
{
}

/// An answer that was sent closes the connection exactly if it is a transcription, and one that
/// was not sent exactly if the connection itself failed.
pub proof fn law_which_answers_close(reply: ServerMessage, e: ConnectionError)
    ensures
        closes(reply, None) <==> reply is SttResult,
        closes(reply, Some(e)) <==> e is Io || e is InvalidMagicBytes,
{
}

/// The writer writes every message that it receives as it is, goes on after one that was written,
/// and shuts down on any failure and when there are no more.
pub proof fn law_what_the_writer_does(message: ServerMessage, e: ConnectionError)
    ensures
        writer_step(WriterNews::Received { message: Some(message) }) == (WriterStep::Write {
            message,
        }),
        writer_step(WriterNews::Received { message: None }) is Shutdown,
        writer_step(WriterNews::Written { failure: None }) is Receive,
        writer_step(WriterNews::Written { failure: Some(e) }) is Shutdown,
{
}

/// The mathematical content of what is to be done about a message is all of it.
pub proof fn law_nothing_of_an_answer_is_lost(action: MessageAction)
    ensures
        match action {
            MessageAction::Send(message) => action@ == (Answer::Send { message: message@ }),
            MessageAction::Transcribe { id, job } => action@ == (Answer::Transcribe {
                id,
                job: job@,
            }),
            MessageAction::Done { close } => action@ == (Answer::Done { close }),
        },
{
}

/// The mathematical content of what happens to the writer, and of what it does, is all of it.
pub proof fn law_nothing_of_the_writer_is_lost(event: WriterEvent, action: WriterAction)
    ensures
        match event {
            WriterEvent::Received(Some(message)) => event@ == (WriterNews::Received {
                message: Some(message@),
            }),
            WriterEvent::Received(None) => event@ == (WriterNews::Received { message: None }),
            WriterEvent::Written(Ok(_)) => event@ == (WriterNews::Written { failure: None }),
            WriterEvent::Written(Err(e)) => event@ == (WriterNews::Written {
                failure: Some(e@),
            }),
        },
        match action {
            WriterAction::Receive => action@ is Receive,
            WriterAction::Write(message) => action@ == (WriterStep::Write { message: message@ }),
            WriterAction::Shutdown => action@ is Shutdown,
        },
{
}

} // verus!
