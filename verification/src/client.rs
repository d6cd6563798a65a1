//! The testing client: sends a recording to a server and waits for its transcription.

use vstd::prelude::*;

use crate::message::{
    AudioData, ClientMessage, ClientToServerMessage, FinalizeStreaming, InitializeStreaming,
    ServerToClientMessage,
};
use crate::dispatch::Answer;
use crate::stream::{SttStream, Transcription};

verus! {

/// The format of a recording.
#[derive(Clone, Copy, Debug, PartialEq, Eq, Structural)]
pub struct RecordingFormat {
    pub sample_rate: u32,
    pub channels: u16,
    pub integer_samples: bool,
    pub bits_per_sample: u16,
}

/// What keeps a recording from being sent.
#[derive(Clone, Copy, Debug, PartialEq, Eq, Structural)]
pub enum FormatError {
    SampleRate(u32),
    Channels(u16),
    NotInteger,
    BitsPerSample(u16),
}

/// Whether a recording can be sent: it must be 16 kHz, mono, and of 16-bit integer samples.
pub fn check_format(format: RecordingFormat) -> (result: Result<(), FormatError>)
    ensures
        result == if format.sample_rate != 16000 {
            Err::<(), _>(FormatError::SampleRate(format.sample_rate))
        } else if format.channels != 1 {
            Err(FormatError::Channels(format.channels))
        } else if !format.integer_samples {
            Err(FormatError::NotInteger)
        } else if format.bits_per_sample != 16 {
            Err(FormatError::BitsPerSample(format.bits_per_sample))
        } else {
            Ok(())
        },
{
    if format.sample_rate != 16000 {
        Err(FormatError::SampleRate(format.sample_rate))
    } else if format.channels != 1 {
        Err(FormatError::Channels(format.channels))
    } else if !format.integer_samples {
        Err(FormatError::NotInteger)
    } else if format.bits_per_sample != 16 {
        Err(FormatError::BitsPerSample(format.bits_per_sample))
    } else {
        Ok(())
    }
}

/// How many samples are sent at once.
pub const CHUNK: usize = 240;

/// How many chunks a recording is sent in.
pub open spec fn chunk_count(len: nat) -> nat {
    (len + CHUNK as nat - 1) as nat / CHUNK as nat
}

/// The `i`th chunk of a recording: all chunks but the last are full.
pub open spec fn chunk(samples: Seq<i16>, i: int) -> Seq<i16> {
    let end = CHUNK * (i + 1);
    samples.subrange(
        CHUNK * i,
        if end < samples.len() {
            end
        } else {
            samples.len() as int
        },
    )
}

/// The messages that carry a recording.
pub open spec fn audio_messages(id: u128, samples: Seq<i16>) -> Seq<ClientMessage> {
    Seq::new(
        chunk_count(samples.len()),
        |i: int| ClientMessage::AudioData { id, data: chunk(samples, i) },
    )
}

/// The message that ends the stream: a plain transcription of English speech is wanted.
pub open spec fn final_message(id: u128) -> ClientMessage {
    ClientMessage::FinalizeStreaming { id, language: "en"@, verbose: false, translate: false }
}

/// What several messages are, mathematically.
pub open spec fn contents(messages: Seq<ClientToServerMessage>) -> Seq<ClientMessage> {
    Seq::new(messages.len(), |i: int| messages[i]@)
}

/// The messages that carry a recording and end its stream.
pub fn recording_messages(id: u128, samples: &Vec<i16>) -> (messages: Vec<ClientToServerMessage>)
    ensures
        contents(messages@) == audio_messages(id, samples@).push(final_message(id)),
{
    let mut messages: Vec<ClientToServerMessage> = Vec::new();
    let mut start: usize = 0;
    while start < samples.len()
        invariant
            start == CHUNK * messages@.len() || start == samples@.len(),
            start <= samples@.len(),
            messages@.len() <= chunk_count(samples@.len()),
            start == samples@.len() ==> messages@.len() == chunk_count(samples@.len()),
            forall|i: int|
                0 <= i < messages@.len() ==> (#[trigger] messages@[i])@ == (
                ClientMessage::AudioData { id, data: chunk(samples@, i) }),
        decreases samples@.len() - start,
    {
        let end: usize = if samples.len() - start > CHUNK {
            start + CHUNK
        } else {
            samples.len()
        };
        let mut data: Vec<i16> = Vec::new();
        data.extend_from_slice(vstd::slice::slice_subrange(samples.as_slice(), start, end));
        assert(data@ =~= chunk(samples@, messages@.len() as int));
        messages.push(ClientToServerMessage::AudioData(AudioData { data, id }));
        start = end;
    }
    messages.push(
        ClientToServerMessage::FinalizeStreaming(
            FinalizeStreaming {
                verbose: false,
                language: "en".to_owned(),
                translate: false,
                id,
            },
        ),
    );
    assert(contents(messages@) =~= audio_messages(id, samples@).push(final_message(id)));
    messages
}

/// What a client waits for.
#[derive(Clone, Copy, Debug, PartialEq, Eq, Structural)]
pub enum SessionPhase {
    /// The message that says what the server offers.
    Greeting,
    /// The confirmation that the stream is set up.
    Initialization,
    /// The transcription.
    Result,
    /// Nothing more.
    Finished,
}

/// What a client does next.
#[derive(Debug)]
pub enum SessionAction {
    /// Send these messages, then wait for the next one.
    Send(Vec<ClientToServerMessage>),
    /// Wait for the next message.
    Wait,
    /// End with this transcription.
    Finish(String),
    /// Give up: the message is not the one that had to come now.
    GiveUp,
}

/// A client that sends one recording.
#[derive(Debug)]
pub struct Session {
    phase: SessionPhase,
    id: u128,
    samples: Vec<i16>,
}

impl Session {
    /// What the client waits for.
    pub closed spec fn phase(self) -> SessionPhase {
        self.phase
    }

    /// The identifier of its stream.
    pub closed spec fn id(self) -> u128 {
        self.id
    }

    /// Its recording.
    pub closed spec fn samples(self) -> Seq<i16> {
        self.samples@
    }

    /// A client that has just connected.
    pub fn new(id: u128, samples: Vec<i16>) -> (session: Session)
        ensures
            session.phase() == SessionPhase::Greeting,
            session.id() == id,
            session.samples() == samples@,
    {
        Session { phase: SessionPhase::Greeting, id, samples }
    }

    /// Takes a message from the server, or nothing for one of a kind that means nothing to the
    /// client, and says what to do next.
    pub fn on_message(&mut self, message: Option<ServerToClientMessage>) -> (action: SessionAction)
        requires
            old(self).phase() != SessionPhase::Finished,
        ensures
            final(self).id() == old(self).id(),
            final(self).samples() == old(self).samples(),
            match old(self).phase() {
                SessionPhase::Greeting => if message matches Some(m) && m is StatusConnectionOpen {
                    &&& final(self).phase() == SessionPhase::Initialization
                    &&& action matches SessionAction::Send(messages) && contents(messages@)
                        == seq![ClientMessage::InitializeStreaming { id: old(self).id() }]
                } else {
                    &&& final(self).phase() == SessionPhase::Finished
                    &&& action is GiveUp
                },
                SessionPhase::Initialization => if message matches Some(m)
                    && m is InitializationComplete {
                    &&& final(self).phase() == SessionPhase::Result
                    &&& action matches SessionAction::Send(messages) && contents(messages@)
                        == audio_messages(old(self).id(), old(self).samples()).push(
                        final_message(old(self).id()),
                    )
                } else {
                    &&& final(self).phase() == SessionPhase::Finished
                    &&& action is GiveUp
                },
                _ => match message {
                    Some(ServerToClientMessage::SttResult(success)) => {
                        &&& final(self).phase() == SessionPhase::Finished
                        &&& action == SessionAction::Finish(success.result)
                    },
                    _ => {
                        &&& final(self).phase() == SessionPhase::Result
                        &&& action is Wait
                    },
                },
            },
    {
        match self.phase {
            SessionPhase::Greeting => match message {
                Some(ServerToClientMessage::StatusConnectionOpen(_)) => {
                    self.phase = SessionPhase::Initialization;
                    let mut messages: Vec<ClientToServerMessage> = Vec::new();
                    messages.push(
                        ClientToServerMessage::InitializeStreaming(
                            InitializeStreaming { id: self.id },
                        ),
                    );
                    assert(contents(messages@) =~= seq![
                        ClientMessage::InitializeStreaming { id: old(self).id() },
                    ]);
                    SessionAction::Send(messages)
                },
                _ => {
                    self.phase = SessionPhase::Finished;
                    SessionAction::GiveUp
                },
            },
            SessionPhase::Initialization => match message {
                Some(ServerToClientMessage::InitializationComplete(_)) => {
                    self.phase = SessionPhase::Result;
                    SessionAction::Send(recording_messages(self.id, &self.samples))
                },
                _ => {
                    self.phase = SessionPhase::Finished;
                    SessionAction::GiveUp
                },
            },
            _ => match message {
                Some(ServerToClientMessage::SttResult(success)) => {
                    self.phase = SessionPhase::Finished;
                    SessionAction::Finish(success.result)
                },
                _ => SessionAction::Wait,
            },
        }
    }
}

/// The chunks of a recording, put together again, are the recording.
pub proof fn law_chunks_are_the_recording(id: u128, samples: Seq<i16>)
    ensures
        crate::dispatch::audio_sent(id, audio_messages(id, samples)) == samples,
        crate::dispatch::keep_open(id, audio_messages(id, samples)),
        forall|i: int|
            0 <= i < chunk_count(samples.len()) ==> 0 < (#[trigger] chunk(samples, i)).len()
                <= CHUNK,
{
    let messages = audio_messages(id, samples);
    lemma_first_chunks(id, samples, messages.len() as int);
    assert(messages.take(messages.len() as int) =~= messages);
    let sent = crate::dispatch::audio_sent(id, messages);
    assert(sent =~= samples);
}

/// The first chunks of a recording are its beginning.
proof fn lemma_first_chunks(id: u128, samples: Seq<i16>, n: int)
    requires
        0 <= n <= chunk_count(samples.len()),
    ensures
        crate::dispatch::audio_sent(id, audio_messages(id, samples).take(n)) == samples.take(
            if CHUNK * n < samples.len() {
                CHUNK * n
            } else {
                samples.len() as int
            },
        ),
    decreases n,
{
    let first = audio_messages(id, samples).take(n);
    if n == 0 {
        assert(samples.take(0) =~= Seq::empty());
    } else {
        lemma_first_chunks(id, samples, n - 1);
        assert(first.drop_last() =~= audio_messages(id, samples).take(n - 1));
        let before = samples.take(CHUNK * (n - 1));
        assert(before + chunk(samples, n - 1) =~= samples.take(
            if CHUNK * n < samples.len() {
                CHUNK * n
            } else {
                samples.len() as int
            },
        ));
    }
}

/// From end to end: when a server has taken in the messages that a client sends, whatever streams
/// it held before, ending the stream has the whole recording transcribed, as English and without
/// times.
pub proof fn law_recording_is_transcribed_whole(
    streams: Map<u128, SttStream>,
    id: u128,
    samples: Seq<i16>,
)
    ensures
        crate::dispatch::answer(
            crate::dispatch::streams_after_all(
                crate::dispatch::streams_after(
                    streams,
                    ClientMessage::InitializeStreaming { id },
                ),
                audio_messages(id, samples),
            ),
            final_message(id),
        ) == (Answer::Transcribe {
            id,
            job: Transcription {
                audio: samples,
                params: crate::stream::params_for("en"@, false),
                verbose: false,
            },
        }),
{
    law_chunks_are_the_recording(id, samples);
    crate::dispatch::law_streamed_audio_is_transcribed(
        streams,
        audio_messages(id, samples),
        id,
        "en"@,
        false,
        false,
    );
}

/// A recording is sent in pieces of 240 samples: every piece is full but the last, which holds the
/// rest, and each is sent to the client's own stream. There are as many as it takes.
pub proof fn law_pieces_of_a_recording(id: u128, samples: Seq<i16>, i: int)
    requires
        0 <= i < audio_messages(id, samples).len(),
    ensures
        ({
            let messages = audio_messages(id, samples);
            let last = messages.len() - 1;
            &&& 240 * last < samples.len() <= 240 * (last + 1)
            &&& messages[i] matches ClientMessage::AudioData { id: to, data }
            &&& to == id
            &&& i < last ==> data == samples.subrange(240 * i, 240 * i + 240)
            &&& i == last ==> data == samples.skip(240 * i)
        }),
{
    let count = chunk_count(samples.len());
    assert(240 * (count - 1) < samples.len() <= 240 * count);
    if i == count - 1 {
        assert(chunk(samples, i) =~= samples.skip(240 * i));
    }
}

/// An empty recording is sent in no pieces, and what ends a stream asks for a plain transcription
/// of English without translation, under the client's own identifier.
pub proof fn law_what_ends_a_recording(id: u128)
    ensures
        audio_messages(id, Seq::empty()).len() == 0,
        final_message(id) == (ClientMessage::FinalizeStreaming {
            id,
            language: "en"@,
            verbose: false,
            translate: false,
        }),
{
}

/// The mathematical content of several messages is that of each of them, in order.
pub proof fn law_contents_are_those_of_each_message(
    messages: Seq<ClientToServerMessage>,
    i: int,
)
    ensures
        contents(messages).len() == messages.len(),
        0 <= i < messages.len() ==> contents(messages)[i] == messages[i]@,
{
}

} // verus!
