//! The audio streams that a server holds, by identifier.

use dashmap::DashMap;
use std::hash::RandomState;
use vstd::prelude::*;

verus! {

/// The mathematical content of a stream: its samples and the language that was asked for.
#[verifier::ext_equal]
pub struct SttStream {
    pub samples: Seq<i16>,
    pub language: Seq<char>,
}

/// A stream as it is right after it was set up: silent, no language.
pub open spec fn new_stream() -> SttStream {
    SttStream { samples: Seq::empty(), language: Seq::empty() }
}

/// A stream after more samples.
pub open spec fn fed(stream: SttStream, audio: Seq<i16>) -> SttStream {
    SttStream { samples: stream.samples + audio, language: stream.language }
}

/// The content of a server that holds no streams.
pub open spec fn no_streams() -> Map<u128, SttStream> {
    Map::empty()
}

/// How the model is to be run. Everything but the language and the translation is fixed: greedy
/// sampling of one candidate on one thread, nothing printed, no context kept between runs, and
/// only speech tokens.
#[derive(Debug, PartialEq, Eq)]
pub struct ModelParams {
    pub best_of: i32,
    pub n_threads: i32,
    pub print_progress: bool,
    pub print_realtime: bool,
    pub print_timestamps: bool,
    pub no_context: bool,
    pub suppress_non_speech_tokens: bool,
    pub translate: bool,
    pub language: String,
}

/// The mathematical content of [`ModelParams`].
#[verifier::ext_equal]
pub struct Params {
    pub best_of: i32,
    pub n_threads: i32,
    pub print_progress: bool,
    pub print_realtime: bool,
    pub print_timestamps: bool,
    pub no_context: bool,
    pub suppress_non_speech_tokens: bool,
    pub translate: bool,
    pub language: Seq<char>,
}

impl View for ModelParams {
    type V = Params;

    open spec fn view(&self) -> Params {
        Params {
            best_of: self.best_of,
            n_threads: self.n_threads,
            print_progress: self.print_progress,
            print_realtime: self.print_realtime,
            print_timestamps: self.print_timestamps,
            no_context: self.no_context,
            suppress_non_speech_tokens: self.suppress_non_speech_tokens,
            translate: self.translate,
            language: self.language@,
        }
    }
}

/// The parameters for a language, with or without translation.
pub open spec fn params_for(language: Seq<char>, translate: bool) -> Params {
    Params {
        best_of: 1,
        n_threads: 1,
        print_progress: false,
        print_realtime: false,
        print_timestamps: false,
        no_context: true,
        suppress_non_speech_tokens: true,
        translate,
        language,
    }
}

/// The parameters for transcribing a language.
pub fn create_model_params(language: String) -> (params: ModelParams)
    ensures
        params@ == params_for(language@, false),
{
    ModelParams {
        best_of: 1,
        n_threads: 1,
        print_progress: false,
        print_realtime: false,
        print_timestamps: false,
        no_context: true,
        suppress_non_speech_tokens: true,
        translate: false,
        language,
    }
}

/// What the model is to be run on: all samples of a stream, and how.
#[derive(Debug, PartialEq, Eq)]
pub struct TranscriptionJob {
    pub audio: Vec<i16>,
    pub params: ModelParams,
    pub verbose: bool,
}

/// The mathematical content of a [`TranscriptionJob`].
#[verifier::ext_equal]
pub struct Transcription {
    pub audio: Seq<i16>,
    pub params: Params,
    pub verbose: bool,
}

impl View for TranscriptionJob {
    type V = Transcription;

    open spec fn view(&self) -> Transcription {
        Transcription { audio: self.audio@, params: self.params@, verbose: self.verbose }
    }
}

/// What ending a stream asks the model for: all its samples, in its language.
pub open spec fn finished(stream: SttStream, verbose: bool) -> Transcription {
    Transcription {
        audio: stream.samples,
        params: params_for(stream.language, false),
        verbose,
    }
}

/// A stream: the samples received so far and the language to transcribe.
#[derive(Debug)]
pub struct SttStreamingState {
    stream_data: Vec<i16>,
    language: String,
}

impl View for SttStreamingState {
    type V = SttStream;

    closed spec fn view(&self) -> SttStream {
        SttStream { samples: self.stream_data@, language: self.language@ }
    }
}

impl SttStreamingState {
    /// A stream without samples.
    pub fn new(language: String) -> (stream: SttStreamingState)
        ensures
            stream@ == (SttStream { samples: Seq::empty(), language: language@ }),
    {
        SttStreamingState { stream_data: Vec::new(), language }
    }

    /// Appends samples.
    pub fn feed_audio(&mut self, audio: Vec<i16>)
        ensures
            final(self)@ == fed(old(self)@, audio@),
    {
        let mut audio: Vec<i16> = audio;
        self.stream_data.append(&mut audio);
    }

    /// The stream with samples appended.
    fn with_audio(self, audio: Vec<i16>) -> (stream: SttStreamingState)
        ensures
            stream@ == fed(self@, audio@),
    {
        let mut stream: SttStreamingState = self;
        stream.feed_audio(audio);
        stream
    }

    /// Ends the stream: all its samples are to be transcribed in its language.
    pub fn finish_stream(self, verbose: bool) -> (job: TranscriptionJob)
        ensures
            job@ == finished(self@, verbose),
    {
        TranscriptionJob {
            audio: self.stream_data,
            params: create_model_params(self.language),
            verbose,
        }
    }

    /// Ends the stream: all its samples are to be transcribed in the language given here, and
    /// translated if so asked.
    pub fn finish_stream_in(self, language: String, verbose: bool, translate: bool) -> (job:
        TranscriptionJob)
        ensures
            job@ == (Transcription {
                audio: self@.samples,
                params: params_for(language@, translate),
                verbose,
            }),
    {
        let stream: SttStreamingState = SttStreamingState {
            stream_data: self.stream_data,
            language,
        };
        let mut job: TranscriptionJob = stream.finish_stream(verbose);
        job.params.translate = translate;
        job
    }
}

/// The concurrent map of the `dashmap` crate.
#[verifier::external_type_specification]
#[verifier::external_body]
#[verifier::reject_recursive_types(K)]
#[verifier::reject_recursive_types(V)]
#[verifier::reject_recursive_types(S)]
pub struct ExDashMap<K, V, S>(DashMap<K, V, S>);

/// What a map of streams holds: for each identifier the stream's content.
pub uninterp spec fn held_streams(
    map: DashMap<u128, SttStreamingState, RandomState>,
) -> Map<u128, SttStream>;

/// `dashmap::DashMap::new`: a map that holds nothing.
#[verifier::external_body]
fn dash_new() -> (created: DashMap<u128, SttStreamingState, RandomState>)
    ensures
        held_streams(created) == no_streams(),
{
    DashMap::new()
}

/// `dashmap::DashMap::insert`: the value is held under the key, in place of the one that was
/// there. The reference is exclusive, so no other task is in the map.
#[verifier::external_body]
fn dash_insert(
    map: &mut DashMap<u128, SttStreamingState, RandomState>,
    id: u128,
    stream: SttStreamingState,
)
    ensures
        held_streams(*final(map)) == held_streams(*old(map)).insert(id, stream@),
{
    map.insert(id, stream);
}

/// `dashmap::DashMap::remove`: takes out the value under the key, if there is one, and leaves
/// every other key as it is.
#[verifier::external_body]
fn dash_remove(map: &mut DashMap<u128, SttStreamingState, RandomState>, id: u128) -> (removed:
    Option<SttStreamingState>)
    ensures
        held_streams(*final(map)) == held_streams(*old(map)).remove(id),
        removed is Some <==> held_streams(*old(map)).dom().contains(id),
        removed matches Some(stream) ==> stream@ == held_streams(*old(map))[id],
{
    map.remove(&id).map(|entry| entry.1)
}

/// `dashmap::DashMap::alter`: the value under the key, if there is one, is replaced by what the
/// function makes of it, here the stream with the samples appended. Every other key is left as
/// it is.
#[verifier::external_body]
fn dash_alter_with_audio(
    map: &mut DashMap<u128, SttStreamingState, RandomState>,
    id: u128,
    audio: Vec<i16>,
)
    ensures
        held_streams(*final(map)) == if held_streams(*old(map)).dom().contains(id) {
            held_streams(*old(map)).insert(id, fed(held_streams(*old(map))[id], audio@))
        } else {
            held_streams(*old(map))
        },
{
    map.alter(&id, |_id, stream| stream.with_audio(audio));
}

/// The streams that a server holds.
pub struct SttStreams {
    map: DashMap<u128, SttStreamingState, RandomState>,
}

impl View for SttStreams {
    type V = Map<u128, SttStream>;

    closed spec fn view(&self) -> Map<u128, SttStream> {
        held_streams(self.map)
    }
}

impl SttStreams {
    /// No streams.
    pub fn new() -> (streams: SttStreams)
        ensures
            streams@ == no_streams(),
    {
        SttStreams { map: dash_new() }
    }

    /// Sets up a stream, in place of the one that `id` had.
    pub fn insert(&mut self, id: u128, stream: SttStreamingState)
        ensures
            final(self)@ == old(self)@.insert(id, stream@),
    {
        dash_insert(&mut self.map, id, stream);
    }

    /// Appends samples to a stream. Samples for an `id` without a stream are ignored.
    pub fn feed_audio(&mut self, id: u128, audio: Vec<i16>)
        ensures
            final(self)@ == if old(self)@.dom().contains(id) {
                old(self)@.insert(id, fed(old(self)@[id], audio@))
            } else {
                old(self)@
            },
    {
        dash_alter_with_audio(&mut self.map, id, audio);
    }

    /// Takes out a stream, if there is one.
    pub fn remove(&mut self, id: u128) -> (removed: Option<SttStreamingState>)
        ensures
            final(self)@ == old(self)@.remove(id),
            removed is Some <==> old(self)@.dom().contains(id),
            removed matches Some(stream) ==> stream@ == old(self)@[id],
    {
        dash_remove(&mut self.map, id)
    }
}

/// A stream after several pieces of audio, one after the other.
pub open spec fn fed_all(stream: SttStream, pieces: Seq<Seq<i16>>) -> SttStream
    decreases pieces.len(),
{
    if pieces.len() == 0 {
        stream
    } else {
        fed(fed_all(stream, pieces.drop_last()), pieces.last())
    }
}

/// Several pieces of audio, put together in order.
pub open spec fn joined(pieces: Seq<Seq<i16>>) -> Seq<i16>
    decreases pieces.len(),
{
    if pieces.len() == 0 {
        Seq::empty()
    } else {
        joined(pieces.drop_last()) + pieces.last()
    }
}

/// A stream that is fed holds what it held and then all pieces, in order.
proof fn lemma_fed_all(stream: SttStream, pieces: Seq<Seq<i16>>)
    ensures
        fed_all(stream, pieces) == fed(stream, joined(pieces)),
    decreases pieces.len(),
{
    if pieces.len() > 0 {
        lemma_fed_all(stream, pieces.drop_last());
    }
    assert(fed_all(stream, pieces).samples =~= stream.samples + joined(pieces));
}

/// A stream that is set up for a language and fed piece by piece is transcribed whole: the model
/// gets all samples of all pieces, in order and nothing else, and that language. Whether times
/// are wanted changes neither.
pub proof fn law_fed_stream_is_transcribed_whole(
    language: Seq<char>,
    pieces: Seq<Seq<i16>>,
    verbose: bool,
)
    ensures
        finished(
            fed_all(SttStream { samples: Seq::empty(), language }, pieces),
            verbose,
        ) == (Transcription {
            audio: joined(pieces),
            params: params_for(language, false),
            verbose,
        }),
{
    lemma_fed_all(SttStream { samples: Seq::empty(), language }, pieces);
    assert(Seq::<i16>::empty() + joined(pieces) =~= joined(pieces));
}

/// The parameters of a transcription are the language and the translation that were asked for,
/// whatever they are; the rest is the same for all: one candidate on one thread, nothing printed,
/// no context, and only speech.
pub proof fn law_model_is_run_as_asked(language: Seq<char>, translate: bool)
    ensures
        params_for(language, translate).language == language,
        params_for(language, translate).translate == translate,
        params_for(language, translate).best_of == 1,
        params_for(language, translate).n_threads == 1,
        !params_for(language, translate).print_progress,
        !params_for(language, translate).print_realtime,
        !params_for(language, translate).print_timestamps,
        params_for(language, translate).no_context,
        params_for(language, translate).suppress_non_speech_tokens,
{
}

/// Ending a stream hands over all its samples and its language, untranslated, with times if they
/// are wanted.
pub proof fn law_ended_stream_hands_over_what_it_holds(stream: SttStream, verbose: bool)
    ensures
        finished(stream, verbose).audio == stream.samples,
        finished(stream, verbose).params.language == stream.language,
        !finished(stream, verbose).params.translate,
        finished(stream, verbose).verbose == verbose,
{
}

/// Feeding a stream adds the new samples behind the old ones, changes none of either, and leaves
/// the language alone. A new stream has neither samples nor a language.
pub proof fn law_samples_are_added_at_the_end(stream: SttStream, audio: Seq<i16>)
    ensures
        fed(stream, audio).samples.len() == stream.samples.len() + audio.len(),
        fed(stream, audio).samples.take(stream.samples.len() as int) == stream.samples,
        fed(stream, audio).samples.skip(stream.samples.len() as int) == audio,
        fed(stream, audio).language == stream.language,
        new_stream().samples.len() == 0,
        new_stream().language.len() == 0,
        no_streams().dom() == Set::<u128>::empty(),
{
    assert(fed(stream, audio).samples.take(stream.samples.len() as int) =~= stream.samples);
    assert(fed(stream, audio).samples.skip(stream.samples.len() as int) =~= audio);
    assert(no_streams().dom() =~= Set::<u128>::empty());
}

/// The mathematical content of a job is the job: all its samples, every parameter, and whether
/// times are wanted.
pub proof fn law_nothing_of_a_job_is_lost(job: TranscriptionJob)
    ensures
        job@.audio == job.audio@,
        job@.verbose == job.verbose,
        job@.params == job.params@,
        job.params@ == (Params {
            best_of: job.params.best_of,
            n_threads: job.params.n_threads,
            print_progress: job.params.print_progress,
            print_realtime: job.params.print_realtime,
            print_timestamps: job.params.print_timestamps,
            no_context: job.params.no_context,
            suppress_non_speech_tokens: job.params.suppress_non_speech_tokens,
            translate: job.params.translate,
            language: job.params.language@,
        }),
{
}

} // verus!
