use stt_service::connection::ConnectionHandler;
use stt_service::dispatch::{MessageAction, WriterAction, WriterEvent};
use stt_service::error::{ConnectionHandlerError, IoError, IoErrorKind};
use stt_service::message::{
    AudioData, ClientToServerMessage, FinalizeStreaming, InitializationComplete,
    InitializeStreaming, ServerToClientMessage, SttError, SttSuccess,
};
use stt_service::stream::{create_model_params, ModelParams, SttStreamingState, SttStreams};

fn initialize(id: u128) -> ClientToServerMessage {
    ClientToServerMessage::InitializeStreaming(InitializeStreaming { id })
}

fn audio(id: u128, data: &[i16]) -> ClientToServerMessage {
    ClientToServerMessage::AudioData(AudioData {
        data: data.to_vec(),
        id,
    })
}

fn finalize(id: u128) -> ClientToServerMessage {
    ClientToServerMessage::FinalizeStreaming(FinalizeStreaming {
        verbose: true,
        language: "de".to_string(),
        translate: true,
        id,
    })
}

fn transcribed(action: MessageAction) -> (u128, Vec<i16>) {
    match action {
        MessageAction::Transcribe { id, job } => (id, job.audio),
        other => panic!("not transcribed: {:?}", other),
    }
}

fn no_model(id: u128) -> ServerToClientMessage {
    ServerToClientMessage::SttError(SttError {
        id,
        error: "no model loaded for this id".to_string(),
    })
}

#[test]
fn initialization_is_confirmed() {
    let mut streams = SttStreams::new();
    let action = ConnectionHandler::handle_message(initialize(7), &mut streams);
    assert!(matches!(
        action,
        MessageAction::Send(message) if message
            == ServerToClientMessage::InitializationComplete(InitializationComplete { id: 7 })
    ));
}

#[test]
fn audio_is_collected_and_transcribed() {
    let mut streams = SttStreams::new();
    ConnectionHandler::handle_message(initialize(7), &mut streams);
    for chunk in [&[1, 2][..], &[], &[-3]] {
        let action = ConnectionHandler::handle_message(audio(7, chunk), &mut streams);
        assert!(matches!(action, MessageAction::Done { close: false }));
    }
    match ConnectionHandler::handle_message(finalize(7), &mut streams) {
        MessageAction::Transcribe { id, job } => {
            assert_eq!(id, 7);
            assert_eq!(job.audio, [1, 2, -3]);
            assert!(job.verbose);
            assert_eq!(
                job.params,
                ModelParams {
                    best_of: 1,
                    n_threads: 1,
                    print_progress: false,
                    print_realtime: false,
                    print_timestamps: false,
                    no_context: true,
                    suppress_non_speech_tokens: true,
                    translate: true,
                    language: "de".to_string(),
                }
            );
        }
        other => panic!("not transcribed: {:?}", other),
    }
}

#[test]
fn audio_before_initialization_is_ignored() {
    let mut streams = SttStreams::new();
    let action = ConnectionHandler::handle_message(audio(1, &[9, 9]), &mut streams);
    assert!(matches!(action, MessageAction::Done { close: false }));
    ConnectionHandler::handle_message(initialize(1), &mut streams);
    ConnectionHandler::handle_message(audio(1, &[4]), &mut streams);
    let action = ConnectionHandler::handle_message(finalize(1), &mut streams);
    assert_eq!(transcribed(action), (1, vec![4]));
}

#[test]
fn audio_without_initialization_makes_no_stream() {
    let mut streams = SttStreams::new();
    ConnectionHandler::handle_message(initialize(2), &mut streams);
    let action = ConnectionHandler::handle_message(audio(1, &[9, 8]), &mut streams);
    assert!(matches!(action, MessageAction::Done { close: false }));
    let action = ConnectionHandler::handle_message(finalize(1), &mut streams);
    assert!(matches!(action, MessageAction::Send(message) if message == no_model(1)));
    let action = ConnectionHandler::handle_message(finalize(2), &mut streams);
    assert_eq!(transcribed(action), (2, vec![]));
}

#[test]
fn audio_after_the_end_of_a_stream_is_ignored() {
    let mut streams = SttStreams::new();
    ConnectionHandler::handle_message(initialize(1), &mut streams);
    ConnectionHandler::handle_message(finalize(1), &mut streams);
    streams.feed_audio(1, vec![7]);
    assert!(streams.remove(1).is_none());
}

#[test]
fn streams_do_not_mix() {
    let mut streams = SttStreams::new();
    ConnectionHandler::handle_message(initialize(1), &mut streams);
    ConnectionHandler::handle_message(initialize(u128::MAX), &mut streams);
    ConnectionHandler::handle_message(audio(1, &[1]), &mut streams);
    ConnectionHandler::handle_message(audio(u128::MAX, &[2]), &mut streams);
    ConnectionHandler::handle_message(audio(1, &[3]), &mut streams);
    let other = ConnectionHandler::handle_message(finalize(u128::MAX), &mut streams);
    assert_eq!(transcribed(other), (u128::MAX, vec![2]));
    let one = ConnectionHandler::handle_message(finalize(1), &mut streams);
    assert_eq!(transcribed(one), (1, vec![1, 3]));
}

#[test]
fn unknown_stream_is_refused() {
    let mut streams = SttStreams::new();
    ConnectionHandler::handle_message(initialize(1), &mut streams);
    let action = ConnectionHandler::handle_message(finalize(2), &mut streams);
    assert!(matches!(action, MessageAction::Send(message) if message == no_model(2)));
    let action = ConnectionHandler::handle_message(finalize(1), &mut streams);
    assert_eq!(transcribed(action), (1, vec![]));
}

#[test]
fn second_end_of_a_stream_is_refused() {
    let mut streams = SttStreams::new();
    ConnectionHandler::handle_message(initialize(1), &mut streams);
    ConnectionHandler::handle_message(finalize(1), &mut streams);
    let action = ConnectionHandler::handle_message(finalize(1), &mut streams);
    assert!(matches!(action, MessageAction::Send(message) if message == no_model(1)));
}

#[test]
fn close_request_asks_to_close() {
    let mut streams = SttStreams::new();
    let action =
        ConnectionHandler::handle_message(ClientToServerMessage::CloseConnection, &mut streams);
    assert!(matches!(action, MessageAction::Done { close: true }));
}

#[test]
fn registry_operations() {
    let mut streams = SttStreams::new();
    assert!(streams.remove(1).is_none());
    let mut stream = SttStreamingState::new("fr".to_string());
    stream.feed_audio(vec![1]);
    streams.insert(1, stream);
    streams.feed_audio(1, vec![2]);
    let job = streams.remove(1).unwrap().finish_stream(true);
    assert_eq!(job.audio, [1, 2]);
    assert_eq!(job.params, create_model_params("fr".to_string()));
    assert!(job.verbose);
    assert!(streams.remove(1).is_none());
}

#[test]
fn fed_stream_is_transcribed_whole() {
    for verbose in [false, true] {
        let mut stream = SttStreamingState::new("fr".to_string());
        stream.feed_audio(vec![1, -2]);
        stream.feed_audio(vec![]);
        stream.feed_audio(vec![i16::MAX, i16::MIN, 0]);
        let job = stream.finish_stream(verbose);
        assert_eq!(job.audio, [1, -2, i16::MAX, i16::MIN, 0]);
        assert_eq!(job.params, create_model_params("fr".to_string()));
        assert!(!job.params.translate);
        assert_eq!(job.verbose, verbose);
    }
    assert!(SttStreamingState::new(String::new()).finish_stream(false).audio.is_empty());
}

#[test]
fn transcription_replies() {
    assert_eq!(
        ConnectionHandler::transcription_reply(3, Ok("hello\n".to_string())),
        ServerToClientMessage::SttResult(SttSuccess {
            id: 3,
            result: "hello\n".to_string()
        })
    );
    assert_eq!(
        ConnectionHandler::transcription_reply(3, Err("no segments".to_string())),
        ServerToClientMessage::SttError(SttError {
            id: 3,
            error: "no segments".to_string()
        })
    );
}

#[test]
fn sent_transcription_or_lost_reply_closes() {
    let result = ConnectionHandler::transcription_reply(1, Ok("text".to_string()));
    let failure = ConnectionHandler::transcription_reply(1, Err("text".to_string()));
    let complete =
        ServerToClientMessage::InitializationComplete(InitializationComplete { id: 1 });
    assert!(ConnectionHandler::close_after_reply(&result, Ok(())));
    for reply in [&failure, &complete, &no_model(1)] {
        assert!(!ConnectionHandler::close_after_reply(reply, Ok(())));
    }
    for reply in [&result, &failure, &complete] {
        assert!(!ConnectionHandler::close_after_reply(
            reply,
            Err(ConnectionHandlerError::MsgPackEncode("x".to_string()))
        ));
        assert!(ConnectionHandler::close_after_reply(
            reply,
            ConnectionHandler::send_message(Err("channel closed".to_string()))
        ));
    }
}

#[test]
fn closed_channel_is_a_broken_pipe() {
    assert_eq!(ConnectionHandler::send_message(Ok(())), Ok(()));
    assert_eq!(
        ConnectionHandler::send_message(Err("channel closed".to_string())),
        Err(ConnectionHandlerError::Io(IoError {
            kind: IoErrorKind::BrokenPipe,
            message: "channel closed".to_string()
        }))
    );
}

#[test]
fn encoded_message_is_framed() {
    assert_eq!(
        ConnectionHandler::send_message_internal(&[1, 2, 3, 4], Ok(vec![5])),
        Ok(vec![1, 2, 3, 4, 0, 0, 0, 0, 0, 0, 0, 1, 5])
    );
    assert_eq!(
        ConnectionHandler::send_message_internal(&[1, 2, 3, 4], Err("too deep".to_string())),
        Err(ConnectionHandlerError::MsgPackEncode("too deep".to_string()))
    );
}

#[test]
fn writer_writes_until_the_end_or_an_error() {
    assert!(matches!(
        ConnectionHandler::send_message_loop(WriterEvent::Received(Some(no_model(1)))),
        WriterAction::Write(message) if message == no_model(1)
    ));
    assert!(matches!(
        ConnectionHandler::send_message_loop(WriterEvent::Received(None)),
        WriterAction::Shutdown
    ));
    assert!(matches!(
        ConnectionHandler::send_message_loop(WriterEvent::Written(Ok(()))),
        WriterAction::Receive
    ));
    assert!(matches!(
        ConnectionHandler::send_message_loop(WriterEvent::Written(Err(
            ConnectionHandlerError::MsgPackEncode("x".to_string())
        ))),
        WriterAction::Shutdown
    ));
}

/// Runs a writer on messages for the streams `1`, `2` and so on; writing the one for `failing`
/// fails. Gives the streams of the messages that were tried before it shut down.
fn run_writer(count: u128, failing: u128) -> Vec<u128> {
    let mut queue = (1..=count).map(no_model);
    let mut tried = Vec::new();
    let mut action = WriterAction::Receive;
    loop {
        let event = match action {
            WriterAction::Receive => WriterEvent::Received(queue.next()),
            WriterAction::Write(ServerToClientMessage::SttError(SttError { id, .. })) => {
                tried.push(id);
                WriterEvent::Written(if id == failing {
                    Err(ConnectionHandlerError::MsgPackEncode("x".to_string()))
                } else {
                    Ok(())
                })
            }
            WriterAction::Write(other) => panic!("{:?}", other),
            WriterAction::Shutdown => return tried,
        };
        action = ConnectionHandler::send_message_loop(event);
    }
}

#[test]
fn messages_are_written_up_to_the_first_failure() {
    assert!(run_writer(0, 0).is_empty());
    assert_eq!(run_writer(3, 0), [1, 2, 3]);
    assert_eq!(run_writer(3, 2), [1, 2]);
    assert_eq!(run_writer(3, 1), [1]);
}
