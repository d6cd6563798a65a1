use stt_service::client::{
    check_format, recording_messages, FormatError, RecordingFormat, Session, SessionAction,
};
use stt_service::connection::ConnectionHandler;
use stt_service::dispatch::MessageAction;
use stt_service::message::{
    AudioData, ClientToServerMessage, FinalizeStreaming, InitializationComplete,
    InitializeStreaming, ServerToClientMessage, StatusConnectionData, StatusConnectionOpen,
    SttError, SttSuccess,
};
use stt_service::stream::SttStreams;

const GOOD: RecordingFormat = RecordingFormat {
    sample_rate: 16000,
    channels: 1,
    integer_samples: true,
    bits_per_sample: 16,
};

fn greeting() -> Option<ServerToClientMessage> {
    Some(ServerToClientMessage::StatusConnectionOpen(StatusConnectionOpen {
        max_utilization_bits: 0,
        can_overload: false,
    }))
}

fn initialized(id: u128) -> Option<ServerToClientMessage> {
    Some(ServerToClientMessage::InitializationComplete(InitializationComplete { id }))
}

fn ramp(len: usize) -> Vec<i16> {
    (0..len).map(|i| i as i16).collect()
}

#[test]
fn recording_formats() {
    assert_eq!(check_format(GOOD), Ok(()));
    assert_eq!(
        check_format(RecordingFormat { sample_rate: 44100, channels: 2, ..GOOD }),
        Err(FormatError::SampleRate(44100))
    );
    assert_eq!(
        check_format(RecordingFormat { channels: 2, ..GOOD }),
        Err(FormatError::Channels(2))
    );
    assert_eq!(
        check_format(RecordingFormat { integer_samples: false, ..GOOD }),
        Err(FormatError::NotInteger)
    );
    assert_eq!(
        check_format(RecordingFormat { bits_per_sample: 24, ..GOOD }),
        Err(FormatError::BitsPerSample(24))
    );
}

#[test]
fn recording_is_sent_in_chunks() {
    for (len, chunks) in [
        (0, vec![]),
        (1, vec![1]),
        (240, vec![240]),
        (241, vec![240, 1]),
        (700, vec![240, 240, 220]),
    ] {
        let samples = ramp(len);
        let messages = recording_messages(5, &samples);
        assert_eq!(messages.len(), chunks.len() + 1);
        let mut at = 0;
        for (message, size) in messages.iter().zip(&chunks) {
            assert_eq!(
                *message,
                ClientToServerMessage::AudioData(AudioData {
                    data: samples[at..at + size].to_vec(),
                    id: 5
                })
            );
            at += size;
        }
        assert_eq!(
            messages[chunks.len()],
            ClientToServerMessage::FinalizeStreaming(FinalizeStreaming {
                verbose: false,
                language: "en".to_string(),
                translate: false,
                id: 5
            })
        );
    }
}

#[test]
fn session_runs_through() {
    let mut session = Session::new(9, ramp(250));
    match session.on_message(greeting()) {
        SessionAction::Send(messages) => assert_eq!(
            messages,
            [ClientToServerMessage::InitializeStreaming(InitializeStreaming { id: 9 })]
        ),
        other => panic!("{:?}", other),
    }
    match session.on_message(initialized(9)) {
        SessionAction::Send(messages) => {
            assert_eq!(messages, recording_messages(9, &ramp(250)))
        }
        other => panic!("{:?}", other),
    }
    assert!(matches!(session.on_message(None), SessionAction::Wait));
    let status = ServerToClientMessage::StatusConnectionData(StatusConnectionData { utilization: 1 });
    assert!(matches!(session.on_message(Some(status)), SessionAction::Wait));
    let failure = ServerToClientMessage::SttError(SttError {
        id: 9,
        error: "x".to_string(),
    });
    assert!(matches!(session.on_message(Some(failure)), SessionAction::Wait));
    let success = ServerToClientMessage::SttResult(SttSuccess {
        id: 9,
        result: "Experience proves this.".to_string(),
    });
    assert!(matches!(
        session.on_message(Some(success)),
        SessionAction::Finish(text) if text == "Experience proves this."
    ));
}

#[test]
fn session_gives_up_on_a_wrong_message() {
    let mut session = Session::new(9, vec![]);
    assert!(matches!(session.on_message(initialized(9)), SessionAction::GiveUp));
    let mut session = Session::new(9, vec![]);
    session.on_message(greeting());
    assert!(matches!(session.on_message(greeting()), SessionAction::GiveUp));
}

#[test]
fn whole_recording_reaches_the_model() {
    let samples = ramp(1000);
    let mut streams = SttStreams::new();
    let mut messages = vec![ClientToServerMessage::InitializeStreaming(InitializeStreaming {
        id: 9,
    })];
    messages.extend(recording_messages(9, &samples));
    let mut jobs = Vec::new();
    for message in messages {
        if let MessageAction::Transcribe { id, job } =
            ConnectionHandler::handle_message(message, &mut streams)
        {
            jobs.push((id, job));
        }
    }
    assert_eq!(jobs.len(), 1);
    assert_eq!(jobs[0].0, 9);
    assert_eq!(jobs[0].1.audio, samples);
    assert_eq!(jobs[0].1.params.language, "en");
    assert!(!jobs[0].1.verbose);
}
