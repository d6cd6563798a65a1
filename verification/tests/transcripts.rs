use stt_service::model::{
    get_load, get_new_model, load_models, LoadAction, LoadFailure, LoadProgress, WaitingCount,
};
use stt_service::text::{parse_flag, parse_unsigned, push_decimal, push_digits};
use stt_service::transcript::{SegmentReply, TaskAction, TaskEvent, TranscriptionTask};

fn segment(text: &str, start: i64, end: i64) -> SegmentReply<u8> {
    SegmentReply {
        text: Ok(text.to_string()),
        start: Ok(start),
        end: Ok(end),
    }
}

/// Runs a transcription to its end. Also gives what was done on the way.
fn transcribe(
    run: Result<(), u8>,
    segments: Result<Vec<SegmentReply<u8>>, u8>,
    verbose: bool,
) -> (Result<String, u8>, Vec<TaskAction<u8>>) {
    let mut done = Vec::new();
    let mut task = TranscriptionTask::new(verbose);
    let mut event = TaskEvent::Requested;
    loop {
        let (next, action) = task.step(event);
        task = next;
        let found = segments.as_deref().unwrap_or(&[]);
        event = match &action {
            TaskAction::AcquirePermit => TaskEvent::Permitted,
            TaskAction::CreateState => TaskEvent::Created(true),
            TaskAction::Run => TaskEvent::Ran(run),
            TaskAction::ReleasePermit => TaskEvent::Released,
            TaskAction::CountSegments => TaskEvent::Counted(match &segments {
                Ok(found) => Ok(found.len() as i32),
                Err(e) => Err(*e),
            }),
            TaskAction::ReadText(i) => TaskEvent::Text(found[*i as usize].text.clone()),
            TaskAction::ReadStart(i) => TaskEvent::Time(found[*i as usize].start),
            TaskAction::ReadEnd(i) => TaskEvent::Time(found[*i as usize].end),
            TaskAction::Finish(result) => return (result.clone(), done),
            TaskAction::GiveUp => panic!("no model"),
        };
        done.push(action);
    }
}

#[test]
fn plain_transcript() {
    let (result, done) = transcribe(
        Ok(()),
        Ok(vec![segment(" Experience", 0, 90), segment(" proves this.", 90, 200)]),
        false,
    );
    assert_eq!(result, Ok(" Experience\n proves this.\n".to_string()));
    assert_eq!(
        done,
        vec![
            TaskAction::AcquirePermit,
            TaskAction::CreateState,
            TaskAction::Run,
            TaskAction::ReleasePermit,
            TaskAction::CountSegments,
            TaskAction::ReadText(0),
            TaskAction::ReadText(1),
        ]
    );
}

#[test]
fn verbose_transcript() {
    let (result, done) = transcribe(
        Ok(()),
        Ok(vec![segment("a", 0, 150), segment("b", -1, i64::MIN)]),
        true,
    );
    assert_eq!(
        result,
        Ok("[0 - 150]: a\n[-1 - -9223372036854775808]: b\n".to_string())
    );
    assert_eq!(
        done[5..],
        [
            TaskAction::ReadText(0),
            TaskAction::ReadStart(0),
            TaskAction::ReadEnd(0),
            TaskAction::ReadText(1),
            TaskAction::ReadStart(1),
            TaskAction::ReadEnd(1),
        ]
    );
}

#[test]
fn no_segments_give_no_text() {
    assert_eq!(transcribe(Ok(()), Ok(vec![]), true).0, Ok(String::new()));
}

#[test]
fn failed_run_comes_first() {
    let (result, done) = transcribe(Err(1), Err(2), false);
    assert_eq!(result, Err(1));
    // The place is free again, and nothing is read.
    assert_eq!(done.last(), Some(&TaskAction::ReleasePermit));
    assert_eq!(transcribe(Ok(()), Err(2), false).0, Err(2));
}

#[test]
fn first_failing_segment_decides() {
    let broken = |e| SegmentReply {
        text: Err(e),
        start: Ok(0),
        end: Ok(0),
    };
    let (result, done) = transcribe(
        Ok(()),
        Ok(vec![segment("a", 0, 1), broken(7), broken(8)]),
        false,
    );
    assert_eq!(result, Err(7));
    assert_eq!(done.last(), Some(&TaskAction::ReadText(1)));
}

#[test]
fn times_only_matter_when_verbose() {
    let untimed = || SegmentReply {
        text: Ok("a".to_string()),
        start: Err(3),
        end: Err(4),
    };
    assert_eq!(transcribe(Ok(()), Ok(vec![untimed()]), false).0, Ok("a\n".to_string()));
    assert_eq!(transcribe(Ok(()), Ok(vec![untimed()]), true).0, Err(3));
    let unended = SegmentReply {
        start: Ok(0),
        ..untimed()
    };
    assert_eq!(transcribe(Ok(()), Ok(vec![unended]), true).0, Err(4));
}

#[test]
fn transcription_without_a_model_is_given_up() {
    let task: TranscriptionTask<u8> = TranscriptionTask::new(false);
    let (task, action) = task.step(TaskEvent::Requested);
    assert_eq!(action, TaskAction::AcquirePermit);
    let (task, action) = task.step(TaskEvent::Permitted);
    assert_eq!(action, TaskAction::CreateState);
    let (_, action) = task.step(TaskEvent::Created(false));
    assert_eq!(action, TaskAction::GiveUp);
}

#[test]
fn decimal_text() {
    for n in [0, 9, 10, 12345, -1, -10, i64::MAX, i64::MIN] {
        let mut s = String::new();
        push_decimal(&mut s, n);
        assert_eq!(s, n.to_string());
    }
    let mut s = "n=".to_string();
    push_digits(&mut s, u64::MAX);
    assert_eq!(s, "n=18446744073709551615");
}

#[test]
fn unsigned_numbers_are_read_like_the_standard_library_reads_them() {
    for text in [
        "", "+", "-", "0", "7", "+7", "++7", "-7", "007", "65535", "65536", "99999", " 7", "7 ",
        "7a", "\u{663}", "70000000000000000000000",
    ] {
        assert_eq!(
            parse_unsigned(text, u16::MAX as u64),
            text.parse::<u16>().ok().map(|n| n as u64),
            "{:?}",
            text
        );
    }
    assert_eq!(parse_unsigned("18446744073709551615", u64::MAX), Some(u64::MAX));
    assert_eq!(parse_unsigned("18446744073709551616", u64::MAX), None);
}

#[test]
fn flags_are_read_like_the_standard_library_reads_them() {
    for text in ["true", "false", "", "True", "true ", "1"] {
        assert_eq!(parse_flag(text), text.parse::<bool>().unwrap_or(false));
    }
}

#[test]
fn loading_takes_four_steps() {
    assert_eq!(load_models(LoadProgress::Nothing, 14), LoadAction::OpenModel);
    assert_eq!(
        load_models(LoadProgress::ModelOpened(true), 14),
        LoadAction::InitializeEncoder
    );
    assert_eq!(
        load_models(LoadProgress::EncoderInitialized(true), 14),
        LoadAction::StoreModel
    );
    assert_eq!(
        load_models(LoadProgress::ModelStored(true), 14),
        LoadAction::StoreLimit { permits: 14 }
    );
    assert_eq!(load_models(LoadProgress::LimitStored(true), 14), LoadAction::Ready);
}

#[test]
fn failed_steps_end_loading() {
    assert_eq!(
        load_models(LoadProgress::ModelOpened(false), 1),
        LoadAction::Fail(LoadFailure::ModelNotLoaded)
    );
    assert_eq!(
        load_models(LoadProgress::EncoderInitialized(false), 1),
        LoadAction::Fail(LoadFailure::EncoderNotInitialized { exit_status: 1 })
    );
    assert_eq!(
        load_models(LoadProgress::ModelStored(false), 1),
        LoadAction::Fail(LoadFailure::ModelAlreadySet)
    );
    assert_eq!(
        load_models(LoadProgress::LimitStored(false), 1),
        LoadAction::Fail(LoadFailure::LimitAlreadySet)
    );
}

#[test]
fn new_model_needs_a_created_state() {
    assert_eq!(get_new_model::<u8, u8>(Some(Ok(5))), Some(5));
    assert_eq!(get_new_model::<u8, u8>(Some(Err(5))), None);
    assert_eq!(get_new_model::<u8, u8>(None), None);
}

#[test]
fn load_is_the_waiting_count() {
    assert_eq!(get_load(&WaitingCount { waiting: 3 }), 3);
}

#[test]
fn load_follows_transcriptions_through_their_places() {
    // Three transcriptions, one place.
    let mut count = WaitingCount { waiting: 0 };
    let mut tasks: Vec<TranscriptionTask<u8>> = Vec::new();
    for waiting in 1..=3 {
        count.observe(&TaskEvent::<u8>::Requested);
        tasks.push(TranscriptionTask::new(false).step(TaskEvent::Requested).0);
        assert_eq!(get_load(&count), waiting);
    }
    for (i, task) in tasks.into_iter().enumerate() {
        count.observe(&TaskEvent::<u8>::Permitted);
        assert_eq!(get_load(&count), 2 - i);
        let (task, _) = task.step(TaskEvent::Permitted);
        let mut task = task;
        for event in [
            TaskEvent::Created(true),
            TaskEvent::Ran(Err(1)),
            TaskEvent::Released,
        ] {
            count.observe(&event);
            task = task.step(event).0;
            assert_eq!(get_load(&count), 2 - i);
        }
    }
}
