use stt_service::connection::{
    ConnectionAction, ConnectionEvent, ConnectionHandler, STATUS_INTERVAL,
};
use stt_service::error::{ConnectionHandlerError, IoError, IoErrorKind};
use stt_service::frame::encode_frame;
use stt_service::message::{
    ClientToServerMessage, FatalIoError, InitializeStreaming, ServerToClientMessage,
    StatusConnectionData, StatusConnectionOpen,
};

const MAGIC: [u8; 4] = [1, 2, 3, 4];

fn new_handler() -> ConnectionHandler {
    ConnectionHandler::new(
        MAGIC,
        100,
        StatusConnectionOpen {
            max_utilization_bits: 4.0f64.to_bits(),
            can_overload: true,
        },
    )
}

fn reading_handler() -> ConnectionHandler {
    let mut handler = new_handler();
    handler.handle(ConnectionEvent::Opened);
    handler.handle(ConnectionEvent::Sent(Ok(())));
    handler.handle(ConnectionEvent::WriterStarted);
    handler
}

fn decoding_handler(payload: &[u8]) -> ConnectionHandler {
    let mut handler = reading_handler();
    let bytes = encode_frame(&MAGIC, payload);
    handler.handle(ConnectionEvent::Read(Ok(bytes[..1].to_vec())));
    handler.handle(ConnectionEvent::Read(Ok(bytes[1..4].to_vec())));
    handler.handle(ConnectionEvent::Read(Ok(bytes[4..12].to_vec())));
    let action = handler.handle(ConnectionEvent::Read(Ok(bytes[12..].to_vec())));
    assert!(matches!(action, ConnectionAction::Decode(found) if found == payload));
    handler
}

fn broken_pipe() -> ConnectionHandlerError {
    ConnectionHandlerError::Io(IoError {
        kind: IoErrorKind::BrokenPipe,
        message: "channel closed".to_string(),
    })
}

fn waits_until(action: ConnectionAction, at: u64) -> bool {
    matches!(action, ConnectionAction::Read { len: 1, deadline: Some(deadline) } if deadline == at)
}

#[test]
fn connection_opens_with_a_status_message() {
    let mut handler = new_handler();
    let action = handler.handle(ConnectionEvent::Opened);
    assert!(matches!(
        action,
        ConnectionAction::Send(ServerToClientMessage::StatusConnectionOpen(open))
            if f64::from_bits(open.max_utilization_bits) == 4.0 && open.can_overload
    ));
    let action = handler.handle(ConnectionEvent::Sent(Ok(())));
    assert!(matches!(action, ConnectionAction::StartWriter));
    let action = handler.handle(ConnectionEvent::WriterStarted);
    assert!(waits_until(action, 5_000_000_100));
}

#[test]
fn failed_greeting_is_reported_and_ends() {
    for report in [Ok(()), Err(broken_pipe())] {
        let mut handler = new_handler();
        handler.handle(ConnectionEvent::Opened);
        let action = handler.handle(ConnectionEvent::Sent(Err(broken_pipe())));
        assert!(matches!(
            action,
            ConnectionAction::Send(ServerToClientMessage::FatalIoError(fatal))
                if fatal.error == "IO error: channel closed"
        ));
        let action = handler.handle(ConnectionEvent::Sent(report));
        assert!(matches!(action, ConnectionAction::Close));
    }
}

#[test]
fn frame_is_read_in_pieces() {
    let mut handler = reading_handler();
    let action = handler.handle(ConnectionEvent::Read(Ok(vec![1])));
    assert!(matches!(
        action,
        ConnectionAction::Read {
            len: 3,
            deadline: None
        }
    ));
    let action = handler.handle(ConnectionEvent::Read(Ok(vec![2, 3, 4])));
    assert!(matches!(
        action,
        ConnectionAction::Read {
            len: 8,
            deadline: None
        }
    ));
    let action = handler.handle(ConnectionEvent::Read(Ok(vec![0, 0, 0, 0, 0, 0, 1, 0])));
    assert!(matches!(
        action,
        ConnectionAction::Read {
            len: 256,
            deadline: None
        }
    ));
    let action = handler.handle(ConnectionEvent::Read(Ok(vec![6; 256])));
    assert!(matches!(action, ConnectionAction::Decode(payload) if payload == vec![6; 256]));
}

fn sends(action: ConnectionAction, message: ServerToClientMessage) -> bool {
    matches!(action, ConnectionAction::Send(sent) if sent == message)
}

/// Whether a connection closes next, no matter what becomes of its last message.
fn closes_after_last_message(make: impl Fn() -> ConnectionHandler) -> bool {
    [
        Ok(()),
        Err(broken_pipe()),
        Err(ConnectionHandlerError::MsgPackEncode("x".to_string())),
    ]
    .into_iter()
    .all(|sent| {
        let action = make().handle(ConnectionEvent::Sent(sent));
        matches!(action, ConnectionAction::Close)
    })
}

#[test]
fn invalid_magic_is_reported_and_ends_the_connection() {
    assert!(closes_after_last_message(|| {
        let mut handler = reading_handler();
        handler.handle(ConnectionEvent::Read(Ok(vec![1])));
        let action = handler.handle(ConnectionEvent::Read(Ok(vec![2, 3, 5])));
        assert!(sends(action, ServerToClientMessage::FatalUserError));
        handler
    }));
}

#[test]
fn missing_first_byte_is_reported_and_ends_the_connection() {
    assert!(closes_after_last_message(|| {
        let mut handler = reading_handler();
        let action = handler.handle(ConnectionEvent::Read(Ok(vec![])));
        assert!(sends(
            action,
            ServerToClientMessage::FatalIoError(FatalIoError {
                error: "IO error: failed to read magic bytes".to_string()
            })
        ));
        handler
    }));
}

#[test]
fn failed_read_is_reported_and_ends_the_connection() {
    assert!(closes_after_last_message(|| {
        let mut handler = reading_handler();
        handler.handle(ConnectionEvent::Read(Ok(vec![1])));
        let action = handler.handle(ConnectionEvent::Read(Err(ConnectionHandlerError::Io(
            IoError {
                kind: IoErrorKind::UnexpectedEof,
                message: "early eof".to_string(),
            },
        ))));
        assert!(sends(
            action,
            ServerToClientMessage::FatalIoError(FatalIoError {
                error: "IO error: early eof".to_string()
            })
        ));
        handler
    }));
}

fn rejecting_handler() -> ConnectionHandler {
    let mut handler = decoding_handler(&[0xc1]);
    let action = handler.handle(ConnectionEvent::Decoded(Err(
        ConnectionHandlerError::MsgPackDecode("reserved".to_string()),
    )));
    assert!(sends(action, ServerToClientMessage::FatalUserError));
    handler
}

#[test]
fn undecodable_message_is_reported_and_skipped() {
    let action = rejecting_handler().handle(ConnectionEvent::Sent(Ok(())));
    assert!(waits_until(action, 5_000_000_100));
    let action = rejecting_handler().handle(ConnectionEvent::Sent(Err(broken_pipe())));
    assert!(matches!(action, ConnectionAction::Close));
}

#[test]
fn answer_closes_the_connection_if_it_says_so() {
    let mut handler = reading_handler();
    let action = handler.handle(ConnectionEvent::Answered { close: false });
    assert!(waits_until(action, 5_000_000_100));
    // In the middle of a frame, too.
    handler.handle(ConnectionEvent::Read(Ok(vec![1])));
    let action = handler.handle(ConnectionEvent::Answered { close: false });
    assert!(matches!(
        action,
        ConnectionAction::Read {
            len: 3,
            deadline: None
        }
    ));
    let action = handler.handle(ConnectionEvent::Answered { close: true });
    assert!(matches!(action, ConnectionAction::Close));
}

#[test]
fn decoded_message_is_handed_on() {
    let mut handler = decoding_handler(&[1, 2]);
    let message =
        || ClientToServerMessage::InitializeStreaming(InitializeStreaming { id: 0xabcd });
    let action = handler.handle(ConnectionEvent::Decoded(Ok(message())));
    assert!(matches!(action, ConnectionAction::Dispatch(found) if found == message()));
    let action = handler.handle(ConnectionEvent::Dispatched);
    assert!(waits_until(action, 5_000_000_100));
}

#[test]
fn close_message_ends_the_connection() {
    let mut handler = decoding_handler(&[]);
    let action = handler.handle(ConnectionEvent::Decoded(Ok(
        ClientToServerMessage::CloseConnection,
    )));
    assert!(matches!(action, ConnectionAction::Close));
}

#[test]
fn quiet_connection_reports_the_load_and_waits_again() {
    let mut handler = reading_handler();
    let now = 5_000_000_321;
    let action = handler.handle(ConnectionEvent::TimedOut { now, load: 12 });
    assert!(matches!(
        action,
        ConnectionAction::Send(message) if message
            == ServerToClientMessage::StatusConnectionData(StatusConnectionData { utilization: 12 })
    ));
    let action = handler.handle(ConnectionEvent::Sent(Ok(())));
    assert!(matches!(action, ConnectionAction::CheckShutdown));
    let action = handler.handle(ConnectionEvent::ShutdownChecked(false));
    assert!(waits_until(action, now + STATUS_INTERVAL));
}

#[test]
fn shutdown_is_announced_and_ends_a_quiet_connection() {
    assert!(closes_after_last_message(|| {
        let mut handler = reading_handler();
        handler.handle(ConnectionEvent::TimedOut {
            now: 5_000_000_100,
            load: 0,
        });
        handler.handle(ConnectionEvent::Sent(Ok(())));
        let action = handler.handle(ConnectionEvent::ShutdownChecked(true));
        assert!(sends(action, ServerToClientMessage::ShuttingDown));
        handler
    }));
}

#[test]
fn lost_status_report_ends_the_connection() {
    let mut handler = reading_handler();
    handler.handle(ConnectionEvent::TimedOut {
        now: 5_000_000_100,
        load: 0,
    });
    let action = handler.handle(ConnectionEvent::Sent(Err(broken_pipe())));
    assert!(matches!(action, ConnectionAction::Close));
}

#[test]
fn recoverable_status_error_is_survived() {
    let mut handler = reading_handler();
    handler.handle(ConnectionEvent::TimedOut {
        now: 5_000_000_100,
        load: 0,
    });
    let action = handler.handle(ConnectionEvent::Sent(Err(
        ConnectionHandlerError::MsgPackEncode("x".to_string()),
    )));
    assert!(matches!(action, ConnectionAction::CheckShutdown));
}

#[test]
fn errors_and_their_texts() {
    let decode = ConnectionHandlerError::MsgPackDecode("bad marker".to_string());
    let encode = ConnectionHandlerError::MsgPackEncode("bad value".to_string());
    let magic = ConnectionHandlerError::InvalidMagicBytes([0, 9, 10, 255]);
    assert_eq!(broken_pipe().text(), "IO error: channel closed");
    assert_eq!(decode.text(), "MsgPack decode error: bad marker");
    assert_eq!(encode.text(), "MsgPack encode error: bad value");
    assert_eq!(magic.text(), "invalid magic bytes: [0, 9, 10, 255]");
    assert_eq!(magic.text(), format!("invalid magic bytes: {:?}", [0u8, 9, 10, 255]));
    assert!(!broken_pipe().is_recoverable());
    assert!(decode.is_recoverable());
    assert!(encode.is_recoverable());
    assert!(!magic.is_recoverable());
}

#[test]
fn messages_are_handed_on_in_order() {
    let mut handler = reading_handler();
    let mut handed_on = Vec::new();
    for id in [3, 1, 2] {
        let bytes = encode_frame(&MAGIC, &[id as u8]);
        let mut at = 0;
        let mut wanted = 1;
        loop {
            let piece = bytes[at..at + wanted].to_vec();
            at += wanted;
            match handler.handle(ConnectionEvent::Read(Ok(piece))) {
                ConnectionAction::Read { len, .. } => wanted = len as usize,
                ConnectionAction::Decode(payload) => {
                    assert_eq!(payload, [id as u8]);
                    break;
                }
                other => panic!("{:?}", other),
            }
        }
        let message = ClientToServerMessage::InitializeStreaming(InitializeStreaming { id });
        match handler.handle(ConnectionEvent::Decoded(Ok(message))) {
            ConnectionAction::Dispatch(ClientToServerMessage::InitializeStreaming(m)) => {
                handed_on.push(m.id)
            }
            other => panic!("{:?}", other),
        }
        handler.handle(ConnectionEvent::Dispatched);
    }
    assert_eq!(handed_on, [3, 1, 2]);
}
