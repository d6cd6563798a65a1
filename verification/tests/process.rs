use stt_service::error::IoErrorKind;
use stt_service::logging::{
    console_line, file_line, level_color, line_color, log_plan, log_server, log_server_line,
    log_server_url, LogColor, LogLevel, LogServerError, LogSink, SinkPlan,
};
use stt_service::server::{
    can_overload, choose_bind_address, choose_listener, is_fatal, is_listen_socket,
    is_socket_mode, read_settings, start_step, watchdog_required, AcceptAction, AcceptEvent, AcceptLoop, BindAddress, BindError,
    ListenerChoice, Settings, SettingsError, StartAction, StartFailure, StartProgress,
};
use tracing::log::{Level, LevelFilter, Log, Metadata};

fn text(s: &str) -> Option<String> {
    Some(s.to_string())
}

#[test]
fn settings_are_read() {
    assert_eq!(
        read_settings(text("/usr/share/whisper-models/ggml-base-q5_1.bin"), text("14")),
        Ok(Settings {
            model_path: "/usr/share/whisper-models/ggml-base-q5_1.bin".to_string(),
            instances: 14
        })
    );
    assert_eq!(read_settings(None, None), Err(SettingsError::MissingModelPath));
    assert_eq!(read_settings(text("m"), None), Err(SettingsError::MissingInstances));
    assert_eq!(
        read_settings(text("m"), text("many")),
        Err(SettingsError::MalformedInstances)
    );
}

#[test]
fn overload_must_be_allowed() {
    assert!(can_overload(text("true")));
    assert!(!can_overload(text("false")));
    assert!(!can_overload(text("yes")));
    assert!(!can_overload(None));
}

#[test]
fn watchdog_needs_a_manager() {
    assert_eq!(watchdog_required(true, Some(30_000_000)), Some(30_000_000));
    assert_eq!(watchdog_required(true, None), None);
    assert_eq!(watchdog_required(false, Some(30_000_000)), None);
}

#[test]
fn watchdog_is_petted_half_way() {
    let mut accepting = AcceptLoop::new(true, Some(3), 1_000);
    assert_eq!(accepting.next_pet(), 2_500);
    let action = accepting.step(AcceptEvent::PetDue { now: 2_600 });
    assert_eq!(action, AcceptAction::PetWatchdog);
    assert_eq!(accepting.next_pet(), 4_100);
}

#[test]
fn without_a_watchdog_no_report_falls_due() {
    let accepting = AcceptLoop::new(false, None, 5);
    assert_eq!(accepting.next_pet(), u32::MAX as u128 * 1_000_000_000 + 5);
}

#[test]
fn connections_are_served_until_interrupted() {
    let mut accepting = AcceptLoop::new(false, None, 0);
    assert_eq!(accepting.step(AcceptEvent::Accepted), AcceptAction::Serve);
    assert_eq!(accepting.step(AcceptEvent::Interrupted), AcceptAction::Stop);
}

#[test]
fn fatal_errors_give_up() {
    let failed = |kind, raw_os_error| AcceptEvent::Failed { kind, raw_os_error };
    let mut managed = AcceptLoop::new(true, None, 0);
    assert_eq!(
        managed.step(failed(IoErrorKind::OutOfMemory, Some(12))),
        AcceptAction::GiveUp { notify: Some(12) }
    );
    assert_eq!(
        managed.step(failed(IoErrorKind::OutOfMemory, Some(-1))),
        AcceptAction::GiveUp {
            notify: Some(-1i32 as u32)
        }
    );
    assert_eq!(
        managed.step(failed(IoErrorKind::NotFound, None)),
        AcceptAction::GiveUp { notify: None }
    );
    assert_eq!(
        managed.step(failed(IoErrorKind::Other, Some(12))),
        AcceptAction::KeepWaiting
    );
    let mut alone = AcceptLoop::new(false, None, 0);
    assert_eq!(
        alone.step(failed(IoErrorKind::AddrInUse, Some(98))),
        AcceptAction::GiveUp { notify: None }
    );
}

#[test]
fn fatal_kinds() {
    for kind in [
        IoErrorKind::NotFound,
        IoErrorKind::PermissionDenied,
        IoErrorKind::HostUnreachable,
        IoErrorKind::NetworkUnreachable,
        IoErrorKind::NotConnected,
        IoErrorKind::AddrInUse,
        IoErrorKind::AddrNotAvailable,
        IoErrorKind::NetworkDown,
        IoErrorKind::NotSeekable,
        IoErrorKind::QuotaExceeded,
        IoErrorKind::Unsupported,
        IoErrorKind::OutOfMemory,
    ] {
        assert!(is_fatal(kind));
    }
    for kind in [IoErrorKind::BrokenPipe, IoErrorKind::UnexpectedEof, IoErrorKind::Other] {
        assert!(!is_fatal(kind));
    }
}

#[test]
fn listener_is_chosen() {
    assert_eq!(
        choose_listener(true, &vec![3], true),
        ListenerChoice::Passed { fd: 3 }
    );
    assert_eq!(choose_listener(true, &vec![3, 4], false), ListenerChoice::TooManyPassed);
    assert_eq!(choose_listener(true, &vec![], true), ListenerChoice::NonePassed);
    assert_eq!(choose_listener(true, &vec![], false), ListenerChoice::FromEnvironment);
    assert_eq!(choose_listener(false, &vec![3], true), ListenerChoice::FromEnvironment);
}

#[test]
fn sockets_are_told_by_their_mode() {
    assert!(is_socket_mode(0o140777, 0o170000, 0o140000));
    assert!(!is_socket_mode(0o100644, 0o170000, 0o140000));
    assert!(!is_socket_mode(0o160000, 0o170000, 0o140000));
    assert!(is_listen_socket(0o140777, 0o170000, 0o140000, true));
    assert!(!is_listen_socket(0o140777, 0o170000, 0o140000, false));
    assert!(!is_listen_socket(0o100644, 0o170000, 0o140000, true));
}

#[test]
fn bind_address_is_chosen() {
    assert_eq!(
        choose_bind_address(None, None),
        Ok(BindAddress::Ipv4 {
            octets: [0, 0, 0, 0],
            port: 7269
        })
    );
    assert_eq!(
        choose_bind_address(None, text("127.0.0.1:80")),
        Ok(BindAddress::Written("127.0.0.1:80".to_string()))
    );
    assert_eq!(
        choose_bind_address(text("8080"), text("127.0.0.1:80")),
        Err(BindError::PortIsDeprecated)
    );
    assert_eq!(
        choose_bind_address(text("65536"), text("x")),
        Ok(BindAddress::Written("x".to_string()))
    );
}

#[test]
fn log_sinks() {
    let managed = log_plan(true);
    assert_eq!(managed.len(), 2);
    assert_eq!(managed[0].sink, LogSink::Console);
    assert_eq!(managed[0].level, LogLevel::Info);
    assert_eq!(
        managed[0].overrides,
        [
            ("ureq", LogLevel::Off),
            ("fenrir_rs", LogLevel::Trace),
            ("tracing::span", LogLevel::Off)
        ]
    );
    assert_eq!(managed[1].sink, LogSink::LogServer);
    assert_eq!(managed[1].level, LogLevel::Trace);
    assert!(managed[1].overrides.is_empty());
    let alone = log_plan(false);
    assert_eq!(alone.len(), 3);
    assert_eq!(alone[2].sink, LogSink::File);
    assert_eq!(alone[2].level, LogLevel::Debug);
    assert_eq!(
        alone[2].overrides,
        [
            ("tracing::span", LogLevel::Off),
            ("ureq", LogLevel::Warn),
            ("hyper", LogLevel::Warn),
            ("h2", LogLevel::Warn),
            ("rustls", LogLevel::Warn)
        ]
    );
}

#[test]
fn log_lines() {
    assert_eq!(
        console_line("37", "2024-01-01T00:00:00Z", "INFO", "stt", "ready"),
        "\x1B[37m[2024-01-01T00:00:00Z INFO stt \x1B[37m] ready\x1B[0m"
    );
    assert_eq!(
        file_line("2024-01-01T00:00:00Z", "INFO", "stt", "ready"),
        "[2024-01-01T00:00:00Z INFO stt] ready"
    );
    assert_eq!(log_server_line("\x1B[1mready\n"), "\x1B[1mready\n");
    assert_eq!(log_server_line(""), "");
}

#[test]
fn log_colors() {
    assert_eq!(line_color(LogLevel::Error), LogColor::Red);
    assert_eq!(line_color(LogLevel::Warn), LogColor::Yellow);
    assert_eq!(line_color(LogLevel::Info), LogColor::White);
    assert_eq!(line_color(LogLevel::Debug), LogColor::White);
    assert_eq!(line_color(LogLevel::Trace), LogColor::BrightBlack);
    assert_eq!(level_color(LogLevel::Info), LogColor::Green);
    assert_eq!(level_color(LogLevel::Error), LogColor::Red);
    assert_eq!(level_color(LogLevel::Trace), LogColor::BrightBlack);
}

#[test]
fn log_server_address() {
    assert_eq!(
        log_server_url(text("http://127.0.0.1:3100")),
        Ok("http://127.0.0.1:3100/".to_string())
    );
    assert_eq!(log_server_url(None), Err(LogServerError::NotSet));
    assert_eq!(log_server_url(text("127.0.0.1")), Err(LogServerError::InvalidUrl));
    assert_eq!(log_server(None), Err(LogServerError::InvalidUrl));
    assert_eq!(log_server(text("http://a/")), Ok("http://a/".to_string()));
}

#[test]
fn every_accepted_connection_is_served_and_none_moves_the_next_report() {
    let mut accepting = AcceptLoop::new(true, Some(10), 0);
    let failed = AcceptEvent::Failed {
        kind: IoErrorKind::Other,
        raw_os_error: None,
    };
    let mut served = 0;
    for event in [AcceptEvent::Accepted, failed, AcceptEvent::Accepted, AcceptEvent::Accepted] {
        if accepting.step(event) == AcceptAction::Serve {
            served += 1;
        }
        assert_eq!(accepting.next_pet(), 5_000);
    }
    assert_eq!(served, 3);
    accepting.step(AcceptEvent::PetDue { now: 5_100 });
    accepting.step(AcceptEvent::Accepted);
    assert_eq!(accepting.next_pet(), 10_100);
}

fn filter(level: LogLevel) -> LevelFilter {
    match level {
        LogLevel::Off => LevelFilter::Off,
        LogLevel::Error => LevelFilter::Error,
        LogLevel::Warn => LevelFilter::Warn,
        LogLevel::Info => LevelFilter::Info,
        LogLevel::Debug => LevelFilter::Debug,
        LogLevel::Trace => LevelFilter::Trace,
    }
}

/// A logger that follows a plan.
fn logger(plan: &SinkPlan) -> Box<dyn Log> {
    let mut dispatch = fern::Dispatch::new().level(filter(plan.level));
    for (target, level) in &plan.overrides {
        dispatch = dispatch.level_for(*target, filter(*level));
    }
    dispatch.chain(std::io::stdout()).into_log().1
}

/// The levels at which a logger takes records of a target.
fn taken(logger: &dyn Log, target: &str) -> Vec<Level> {
    [Level::Error, Level::Warn, Level::Info, Level::Debug, Level::Trace]
        .into_iter()
        .filter(|level| {
            logger.enabled(&Metadata::builder().level(*level).target(target).build())
        })
        .collect()
}

#[test]
fn log_records_are_taken_by_target_and_level() {
    let all = [Level::Error, Level::Warn, Level::Info, Level::Debug, Level::Trace];
    let plans = log_plan(false);
    let console = logger(&plans[0]);
    for target in ["fenrir_rs", "fenrir_rs::client", "fenrir_rs::a::b", "fenrir_rs::::a"] {
        assert_eq!(taken(&*console, target), all, "{}", target);
    }
    for target in ["ureq", "ureq::pool", "tracing::span", "tracing::span::active"] {
        assert!(taken(&*console, target).is_empty(), "{}", target);
    }
    // An odd number of colons parts nothing, and neither does one module's name in another's.
    for target in ["stt", "tracing", "ureq2", "ureq:::pool", "ureq:pool", "fenrir_rs:::a", ""] {
        assert_eq!(taken(&*console, target), all[..3], "{}", target);
    }
    let server = logger(&plans[1]);
    for target in ["stt", "ureq", "tracing::span", ""] {
        assert_eq!(taken(&*server, target), all, "{}", target);
    }
    let file = logger(&plans[2]);
    for target in ["ureq", "hyper::client", "h2", "rustls::client::tls13"] {
        assert_eq!(taken(&*file, target), all[..2], "{}", target);
    }
    assert!(taken(&*file, "tracing::span").is_empty());
    for target in ["stt", "fenrir_rs", "hyper_util", "h2:::frame"] {
        assert_eq!(taken(&*file, target), all[..4], "{}", target);
    }
}

fn start(managed: bool, set_up: bool, notified: bool) -> Vec<StartAction> {
    let mut done = Vec::new();
    let mut progress = StartProgress::Nothing;
    loop {
        let action = start_step(progress, managed);
        done.push(action);
        progress = match action {
            StartAction::SetUpLogging => StartProgress::LoggingSetUp(set_up),
            StartAction::LoadModels => StartProgress::ModelsLoaded,
            StartAction::OpenSocket => StartProgress::SocketOpened,
            StartAction::WatchForInterrupt => StartProgress::InterruptWatched,
            StartAction::StartClock => StartProgress::ClockStarted,
            StartAction::NotifyReady => StartProgress::ReadyNotified(notified),
            StartAction::Accept | StartAction::Fail(_) => return done,
        };
    }
}

#[test]
fn server_is_ready_once_it_can_accept() {
    let common = [
        StartAction::SetUpLogging,
        StartAction::LoadModels,
        StartAction::OpenSocket,
        StartAction::WatchForInterrupt,
        StartAction::StartClock,
    ];
    let managed = start(true, true, true);
    assert_eq!(managed[..5], common);
    assert_eq!(managed[5..], [StartAction::NotifyReady, StartAction::Accept]);
    let alone = start(false, true, true);
    assert_eq!(alone[..5], common);
    assert_eq!(alone[5..], [StartAction::Accept]);
}

#[test]
fn failed_steps_end_the_start() {
    assert_eq!(
        start(true, false, true),
        [
            StartAction::SetUpLogging,
            StartAction::Fail(StartFailure::LoggingAlreadySetUp)
        ]
    );
    assert_eq!(
        start(true, true, false)[5..],
        [
            StartAction::NotifyReady,
            StartAction::Fail(StartFailure::ManagerNotNotified)
        ]
    );
}
