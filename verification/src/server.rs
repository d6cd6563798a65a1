//! The server process: its settings, how it starts, the socket it listens on, and its accept loop.

use vstd::prelude::*;

use crate::error::IoErrorKind;
use crate::text::{parse_flag, parse_unsigned};

verus! {

/// What the server is started with.
#[derive(Debug, PartialEq, Eq)]
pub struct Settings {
    pub model_path: String,
    /// How many transcriptions may run at once.
    pub instances: usize,
}

/// What is wrong with the arguments.
#[derive(Clone, Copy, Debug, PartialEq, Eq, Structural)]
pub enum SettingsError {
    MissingModelPath,
    MissingInstances,
    MalformedInstances,
}

/// Reads the settings from the first two arguments.
pub fn read_settings(model_path: Option<String>, instances: Option<String>) -> (result: Result<
    Settings,
    SettingsError,
>)
    ensures
        match (model_path, instances) {
            (None, _) => result == Err::<Settings, _>(SettingsError::MissingModelPath),
            (Some(path), None) => result == Err::<Settings, _>(SettingsError::MissingInstances),
            (Some(path), Some(count)) => match crate::text::unsigned_value(
                count@,
                usize::MAX as nat,
            ) {
                None => result == Err::<Settings, _>(SettingsError::MalformedInstances),
                Some(n) => result matches Ok(settings) && settings.model_path == path
                    && settings.instances == n,
            },
        },
{
    let model_path: String = match model_path {
        Some(path) => path,
        None => {
            return Err(SettingsError::MissingModelPath);
        },
    };
    let instances: String = match instances {
        Some(count) => count,
        None => {
            return Err(SettingsError::MissingInstances);
        },
    };
    match parse_unsigned(instances.as_str(), usize::MAX as u64) {
        Some(n) => Ok(Settings { model_path, instances: n as usize }),
        None => Err(SettingsError::MalformedInstances),
    }
}

/// How far the start of the server has come. Loading the models and opening the socket either
/// work or end the process.
#[derive(Clone, Copy, Debug, PartialEq, Eq, Structural)]
pub enum StartProgress {
    Nothing,
    /// The loggers were set up, or could not be, because there were some before.
    LoggingSetUp(bool),
    ModelsLoaded,
    SocketOpened,
    InterruptWatched,
    ClockStarted,
    /// The service manager was told that the server is ready, or could not be.
    ReadyNotified(bool),
}

/// What to do next to start the server.
#[derive(Clone, Copy, Debug, PartialEq, Eq, Structural)]
pub enum StartAction {
    /// Set up the loggers. Works only once.
    SetUpLogging,
    /// Load the models, as the settings say.
    LoadModels,
    /// Get the socket to listen on.
    OpenSocket,
    /// Have an interrupt passed on to the connections.
    WatchForInterrupt,
    /// Start the clock of the watchdog.
    StartClock,
    /// Tell the service manager that the server is ready.
    NotifyReady,
    /// Accept connections.
    Accept,
    /// Give up.
    Fail(StartFailure),
}

/// Why the server was not started.
#[derive(Clone, Copy, Debug, PartialEq, Eq, Structural)]
pub enum StartFailure {
    /// The loggers were set up before.
    LoggingAlreadySetUp,
    /// The service manager could not be told.
    ManagerNotNotified,
}

/// The next step of the start.
pub open spec fn start_action(progress: StartProgress, under_system_manager: bool) -> StartAction {
    match progress {
        StartProgress::Nothing => StartAction::SetUpLogging,
        StartProgress::LoggingSetUp(true) => StartAction::LoadModels,
        StartProgress::LoggingSetUp(false) => StartAction::Fail(StartFailure::LoggingAlreadySetUp),
        StartProgress::ModelsLoaded => StartAction::OpenSocket,
        StartProgress::SocketOpened => StartAction::WatchForInterrupt,
        StartProgress::InterruptWatched => StartAction::StartClock,
        StartProgress::ClockStarted => if under_system_manager {
            StartAction::NotifyReady
        } else {
            StartAction::Accept
        },
        StartProgress::ReadyNotified(true) => StartAction::Accept,
        StartProgress::ReadyNotified(false) => StartAction::Fail(StartFailure::ManagerNotNotified),
    }
}

/// Starts the server, step by step.
pub fn start_step(progress: StartProgress, under_system_manager: bool) -> (action: StartAction)
    ensures
        action == start_action(progress, under_system_manager),
{
    match progress {
        StartProgress::Nothing => StartAction::SetUpLogging,
        StartProgress::LoggingSetUp(set_up) => if set_up {
            StartAction::LoadModels
        } else {
            StartAction::Fail(StartFailure::LoggingAlreadySetUp)
        },
        StartProgress::ModelsLoaded => StartAction::OpenSocket,
        StartProgress::SocketOpened => StartAction::WatchForInterrupt,
        StartProgress::InterruptWatched => StartAction::StartClock,
        StartProgress::ClockStarted => if under_system_manager {
            StartAction::NotifyReady
        } else {
            StartAction::Accept
        },
        StartProgress::ReadyNotified(notified) => if notified {
            StartAction::Accept
        } else {
            StartAction::Fail(StartFailure::ManagerNotNotified)
        },
    }
}

/// What performing a step leads to. `set_up` says whether the loggers can be set up, and
/// `notified` whether the service manager can be told.
pub open spec fn start_progress(
    action: StartAction,
    set_up: bool,
    notified: bool,
) -> Option<StartProgress> {
    match action {
        StartAction::SetUpLogging => Some(StartProgress::LoggingSetUp(set_up)),
        StartAction::LoadModels => Some(StartProgress::ModelsLoaded),
        StartAction::OpenSocket => Some(StartProgress::SocketOpened),
        StartAction::WatchForInterrupt => Some(StartProgress::InterruptWatched),
        StartAction::StartClock => Some(StartProgress::ClockStarted),
        StartAction::NotifyReady => Some(StartProgress::ReadyNotified(notified)),
        StartAction::Accept => None,
        StartAction::Fail(failure) => None,
    }
}

/// How many steps of the start lie ahead at most.
pub open spec fn start_steps_ahead(progress: StartProgress) -> nat {
    match progress {
        StartProgress::Nothing => 6,
        StartProgress::LoggingSetUp(set_up) => 5,
        StartProgress::ModelsLoaded => 4,
        StartProgress::SocketOpened => 3,
        StartProgress::InterruptWatched => 2,
        StartProgress::ClockStarted => 1,
        StartProgress::ReadyNotified(notified) => 0,
    }
}

/// All that is done to start the server from some point on, in order.
pub open spec fn start_run(
    progress: StartProgress,
    under_system_manager: bool,
    set_up: bool,
    notified: bool,
) -> Seq<StartAction>
    decreases start_steps_ahead(progress),
{
    let action = start_action(progress, under_system_manager);
    match start_progress(action, set_up, notified) {
        Some(next) => seq![action] + start_run(next, under_system_manager, set_up, notified),
        None => seq![action],
    }
}

/// The server starts in this order: it sets up its loggers, loads the models, opens its socket,
/// watches for an interrupt and starts the watchdog's clock. Then, under a service manager and
/// only there, it says once that it is ready, and only then does it accept connections. Loggers
/// that were set up before end the start at once.
pub proof fn law_server_is_ready_once_it_can_accept(
    under_system_manager: bool,
    set_up: bool,
    notified: bool,
)
    ensures
        start_run(StartProgress::Nothing, under_system_manager, set_up, notified) == if !set_up {
            seq![
                StartAction::SetUpLogging,
                StartAction::Fail(StartFailure::LoggingAlreadySetUp),
            ]
        } else {
            seq![
                StartAction::SetUpLogging,
                StartAction::LoadModels,
                StartAction::OpenSocket,
                StartAction::WatchForInterrupt,
                StartAction::StartClock,
            ] + if !under_system_manager {
                seq![StartAction::Accept]
            } else if notified {
                seq![StartAction::NotifyReady, StartAction::Accept]
            } else {
                seq![
                    StartAction::NotifyReady,
                    StartAction::Fail(StartFailure::ManagerNotNotified),
                ]
            }
        },
{
    reveal_with_fuel(start_run, 8);
}

/// Whether clients may go past the maximum utilization: only if the third argument is `true`.
pub fn can_overload(argument: Option<String>) -> (allowed: bool)
    ensures
        allowed == (argument matches Some(text) && text@ == "true"@),
{
    match argument {
        Some(text) => parse_flag(text.as_str()),
        None => false,
    }
}

/// After how many microseconds the service manager kills a process that does not report, if it
/// does at all. `watchdog` is what the manager says, if it has a watchdog on the process.
pub fn watchdog_required(under_system_manager: bool, watchdog: Option<u64>) -> (delay: Option<u64>)
    ensures
        delay == if under_system_manager {
            watchdog
        } else {
            None
        },
{
    if !under_system_manager {
        return None;
    }
    watchdog
}

/// Nanoseconds between two reports when no watchdog is on: as good as never.
pub const NO_WATCHDOG_INTERVAL: u128 = 4_294_967_295_000_000_000;

/// The nanoseconds between two reports to the watchdog: half the delay that is allowed, given in
/// microseconds.
pub open spec fn pet_interval(watchdog: Option<u64>) -> int {
    match watchdog {
        Some(delay) => delay * 1000 / 2,
        None => u32::MAX * 1_000_000_000,
    }
}

/// What happened while the server waited for a connection.
#[derive(Clone, Copy, Debug, PartialEq, Eq, Structural)]
pub enum AcceptEvent {
    /// A client connected.
    Accepted,
    /// The process was asked to end.
    Interrupted,
    /// A report to the watchdog fell due; `now` is the time in nanoseconds.
    PetDue { now: u128 },
    /// A connection could not be accepted.
    Failed { kind: IoErrorKind, raw_os_error: Option<i32> },
}

/// What the server does next.
#[derive(Clone, Copy, Debug, PartialEq, Eq, Structural)]
pub enum AcceptAction {
    /// Serve the connection, and wait for the next one.
    Serve,
    /// End.
    Stop,
    /// Report to the watchdog, and wait for the next connection.
    PetWatchdog,
    /// Wait for the next connection.
    KeepWaiting,
    /// Tell the service manager the error number, if there is one, and give up.
    GiveUp { notify: Option<u32> },
}

/// Whether an error means that no connection will ever be accepted.
pub open spec fn fatal(kind: IoErrorKind) -> bool {
    ||| kind is NotFound
    ||| kind is PermissionDenied
    ||| kind is HostUnreachable
    ||| kind is NetworkUnreachable
    ||| kind is NotConnected
    ||| kind is AddrInUse
    ||| kind is AddrNotAvailable
    ||| kind is NetworkDown
    ||| kind is NotSeekable
    ||| kind is QuotaExceeded
    ||| kind is Unsupported
    ||| kind is OutOfMemory
}

/// The number of the service manager's kind that has the same bits as an error number.
pub open spec fn errno_bits(error: i32) -> int {
    if error < 0 {
        error + 0x1_0000_0000
    } else {
        error as int
    }
}

/// The mathematical content of an [`AcceptLoop`].
#[verifier::ext_equal]
pub struct Accepting {
    /// Whether the server runs under a service manager.
    pub managed: bool,
    /// The nanoseconds between two reports to the watchdog.
    pub interval: int,
    /// When the next report falls due, in nanoseconds.
    pub due: int,
}

impl Accepting {
    /// Where an event leads and what to do then.
    pub open spec fn step(self, event: AcceptEvent) -> (Accepting, AcceptAction) {
        match event {
            AcceptEvent::Accepted => (self, AcceptAction::Serve),
            AcceptEvent::Interrupted => (self, AcceptAction::Stop),
            AcceptEvent::PetDue { now } => (
                Accepting { due: now + self.interval, ..self },
                AcceptAction::PetWatchdog,
            ),
            AcceptEvent::Failed { kind, raw_os_error } => (
                self,
                if !fatal(kind) {
                    AcceptAction::KeepWaiting
                } else {
                    AcceptAction::GiveUp {
                        notify: match raw_os_error {
                            Some(error) if self.managed => Some(errno_bits(error) as u32),
                            _ => None,
                        },
                    }
                },
            ),
        }
    }

    /// The loop after several events.
    pub open spec fn after(self, events: Seq<AcceptEvent>) -> Accepting
        decreases events.len(),
    {
        if events.len() == 0 {
            self
        } else {
            self.after(events.drop_last()).step(events.last()).0
        }
    }

    /// What is done about several events, one action for each.
    pub open spec fn actions(self, events: Seq<AcceptEvent>) -> Seq<AcceptAction>
        decreases events.len(),
    {
        if events.len() == 0 {
            Seq::empty()
        } else {
            self.actions(events.drop_last()).push(
                self.after(events.drop_last()).step(events.last()).1,
            )
        }
    }
}

/// How many clients connect in the course of several events.
pub open spec fn accepted(events: Seq<AcceptEvent>) -> nat
    decreases events.len(),
{
    if events.len() == 0 {
        0
    } else if events.last() is Accepted {
        accepted(events.drop_last()) + 1
    } else {
        accepted(events.drop_last())
    }
}

/// How many connections are served by several actions.
pub open spec fn served(actions: Seq<AcceptAction>) -> nat
    decreases actions.len(),
{
    if actions.len() == 0 {
        0
    } else if actions.last() is Serve {
        served(actions.drop_last()) + 1
    } else {
        served(actions.drop_last())
    }
}

/// The time of the last report to the watchdog in the course of several events.
pub open spec fn last_report(events: Seq<AcceptEvent>) -> Option<u128>
    decreases events.len(),
{
    if events.len() == 0 {
        None
    } else {
        match events.last() {
            AcceptEvent::PetDue { now } => Some(now),
            _ => last_report(events.drop_last()),
        }
    }
}

/// The accept loop of the server.
#[derive(Debug)]
pub struct AcceptLoop {
    under_system_manager: bool,
    interval: u128,
    next_pet: u128,
}

impl View for AcceptLoop {
    type V = Accepting;

    closed spec fn view(&self) -> Accepting {
        Accepting {
            managed: self.under_system_manager,
            interval: self.interval as int,
            due: self.next_pet as int,
        }
    }
}

impl AcceptLoop {
    /// A loop that starts at `now`. `watchdog` is what [`watchdog_required`] says.
    pub fn new(under_system_manager: bool, watchdog: Option<u64>, now: u128) -> (accepting:
        AcceptLoop)
        requires
            now + pet_interval(watchdog) <= u128::MAX,
        ensures
            accepting@ == (Accepting {
                managed: under_system_manager,
                interval: pet_interval(watchdog),
                due: now + pet_interval(watchdog),
            }),
    {
        let interval: u128 = match watchdog {
            Some(delay) => delay as u128 * 1000 / 2,
            None => NO_WATCHDOG_INTERVAL,
        };
        AcceptLoop { under_system_manager, interval, next_pet: now + interval }
    }

    /// When the next report to the watchdog falls due, in nanoseconds.
    pub fn next_pet(&self) -> (due: u128)
        ensures
            due == self@.due,
    {
        self.next_pet
    }

    /// Takes an event and says what to do next.
    pub fn step(&mut self, event: AcceptEvent) -> (action: AcceptAction)
        requires
            event matches AcceptEvent::PetDue { now } ==> now + old(self)@.interval <= u128::MAX,
        ensures
            (final(self)@, action) == old(self)@.step(event),
    {
        match event {
            AcceptEvent::Accepted => AcceptAction::Serve,
            AcceptEvent::Interrupted => AcceptAction::Stop,
            AcceptEvent::PetDue { now } => {
                self.next_pet = now + self.interval;
                AcceptAction::PetWatchdog
            },
            AcceptEvent::Failed { kind, raw_os_error } => if !is_fatal(kind) {
                AcceptAction::KeepWaiting
            } else if self.under_system_manager {
                match raw_os_error {
                    Some(error) => AcceptAction::GiveUp { notify: Some(same_bits(error)) },
                    None => AcceptAction::GiveUp { notify: None },
                }
            } else {
                AcceptAction::GiveUp { notify: None }
            },
        }
    }
}

/// Every client that connects is served, at once and once: each action is to serve exactly if a
/// client connected, so as many are served as connected.
pub proof fn law_every_accepted_connection_is_served(c: Accepting, events: Seq<AcceptEvent>)
    ensures
        c.actions(events).len() == events.len(),
        forall|i: int|
            0 <= i < events.len() ==> ((#[trigger] c.actions(events)[i]) is Serve
                <==> events[i] is Accepted),
        served(c.actions(events)) == accepted(events),
    decreases events.len(),
{
    if events.len() > 0 {
        let before = events.drop_last();
        law_every_accepted_connection_is_served(c, before);
        assert(c.actions(events).drop_last() =~= c.actions(before));
        assert forall|i: int| 0 <= i < events.len() implies ((
        #[trigger] c.actions(events)[i]) is Serve <==> events[i] is Accepted) by {
            if i < before.len() {
                assert(c.actions(events)[i] == c.actions(before)[i]);
                assert(events[i] == before[i]);
            }
        }
    }
}

/// Nothing but a report moves the time of the next one: whatever else happens, it falls due one
/// interval after the last report, or when it fell due from the start.
pub proof fn law_only_reports_move_the_next_one(c: Accepting, events: Seq<AcceptEvent>)
    ensures
        c.after(events).interval == c.interval,
        c.after(events).managed == c.managed,
        c.after(events).due == match last_report(events) {
            Some(now) => now + c.interval,
            None => c.due,
        },
    decreases events.len(),
{
    if events.len() > 0 {
        law_only_reports_move_the_next_one(c, events.drop_last());
    }
}

/// Whether an error means that no connection will ever be accepted.
pub fn is_fatal(kind: IoErrorKind) -> (b: bool)
    ensures
        b == fatal(kind),
{
    match kind {
        IoErrorKind::NotFound
        | IoErrorKind::PermissionDenied
        | IoErrorKind::HostUnreachable
        | IoErrorKind::NetworkUnreachable
        | IoErrorKind::NotConnected
        | IoErrorKind::AddrInUse
        | IoErrorKind::AddrNotAvailable
        | IoErrorKind::NetworkDown
        | IoErrorKind::NotSeekable
        | IoErrorKind::QuotaExceeded
        | IoErrorKind::Unsupported
        | IoErrorKind::OutOfMemory => true,
        _ => false,
    }
}

/// The unsigned number with the bits of `error`.
fn same_bits(error: i32) -> (bits: u32)
    ensures
        bits == errno_bits(error),
{
    if error < 0 {
        (error as i64 + 0x1_0000_0000) as u32
    } else {
        error as u32
    }
}

/// Two reports fit into the delay that the watchdog allows: the next one falls due no later than
/// half way.
pub proof fn law_reports_come_in_time(delay: u64, reported: int)
    requires
        delay > 0,
    ensures
        reported < reported + pet_interval(Some(delay)),
        reported + 2 * pet_interval(Some(delay)) == reported + delay * 1000,
{
    let micros: int = delay as int;
    assert(micros * 1000 / 2 == micros * 500) by (nonlinear_arith);
}

/// Where the listening socket comes from.
#[derive(Clone, Copy, Debug, PartialEq, Eq, Structural)]
pub enum ListenerChoice {
    /// This file descriptor, handed over by the service manager.
    Passed { fd: i32 },
    /// A socket of the server's own, as the environment says.
    FromEnvironment,
    /// Nowhere: the service manager handed over none, and one was demanded.
    NonePassed,
    /// Nowhere: the service manager handed over more than one.
    TooManyPassed,
}

/// Chooses where the listening socket comes from. `passed` are the file descriptors that the
/// service manager handed over, and `demanded` says whether the environment insists on one.
pub fn choose_listener(under_system_manager: bool, passed: &Vec<i32>, demanded: bool) -> (choice:
    ListenerChoice)
    ensures
        choice == if !under_system_manager {
            ListenerChoice::FromEnvironment
        } else if passed@.len() == 1 {
            ListenerChoice::Passed { fd: passed@[0] }
        } else if passed@.len() > 1 {
            ListenerChoice::TooManyPassed
        } else if demanded {
            ListenerChoice::NonePassed
        } else {
            ListenerChoice::FromEnvironment
        },
{
    if !under_system_manager {
        return ListenerChoice::FromEnvironment;
    }
    if passed.len() < 1 {
        if demanded {
            ListenerChoice::NonePassed
        } else {
            ListenerChoice::FromEnvironment
        }
    } else if passed.len() == 1 {
        ListenerChoice::Passed { fd: passed[0] }
    } else {
        ListenerChoice::TooManyPassed
    }
}

/// Whether a file mode is that of a socket. `format_mask` is the part of a mode that holds the
/// file type, and `socket_format` the type of a socket.
pub fn is_socket_mode(mode: u32, format_mask: u32, socket_format: u32) -> (b: bool)
    ensures
        b == (mode & format_mask == socket_format),
{
    mode & format_mask == socket_format
}

/// Whether the server can listen on a file descriptor that it was handed: the descriptor must be
/// a socket, and one for streams. A socket of another type does not do, since connections come
/// as streams. `stream_type` says whether a socket is of that type.
pub fn is_listen_socket(
    mode: u32,
    format_mask: u32,
    socket_format: u32,
    stream_type: bool,
) -> (b: bool)
    ensures
        b == (mode & format_mask == socket_format && stream_type),
{
    is_socket_mode(mode, format_mask, socket_format) && stream_type
}

/// The address to listen on.
#[derive(Debug, PartialEq, Eq)]
pub enum BindAddress {
    /// As it is written in the environment.
    Written(String),
    /// This one.
    Ipv4 { octets: [u8; 4], port: u16 },
}

/// What is wrong with the environment.
#[derive(Clone, Copy, Debug, PartialEq, Eq, Structural)]
pub enum BindError {
    /// `PORT` holds a port number. It is no longer used, and must not look as if it were.
    PortIsDeprecated,
}

/// The port to listen on when none is given.
pub const DEFAULT_PORT: u16 = 7269;

/// Chooses the address to listen on from the variables `PORT` and `BIND_ADDR`.
pub fn choose_bind_address(port: Option<String>, bind_addr: Option<String>) -> (result: Result<
    BindAddress,
    BindError,
>)
    ensures
        result is Err <==> (port matches Some(p) && crate::text::unsigned_value(
            p@,
            u16::MAX as nat,
        ) is Some),
        result matches Err(e) ==> e == BindError::PortIsDeprecated,
        result matches Ok(address) ==> match bind_addr {
            Some(written) => address == BindAddress::Written(written),
            None => address matches BindAddress::Ipv4 { octets, port } && octets@ == seq![
                0u8,
                0u8,
                0u8,
                0u8,
            ] && port == DEFAULT_PORT && port == 7269,
        },
{
    if let Some(port) = port {
        if parse_unsigned(port.as_str(), u16::MAX as u64).is_some() {
            return Err(BindError::PortIsDeprecated);
        }
    }
    match bind_addr {
        Some(written) => Ok(BindAddress::Written(written)),
        None => {
            let octets: [u8; 4] = [0, 0, 0, 0];
            assert(octets@ =~= seq![0u8, 0u8, 0u8, 0u8]);
            Ok(BindAddress::Ipv4 { octets, port: DEFAULT_PORT })
        },
    }
}

/// The watchdog is told every half of the delay that it allows, whatever the delay; without a
/// watchdog the next report is as many seconds away as 32 bits can count.
pub proof fn law_report_interval_is_half_the_delay(delay: u64)
    ensures
        2 * pet_interval(Some(delay)) == delay * 1000,
        pet_interval(None) == 4_294_967_295 * 1_000_000_000,
{
    let micros: int = delay as int;
    assert(micros * 1000 / 2 == micros * 500) by (nonlinear_arith);
}

/// Accepting goes on after a broken pipe, an early end and any kind of error that is not told
/// apart, and after no other.
pub proof fn law_accepting_survives_only_passing_errors(kind: IoErrorKind)
    ensures
        !fatal(kind) <==> kind is BrokenPipe || kind is UnexpectedEof || kind is Other,
{
}

/// The number that the service manager is told has the bits of the error number: it is the same
/// number up to a multiple of two to the thirty-second, and not negative.
pub proof fn law_error_number_keeps_its_bits(error: i32)
    ensures
        0 <= errno_bits(error) < 0x1_0000_0000,
        (errno_bits(error) - error) % 0x1_0000_0000 == 0,
        error >= 0 ==> errno_bits(error) == error,
{
}

/// What each event of the accept loop leads to: a client is served, an interrupt stops, a report
/// that fell due is made and the next one falls due an interval later; a passing error changes
/// nothing, and any other makes the server give up, telling the manager the error number if there
/// is both.
pub proof fn law_what_accepting_leads_to(
    c: Accepting,
    now: u128,
    kind: IoErrorKind,
    raw_os_error: Option<i32>,
)
    ensures
        c.step(AcceptEvent::Accepted) == (c, AcceptAction::Serve),
        c.step(AcceptEvent::Interrupted) == (c, AcceptAction::Stop),
        c.step(AcceptEvent::PetDue { now }).0.due == now + c.interval,
        c.step(AcceptEvent::PetDue { now }).0.interval == c.interval,
        c.step(AcceptEvent::PetDue { now }).0.managed == c.managed,
        c.step(AcceptEvent::PetDue { now }).1 is PetWatchdog,
        c.step(AcceptEvent::Failed { kind, raw_os_error }).0 == c,
        match c.step(AcceptEvent::Failed { kind, raw_os_error }).1 {
            AcceptAction::KeepWaiting => kind is BrokenPipe || kind is UnexpectedEof
                || kind is Other,
            AcceptAction::GiveUp { notify } => {
                &&& !(kind is BrokenPipe || kind is UnexpectedEof || kind is Other)
                &&& notify is Some <==> c.managed && raw_os_error is Some
                &&& notify matches Some(told) ==> (told - raw_os_error->0) % 0x1_0000_0000 == 0
            },
            _ => false,
        },
{
}

} // verus!
